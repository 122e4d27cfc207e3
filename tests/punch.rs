use punch::clock::{is_valid_time, MAX_TIME};
use punch::ledger::{render_entry, total_line, ReportEntry};
use punch::store::{Interval, PunchError, Store};
use punch::text::{decimal, display_mins, from_billed};

const MIN: i64 = 60_000;
const T0: i64 = 1_700_000_000_000;

fn row(id: i64, task: &str, in_time: i64, out_time: Option<i64>, billed: &str) -> Interval {
    Interval {
        id,
        task: task.to_string(),
        in_time,
        out_time,
        billed: billed.to_string(),
    }
}

fn open_count(s: &Store) -> usize {
    s.intervals().iter().filter(|iv| iv.out_time.is_none()).count()
}

#[test]
fn duration_formatting_under_an_hour() {
    assert_eq!(display_mins(45), "45 minutes");
    assert_eq!(display_mins(0), "0 minutes");
    assert_eq!(display_mins(59), "59 minutes");
}

#[test]
fn duration_formatting_at_and_over_an_hour() {
    assert_eq!(display_mins(60), "1 hours 0 minutes");
    assert_eq!(display_mins(125), "2 hours 5 minutes");
    assert_eq!(display_mins(1500), "25 hours 0 minutes");
}

#[test]
fn decimal_digits() {
    assert_eq!(decimal(0), "0");
    assert_eq!(decimal(7), "7");
    assert_eq!(decimal(1234567890), "1234567890");
    assert_eq!(decimal(u128::MAX), u128::MAX.to_string());
}

#[test]
fn billed_labels() {
    assert_eq!(from_billed("n".to_string()), "No");
    assert_eq!(from_billed("y".to_string()), "Yes");
    assert_eq!(from_billed("other".to_string()), "Yes");
}

#[test]
fn valid_time_bounds() {
    assert!(is_valid_time(0));
    assert!(is_valid_time(MAX_TIME));
    assert!(!is_valid_time(-1));
    assert!(!is_valid_time(MAX_TIME + 1));
}

#[test]
fn punch_in_on_fresh_store() {
    let mut s = Store::new();
    let r = s.punch_in("writing".to_string(), T0);
    match r {
        Ok(p) => {
            assert_eq!(p.id, 1);
            assert_eq!(p.task, "writing");
            assert_eq!(p.in_time, T0);
        }
        Err(e) => panic!("unexpected {:?}", e),
    }
    assert_eq!(s.intervals().len(), 1);
    assert_eq!(s.intervals()[0].billed, "n");
    assert_eq!(s.intervals()[0].out_time, None);
    assert_eq!(s.next_id(), 2);
}

#[test]
fn second_punch_in_is_rejected() {
    let mut s = Store::new();
    assert!(s.punch_in("a".to_string(), T0).is_ok());
    let second = s.punch_in("a".to_string(), T0 + MIN);
    assert!(matches!(second, Err(PunchError::AlreadyPunchedIn)));
    assert_eq!(s.intervals().len(), 1);
    assert_eq!(s.intervals()[0].in_time, T0);
}

#[test]
fn punch_in_on_other_task_is_rejected_while_open() {
    let mut s = Store::new();
    assert!(s.punch_in("a".to_string(), T0).is_ok());
    let other = s.punch_in("b".to_string(), T0 + MIN);
    assert!(matches!(other, Err(PunchError::AlreadyPunchedIn)));
    assert_eq!(s.intervals().len(), 1);
}

#[test]
fn punch_out_on_fresh_store() {
    let mut s = Store::new();
    let r = s.punch_out(T0);
    assert!(matches!(r, Err(PunchError::NotPunchedIn)));
    assert_eq!(s.intervals().len(), 0);
    assert_eq!(s.next_id(), 1);
}

#[test]
fn at_most_one_open_over_a_sequence() {
    let mut s = Store::new();
    let mut t = T0;
    for k in 0..10 {
        if k % 3 == 2 {
            let _ = s.punch_out(t);
        } else {
            let _ = s.punch_in(format!("t{}", k), t);
        }
        assert!(open_count(&s) <= 1);
        t += MIN;
    }
}

#[test]
fn round_trip_with_given_times() {
    let mut s = Store::new();
    assert!(s.punch_in("writing".to_string(), T0).is_ok());
    let out = s.punch_out(T0 + 125 * MIN + 59_999);
    match out {
        Ok(p) => {
            assert_eq!(p.id, 1);
            assert_eq!(p.task, "writing");
            assert_eq!(p.out_time, T0 + 125 * MIN + 59_999);
            assert_eq!(p.minutes, 125);
        }
        Err(e) => panic!("unexpected {:?}", e),
    }
    let rep = s.list(&"writing".to_string(), false).unwrap();
    assert_eq!(rep.entries().len(), 1);
    assert_eq!(rep.total_ms(), (125 * MIN + 59_999) as u128);
    assert_eq!(rep.total_minutes(), 125);
    let lines = rep.lines();
    assert_eq!(lines.last().unwrap(), "Total: 2 hours 5 minutes");
}

#[test]
fn round_trip_with_the_clock() {
    let mut s = Store::new();
    let inn = s.punch_in("writing".to_string(), chrono::Utc::now().timestamp_millis());
    let in_time = match inn {
        Ok(p) => p.in_time,
        Err(e) => panic!("unexpected {:?}", e),
    };
    let out = s.punch_out(chrono::Utc::now().timestamp_millis());
    let (out_time, minutes) = match out {
        Ok(p) => (p.out_time, p.minutes),
        Err(e) => panic!("unexpected {:?}", e),
    };
    assert!(out_time >= in_time);
    assert!(out_time - in_time < 10 * MIN);
    let rep = s.list(&"writing".to_string(), false).unwrap();
    assert_eq!(rep.total_ms(), (out_time - in_time) as u128);
    assert_eq!(rep.total_minutes(), minutes as u128);
}

#[test]
fn punch_out_with_clock_behind_closes_at_in_time() {
    let mut s = Store::new();
    assert!(s.punch_in("a".to_string(), T0).is_ok());
    match s.punch_out(T0 - 5 * MIN) {
        Ok(p) => {
            assert_eq!(p.out_time, T0);
            assert_eq!(p.minutes, 0);
        }
        Err(e) => panic!("unexpected {:?}", e),
    }
    assert_eq!(s.intervals()[0].out_time, Some(T0));
}

#[test]
fn punch_out_closes_latest_open() {
    let rows = vec![
        row(1, "a", T0, None, "n"),
        row(2, "b", T0 + 5 * MIN, None, "n"),
        row(3, "c", T0 + 2 * MIN, None, "n"),
    ];
    let mut s = Store::from_rows(rows).unwrap();
    assert_eq!(s.find_open_interval(), Some(1));
    match s.punch_out(T0 + 10 * MIN) {
        Ok(p) => {
            assert_eq!(p.id, 2);
            assert_eq!(p.task, "b");
            assert_eq!(p.minutes, 5);
        }
        Err(e) => panic!("unexpected {:?}", e),
    }
    assert_eq!(s.intervals()[1].out_time, Some(T0 + 10 * MIN));
    assert_eq!(s.intervals()[0].out_time, None);
}

fn billed_store() -> Store {
    let rows = vec![
        row(1, "x", T0, Some(T0 + 10 * MIN), "n"),
        row(2, "x", T0 + 60 * MIN, Some(T0 + 80 * MIN), "y"),
        row(3, "other", T0 + 90 * MIN, Some(T0 + 95 * MIN), "n"),
        row(4, "x", T0 + 100 * MIN, Some(T0 + 130 * MIN), "n"),
    ];
    Store::from_rows(rows).unwrap()
}

#[test]
fn billed_filter_hides_billed() {
    let s = billed_store();
    let rep = s.list(&"x".to_string(), false).unwrap();
    assert_eq!(rep.entries().len(), 2);
    assert_eq!(rep.total_minutes(), 40);
    assert_eq!(rep.entries()[0].duration_ms, 10 * MIN);
    assert_eq!(rep.entries()[1].duration_ms, 30 * MIN);
    assert_eq!(rep.lines().last().unwrap(), "Total: 40 minutes");
}

#[test]
fn billed_filter_shows_billed() {
    let s = billed_store();
    let rep = s.list(&"x".to_string(), true).unwrap();
    assert_eq!(rep.entries().len(), 3);
    assert_eq!(rep.total_minutes(), 60);
    assert_eq!(rep.entries()[1].billed, "y");
    assert_eq!(rep.lines().last().unwrap(), "Total: 1 hours 0 minutes");
}

#[test]
fn list_of_unknown_task_is_empty_result() {
    let s = billed_store();
    assert!(matches!(s.list(&"nonexistent".to_string(), false), Err(PunchError::EmptyResult)));
    let fresh = Store::new();
    assert!(matches!(fresh.list(&"nonexistent".to_string(), false), Err(PunchError::EmptyResult)));
}

#[test]
fn list_of_only_billed_intervals_is_not_empty_result() {
    let s = Store::from_rows(vec![row(1, "x", T0, Some(T0 + MIN), "y")]).unwrap();
    let rep = s.list(&"x".to_string(), false).unwrap();
    assert_eq!(rep.entries().len(), 0);
    assert_eq!(rep.lines(), vec!["Total: 0 minutes".to_string()]);
}

#[test]
fn task_match_is_case_sensitive() {
    let s = billed_store();
    assert!(matches!(s.list(&"X".to_string(), true), Err(PunchError::EmptyResult)));
}

#[test]
fn open_interval_counts_zero() {
    let mut s = Store::new();
    assert!(s.punch_in("a".to_string(), T0).is_ok());
    let rep = s.list(&"a".to_string(), false).unwrap();
    assert_eq!(rep.entries().len(), 1);
    assert_eq!(rep.entries()[0].duration_ms, 0);
    assert_eq!(rep.total_ms(), 0);
}

#[test]
fn report_lines_text() {
    let s = billed_store();
    let rep = s.list(&"x".to_string(), true).unwrap();
    let lines = rep.lines();
    assert_eq!(lines.len(), 4);
    assert_eq!(lines[0], "x\n  Date: 2023-11-14\n  Duration: 10 minutes\n  Billed: No");
    assert_eq!(lines[1], "x\n  Date: 2023-11-14\n  Duration: 20 minutes\n  Billed: Yes");
    assert_eq!(lines[3], "Total: 1 hours 0 minutes");
}

#[test]
fn render_entry_date_and_duration() {
    let e = ReportEntry {
        task: "deep work".to_string(),
        in_time: 0,
        duration_ms: 61 * MIN + 1,
        billed: "n".to_string(),
    };
    assert_eq!(
        render_entry(&e),
        "deep work\n  Date: 1970-01-01\n  Duration: 1 hours 1 minutes\n  Billed: No"
    );
    let last = ReportEntry {
        task: "t".to_string(),
        in_time: MAX_TIME,
        duration_ms: 0,
        billed: "y".to_string(),
    };
    assert_eq!(render_entry(&last), "t\n  Date: 9999-12-31\n  Duration: 0 minutes\n  Billed: Yes");
}

#[test]
fn total_line_text() {
    assert_eq!(total_line(0), "Total: 0 minutes");
    assert_eq!(total_line((45 * MIN + 59_999) as u128), "Total: 45 minutes");
}

#[test]
fn from_rows_sets_next_id() {
    let s = billed_store();
    assert_eq!(s.next_id(), 5);
    let gaps = Store::from_rows(vec![row(9, "a", T0, Some(T0), "n"), row(3, "b", T0, Some(T0), "n")]).unwrap();
    assert_eq!(gaps.next_id(), 10);
    assert_eq!(Store::from_rows(Vec::new()).unwrap().next_id(), 1);
}

#[test]
fn from_rows_rejects_bad_rows() {
    let backwards = Store::from_rows(vec![row(1, "a", T0, Some(T0 - 1), "n")]);
    assert!(matches!(backwards, Err(PunchError::StorageFailure)));
    let negative = Store::from_rows(vec![row(1, "a", -1, None, "n")]);
    assert!(matches!(negative, Err(PunchError::StorageFailure)));
    let last_id = Store::from_rows(vec![row(i64::MAX, "a", T0, None, "n")]);
    assert!(matches!(last_id, Err(PunchError::StorageFailure)));
}

#[test]
fn punch_in_without_id_left_is_storage_failure() {
    let mut s = Store::from_rows(vec![row(i64::MAX - 1, "a", T0, Some(T0), "n")]).unwrap();
    assert_eq!(s.next_id(), i64::MAX);
    assert!(matches!(s.punch_in("b".to_string(), T0), Err(PunchError::StorageFailure)));
    assert_eq!(s.intervals().len(), 1);
}

#[test]
fn punch_in_with_clock_out_of_range() {
    let mut s = Store::new();
    assert!(matches!(s.punch_in("a".to_string(), -1), Err(PunchError::ClockOutOfRange)));
    assert!(matches!(s.punch_in("a".to_string(), MAX_TIME + 1), Err(PunchError::ClockOutOfRange)));
    assert_eq!(s.intervals().len(), 0);
    assert_eq!(s.next_id(), 1);
    assert!(s.punch_in("a".to_string(), T0).is_ok());
    assert!(matches!(s.punch_in("b".to_string(), -1), Err(PunchError::AlreadyPunchedIn)));
}

#[test]
fn punch_out_with_clock_out_of_range() {
    let mut s = Store::new();
    assert!(matches!(s.punch_out(-1), Err(PunchError::NotPunchedIn)));
    assert!(s.punch_in("a".to_string(), T0).is_ok());
    assert!(matches!(s.punch_out(i64::MIN), Err(PunchError::ClockOutOfRange)));
    assert!(matches!(s.punch_out(MAX_TIME + 1), Err(PunchError::ClockOutOfRange)));
    assert_eq!(s.intervals()[0].out_time, None);
    assert!(s.punch_out(T0 + MIN).is_ok());
    assert_eq!(s.intervals()[0].out_time, Some(T0 + MIN));
}
