//! Reports of the time spent on a task: which intervals count, their
//! durations and total, and the text a report reads as.

use vstd::prelude::*;
use vstd::string::StringExecFns;
use crate::clock::{valid_time, ymd_of, date_of, MAX_TIME};
use crate::store::{IntervalModel, Store, PunchError, row_valid};
use crate::text::{mins_text, billed_label, display_mins, from_billed};

verus! {

/// Whether `iv` belongs in a report on `task`: same task, and not billed
/// unless billed intervals are shown.
pub open spec fn included(iv: IntervalModel, task: Seq<char>, show_billed: bool) -> bool {
    iv.task == task && (show_billed || iv.billed != seq!['y'])
}

/// The length of a closed interval in milliseconds; an open one counts zero.
pub open spec fn duration_of(iv: IntervalModel) -> int {
    match iv.out_time {
        Some(o) => o - iv.in_time,
        None => 0,
    }
}

/// The intervals of `rows` that a report on `task` lists, in order.
pub open spec fn report_rows(rows: Seq<IntervalModel>, task: Seq<char>, show_billed: bool) -> Seq<IntervalModel>
    decreases rows.len(),
{
    if rows.len() == 0 {
        Seq::empty()
    } else {
        let rest = report_rows(rows.drop_last(), task, show_billed);
        if included(rows.last(), task, show_billed) { rest.push(rows.last()) } else { rest }
    }
}

/// The sum of the durations of `rows`.
pub open spec fn total_of(rows: Seq<IntervalModel>) -> int
    decreases rows.len(),
{
    if rows.len() == 0 { 0 } else { total_of(rows.drop_last()) + duration_of(rows.last()) }
}

/// Whether some interval of `rows` is on `task`.
pub open spec fn has_task(rows: Seq<IntervalModel>, task: Seq<char>) -> bool {
    exists|i: int| 0 <= i < rows.len() && (#[trigger] rows[i]).task == task
}

/// One line item of a report.
pub struct ReportEntry {
    pub task: String,
    pub in_time: i64,
    pub duration_ms: i64,
    pub billed: String,
}

/// Whether `e` is the line item of interval `iv`.
pub open spec fn entry_of(e: ReportEntry, iv: IntervalModel) -> bool {
    &&& e.task@ == iv.task
    &&& e.in_time == iv.in_time
    &&& e.duration_ms == duration_of(iv)
    &&& e.billed@ == iv.billed
}

/// The text of one line item.
pub open spec fn entry_text(e: ReportEntry) -> Seq<char> {
    e.task@ + "\n  Date: "@ + ymd_of(e.in_time as int) + "\n  Duration: "@ + mins_text(
        (e.duration_ms / 60000) as nat,
    ) + "\n  Billed: "@ + billed_label(e.billed@)
}

/// The closing line of a report.
pub open spec fn total_text(total_ms: u128) -> Seq<char> {
    "Total: "@ + mins_text((total_ms / 60000) as nat)
}

/// The report on one task: its line items in store order and their total.
pub struct Report {
    entries: Vec<ReportEntry>,
    total_ms: u128,
}

impl Report {
    #[verifier::type_invariant]
    spec fn inv(&self) -> bool {
        forall|k: int|
            0 <= k < self.entries@.len() ==> valid_time(#[trigger] self.entries@[k].in_time) && 0
                <= self.entries@[k].duration_ms <= MAX_TIME
    }

    pub closed spec fn entries_view(&self) -> Seq<ReportEntry> {
        self.entries@
    }

    pub closed spec fn total_view(&self) -> u128 {
        self.total_ms
    }

    /// The line items.
    pub fn entries(&self) -> (r: &Vec<ReportEntry>)
        ensures
            r@ == self.entries_view(),
    {
        &self.entries
    }

    /// The total duration in milliseconds.
    pub fn total_ms(&self) -> (r: u128)
        ensures
            r == self.total_view(),
    {
        self.total_ms
    }

    /// The total in whole minutes, rounded down.
    pub fn total_minutes(&self) -> (r: u128)
        ensures
            r == self.total_view() / 60000,
    {
        self.total_ms / 60000
    }

    /// The report as text: one item per line item, then the total.
    pub fn lines(&self) -> (r: Vec<String>)
        ensures
            r@.len() == self.entries_view().len() + 1,
            forall|k: int| 0 <= k < self.entries_view().len() ==> (#[trigger] r@[k])@ == entry_text(self.entries_view()[k]),
            r@.last()@ == total_text(self.total_view()),
    {
        proof {
            use_type_invariant(self);
        }
        let mut out: Vec<String> = Vec::new();
        let mut k: usize = 0;
        while k < self.entries.len()
            invariant
                0 <= k <= self.entries@.len(),
                out@.len() == k,
                forall|j: int| 0 <= j < k ==> (#[trigger] out@[j])@ == entry_text(self.entries@[j]),
                forall|j: int|
                    0 <= j < self.entries@.len() ==> valid_time(#[trigger] self.entries@[j].in_time) && 0
                        <= self.entries@[j].duration_ms <= MAX_TIME,
            decreases self.entries@.len() - k,
        {
            let line = render_entry(&self.entries[k]);
            out.push(line);
            k = k + 1;
        }
        out.push(total_line(self.total_ms));
        out
    }
}

/// The text of one line item: task, date, duration and billed flag.
pub fn render_entry(e: &ReportEntry) -> (r: String)
    requires
        valid_time(e.in_time),
        e.duration_ms >= 0,
    ensures
        r@ == entry_text(*e),
{
    let mut s = e.task.clone();
    s.append("\n  Date: ");
    let date = date_of(e.in_time);
    match date {
        Some(d) => s.append(d.as_str()),
        None => {},
    }
    s.append("\n  Duration: ");
    let mins = display_mins((e.duration_ms / 60000) as u128);
    s.append(mins.as_str());
    s.append("\n  Billed: ");
    let label = from_billed(e.billed.clone());
    s.append(label.as_str());
    assert(s@ =~= entry_text(*e));
    s
}

/// The closing line of a report: "Total: " and the total in minutes.
pub fn total_line(total_ms: u128) -> (r: String)
    ensures
        r@ == total_text(total_ms),
{
    let mut s = String::from_str("Total: ");
    let mins = display_mins(total_ms / 60000);
    s.append(mins.as_str());
    assert(s@ =~= total_text(total_ms));
    s
}

impl Store {
    /// The report on `task`: its intervals in store order, billed ones left
    /// out unless `show_billed`, with their durations and total. Fails with
    /// `EmptyResult` when no interval is on `task`.
    pub fn list(&self, task: &String, show_billed: bool) -> (r: Result<Report, PunchError>)
        requires
            self.wf(),
        ensures
            r is Err <==> !has_task(self@.rows, task@),
            r matches Err(e) ==> e == PunchError::EmptyResult,
            r matches Ok(rep) ==> ({
                let rr = report_rows(self@.rows, task@, show_billed);
                &&& rep.entries_view().len() == rr.len()
                &&& forall|k: int| 0 <= k < rr.len() ==> entry_of(#[trigger] rep.entries_view()[k], rr[k])
                &&& rep.total_view() == total_of(rr)
            }),
    {
        let rows = self.intervals();
        let ghost model = self@.rows;
        let y = String::from_str("y");
        proof {
            reveal_strlit("y");
            assert(y@ =~= seq!['y']);
        }
        let mut entries: Vec<ReportEntry> = Vec::new();
        let mut total: u128 = 0;
        let mut found = false;
        let mut i: usize = 0;
        while i < rows.len()
            invariant
                0 <= i <= rows@.len(),
                model == rows@.map_values(|iv: crate::store::Interval| iv@),
                model == self@.rows,
                self.wf(),
                y@ == seq!['y'],
                entries@.len() == report_rows(model.subrange(0, i as int), task@, show_billed).len(),
                forall|k: int| 0 <= k < entries@.len() ==> entry_of(#[trigger] entries@[k],
                    report_rows(model.subrange(0, i as int), task@, show_billed)[k]),
                forall|k: int|
                    0 <= k < entries@.len() ==> valid_time(#[trigger] entries@[k].in_time) && 0
                        <= entries@[k].duration_ms <= MAX_TIME,
                total == total_of(report_rows(model.subrange(0, i as int), task@, show_billed)),
                total <= i * MAX_TIME,
                found <==> has_task(model.subrange(0, i as int), task@),
            decreases rows@.len() - i,
        {
            let ghost before = model.subrange(0, i as int);
            let ghost after = model.subrange(0, i as int + 1);
            proof {
                assert(after.drop_last() =~= before);
                assert(after.last() == model[i as int]);
                assert(model[i as int] == rows@[i as int]@);
                assert(row_valid(model[i as int]));
            }
            let iv = &rows[i];
            let duration: i64 = match iv.out_time {
                Some(o) => o - iv.in_time,
                None => 0,
            };
            proof {
                assert((i as int + 1) * MAX_TIME == i as int * MAX_TIME + MAX_TIME) by (nonlinear_arith);
            }
            if iv.task == *task {
                if !found {
                    assert(after[i as int].task == task@);
                }
                found = true;
                if show_billed || !(iv.billed == y) {
                    proof {
                        assert(i < 0x1_0000_0000_0000_0000);
                        assert(i as int * MAX_TIME < 0x1_0000_0000_0000_0000 * MAX_TIME) by (nonlinear_arith)
                            requires i < 0x1_0000_0000_0000_0000;
                    }
                    total = total + duration as u128;
                    entries.push(ReportEntry {
                        task: iv.task.clone(),
                        in_time: iv.in_time,
                        duration_ms: duration,
                        billed: iv.billed.clone(),
                    });
                    proof {
                        let ra = report_rows(after, task@, show_billed);
                        let rb = report_rows(before, task@, show_billed);
                        assert(ra == rb.push(model[i as int]));
                        assert(ra.drop_last() =~= rb);
                        assert(total_of(ra) == total_of(rb) + duration_of(model[i as int]));
                        assert(forall|k: int| 0 <= k < rb.len() ==> ra[k] == rb[k]);
                    }
                }
            } else {
                proof {
                    assert(has_task(after, task@) ==> has_task(before, task@)) by {
                        if has_task(after, task@) {
                            let j = choose|j: int| 0 <= j < after.len() && (#[trigger] after[j]).task == task@;
                            assert(before[j] == after[j]);
                        }
                    }
                }
            }
            proof {
                if has_task(before, task@) {
                    let j = choose|j: int| 0 <= j < before.len() && (#[trigger] before[j]).task == task@;
                    assert(after[j] == before[j]);
                }
            }
            i = i + 1;
        }
        assert(model.subrange(0, i as int) =~= model);
        if !found {
            return Err(PunchError::EmptyResult);
        }
        Ok(Report { entries, total_ms: total })
    }
}

} // verus!
