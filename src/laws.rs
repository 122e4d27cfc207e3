//! Properties of the punch state machine and of reports that span several
//! operations.

use vstd::prelude::*;
use crate::clock::valid_time;
use crate::store::{
    IntervalModel, StoreModel, is_open, at_most_one_open, store_wf, latest_open, latest_open_upto,
    lemma_latest_open, step_in, step_out, close_at, new_row,
};
use crate::ledger::{has_task, report_rows, total_of, duration_of, included};

verus! {

/// A punch in on a task at an instant, or a punch out at an instant.
pub enum PunchEvent {
    In(Seq<char>, i64),
    Out(i64),
}

/// The store after one punch.
pub open spec fn apply(m: StoreModel, e: PunchEvent) -> StoreModel {
    match e {
        PunchEvent::In(task, now) => step_in(m, task, now),
        PunchEvent::Out(now) => step_out(m, now),
    }
}

/// The store after the punches of `evs`, in order.
pub open spec fn run(m: StoreModel, evs: Seq<PunchEvent>) -> StoreModel
    decreases evs.len(),
{
    if evs.len() == 0 {
        m
    } else {
        run(apply(m, evs[0]), evs.drop_first())
    }
}

/// A punch in keeps at most one interval open.
pub proof fn lemma_step_in_single_open(m: StoreModel, task: Seq<char>, now: i64)
    requires
        at_most_one_open(m.rows),
    ensures
        at_most_one_open(step_in(m, task, now).rows),
{
    lemma_latest_open(m.rows);
    let r = step_in(m, task, now).rows;
    if latest_open(m.rows) is None && m.next_id != i64::MAX {
        assert forall|i: int, j: int|
            0 <= i < r.len() && 0 <= j < r.len() && is_open(#[trigger] r[i]) && is_open(#[trigger] r[j])
                implies i == j by {
            if i < m.rows.len() {
                assert(r[i] == m.rows[i]);
            }
            if j < m.rows.len() {
                assert(r[j] == m.rows[j]);
            }
        }
    }
}

/// A punch out keeps at most one interval open; from a store with at most
/// one open, at a reading in range, it leaves none.
pub proof fn lemma_step_out_single_open(m: StoreModel, now: i64)
    requires
        at_most_one_open(m.rows),
    ensures
        at_most_one_open(step_out(m, now).rows),
        valid_time(now) ==> forall|j: int|
            0 <= j < m.rows.len() ==> !is_open(#[trigger] step_out(m, now).rows[j]),
{
    lemma_latest_open(m.rows);
    let r = step_out(m, now).rows;
    match latest_open(m.rows) {
        None => {},
        Some(k) => if valid_time(now) {
            assert forall|j: int| 0 <= j < m.rows.len() implies !is_open(#[trigger] r[j]) by {
                if j != k {
                    assert(r[j] == m.rows[j]);
                }
            }
        },
    }
}

/// After any sequence of punch ins and punch outs, at most one interval is
/// open, provided at most one was at the start (as in an empty store).
pub proof fn lemma_punches_keep_single_open(m: StoreModel, evs: Seq<PunchEvent>)
    requires
        at_most_one_open(m.rows),
    ensures
        at_most_one_open(run(m, evs).rows),
    decreases evs.len(),
{
    if evs.len() > 0 {
        match evs[0] {
            PunchEvent::In(task, now) => lemma_step_in_single_open(m, task, now),
            PunchEvent::Out(now) => lemma_step_out_single_open(m, now),
        }
        lemma_punches_keep_single_open(apply(m, evs[0]), evs.drop_first());
    }
}

proof fn lemma_upto_push(s: Seq<IntervalModel>, x: IntervalModel, n: int)
    requires
        0 <= n <= s.len(),
    ensures
        latest_open_upto(s.push(x), n) == latest_open_upto(s, n),
    decreases n,
{
    if n > 0 {
        lemma_upto_push(s, x, n - 1);
        crate::store::lemma_latest_open_upto(s, n - 1);
        assert(s.push(x)[n - 1] == s[n - 1]);
        if let Some(b) = latest_open_upto(s, n - 1) {
            assert(s.push(x)[b] == s[b]);
        }
    }
}

/// Right after a punch in that succeeded, a second punch in is rejected and
/// changes nothing: the two together add exactly one interval, the open one
/// of the first.
pub proof fn lemma_second_punch_in_rejected(m: StoreModel, t1: Seq<char>, n1: i64, t2: Seq<char>, n2: i64)
    requires
        latest_open(m.rows) is None,
        valid_time(n1),
        m.next_id < i64::MAX,
    ensures
        step_in(m, t1, n1).rows == m.rows.push(new_row(m.next_id, t1, n1)),
        latest_open(step_in(m, t1, n1).rows) is Some,
        step_in(step_in(m, t1, n1), t2, n2) == step_in(m, t1, n1),
        step_in(step_in(m, t1, n1), t2, n2).rows.len() == m.rows.len() + 1,
{
    let r = step_in(m, t1, n1).rows;
    assert(is_open(r[m.rows.len() as int]));
    assert(r.len() == m.rows.len() + 1);
}

proof fn lemma_no_task_empty_report(rows: Seq<IntervalModel>, task: Seq<char>, show_billed: bool)
    requires
        !has_task(rows, task),
    ensures
        report_rows(rows, task, show_billed) == Seq::<IntervalModel>::empty(),
    decreases rows.len(),
{
    if rows.len() > 0 {
        let d = rows.drop_last();
        assert(!has_task(d, task)) by {
            if has_task(d, task) {
                let j = choose|j: int| 0 <= j < d.len() && (#[trigger] d[j]).task == task;
                assert(rows[j] == d[j]);
            }
        }
        assert(rows.last() == rows[rows.len() - 1]);
        lemma_no_task_empty_report(d, task, show_billed);
    }
}

/// Punching in on a task at `t0` and out at `t1` records one closed
/// interval from `t0` to `t1`; a report on that task, which had no interval
/// before, lists that interval alone and totals `t1 - t0`.
pub proof fn lemma_round_trip(m: StoreModel, task: Seq<char>, t0: i64, t1: i64)
    requires
        store_wf(m),
        latest_open(m.rows) is None,
        m.next_id < i64::MAX,
        valid_time(t0),
        valid_time(t1),
        t0 <= t1,
        !has_task(m.rows, task),
    ensures
        ({
            let after = step_out(step_in(m, task, t0), t1);
            &&& after.rows == m.rows.push(
                IntervalModel { id: m.next_id, task, in_time: t0, out_time: Some(t1), billed: seq!['n'] },
            )
            &&& report_rows(after.rows, task, false) == seq![after.rows.last()]
            &&& total_of(report_rows(after.rows, task, false)) == t1 - t0
        }),
{
    let x = new_row(m.next_id, task, t0);
    let mid = step_in(m, task, t0);
    assert(mid.rows == m.rows.push(x));
    lemma_upto_push(m.rows, x, m.rows.len() as int);
    let n = m.rows.len() as int;
    assert(latest_open_upto(mid.rows, n + 1) == Some(n));
    assert(latest_open(mid.rows) == Some(n));
    let closed = close_at(x, t1);
    let after = step_out(mid, t1);
    assert(after.rows =~= m.rows.push(closed));
    assert(after.rows.drop_last() =~= m.rows);
    lemma_no_task_empty_report(m.rows, task, false);
    assert(seq!['n'] != seq!['y']) by {
        assert(seq!['n'][0] != seq!['y'][0]);
    }
    assert(included(closed, task, false));
    assert(closed == IntervalModel { id: m.next_id, task, in_time: t0, out_time: Some(t1), billed: seq!['n'] });
    assert(after.rows.last() == closed);
    let rr = report_rows(after.rows, task, false);
    assert(rr == Seq::<IntervalModel>::empty().push(closed));
    assert(rr =~= seq![closed]);
    assert(rr.drop_last() =~= Seq::<IntervalModel>::empty());
    assert(duration_of(closed) == t1 - t0);
    assert(total_of(rr) == total_of(rr.drop_last()) + duration_of(rr.last()));
    assert(rr.last() == closed);
    assert(total_of(rr) == t1 - t0);
    assert(step_out(step_in(m, task, t0), t1) == after);
}

} // verus!
