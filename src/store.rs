//! The store of intervals and the punch state machine over it.
//!
//! A store is in the state OPEN when some interval has no out time, and
//! CLOSED otherwise. `punch_in` is the only move from CLOSED to OPEN and
//! `punch_out` the only move back.

use vstd::prelude::*;
use vstd::string::StringExecFns;
use crate::clock::{valid_time, is_valid_time, MAX_TIME};
use crate::laws::{lemma_step_in_single_open, lemma_step_out_single_open};

verus! {

/// One punch cycle on a task, as plain values.
pub struct IntervalModel {
    pub id: i64,
    pub task: Seq<char>,
    pub in_time: i64,
    pub out_time: Option<i64>,
    pub billed: Seq<char>,
}

/// One punch cycle on a task. Times are milliseconds since the Unix epoch;
/// an interval without an out time is open. `billed` is `n` or `y`.
pub struct Interval {
    pub id: i64,
    pub task: String,
    pub in_time: i64,
    pub out_time: Option<i64>,
    pub billed: String,
}

impl View for Interval {
    type V = IntervalModel;

    open spec fn view(&self) -> IntervalModel {
        IntervalModel {
            id: self.id,
            task: self.task@,
            in_time: self.in_time,
            out_time: self.out_time,
            billed: self.billed@,
        }
    }
}

pub open spec fn is_open(iv: IntervalModel) -> bool {
    iv.out_time is None
}

/// Both instants in range, and the out time, if any, not before the in time.
pub open spec fn row_valid(iv: IntervalModel) -> bool {
    &&& valid_time(iv.in_time)
    &&& match iv.out_time {
        Some(o) => iv.in_time <= o && o <= MAX_TIME,
        None => true,
    }
}

/// Whether no two intervals of `rows` are open.
pub open spec fn at_most_one_open(rows: Seq<IntervalModel>) -> bool {
    forall|i: int, j: int|
        0 <= i < rows.len() && 0 <= j < rows.len() && is_open(#[trigger] rows[i])
            && is_open(#[trigger] rows[j]) ==> i == j
}

/// The store as plain values: its intervals in insertion order and the id
/// the next interval gets.
pub struct StoreModel {
    pub rows: Seq<IntervalModel>,
    pub next_id: i64,
}

pub open spec fn store_wf(m: StoreModel) -> bool {
    forall|i: int| 0 <= i < m.rows.len() ==> row_valid(#[trigger] m.rows[i]) && m.rows[i].id < m.next_id
}

/// Among the first `n` intervals, the open one with the latest in time; of
/// several with that in time, the first.
pub open spec fn latest_open_upto(rows: Seq<IntervalModel>, n: int) -> Option<int>
    decreases n,
{
    if n <= 0 {
        None
    } else {
        let b = latest_open_upto(rows, n - 1);
        if is_open(rows[n - 1]) && (b is None || rows[n - 1].in_time > rows[b.unwrap()].in_time) {
            Some(n - 1)
        } else {
            b
        }
    }
}

/// The open interval that punching out closes: the latest opened one.
pub open spec fn latest_open(rows: Seq<IntervalModel>) -> Option<int> {
    latest_open_upto(rows, rows.len() as int)
}

/// The interval that a punch in at `now` creates.
pub open spec fn new_row(id: i64, task: Seq<char>, now: i64) -> IntervalModel {
    IntervalModel { id, task, in_time: now, out_time: None, billed: seq!['n'] }
}

/// `iv` closed at `now`, or at its in time if the clock reads earlier.
pub open spec fn close_at(iv: IntervalModel, now: i64) -> IntervalModel {
    IntervalModel {
        out_time: Some(if now < iv.in_time { iv.in_time } else { now }),
        ..iv
    }
}

/// The store after a punch in on `task` at `now`: unchanged while an
/// interval is open, when `now` is out of range or when no id is left, else
/// one more open interval.
pub open spec fn step_in(m: StoreModel, task: Seq<char>, now: i64) -> StoreModel {
    if latest_open(m.rows) is Some || !valid_time(now) || m.next_id == i64::MAX {
        m
    } else {
        StoreModel { rows: m.rows.push(new_row(m.next_id, task, now)), next_id: (m.next_id + 1) as i64 }
    }
}

/// The store after a punch out at `now`: the latest open interval closed,
/// or unchanged when none is open or `now` is out of range.
pub open spec fn step_out(m: StoreModel, now: i64) -> StoreModel {
    match latest_open(m.rows) {
        None => m,
        Some(i) => if !valid_time(now) {
            m
        } else {
            StoreModel { rows: m.rows.update(i, close_at(m.rows[i], now)), next_id: m.next_id }
        },
    }
}

/// One past the largest id of `rows`, and 1 when there is none.
pub open spec fn next_id_after(rows: Seq<IntervalModel>) -> int
    decreases rows.len(),
{
    if rows.len() == 0 {
        1
    } else {
        let rest = next_id_after(rows.drop_last());
        let here = rows.last().id + 1;
        if here > rest { here } else { rest }
    }
}

pub proof fn lemma_latest_open_upto(rows: Seq<IntervalModel>, n: int)
    requires
        0 <= n <= rows.len(),
    ensures
        match latest_open_upto(rows, n) {
            Some(i) => 0 <= i < n && is_open(rows[i]) && forall|j: int|
                0 <= j < n && is_open(#[trigger] rows[j]) ==> rows[j].in_time <= rows[i].in_time,
            None => forall|j: int| 0 <= j < n ==> !is_open(#[trigger] rows[j]),
        },
    decreases n,
{
    if n > 0 {
        lemma_latest_open_upto(rows, n - 1);
    }
}

pub proof fn lemma_latest_open(rows: Seq<IntervalModel>)
    ensures
        match latest_open(rows) {
            Some(i) => 0 <= i < rows.len() && is_open(rows[i]) && forall|j: int|
                0 <= j < rows.len() && is_open(#[trigger] rows[j]) ==> rows[j].in_time <= rows[i].in_time,
            None => forall|j: int| 0 <= j < rows.len() ==> !is_open(#[trigger] rows[j]),
        },
{
    lemma_latest_open_upto(rows, rows.len() as int);
}

/// Why a punch or a report did not go through.
#[derive(PartialEq, Eq, Structural, Debug, Clone, Copy)]
pub enum PunchError {
    /// A punch in while an interval is open.
    AlreadyPunchedIn,
    /// A punch out while no interval is open.
    NotPunchedIn,
    /// A report on a task that has no interval.
    EmptyResult,
    /// The store is unreadable, inconsistent, or has no id left.
    StorageFailure,
    /// The place of the store cannot be found.
    HomeDirectoryUnresolvable,
    /// The clock reads an instant outside the range an interval may hold.
    ClockOutOfRange,
}

/// What a punch in created.
pub struct PunchedIn {
    pub id: i64,
    pub task: String,
    pub in_time: i64,
}

/// What a punch out closed, and after how many whole minutes.
pub struct PunchedOut {
    pub id: i64,
    pub task: String,
    pub out_time: i64,
    pub minutes: i64,
}

/// The intervals of all tasks, in insertion order.
pub struct Store {
    rows: Vec<Interval>,
    next_id: i64,
}

impl View for Store {
    type V = StoreModel;

    closed spec fn view(&self) -> StoreModel {
        StoreModel { rows: self.rows@.map_values(|iv: Interval| iv@), next_id: self.next_id }
    }
}

impl Store {
    pub open spec fn wf(&self) -> bool {
        store_wf(self@)
    }

    /// An empty store.
    pub fn new() -> (r: Store)
        ensures
            r.wf(),
            r@.rows.len() == 0,
            r@.next_id == 1,
    {
        let r = Store { rows: Vec::new(), next_id: 1 };
        assert(r@.rows =~= Seq::<IntervalModel>::empty());
        r
    }

    /// A store that holds `rows`, as storage returned them. Fails with
    /// `StorageFailure` when an interval has an instant out of range or an
    /// out time before its in time, or when no id is left after the largest.
    pub fn from_rows(rows: Vec<Interval>) -> (r: Result<Store, PunchError>)
        ensures
            r is Ok <==> (forall|i: int|
                0 <= i < rows@.len() ==> row_valid(#[trigger] rows@[i]@) && rows@[i].id < i64::MAX),
            r matches Err(e) ==> e == PunchError::StorageFailure,
            r matches Ok(s) ==> s.wf() && s@.rows == rows@.map_values(|iv: Interval| iv@)
                && s@.next_id == next_id_after(s@.rows),
    {
        let ghost model = rows@.map_values(|iv: Interval| iv@);
        let mut next: i64 = 1;
        let mut i: usize = 0;
        while i < rows.len()
            invariant
                0 <= i <= rows@.len(),
                model == rows@.map_values(|iv: Interval| iv@),
                next == next_id_after(model.subrange(0, i as int)),
                forall|k: int| 0 <= k < i ==> row_valid(#[trigger] model[k]) && model[k].id < next,
                forall|k: int| 0 <= k < i ==> rows@[k].id < i64::MAX,
            decreases rows@.len() - i,
        {
            let iv = &rows[i];
            let ok_out = match iv.out_time {
                Some(o) => iv.in_time <= o && o <= MAX_TIME,
                None => true,
            };
            if !is_valid_time(iv.in_time) || !ok_out || iv.id == i64::MAX {
                assert(!(row_valid(rows@[i as int]@) && rows@[i as int].id < i64::MAX));
                return Err(PunchError::StorageFailure);
            }
            proof {
                let s = model.subrange(0, i as int + 1);
                assert(s.drop_last() =~= model.subrange(0, i as int));
                assert(s.last() == model[i as int]);
            }
            if iv.id + 1 > next {
                next = iv.id + 1;
            }
            i = i + 1;
        }
        assert(model.subrange(0, i as int) =~= model);
        assert forall|k: int| 0 <= k < rows@.len() implies row_valid(#[trigger] rows@[k]@) && rows@[k].id
            < i64::MAX by {
            assert(model[k] == rows@[k]@);
        }
        let s = Store { rows, next_id: next };
        assert(s@.rows == model);
        Ok(s)
    }

    /// The index of the open interval with the latest in time, if any.
    pub fn find_open_interval(&self) -> (r: Option<usize>)
        ensures
            match r {
                Some(i) => latest_open(self@.rows) == Some(i as int),
                None => latest_open(self@.rows) is None,
            },
    {
        let mut best: Option<usize> = None;
        let mut i: usize = 0;
        while i < self.rows.len()
            invariant
                0 <= i <= self.rows@.len(),
                self@.rows.len() == self.rows@.len(),
                match best {
                    Some(b) => latest_open_upto(self@.rows, i as int) == Some(b as int),
                    None => latest_open_upto(self@.rows, i as int) is None,
                },
            decreases self.rows@.len() - i,
        {
            proof {
                lemma_latest_open_upto(self@.rows, i as int);
            }
            if self.rows[i].out_time.is_none() {
                match best {
                    None => {
                        best = Some(i);
                    },
                    Some(b) => {
                        if self.rows[i].in_time > self.rows[b].in_time {
                            best = Some(i);
                        }
                    },
                }
            }
            i = i + 1;
        }
        best
    }

    /// Opens an interval on `task` at `now`, unless one is open already,
    /// whatever its task. A reading `now` out of range fails with
    /// `ClockOutOfRange`, and no id left with `StorageFailure`.
    pub fn punch_in(&mut self, task: String, now: i64) -> (r: Result<PunchedIn, PunchError>)
        requires
            old(self).wf(),
        ensures
            final(self).wf(),
            final(self)@ == step_in(old(self)@, task@, now),
            at_most_one_open(old(self)@.rows) ==> at_most_one_open(final(self)@.rows),
            r matches Err(PunchError::AlreadyPunchedIn) <==> latest_open(old(self)@.rows) is Some,
            r matches Err(PunchError::ClockOutOfRange) <==> (latest_open(old(self)@.rows) is None
                && !valid_time(now)),
            r matches Err(PunchError::StorageFailure) <==> (latest_open(old(self)@.rows) is None
                && valid_time(now) && old(self)@.next_id == i64::MAX),
            r is Ok <==> (latest_open(old(self)@.rows) is None && valid_time(now) && old(self)@.next_id
                < i64::MAX),
            r matches Ok(p) ==> p.id == old(self)@.next_id && p.task@ == task@ && p.in_time == now,
    {
        proof {
            if at_most_one_open(self@.rows) {
                lemma_step_in_single_open(self@, task@, now);
            }
        }
        match self.find_open_interval() {
            Some(_) => Err(PunchError::AlreadyPunchedIn),
            None => {
                if !is_valid_time(now) {
                    return Err(PunchError::ClockOutOfRange);
                }
                if self.next_id == i64::MAX {
                    return Err(PunchError::StorageFailure);
                }
                let id = self.next_id;
                let billed = String::from_str("n");
                proof {
                    reveal_strlit("n");
                    assert(billed@ =~= seq!['n']);
                }
                let row = Interval { id, task: task.clone(), in_time: now, out_time: None, billed };
                self.rows.push(row);
                self.next_id = id + 1;
                assert(self@.rows =~= old(self)@.rows.push(new_row(id, task@, now)));
                Ok(PunchedIn { id, task, in_time: now })
            },
        }
    }

    /// Closes the open interval with the latest in time at `now`, or at its
    /// in time should the clock read earlier. A reading `now` out of range
    /// fails with `ClockOutOfRange`.
    pub fn punch_out(&mut self, now: i64) -> (r: Result<PunchedOut, PunchError>)
        requires
            old(self).wf(),
        ensures
            final(self).wf(),
            final(self)@ == step_out(old(self)@, now),
            at_most_one_open(old(self)@.rows) ==> at_most_one_open(final(self)@.rows),
            r matches Err(PunchError::NotPunchedIn) <==> latest_open(old(self)@.rows) is None,
            r matches Err(PunchError::ClockOutOfRange) <==> (latest_open(old(self)@.rows) is Some
                && !valid_time(now)),
            r is Ok <==> (latest_open(old(self)@.rows) is Some && valid_time(now)),
            r matches Ok(p) ==> ({
                let iv = old(self)@.rows[latest_open(old(self)@.rows).unwrap()];
                &&& p.id == iv.id
                &&& p.task@ == iv.task
                &&& Some(p.out_time) == close_at(iv, now).out_time
                &&& p.minutes == (p.out_time - iv.in_time) / 60000
            }),
    {
        proof {
            if at_most_one_open(self@.rows) {
                lemma_step_out_single_open(self@, now);
            }
        }
        match self.find_open_interval() {
            None => Err(PunchError::NotPunchedIn),
            Some(i) => {
                if !is_valid_time(now) {
                    return Err(PunchError::ClockOutOfRange);
                }
                proof {
                    lemma_latest_open(self@.rows);
                }
                let in_time = self.rows[i].in_time;
                let out = if now < in_time { in_time } else { now };
                let id = self.rows[i].id;
                let task = self.rows[i].task.clone();
                self.rows[i].out_time = Some(out);
                assert(self@.rows =~= old(self)@.rows.update(i as int, close_at(old(self)@.rows[i as int], now)));
                let minutes = (out - in_time) / 60000;
                Ok(PunchedOut { id, task, out_time: out, minutes })
            },
        }
    }

    /// The intervals, in insertion order.
    pub fn intervals(&self) -> (r: &Vec<Interval>)
        ensures
            r@.map_values(|iv: Interval| iv@) == self@.rows,
    {
        &self.rows
    }

    /// The id that the next interval gets.
    pub fn next_id(&self) -> (r: i64)
        ensures
            r == self@.next_id,
    {
        self.next_id
    }
}

} // verus!
