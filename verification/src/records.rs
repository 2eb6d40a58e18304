//! The records of a file as one sequence, whatever encoding they came from.

use crate::text::{rows, texts};
use vstd::prelude::*;

verus! {

/// The outcomes that succeeded, in order.
pub open spec fn successes<T>(outcomes: Seq<Option<T>>) -> Seq<T>
    decreases outcomes.len(),
{
    if outcomes.len() == 0 {
        Seq::empty()
    } else if outcomes.last() is Some {
        successes(outcomes.drop_last()).push(outcomes.last()->0)
    } else {
        successes(outcomes.drop_last())
    }
}

/// The successes of a list are those of all but its last outcome, then the
/// last one where it succeeded.
pub proof fn lemma_successes_step<T>(outcomes: Seq<Option<T>>, n: int)
    requires
        0 <= n < outcomes.len(),
    ensures
        successes(outcomes.take(n + 1)) == if outcomes[n] is Some {
            successes(outcomes.take(n)).push(outcomes[n]->0)
        } else {
            successes(outcomes.take(n))
        },
{
    assert(outcomes.take(n + 1).drop_last() =~= outcomes.take(n));
}

/// Where two lists of outcomes succeed at the same places and `f` takes each
/// success of the first to that of the second, `f` takes the successes of the
/// first to those of the second.
pub proof fn lemma_successes_map<T, U>(
    first: Seq<Option<T>>,
    second: Seq<Option<U>>,
    f: spec_fn(T) -> U,
)
    requires
        first.len() == second.len(),
        forall|i: int|
            0 <= i < first.len() ==> match #[trigger] first[i] {
                Some(item) => second[i] == Some(f(item)),
                None => second[i] is None,
            },
    ensures
        successes(first).map_values(f) == successes(second),
    decreases first.len(),
{
    if first.len() > 0 {
        lemma_successes_map(first.drop_last(), second.drop_last(), f);
        if first.last() is Some {
        }
    }
}

/// Moves the successes out of a list of outcomes, in order.
pub fn keep_successes<T>(outcomes: Vec<Option<T>>) -> (kept: Vec<T>)
    ensures
        kept@ == successes(outcomes@),
{
    let ghost all = outcomes@;
    let mut rest = reversed(outcomes);
    let mut kept: Vec<T> = Vec::new();
    while rest.len() > 0
        invariant
            rest@.len() <= all.len(),
            forall|j: int| 0 <= j < rest@.len() ==> rest@[j] == all[all.len() - 1 - j],
            kept@ == successes(all.take(all.len() - rest@.len())),
        decreases rest@.len(),
    {
        proof {
            lemma_successes_step(all, all.len() - rest@.len());
        }
        let outcome = rest.pop().unwrap();
        if let Some(item) = outcome {
            kept.push(item);
        }
    }
    assert(all.take(all.len() as int) =~= all);
    kept
}

/// A list with its items in the opposite order.
pub fn reversed<T>(list: Vec<T>) -> (r: Vec<T>)
    ensures
        r@ == list@.reverse(),
{
    let mut list = list;
    let ghost all = list@;
    let mut r: Vec<T> = Vec::new();
    while list.len() > 0
        invariant
            list@.len() + r@.len() == all.len(),
            list@ == all.take(list@.len() as int),
            forall|j: int| 0 <= j < r@.len() ==> r@[j] == all[all.len() - 1 - j],
        decreases list@.len(),
    {
        let item = list.pop().unwrap();
        r.push(item);
    }
    r
}

/// Records that are handed out one by one, first record first.
#[derive(Debug)]
pub struct RecordList {
    /// The records that are still to come, the next one last.
    pending: Vec<Vec<String>>,
}

impl View for RecordList {
    type V = Seq<Seq<Seq<char>>>;

    /// The records that are still to come, the next one first.
    closed spec fn view(&self) -> Seq<Seq<Seq<char>>> {
        rows(self.pending@.reverse())
    }
}

impl RecordList {
    /// A list that hands out `records` in their order.
    pub fn new(records: Vec<Vec<String>>) -> (list: RecordList)
        ensures
            list@ == rows(records@),
    {
        let pending = reversed(records);
        RecordList { pending }
    }

    /// Hands out the next record, or `None` once the list is empty.
    pub fn next(&mut self) -> (r: Option<Vec<String>>)
        ensures
            old(self)@.len() == 0 ==> r is None && final(self)@ == old(self)@,
            old(self)@.len() > 0 ==> r is Some && texts(r->0@) == old(self)@[0] && final(self)@
                == old(self)@.drop_first(),
    {
        self.pending.pop()
    }

    /// Hands out all records that are still to come, in their order.
    pub fn collect(self) -> (records: Vec<Vec<String>>)
        ensures
            rows(records@) == self@,
    {
        reversed(self.pending)
    }
}

/// The encoding that a sequence of records came from.
#[derive(Clone, Copy, Debug, PartialEq, Eq, Structural)]
pub enum RecordSource {
    Csv,
    Json,
    Parquet,
}

/// The records of a file as one finite sequence that is walked once,
/// whatever the encoding: each variant names the encoding that the records
/// came from and holds those that are still to come.
#[derive(Debug)]
pub enum FlexRecordIter {
    Csv(RecordList),
    Json(RecordList),
    Parquet(RecordList),
}

/// What a call of `next` does: with no record left it gives `None` and
/// changes nothing; else it gives the next record and leaves those after it.
/// The encoding stays.
pub open spec fn next_call(before: FlexRecordIter, after: FlexRecordIter, r: Option<Vec<String>>) -> bool {
    &&& after.source() == before.source()
    &&& before.remaining().len() == 0 ==> r is None && after.remaining() == before.remaining()
    &&& before.remaining().len() > 0 ==> r is Some && texts(r->0@) == before.remaining()[0]
        && after.remaining() == before.remaining().drop_first()
}

impl FlexRecordIter {
    /// The records that are still to come, the next one first.
    pub open spec fn remaining(self) -> Seq<Seq<Seq<char>>> {
        match self {
            FlexRecordIter::Csv(list) => list@,
            FlexRecordIter::Json(list) => list@,
            FlexRecordIter::Parquet(list) => list@,
        }
    }

    /// The encoding that the records came from.
    pub open spec fn source(self) -> RecordSource {
        match self {
            FlexRecordIter::Csv(_) => RecordSource::Csv,
            FlexRecordIter::Json(_) => RecordSource::Json,
            FlexRecordIter::Parquet(_) => RecordSource::Parquet,
        }
    }

    /// A sequence over `records`, first record first, that came from `source`.
    pub fn new(source: RecordSource, records: Vec<Vec<String>>) -> (r: FlexRecordIter)
        ensures
            r.source() == source,
            r.remaining() == rows(records@),
    {
        let list = RecordList::new(records);
        match source {
            RecordSource::Csv => FlexRecordIter::Csv(list),
            RecordSource::Json => FlexRecordIter::Json(list),
            RecordSource::Parquet => FlexRecordIter::Parquet(list),
        }
    }

    /// Hands out the next record, or `None` once all were handed out; from
    /// then on every call gives `None`.
    pub fn next(&mut self) -> (r: Option<Vec<String>>)
        ensures
            next_call(*old(self), *final(self), r),
    {
        match self {
            FlexRecordIter::Csv(list) => list.next(),
            FlexRecordIter::Json(list) => list.next(),
            FlexRecordIter::Parquet(list) => list.next(),
        }
    }

    /// Hands out all records that are still to come, the next one first.
    pub fn collect(self) -> (records: Vec<Vec<String>>)
        ensures
            rows(records@) == self.remaining(),
    {
        match self {
            FlexRecordIter::Csv(list) => list.collect(),
            FlexRecordIter::Json(list) => list.collect(),
            FlexRecordIter::Parquet(list) => list.collect(),
        }
    }
}

/// Once no record is left, `next` gives `None` and leaves none: whatever the
/// number of calls, the sequence stays at its end.
pub proof fn lemma_exhausted_stays_exhausted(
    before: FlexRecordIter,
    after: FlexRecordIter,
    r: Option<Vec<String>>,
)
    requires
        before.remaining().len() == 0,
        next_call(before, after, r),
    ensures
        r is None,
        after.remaining().len() == 0,
{
}

} // verus!
