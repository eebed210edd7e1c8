//! Rolling a journal back to its last commit.
//!
//! A rollback is itself written to the journal: the inverse of every action it
//! passes is appended as a new action, and a commit closes them. A rollback of a
//! rollback is therefore a redo.

use vstd::prelude::*;
use super::{
    all_encodable, record_back, unencodable, Encode, Journal, JournalError, Record, Writer,
};

verus! {

/// A value that knows its own inverse.
pub trait Rollback {
    type Output;

    /// The value that undoes this one.
    fn rollback(&self) -> Self::Output;
}

/// Whether `rollback` may answer `inverse` for `data`.
pub open spec fn undone_by<T: Rollback<Output = T>>(data: T, inverse: T) -> bool {
    call_ensures(T::rollback, (&data,), inverse)
}

/// `after` is `before` with one more record: an action that undoes `data`.
pub open spec fn inverse_appended<T: Rollback<Output = T>>(
    before: Seq<Record<T>>,
    after: Seq<Record<T>>,
    data: T,
) -> bool {
    &&& after.len() == before.len() + 1
    &&& after.drop_last() == before
    &&& after == before.push(after.last())
    &&& after.last() matches Record::Action(inverse) && undone_by(data, inverse)
}

/// How many actions lie in an unbroken run that ends `idx` places before the end
/// of `records`, reaching back to the nearest commit or to the beginning.
pub open spec fn run_len<T>(records: Seq<Record<T>>, idx: int) -> nat
    decreases records.len() - idx,
{
    if 0 <= idx < records.len() && records[records.len() - 1 - idx] is Action {
        1 + run_len(records, idx + 1)
    } else {
        0
    }
}

/// `after` is what a rollback of `before` leaves, when it starts `idx` places
/// before the end: nothing new where no action is met; else the inverse of each
/// action of the run, the newest action first, and a commit behind them.
pub open spec fn rolled_back<T: Rollback<Output = T>>(
    before: Seq<Record<T>>,
    idx: int,
    after: Seq<Record<T>>,
) -> bool {
    let n = run_len(before, idx);
    if n == 0 {
        after == before
    } else {
        &&& after.len() == before.len() + n + 1
        &&& after.take(before.len() as int) == before
        &&& after.last() is Commit
        &&& forall|i: int|
            before.len() <= i < before.len() + n ==> (#[trigger] after[i] matches Record::Action(
                inverse,
            ) && undone_by(before[2 * before.len() - 1 - idx - i]->Action_0, inverse))
    }
}

/// A run is as long as the number of actions that are met before the first
/// record that is none.
pub proof fn run_len_counts<T>(records: Seq<Record<T>>, idx: int, n: nat)
    requires
        0 <= idx,
        forall|k: int| idx <= k < idx + n ==> record_back(records, k) is Some && record_back(
            records,
            k,
        )->Some_0 is Action,
        !(record_back(records, idx + n) is Some && record_back(records, idx + n)->Some_0
            is Action),
    ensures
        run_len(records, idx) == n,
    decreases n,
{
    if n > 0 {
        assert(record_back(records, idx) is Some);
        run_len_counts(records, idx + 1, (n - 1) as nat);
    }
}

/// A cursor that walks a journal backwards, appending the inverse of each action
/// it passes, until it meets a commit or the journal's beginning.
pub struct RollbackIter<'j, T, W> {
    /// The journal that is rolled back.
    pub journal: &'j mut Journal<T, W>,
    /// How many places before the journal's end the cursor stands.
    pub idx: usize,
    /// Whether this walk has appended an inverse yet.
    pub appended: bool,
    /// Whether the walk has ended.
    pub done: bool,
}

impl<'j, T: Rollback<Output = T> + Clone + Encode, W: Writer> RollbackIter<'j, T, W> {
    /// Takes one step back. On an action, appends its inverse to the journal and
    /// yields it. On a commit or at the journal's beginning the walk ends: if it
    /// has appended an inverse, it first closes them with a commit. A step
    /// that appends nothing cannot fail; nor can any step over a reliable
    /// writer, where every value can be encoded. What a step makes of the
    /// outcome of its append is what [`Self::settle`] says.
    pub fn next(&mut self) -> (item: Option<Result<T, JournalError>>)
        ensures
            *final(final(self).journal) == *final(old(self).journal),
            old(self).journal.sink().reliable() ==> final(self).journal.sink().reliable(),
            old(self).journal.sink().reliable() && all_encodable::<T>() ==> !(item matches Some(
                Err(_),
            )),
            old(self).done ==> {
                &&& item is None
                &&& *final(self).journal == *old(self).journal
                &&& final(self).idx == old(self).idx
                &&& final(self).appended == old(self).appended
                &&& final(self).done
            },
            !old(self).done ==> match record_back(old(self).journal@, old(self).idx as int) {
                Some(Record::Action(data)) => match item {
                    Some(Ok(inverse)) => {
                        &&& inverse_appended(old(self).journal@, final(self).journal@, data)
                        &&& cloned(final(self).journal@.last()->Action_0, inverse)
                        &&& Journal::took(
                            *old(self).journal,
                            *final(self).journal,
                            final(self).journal@.last(),
                        )
                        &&& final(self).idx == old(self).idx + 2
                        &&& final(self).appended
                        &&& !final(self).done
                    },
                    Some(Err(err)) => {
                        &&& may_refuse(data, err)
                        &&& final(self).journal@ == old(self).journal@
                        &&& final(self).journal.written() == old(self).journal.written()
                        &&& final(self).idx == old(self).idx + 1
                        &&& final(self).appended == old(self).appended
                        &&& !final(self).done
                    },
                    None => false,
                },
                _ => if old(self).appended {
                    match item {
                        None => {
                            &&& final(self).journal@ == old(self).journal@.push(Record::Commit)
                            &&& Journal::took(
                                *old(self).journal,
                                *final(self).journal,
                                Record::Commit,
                            )
                            &&& final(self).idx == old(self).idx
                            &&& final(self).appended
                            &&& final(self).done
                        },
                        Some(Err(err)) => {
                            &&& err is Io
                            &&& final(self).journal@ == old(self).journal@
                            &&& final(self).journal.written() == old(self).journal.written()
                            &&& final(self).idx == old(self).idx
                            &&& final(self).appended
                            &&& !final(self).done
                        },
                        Some(Ok(_)) => false,
                    }
                } else {
                    &&& item is None
                    &&& *final(self).journal == *old(self).journal
                    &&& final(self).idx == old(self).idx
                    &&& !final(self).appended
                    &&& final(self).done
                },
            },
    {
        if self.done {
            return None;
        }
        let ghost before = self.journal@;
        let inverse = match self.journal.get_back(self.idx) {
            Some(Record::Action(data)) => {
                let recorded = data.rollback();
                Some((recorded.clone(), recorded))
            },
            Some(Record::Commit) | None => None,
        };
        match inverse {
            Some((yielded, recorded)) => {
                let ghost data = record_back(before, self.idx as int)->Some_0->Action_0;
                let ghost logged = recorded;
                assert(undone_by(data, logged));
                let outcome = self.journal.append(Record::Action(recorded));
                let len = self.journal.len();
                proof {
                    if outcome is Ok {
                        assert(self.journal@.drop_last() == before);
                    } else if outcome == Err::<(), JournalError>(JournalError::Serde) {
                        assert(unencodable(Record::Action(logged)));
                    }
                }
                self.settle(Some(yielded), outcome)
            },
            None => {
                if !self.appended {
                    self.done = true;
                    return None;
                }
                let outcome = self.journal.append(Record::Commit);
                self.settle(None, outcome)
            },
        }
    }

    /// Takes the outcome of the append that a step has made: of the inverse
    /// `yielded`, or of the closing commit where there is none. After an append
    /// that went through, the inverse is yielded and the cursor passes both
    /// the record that was undone and the one that was appended; or the walk
    /// ends, where a commit was appended. After one that failed, its error is
    /// yielded as it is; the cursor passes the record whose inverse could not
    /// be appended, and stays where a commit could not be.
    pub fn settle(&mut self, yielded: Option<T>, outcome: Result<(), JournalError>) -> (item: Option<
        Result<T, JournalError>,
    >)
        requires
            yielded is Some ==> old(self).idx + (if outcome is Ok {
                2int
            } else {
                1int
            }) <= usize::MAX,
        ensures
            *final(final(self).journal) == *final(old(self).journal),
            *final(self).journal == *old(self).journal,
            item == settled(yielded, outcome),
            final(self).idx == old(self).idx + (if yielded is None {
                0int
            } else if outcome is Ok {
                2int
            } else {
                1int
            }),
            final(self).appended == (old(self).appended || (yielded is Some && outcome is Ok)),
            final(self).done == (old(self).done || (yielded is None && outcome is Ok)),
    {
        match outcome {
            Ok(()) => match yielded {
                Some(inverse) => {
                    self.idx = self.idx + 2;
                    self.appended = true;
                    Some(Ok(inverse))
                },
                None => {
                    self.done = true;
                    None
                },
            },
            Err(err) => {
                if yielded.is_some() {
                    self.idx = self.idx + 1;
                }
                Some(Err(err))
            },
        }
    }

    /// Walks back until the walk ends, and returns the inverses that it yielded,
    /// the first one first. It stops at the first failure: the journal then
    /// holds the inverses that were appended until then, and no commit behind
    /// them. A walk that has ended, and one that meets no action and has no
    /// inverse to close, appends nothing and cannot fail; nor can any walk over
    /// a reliable writer, where every value can be encoded.
    pub fn exhaust(&mut self) -> (res: Result<Vec<T>, JournalError>)
        ensures
            *final(final(self).journal) == *final(old(self).journal),
            old(self).journal@.is_prefix_of(final(self).journal@),
            old(self).journal.sink().reliable() ==> final(self).journal.sink().reliable(),
            old(self).journal.sink().reliable() && all_encodable::<T>() ==> res is Ok,
            all_encodable::<T>() ==> (res matches Err(err) ==> err is Io),
            old(self).done || (!old(self).appended && run_len(
                old(self).journal@,
                old(self).idx as int,
            ) == 0) ==> {
                &&& res matches Ok(inverses) && inverses@.len() == 0
                &&& final(self).journal@ == old(self).journal@
                &&& final(self).journal.written() == old(self).journal.written()
                &&& final(self).done
            },
            !old(self).done ==> match res {
                Ok(inverses) => {
                    &&& closed(
                        old(self).journal@,
                        old(self).idx as int,
                        old(self).appended,
                        final(self).journal@,
                    )
                    &&& inverses@.len() == run_len(old(self).journal@, old(self).idx as int)
                    &&& clones_of(
                        final(self).journal@,
                        old(self).journal@.len() as int,
                        inverses@,
                    )
                    &&& final(self).done
                },
                Err(_) => {
                    &&& inverses_appended(
                        old(self).journal@,
                        old(self).idx as int,
                        final(self).journal@.len() - old(self).journal@.len(),
                        final(self).journal@,
                    )
                    &&& !final(self).done
                },
            },
            !old(self).done && !old(self).appended ==> (res matches Ok(inverses) ==> {
                &&& rolled_back(old(self).journal@, old(self).idx as int, final(self).journal@)
                &&& inverses@.len() == run_len(old(self).journal@, old(self).idx as int)
                &&& forall|k: int|
                    0 <= k < inverses@.len() ==> cloned(
                        final(self).journal@[old(self).journal@.len() + k]->Action_0,
                        #[trigger] inverses@[k],
                    )
                &&& final(self).done
            }),
    {
        let mut inverses: Vec<T> = Vec::new();
        if self.done {
            return Ok(inverses);
        }
        let ghost before = self.journal@;
        let ghost start = self.idx as int;
        let ghost open = self.appended;
        loop
            invariant
                *final(self.journal) == *final(old(self).journal),
                before == old(self).journal@,
                start == old(self).idx,
                open == old(self).appended,
                !old(self).done,
                !self.done,
                old(self).journal.sink().reliable() ==> self.journal.sink().reliable(),
                self.appended == (open || inverses@.len() > 0),
                self.idx == start + 2 * inverses@.len(),
                inverses@.len() == 0 ==> self.journal.written() == old(self).journal.written(),
                self.journal@.len() == before.len() + inverses@.len(),
                self.journal@.take(before.len() as int) == before,
                forall|k: int|
                    start <= k < start + inverses@.len() ==> record_back(before, k) is Some
                        && record_back(before, k)->Some_0 is Action,
                forall|i: int|
                    before.len() <= i < before.len() + inverses@.len() ==> undoes_at(
                        before,
                        start,
                        #[trigger] self.journal@[i],
                        i,
                    ),
                clones_of(self.journal@, before.len() as int, inverses@),
            decreases self.journal@.len() - self.idx,
        {
            let ghost now = self.journal@;
            let ghost n = inverses@.len();
            let ghost facing = record_back(now, self.idx as int);
            let ghost yielded = inverses@;
            proof {
                if start + n < before.len() {
                    assert(now[before.len() - 1 - start - n] == now.take(before.len() as int)[
                        before.len() - 1 - start - n
                    ]);
                }
                assert(facing == record_back(before, start + n));
                run_reaches(before, start, n);
            }
            match self.next() {
                Some(Ok(inverse)) => {
                    inverses.push(inverse);
                    proof {
                        assert(self.journal@.drop_last() == now);
                        assert(self.journal@.take(before.len() as int) == now.take(
                            before.len() as int,
                        ));
                        assert forall|i: int|
                            before.len() <= i < before.len() + inverses@.len() implies undoes_at(
                            before,
                            start,
                            #[trigger] self.journal@[i],
                            i,
                        ) by {
                            if i < before.len() + n {
                                assert(self.journal@[i] == now[i]);
                                assert(undoes_at(before, start, now[i], i));
                            }
                        }
                        assert forall|k: int| 0 <= k < inverses@.len() implies cloned(
                            self.journal@[before.len() + k]->Action_0,
                            #[trigger] inverses@[k],
                        ) by {
                            if k < n {
                                assert(self.journal@[before.len() + k] == now[before.len() + k]);
                                assert(inverses@[k] == yielded[k]);
                            }
                        }
                    }
                },
                Some(Err(err)) => {
                    proof {
                        assert(self.journal@ == now);
                        assert forall|i: int|
                            before.len() <= i < now.len() implies undoes_at(
                            before,
                            start,
                            #[trigger] now[i],
                            i,
                        ) by {}
                    }
                    return Err(err);
                },
                None => {
                    proof {
                        run_len_counts(before, start, n);
                        let after = self.journal@;
                        if open || n > 0 {
                            assert(after.drop_last() == now);
                            assert forall|i: int|
                                before.len() <= i < now.len() implies undoes_at(
                                before,
                                start,
                                #[trigger] now[i],
                                i,
                            ) by {}
                            assert(after.take(before.len() as int) == now.take(
                                before.len() as int,
                            ));
                            assert forall|k: int| 0 <= k < inverses@.len() implies cloned(
                                after[before.len() + k]->Action_0,
                                #[trigger] inverses@[k],
                            ) by {
                                assert(after[before.len() + k] == now[before.len() + k]);
                            }
                            if !open {
                                assert forall|i: int|
                                    before.len() <= i < before.len() + n implies (
                                #[trigger] after[i] matches Record::Action(inv) && undone_by(
                                    before[2 * before.len() - 1 - start - i]->Action_0,
                                    inv,
                                )) by {
                                    assert(after[i] == now[i]);
                                    assert(undoes_at(before, start, now[i], i));
                                }
                            }
                        } else {
                            assert(after == now);
                            assert(now == before);
                        }
                    }
                    return Ok(inverses);
                },
            }
        }
    }
}

/// What a step yields for the outcome of its append: the inverse, or nothing
/// where a commit was appended; the error of the append as it is.
pub open spec fn settled<T>(yielded: Option<T>, outcome: Result<(), JournalError>) -> Option<
    Result<T, JournalError>,
> {
    match outcome {
        Ok(()) => match yielded {
            Some(inverse) => Some(Ok(inverse)),
            None => None,
        },
        Err(err) => Some(Err(err)),
    }
}

/// Whether the append of an inverse of `data` may fail with `err`: the writer
/// may always fail; the encoder only on an inverse that it may refuse.
pub open spec fn may_refuse<T: Rollback<Output = T> + Encode>(data: T, err: JournalError) -> bool {
    match err {
        JournalError::Io(_) => true,
        JournalError::Serde => exists|inverse: T|
            #[trigger] undone_by(data, inverse) && unencodable(Record::Action(inverse)),
    }
}

/// Whether `record`, which stands at place `i` behind the records `before`, is
/// the inverse of the action that stands as far before the place at which the
/// walk began, `idx` places before the end of `before`.
pub open spec fn undoes_at<T: Rollback<Output = T>>(
    before: Seq<Record<T>>,
    idx: int,
    record: Record<T>,
    i: int,
) -> bool {
    match record {
        Record::Action(inverse) => undone_by(
            before[2 * before.len() - 1 - idx - i]->Action_0,
            inverse,
        ),
        Record::Commit => false,
    }
}

/// `after` is `before` with the inverses of the `count` newest actions of the
/// run that ends `idx` places before the end of `before`, the newest action
/// first, and nothing else.
pub open spec fn inverses_appended<T: Rollback<Output = T>>(
    before: Seq<Record<T>>,
    idx: int,
    count: int,
    after: Seq<Record<T>>,
) -> bool {
    &&& 0 <= count <= run_len(before, idx)
    &&& after.len() == before.len() + count
    &&& after.take(before.len() as int) == before
    &&& forall|i: int|
        before.len() <= i < after.len() ==> undoes_at(before, idx, #[trigger] after[i], i)
}

/// `after` is what a walk leaves that began `idx` places before the end of
/// `before` and went through: the inverses of all actions of the run and a
/// commit behind them; or `before` itself, where the run is empty and the walk
/// had no inverse to close when it began.
pub open spec fn closed<T: Rollback<Output = T>>(
    before: Seq<Record<T>>,
    idx: int,
    appended: bool,
    after: Seq<Record<T>>,
) -> bool {
    if appended || run_len(before, idx) > 0 {
        &&& after.len() > 0
        &&& after.last() is Commit
        &&& inverses_appended(before, idx, run_len(before, idx) as int, after.drop_last())
    } else {
        after == before
    }
}

/// Each of `inverses` is a clone of the data of the action that stands at its
/// place behind the first `from` records of `after`.
pub open spec fn clones_of<T: Clone>(after: Seq<Record<T>>, from: int, inverses: Seq<T>) -> bool {
    forall|k: int|
        0 <= k < inverses.len() ==> cloned(after[from + k]->Action_0, #[trigger] inverses[k])
}

/// A run is at least as long as the number of actions that are met first.
pub proof fn run_reaches<T>(records: Seq<Record<T>>, idx: int, n: nat)
    requires
        0 <= idx,
        forall|k: int|
            idx <= k < idx + n ==> record_back(records, k) is Some && record_back(
                records,
                k,
            )->Some_0 is Action,
    ensures
        run_len(records, idx) >= n,
    decreases n,
{
    if n > 0 {
        assert(record_back(records, idx) is Some);
        run_reaches(records, idx + 1, (n - 1) as nat);
    }
}

impl<T: Rollback<Output = T> + Clone + Encode, W: Writer> Journal<T, W> {
    /// A cursor at the journal's end, which rolls back to the last commit. Where
    /// the latest record is a commit, or there is none, it does nothing.
    pub fn rollback(&mut self) -> (iter: RollbackIter<'_, T, W>)
        ensures
            *iter.journal == *old(self),
            *final(iter.journal) == *final(self),
            iter.idx == 0,
            !iter.appended,
            !iter.done,
    {
        RollbackIter { journal: self, idx: 0, appended: false, done: false }
    }

    /// A cursor that rolls back the last transaction: it starts behind the latest
    /// record, which has to be a commit. Otherwise there is no cursor.
    pub fn rollback_last(&mut self) -> (iter: Option<RollbackIter<'_, T, W>>)
        ensures
            iter is Some <==> record_back(old(self)@, 0) == Some(Record::<T>::Commit),
            iter is None ==> *final(self) == *old(self),
            iter matches Some(iter) ==> {
                &&& *iter.journal == *old(self)
                &&& *final(iter.journal) == *final(self)
                &&& iter.idx == 1
                &&& !iter.appended
                &&& !iter.done
            },
    {
        let at_commit = match self.latest() {
            Some(Record::Commit) => true,
            _ => false,
        };
        if at_commit {
            Some(RollbackIter { journal: self, idx: 1, appended: false, done: false })
        } else {
            None
        }
    }
}

/// Where a journal ends in a commit, a rollback of its last transaction mirrors
/// that transaction behind the commit: the record `d` places behind the commit
/// undoes the record `d` places before it, and a commit closes the new
/// transaction, which is as long as the old one. Where the transaction holds
/// no action, nothing is appended.
pub proof fn rollback_last_mirrors<T: Rollback<Output = T>>(
    before: Seq<Record<T>>,
    after: Seq<Record<T>>,
)
    requires
        before.len() > 0,
        before.last() is Commit,
        rolled_back(before, 1, after),
    ensures
        run_len(before, 1) == 0 ==> after == before,
        run_len(before, 1) > 0 ==> {
            &&& after.len() == before.len() + run_len(before, 1) + 1
            &&& after.take(before.len() as int) == before
            &&& after.last() is Commit
            &&& run_len(after, 1) == run_len(before, 1)
            &&& forall|d: int|
                1 <= d <= run_len(before, 1) ==> (#[trigger] after[before.len() - 1 + d] matches Record::Action(
                    inverse,
                ) && before[before.len() - 1 - d] matches Record::Action(data) && undone_by(
                    data,
                    inverse,
                ))
        },
{
    let n = run_len(before, 1);
    let commit = before.len() - 1;
    if n > 0 {
        run_actions(before, 1, n);
        assert forall|d: int| 1 <= d <= n implies (#[trigger] after[commit + d] matches Record::Action(
            inverse,
        ) && before[commit - d] matches Record::Action(data) && undone_by(data, inverse)) by {
            assert(record_back(before, d) is Some);
            assert(after[commit + d] is Action);
        }
        assert forall|k: int| 1 <= k < 1 + n implies record_back(after, k) is Some && record_back(
            after,
            k,
        )->Some_0 is Action by {
            assert(after[after.len() - 1 - k] is Action);
        }
        assert(record_back(after, 1 + n as int) == Some(after[commit]));
        assert(after[commit] == after.take(before.len() as int)[commit]);
        run_len_counts(after, 1, n);
    }
}

/// Every record of a run is an action.
pub proof fn run_actions<T>(records: Seq<Record<T>>, idx: int, n: nat)
    requires
        0 <= idx,
        n <= run_len(records, idx),
    ensures
        forall|k: int|
            idx <= k < idx + n ==> record_back(records, k) is Some && (#[trigger] record_back(
                records,
                k,
            ))->Some_0 is Action,
    decreases n,
{
    if n > 0 {
        run_actions(records, idx + 1, (n - 1) as nat);
    }
}

/// A second rollback, right behind a first one, changes nothing: the first has
/// left a commit at the journal's end, or has found nothing to roll back.
pub proof fn rollback_twice_is_rollback_once<T: Rollback<Output = T>>(
    journal: Seq<Record<T>>,
    once: Seq<Record<T>>,
    twice: Seq<Record<T>>,
)
    requires
        rolled_back(journal, 0, once),
        rolled_back(once, 0, twice),
    ensures
        twice == once,
{
}

/// A rollback of a rollback is a redo. Where a journal ends in a commit, and its
/// last transaction is rolled back, and then the rollback is rolled back, the
/// last transaction of the journal undoes what undid the first, action by
/// action and in the order of the first.
pub proof fn rollback_of_rollback_redoes<T: Rollback<Output = T>>(
    journal: Seq<Record<T>>,
    undone: Seq<Record<T>>,
    redone: Seq<Record<T>>,
)
    requires
        journal.len() > 0,
        journal.last() is Commit,
        run_len(journal, 1) > 0,
        rolled_back(journal, 1, undone),
        rolled_back(undone, 1, redone),
    ensures
        redone.len() == journal.len() + 2 * (run_len(journal, 1) + 1),
        redone.take(journal.len() as int) == journal,
        redone.last() is Commit,
        forall|j: int|
            0 <= j < run_len(journal, 1) ==> (#[trigger] redone[redone.len() - 1 - run_len(
                journal,
                1,
            ) + j] matches Record::Action(again) && journal[journal.len() - 1 - run_len(
                journal,
                1,
            ) + j] matches Record::Action(data) && exists|inverse: T|
                undone_by(data, inverse) && undone_by(inverse, again)),
{
    let n = run_len(journal, 1);
    rollback_last_mirrors(journal, undone);
    rollback_last_mirrors(undone, redone);
    assert(redone.take(journal.len() as int) == redone.take(undone.len() as int).take(
        journal.len() as int,
    ));
    let c0 = journal.len() - 1;
    let c1 = undone.len() - 1;
    assert forall|j: int| 0 <= j < n implies (#[trigger] redone[redone.len() - 1 - n + j] matches Record::Action(
        again,
    ) && journal[journal.len() - 1 - n + j] matches Record::Action(data) && exists|inverse: T|
        undone_by(data, inverse) && undone_by(inverse, again)) by {
        let d = n - j;
        assert(redone[c1 + d] is Action);
        assert(undone[c0 + d] is Action);
        assert(redone.len() - 1 - n + j == c1 + (j + 1));
        let e = j + 1;
        assert(redone[c1 + e] is Action);
        assert(undone[c1 - e] is Action);
        assert(c1 - e == c0 + d);
        let inverse = undone[c0 + d]->Action_0;
        assert(undone_by(journal[c0 - d]->Action_0, inverse));
        assert(undone_by(inverse, redone[c1 + e]->Action_0));
    }
}

} // verus!
