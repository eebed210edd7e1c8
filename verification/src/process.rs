//! Running actions: operations are applied one by one, each is journalled with
//! the inverse of what it did, and a failure takes the open transaction back.
//!
//! Applying an operation touches the filesystem and is the caller's part. The
//! processor decides: it names the operation to apply next, takes the report of
//! how that went, and keeps the journal. An action that went through ends with
//! a commit. When an operation fails, the processor rolls the journal back and
//! hands out the recorded inverses of the operations that had been applied, the
//! newest first, for the caller to apply.

use vstd::prelude::*;
use crate::action::link::Error;
use crate::action::{link, mkdir, ops_of, LinkAction, MkdirAction, WriteAction};
use crate::fs::FsProbe;
use crate::journal::rollback::{inverses_appended, rolled_back, run_len};
use crate::journal::{all_encodable, record_back, Journal, JournalError, Record, Writer};
use crate::op::{inverse_of, map_ops, ops_view, path_view, Op, OpError, OpView};
use crate::path::Path;

verus! {

/// How far an action has come.
#[derive(Debug, Clone, Copy, PartialEq, Eq)]
pub enum Progress {
    /// No action is running.
    Idle,
    /// The action has operations left to apply.
    Pending,
    /// All operations of the action were applied and the journal holds a commit.
    Committed,
}

/// What is left of an action that failed.
#[derive(Debug, PartialEq)]
pub struct Failure {
    /// Why the operation failed.
    pub error: OpError,
    /// The recorded inverses of the operations of this action that had been
    /// applied, the newest first: what has to be applied to take them back.
    pub inverses: Vec<Op>,
    /// Why the journal could not be rolled back, where it could not.
    pub journal: Option<JournalError>,
}

/// Drives the operations of actions and keeps their journal.
pub struct GraphProcessor<W> {
    journal: Journal<Op, W>,
    /// The operations of the running action, in their order.
    pending: Vec<Op>,
    /// How many operations of `pending` have been applied.
    applied: usize,
}

impl<W: Writer> GraphProcessor<W> {
    /// The records of the journal.
    pub closed spec fn journal_view(&self) -> Seq<Record<Op>> {
        self.journal@
    }

    /// Whether the writer of the journal is reliable.
    pub closed spec fn reliable(&self) -> bool {
        self.journal.sink().reliable()
    }

    /// The operations of the running action that are still to be applied, the
    /// next one first.
    pub closed spec fn pending(&self) -> Seq<OpView> {
        if self.applied <= self.pending@.len() {
            ops_view(self.pending@).skip(self.applied as int)
        } else {
            Seq::empty()
        }
    }

    /// A processor that keeps `journal`, with no action running.
    pub fn new(journal: Journal<Op, W>) -> (processor: Self)
        ensures
            processor.journal_view() == journal@,
            processor.reliable() == journal.sink().reliable(),
            processor.pending() == Seq::<OpView>::empty(),
    {
        let processor = GraphProcessor { journal, pending: Vec::new(), applied: 0 };
        assert(processor.pending() == Seq::<OpView>::empty());
        processor
    }

    /// The journal.
    pub fn journal(&self) -> (journal: &Journal<Op, W>)
        ensures
            journal@ == self.journal_view(),
            journal.sink().reliable() == self.reliable(),
    {
        &self.journal
    }

    /// Gives the journal back.
    pub fn into_journal(self) -> (journal: Journal<Op, W>)
        ensures
            journal@ == self.journal_view(),
            journal.sink().reliable() == self.reliable(),
    {
        self.journal
    }

    /// The operations that bring a link or a copy about; none where it is skipped.
    pub fn resolve_link(&self, action: &LinkAction, probe: &FsProbe) -> (res: Result<
        Vec<Op>,
        Error,
    >)
        ensures
            match link::resolve_link_action(
                probe@,
                action.src@,
                action.dest@,
                action.copy,
                action.optional,
            ) {
                Ok(resolved) => res matches Ok(ops) && ops_view(ops@) == ops_of(resolved),
                Err(err) => res == Err::<Vec<Op>, Error>(err),
            },
    {
        match action.resolve(probe) {
            Ok(link::Res::Normal(ops)) => Ok(map_ops(&ops)),
            Ok(link::Res::Overwrite(ops)) => Ok(map_ops(&ops)),
            Ok(link::Res::Skip(_)) => {
                let ops: Vec<Op> = Vec::new();
                assert(ops_view(ops@) == Seq::<OpView>::empty());
                Ok(ops)
            },
            Err(err) => Err(err),
        }
    }

    /// The operations that create a directory; none where it is skipped.
    pub fn resolve_mkdir(&self, action: &MkdirAction, probe: &FsProbe) -> (res: Result<
        Vec<Op>,
        (),
    >)
        ensures
            res matches Ok(ops) && ops_view(ops@) == ops_of(
                mkdir::resolve_mkdir(probe@, action.path@, action.parents),
            ),
    {
        match action.resolve(probe) {
            mkdir::Res::Normal(ops) => Ok(map_ops(&ops)),
            mkdir::Res::Overwrite(ops) => Ok(map_ops(&ops)),
            mkdir::Res::Skip(_) => {
                let ops: Vec<Op> = Vec::new();
                assert(ops_view(ops@) == Seq::<OpView>::empty());
                Ok(ops)
            },
        }
    }

    /// The operations that write a file.
    pub fn resolve_write(&self, action: &WriteAction, probe: &FsProbe) -> (res: Result<
        Vec<Op>,
        (),
    >)
        ensures
            res matches Ok(ops) && ops_view(ops@) == ops_of(
                crate::action::write::resolve_write(probe@, action.dest@, action.contents@),
            ),
    {
        match action.resolve(probe) {
            crate::action::write::Res::Normal(ops) => Ok(map_ops(&ops)),
            crate::action::write::Res::Overwrite(ops) => Ok(map_ops(&ops)),
        }
    }

    /// Starts an action with the operations `ops`, in the order in which they
    /// are to be applied. With no operations there is nothing to run, and the
    /// journal is left alone.
    pub fn start(&mut self, ops: Vec<Op>) -> (progress: Progress)
        ensures
            final(self).pending() == ops_view(ops@),
            final(self).journal_view() == old(self).journal_view(),
            final(self).reliable() == old(self).reliable(),
            progress == if ops@.len() > 0 {
                Progress::Pending
            } else {
                Progress::Idle
            },
    {
        self.pending = ops;
        self.applied = 0;
        assert(ops_view(self.pending@).skip(0) == ops_view(self.pending@));
        if self.pending.len() == 0 {
            Progress::Idle
        } else {
            Progress::Pending
        }
    }

    /// The operation to apply next, if the running action has one left.
    pub fn next_op(&self) -> (op: Option<&Op>)
        ensures
            op is Some <==> self.pending().len() > 0,
            op matches Some(o) ==> o@ == self.pending()[0],
    {
        if self.applied < self.pending.len() {
            Some(&self.pending[self.applied])
        } else {
            None
        }
    }

    /// Takes the report that the next operation was applied, and at which place
    /// it has kept what it destroyed, if it has kept anything. The inverse of
    /// the operation is appended to the journal; a command and a function
    /// call, which have none, leave no record. Behind the last operation of the
    /// action a commit is appended. When the journal fails, the action is
    /// dropped: nothing is pending any more. A report that asks for no record
    /// cannot fail, nor can any report over a reliable writer.
    pub fn applied(&mut self, backup: Option<Path>) -> (res: Result<Progress, JournalError>)
        ensures
            old(self).reliable() ==> res is Ok && final(self).reliable(),
            old(self).pending().len() > 1 && inverse_of(old(self).pending()[0], path_view(backup))
                is None ==> res == Ok::<Progress, JournalError>(Progress::Pending),
            old(self).pending().len() == 0 ==> {
                &&& res == Ok::<Progress, JournalError>(Progress::Idle)
                &&& final(self).pending() == old(self).pending()
                &&& final(self).journal_view() == old(self).journal_view()
            },
            old(self).pending().len() > 0 ==> match res {
                Ok(progress) => {
                    &&& final(self).pending() == old(self).pending().drop_first()
                    &&& progress != Progress::Idle
                    &&& progress == Progress::Committed <==> final(self).pending().len() == 0
                    &&& recorded(
                        old(self).journal_view(),
                        final(self).journal_view(),
                        inverse_of(old(self).pending()[0], path_view(backup)),
                        progress == Progress::Committed,
                    )
                },
                Err(err) => {
                    &&& err is Io
                    &&& final(self).pending() == Seq::<OpView>::empty()
                    &&& old(self).journal_view().is_prefix_of(final(self).journal_view())
                    &&& final(self).journal_view().len() <= old(self).journal_view().len() + 1
                },
            },
    {
        if self.applied >= self.pending.len() {
            return Ok(Progress::Idle);
        }
        let ghost before = self.journal@;
        let ghost waiting = self.pending();
        assert(waiting[0] == self.pending@[self.applied as int]@);
        match self.pending[self.applied].inverse(&backup) {
            Some(inverse) => match self.journal.append(Record::Action(inverse)) {
                Ok(()) => {
                    assert(self.journal@.drop_last() == before);
                },
                Err(err) => {
                    self.drop_action();
                    return Err(err);
                },
            },
            None => {},
        }
        let ghost logged = self.journal@;
        assert(logged.take(before.len() as int) == before);
        self.applied = self.applied + 1;
        assert(self.pending() == waiting.drop_first());
        if self.applied == self.pending.len() {
            match self.journal.append(Record::Commit) {
                Ok(()) => {
                    assert(self.journal@.drop_last() == logged);
                    assert(self.journal@.take(before.len() as int) == before);
                    Ok(Progress::Committed)
                },
                Err(err) => {
                    self.drop_action();
                    Err(err)
                },
            }
        } else {
            Ok(Progress::Pending)
        }
    }

    /// Forgets the running action.
    fn drop_action(&mut self)
        ensures
            final(self).pending() == Seq::<OpView>::empty(),
            final(self).journal_view() == old(self).journal_view(),
            final(self).reliable() == old(self).reliable(),
    {
        self.pending = Vec::new();
        self.applied = 0;
        assert(ops_view(self.pending@).skip(0) == Seq::<OpView>::empty());
    }

    /// Takes the report that the next operation failed with `error`. The action
    /// is dropped and the journal is rolled back to its last commit. The
    /// failure holds the records of the open transaction, the newest first:
    /// the inverses that the caller has to apply. Where no transaction is open
    /// the journal is left alone, and over a reliable writer the rollback
    /// cannot fail. Where it fails, the journal holds the twins that it had
    /// appended until then, and no commit behind them.
    pub fn failed(&mut self, error: OpError) -> (failure: Failure)
        ensures
            failure.error == error,
            old(self).reliable() ==> failure.journal is None && final(self).reliable(),
            run_len(old(self).journal_view(), 0) == 0 ==> failure.journal is None && final(self).journal_view() == old(self).journal_view(),
            failure.journal matches Some(err) ==> err is Io && inverses_appended(
                old(self).journal_view(),
                0,
                final(self).journal_view().len() - old(self).journal_view().len(),
                final(self).journal_view(),
            ),
            final(self).pending() == Seq::<OpView>::empty(),
            failure.inverses@.len() == run_len(old(self).journal_view(), 0),
            forall|k: int|
                0 <= k < failure.inverses@.len() ==> holds_back(
                    old(self).journal_view(),
                    k,
                    #[trigger] failure.inverses@[k],
                ),
            old(self).journal_view().is_prefix_of(final(self).journal_view()),
            failure.journal is None ==> rolled_back(
                old(self).journal_view(),
                0,
                final(self).journal_view(),
            ),
    {
        self.drop_action();
        let inverses = self.run_back(0);
        assert(all_encodable::<Op>());
        let mut iter = self.journal.rollback();
        let journal = match iter.exhaust() {
            Ok(_) => None,
            Err(err) => Some(err),
        };
        Failure { error, inverses, journal }
    }

    /// Takes the last transaction back, if the journal ends with a commit: the
    /// journal rolls the transaction back, and the records of the transaction
    /// are handed out, the newest first: the inverses that the caller has to
    /// apply. A transaction without actions leaves the journal alone, and over
    /// a reliable writer the rollback cannot fail.
    pub fn rollback_last(&mut self) -> (taken: Option<TakenBack>)
        ensures
            final(self).pending() == old(self).pending(),
            old(self).reliable() ==> final(self).reliable(),
            old(self).journal_view().is_prefix_of(final(self).journal_view()),
            taken is Some <==> record_back(old(self).journal_view(), 0) == Some(
                Record::<Op>::Commit,
            ),
            taken is None ==> final(self).journal_view() == old(self).journal_view(),
            taken matches Some(back) ==> {
                &&& back.inverses@.len() == run_len(old(self).journal_view(), 1)
                &&& forall|k: int|
                    0 <= k < back.inverses@.len() ==> holds_back(
                        old(self).journal_view(),
                        1 + k,
                        #[trigger] back.inverses@[k],
                    )
                &&& old(self).reliable() ==> back.journal is None
                &&& run_len(old(self).journal_view(), 1) == 0 ==> back.journal is None && final(self).journal_view() == old(self).journal_view()
                &&& back.journal is None ==> rolled_back(
                    old(self).journal_view(),
                    1,
                    final(self).journal_view(),
                )
                &&& back.journal matches Some(err) ==> err is Io && inverses_appended(
                    old(self).journal_view(),
                    1,
                    final(self).journal_view().len() - old(self).journal_view().len(),
                    final(self).journal_view(),
                )
            },
    {
        let inverses = self.run_back(1);
        assert(all_encodable::<Op>());
        match self.journal.rollback_last() {
            Some(mut iter) => {
                let journal = match iter.exhaust() {
                    Ok(_) => None,
                    Err(err) => Some(err),
                };
                Some(TakenBack { inverses, journal })
            },
            None => None,
        }
    }

    /// The operations of the run of actions that ends `from` places before the
    /// end of the journal, the newest first.
    fn run_back(&self, from: usize) -> (ops: Vec<Op>)
        ensures
            ops@.len() == run_len(self.journal_view(), from as int),
            forall|k: int|
                0 <= k < ops@.len() ==> holds_back(self.journal_view(), from + k, #[trigger] ops@[k]),
    {
        let ghost before = self.journal@;
        let len = self.journal.len();
        let mut ops: Vec<Op> = Vec::new();
        let mut at: usize = from;
        loop
            invariant
                before == self.journal@,
                len == before.len(),
                at == from + ops@.len(),
                ops@.len() <= before.len(),
                forall|j: int| 0 <= j < ops@.len() ==> holds_back(before, from + j, #[trigger] ops@[j]),
            ensures
                ops@.len() == run_len(before, from as int),
                forall|j: int| 0 <= j < ops@.len() ==> holds_back(before, from + j, #[trigger] ops@[j]),
            decreases before.len() - ops@.len(),
        {
            match self.journal.get_back(at) {
                Some(Record::Action(op)) => {
                    ops.push(op.clone());
                    at = at + 1;
                },
                _ => {
                    proof {
                        assert forall|j: int|
                            from <= j < from + ops@.len() as nat implies record_back(
                            before,
                            j,
                        ) is Some && record_back(before, j)->Some_0 is Action by {
                            assert(holds_back(before, from + (j - from), ops@[j - from]));
                        }
                        crate::journal::rollback::run_len_counts(
                            before,
                            from as int,
                            ops@.len() as nat,
                        );
                    }
                    break ;
                },
            }
        }
        ops
    }
}

/// What is left to do when a transaction was taken back in the journal.
#[derive(Debug, PartialEq)]
pub struct TakenBack {
    /// The records of the transaction, the newest first: what has to be applied
    /// to take it back.
    pub inverses: Vec<Op>,
    /// Why the journal could not be rolled back, where it could not.
    pub journal: Option<JournalError>,
}

/// Whether the record `k` places before the end of `journal` is an action with
/// the operation `op`.
pub open spec fn holds_back(journal: Seq<Record<Op>>, k: int, op: Op) -> bool {
    record_back(journal, k) matches Some(Record::Action(held)) && held@ == op@
}

/// Whether `after` is `before` with the records of one applied operation: the
/// inverse of what was applied, where it has one, and a commit where the
/// operation was the last of its action.
pub open spec fn recorded(
    before: Seq<Record<Op>>,
    after: Seq<Record<Op>>,
    inverse: Option<OpView>,
    commit: bool,
) -> bool {
    let n = (if inverse is Some {
        1int
    } else {
        0int
    }) + (if commit {
        1int
    } else {
        0int
    });
    &&& after.len() == before.len() + n
    &&& after.take(before.len() as int) == before
    &&& inverse matches Some(op) ==> after[before.len() as int] matches Record::Action(logged)
        && logged@ == op
    &&& commit ==> after.last() is Commit
}

} // verus!
