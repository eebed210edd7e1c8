use shelf::action::link::Error;
use shelf::action::{LinkAction, MkdirAction, WriteAction};
use shelf::fs::{FsProbe, Node};
use shelf::journal::{IoError, Journal, JournalError, Record, Writer};
use shelf::op::{
    CommandOp, CreateOp, LinkOp, LinkOpError, LinkUndoOp, MkdirOp, MkdirUndoOp, Op,
    OpError, RmOp, RmUndoOp, WriteOp,
};
use shelf::path::Path;
use shelf::process::{Failure, GraphProcessor, Progress};

fn path(text: &str) -> Path {
    Path::parse(text).unwrap()
}

fn processor() -> GraphProcessor<Vec<u8>> {
    GraphProcessor::new(Journal::new(Vec::new()))
}

fn mkdir(at: &str) -> Op {
    Op::Mkdir(MkdirOp { path: path(at) })
}

fn mkdir_undo(at: &str) -> Record<Op> {
    Record::Action(Op::MkdirUndo(MkdirUndoOp { path: path(at) }))
}

fn mkdir_again(at: &str) -> Record<Op> {
    Record::Action(mkdir(at))
}

fn link_error() -> OpError {
    OpError::Link(LinkOpError::Io(IoError { message: String::from("denied") }))
}

/// Applies every pending operation, as if each went through.
fn run(processor: &mut GraphProcessor<Vec<u8>>, ops: Vec<Op>) -> Result<Progress, JournalError> {
    let mut progress = processor.start(ops);
    while progress == Progress::Pending {
        assert!(processor.next_op().is_some());
        progress = processor.applied(None)?;
    }
    Ok(progress)
}

#[test]
fn link_new_is_journalled_with_its_inverses() -> Result<(), JournalError> {
    let fs = {
        let mut fs = FsProbe::new();
        fs.insert(path("/"), Node::Dir);
        fs.insert(path("/pkg/a"), Node::File { contents: None });
        fs
    };
    let mut processor = processor();
    let action =
        LinkAction { src: path("/pkg/a"), dest: path("/home/a"), copy: false, optional: false };
    let ops = processor.resolve_link(&action, &fs).unwrap();
    assert_eq!(
        vec![mkdir("/home"), Op::Link(LinkOp { src: path("/pkg/a"), dest: path("/home/a") })],
        ops
    );
    assert_eq!(Progress::Committed, run(&mut processor, ops)?);
    assert_eq!(
        &[
            mkdir_undo("/home"),
            Record::Action(Op::LinkUndo(LinkUndoOp {
                src: path("/pkg/a"),
                dest: path("/home/a")
            })),
            Record::Commit,
        ],
        processor.journal().records()
    );
    Ok(())
}

#[test]
fn link_idempotent_leaves_the_journal_alone() -> Result<(), JournalError> {
    let fs = {
        let mut fs = FsProbe::new();
        fs.insert(path("/"), Node::Dir);
        fs.insert(path("/home"), Node::Dir);
        fs.insert(path("/pkg/a"), Node::File { contents: None });
        fs.insert(path("/home/a"), Node::Symlink { target: Some(path("/pkg/a")) });
        fs
    };
    let mut processor = processor();
    let action =
        LinkAction { src: path("/pkg/a"), dest: path("/home/a"), copy: false, optional: false };
    let ops = processor.resolve_link(&action, &fs).unwrap();
    assert_eq!(Vec::<Op>::new(), ops);
    assert_eq!(Progress::Idle, run(&mut processor, ops)?);
    assert!(processor.journal().is_empty());
    let missing =
        LinkAction { src: path("/pkg/b"), dest: path("/home/b"), copy: false, optional: false };
    assert_eq!(Err(Error::SrcMissing), processor.resolve_link(&missing, &fs));
    assert!(processor.journal().is_empty());
    Ok(())
}

#[test]
fn link_overwrite_file_records_where_the_file_was_kept() -> Result<(), JournalError> {
    let fs = {
        let mut fs = FsProbe::new();
        fs.insert(path("/"), Node::Dir);
        fs.insert(path("/home"), Node::Dir);
        fs.insert(path("/pkg/a"), Node::File { contents: None });
        fs.insert(path("/home/a"), Node::File { contents: Some(String::from("old")) });
        fs
    };
    let mut processor = processor();
    let action =
        LinkAction { src: path("/pkg/a"), dest: path("/home/a"), copy: false, optional: false };
    let ops = processor.resolve_link(&action, &fs).unwrap();
    let rm = Op::Rm(RmOp { path: path("/home/a"), dir: false });
    let link = Op::Link(LinkOp { src: path("/pkg/a"), dest: path("/home/a") });
    assert_eq!(vec![rm.clone(), link.clone()], ops);

    assert_eq!(Progress::Pending, processor.start(ops));
    assert_eq!(Some(&rm), processor.next_op());
    assert_eq!(Progress::Pending, processor.applied(Some(path("/backup/0")))?);
    assert_eq!(Some(&link), processor.next_op());
    assert_eq!(Progress::Committed, processor.applied(None)?);
    assert_eq!(None, processor.next_op());

    let restore =
        Op::RmUndo(RmUndoOp { path: path("/home/a"), dir: false, backup: Some(path("/backup/0")) });
    let unlink = Op::LinkUndo(LinkUndoOp { src: path("/pkg/a"), dest: path("/home/a") });
    assert_eq!(
        &[Record::Action(restore), Record::Action(unlink), Record::Commit],
        processor.journal().records()
    );
    Ok(())
}

#[test]
fn resolve_write_and_mkdir_give_the_operations() {
    let fs = {
        let mut fs = FsProbe::new();
        fs.insert(path("/"), Node::Dir);
        fs.insert(path("/home"), Node::Dir);
        fs.insert(path("/home/d"), Node::Dir);
        fs
    };
    let processor = processor();
    let write = WriteAction { dest: path("/home/.x"), contents: String::from("hello") };
    assert_eq!(
        Ok(vec![
            Op::Create(CreateOp { path: path("/home/.x") }),
            Op::Write(WriteOp { path: path("/home/.x"), contents: b"hello".to_vec() }),
        ]),
        processor.resolve_write(&write, &fs)
    );
    let made = MkdirAction { path: path("/home/a/b"), parents: true };
    assert_eq!(Ok(vec![mkdir("/home/a"), mkdir("/home/a/b")]), processor.resolve_mkdir(&made, &fs));
    let there = MkdirAction { path: path("/home/d"), parents: true };
    assert_eq!(Ok(Vec::new()), processor.resolve_mkdir(&there, &fs));
}

#[test]
fn an_action_without_operations_leaves_no_record() -> Result<(), JournalError> {
    let mut processor = processor();
    assert_eq!(Progress::Idle, processor.start(Vec::new()));
    assert!(processor.journal().is_empty());
    assert_eq!(None, processor.next_op());
    // A report without a running action changes nothing.
    assert_eq!(Progress::Idle, processor.applied(None)?);
    assert!(processor.journal().is_empty());
    Ok(())
}

#[test]
fn a_command_leaves_no_record() -> Result<(), JournalError> {
    let command = Op::Command(CommandOp {
        command: String::from("true"),
        start: path("/pkg"),
        shell: String::from("sh"),
        clean_env: false,
        env: Vec::new(),
    });
    let mut processor = processor();
    assert_eq!(Progress::Committed, run(&mut processor, vec![mkdir("/a"), command])?);
    assert_eq!(&[mkdir_undo("/a"), Record::Commit], processor.journal().records());
    Ok(())
}

#[test]
fn rollback_partial() -> Result<(), JournalError> {
    // Three actions with six operations in all: two of the actions are
    // skipped, the third creates six directories, and the fifth fails.
    let mut processor = processor();
    let ops: Vec<Op> =
        ["/a", "/a/b", "/a/b/c", "/a/b/c/d", "/a/b/c/d/e", "/a/b/c/d/e/f"].iter().map(|p| mkdir(p)).collect();
    assert_eq!(Progress::Pending, processor.start(ops));
    for _ in 0..4 {
        assert!(processor.next_op().is_some());
        assert_eq!(Progress::Pending, processor.applied(None)?);
    }
    assert_eq!(Some(&mkdir("/a/b/c/d/e")), processor.next_op());

    let failure = processor.failed(link_error());
    assert_eq!(
        Failure {
            error: link_error(),
            inverses: vec![
                Op::MkdirUndo(MkdirUndoOp { path: path("/a/b/c/d") }),
                Op::MkdirUndo(MkdirUndoOp { path: path("/a/b/c") }),
                Op::MkdirUndo(MkdirUndoOp { path: path("/a/b") }),
                Op::MkdirUndo(MkdirUndoOp { path: path("/a") }),
            ],
            journal: None,
        },
        failure
    );
    assert_eq!(None, processor.next_op());
    // The journal holds the inverses of the four operations that went
    // through, then the record of their rollback, and a commit.
    assert_eq!(
        &[
            mkdir_undo("/a"),
            mkdir_undo("/a/b"),
            mkdir_undo("/a/b/c"),
            mkdir_undo("/a/b/c/d"),
            mkdir_again("/a/b/c/d"),
            mkdir_again("/a/b/c"),
            mkdir_again("/a/b"),
            mkdir_again("/a"),
            Record::Commit,
        ],
        processor.journal().records()
    );
    Ok(())
}

#[test]
fn a_failure_leaves_committed_actions_alone() -> Result<(), JournalError> {
    let mut processor = processor();
    assert_eq!(Progress::Committed, run(&mut processor, vec![mkdir("/a"), mkdir("/a/b")])?);
    assert_eq!(Progress::Pending, processor.start(vec![mkdir("/c"), mkdir("/c/d")]));
    // The first operation of the second action fails.
    let failure = processor.failed(link_error());
    assert_eq!(Failure { error: link_error(), inverses: Vec::new(), journal: None }, failure);
    assert_eq!(
        &[mkdir_undo("/a"), mkdir_undo("/a/b"), Record::Commit],
        processor.journal().records()
    );
    Ok(())
}

/// A writer that takes a number of writes and then fails.
struct Failing {
    left: usize,
}

impl Writer for Failing {
    fn write_all(&mut self, _bytes: &[u8]) -> Result<(), IoError> {
        if self.left == 0 {
            return Err(IoError { message: String::from("disk full") });
        }
        self.left -= 1;
        Ok(())
    }

    fn flush(&mut self) -> Result<(), IoError> {
        Ok(())
    }
}

#[test]
fn a_journal_failure_drops_the_action() {
    let mut processor = GraphProcessor::new(Journal::new(Failing { left: 1 }));
    assert_eq!(Progress::Pending, processor.start(vec![mkdir("/a"), mkdir("/b")]));
    assert_eq!(Ok(Progress::Pending), processor.applied(None));
    let full = JournalError::Io(IoError { message: String::from("disk full") });
    assert_eq!(Err(full.clone()), processor.applied(None));
    assert_eq!(None, processor.next_op());
    assert_eq!(&[mkdir_undo("/a")], processor.journal().records());
    // The rollback cannot be written either, and says so.
    let failure = processor.failed(link_error());
    assert_eq!(
        Failure {
            error: link_error(),
            inverses: vec![Op::MkdirUndo(MkdirUndoOp { path: path("/a") })],
            journal: Some(full),
        },
        failure
    );
    assert_eq!(&[mkdir_undo("/a")], processor.journal().records());
}

#[test]
fn the_journal_of_a_deployment_is_read_back() -> Result<(), JournalError> {
    let mut processor = processor();
    let rm = Op::Rm(RmOp { path: path("/home/a"), dir: true });
    assert_eq!(Progress::Pending, processor.start(vec![rm.clone(), mkdir("/home/a")]));
    assert_eq!(Progress::Pending, processor.applied(Some(path("/backup/0")))?);
    assert_eq!(Progress::Committed, processor.applied(None)?);

    let written = processor.journal().writer().clone();
    let resumed: Journal<Op, Vec<u8>> = Journal::load(&written, Vec::new())?;
    assert_eq!(processor.journal().records(), resumed.records());
    assert_eq!(resumed.records(), processor.into_journal().records());
    assert_eq!(
        Some(&Record::Action(Op::RmUndo(RmUndoOp {
            path: path("/home/a"),
            dir: true,
            backup: Some(path("/backup/0"))
        }))),
        resumed.get_back(2)
    );
    Ok(())
}

#[test]
fn a_report_that_asks_for_no_record_cannot_fail() {
    // The writer takes nothing at all.
    let command = Op::Command(CommandOp {
        command: String::from("true"),
        start: path("/pkg"),
        shell: String::from("sh"),
        clean_env: false,
        env: Vec::new(),
    });
    let mut processor = GraphProcessor::new(Journal::new(Failing { left: 0 }));
    assert_eq!(Progress::Pending, processor.start(vec![command, mkdir("/a")]));
    assert_eq!(Ok(Progress::Pending), processor.applied(Some(path("/backup/0"))));
    assert!(processor.journal().is_empty());
    assert_eq!(Some(&mkdir("/a")), processor.next_op());
    // No transaction is open, so there is nothing to roll back either.
    let failure = processor.failed(link_error());
    assert_eq!(Failure { error: link_error(), inverses: Vec::new(), journal: None }, failure);
    assert!(processor.journal().is_empty());
}

#[test]
fn the_record_is_the_inverse_of_the_pending_operation() -> Result<(), JournalError> {
    let mut processor = processor();
    let write = Op::Write(WriteOp { path: path("/home/a"), contents: vec![1] });
    assert_eq!(Progress::Pending, processor.start(vec![mkdir("/home"), write]));
    // A directory keeps nothing, whatever the report says.
    assert_eq!(Progress::Pending, processor.applied(Some(path("/backup/0")))?);
    assert_eq!(Progress::Committed, processor.applied(Some(path("/backup/1")))?);
    assert_eq!(
        &[
            mkdir_undo("/home"),
            Record::Action(Op::WriteUndo(shelf::op::WriteUndoOp {
                path: path("/home/a"),
                contents: vec![1],
                backup: Some(path("/backup/1"))
            })),
            Record::Commit,
        ],
        processor.journal().records()
    );
    Ok(())
}

#[test]
fn rollback_last_hands_out_the_last_transaction() -> Result<(), JournalError> {
    let mut processor = processor();
    // Nothing is committed yet.
    assert_eq!(None, processor.rollback_last());
    assert_eq!(Progress::Committed, run(&mut processor, vec![mkdir("/a")])?);
    assert_eq!(Progress::Committed, run(&mut processor, vec![mkdir("/b"), mkdir("/b/c")])?);
    let taken = processor.rollback_last().unwrap();
    assert_eq!(
        shelf::process::TakenBack {
            inverses: vec![
                Op::MkdirUndo(MkdirUndoOp { path: path("/b/c") }),
                Op::MkdirUndo(MkdirUndoOp { path: path("/b") }),
            ],
            journal: None,
        },
        taken
    );
    assert_eq!(
        &[
            mkdir_undo("/a"),
            Record::Commit,
            mkdir_undo("/b"),
            mkdir_undo("/b/c"),
            Record::Commit,
            mkdir_again("/b/c"),
            mkdir_again("/b"),
            Record::Commit,
        ],
        processor.journal().records()
    );
    // An open transaction has no commit to start from.
    assert_eq!(Progress::Pending, processor.start(vec![mkdir("/d"), mkdir("/e")]));
    assert_eq!(Progress::Pending, processor.applied(None)?);
    assert_eq!(None, processor.rollback_last());
    Ok(())
}
