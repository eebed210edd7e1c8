use shelf::action::link::{Res as LinkRes, Skip as LinkSkip};
use shelf::action::mkdir::{Res as MkdirRes, Skip as MkdirSkip};
use shelf::action::{LinkAction, MkdirAction, WriteAction};
use shelf::effect::{apply, Finish};
use shelf::fs::{FileKind, FsProbe, Node};
use shelf::journal::rollback::Rollback;
use shelf::journal::{IoError, Journal, JournalError, Record};
use shelf::op::ctx::decimal_text;
use shelf::op::{
    CommandOp, CommandOpError, CopyOp, CopyOpError, CreateOp, CreateOpError, FinishCtx, Finished,
    FunctionOp, FunctionOpError, LinkOp, LinkOpError, LinkUndoOp, MkdirOp, MkdirOpError,
    MkdirUndoOp, Op, OpError, RmOp, RmOpError, RmUndoOp, WriteOp, WriteOpError, WriteUndoOp,
};
use shelf::path::Path;
use shelf::process::{GraphProcessor, Progress};

fn path(text: &str) -> Path {
    Path::parse(text).unwrap()
}

fn file(contents: &str) -> Node {
    Node::File { contents: Some(String::from(contents)) }
}

fn probe(entries: Vec<(&str, Node)>) -> FsProbe {
    let mut probe = FsProbe::new();
    for (at, node) in entries {
        probe.insert(path(at), node);
    }
    probe
}

/// A filesystem with a package, a home and a place for backups.
fn world() -> FsProbe {
    probe(vec![
        ("/", Node::Dir),
        ("/pkg", Node::Dir),
        ("/pkg/a", file("new")),
        ("/pkg/d", Node::Dir),
        ("/pkg/d/x", file("x")),
        ("/pkg/d/sub", Node::Dir),
        ("/pkg/d/sub/y", file("y")),
        ("/home", Node::Dir),
        ("/backup", Node::Dir),
    ])
}

/// What stands at each of `paths`.
fn look(fs: &FsProbe, paths: &[&str]) -> Vec<Option<Node>> {
    paths.iter().map(|p| fs.node(&path(p)).cloned()).collect()
}

const EVERYWHERE: [&str; 16] = [
    "/",
    "/pkg",
    "/pkg/a",
    "/pkg/d",
    "/pkg/d/x",
    "/pkg/d/sub",
    "/pkg/d/sub/y",
    "/home",
    "/home/a",
    "/home/d",
    "/home/d/x",
    "/home/d/sub",
    "/home/d/sub/y",
    "/backup",
    "/backup/0",
    "/backup/1",
];

/// Applies the operations one by one, each with a backup place of its own,
/// and journals them. Returns the first failure.
fn deploy(
    fs: &mut FsProbe,
    processor: &mut GraphProcessor<Vec<u8>>,
    ops: Vec<Op>,
    places: &mut usize,
) -> Result<Result<(), (OpError, Vec<Op>)>, JournalError> {
    let mut progress = processor.start(ops);
    while progress == Progress::Pending {
        let op = processor.next_op().unwrap().clone();
        let place = path(&format!("/backup/{}", *places));
        *places += 1;
        match apply(fs, &op, &place) {
            Ok(finished) => progress = processor.applied(finished.backup)?,
            Err(error) => {
                let failure = processor.failed(error);
                assert_eq!(None, failure.journal);
                return Ok(Err((failure.error, failure.inverses)));
            }
        }
    }
    Ok(Ok(()))
}

#[test]
fn link_new_end_to_end() -> Result<(), JournalError> {
    let mut fs = probe(vec![("/", Node::Dir), ("/pkg", Node::Dir), ("/pkg/a", file("new"))]);
    let mut processor = GraphProcessor::new(Journal::new(Vec::new()));
    let action =
        LinkAction { src: path("/pkg/a"), dest: path("/home/a"), copy: false, optional: false };
    let ops = processor.resolve_link(&action, &fs).unwrap();
    assert_eq!(Ok(()), deploy(&mut fs, &mut processor, ops, &mut 0)?);

    assert_eq!(Some(FileKind::Dir), fs.meta(&path("/home")));
    assert_eq!(Some(&path("/pkg/a")), fs.read_link(&path("/home/a")));
    assert_eq!(
        &[
            Record::Action(Op::MkdirUndo(MkdirUndoOp { path: path("/home") })),
            Record::Action(Op::LinkUndo(LinkUndoOp {
                src: path("/pkg/a"),
                dest: path("/home/a")
            })),
            Record::Commit,
        ],
        processor.journal().records()
    );
    // Deployment is idempotent: the link is in place now.
    assert_eq!(Ok(LinkRes::Skip(LinkSkip::DestExists)), action.resolve(&fs));
    Ok(())
}

#[test]
fn link_overwrite_file_is_rolled_back_from_the_backup() -> Result<(), JournalError> {
    let mut fs = world();
    fs.insert(path("/home/a"), file("old"));
    let before = look(&fs, &EVERYWHERE);

    let mut processor = GraphProcessor::new(Journal::new(Vec::new()));
    let action =
        LinkAction { src: path("/pkg/a"), dest: path("/home/a"), copy: false, optional: false };
    let ops = processor.resolve_link(&action, &fs).unwrap();
    assert_eq!(Ok(()), deploy(&mut fs, &mut processor, ops, &mut 0)?);
    assert_eq!(Some(&path("/pkg/a")), fs.read_link(&path("/home/a")));
    assert_eq!(Some(&String::from("old")), fs.read_to_string(&path("/backup/0")));
    assert_eq!(Ok(LinkRes::Skip(LinkSkip::DestExists)), action.resolve(&fs));

    // Take the transaction back: its records are the inverses to apply,
    // the newest first.
    let taken = processor.rollback_last().unwrap();
    assert_eq!(None, taken.journal);
    let inverses = taken.inverses;
    assert_eq!(
        vec![
            Op::LinkUndo(LinkUndoOp { src: path("/pkg/a"), dest: path("/home/a") }),
            Op::RmUndo(RmUndoOp {
                path: path("/home/a"),
                dir: false,
                backup: Some(path("/backup/0"))
            }),
        ],
        inverses
    );
    // The journal holds the rollback as a transaction of its own.
    assert_eq!(6, processor.journal().len());
    assert_eq!(Some(&Record::Commit), processor.journal().latest());
    for (n, inverse) in inverses.iter().enumerate() {
        let place = path(&format!("/backup/{}", 10 + n));
        assert!(apply(&mut fs, inverse, &place).is_ok());
    }
    assert_eq!(Some(&String::from("old")), fs.read_to_string(&path("/home/a")));
    assert_eq!(before, look(&fs, &EVERYWHERE));
    Ok(())
}

#[test]
fn copy_end_to_end() -> Result<(), JournalError> {
    let mut fs = world();
    fs.insert(path("/home/a"), Node::Symlink { target: None });
    let mut processor = GraphProcessor::new(Journal::new(Vec::new()));
    let mut places = 0;
    let action =
        LinkAction { src: path("/pkg/a"), dest: path("/home/a"), copy: true, optional: false };
    let ops = processor.resolve_link(&action, &fs).unwrap();
    assert_eq!(Ok(()), deploy(&mut fs, &mut processor, ops, &mut places)?);
    assert_eq!(Some(&String::from("new")), fs.read_to_string(&path("/home/a")));
    assert_eq!(Ok(LinkRes::Skip(LinkSkip::DestExists)), action.resolve(&fs));

    // The copy of a directory takes all below it along, and is resolved as an
    // overwrite the next time: only files are compared.
    let tree =
        LinkAction { src: path("/pkg/d"), dest: path("/home/d"), copy: true, optional: false };
    let ops = processor.resolve_link(&tree, &fs).unwrap();
    assert_eq!(Ok(()), deploy(&mut fs, &mut processor, ops, &mut places)?);
    assert_eq!(Some(FileKind::Dir), fs.meta(&path("/home/d")));
    assert_eq!(Some(&String::from("x")), fs.read_to_string(&path("/home/d/x")));
    assert_eq!(Some(&String::from("y")), fs.read_to_string(&path("/home/d/sub/y")));
    assert_eq!(Some(&String::from("y")), fs.read_to_string(&path("/pkg/d/sub/y")));
    assert!(matches!(tree.resolve(&fs), Ok(LinkRes::Overwrite(_))));
    Ok(())
}

#[test]
fn write_generated_string_end_to_end() -> Result<(), JournalError> {
    let mut fs = world();
    let mut processor = GraphProcessor::new(Journal::new(Vec::new()));
    let mut places = 0;
    let action = WriteAction { dest: path("/home/.x"), contents: String::from("hello") };
    let ops = processor.resolve_write(&action, &fs).unwrap();
    assert_eq!(Ok(()), deploy(&mut fs, &mut processor, ops, &mut places)?);
    assert_eq!(Some(&String::from("hello")), fs.read_to_string(&path("/home/.x")));

    // A second write replaces the first, and keeps it for the way back.
    let action = WriteAction { dest: path("/home/.x"), contents: String::from("bye") };
    let ops = processor.resolve_write(&action, &fs).unwrap();
    assert_eq!(Ok(()), deploy(&mut fs, &mut processor, ops, &mut places)?);
    assert_eq!(Some(&String::from("bye")), fs.read_to_string(&path("/home/.x")));
    Ok(())
}

#[test]
fn mkdir_parents_end_to_end() -> Result<(), JournalError> {
    let mut fs = world();
    let mut processor = GraphProcessor::new(Journal::new(Vec::new()));
    let mut places = 0;
    let action = MkdirAction { path: path("/home/a/b/c"), parents: true };
    let ops = processor.resolve_mkdir(&action, &fs).unwrap();
    assert_eq!(Ok(()), deploy(&mut fs, &mut processor, ops, &mut places)?);
    for made in ["/home/a", "/home/a/b", "/home/a/b/c"] {
        assert_eq!(Some(FileKind::Dir), fs.meta(&path(made)));
    }
    assert_eq!(MkdirRes::Skip(MkdirSkip::DestExists), action.resolve(&fs));

    // Without its parents a directory cannot be made.
    let bare = MkdirAction { path: path("/home/x/y"), parents: false };
    let ops = processor.resolve_mkdir(&bare, &fs).unwrap();
    let failed = deploy(&mut fs, &mut processor, ops, &mut places)?;
    assert!(matches!(failed, Err((OpError::Mkdir(_), _))));
    assert_eq!(None, fs.meta(&path("/home/x/y")));
    Ok(())
}

#[test]
fn rollback_partial_end_to_end() -> Result<(), JournalError> {
    let mut fs = world();
    let before = look(&fs, &EVERYWHERE);
    let mut processor = GraphProcessor::new(Journal::new(Vec::new()));
    // Six operations; the fifth asks for a directory whose parent is missing.
    let ops = vec![
        Op::Mkdir(MkdirOp { path: path("/home/d") }),
        Op::Create(CreateOp { path: path("/home/a") }),
        Op::Write(WriteOp { path: path("/home/a"), contents: b"text".to_vec() }),
        Op::Link(LinkOp { src: path("/pkg/a"), dest: path("/home/d/x") }),
        Op::Mkdir(MkdirOp { path: path("/home/gone/sub") }),
        Op::Mkdir(MkdirOp { path: path("/home/last") }),
    ];
    let (error, inverses) = deploy(&mut fs, &mut processor, ops, &mut 0)?.unwrap_err();
    assert!(matches!(error, OpError::Mkdir(_)));
    assert_eq!(Some(&String::from("text")), fs.read_to_string(&path("/home/a")));
    assert_eq!(4, inverses.len());
    assert_eq!(9, processor.journal().len());
    assert_eq!(Some(&Record::Commit), processor.journal().latest());

    for (n, inverse) in inverses.iter().enumerate() {
        let place = path(&format!("/backup/{}", 10 + n));
        assert!(apply(&mut fs, inverse, &place).is_ok());
    }
    // What the four operations touched is as it was before.
    assert_eq!(before[7..13], look(&fs, &EVERYWHERE)[7..13]);
    assert_eq!(None, fs.meta(&path("/home/gone/sub")));
    assert_eq!(None, fs.meta(&path("/home/last")));
    Ok(())
}

/// Applies `op`, then its inverse, and checks that all is as it was.
fn there_and_back(mut fs: FsProbe, op: Op, touched: &[&str]) {
    let before = look(&fs, touched);
    let finished = apply(&mut fs, &op, &path("/backup/0")).unwrap();
    assert_eq!(op, finished.op);
    assert_ne!(before, look(&fs, touched));
    let inverse = finished.rollback().unwrap();
    let again = apply(&mut fs, &inverse, &path("/backup/1")).unwrap();
    assert_eq!(before, look(&fs, touched));
    // The inverse of the inverse does what the operation did.
    let redo = again.rollback().unwrap();
    assert_eq!(op.rollback().rollback(), redo.rollback().rollback());
}

#[test]
fn every_operation_is_undone_by_its_inverse() {
    let at = ["/home/a", "/home/d", "/home/d/x", "/home/d/sub", "/home/d/sub/y"];
    there_and_back(world(), Op::Link(LinkOp { src: path("/pkg/a"), dest: path("/home/a") }), &at);
    there_and_back(
        world(),
        Op::Copy(CopyOp { src: path("/pkg/a"), dest: path("/home/a"), dir: false }),
        &at,
    );
    there_and_back(
        world(),
        Op::Copy(CopyOp { src: path("/pkg/d"), dest: path("/home/d"), dir: true }),
        &at,
    );
    there_and_back(world(), Op::Create(CreateOp { path: path("/home/a") }), &at);
    there_and_back(world(), Op::Mkdir(MkdirOp { path: path("/home/d") }), &at);
    there_and_back(
        world(),
        Op::Write(WriteOp { path: path("/home/a"), contents: b"text".to_vec() }),
        &at,
    );
    let pkg = ["/pkg/a", "/pkg/d", "/pkg/d/x", "/pkg/d/sub", "/pkg/d/sub/y"];
    there_and_back(
        world(),
        Op::Write(WriteOp { path: path("/pkg/a"), contents: vec![0xff, 0xfe] }),
        &pkg,
    );
    there_and_back(world(), Op::Rm(RmOp { path: path("/pkg/a"), dir: false }), &pkg);
    there_and_back(world(), Op::Rm(RmOp { path: path("/pkg/d"), dir: true }), &pkg);

    // The undo twins are operations too.
    let mut linked = world();
    linked.insert(path("/home/a"), Node::Symlink { target: Some(path("/pkg/a")) });
    there_and_back(
        linked,
        Op::LinkUndo(LinkUndoOp { src: path("/pkg/a"), dest: path("/home/a") }),
        &at,
    );
    let mut made = world();
    made.insert(path("/home/d"), Node::Dir);
    there_and_back(made, Op::MkdirUndo(MkdirUndoOp { path: path("/home/d") }), &at);
    let mut kept = world();
    kept.insert(path("/backup/7"), file("kept"));
    there_and_back(
        kept,
        Op::RmUndo(RmUndoOp { path: path("/home/a"), dir: false, backup: Some(path("/backup/7")) }),
        &at,
    );
    let mut written = world();
    written.insert(path("/home/a"), file("text"));
    written.insert(path("/backup/7"), file("kept"));
    there_and_back(
        written,
        Op::WriteUndo(WriteUndoOp {
            path: path("/home/a"),
            contents: b"text".to_vec(),
            backup: Some(path("/backup/7")),
        }),
        &at,
    );
}

#[test]
fn operations_that_cannot_be_applied_change_nothing() {
    let refused = |op: Op| {
        let mut fs = world();
        let before = look(&fs, &EVERYWHERE);
        assert!(apply(&mut fs, &op, &path("/backup/0")).is_err());
        assert_eq!(before, look(&fs, &EVERYWHERE));
    };
    // Something is in the way.
    refused(Op::Link(LinkOp { src: path("/pkg/a"), dest: path("/pkg/d") }));
    refused(Op::Mkdir(MkdirOp { path: path("/home") }));
    refused(Op::Create(CreateOp { path: path("/pkg/a") }));
    // The parent is missing, or is no directory.
    refused(Op::Mkdir(MkdirOp { path: path("/home/a/b") }));
    refused(Op::Link(LinkOp { src: path("/pkg/a"), dest: path("/pkg/a/b") }));
    // Nothing is there, or not what the operation expects.
    refused(Op::Rm(RmOp { path: path("/home/a"), dir: false }));
    refused(Op::Rm(RmOp { path: path("/pkg/d"), dir: false }));
    refused(Op::Rm(RmOp { path: path("/pkg/a"), dir: true }));
    refused(Op::MkdirUndo(MkdirUndoOp { path: path("/pkg/d") }));
    refused(Op::LinkUndo(LinkUndoOp { src: path("/pkg/a"), dest: path("/pkg/a") }));
    refused(Op::RmUndo(RmUndoOp { path: path("/home/a"), dir: false, backup: None }));
    refused(Op::Write(WriteOp { path: path("/pkg/d"), contents: Vec::new() }));
    refused(Op::Copy(CopyOp { src: path("/pkg/d"), dest: path("/home/d"), dir: false }));
    refused(Op::Copy(CopyOp { src: path("/pkg/d"), dest: path("/pkg/d/copy"), dir: true }));
    // The backup place is taken.
    let mut fs = world();
    fs.insert(path("/backup/0"), Node::Dir);
    assert!(apply(&mut fs, &Op::Rm(RmOp { path: path("/pkg/a"), dir: false }), &path("/backup/0"))
        .is_err());
    // What commands and functions do is not known here.
    refused(Op::Command(CommandOp {
        command: String::from("true"),
        start: path("/pkg"),
        shell: String::from("sh"),
        clean_env: false,
        env: Vec::new(),
    }));
    refused(Op::Function(FunctionOp { name: String::from("f"), start: path("/pkg") }));
}

#[test]
fn a_removal_keeps_what_it_removes() {
    let mut fs = world();
    let finished =
        apply(&mut fs, &Op::Rm(RmOp { path: path("/pkg/d"), dir: true }), &path("/backup/0"));
    assert_eq!(
        Ok(Finished {
            op: Op::Rm(RmOp { path: path("/pkg/d"), dir: true }),
            backup: Some(path("/backup/0"))
        }),
        finished
    );
    assert!(fs.is_vacant(&path("/pkg/d")));
    assert!(!fs.is_vacant(&path("/pkg")));
    assert!(fs.is_alone(&path("/pkg/a")));
    assert!(!fs.is_alone(&path("/backup/0")));
    assert_eq!(Some(FileKind::Dir), fs.meta(&path("/backup/0")));
    assert_eq!(Some(&String::from("y")), fs.read_to_string(&path("/backup/0/sub/y")));
    assert!(fs.holds_copy(&path("/backup/0"), &path("/backup/0")));
    assert!(!fs.holds_copy(&path("/pkg/a"), &path("/backup/0")));
}

#[test]
fn a_write_of_bytes_that_are_no_text_leaves_a_file_without_text() {
    let mut fs = world();
    let op = Op::Write(WriteOp { path: path("/home/b"), contents: vec![0xc3, 0x28] });
    assert_eq!(Ok(Finished { op: op.clone(), backup: None }), apply(&mut fs, &op, &path("/backup/0")));
    assert_eq!(Some(FileKind::File), fs.meta(&path("/home/b")));
    assert_eq!(None, fs.read_to_string(&path("/home/b")));
    let text = Op::Write(WriteOp { path: path("/home/b"), contents: vec![b'h', 0xc3, 0xa9] });
    assert!(apply(&mut fs, &text, &path("/backup/0")).is_ok());
    assert_eq!(Some(&String::from("h\u{e9}")), fs.read_to_string(&path("/home/b")));
}

#[test]
fn paths_are_moved_between_directories() {
    let p = path("/pkg/d/sub/y");
    assert!(p.starts_with(&path("/pkg/d")));
    assert!(p.starts_with(&p));
    assert!(p.starts_with(&Path::root()));
    assert!(!p.starts_with(&path("/pkg/a")));
    assert!(!path("/pkg").starts_with(&p));
    assert_eq!(path("/home/d/sub/y"), p.rebase(2, &path("/home/d")));
    assert_eq!(path("/home"), p.rebase(4, &path("/home")));
    assert_eq!(p, p.rebase(0, &Path::root()));
}

#[test]
fn finish_hands_out_backup_places_in_order() {
    let mut fs = world();
    let mut ctx = FinishCtx::new(path("/backup"));
    assert_eq!(FinishCtx { backup_dir: path("/backup"), kept: 0 }, ctx);

    let rm = Op::Rm(RmOp { path: path("/pkg/a"), dir: false });
    let finished = rm.finish(&mut fs, &mut ctx).unwrap();
    assert_eq!(Finished { op: rm, backup: Some(path("/backup/0")) }, finished);
    assert_eq!(1, ctx.kept);

    // A place is used up even where nothing is kept, or nothing is done.
    let mkdir = Op::Mkdir(MkdirOp { path: path("/home/d") });
    assert_eq!(Ok(Finished { op: mkdir.clone(), backup: None }), mkdir.finish(&mut fs, &mut ctx));
    assert!(mkdir.finish(&mut fs, &mut ctx).is_err());
    assert_eq!(3, ctx.kept);

    let rm = Op::Rm(RmOp { path: path("/pkg/d"), dir: true });
    let finished = rm.finish(&mut fs, &mut ctx).unwrap();
    assert_eq!(Some(path("/backup/3")), finished.backup);
    assert_eq!(Some(&String::from("new")), fs.read_to_string(&path("/backup/0")));
    assert_eq!(Some(&String::from("x")), fs.read_to_string(&path("/backup/3/x")));

    // The inverse finds what was kept.
    let back = finished.rollback().unwrap();
    assert!(back.finish(&mut fs, &mut ctx).is_ok());
    assert_eq!(Some(&String::from("x")), fs.read_to_string(&path("/pkg/d/x")));
    assert_eq!(None, fs.meta(&path("/backup/3")));

    assert_eq!(path("/backup/0"), FinishCtx::new(path("/backup")).next_place());
    let mut last = FinishCtx { backup_dir: Path::root(), kept: u64::MAX };
    assert_eq!(path("/18446744073709551615"), last.next_place());
    assert_eq!(0, last.kept);
}

#[test]
fn numbers_are_written_in_decimal() {
    assert_eq!("0", decimal_text(0));
    assert_eq!("7", decimal_text(7));
    assert_eq!("10", decimal_text(10));
    assert_eq!("1234567890", decimal_text(1234567890));
    assert_eq!("18446744073709551615", decimal_text(u64::MAX));
}

#[test]
fn a_child_is_one_valid_name_below() {
    assert_eq!(Some(path("/a/b")), path("/a").child("b"));
    assert_eq!(Some(path("/b")), Path::root().child("b"));
    assert_eq!(None, path("/a").child(""));
    assert_eq!(None, path("/a").child("."));
    assert_eq!(None, path("/a").child(".."));
    assert_eq!(None, path("/a").child("b/c"));
}

#[test]
fn a_refusal_is_of_the_kind_of_the_operation() {
    let io = || IoError { message: String::from("the operation cannot be applied here") };
    let refused = |op: Op| apply(&mut FsProbe::new(), &op, &path("/backup/0")).unwrap_err();
    let a = || path("/a/b");
    assert_eq!(
        OpError::Link(LinkOpError::Io(io())),
        refused(Op::Link(LinkOp { src: a(), dest: a() }))
    );
    assert_eq!(
        OpError::Link(LinkOpError::Io(io())),
        refused(Op::LinkUndo(LinkUndoOp { src: a(), dest: a() }))
    );
    assert_eq!(
        OpError::Copy(CopyOpError::Io(io())),
        refused(Op::Copy(CopyOp { src: a(), dest: a(), dir: false }))
    );
    assert_eq!(OpError::Create(CreateOpError::Io(io())), refused(Op::Create(CreateOp { path: a() })));
    assert_eq!(
        OpError::Write(WriteOpError::Io(io())),
        refused(Op::Write(WriteOp { path: a(), contents: Vec::new() }))
    );
    assert_eq!(
        OpError::Write(WriteOpError::Io(io())),
        refused(Op::WriteUndo(WriteUndoOp { path: a(), contents: Vec::new(), backup: None }))
    );
    assert_eq!(OpError::Mkdir(MkdirOpError::Io(io())), refused(Op::Mkdir(MkdirOp { path: a() })));
    assert_eq!(
        OpError::Mkdir(MkdirOpError::Io(io())),
        refused(Op::MkdirUndo(MkdirUndoOp { path: a() }))
    );
    assert_eq!(OpError::Rm(RmOpError::Io(io())), refused(Op::Rm(RmOp { path: a(), dir: false })));
    assert_eq!(
        OpError::Rm(RmOpError::Io(io())),
        refused(Op::RmUndo(RmUndoOp { path: a(), dir: false, backup: None }))
    );
    assert_eq!(
        OpError::Command(CommandOpError::Io(io())),
        refused(Op::Command(CommandOp {
            command: String::from("true"),
            start: a(),
            shell: String::from("sh"),
            clean_env: false,
            env: Vec::new(),
        }))
    );
    assert_eq!(
        OpError::Function(FunctionOpError::Host { message: String::from("no host is at hand") }),
        refused(Op::Function(FunctionOp { name: String::from("f"), start: a() }))
    );
}
