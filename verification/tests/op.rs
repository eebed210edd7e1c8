use shelf::journal::rollback::Rollback;
use shelf::journal::{Decode, Encode};
use shelf::op::{
    copy_bytes, copy_pairs, copy_path, copy_texts, map_ops, CommandOp, CopyOp, CopyUndoOp,
    CreateOp, CreateUndoOp, Finished, FunctionOp, LinkOp, LinkUndoOp, MkdirOp, MkdirUndoOp, Op,
    RmOp, RmUndoOp, WriteOp, WriteUndoOp,
};
use shelf::path::Path;

fn path(text: &str) -> Path {
    Path::parse(text).unwrap()
}

fn command() -> Op {
    Op::Command(CommandOp {
        command: String::from("make"),
        start: path("/pkg"),
        shell: String::from("sh"),
        clean_env: true,
        env: vec![(String::from("A"), String::from("1"))],
    })
}

fn function() -> Op {
    Op::Function(FunctionOp { name: String::from("f"), start: path("/pkg") })
}

/// Each operation that has a twin, with the twin that names no backup.
fn pairs() -> Vec<(Op, Op)> {
    vec![
        (
            Op::Link(LinkOp { src: path("/pkg/a"), dest: path("/home/a") }),
            Op::LinkUndo(LinkUndoOp { src: path("/pkg/a"), dest: path("/home/a") }),
        ),
        (
            Op::Copy(CopyOp { src: path("/pkg/a"), dest: path("/home/a"), dir: true }),
            Op::CopyUndo(CopyUndoOp { src: path("/pkg/a"), dest: path("/home/a"), dir: true }),
        ),
        (
            Op::Create(CreateOp { path: path("/home/a") }),
            Op::CreateUndo(CreateUndoOp { path: path("/home/a") }),
        ),
        (
            Op::Write(WriteOp { path: path("/home/a"), contents: vec![1, 2, 3] }),
            Op::WriteUndo(WriteUndoOp {
                path: path("/home/a"),
                contents: vec![1, 2, 3],
                backup: None,
            }),
        ),
        (
            Op::Mkdir(MkdirOp { path: path("/home/a") }),
            Op::MkdirUndo(MkdirUndoOp { path: path("/home/a") }),
        ),
        (
            Op::Rm(RmOp { path: path("/home/a"), dir: false }),
            Op::RmUndo(RmUndoOp { path: path("/home/a"), dir: false, backup: None }),
        ),
    ]
}

#[test]
fn rollback_gives_the_twin() {
    for (op, undo) in pairs() {
        assert_eq!(undo, op.rollback());
        assert_eq!(op, undo.rollback());
    }
    // What has no inverse is its own twin.
    assert_eq!(command(), command().rollback());
    assert_eq!(function(), function().rollback());
}

#[test]
fn the_twin_of_a_twin_is_the_operation() {
    for (op, undo) in pairs() {
        assert_eq!(op, op.rollback().rollback());
        assert_eq!(undo, undo.rollback().rollback());
    }
}

#[test]
fn the_twin_of_an_undo_forgets_the_backup() {
    let undo = Op::RmUndo(RmUndoOp {
        path: path("/home/a"),
        dir: true,
        backup: Some(path("/backup/0")),
    });
    assert_eq!(Op::Rm(RmOp { path: path("/home/a"), dir: true }), undo.rollback());
    assert_eq!(
        Op::RmUndo(RmUndoOp { path: path("/home/a"), dir: true, backup: None }),
        undo.rollback().rollback()
    );
}

#[test]
fn the_inverse_of_a_finished_operation_names_its_backup() {
    let backup = Some(path("/backup/7"));
    let rm = Finished {
        op: Op::Rm(RmOp { path: path("/home/a"), dir: false }),
        backup: backup.clone(),
    };
    assert_eq!(
        Some(Op::RmUndo(RmUndoOp {
            path: path("/home/a"),
            dir: false,
            backup: backup.clone()
        })),
        rm.rollback()
    );
    let write = Finished {
        op: Op::Write(WriteOp { path: path("/home/a"), contents: vec![9] }),
        backup: backup.clone(),
    };
    assert_eq!(
        Some(Op::WriteUndo(WriteUndoOp {
            path: path("/home/a"),
            contents: vec![9],
            backup: backup.clone()
        })),
        write.rollback()
    );
    // Without a backup there was nothing to keep.
    let write = Finished {
        op: Op::Write(WriteOp { path: path("/home/a"), contents: vec![9] }),
        backup: None,
    };
    assert_eq!(
        Some(Op::WriteUndo(WriteUndoOp {
            path: path("/home/a"),
            contents: vec![9],
            backup: None
        })),
        write.rollback()
    );
    for (op, undo) in pairs() {
        assert_eq!(Some(undo.clone()), op.inverse(&None));
        assert_eq!(Some(op.clone()), undo.inverse(&None));
        assert_eq!(Some(op), Finished { op: undo, backup: backup.clone() }.rollback());
    }
}

#[test]
fn commands_and_functions_have_no_inverse() {
    assert_eq!(None, Finished { op: command(), backup: None }.rollback());
    assert_eq!(None, Finished { op: function(), backup: Some(path("/b")) }.rollback());
    assert_eq!(None, command().inverse(&None));
    assert_eq!(None, function().inverse(&Some(path("/b"))));
}

#[test]
fn clones_are_equal() {
    for (op, undo) in pairs() {
        assert_eq!(op, op.clone());
        assert_eq!(undo, undo.clone());
    }
    assert_eq!(command(), command().clone());
    assert_eq!(function(), function().clone());
    assert_eq!(vec![1u8, 2], copy_bytes(&vec![1, 2]));
    assert_eq!(Some(path("/a")), copy_path(&Some(path("/a"))));
    assert_eq!(None, copy_path(&None));
    let texts = vec![String::from("a"), String::from("")];
    assert_eq!(texts, copy_texts(&texts));
    let env = vec![(String::from("A"), String::from("1")), (String::from("B"), String::new())];
    assert_eq!(env, copy_pairs(&env));
}

fn num(n: u64) -> Vec<u8> {
    n.to_le_bytes().to_vec()
}

fn text(s: &str) -> Vec<u8> {
    let mut bytes = num(s.len() as u64);
    bytes.extend_from_slice(s.as_bytes());
    bytes
}

fn names(parts: &[&str]) -> Vec<u8> {
    let mut bytes = num(parts.len() as u64);
    for part in parts {
        bytes.extend(text(part));
    }
    bytes
}

fn cat(parts: Vec<Vec<u8>>) -> Vec<u8> {
    parts.concat()
}

#[test]
fn operations_are_encoded_field_by_field() {
    let link = Op::Link(LinkOp { src: path("/pkg/a"), dest: path("/") });
    assert_eq!(
        vec![
            0, // the tag of a link
            2, 0, 0, 0, 0, 0, 0, 0, // two names
            3, 0, 0, 0, 0, 0, 0, 0, b'p', b'k', b'g', //
            1, 0, 0, 0, 0, 0, 0, 0, b'a', //
            0, 0, 0, 0, 0, 0, 0, 0, // the root has no names
        ],
        link.to_bytes()
    );
    assert_eq!(Some(link.to_bytes()), link.encode());

    let src = names(&["pkg", "a"]);
    let dest = names(&["home", "h\u{e9}"]);
    let at = || path("/home/h\u{e9}");
    let cases: Vec<(Op, Vec<u8>)> = vec![
        (
            Op::LinkUndo(LinkUndoOp { src: path("/pkg/a"), dest: at() }),
            cat(vec![vec![1], src.clone(), dest.clone()]),
        ),
        (
            Op::Copy(CopyOp { src: path("/pkg/a"), dest: at(), dir: true }),
            cat(vec![vec![2], src.clone(), dest.clone(), vec![1]]),
        ),
        (
            Op::CopyUndo(CopyUndoOp { src: path("/pkg/a"), dest: at(), dir: false }),
            cat(vec![vec![3], src.clone(), dest.clone(), vec![0]]),
        ),
        (Op::Create(CreateOp { path: at() }), cat(vec![vec![4], dest.clone()])),
        (Op::CreateUndo(CreateUndoOp { path: at() }), cat(vec![vec![5], dest.clone()])),
        (
            Op::Write(WriteOp { path: at(), contents: vec![7, 8] }),
            cat(vec![vec![6], dest.clone(), num(2), vec![7, 8]]),
        ),
        (
            Op::WriteUndo(WriteUndoOp { path: at(), contents: vec![], backup: None }),
            cat(vec![vec![7], dest.clone(), num(0), vec![0]]),
        ),
        (
            Op::WriteUndo(WriteUndoOp {
                path: at(),
                contents: vec![7],
                backup: Some(path("/pkg/a")),
            }),
            cat(vec![vec![7], dest.clone(), num(1), vec![7], vec![1], src.clone()]),
        ),
        (Op::Mkdir(MkdirOp { path: at() }), cat(vec![vec![8], dest.clone()])),
        (Op::MkdirUndo(MkdirUndoOp { path: at() }), cat(vec![vec![9], dest.clone()])),
        (Op::Rm(RmOp { path: at(), dir: true }), cat(vec![vec![10], dest.clone(), vec![1]])),
        (
            Op::RmUndo(RmUndoOp { path: at(), dir: false, backup: Some(path("/pkg/a")) }),
            cat(vec![vec![11], dest.clone(), vec![0], vec![1], src.clone()]),
        ),
        (
            command(),
            cat(vec![
                vec![12],
                text("make"),
                names(&["pkg"]),
                text("sh"),
                vec![1],
                num(1),
                text("A"),
                text("1"),
            ]),
        ),
        (function(), cat(vec![vec![13], text("f"), names(&["pkg"])])),
    ];
    for (op, bytes) in cases {
        assert_eq!(bytes, op.to_bytes());
        assert_eq!(Some(op.clone()), Op::from_bytes(&bytes));
        assert_eq!(Some(op.clone()), Op::decode(&bytes));
        assert_eq!(Some(bytes), op.encode());
    }
}

#[test]
fn bytes_that_spell_no_operation_are_refused() {
    let link = Op::Link(LinkOp { src: path("/pkg/a"), dest: path("/home/a") }).to_bytes();
    assert!(Op::from_bytes(&link).is_some());
    // Nothing, an unknown tag, too few bytes, too many.
    assert_eq!(None, Op::from_bytes(&[]));
    let mut unknown = link.clone();
    unknown[0] = 14;
    assert_eq!(None, Op::from_bytes(&unknown));
    for cut in 0..link.len() {
        assert_eq!(None, Op::from_bytes(&link[..cut]));
    }
    let mut long = link.clone();
    long.push(0);
    assert_eq!(None, Op::from_bytes(&long));
    // A flag that is neither set nor clear.
    let mut rm = Op::Rm(RmOp { path: path("/a"), dir: true }).to_bytes();
    assert!(Op::from_bytes(&rm).is_some());
    *rm.last_mut().unwrap() = 2;
    assert_eq!(None, Op::from_bytes(&rm));
    // A name that is no name, and one that is no text.
    assert_eq!(None, Op::from_bytes(&cat(vec![vec![4], num(1), text("..")])));
    assert_eq!(None, Op::from_bytes(&cat(vec![vec![4], num(1), text("a/b")])));
    assert_eq!(None, Op::from_bytes(&cat(vec![vec![4], num(1), text("")])));
    assert_eq!(None, Op::from_bytes(&cat(vec![vec![4], num(1), num(2), vec![0xc3, 0x28]])));
    assert_eq!(
        Some(Op::Create(CreateOp { path: path("/h\u{e9}") })),
        Op::from_bytes(&cat(vec![vec![4], num(1), num(3), vec![b'h', 0xc3, 0xa9]]))
    );
    // A length that reaches beyond the end.
    assert_eq!(None, Op::from_bytes(&cat(vec![vec![4], num(u64::MAX)])));
    assert_eq!(None, Op::from_bytes(&cat(vec![vec![6], names(&["a"]), num(5), vec![1, 2]])));
}

#[test]
fn map_ops_keeps_each_operation() {
    let steps = vec![
        shelf::action::link::Op::Rm(RmOp { path: path("/home/a"), dir: false }),
        shelf::action::link::Op::Mkdir(MkdirOp { path: path("/home") }),
        shelf::action::link::Op::Link(LinkOp { src: path("/pkg/a"), dest: path("/home/a") }),
        shelf::action::link::Op::Copy(CopyOp {
            src: path("/pkg/a"),
            dest: path("/home/a"),
            dir: false,
        }),
    ];
    assert_eq!(
        vec![
            Op::Rm(RmOp { path: path("/home/a"), dir: false }),
            Op::Mkdir(MkdirOp { path: path("/home") }),
            Op::Link(LinkOp { src: path("/pkg/a"), dest: path("/home/a") }),
            Op::Copy(CopyOp { src: path("/pkg/a"), dest: path("/home/a"), dir: false }),
        ],
        map_ops(&steps)
    );
    let steps = vec![
        shelf::action::mkdir::Op::Rm(RmOp { path: path("/home/a"), dir: false }),
        shelf::action::mkdir::Op::Mkdir(MkdirOp { path: path("/home/a") }),
    ];
    assert_eq!(
        vec![
            Op::Rm(RmOp { path: path("/home/a"), dir: false }),
            Op::Mkdir(MkdirOp { path: path("/home/a") }),
        ],
        map_ops(&steps)
    );
    let steps = vec![
        shelf::action::write::Op::Create(CreateOp { path: path("/home/a") }),
        shelf::action::write::Op::Write(WriteOp { path: path("/home/a"), contents: vec![1] }),
    ];
    assert_eq!(
        vec![
            Op::Create(CreateOp { path: path("/home/a") }),
            Op::Write(WriteOp { path: path("/home/a"), contents: vec![1] }),
        ],
        map_ops(&steps)
    );
}
