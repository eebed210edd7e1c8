//! What operations do to a filesystem.
//!
//! The filesystem is taken as a plain value, a [`Tree`]: the node at each path
//! that exists. [`effect`] says for each operation in which trees it can be
//! applied and what tree it leaves; [`apply`] does the same to a filesystem
//! that is held in memory.
//!
//! - A link, a new file and a new directory need a free place: nothing stands
//!   there, and the parent is a directory. Their undo twins remove exactly what
//!   was made: the link to the same source, the empty file, the empty directory.
//! - A copy takes a file, or with `dir` a directory and all below it, to a free
//!   place; its undo twin removes the copy, as long as it is one.
//! - A write replaces a file, or makes one in a free place; its undo twin puts
//!   the former file back, or removes the one that was made.
//! - A removal takes a file or a link, or with `dir` a directory and all below
//!   it; its undo twin puts back what was removed.
//!
//! An operation that destroys bytes first keeps them at a place of the caller's
//! choice, which has to be free, so that its inverse can put them back. A
//! command and a function call do what they like: they have no effect that
//! could be stated, and no inverse.
//!
//! The laws are in [`undo`], an operation and its inverse; in [`twice`],
//! deploying what is deployed already; and in [`whole`], what whole actions
//! leave and how they are taken back.

use vstd::prelude::*;
use vstd::string::*;
use vstd::utf8::{decode_utf8, valid_utf8};
use crate::fs::{
    alone, below, is_copy, vacant, with_copy, without, FileKind, FsProbe, Node, NodeView,
    PathView, Tree,
};
use crate::journal::IoError;
use crate::op::ctx::{one_more, place_of};
use crate::op::{
    copy_bytes, path_view, text_of_bytes, CommandOpError, CopyOpError, CreateOpError, Finished,
    FinishCtx, FunctionOpError, LinkOpError, MkdirOpError, Op, OpError, OpView, RmOpError,
    WriteOpError,
};
use crate::path::Path;

pub mod twice;
pub mod undo;
pub mod whole;

verus! {

/// Whether neither of the two paths lies below the other.
pub open spec fn apart(a: PathView, b: PathView) -> bool {
    !below(a, b) && !below(b, a)
}

/// Whether the parent of `path` is a directory. The root needs none.
pub open spec fn held(tree: Tree, path: PathView) -> bool {
    path.len() > 0 ==> tree.dom().contains(path.drop_last()) && tree[path.drop_last()] is Dir
}

/// Whether something new can be put at `path`.
pub open spec fn free(tree: Tree, path: PathView) -> bool {
    vacant(tree, path) && held(tree, path)
}

/// The tree with what stands at `from` and below it moved to `to`.
pub open spec fn moved(tree: Tree, from: PathView, to: PathView) -> Tree {
    without(with_copy(tree, from, to), from)
}

/// A file with the given bytes: its text is known if the bytes are UTF-8.
pub open spec fn file_of(bytes: Seq<u8>) -> NodeView {
    NodeView::File {
        contents: if valid_utf8(bytes) {
            Some(decode_utf8(bytes))
        } else {
            None
        },
    }
}

/// An empty file.
pub open spec fn empty_file() -> NodeView {
    NodeView::File { contents: Some(Seq::empty()) }
}

/// The tree that `op` leaves of `tree`, and the place at which it has kept what
/// it destroyed, if it has kept anything: that is `place`, which has to be
/// free. There is no result where `op` cannot be applied to `tree`.
pub open spec fn effect(tree: Tree, op: OpView, place: PathView) -> Option<
    (Tree, Option<PathView>),
> {
    match op {
        OpView::Link { src, dest } => if free(tree, dest) {
            Some((tree.insert(dest, NodeView::Symlink { target: Some(src) }), None))
        } else {
            None
        },
        OpView::LinkUndo { src, dest } => if tree.dom().contains(dest) && tree[dest] == (
        NodeView::Symlink { target: Some(src) }) && alone(tree, dest) && held(tree, dest) {
            Some((tree.remove(dest), None))
        } else {
            None
        },
        OpView::Copy { src, dest, dir } => if tree.dom().contains(src) && (if dir {
            tree[src] is Dir
        } else {
            tree[src] is File && alone(tree, src)
        }) && free(tree, dest) && apart(src, dest) {
            Some((with_copy(tree, src, dest), None))
        } else {
            None
        },
        OpView::CopyUndo { src, dest, dir } => if tree.dom().contains(dest) && (if dir {
            tree[dest] is Dir
        } else {
            tree[dest] is File && alone(tree, dest)
        }) && is_copy(tree, src, dest) && held(tree, dest) && apart(src, dest) {
            Some((without(tree, dest), None))
        } else {
            None
        },
        OpView::Create { path } => if free(tree, path) {
            Some((tree.insert(path, empty_file()), None))
        } else {
            None
        },
        OpView::CreateUndo { path } => if tree.dom().contains(path) && tree[path] == empty_file()
            && alone(tree, path) && held(tree, path) {
            Some((tree.remove(path), None))
        } else {
            None
        },
        OpView::Write { path, contents } => if tree.dom().contains(path) {
            if tree[path] is File && free(tree, place) && place != path {
                Some((tree.insert(place, tree[path]).insert(path, file_of(contents)), Some(place)))
            } else {
                None
            }
        } else if free(tree, path) {
            Some((tree.insert(path, file_of(contents)), None))
        } else {
            None
        },
        OpView::WriteUndo { path, contents, backup } => if tree.dom().contains(path) && tree[path]
            == file_of(contents) {
            match backup {
                Some(kept) => if tree.dom().contains(kept) && tree[kept] is File && kept != path {
                    Some((tree.insert(path, tree[kept]), None))
                } else {
                    None
                },
                None => if alone(tree, path) && held(tree, path) {
                    Some((tree.remove(path), None))
                } else {
                    None
                },
            }
        } else {
            None
        },
        OpView::Mkdir { path } => if free(tree, path) {
            Some((tree.insert(path, NodeView::Dir), None))
        } else {
            None
        },
        OpView::MkdirUndo { path } => if tree.dom().contains(path) && tree[path] is Dir && alone(
            tree,
            path,
        ) && held(tree, path) {
            Some((tree.remove(path), None))
        } else {
            None
        },
        OpView::Rm { path, dir } => if tree.dom().contains(path) && dir == (tree[path] is Dir)
            && held(tree, path) && free(tree, place) && apart(path, place) {
            Some((moved(tree, path, place), Some(place)))
        } else {
            None
        },
        OpView::RmUndo { path, dir, backup } => match backup {
            Some(kept) => if tree.dom().contains(kept) && dir == (tree[kept] is Dir) && free(
                tree,
                path,
            ) && apart(kept, path) {
                Some((moved(tree, kept, path), None))
            } else {
                None
            },
            None => None,
        },
        OpView::Command { .. } => None,
        OpView::Function { .. } => None,
    }
}

/// The tree that `ops` leave of `tree` when they are applied one after the
/// other, each with its own place to keep what it destroys.
pub open spec fn run(tree: Tree, ops: Seq<OpView>, places: Seq<PathView>) -> Option<Tree>
    decreases ops.len(),
{
    if ops.len() == 0 {
        Some(tree)
    } else if places.len() == 0 {
        None
    } else {
        match effect(tree, ops[0], places[0]) {
            Some((next, _)) => run(next, ops.drop_first(), places.drop_first()),
            None => None,
        }
    }
}

/// A file with the given bytes.
fn file_with(bytes: &Vec<u8>) -> (node: Node)
    ensures
        node@ == file_of(bytes@),
{
    Node::File { contents: text_of_bytes(copy_bytes(bytes)) }
}

/// Whether the parent of `path` is a directory.
fn is_held(fs: &FsProbe, path: &Path) -> (res: bool)
    ensures
        res == held(fs@, path@),
{
    match path.parent() {
        Some(parent) => match fs.meta(&parent) {
            Some(FileKind::Dir) => true,
            _ => false,
        },
        None => true,
    }
}

/// Whether something new can be put at `path`.
fn is_free(fs: &FsProbe, path: &Path) -> (res: bool)
    ensures
        res == free(fs@, path@),
{
    fs.is_vacant(path) && is_held(fs, path)
}

/// Whether neither of the two paths lies below the other.
fn is_apart(a: &Path, b: &Path) -> (res: bool)
    ensures
        res == apart(a@, b@),
{
    !b.starts_with(a) && !a.starts_with(b)
}

/// Whether the node at `path` is `node`.
fn holds(fs: &FsProbe, path: &Path, node: &Node) -> (res: bool)
    ensures
        res == (fs@.dom().contains(path@) && fs@[path@] == node@),
{
    match fs.node(path) {
        Some(found) => found.same(node),
        None => false,
    }
}

/// Whether a single node that is a directory, or one that is none, stands at `path`.
fn holds_kind(fs: &FsProbe, path: &Path, dir: bool) -> (res: bool)
    ensures
        res == (fs@.dom().contains(path@) && dir == (fs@[path@] is Dir)),
{
    match fs.meta(path) {
        Some(FileKind::Dir) => dir,
        Some(_) => !dir,
        None => false,
    }
}

/// The report of an operation that cannot be applied: an error of the kind that
/// belongs to the operation, which says that it cannot be applied; for a
/// function call, that no host is at hand.
fn refused(op: &Op) -> (error: OpError)
    ensures
        is_refusal(op@, error),
{
    let io = IoError { message: String::from_str("the operation cannot be applied here") };
    match op {
        Op::Link(_) => OpError::Link(LinkOpError::Io(io)),
        Op::LinkUndo(_) => OpError::Link(LinkOpError::Io(io)),
        Op::Copy(_) => OpError::Copy(CopyOpError::Io(io)),
        Op::CopyUndo(_) => OpError::Copy(CopyOpError::Io(io)),
        Op::Create(_) => OpError::Create(CreateOpError::Io(io)),
        Op::CreateUndo(_) => OpError::Create(CreateOpError::Io(io)),
        Op::Write(_) => OpError::Write(WriteOpError::Io(io)),
        Op::WriteUndo(_) => OpError::Write(WriteOpError::Io(io)),
        Op::Mkdir(_) => OpError::Mkdir(MkdirOpError::Io(io)),
        Op::MkdirUndo(_) => OpError::Mkdir(MkdirOpError::Io(io)),
        Op::Rm(_) => OpError::Rm(RmOpError::Io(io)),
        Op::RmUndo(_) => OpError::Rm(RmOpError::Io(io)),
        Op::Command(_) => OpError::Command(CommandOpError::Io(io)),
        Op::Function(_) => OpError::Function(
            FunctionOpError::Host { message: String::from_str("no host is at hand") },
        ),
    }
}

/// Whether `io` says that an operation cannot be applied.
pub open spec fn says_refused(io: IoError) -> bool {
    io.message@ == "the operation cannot be applied here"@
}

/// Whether `error` is the report that `op` cannot be applied: it is of the kind
/// that belongs to the operation and to its undo twin, and says so; for a
/// function call it says that no host is at hand.
pub open spec fn is_refusal(op: OpView, error: OpError) -> bool {
    match op {
        OpView::Link { .. } | OpView::LinkUndo { .. } => match error {
            OpError::Link(LinkOpError::Io(io)) => says_refused(io),
            _ => false,
        },
        OpView::Copy { .. } | OpView::CopyUndo { .. } => match error {
            OpError::Copy(CopyOpError::Io(io)) => says_refused(io),
            _ => false,
        },
        OpView::Create { .. } | OpView::CreateUndo { .. } => match error {
            OpError::Create(CreateOpError::Io(io)) => says_refused(io),
            _ => false,
        },
        OpView::Write { .. } | OpView::WriteUndo { .. } => match error {
            OpError::Write(WriteOpError::Io(io)) => says_refused(io),
            _ => false,
        },
        OpView::Mkdir { .. } | OpView::MkdirUndo { .. } => match error {
            OpError::Mkdir(MkdirOpError::Io(io)) => says_refused(io),
            _ => false,
        },
        OpView::Rm { .. } | OpView::RmUndo { .. } => match error {
            OpError::Rm(RmOpError::Io(io)) => says_refused(io),
            _ => false,
        },
        OpView::Command { .. } => match error {
            OpError::Command(CommandOpError::Io(io)) => says_refused(io),
            _ => false,
        },
        OpView::Function { .. } => match error {
            OpError::Function(FunctionOpError::Host { message }) => message@
                == "no host is at hand"@,
            _ => false,
        },
    }
}

/// Whether `op` can be applied to `fs`, with `place` to keep what it destroys.
fn can_apply(fs: &FsProbe, op: &Op, place: &Path) -> (res: bool)
    ensures
        res == effect(fs@, op@, place@).is_some(),
{
    match op {
        Op::Link(op) => is_free(fs, &op.dest),
        Op::LinkUndo(op) => holds(fs, &op.dest, &Node::Symlink { target: Some(op.src.clone()) })
            && fs.is_alone(&op.dest) && is_held(fs, &op.dest),
        Op::Copy(op) => (if op.dir {
            holds_kind(fs, &op.src, true)
        } else {
            match fs.meta(&op.src) {
                Some(FileKind::File) => fs.is_alone(&op.src),
                _ => false,
            }
        }) && is_free(fs, &op.dest) && is_apart(&op.src, &op.dest),
        Op::CopyUndo(op) => (if op.dir {
            holds_kind(fs, &op.dest, true)
        } else {
            match fs.meta(&op.dest) {
                Some(FileKind::File) => fs.is_alone(&op.dest),
                _ => false,
            }
        }) && fs.holds_copy(&op.src, &op.dest) && is_held(fs, &op.dest) && is_apart(
            &op.src,
            &op.dest,
        ),
        Op::Create(op) => is_free(fs, &op.path),
        Op::CreateUndo(op) => holds(fs, &op.path, &Node::File { contents: Some(String::new()) })
            && fs.is_alone(&op.path) && is_held(fs, &op.path),
        Op::Write(op) => match fs.meta(&op.path) {
            Some(FileKind::File) => is_free(fs, place) && *place != op.path,
            Some(_) => false,
            None => is_free(fs, &op.path),
        },
        Op::WriteUndo(op) => holds(fs, &op.path, &file_with(&op.contents)) && match &op.backup {
            Some(kept) => match fs.meta(kept) {
                Some(FileKind::File) => *kept != op.path,
                _ => false,
            },
            None => fs.is_alone(&op.path) && is_held(fs, &op.path),
        },
        Op::Mkdir(op) => is_free(fs, &op.path),
        Op::MkdirUndo(op) => holds_kind(fs, &op.path, true) && fs.is_alone(&op.path) && is_held(
            fs,
            &op.path,
        ),
        Op::Rm(op) => holds_kind(fs, &op.path, op.dir) && is_held(fs, &op.path) && is_free(
            fs,
            place,
        ) && is_apart(&op.path, place),
        Op::RmUndo(op) => match &op.backup {
            Some(kept) => holds_kind(fs, kept, op.dir) && is_free(fs, &op.path) && is_apart(
                kept,
                &op.path,
            ),
            None => false,
        },
        Op::Command(_) => false,
        Op::Function(_) => false,
    }
}

/// Applies `op` to `fs`, with `place` as the place to keep what it destroys.
/// Where the operation cannot be applied, `fs` stays as it is, and the error
/// is of the kind of the operation.
pub fn apply(fs: &mut FsProbe, op: &Op, place: &Path) -> (res: Result<Finished, OpError>)
    ensures
        match effect(old(fs)@, op@, place@) {
            Some((tree, backup)) => res matches Ok(finished) && final(fs)@ == tree
                && finished.op@ == op@ && path_view(finished.backup) == backup,
            None => res matches Err(error) && is_refusal(op@, error) && final(fs)@ == old(fs)@,
        },
{
    if !can_apply(fs, op, place) {
        return Err(refused(op));
    }
    let mut backup: Option<Path> = None;
    match op {
        Op::Link(op) => {
            fs.insert(op.dest.clone(), Node::Symlink { target: Some(op.src.clone()) });
        },
        Op::LinkUndo(op) => {
            fs.remove(&op.dest);
        },
        Op::Copy(op) => {
            fs.copy_below(&op.src, &op.dest);
        },
        Op::CopyUndo(op) => {
            fs.remove_below(&op.dest);
        },
        Op::Create(op) => {
            fs.insert(op.path.clone(), Node::File { contents: Some(String::new()) });
        },
        Op::CreateUndo(op) => {
            fs.remove(&op.path);
        },
        Op::Write(op) => {
            let old = match fs.node(&op.path) {
                Some(node) => Some(node.clone()),
                None => None,
            };
            match old {
                Some(node) => {
                    fs.insert(place.clone(), node);
                    backup = Some(place.clone());
                },
                None => {},
            }
            fs.insert(op.path.clone(), file_with(&op.contents));
        },
        Op::WriteUndo(op) => {
            match &op.backup {
                Some(kept) => {
                    let node = match fs.node(kept) {
                        Some(node) => node.clone(),
                        None => Node::Other,
                    };
                    fs.insert(op.path.clone(), node);
                },
                None => {
                    fs.remove(&op.path);
                },
            }
        },
        Op::Mkdir(op) => {
            fs.insert(op.path.clone(), Node::Dir);
        },
        Op::MkdirUndo(op) => {
            fs.remove(&op.path);
        },
        Op::Rm(op) => {
            fs.copy_below(&op.path, place);
            fs.remove_below(&op.path);
            backup = Some(place.clone());
        },
        Op::RmUndo(op) => {
            match &op.backup {
                Some(kept) => {
                    fs.copy_below(kept, &op.path);
                    fs.remove_below(kept);
                },
                None => {},
            }
        },
        Op::Command(_) => {},
        Op::Function(_) => {},
    }
    Ok(Finished { op: op.clone(), backup })
}

/// Something that can be applied to a filesystem.
pub trait Finish {
    /// What is known once it has been applied.
    type Output;

    /// Why it could not be applied.
    type Error;

    /// Applies it to `fs`, and keeps what it destroys at the next place that
    /// `ctx` hands out.
    fn finish(&self, fs: &mut FsProbe, ctx: &mut FinishCtx) -> Result<Self::Output, Self::Error>;
}

impl Finish for Op {
    type Output = Finished;

    type Error = OpError;

    /// Applies the operation to `fs`, with the next place of `ctx` as the place
    /// to keep what it destroys. Where the operation cannot be applied, `fs`
    /// stays as it is; the place is used up all the same.
    fn finish(&self, fs: &mut FsProbe, ctx: &mut FinishCtx) -> (res: Result<Finished, OpError>)
        ensures
            final(ctx).backup_dir == old(ctx).backup_dir,
            final(ctx).kept == one_more(old(ctx).kept),
            match effect(old(fs)@, self@, place_of(old(ctx).backup_dir@, old(ctx).kept)) {
                Some((tree, backup)) => res matches Ok(finished) && final(fs)@ == tree
                    && finished.op@ == self@ && path_view(finished.backup) == backup,
                None => res matches Err(error) && is_refusal(self@, error) && final(fs)@ == old(fs)@,
            },
    {
        let place = ctx.next_place();
        apply(fs, self, &place)
    }
}

} // verus!
