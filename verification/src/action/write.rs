//! Writing a generated file.

use vstd::prelude::*;
use vstd::string::*;
use vstd::utf8::encode_utf8;
use crate::fs::{meta_of, FileKind, FsProbe, PathView, Tree};
use crate::op::{ToOp, CreateOp, MkdirOp, OpView, RmOp, WriteOp};
use crate::path::Path;
use super::mkdir::{missing_ancestors, mkdir_ops_view, mkdir_parents_ops, mkdirs};
use super::Resolved;

verus! {

/// Action to write `contents` to the file at `dest`.
#[derive(Debug, PartialEq)]
pub struct WriteAction {
    pub dest: Path,
    pub contents: String,
}

/// Resolution of a [`WriteAction`]. A write is never skipped.
#[derive(Debug, PartialEq)]
pub enum Res {
    /// Normal procedure.
    Normal(Vec<Op>),
    /// The destination file or directory will be overwritten.
    Overwrite(Vec<Op>),
}

/// Operation created by resolution.
#[derive(Debug, PartialEq)]
pub enum Op {
    /// Remove operation.
    Rm(RmOp),
    /// Create operation.
    Create(CreateOp),
    /// Write operation.
    Write(WriteOp),
    /// Mkdir operation.
    Mkdir(MkdirOp),
}

impl View for Op {
    type V = OpView;

    open spec fn view(&self) -> OpView {
        match self {
            Op::Rm(op) => op@,
            Op::Create(op) => op@,
            Op::Write(op) => op@,
            Op::Mkdir(op) => op@,
        }
    }
}

impl ToOp for Op {
    fn to_op(&self) -> (op: crate::op::Op) {
        match self {
            Op::Rm(op) => crate::op::Op::Rm(op.clone()),
            Op::Create(op) => crate::op::Op::Create(op.clone()),
            Op::Write(op) => crate::op::Op::Write(op.clone()),
            Op::Mkdir(op) => crate::op::Op::Mkdir(op.clone()),
        }
    }
}

/// The views of a list of operations.
pub open spec fn ops_view(ops: Seq<Op>) -> Seq<OpView> {
    Seq::new(ops.len(), |i: int| ops[i]@)
}

impl View for Res {
    type V = Resolved<()>;

    open spec fn view(&self) -> Resolved<()> {
        match self {
            Res::Normal(ops) => Resolved::Normal(ops_view(ops@)),
            Res::Overwrite(ops) => Resolved::Overwrite(ops_view(ops@)),
        }
    }
}

/// The operations that clear the way for a write to `dest`: a file there is
/// removed and created anew; a directory or a symlink is removed; where nothing
/// is in the way, the file is created.
pub open spec fn clear_way(tree: Tree, dest: PathView) -> Seq<OpView> {
    match meta_of(tree, dest) {
        Some(FileKind::File) => seq![
            OpView::Rm { path: dest, dir: false },
            OpView::Create { path: dest },
        ],
        Some(FileKind::Dir) => seq![OpView::Rm { path: dest, dir: true }],
        Some(FileKind::Symlink) => seq![OpView::Rm { path: dest, dir: false }],
        _ => seq![OpView::Create { path: dest }],
    }
}

/// Whether a write to `dest` overwrites something.
pub open spec fn overwrites(tree: Tree, dest: PathView) -> bool {
    meta_of(tree, dest) == Some(FileKind::File) || meta_of(tree, dest) == Some(FileKind::Dir)
        || meta_of(tree, dest) == Some(FileKind::Symlink)
}

/// What resolving a write of the text `contents` to `dest` comes to.
pub open spec fn resolve_write(tree: Tree, dest: PathView, contents: Seq<char>) -> Resolved<()> {
    let ops = clear_way(tree, dest) + mkdirs(missing_ancestors(tree, dest)) + seq![
        OpView::Write { path: dest, contents: encode_utf8(contents) },
    ];
    if overwrites(tree, dest) {
        Resolved::Overwrite(ops)
    } else {
        Resolved::Normal(ops)
    }
}

impl WriteAction {
    /// Resolves the action. It never skips and never fails: whatever stands at
    /// the destination is replaced.
    pub fn resolve(&self, probe: &FsProbe) -> (res: Res)
        ensures
            res@ == resolve_write(probe@, self.dest@, self.contents@),
    {
        let mut ops: Vec<Op> = Vec::new();
        // If the destination already exists, check the filetype.
        let overwrite = match probe.meta(&self.dest) {
            Some(FileKind::File) => {
                ops.push(Op::Rm(RmOp { path: self.dest.clone(), dir: false }));
                ops.push(Op::Create(CreateOp { path: self.dest.clone() }));
                true
            },
            Some(FileKind::Dir) => {
                ops.push(Op::Rm(RmOp { path: self.dest.clone(), dir: true }));
                true
            },
            Some(FileKind::Symlink) => {
                ops.push(Op::Rm(RmOp { path: self.dest.clone(), dir: false }));
                true
            },
            // Nothing there: a file has to be created before it is written to.
            _ => {
                ops.push(Op::Create(CreateOp { path: self.dest.clone() }));
                false
            },
        };
        let ghost head = ops_view(ops@);
        assert(head == clear_way(probe@, self.dest@));
        assert(overwrite == overwrites(probe@, self.dest@));
        // Add ops to make the parent directories that don't exist.
        let parents = mkdir_parents_ops(&self.dest, probe);
        let ghost made = mkdir_ops_view(parents@);
        let mut i: usize = 0;
        assert(ops_view(ops@) == head + made.take(0));
        while i < parents.len()
            invariant
                i <= parents@.len(),
                made == mkdir_ops_view(parents@),
                ops_view(ops@) == head + made.take(i as int),
            decreases parents@.len() - i,
        {
            let ghost before = ops_view(ops@);
            ops.push(Op::Mkdir(parents[i].clone()));
            assert(ops_view(ops@) == before.push(made[i as int]));
            i = i + 1;
            assert(made.take(i as int) == made.take(i - 1).push(made[i - 1]));
        }
        assert(made.take(i as int) == made);
        let ghost before = ops_view(ops@);
        let contents = self.contents.as_str().as_bytes_vec();
        ops.push(Op::Write(WriteOp { path: self.dest.clone(), contents }));
        assert(ops_view(ops@) == before.push(
            OpView::Write { path: self.dest@, contents: encode_utf8(self.contents@) },
        ));
        assert(ops_view(ops@) == head + made + seq![
            OpView::Write { path: self.dest@, contents: encode_utf8(self.contents@) },
        ]);
        if overwrite {
            Res::Overwrite(ops)
        } else {
            Res::Normal(ops)
        }
    }
}

} // verus!
