//! Linking or copying a file.

use vstd::prelude::*;
use crate::fs::{link_of, meta_of, text_of_file, FileKind, FsProbe, PathView, Tree};
use crate::op::{ToOp, CopyOp, LinkOp, MkdirOp, OpView, RmOp};
use crate::path::Path;
use super::mkdir::{missing_ancestors, mkdir_ops_view, mkdir_parents_ops, mkdirs};
use super::Resolved;

verus! {

/// Action to symlink or copy from `src` to `dest`.
#[derive(Debug, PartialEq)]
pub struct LinkAction {
    /// Path of file to symlink/copy.
    pub src: Path,
    /// Path of destination of symlink/copy.
    pub dest: Path,
    /// Perform a copy instead of a symlink.
    pub copy: bool,
    /// If the `src` does not exist, emit no operations.
    pub optional: bool,
}

/// Error that occurs when resolving a [`LinkAction`].
#[derive(Debug, Clone, Copy, PartialEq, Eq)]
pub enum Error {
    /// `src` was not found, and `optional` was false.
    SrcMissing,
}

/// Resolution of a [`LinkAction`].
#[derive(Debug, PartialEq)]
pub enum Res {
    /// Normal procedure.
    Normal(Vec<Op>),
    /// The destination file or directory will be overwritten.
    Overwrite(Vec<Op>),
    /// The action is skipped.
    Skip(Skip),
}

/// Operation created by resolution.
#[derive(Debug, PartialEq)]
pub enum Op {
    /// Remove operation.
    Rm(RmOp),
    /// Link operation.
    Link(LinkOp),
    /// Copy operation.
    Copy(CopyOp),
    /// Mkdir operation.
    Mkdir(MkdirOp),
}

/// Reason for skipping a [`LinkAction`].
#[derive(Debug, Clone, Copy, PartialEq, Eq)]
pub enum Skip {
    /// `src` and `dest` are the same path.
    SameSrcDest,
    /// Optional `src` does not exist.
    OptMissing,
    /// Destination link already exists.
    DestExists,
}

impl View for Op {
    type V = OpView;

    open spec fn view(&self) -> OpView {
        match self {
            Op::Rm(op) => op@,
            Op::Link(op) => op@,
            Op::Copy(op) => op@,
            Op::Mkdir(op) => op@,
        }
    }
}

impl ToOp for Op {
    fn to_op(&self) -> (op: crate::op::Op) {
        match self {
            Op::Rm(op) => crate::op::Op::Rm(op.clone()),
            Op::Link(op) => crate::op::Op::Link(op.clone()),
            Op::Copy(op) => crate::op::Op::Copy(op.clone()),
            Op::Mkdir(op) => crate::op::Op::Mkdir(op.clone()),
        }
    }
}

/// The views of a list of operations.
pub open spec fn ops_view(ops: Seq<Op>) -> Seq<OpView> {
    Seq::new(ops.len(), |i: int| ops[i]@)
}

impl View for Res {
    type V = Resolved<Skip>;

    open spec fn view(&self) -> Resolved<Skip> {
        match self {
            Res::Normal(ops) => Resolved::Normal(ops_view(ops@)),
            Res::Overwrite(ops) => Resolved::Overwrite(ops_view(ops@)),
            Res::Skip(skip) => Resolved::Skip(*skip),
        }
    }
}

/// What putting `last` in place at `dest` comes to, once it is known whether
/// something has to go first: `Some(dir)` asks for the removal of `dest`.
pub open spec fn place(tree: Tree, dest: PathView, overwrite: Option<bool>, last: OpView)
    -> Resolved<Skip> {
    match overwrite {
        Some(dir) => Resolved::Overwrite(seq![OpView::Rm { path: dest, dir }, last]),
        None => Resolved::Normal(mkdirs(missing_ancestors(tree, dest)) + seq![last]),
    }
}

/// What resolving a symlink from `dest` to `src` comes to, for a `src` that exists.
pub open spec fn resolve_link(tree: Tree, src: PathView, dest: PathView) -> Resolved<Skip> {
    let link = OpView::Link { src, dest };
    match meta_of(tree, dest) {
        Some(FileKind::Symlink) => if link_of(tree, dest) == Some(src) {
            Resolved::Skip(Skip::DestExists)
        } else {
            place(tree, dest, Some(false), link)
        },
        Some(FileKind::Dir) => place(tree, dest, Some(true), link),
        Some(FileKind::File) => place(tree, dest, Some(false), link),
        _ => place(tree, dest, None, link),
    }
}

/// Whether the files at `src` and `dest` are known to hold the same text.
pub open spec fn same_text(tree: Tree, src: PathView, dest: PathView) -> bool {
    text_of_file(tree, src) is Some && text_of_file(tree, src) == text_of_file(tree, dest)
}

/// What resolving a copy of `src` to `dest` comes to, for a `src` that exists.
pub open spec fn resolve_copy(tree: Tree, src: PathView, dest: PathView) -> Resolved<Skip> {
    let copy = OpView::Copy { src, dest, dir: meta_of(tree, src) == Some(FileKind::Dir) };
    match meta_of(tree, dest) {
        Some(FileKind::File) => if same_text(tree, src, dest) {
            Resolved::Skip(Skip::DestExists)
        } else {
            place(tree, dest, Some(false), copy)
        },
        Some(FileKind::Dir) => place(tree, dest, Some(true), copy),
        Some(FileKind::Symlink) => place(tree, dest, Some(false), copy),
        _ => place(tree, dest, None, copy),
    }
}

/// What resolving a [`LinkAction`] comes to.
pub open spec fn resolve_link_action(
    tree: Tree,
    src: PathView,
    dest: PathView,
    copy: bool,
    optional: bool,
) -> Result<Resolved<Skip>, Error> {
    if src == dest {
        Ok(Resolved::Skip(Skip::SameSrcDest))
    } else if !tree.dom().contains(src) {
        if optional {
            Ok(Resolved::Skip(Skip::OptMissing))
        } else {
            Err(Error::SrcMissing)
        }
    } else if copy {
        Ok(resolve_copy(tree, src, dest))
    } else {
        Ok(resolve_link(tree, src, dest))
    }
}

impl LinkAction {
    /// Resolves the action: nothing where source and destination are one path or
    /// an optional source is missing; else a link or a copy.
    pub fn resolve(&self, probe: &FsProbe) -> (res: Result<Res, Error>)
        ensures
            match res {
                Ok(r) => resolve_link_action(
                    probe@,
                    self.src@,
                    self.dest@,
                    self.copy,
                    self.optional,
                ) == Ok::<Resolved<Skip>, Error>(r@),
                Err(e) => resolve_link_action(
                    probe@,
                    self.src@,
                    self.dest@,
                    self.copy,
                    self.optional,
                ) == Err::<Resolved<Skip>, Error>(e),
            },
    {
        if self.src == self.dest {
            return Ok(Res::Skip(Skip::SameSrcDest));
        }
        if !probe.exists_symlink(&self.src) {
            if self.optional {
                return Ok(Res::Skip(Skip::OptMissing));
            } else {
                return Err(Error::SrcMissing);
            }
        }
        if self.copy {
            Ok(self.resolve_copy(probe))
        } else {
            Ok(self.resolve_link(probe))
        }
    }

    /// Puts `last` behind the removal of the destination, or behind the creation
    /// of its missing parents.
    fn place(&self, probe: &FsProbe, overwrite: Option<bool>, last: Op) -> (res: Res)
        ensures
            res@ == place(probe@, self.dest@, overwrite, last@),
    {
        match overwrite {
            Some(dir) => {
                let mut ops: Vec<Op> = Vec::new();
                ops.push(Op::Rm(RmOp { path: self.dest.clone(), dir }));
                ops.push(last);
                assert(ops_view(ops@) == seq![OpView::Rm { path: self.dest@, dir }, last@]);
                Res::Overwrite(ops)
            },
            None => {
                let parents = mkdir_parents_ops(&self.dest, probe);
                let ghost made = mkdir_ops_view(parents@);
                let mut ops: Vec<Op> = Vec::new();
                let mut i: usize = 0;
                assert(ops_view(ops@) == made.take(0));
                while i < parents.len()
                    invariant
                        i <= parents@.len(),
                        made == mkdir_ops_view(parents@),
                        ops_view(ops@) == made.take(i as int),
                    decreases parents@.len() - i,
                {
                    let ghost before = ops_view(ops@);
                    ops.push(Op::Mkdir(parents[i].clone()));
                    assert(ops_view(ops@) == before.push(made[i as int]));
                    i = i + 1;
                    assert(made.take(i as int) == made.take(i - 1).push(made[i - 1]));
                }
                assert(made.take(i as int) == made);
                ops.push(last);
                assert(ops_view(ops@) == made + seq![last@]);
                Res::Normal(ops)
            },
        }
    }

    /// Resolves the action as a symlink.
    fn resolve_link(&self, probe: &FsProbe) -> (res: Res)
        ensures
            res@ == resolve_link(probe@, self.src@, self.dest@),
    {
        // Check the filetype and determine if overwrite is necessary.
        let overwrite = match probe.meta(&self.dest) {
            // For symlinks, check the target. If it's the same as src, skip.
            Some(FileKind::Symlink) => {
                let points_to_src = match probe.read_link(&self.dest) {
                    Some(target) => *target == self.src,
                    None => false,
                };
                if points_to_src {
                    return Res::Skip(Skip::DestExists);
                }
                Some(false)
            },
            // Existing files and directories are removed before linking.
            Some(FileKind::Dir) => Some(true),
            Some(FileKind::File) => Some(false),
            // Nothing there that is in the way.
            _ => None,
        };
        let link = Op::Link(LinkOp { src: self.src.clone(), dest: self.dest.clone() });
        self.place(probe, overwrite, link)
    }

    /// Resolves the action as a copy.
    fn resolve_copy(&self, probe: &FsProbe) -> (res: Res)
        ensures
            res@ == resolve_copy(probe@, self.src@, self.dest@),
    {
        let src_is_dir = match probe.meta(&self.src) {
            Some(FileKind::Dir) => true,
            _ => false,
        };
        let overwrite = match probe.meta(&self.dest) {
            // For files, check the contents. If they match, there is nothing to do.
            Some(FileKind::File) => {
                let content_same = match probe.read_to_string(&self.src) {
                    Some(src_contents) => match probe.read_to_string(&self.dest) {
                        Some(dest_contents) => *src_contents == *dest_contents,
                        None => false,
                    },
                    None => false,
                };
                if content_same {
                    return Res::Skip(Skip::DestExists);
                }
                Some(false)
            },
            // Directories and symlinks are removed before copying.
            Some(FileKind::Dir) => Some(true),
            Some(FileKind::Symlink) => Some(false),
            // Nothing there that is in the way.
            _ => None,
        };
        let copy = Op::Copy(
            CopyOp { src: self.src.clone(), dest: self.dest.clone(), dir: src_is_dir },
        );
        self.place(probe, overwrite, copy)
    }
}

/// An action whose source is its destination is skipped, whatever the
/// filesystem holds.
pub proof fn same_src_dest_is_skipped(tree: Tree, path: PathView, copy: bool, optional: bool)
    ensures
        resolve_link_action(tree, path, path, copy, optional) == Ok::<Resolved<Skip>, Error>(
            Resolved::Skip(Skip::SameSrcDest),
        ),
{
}

} // verus!
