//! Creating a directory.

use vstd::prelude::*;
use crate::fs::{meta_of, FileKind, FsProbe, PathView, Tree};
use crate::op::{ToOp, MkdirOp, OpView, RmOp};
use crate::path::Path;
use super::Resolved;

verus! {

/// Action to create a directory.
#[derive(Debug, PartialEq)]
pub struct MkdirAction {
    /// Path at which to create the directory.
    pub path: Path,
    /// Missing parents are created too.
    pub parents: bool,
}

/// Resolution of a [`MkdirAction`].
#[derive(Debug, PartialEq)]
pub enum Res {
    /// Normal procedure.
    Normal(Vec<Op>),
    /// The file at the destination will be overwritten.
    Overwrite(Vec<Op>),
    /// The action is skipped.
    Skip(Skip),
}

/// Operation created by resolution.
#[derive(Debug, PartialEq)]
pub enum Op {
    /// Remove operation.
    Rm(RmOp),
    /// Mkdir operation.
    Mkdir(MkdirOp),
}

/// Reason for skipping a [`MkdirAction`].
#[derive(Debug, Clone, Copy, PartialEq, Eq)]
pub enum Skip {
    /// The directory already exists.
    DestExists,
}

impl View for Op {
    type V = OpView;

    open spec fn view(&self) -> OpView {
        match self {
            Op::Rm(op) => op@,
            Op::Mkdir(op) => op@,
        }
    }
}

impl ToOp for Op {
    fn to_op(&self) -> (op: crate::op::Op) {
        match self {
            Op::Rm(op) => crate::op::Op::Rm(op.clone()),
            Op::Mkdir(op) => crate::op::Op::Mkdir(op.clone()),
        }
    }
}

/// The views of a list of operations.
pub open spec fn ops_view(ops: Seq<Op>) -> Seq<OpView> {
    Seq::new(ops.len(), |i: int| ops[i]@)
}

impl View for Res {
    type V = Resolved<Skip>;

    open spec fn view(&self) -> Resolved<Skip> {
        match self {
            Res::Normal(ops) => Resolved::Normal(ops_view(ops@)),
            Res::Overwrite(ops) => Resolved::Overwrite(ops_view(ops@)),
            Res::Skip(skip) => Resolved::Skip(*skip),
        }
    }
}

/// The ancestors of `path`, the root first and its parent last.
pub open spec fn ancestors(path: PathView) -> Seq<PathView> {
    Seq::new(path.len(), |i: int| path.take(i))
}

/// The predicate that holds of a path at which nothing stands.
pub open spec fn is_missing(tree: Tree) -> spec_fn(PathView) -> bool {
    |p: PathView| !tree.dom().contains(p)
}

/// The ancestors of `path` at which nothing stands, the root first.
pub open spec fn missing_ancestors(tree: Tree, path: PathView) -> Seq<PathView> {
    ancestors(path).filter(is_missing(tree))
}

/// One operation for each of `paths` that creates the directory there.
pub open spec fn mkdirs(paths: Seq<PathView>) -> Seq<OpView> {
    Seq::new(paths.len(), |i: int| OpView::Mkdir { path: paths[i] })
}

/// The views of a list of mkdir operations.
pub open spec fn mkdir_ops_view(ops: Seq<MkdirOp>) -> Seq<OpView> {
    Seq::new(ops.len(), |i: int| ops[i]@)
}

/// The operations that create the missing ancestors of `path`, the one nearest
/// to the root first. Each creates exactly one level.
pub fn mkdir_parents_ops(path: &Path, probe: &FsProbe) -> (ops: Vec<MkdirOp>)
    ensures
        mkdir_ops_view(ops@) == mkdirs(missing_ancestors(probe@, path@)),
{
    let ghost all = ancestors(path@);
    let ghost missing = is_missing(probe@);
    let mut ops: Vec<MkdirOp> = Vec::new();
    let mut i: usize = 0;
    proof {
        reveal(Seq::filter);
        assert(all.take(0).filter(missing) == Seq::<PathView>::empty());
        assert(mkdir_ops_view(ops@) == mkdirs(all.take(0).filter(missing)));
    }
    while i < path.len()
        invariant
            i <= path@.len(),
            all == ancestors(path@),
            missing == is_missing(probe@),
            mkdir_ops_view(ops@) == mkdirs(all.take(i as int).filter(missing)),
        decreases path@.len() - i,
    {
        let parent = path.prefix(i);
        let ghost found = all.take(i as int).filter(missing);
        let ghost made = mkdir_ops_view(ops@);
        proof {
            reveal(Seq::filter);
            assert(all.take(i + 1).drop_last() == all.take(i as int));
            assert(all.take(i + 1).last() == parent@);
            assert(missing(parent@) == !probe@.dom().contains(parent@));
        }
        if !probe.exists_symlink(&parent) {
            ops.push(MkdirOp { path: parent });
            assert(all.take(i + 1).filter(missing) == found.push(parent@));
            assert(mkdir_ops_view(ops@) == made.push(OpView::Mkdir { path: parent@ }));
            assert(mkdirs(found.push(parent@)) == mkdirs(found).push(
                OpView::Mkdir { path: parent@ },
            ));
        } else {
            assert(all.take(i + 1).filter(missing) == found);
        }
        i = i + 1;
    }
    assert(all.take(i as int) == all);
    ops
}

/// What resolving the creation of a directory at `path` comes to.
pub open spec fn resolve_mkdir(tree: Tree, path: PathView, parents: bool) -> Resolved<Skip> {
    let above = if parents {
        mkdirs(missing_ancestors(tree, path))
    } else {
        Seq::empty()
    };
    match meta_of(tree, path) {
        Some(FileKind::Dir) => Resolved::Skip(Skip::DestExists),
        Some(_) => Resolved::Overwrite(
            seq![OpView::Rm { path, dir: false }] + above + seq![OpView::Mkdir { path }],
        ),
        None => Resolved::Normal(above + seq![OpView::Mkdir { path }]),
    }
}

impl MkdirAction {
    /// Resolves the action. A directory at the path is left alone; anything
    /// else there is removed first; the missing parents are created if asked for.
    pub fn resolve(&self, probe: &FsProbe) -> (res: Res)
        ensures
            res@ == resolve_mkdir(probe@, self.path@, self.parents),
    {
        let overwrite = match probe.meta(&self.path) {
            Some(FileKind::Dir) => {
                return Res::Skip(Skip::DestExists);
            },
            Some(_) => true,
            None => false,
        };
        let mut ops: Vec<Op> = Vec::new();
        if overwrite {
            ops.push(Op::Rm(RmOp { path: self.path.clone(), dir: false }));
        }
        let ghost head = ops_view(ops@);
        let ghost above = if self.parents {
            mkdirs(missing_ancestors(probe@, self.path@))
        } else {
            Seq::empty()
        };
        if self.parents {
            let mut parents = mkdir_parents_ops(&self.path, probe);
            let ghost made = mkdir_ops_view(parents@);
            let mut i: usize = 0;
            while i < parents.len()
                invariant
                    i <= parents@.len(),
                    made == mkdir_ops_view(parents@),
                    ops_view(ops@) == head + made.take(i as int),
                decreases parents@.len() - i,
            {
                let ghost before = ops_view(ops@);
                ops.push(Op::Mkdir(parents[i].clone()));
                assert(ops_view(ops@) == before.push(made[i as int]));
                i = i + 1;
                assert(made.take(i as int) == made.take(i - 1).push(made[i - 1]));
            }
            assert(made.take(i as int) == made);
        }
        assert(ops_view(ops@) == head + above);
        let ghost before = ops_view(ops@);
        ops.push(Op::Mkdir(MkdirOp { path: self.path.clone() }));
        assert(ops_view(ops@) == before.push(OpView::Mkdir { path: self.path@ }));
        assert(ops_view(ops@) == head + above + seq![OpView::Mkdir { path: self.path@ }]);
        if overwrite {
            assert(head == seq![OpView::Rm { path: self.path@, dir: false }]);
            Res::Overwrite(ops)
        } else {
            assert(head + above == above);
            Res::Normal(ops)
        }
    }
}

} // verus!
