//! An operation and its inverse.

use vstd::prelude::*;
use crate::fs::{
    agrees_at, alone, below, copied_to, rebased, rebased_back, vacant, with_copy, without,
    PathView, Tree,
};
use crate::op::{inverse_of, is_undo, twin, OpView};
use super::{apart, effect, free, held, moved};

verus! {

/// Whether `op` touches `path`: it creates, changes or removes what stands there.
pub open spec fn touches(op: OpView, path: PathView) -> bool {
    match op {
        OpView::Link { dest, .. } => path == dest,
        OpView::LinkUndo { dest, .. } => path == dest,
        OpView::Copy { dest, .. } => below(dest, path),
        OpView::CopyUndo { dest, .. } => below(dest, path),
        OpView::Create { path: at } => path == at,
        OpView::CreateUndo { path: at } => path == at,
        OpView::Write { path: at, .. } => path == at,
        OpView::WriteUndo { path: at, .. } => path == at,
        OpView::Mkdir { path: at } => path == at,
        OpView::MkdirUndo { path: at } => path == at,
        OpView::Rm { path: at, .. } => below(at, path),
        OpView::RmUndo { path: at, .. } => below(at, path),
        OpView::Command { .. } => false,
        OpView::Function { .. } => false,
    }
}

/// Whether the two trees hold the same at `path`.
pub open spec fn same_at(a: Tree, b: Tree, path: PathView) -> bool {
    a.dom().contains(path) == b.dom().contains(path) && (a.dom().contains(path) ==> a[path]
        == b[path])
}

/// Two directories that a path lies below lie one below the other.
pub proof fn prefixes_are_comparable(a: PathView, b: PathView, path: PathView)
    requires
        below(a, path),
        below(b, path),
    ensures
        below(a, b) || below(b, a),
{
    if a.len() <= b.len() {
        assert(a == b.subrange(0, a.len() as int));
    } else {
        assert(b == a.subrange(0, b.len() as int));
    }
}

/// What is moved to a free place and back is where it was.
pub proof fn moved_back(tree: Tree, from: PathView, to: PathView, path: PathView)
    requires
        vacant(tree, to),
        apart(from, to),
        below(from, path),
    ensures
        same_at(moved(moved(tree, from, to), to, from), tree, path),
{
    let there = moved(tree, from, to);
    let back = moved(there, to, from);
    let q = rebased(path, from, to);
    rebased_back(path, from, to);
    if below(to, path) {
        prefixes_are_comparable(from, to, path);
    }
    if below(from, q) {
        prefixes_are_comparable(from, to, q);
    }
    assert(copied_to(tree, from, to, q) == tree.dom().contains(path));
    assert(there.dom().contains(q) == tree.dom().contains(path));
    assert(!there.dom().contains(path));
    assert(copied_to(there, to, from, path) == tree.dom().contains(path));
}

/// The parent of a path is the same in a tree and in what a move between two
/// places beside it leaves.
proof fn parent_stays(tree: Tree, from: PathView, to: PathView, path: PathView)
    requires
        path.len() > 0,
        !below(from, path.drop_last()),
        !below(to, path.drop_last()),
    ensures
        same_at(with_copy(tree, from, to), tree, path.drop_last()),
        same_at(without(tree, from), tree, path.drop_last()),
        same_at(moved(tree, from, to), tree, path.drop_last()),
{
}

/// A path does not lie below a directory that its parent does not lie below,
/// unless it is that directory.
proof fn below_parent(dir: PathView, path: PathView)
    requires
        path.len() > 0,
        below(dir, path.drop_last()),
    ensures
        below(dir, path),
{
    assert(dir == path.drop_last().subrange(0, dir.len() as int));
    assert(dir == path.subrange(0, dir.len() as int));
}

/// The removal of a copy undoes the copy.
pub proof fn copy_is_removed(tree: Tree, src: PathView, dest: PathView, dir: bool)
    requires
        effect(tree, OpView::Copy { src, dest, dir }, dest) is Some,
    ensures
        effect(with_copy(tree, src, dest), OpView::CopyUndo { src, dest, dir }, dest) == Some(
            (without(with_copy(tree, src, dest), dest), None::<PathView>),
        ),
        forall|path: PathView|
            below(dest, path) ==> same_at(without(with_copy(tree, src, dest), dest), tree, path),
{
    let after = with_copy(tree, src, dest);
    assert(rebased(dest, dest, src) == src) by {
        assert(dest.skip(dest.len() as int) == Seq::<Seq<char>>::empty());
    }
    assert(below(dest, dest));
    assert(copied_to(tree, src, dest, dest));
    assert forall|p: PathView| below(dest, p) implies #[trigger] agrees_at(after, src, dest, p) by {
        let r = rebased(p, dest, src);
        rebased_back(p, dest, src);
        if below(dest, r) {
            prefixes_are_comparable(src, dest, r);
        }
        assert(!copied_to(tree, src, dest, r));
    }
    if dest.len() > 0 {
        if below(dest, dest.drop_last()) {
            assert(dest.len() <= dest.drop_last().len());
        }
        if below(src, dest.drop_last()) {
            below_parent(src, dest);
        }
        parent_stays(tree, src, dest, dest);
    }
    if !dir {
        assert forall|p: PathView| below(dest, p) && p != dest implies !after.dom().contains(
            p,
        ) by {
            let r = rebased(p, dest, src);
            rebased_back(p, dest, src);
            if r == src {
                assert(rebased(r, src, dest) == dest) by {
                    assert(src.skip(src.len() as int) == Seq::<Seq<char>>::empty());
                }
            }
        }
    }
}

/// A copy that is made again undoes its removal.
proof fn copy_is_made_again(tree: Tree, src: PathView, dest: PathView, dir: bool)
    requires
        effect(tree, OpView::CopyUndo { src, dest, dir }, dest) is Some,
    ensures
        effect(without(tree, dest), OpView::Copy { src, dest, dir }, dest) == Some(
            (with_copy(without(tree, dest), src, dest), None::<PathView>),
        ),
        forall|path: PathView|
            below(dest, path) ==> same_at(with_copy(without(tree, dest), src, dest), tree, path),
{
    let after = without(tree, dest);
    assert(rebased(dest, dest, src) == src) by {
        assert(dest.skip(dest.len() as int) == Seq::<Seq<char>>::empty());
    }
    assert(below(dest, dest));
    assert(agrees_at(tree, src, dest, dest));
    assert(tree.dom().contains(src));
    assert(tree[src] == tree[dest]);
    if !dir {
        assert forall|r: PathView| below(src, r) && r != src implies !tree.dom().contains(r) by {
            let p = rebased(r, src, dest);
            rebased_back(r, src, dest);
            assert(agrees_at(tree, src, dest, p));
            if p == dest {
                assert(rebased(p, dest, src) == src);
            }
        }
    }
    if dest.len() > 0 {
        if below(dest, dest.drop_last()) {
            assert(dest.len() <= dest.drop_last().len());
        }
    }
    assert forall|path: PathView| below(dest, path) implies same_at(
        with_copy(after, src, dest),
        tree,
        path,
    ) by {
        let r = rebased(path, dest, src);
        rebased_back(path, dest, src);
        assert(agrees_at(tree, src, dest, path));
        if below(dest, r) {
            prefixes_are_comparable(src, dest, r);
        }
    }
}

/// Putting back what was removed undoes the removal.
pub proof fn removal_is_undone(tree: Tree, path: PathView, dir: bool, place: PathView)
    requires
        effect(tree, OpView::Rm { path, dir }, place) is Some,
    ensures
        effect(
            moved(tree, path, place),
            OpView::RmUndo { path, dir, backup: Some(place) },
            place,
        ) == Some((moved(moved(tree, path, place), place, path), None::<PathView>)),
        forall|p: PathView|
            below(path, p) ==> same_at(moved(moved(tree, path, place), place, path), tree, p),
{
    let after = moved(tree, path, place);
    assert(rebased(place, place, path) == path) by {
        assert(place.skip(place.len() as int) == Seq::<Seq<char>>::empty());
    }
    assert(below(place, place));
    assert(copied_to(tree, path, place, place));
    assert(after.dom().contains(place));
    assert(after[place] == tree[path]);
    if path.len() > 0 {
        if below(path, path.drop_last()) {
            assert(path.len() <= path.drop_last().len());
        }
        if below(place, path.drop_last()) {
            below_parent(place, path);
        }
        parent_stays(tree, path, place, path);
    }
    assert forall|p: PathView| below(path, p) implies same_at(
        moved(after, place, path),
        tree,
        p,
    ) by {
        moved_back(tree, path, place, p);
    }
}

/// Removing what was put back undoes the putting back.
proof fn restoring_is_undone(
    tree: Tree,
    path: PathView,
    dir: bool,
    kept: PathView,
    spare: PathView,
)
    requires
        effect(tree, OpView::RmUndo { path, dir, backup: Some(kept) }, spare) is Some,
        free(moved(tree, kept, path), spare),
        !below(path, spare),
    ensures
        effect(moved(tree, kept, path), OpView::Rm { path, dir }, spare) == Some(
            (moved(moved(tree, kept, path), path, spare), Some(spare)),
        ),
        forall|p: PathView|
            below(path, p) ==> same_at(moved(moved(tree, kept, path), path, spare), tree, p),
{
    let after = moved(tree, kept, path);
    assert(rebased(path, path, kept) == kept) by {
        assert(path.skip(path.len() as int) == Seq::<Seq<char>>::empty());
    }
    assert(below(path, path));
    assert(copied_to(tree, kept, path, path));
    assert(after.dom().contains(path));
    assert(after[path] == tree[kept]);
    if path.len() > 0 {
        if below(path, path.drop_last()) {
            assert(path.len() <= path.drop_last().len());
        }
        if below(kept, path.drop_last()) {
            below_parent(kept, path);
        }
        parent_stays(tree, kept, path, path);
    }
}

/// An operation is undone by its inverse: when an operation has been applied,
/// its inverse can be applied, given a free place of its own to keep what it
/// destroys, and what it leaves is the first tree again at every path that the
/// operation touched.
pub proof fn undo_restores(tree: Tree, op: OpView, place: PathView, spare: PathView)
    requires
        effect(tree, op, place) is Some,
        free(effect(tree, op, place).unwrap().0, spare),
        !touches(op, spare),
    ensures
        inverse_of(op, effect(tree, op, place).unwrap().1) is Some,
        effect(
            effect(tree, op, place).unwrap().0,
            inverse_of(op, effect(tree, op, place).unwrap().1).unwrap(),
            spare,
        ) is Some,
        forall|path: PathView|
            touches(op, path) ==> same_at(
                effect(
                    effect(tree, op, place).unwrap().0,
                    inverse_of(op, effect(tree, op, place).unwrap().1).unwrap(),
                    spare,
                ).unwrap().0,
                tree,
                path,
            ),
{
    let (after, backup) = effect(tree, op, place).unwrap();
    let undo = inverse_of(op, backup).unwrap();
    match op {
        OpView::Link { src, dest } => {
            assert(below(dest, dest));
        },
        OpView::LinkUndo { src, dest } => {
            assert(vacant(after, dest));
        },
        OpView::Copy { src, dest, dir } => {
            copy_is_removed(tree, src, dest, dir);
        },
        OpView::CopyUndo { src, dest, dir } => {
            copy_is_made_again(tree, src, dest, dir);
        },
        OpView::Create { path } => {
            assert(below(path, path));
        },
        OpView::CreateUndo { path } => {
            assert(vacant(after, path));
        },
        OpView::Write { path, contents } => {
            if tree.dom().contains(path) {
                assert(below(place, place));
            } else {
                assert(below(path, path));
                assert(alone(after, path));
            }
        },
        OpView::WriteUndo { path, contents, backup } => {
            match backup {
                Some(kept) => {
                    assert(below(spare, spare));
                },
                None => {
                    assert(vacant(after, path));
                },
            }
        },
        OpView::Mkdir { path } => {
            assert(below(path, path));
        },
        OpView::MkdirUndo { path } => {
            assert(vacant(after, path));
        },
        OpView::Rm { path, dir } => {
            removal_is_undone(tree, path, dir, place);
        },
        OpView::RmUndo { path, dir, backup } => {
            restoring_is_undone(tree, path, dir, backup->Some_0, spare);
        },
        OpView::Command { .. } => {},
        OpView::Function { .. } => {},
    }
}

/// The rollback of a rollback is a redo. A journal holds undo twins, and its
/// rollback puts the twin of each behind it. That twin is the full inverse of
/// the undo twin: when the undo twin has been applied, its twin can be applied,
/// and what it leaves is what the undo twin had found, at every path that it
/// touched.
pub proof fn twin_redoes(tree: Tree, undo: OpView, place: PathView, spare: PathView)
    requires
        is_undo(undo),
        effect(tree, undo, place) is Some,
        free(effect(tree, undo, place).unwrap().0, spare),
        !touches(undo, spare),
    ensures
        inverse_of(undo, effect(tree, undo, place).unwrap().1) == Some(twin(undo)),
        effect(effect(tree, undo, place).unwrap().0, twin(undo), spare) is Some,
        forall|path: PathView|
            touches(undo, path) ==> same_at(
                effect(effect(tree, undo, place).unwrap().0, twin(undo), spare).unwrap().0,
                tree,
                path,
            ),
{
    undo_restores(tree, undo, place, spare);
}

} // verus!
