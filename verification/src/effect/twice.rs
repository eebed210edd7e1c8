//! Deploying what is deployed already.
//!
//! Once the operations of an action have run through, the action is resolved
//! as being in place. This is so for links, for copies of files and for
//! directories. It is not so for a write, which is never skipped, nor for the
//! copy of a directory, which is made anew each time.

use vstd::prelude::*;
use crate::action::link::{place, resolve_link_action, Error, Skip};
use crate::action::mkdir::{missing_ancestors, mkdirs, resolve_mkdir};
use crate::action::{ops_of, Resolved};
use crate::fs::{below, rebased, text_of_file, PathView, Tree};
use crate::op::OpView;
use super::undo::same_at;
use super::{effect, run};

verus! {

/// Operations only run through with a place for each of them.
pub proof fn run_takes_places(tree: Tree, ops: Seq<OpView>, places: Seq<PathView>)
    requires
        run(tree, ops, places) is Some,
    ensures
        places.len() >= ops.len(),
    decreases ops.len(),
{
    if ops.len() > 0 {
        let next = effect(tree, ops[0], places[0]).unwrap().0;
        run_takes_places(next, ops.drop_first(), places.drop_first());
    }
}

/// What a single operation leaves when it runs.
pub proof fn run_of_one(tree: Tree, op: OpView, places: Seq<PathView>)
    requires
        places.len() > 0,
    ensures
        run(tree, seq![op], places) == match effect(tree, op, places[0]) {
            Some((next, _)) => Some(next),
            None => None,
        },
{
    assert(seq![op].drop_first() == Seq::<OpView>::empty());
    match effect(tree, op, places[0]) {
        Some((next, _)) => {
            assert(run(next, Seq::<OpView>::empty(), places.drop_first()) == Some(next));
        },
        None => {},
    }
}

/// Operations that run through one after the other run through in two parts.
pub proof fn run_in_parts(tree: Tree, first: Seq<OpView>, then: Seq<OpView>, places: Seq<PathView>)
    requires
        run(tree, first + then, places) is Some,
    ensures
        places.len() >= first.len() + then.len(),
        run(tree, first, places) is Some,
        run(run(tree, first, places).unwrap(), then, places.skip(first.len() as int)) == run(
            tree,
            first + then,
            places,
        ),
    decreases first.len(),
{
    run_takes_places(tree, first + then, places);
    if first.len() == 0 {
        assert(first + then == then);
        assert(places.skip(0) == places);
    } else {
        assert((first + then)[0] == first[0]);
        assert((first + then).drop_first() == first.drop_first() + then);
        let next = effect(tree, first[0], places[0]).unwrap().0;
        run_in_parts(next, first.drop_first(), then, places.drop_first());
        assert(places.drop_first().skip(first.drop_first().len() as int) == places.skip(
            first.len() as int,
        ));
    }
}

/// The last of the operations that ran through was applied to some tree and
/// has left the tree that all of them leave.
pub proof fn run_ends_with(tree: Tree, ops: Seq<OpView>, places: Seq<PathView>) -> (res: (
    Tree,
    PathView,
))
    requires
        ops.len() > 0,
        run(tree, ops, places) is Some,
    ensures
        run(tree, ops.drop_last(), places) == Some(res.0),
        effect(res.0, ops.last(), res.1) is Some,
        effect(res.0, ops.last(), res.1).unwrap().0 == run(tree, ops, places).unwrap(),
{
    let front = ops.drop_last();
    assert(front + seq![ops.last()] == ops);
    run_in_parts(tree, front, seq![ops.last()], places);
    let mid = run(tree, front, places).unwrap();
    let rest = places.skip(front.len() as int);
    run_of_one(mid, ops.last(), rest);
    (mid, rest[0])
}

/// Whether `after` holds all that `tree` holds.
pub open spec fn kept(tree: Tree, after: Tree) -> bool {
    forall|p: PathView| #[trigger]
        tree.dom().contains(p) ==> after.dom().contains(p) && after[p] == tree[p]
}

/// Creating directories keeps all that is there.
pub proof fn mkdirs_keep(tree: Tree, paths: Seq<PathView>, places: Seq<PathView>)
    requires
        run(tree, mkdirs(paths), places) is Some,
    ensures
        kept(tree, run(tree, mkdirs(paths), places).unwrap()),
    decreases paths.len(),
{
    if paths.len() > 0 {
        let next = effect(tree, mkdirs(paths)[0], places[0]).unwrap().0;
        assert(mkdirs(paths).drop_first() == mkdirs(paths.drop_first()));
        mkdirs_keep(next, paths.drop_first(), places.drop_first());
        assert(below(paths[0], paths[0]));
        assert(kept(tree, next));
    }
}

/// A removal keeps what neither lies below the removed path nor is new.
pub proof fn removal_keeps(tree: Tree, path: PathView, dir: bool, place: PathView, other: PathView)
    requires
        effect(tree, OpView::Rm { path, dir }, place) is Some,
        tree.dom().contains(other),
        !below(path, other),
    ensures
        same_at(effect(tree, OpView::Rm { path, dir }, place).unwrap().0, tree, other),
{
}

/// Linking is idempotent: once the operations of a link have run through, the
/// link is resolved as being in place. This holds where the source does not lie
/// below the destination; else the source goes with what is overwritten.
pub proof fn link_is_idempotent(
    tree: Tree,
    src: PathView,
    dest: PathView,
    optional: bool,
    places: Seq<PathView>,
)
    requires
        resolve_link_action(tree, src, dest, false, optional) is Ok,
        !(resolve_link_action(tree, src, dest, false, optional)->Ok_0 is Skip),
        run(tree, ops_of(resolve_link_action(tree, src, dest, false, optional)->Ok_0), places)
            is Some,
        !below(dest, src),
    ensures
        resolve_link_action(
            run(
                tree,
                ops_of(resolve_link_action(tree, src, dest, false, optional)->Ok_0),
                places,
            ).unwrap(),
            src,
            dest,
            false,
            optional,
        ) == Ok::<Resolved<Skip>, Error>(Resolved::Skip(Skip::DestExists)),
{
    let link = OpView::Link { src, dest };
    let ops = ops_of(resolve_link_action(tree, src, dest, false, optional)->Ok_0);
    src_stays(tree, src, dest, link, places);
    let (mid, place) = run_ends_with(tree, ops, places);
}

/// Copying a file is idempotent: once the operations of a copy have run
/// through, the copy is resolved as being in place. This holds for a source that
/// is a file whose text is known and that does not lie below the destination.
pub proof fn copy_is_idempotent(
    tree: Tree,
    src: PathView,
    dest: PathView,
    optional: bool,
    places: Seq<PathView>,
)
    requires
        resolve_link_action(tree, src, dest, true, optional) is Ok,
        !(resolve_link_action(tree, src, dest, true, optional)->Ok_0 is Skip),
        run(tree, ops_of(resolve_link_action(tree, src, dest, true, optional)->Ok_0), places)
            is Some,
        !below(dest, src),
        text_of_file(tree, src) is Some,
    ensures
        resolve_link_action(
            run(
                tree,
                ops_of(resolve_link_action(tree, src, dest, true, optional)->Ok_0),
                places,
            ).unwrap(),
            src,
            dest,
            true,
            optional,
        ) == Ok::<Resolved<Skip>, Error>(Resolved::Skip(Skip::DestExists)),
{
    let copy = OpView::Copy { src, dest, dir: false };
    let ops = ops_of(resolve_link_action(tree, src, dest, true, optional)->Ok_0);
    src_stays(tree, src, dest, copy, places);
    let (mid, place) = run_ends_with(tree, ops, places);
    assert(rebased(dest, dest, src) == src) by {
        assert(dest.skip(dest.len() as int) == Seq::<Seq<char>>::empty());
    }
    assert(below(dest, dest));
}

/// The source of a link or a copy is still there, and the same, when the
/// operations before the last one have run through.
proof fn src_stays(
    tree: Tree,
    src: PathView,
    dest: PathView,
    last: OpView,
    places: Seq<PathView>,
)
    requires
        tree.dom().contains(src),
        !below(dest, src),
        exists|overwrite: Option<bool>|
            run(tree, ops_of(#[trigger] place(tree, dest, overwrite, last)), places) is Some,
    ensures
        forall|overwrite: Option<bool>|
            run(tree, ops_of(#[trigger] place(tree, dest, overwrite, last)), places) is Some
                ==> same_at(
                run(tree, ops_of(place(tree, dest, overwrite, last)).drop_last(), places).unwrap(),
                tree,
                src,
            ),
{
    assert forall|overwrite: Option<bool>|
        run(
            tree,
            ops_of(#[trigger] place(tree, dest, overwrite, last)),
            places,
        ) is Some implies same_at(
        run(tree, ops_of(place(tree, dest, overwrite, last)).drop_last(), places).unwrap(),
        tree,
        src,
    ) by {
        let ops = ops_of(place(tree, dest, overwrite, last));
        let (mid, at) = run_ends_with(tree, ops, places);
        match overwrite {
            Some(dir) => {
                assert(ops.drop_last() == seq![OpView::Rm { path: dest, dir }]);
                run_takes_places(tree, ops, places);
                run_of_one(tree, OpView::Rm { path: dest, dir }, places);
                removal_keeps(tree, dest, dir, places[0], src);
            },
            None => {
                assert(ops.drop_last() == mkdirs(missing_ancestors(tree, dest)));
                mkdirs_keep(tree, missing_ancestors(tree, dest), places);
            },
        }
    }
}

/// Creating a directory is idempotent: once the operations of a mkdir have run
/// through, the directory is resolved as being in place.
pub proof fn mkdir_is_idempotent(
    tree: Tree,
    path: PathView,
    parents: bool,
    places: Seq<PathView>,
)
    requires
        !(resolve_mkdir(tree, path, parents) is Skip),
        run(tree, ops_of(resolve_mkdir(tree, path, parents)), places) is Some,
    ensures
        resolve_mkdir(
            run(tree, ops_of(resolve_mkdir(tree, path, parents)), places).unwrap(),
            path,
            parents,
        ) == Resolved::Skip(crate::action::mkdir::Skip::DestExists),
{
    let ops = ops_of(resolve_mkdir(tree, path, parents));
    let (mid, place) = run_ends_with(tree, ops, places);
}

} // verus!
