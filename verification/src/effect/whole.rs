//! What whole actions leave, and how they are taken back.

use vstd::prelude::*;
use vstd::utf8::{encode_utf8, encode_utf8_decode_utf8, encode_utf8_valid_utf8};
use crate::action::link::{place, resolve_link_action, Error, Skip};
use crate::action::mkdir::{missing_ancestors, mkdirs};
use crate::action::write::{clear_way, resolve_write};
use crate::action::{ops_of, Resolved};
use crate::fs::{below, text_of_file, without, PathView, Tree};
use crate::op::{inverse_of, OpView};
use super::twice::{run_ends_with, run_of_one, run_takes_places};
use super::undo::{copy_is_removed, removal_is_undone, same_at};
use super::{effect, empty_file, file_of, moved, run};

verus! {

/// What two operations leave when they run one after the other.
pub proof fn run_of_two(tree: Tree, first: OpView, then: OpView, places: Seq<PathView>)
    requires
        places.len() > 1,
    ensures
        run(tree, seq![first, then], places) == match effect(tree, first, places[0]) {
            Some((next, _)) => match effect(next, then, places[1]) {
                Some((last, _)) => Some(last),
                None => None,
            },
            None => None,
        },
{
    assert(seq![first, then].drop_first() == seq![then]);
    match effect(tree, first, places[0]) {
        Some((next, _)) => {
            run_of_one(next, then, places.drop_first());
        },
        None => {},
    }
}

/// A write leaves its text: once the operations of a write have run through,
/// the file at the destination reads as the contents of the write, whatever
/// stood there before.
pub proof fn write_leaves_the_text(
    tree: Tree,
    dest: PathView,
    contents: Seq<char>,
    places: Seq<PathView>,
)
    requires
        run(tree, ops_of(resolve_write(tree, dest, contents)), places) is Some,
    ensures
        text_of_file(
            run(tree, ops_of(resolve_write(tree, dest, contents)), places).unwrap(),
            dest,
        ) == Some(contents),
{
    let ops = ops_of(resolve_write(tree, dest, contents));
    let write = OpView::Write { path: dest, contents: encode_utf8(contents) };
    assert(ops == clear_way(tree, dest) + mkdirs(missing_ancestors(tree, dest)) + seq![write]);
    assert(ops.last() == write);
    let (mid, at) = run_ends_with(tree, ops, places);
    encode_utf8_valid_utf8(contents);
    encode_utf8_decode_utf8(contents);
}

/// The write of a new file changes nothing else: where nothing stands at the
/// destination and no directory above it is missing, the file is created and
/// written, and every other path is as it was, but for the place at which the
/// write has kept the empty file that it found.
pub proof fn write_of_a_new_file_changes_nothing_else(
    tree: Tree,
    dest: PathView,
    contents: Seq<char>,
    places: Seq<PathView>,
)
    requires
        !tree.dom().contains(dest),
        missing_ancestors(tree, dest).len() == 0,
        run(tree, ops_of(resolve_write(tree, dest, contents)), places) is Some,
    ensures
        places.len() > 1,
        run(tree, ops_of(resolve_write(tree, dest, contents)), places).unwrap() == tree.insert(
            places[1],
            empty_file(),
        ).insert(dest, file_of(encode_utf8(contents))),
        forall|p: PathView|
            p != dest && p != places[1] ==> same_at(
                run(tree, ops_of(resolve_write(tree, dest, contents)), places).unwrap(),
                tree,
                p,
            ),
{
    let ops = ops_of(resolve_write(tree, dest, contents));
    let create = OpView::Create { path: dest };
    let write = OpView::Write { path: dest, contents: encode_utf8(contents) };
    assert(mkdirs(missing_ancestors(tree, dest)) == Seq::<OpView>::empty());
    assert(ops == seq![create, write]);
    run_takes_places(tree, ops, places);
    run_of_two(tree, create, write, places);
    let after = run(tree, ops, places).unwrap();
    assert(after == tree.insert(places[1], empty_file()).insert(
        dest,
        file_of(encode_utf8(contents)),
    ));
}

/// Whether `op` is a link or a copy that puts something at `dest`.
pub open spec fn puts_at(op: OpView, dest: PathView) -> bool {
    match op {
        OpView::Link { dest: to, .. } => to == dest,
        OpView::Copy { dest: to, .. } => to == dest,
        _ => false,
    }
}

/// An overwritten destination comes back from its backup. Where a link or a
/// copy has removed what stood at the destination and put itself there, the
/// inverses of the two operations, the newest first, can be applied, and what
/// they leave is the first tree again at the destination and at every path
/// below it. The inverse of the removal is the one that names the place at
/// which the removal has kept what it took.
pub proof fn overwritten_comes_back(
    tree: Tree,
    dest: PathView,
    dir: bool,
    last: OpView,
    places: Seq<PathView>,
    spares: Seq<PathView>,
)
    requires
        puts_at(last, dest),
        run(tree, ops_of(place(tree, dest, Some(dir), last)), places) is Some,
        spares.len() > 1,
    ensures
        places.len() > 1,
        effect(tree, OpView::Rm { path: dest, dir }, places[0]) is Some,
        effect(tree, OpView::Rm { path: dest, dir }, places[0]).unwrap().1 == Some(places[0]),
        inverse_of(last, None) is Some,
        run(
            run(tree, ops_of(place(tree, dest, Some(dir), last)), places).unwrap(),
            seq![
                inverse_of(last, None).unwrap(),
                OpView::RmUndo { path: dest, dir, backup: Some(places[0]) },
            ],
            spares,
        ) is Some,
        forall|p: PathView|
            below(dest, p) ==> same_at(
                run(
                    run(tree, ops_of(place(tree, dest, Some(dir), last)), places).unwrap(),
                    seq![
                        inverse_of(last, None).unwrap(),
                        OpView::RmUndo { path: dest, dir, backup: Some(places[0]) },
                    ],
                    spares,
                ).unwrap(),
                tree,
                p,
            ),
{
    let rm = OpView::Rm { path: dest, dir };
    let ops = ops_of(place(tree, dest, Some(dir), last));
    assert(ops == seq![rm, last]);
    run_takes_places(tree, ops, places);
    run_of_two(tree, rm, last, places);
    let removed = moved(tree, dest, places[0]);
    let linked = run(tree, ops, places).unwrap();
    let unlink = inverse_of(last, None).unwrap();
    let restore = OpView::RmUndo { path: dest, dir, backup: Some(places[0]) };
    removal_is_undone(tree, dest, dir, places[0]);
    assert(below(dest, dest));
    match last {
        OpView::Copy { src, dest: to, dir: whole } => {
            copy_is_removed(removed, src, dest, whole);
            assert(without(linked, dest) =~= removed);
        },
        _ => {},
    }
    assert(effect(linked, unlink, spares[0]) is Some);
    assert(effect(linked, unlink, spares[0]).unwrap().0 == removed);
    run_of_two(linked, unlink, restore, spares);
}

} // verus!
