//! Planning a deployment: the actions of several packages, in dependency order.

use vstd::prelude::*;
use crate::action::{Action, ActionView};
use crate::fs::PathView;
use crate::graph::action::{action_of, known_for, yields, ActionIter, PathError};
use crate::graph::PackageData;
use crate::path::{clean_names, clean_path, clean_stays, parse_names, Path};

verus! {

/// What each directive of `package` comes to when it is deployed to `dest`.
pub open spec fn package_actions(dest: PathView, package: PackageData) -> Seq<
    Result<ActionView, Seq<char>>,
> {
    Seq::new(
        package.spec.directives@.len(),
        |i: int| action_of(package.path@, dest, package.spec.directives@[i]),
    )
}

/// What the directives of all of `packages` come to, package by package.
pub open spec fn planned(dest: PathView, packages: Seq<PackageData>) -> Seq<
    Result<ActionView, Seq<char>>,
>
    decreases packages.len(),
{
    if packages.len() == 0 {
        Seq::empty()
    } else {
        planned(dest, packages.drop_last()) + package_actions(dest, packages.last())
    }
}

/// Whether each of `results` is what the plan says at its place.
pub open spec fn follows<'p>(
    results: Seq<Result<Action<'p>, PathError>>,
    plan: Seq<Result<ActionView, Seq<char>>>,
) -> bool {
    &&& results.len() == plan.len()
    &&& forall|i: int| 0 <= i < results.len() ==> yields(#[trigger] results[i], plan[i])
}

/// Whether it is known what the texts of the first `n` directives of `package`
/// come to, in case they are clean.
pub open spec fn known_upto(dest: PathView, package: PackageData, n: int) -> bool {
    forall|j: int|
        0 <= j < n ==> known_for(package.path@, dest, #[trigger] package.spec.directives@[j])
}

/// Whether it is known what the texts of all directives of `packages` come to,
/// in case they are clean.
pub open spec fn all_known(dest: PathView, packages: Seq<PackageData>) -> bool {
    forall|i: int|
        0 <= i < packages.len() ==> known_upto(
            dest,
            #[trigger] packages[i],
            packages[i].spec.directives@.len() as int,
        )
}

/// Deploys packages to one destination root.
#[derive(Debug, PartialEq)]
pub struct Linker {
    dest: Path,
}

impl Linker {
    /// The root directory that packages are deployed to.
    pub closed spec fn dest(&self) -> PathView {
        self.dest@
    }

    /// A linker that deploys to `dest`, once that is cleaned. There is none where
    /// `dest` does not come to a clean absolute path. A text that spells a
    /// clean absolute path is taken as that path.
    pub fn new(dest: &str) -> (linker: Option<Self>)
        ensures
            linker is Some <==> clean_names(dest@) is Some,
            linker matches Some(l) ==> clean_names(dest@) == Some(l.dest()),
            clean_stays(dest@),
            parse_names(dest@) is Some ==> linker is Some && clean_names(dest@) == parse_names(
                dest@,
            ),
    {
        match clean_path(dest) {
            Some(dest) => Some(Self { dest }),
            None => None,
        }
    }

    /// The actions of `order`, which lists the packages with each one behind
    /// those that it depends on: all actions of the first package, then all of
    /// the second, and so on, each package's in the order of its directives.
    pub fn link<'p>(&self, order: &'p Vec<PackageData>) -> (actions: Vec<
        Result<Action<'p>, PathError>,
    >)
        ensures
            follows(actions@, planned(self.dest(), order@)),
            all_known(self.dest(), order@),
    {
        let mut actions: Vec<Result<Action<'p>, PathError>> = Vec::new();
        let mut i: usize = 0;
        assert(order@.take(0) == Seq::<PackageData>::empty());
        while i < order.len()
            invariant
                i <= order@.len(),
                follows(actions@, planned(self.dest(), order@.take(i as int))),
                all_known(self.dest(), order@.take(i as int)),
            decreases order@.len() - i,
        {
            let package = &order[i];
            let ghost before = planned(self.dest(), order@.take(i as int));
            let ghost all = package_actions(self.dest(), *package);
            let mut iter = Self::link_one(&self.dest, package);
            let ghost directives = package.spec.directives@;
            let ghost mut k: int = 0;
            assert(directives.skip(0) == directives);
            loop
                invariant
                    0 <= k <= directives.len(),
                    iter.rest() == directives.skip(k),
                    iter.package() == package.path@,
                    iter.dest() == self.dest(),
                    directives == package.spec.directives@,
                    all == package_actions(self.dest(), *package),
                    follows(actions@, before + all.take(k)),
                    known_upto(self.dest(), *package, k),
                ensures
                    follows(actions@, before + all),
                    known_upto(self.dest(), *package, directives.len() as int),
                decreases directives.len() - k,
            {
                match iter.next() {
                    Some(res) => {
                        assert(directives.skip(k).drop_first() == directives.skip(k + 1));
                        assert(directives.skip(k)[0] == directives[k]);
                        assert(before + all.take(k + 1) == (before + all.take(k)).push(all[k]));
                        actions.push(res);
                        proof {
                            k = k + 1;
                        }
                    },
                    None => {
                        assert(all.take(k) == all);
                        break ;
                    },
                }
            }
            assert(order@.take(i + 1).drop_last() == order@.take(i as int));
            assert forall|n: int| 0 <= n < i + 1 implies known_upto(
                self.dest(),
                #[trigger] order@.take(i + 1)[n],
                order@.take(i + 1)[n].spec.directives@.len() as int,
            ) by {
                if n < i {
                    assert(order@.take(i + 1)[n] == order@.take(i as int)[n]);
                }
            }
            i = i + 1;
        }
        assert(order@.take(i as int) == order@);
        actions
    }

    /// The actions of one package.
    fn link_one<'p>(dest: &Path, package: &'p PackageData) -> (iter: ActionIter<'p>)
        ensures
            iter.package() == package.path@,
            iter.dest() == dest@,
            iter.rest() == package.spec.directives@,
    {
        package.action_iter(dest)
    }
}

} // verus!
