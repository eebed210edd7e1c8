//! A read-only view of the filesystem.
//!
//! Every decision of a resolver goes through an [`FsProbe`]: a record of what was
//! found at the paths that matter. A path that the probe does not hold is absent;
//! a path that could not be looked at, for want of permission, is left out and so
//! treated as absent too.

use vstd::prelude::*;
use crate::path::Path;

verus! {

/// The names of a path, from the root down.
pub type PathView = Seq<Seq<char>>;

/// What kind of file stands at a path. Symbolic links are not followed.
#[derive(Debug, Clone, Copy, PartialEq, Eq)]
pub enum FileKind {
    /// A regular file.
    File,
    /// A directory.
    Dir,
    /// A symbolic link.
    Symlink,
    /// Anything else: a socket, a device, a pipe.
    Other,
}

impl FileKind {
    pub fn is_file(&self) -> (b: bool)
        ensures
            b == (*self is File),
    {
        match self {
            FileKind::File => true,
            _ => false,
        }
    }

    pub fn is_dir(&self) -> (b: bool)
        ensures
            b == (*self is Dir),
    {
        match self {
            FileKind::Dir => true,
            _ => false,
        }
    }

    pub fn is_symlink(&self) -> (b: bool)
        ensures
            b == (*self is Symlink),
    {
        match self {
            FileKind::Symlink => true,
            _ => false,
        }
    }
}

/// What was found at one path.
#[derive(Debug, PartialEq)]
pub enum Node {
    /// A regular file, with its contents where they could be read as text.
    File { contents: Option<String> },
    /// A directory.
    Dir,
    /// A symbolic link, with its target where that is a clean absolute path.
    Symlink { target: Option<Path> },
    /// Anything else.
    Other,
}

/// A [`Node`] as a plain value.
pub enum NodeView {
    File { contents: Option<Seq<char>> },
    Dir,
    Symlink { target: Option<PathView> },
    Other,
}

impl View for Node {
    type V = NodeView;

    open spec fn view(&self) -> NodeView {
        match self {
            Node::File { contents: Some(text) } => NodeView::File { contents: Some(text@) },
            Node::File { contents: None } => NodeView::File { contents: None },
            Node::Dir => NodeView::Dir,
            Node::Symlink { target: Some(path) } => NodeView::Symlink { target: Some(path@) },
            Node::Symlink { target: None } => NodeView::Symlink { target: None },
            Node::Other => NodeView::Other,
        }
    }
}

impl Clone for Node {
    fn clone(&self) -> (copy: Self)
        ensures
            copy@ == self@,
    {
        match self {
            Node::File { contents: Some(text) } => Node::File { contents: Some(text.clone()) },
            Node::File { contents: None } => Node::File { contents: None },
            Node::Dir => Node::Dir,
            Node::Symlink { target: Some(path) } => Node::Symlink { target: Some(path.clone()) },
            Node::Symlink { target: None } => Node::Symlink { target: None },
            Node::Other => Node::Other,
        }
    }
}

impl Node {
    /// Whether the two nodes are the same.
    pub fn same(&self, other: &Node) -> (same: bool)
        ensures
            same == (self@ == other@),
    {
        match (self, other) {
            (Node::File { contents: Some(a) }, Node::File { contents: Some(b) }) => *a == *b,
            (Node::File { contents: None }, Node::File { contents: None }) => true,
            (Node::Dir, Node::Dir) => true,
            (Node::Symlink { target: Some(a) }, Node::Symlink { target: Some(b) }) => *a == *b,
            (Node::Symlink { target: None }, Node::Symlink { target: None }) => true,
            (Node::Other, Node::Other) => true,
            _ => false,
        }
    }
}

/// A filesystem as a plain value: the node at each path that exists.
pub type Tree = Map<PathView, NodeView>;

/// The kind of a node.
pub open spec fn kind_of(node: NodeView) -> FileKind {
    match node {
        NodeView::File { .. } => FileKind::File,
        NodeView::Dir => FileKind::Dir,
        NodeView::Symlink { .. } => FileKind::Symlink,
        NodeView::Other => FileKind::Other,
    }
}

/// The kind of the file at `path`, if there is one.
pub open spec fn meta_of(tree: Tree, path: PathView) -> Option<FileKind> {
    if tree.dom().contains(path) {
        Some(kind_of(tree[path]))
    } else {
        None
    }
}

/// The target of the symbolic link at `path`, if there is one and it is known.
pub open spec fn link_of(tree: Tree, path: PathView) -> Option<PathView> {
    if tree.dom().contains(path) {
        match tree[path] {
            NodeView::Symlink { target } => target,
            _ => None,
        }
    } else {
        None
    }
}

/// The contents of the regular file at `path`, if there is one and they are known.
pub open spec fn text_of_file(tree: Tree, path: PathView) -> Option<Seq<char>> {
    if tree.dom().contains(path) {
        match tree[path] {
            NodeView::File { contents } => contents,
            _ => None,
        }
    } else {
        None
    }
}

/// Whether `path` is `dir` or lies below it.
pub open spec fn below(dir: PathView, path: PathView) -> bool {
    dir.is_prefix_of(path)
}

/// Whether nothing stands at `path` or below it.
pub open spec fn vacant(tree: Tree, path: PathView) -> bool {
    forall|p: PathView| below(path, p) ==> !tree.dom().contains(p)
}

/// Whether nothing stands below `path`, whatever stands at it.
pub open spec fn alone(tree: Tree, path: PathView) -> bool {
    forall|p: PathView| below(path, p) && p != path ==> !tree.dom().contains(p)
}

/// The path that lies below `to` as `path` lies below `from`.
pub open spec fn rebased(path: PathView, from: PathView, to: PathView) -> PathView {
    to + path.skip(from.len() as int)
}

/// The tree without what stands at `path` and below it.
pub open spec fn without(tree: Tree, path: PathView) -> Tree {
    Map::new(|p: PathView| tree.dom().contains(p) && !below(path, p), |p: PathView| tree[p])
}

/// Whether `p` gets a node when what stands at and below `from` is copied to `to`.
pub open spec fn copied_to(tree: Tree, from: PathView, to: PathView, p: PathView) -> bool {
    below(to, p) && tree.dom().contains(rebased(p, to, from))
}

/// The tree with a copy at `to` of what stands at `from` and below it.
pub open spec fn with_copy(tree: Tree, from: PathView, to: PathView) -> Tree {
    Map::new(
        |p: PathView| tree.dom().contains(p) || copied_to(tree, from, to, p),
        |p: PathView|
            if copied_to(tree, from, to, p) {
                tree[rebased(p, to, from)]
            } else {
                tree[p]
            },
    )
}

/// A path that is moved from one directory to another and back is where it was.
pub proof fn rebased_back(path: PathView, from: PathView, to: PathView)
    requires
        below(from, path),
    ensures
        below(to, rebased(path, from, to)),
        rebased(rebased(path, from, to), to, from) == path,
{
    let there = rebased(path, from, to);
    assert(there.skip(to.len() as int) == path.skip(from.len() as int));
    assert(from + path.skip(from.len() as int) == path);
}

/// The view of a finding: the node that was found, if one was.
pub open spec fn found(node: Option<Node>) -> Option<NodeView> {
    match node {
        Some(n) => Some(n@),
        None => None,
    }
}

/// The tree that a list of findings describes: a later finding replaces an
/// earlier one for the same path, and a finding of nothing removes it.
pub open spec fn tree_of(entries: Seq<(Path, Option<Node>)>) -> Tree
    decreases entries.len(),
{
    if entries.len() == 0 {
        Map::empty()
    } else {
        match entries.last().1 {
            Some(node) => tree_of(entries.drop_last()).insert(entries.last().0@, node@),
            None => tree_of(entries.drop_last()).remove(entries.last().0@),
        }
    }
}

/// Every path at which a tree holds a node is the path of one of its findings.
proof fn dom_is_found(entries: Seq<(Path, Option<Node>)>, path: PathView)
    requires
        tree_of(entries).dom().contains(path),
    ensures
        exists|i: int| 0 <= i < entries.len() && (#[trigger] entries[i]).0@ == path,
    decreases entries.len(),
{
    if entries.len() > 0 {
        if entries.last().0@ == path {
            assert(entries[entries.len() - 1].0@ == path);
        } else {
            dom_is_found(entries.drop_last(), path);
            let i = choose|i: int|
                0 <= i < entries.drop_last().len() && (#[trigger] entries.drop_last()[i]).0@
                    == path;
            assert(entries[i].0@ == path);
        }
    }
}

/// The latest finding for `path` among `entries`.
fn find_in<'a>(entries: &'a Vec<(Path, Option<Node>)>, path: &Path) -> (node: Option<&'a Node>)
    ensures
        node is Some <==> tree_of(entries@).dom().contains(path@),
        node matches Some(n) ==> tree_of(entries@)[path@] == n@,
{
    let mut latest: Option<&Node> = None;
    let mut i: usize = 0;
    assert(entries@.take(0) == Seq::<(Path, Option<Node>)>::empty());
    while i < entries.len()
        invariant
            i <= entries@.len(),
            latest is Some <==> tree_of(entries@.take(i as int)).dom().contains(path@),
            latest matches Some(n) ==> tree_of(entries@.take(i as int))[path@] == n@,
        decreases entries@.len() - i,
    {
        assert(entries@.take(i + 1).drop_last() == entries@.take(i as int));
        if entries[i].0 == *path {
            latest = match &entries[i].1 {
                Some(node) => Some(node),
                None => None,
            };
        }
        i = i + 1;
    }
    assert(entries@.take(i as int) == entries@);
    latest
}

/// A view of the filesystem: what stands at the paths that were looked at.
#[derive(Debug)]
pub struct FsProbe {
    entries: Vec<(Path, Option<Node>)>,
}

impl View for FsProbe {
    type V = Tree;

    closed spec fn view(&self) -> Tree {
        tree_of(self.entries@)
    }
}

impl FsProbe {
    /// A view of an empty filesystem.
    pub fn new() -> (probe: FsProbe)
        ensures
            probe@ == Map::<PathView, NodeView>::empty(),
    {
        FsProbe { entries: Vec::new() }
    }

    /// Records that `node` stands at `path`.
    pub fn insert(&mut self, path: Path, node: Node)
        ensures
            final(self)@ == old(self)@.insert(path@, node@),
    {
        self.entries.push((path, Some(node)));
        assert(self.entries@.drop_last() == old(self).entries@);
    }

    /// Records that nothing stands at `path`.
    pub fn remove(&mut self, path: &Path)
        ensures
            final(self)@ == old(self)@.remove(path@),
    {
        self.entries.push((path.clone(), None));
        assert(self.entries@.drop_last() == old(self).entries@);
    }

    /// The latest finding for `path`.
    fn find(&self, path: &Path) -> (node: Option<&Node>)
        ensures
            node is Some <==> self@.dom().contains(path@),
            node matches Some(n) ==> self@[path@] == n@,
    {
        find_in(&self.entries, path)
    }

    /// The node at `path`, if one stands there.
    pub fn node(&self, path: &Path) -> (node: Option<&Node>)
        ensures
            node is Some <==> self@.dom().contains(path@),
            node matches Some(n) ==> self@[path@] == n@,
    {
        self.find(path)
    }

    /// The kind of the file at `path`. Symbolic links are not followed.
    pub fn meta(&self, path: &Path) -> (kind: Option<FileKind>)
        ensures
            kind == meta_of(self@, path@),
    {
        match self.find(path) {
            Some(Node::File { .. }) => Some(FileKind::File),
            Some(Node::Dir) => Some(FileKind::Dir),
            Some(Node::Symlink { .. }) => Some(FileKind::Symlink),
            Some(Node::Other) => Some(FileKind::Other),
            None => None,
        }
    }

    /// The target of the symbolic link at `path`.
    pub fn read_link(&self, path: &Path) -> (target: Option<&Path>)
        ensures
            target is Some <==> link_of(self@, path@) is Some,
            target matches Some(t) ==> link_of(self@, path@) == Some(t@),
    {
        match self.find(path) {
            Some(Node::Symlink { target: Some(target) }) => Some(target),
            _ => None,
        }
    }

    /// The contents of the regular file at `path`.
    pub fn read_to_string(&self, path: &Path) -> (text: Option<&String>)
        ensures
            text is Some <==> text_of_file(self@, path@) is Some,
            text matches Some(t) ==> text_of_file(self@, path@) == Some(t@),
    {
        match self.find(path) {
            Some(Node::File { contents: Some(text) }) => Some(text),
            _ => None,
        }
    }

    /// Whether anything stands at `path`, be it a dangling symbolic link.
    pub fn exists_symlink(&self, path: &Path) -> (exists: bool)
        ensures
            exists == self@.dom().contains(path@),
            exists == meta_of(self@, path@).is_some(),
    {
        self.find(path).is_some()
    }

    /// Whether nothing stands at `path` or below it.
    pub fn is_vacant(&self, path: &Path) -> (res: bool)
        ensures
            res == vacant(self@, path@),
    {
        let mut i: usize = 0;
        while i < self.entries.len()
            invariant
                i <= self.entries@.len(),
                forall|j: int|
                    0 <= j < i && below(path@, (#[trigger] self.entries@[j]).0@)
                        ==> !self@.dom().contains(self.entries@[j].0@),
            decreases self.entries@.len() - i,
        {
            if self.entries[i].0.starts_with(path) && self.find(&self.entries[i].0).is_some() {
                assert(below(path@, self.entries@[i as int].0@));
                return false;
            }
            i = i + 1;
        }
        assert forall|p: PathView| below(path@, p) implies !self@.dom().contains(p) by {
            if self@.dom().contains(p) {
                dom_is_found(self.entries@, p);
            }
        }
        true
    }

    /// Whether nothing stands below `path`, whatever stands at it.
    pub fn is_alone(&self, path: &Path) -> (res: bool)
        ensures
            res == alone(self@, path@),
    {
        let mut i: usize = 0;
        while i < self.entries.len()
            invariant
                i <= self.entries@.len(),
                forall|j: int|
                    0 <= j < i && below(path@, (#[trigger] self.entries@[j]).0@)
                        && self.entries@[j].0@ != path@ ==> !self@.dom().contains(
                        self.entries@[j].0@,
                    ),
            decreases self.entries@.len() - i,
        {
            if self.entries[i].0.starts_with(path) && self.entries[i].0 != *path && self.find(
                &self.entries[i].0,
            ).is_some() {
                assert(below(path@, self.entries@[i as int].0@));
                return false;
            }
            i = i + 1;
        }
        assert forall|p: PathView| below(path@, p) && p != path@ implies !self@.dom().contains(
            p,
        ) by {
            if self@.dom().contains(p) {
                dom_is_found(self.entries@, p);
            }
        }
        true
    }

    /// Whether below `to` stands exactly a copy of what stands at `from` and
    /// below it.
    pub fn holds_copy(&self, from: &Path, to: &Path) -> (res: bool)
        ensures
            res == is_copy(self@, from@, to@),
    {
        let mut i: usize = 0;
        while i < self.entries.len()
            invariant
                i <= self.entries@.len(),
                forall|j: int|
                    0 <= j < i ==> copy_seen_at(self@, from@, to@, (#[trigger] self.entries@[j]).0@),
            decreases self.entries@.len() - i,
        {
            let key = &self.entries[i].0;
            if key.starts_with(to) {
                match self.find(key) {
                    Some(node) => {
                        let source = key.rebase(to.len(), from);
                        let matches = match self.find(&source) {
                            Some(model) => model.same(node),
                            None => false,
                        };
                        if !matches {
                            assert(!agrees_at(self@, from@, to@, key@));
                            return false;
                        }
                    },
                    None => {},
                }
            }
            if key.starts_with(from) && self.find(key).is_some() {
                let there = key.rebase(from.len(), to);
                proof {
                    rebased_back(key@, from@, to@);
                }
                if self.find(&there).is_none() {
                    assert(!agrees_at(self@, from@, to@, there@));
                    return false;
                }
            }
            i = i + 1;
        }
        assert forall|p: PathView| below(to@, p) implies #[trigger] agrees_at(
            self@,
            from@,
            to@,
            p,
        ) by {
            let r = rebased(p, to@, from@);
            rebased_back(p, to@, from@);
            if self@.dom().contains(p) {
                dom_is_found(self.entries@, p);
                let j = choose|j: int|
                    0 <= j < self.entries@.len() && (#[trigger] self.entries@[j]).0@ == p;
                assert(copy_seen_at(self@, from@, to@, self.entries@[j].0@));
            } else if self@.dom().contains(r) {
                dom_is_found(self.entries@, r);
                let j = choose|j: int|
                    0 <= j < self.entries@.len() && (#[trigger] self.entries@[j]).0@ == r;
                assert(copy_seen_at(self@, from@, to@, self.entries@[j].0@));
            }
        }
        true
    }

    /// Removes what stands at `path` and below it.
    pub fn remove_below(&mut self, path: &Path)
        ensures
            final(self)@ == without(old(self)@, path@),
    {
        let ghost first = self.entries@;
        let ghost tree = self@;
        let n = self.entries.len();
        let mut i: usize = 0;
        while i < n
            invariant
                i <= n == first.len(),
                tree == tree_of(first),
                self.entries@.len() >= n,
                self.entries@.take(n as int) == first,
                forall|p: PathView| #[trigger] thinned_at(tree, self@, path@, p),
                forall|j: int|
                    0 <= j < i && below(path@, (#[trigger] first[j]).0@) ==> !self@.dom().contains(
                        first[j].0@,
                    ),
            decreases n - i,
        {
            assert(self.entries@[i as int] == first[i as int]);
            if self.entries[i].0.starts_with(path) {
                let key = self.entries[i].0.clone();
                let ghost before = self.entries@;
                let ghost cur = self@;
                self.entries.push((key, None));
                assert(self.entries@.drop_last() == before);
                assert(self.entries@.take(n as int) == before.take(n as int));
                assert(self@ == cur.remove(key@));
                assert forall|p: PathView| #[trigger] thinned_at(tree, self@, path@, p) by {
                    assert(thinned_at(tree, cur, path@, p));
                }
            }
            i = i + 1;
        }
        assert forall|p: PathView| below(path@, p) implies !self@.dom().contains(p) by {
            assert(thinned_at(tree, self@, path@, p));
            if tree.dom().contains(p) {
                dom_is_found(first, p);
                let j = choose|j: int| 0 <= j < first.len() && (#[trigger] first[j]).0@ == p;
                assert(!self@.dom().contains(first[j].0@));
            }
        }
        let ghost goal = without(tree, path@);
        assert forall|p: PathView| #[trigger] self@.dom().contains(p) == goal.dom().contains(p) by {
            assert(thinned_at(tree, self@, path@, p));
        }
        assert(self@.dom() =~= goal.dom());
        assert forall|p: PathView| self@.dom().contains(p) implies #[trigger] self@[p]
            == goal[p] by {
            assert(thinned_at(tree, self@, path@, p));
        }
        assert(self@ =~= goal);
    }

    /// Copies what stands at `from` and below it to `to`.
    pub fn copy_below(&mut self, from: &Path, to: &Path)
        ensures
            final(self)@ == with_copy(old(self)@, from@, to@),
    {
        let ghost first = self.entries@;
        let ghost tree = self@;
        let n = self.entries.len();
        let mut added: Vec<(Path, Option<Node>)> = Vec::new();
        let mut i: usize = 0;
        assert(first + added@ == first);
        while i < n
            invariant
                i <= n == first.len(),
                self.entries@ == first,
                tree == tree_of(first),
                forall|p: PathView|
                    #[trigger] thickened_at(tree, tree_of(first + added@), from@, to@, p),
                forall|j: int|
                    0 <= j < i && below(from@, (#[trigger] first[j]).0@) && tree.dom().contains(
                        first[j].0@,
                    ) ==> is_copy_at(
                        tree,
                        tree_of(first + added@),
                        from@,
                        to@,
                        rebased(first[j].0@, from@, to@),
                    ),
            decreases n - i,
        {
            let key = &self.entries[i].0;
            if key.starts_with(from) {
                match find_in(&self.entries, key) {
                    Some(node) => {
                        let there = key.rebase(from.len(), to);
                        let ghost before = first + added@;
                        proof {
                            rebased_back(key@, from@, to@);
                        }
                        added.push((there, Some(node.clone())));
                        let ghost cur = tree_of(first + added@);
                        assert((first + added@).drop_last() == before);
                        assert(cur == tree_of(before).insert(there@, tree[key@]));
                        assert(rebased(there@, to@, from@) == key@);
                        assert(copied_to(tree, from@, to@, there@));
                        assert forall|p: PathView| #[trigger]
                            thickened_at(tree, cur, from@, to@, p) by {
                            assert(thickened_at(tree, tree_of(before), from@, to@, p));
                        }
                        assert forall|j: int|
                            0 <= j <= i && below(from@, (#[trigger] first[j]).0@)
                                && tree.dom().contains(first[j].0@) implies is_copy_at(
                            tree,
                            cur,
                            from@,
                            to@,
                            rebased(first[j].0@, from@, to@),
                        ) by {
                            rebased_back(first[j].0@, from@, to@);
                            if j < i {
                                assert(is_copy_at(
                                    tree,
                                    tree_of(before),
                                    from@,
                                    to@,
                                    rebased(first[j].0@, from@, to@),
                                ));
                            }
                        }
                    },
                    None => {},
                }
            }
            i = i + 1;
        }
        let ghost all = first + added@;
        self.entries.append(&mut added);
        assert(self.entries@ == all);
        let ghost goal = with_copy(tree, from@, to@);
        assert forall|p: PathView|
            (#[trigger] self@.dom().contains(p)) == goal.dom().contains(p) && (
            self@.dom().contains(p) ==> self@[p] == goal[p]) by {
            assert(thickened_at(tree, tree_of(all), from@, to@, p));
            if copied_to(tree, from@, to@, p) {
                let r = rebased(p, to@, from@);
                dom_is_found(first, r);
                let j = choose|j: int| 0 <= j < first.len() && (#[trigger] first[j]).0@ == r;
                rebased_back(p, to@, from@);
                assert(rebased(first[j].0@, from@, to@) == p);
                assert(is_copy_at(tree, tree_of(all), from@, to@, p));
            }
        }
        assert(self@.dom() =~= goal.dom());
        assert(self@ =~= goal);
    }
}

/// Whether `tree` holds at `p`, which lies below `to`, what it holds at the
/// place that lies below `from` in the same way: the same node, or none.
pub open spec fn agrees_at(tree: Tree, from: PathView, to: PathView, p: PathView) -> bool {
    &&& tree.dom().contains(p) == tree.dom().contains(rebased(p, to, from))
    &&& tree.dom().contains(p) ==> tree[p] == tree[rebased(p, to, from)]
}

/// Whether below `to` stands exactly a copy of what stands at `from` and below it.
pub open spec fn is_copy(tree: Tree, from: PathView, to: PathView) -> bool {
    forall|p: PathView| below(to, p) ==> #[trigger] agrees_at(tree, from, to, p)
}

/// What the search for a copy has seen at the path `key`: if it lies below `to`
/// and something stands there, the same stands where it is copied from; if it
/// lies below `from` and something stands there, something stands where it is
/// copied to.
spec fn copy_seen_at(tree: Tree, from: PathView, to: PathView, key: PathView) -> bool {
    &&& below(to, key) && tree.dom().contains(key) ==> tree.dom().contains(
        rebased(key, to, from),
    ) && tree[rebased(key, to, from)] == tree[key]
    &&& below(from, key) && tree.dom().contains(key) ==> tree.dom().contains(
        rebased(key, from, to),
    )
}

/// While what stands below `path` is removed from `tree`, `now` holds nothing
/// new or changed at `p`, and still holds what does not lie below `path`.
spec fn thinned_at(tree: Tree, now: Tree, path: PathView, p: PathView) -> bool {
    &&& now.dom().contains(p) ==> tree.dom().contains(p) && now[p] == tree[p]
    &&& tree.dom().contains(p) && !below(path, p) ==> now.dom().contains(p)
}

/// `now` holds at `p` the copy of what `tree` holds at the place that `p` is
/// copied from.
spec fn is_copy_at(tree: Tree, now: Tree, from: PathView, to: PathView, p: PathView) -> bool {
    now.dom().contains(p) && now[p] == tree[rebased(p, to, from)]
}

/// While what stands below `from` in `tree` is copied to `to`, `now` holds at
/// `p` what `tree` holds there, or the copy that belongs there.
spec fn thickened_at(tree: Tree, now: Tree, from: PathView, to: PathView, p: PathView) -> bool {
    ||| (now.dom().contains(p) == tree.dom().contains(p) && (tree.dom().contains(p) ==> now[p]
        == tree[p]))
    ||| (copied_to(tree, from, to, p) && is_copy_at(tree, now, from, to, p))
}

} // verus!
