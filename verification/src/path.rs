//! Absolute, lexically clean paths.
//!
//! A [`Path`] is the list of names that lead from the root to a file. Its text
//! starts with a slash and puts one slash between two names; the root is a lone
//! slash. No name is empty, `.` or `..`, and none holds a slash, so two paths
//! are the same file name exactly when their names are equal.

use vstd::prelude::*;
use vstd::string::*;
use vstd::std_specs::cmp::PartialEqSpecImpl;

verus! {

/// Whether `name` can be one step of a clean path.
pub open spec fn valid_name(name: Seq<char>) -> bool {
    &&& name.len() > 0
    &&& !name.contains('/')
    &&& name != seq!['.']
    &&& name != seq!['.', '.']
}

/// The pieces of `text` that its slashes separate, in order. A text with `n`
/// slashes has `n + 1` pieces, some of which may be empty.
pub open spec fn split(text: Seq<char>) -> Seq<Seq<char>>
    decreases text.len(),
{
    if text.len() == 0 {
        seq![Seq::empty()]
    } else {
        let head = split(text.drop_last());
        if text.last() == '/' {
            head.push(Seq::empty())
        } else {
            head.drop_last().push(head.last().push(text.last()))
        }
    }
}

/// Whether every one of `names` is a valid name.
pub open spec fn valid_names(names: Seq<Seq<char>>) -> bool {
    forall|i: int| 0 <= i < names.len() ==> valid_name(#[trigger] names[i])
}

/// The names of the clean absolute path that `text` spells, if it spells one.
pub open spec fn parse_names(text: Seq<char>) -> Option<Seq<Seq<char>>> {
    if text.len() == 0 || text[0] != '/' {
        None
    } else if text.len() == 1 {
        Some(Seq::empty())
    } else if valid_names(split(text.drop_first())) {
        Some(split(text.drop_first()))
    } else {
        None
    }
}

/// The names joined by slashes, with a slash in front of each.
pub open spec fn joined(names: Seq<Seq<char>>) -> Seq<char>
    decreases names.len(),
{
    if names.len() == 0 {
        Seq::empty()
    } else {
        joined(names.drop_last()) + seq!['/'] + names.last()
    }
}

/// The text of the path with the given names.
pub open spec fn text_of(names: Seq<Seq<char>>) -> Seq<char> {
    if names.len() == 0 {
        seq!['/']
    } else {
        joined(names)
    }
}

/// The views of a list of strings.
pub open spec fn views(names: Seq<String>) -> Seq<Seq<char>> {
    Seq::new(names.len(), |i: int| names[i]@)
}

/// An absolute, lexically clean path.
#[derive(Debug)]
pub struct Path {
    names: Vec<String>,
}

impl View for Path {
    type V = Seq<Seq<char>>;

    /// The names of the path, from the root down.
    closed spec fn view(&self) -> Seq<Seq<char>> {
        views(self.names@)
    }
}

impl Clone for Path {
    fn clone(&self) -> (copy: Self)
        ensures
            copy@ == self@,
    {
        self.prefix(self.names.len())
    }
}

impl PartialEq for Path {
    fn eq(&self, other: &Self) -> (same: bool) {
        if self.names.len() != other.names.len() {
            assert(self@.len() != other@.len());
            return false;
        }
        let mut i: usize = 0;
        while i < self.names.len()
            invariant
                i <= self.names@.len(),
                self.names@.len() == other.names@.len(),
                forall|j: int| 0 <= j < i ==> self.names@[j]@ == other.names@[j]@,
            decreases self.names@.len() - i,
        {
            if self.names[i] != other.names[i] {
                assert(self@[i as int] != other@[i as int]);
                return false;
            }
            i = i + 1;
        }
        assert(self@ =~= other@);
        true
    }
}

impl PartialEqSpecImpl for Path {
    open spec fn obeys_eq_spec() -> bool {
        true
    }

    open spec fn eq_spec(&self, other: &Self) -> bool {
        self@ == other@
    }
}

impl Path {
    #[verifier::type_invariant]
    spec fn well_formed(self) -> bool {
        valid_names(views(self.names@))
    }

    /// The root.
    pub fn root() -> (path: Path)
        ensures
            path@ == Seq::<Seq<char>>::empty(),
    {
        let path = Path { names: Vec::new() };
        assert(path@ =~= Seq::<Seq<char>>::empty());
        path
    }

    /// The number of names, each of which is valid.
    pub fn len(&self) -> (n: usize)
        ensures
            n == self@.len(),
            valid_names(self@),
    {
        proof {
            use_type_invariant(self);
        }
        self.names.len()
    }

    /// The name at place `i`, counted from the root.
    pub fn name(&self, i: usize) -> (name: &String)
        requires
            i < self@.len(),
        ensures
            name@ == self@[i as int],
    {
        &self.names[i]
    }

    /// The path made of the first `n` names: for `n` below the length, an ancestor.
    pub fn prefix(&self, n: usize) -> (path: Path)
        requires
            n <= self@.len(),
        ensures
            path@ == self@.take(n as int),
    {
        proof {
            use_type_invariant(self);
        }
        let mut names: Vec<String> = Vec::new();
        let mut i: usize = 0;
        while i < n
            invariant
                i <= n <= self.names@.len(),
                names@.len() == i,
                forall|j: int| 0 <= j < i ==> names@[j]@ == self.names@[j]@,
            decreases n - i,
        {
            names.push(self.names[i].clone());
            i = i + 1;
        }
        assert(views(names@) =~= views(self.names@).take(n as int));
        Path { names }
    }

    /// The path one step below this one, by the name `name`, if that is valid.
    pub fn child(&self, name: &str) -> (child: Option<Path>)
        ensures
            child is Some <==> valid_name(name@),
            child matches Some(c) ==> c@ == self@.push(name@),
    {
        if !Self::is_valid_name(name) {
            return None;
        }
        proof {
            use_type_invariant(self);
        }
        let mut names: Vec<String> = Vec::new();
        let mut i: usize = 0;
        while i < self.names.len()
            invariant
                i <= self.names@.len(),
                names@.len() == i,
                forall|j: int| 0 <= j < i ==> names@[j]@ == self.names@[j]@,
            decreases self.names@.len() - i,
        {
            names.push(self.names[i].clone());
            i = i + 1;
        }
        names.push(String::from_str(name));
        assert(views(names@) =~= views(self.names@).push(name@));
        Some(Path { names })
    }

    /// Whether this path is `dir` or lies below it.
    pub fn starts_with(&self, dir: &Path) -> (below: bool)
        ensures
            below == dir@.is_prefix_of(self@),
    {
        if dir.names.len() > self.names.len() {
            return false;
        }
        let mut i: usize = 0;
        while i < dir.names.len()
            invariant
                i <= dir.names@.len() <= self.names@.len(),
                forall|j: int| 0 <= j < i ==> self.names@[j]@ == dir.names@[j]@,
            decreases dir.names@.len() - i,
        {
            if self.names[i] != dir.names[i] {
                assert(self@[i as int] != dir@[i as int]);
                return false;
            }
            i = i + 1;
        }
        assert(dir@ =~= self@.subrange(0, dir@.len() as int));
        true
    }

    /// The path that lies below `to` as this path lies below its first `n` names.
    pub fn rebase(&self, n: usize, to: &Path) -> (path: Path)
        requires
            n <= self@.len(),
        ensures
            path@ == to@ + self@.skip(n as int),
    {
        proof {
            use_type_invariant(self);
            use_type_invariant(to);
        }
        let mut names: Vec<String> = Vec::new();
        let mut i: usize = 0;
        while i < to.names.len()
            invariant
                i <= to.names@.len(),
                names@.len() == i,
                forall|j: int| 0 <= j < i ==> names@[j]@ == to.names@[j]@,
            decreases to.names@.len() - i,
        {
            names.push(to.names[i].clone());
            i = i + 1;
        }
        let mut k: usize = n;
        while k < self.names.len()
            invariant
                n <= k <= self.names@.len(),
                names@.len() == to.names@.len() + (k - n),
                forall|j: int| 0 <= j < to.names@.len() ==> names@[j]@ == to.names@[j]@,
                forall|j: int|
                    to.names@.len() <= j < names@.len() ==> names@[j]@ == self.names@[j
                        - to.names@.len() + n]@,
            decreases self.names@.len() - k,
        {
            names.push(self.names[k].clone());
            k = k + 1;
        }
        assert(views(names@) =~= views(to.names@) + views(self.names@).skip(n as int));
        Path { names }
    }

    /// The directory that holds this path; the root has none.
    pub fn parent(&self) -> (parent: Option<Path>)
        ensures
            parent is Some <==> self@.len() > 0,
            parent matches Some(p) ==> p@ == self@.drop_last(),
    {
        let n = self.names.len();
        if n == 0 {
            None
        } else {
            Some(self.prefix(n - 1))
        }
    }

    /// Whether `name` can be one step of a clean path.
    pub fn is_valid_name(name: &str) -> (valid: bool)
        ensures
            valid == valid_name(name@),
    {
        let n = name.unicode_len();
        if n == 0 {
            return false;
        }
        if n == 1 && name.get_char(0) == '.' {
            assert(name@ =~= seq!['.']);
            return false;
        }
        if n == 2 && name.get_char(0) == '.' && name.get_char(1) == '.' {
            assert(name@ =~= seq!['.', '.']);
            return false;
        }
        assert(name@ != seq!['.']) by {
            if name@ == seq!['.'] {
                assert(seq!['.'].len() == 1);
                assert(seq!['.'][0] == '.');
            }
        }
        assert(name@ != seq!['.', '.']) by {
            if name@ == seq!['.', '.'] {
                assert(seq!['.', '.'].len() == 2);
                assert(seq!['.', '.'][0] == '.');
                assert(seq!['.', '.'][1] == '.');
            }
        }
        let mut i: usize = 0;
        while i < n
            invariant
                i <= n,
                n == name@.len(),
                forall|j: int| 0 <= j < i ==> name@[j] != '/',
            decreases n - i,
        {
            if name.get_char(i) == '/' {
                assert(name@.contains('/'));
                return false;
            }
            i = i + 1;
        }
        true
    }

    /// Reads a path from its text. The text has to start with a slash and to
    /// hold valid names with one slash between two of them; only the root ends
    /// with a slash.
    pub fn parse(text: &str) -> (path: Option<Path>)
        ensures
            path is Some <==> parse_names(text@) is Some,
            path matches Some(p) ==> parse_names(text@) == Some(p@),
    {
        let n = text.unicode_len();
        if n == 0 || text.get_char(0) != '/' {
            return None;
        }
        if n == 1 {
            return Some(Path::root());
        }
        let ghost tail = text@.drop_first();
        let mut names: Vec<String> = Vec::new();
        let mut all_valid = true;
        let mut start: usize = 1;
        let mut i: usize = 1;
        assert(text@.subrange(1, 1) =~= Seq::<char>::empty());
        assert(views(names@).push(text@.subrange(1, 1)) =~= seq![Seq::<char>::empty()]);
        while i < n
            invariant
                1 <= start <= i <= n,
                n == text@.len(),
                split(text@.subrange(1, i as int)) == views(names@).push(
                    text@.subrange(start as int, i as int),
                ),
                all_valid == valid_names(views(names@)),
            decreases n - i,
        {
            let ghost before = text@.subrange(1, i as int);
            let ghost after = text@.subrange(1, i + 1);
            let ghost piece = text@.subrange(start as int, i as int);
            assert(after.drop_last() =~= before);
            assert(after.last() == text@[i as int]);
            if text.get_char(i) == '/' {
                let name = text.substring_char(start, i);
                let valid = Self::is_valid_name(name);
                let ghost old_names = views(names@);
                names.push(String::from_str(name));
                assert(views(names@) =~= old_names.push(piece));
                if !valid {
                    all_valid = false;
                    assert(!valid_name(views(names@)[names@.len() - 1]));
                } else {
                    assert(valid_names(old_names) ==> valid_names(views(names@)));
                    assert(!valid_names(old_names) ==> !valid_names(views(names@))) by {
                        if !valid_names(old_names) {
                            let j = choose|j: int|
                                0 <= j < old_names.len() && !valid_name(old_names[j]);
                            assert(views(names@)[j] == old_names[j]);
                        }
                    }
                }
                start = i + 1;
                assert(text@.subrange(start as int, i + 1) =~= Seq::<char>::empty());
            } else {
                assert(text@.subrange(start as int, i + 1) =~= piece.push(text@[i as int]));
                assert(views(names@).push(piece).drop_last() =~= views(names@));
            }
            i = i + 1;
        }
        assert(text@.subrange(1, n as int) =~= tail);
        let name = text.substring_char(start, n);
        let valid = Self::is_valid_name(name);
        let ghost old_names = views(names@);
        names.push(String::from_str(name));
        assert(views(names@) =~= split(tail));
        if !valid {
            assert(!valid_name(views(names@)[names@.len() - 1]));
            return None;
        }
        if !all_valid {
            let ghost j = choose|j: int| 0 <= j < old_names.len() && !valid_name(old_names[j]);
            assert(views(names@)[j] == old_names[j]);
            return None;
        }
        assert(valid_names(views(names@)));
        Some(Path { names })
    }

    /// The text of the path.
    pub fn to_string(&self) -> (text: String)
        ensures
            text@ == text_of(self@),
    {
        proof {
            reveal_strlit("/");
        }
        if self.names.len() == 0 {
            let text = String::from_str("/");
            assert(text@ =~= seq!['/']);
            return text;
        }
        let mut text = String::new();
        let mut i: usize = 0;
        while i < self.names.len()
            invariant
                i <= self.names@.len(),
                text@ == joined(self@.take(i as int)),
                "/"@ == seq!['/'],
            decreases self.names@.len() - i,
        {
            let ghost before = self@.take(i as int);
            let ghost after = self@.take(i + 1);
            assert(after.drop_last() =~= before);
            assert(after.last() == self.names@[i as int]@);
            text.append("/");
            text.append(self.names[i].as_str());
            i = i + 1;
        }
        assert(self@.take(i as int) =~= self@);
        text
    }
}

/// The text that joins `path` to the directory `start`: `path` itself where it
/// starts with a slash, else the names of `start`, a slash and `path`.
pub open spec fn join_text(start: Seq<Seq<char>>, path: Seq<char>) -> Seq<char> {
    if path.len() > 0 && path[0] == '/' {
        path
    } else {
        joined(start) + seq!['/'] + path
    }
}

/// What `path_clean::clean` makes of a path's text on a Unix target.
pub uninterp spec fn cleaned(path: Seq<char>) -> Seq<char>;

/// Whether cleaning leaves `text` as it is, if it spells a clean absolute path
/// already.
pub open spec fn clean_stays(text: Seq<char>) -> bool {
    parse_names(text) is Some ==> cleaned(text) == text
}

/// Calls `path_clean::clean`, which cleans a path lexically: it drops repeated
/// slashes and `.` names, and resolves `..` names against the names before them.
/// The contract names the result, and claims one thing of it: a text that
/// spells a clean absolute path already has nothing for these rules to work on,
/// and comes back as it is. This is so on a Unix target, where a slash is the
/// only separator.
#[verifier::external_body]
fn clean(path: &str) -> (out: String)
    ensures
        out@ == cleaned(path@),
        parse_names(path@) is Some ==> out@ == path@,
{
    path_clean::clean(path).to_string_lossy().into_owned()
}

/// The names of the clean absolute path that `text` comes to once it is cleaned,
/// if it comes to one.
pub open spec fn clean_names(text: Seq<char>) -> Option<Seq<Seq<char>>> {
    parse_names(cleaned(text))
}

/// The names of the clean absolute path that `path` comes to below the directory
/// `start`, if it comes to one.
pub open spec fn normal(start: Seq<Seq<char>>, path: Seq<char>) -> Option<Seq<Seq<char>>> {
    clean_names(join_text(start, path))
}

/// Cleans `text` and reads the result as a path. There is no path where the
/// cleaned text does not spell a clean absolute path, as with a relative `text`.
/// A text that spells a clean absolute path is read as that path.
pub fn clean_path(text: &str) -> (path: Option<Path>)
    ensures
        path is Some <==> clean_names(text@) is Some,
        path matches Some(p) ==> clean_names(text@) == Some(p@),
        clean_stays(text@),
        parse_names(text@) is Some ==> path is Some && clean_names(text@) == parse_names(text@),
{
    let out = clean(text);
    Path::parse(out.as_str())
}

/// Joins `path` to the directory `start` and cleans the result. A `path` that
/// starts with a slash replaces `start`. There is no path where the cleaned text
/// does not spell a clean absolute path. A valid name comes to the child of
/// `start` by that name.
pub fn normalize_path(path: &str, start: &Path) -> (res: Option<Path>)
    ensures
        res is Some <==> normal(start@, path@) is Some,
        res matches Some(p) ==> normal(start@, path@) == Some(p@),
        clean_stays(join_text(start@, path@)),
        valid_name(path@) ==> (res matches Some(p) && p@ == start@.push(path@)),
{
    let absolute = path.unicode_len() > 0 && path.get_char(0) == '/';
    let text = if absolute {
        String::from_str(path)
    } else {
        proof {
            reveal_strlit("/");
        }
        let mut text = if start.len() == 0 {
            String::new()
        } else {
            start.to_string()
        };
        text.append("/");
        text.append(path);
        assert("/"@ =~= seq!['/']);
        assert(joined(Seq::<Seq<char>>::empty()) == Seq::<char>::empty());
        text
    };
    proof {
        if valid_name(path@) {
            assert(path@[0] != '/') by {
                if path@[0] == '/' {
                    assert(path@.contains('/'));
                }
            }
            let child = start@.push(path@);
            assert(child.drop_last() == start@);
            assert(valid_names(child)) by {
                assert forall|i: int| 0 <= i < child.len() implies valid_name(
                    #[trigger] child[i],
                ) by {
                    if i < start@.len() {
                        assert(child[i] == start@[i]);
                    }
                }
            }
            assert(text_of(child) == text@);
            parse_of_text(child);
        }
    }
    clean_path(text.as_str())
}

/// A text without a slash is its own single piece.
pub proof fn split_of_name(name: Seq<char>)
    requires
        !name.contains('/'),
    ensures
        split(name) == seq![name],
    decreases name.len(),
{
    if name.len() > 0 {
        let head = name.drop_last();
        assert(!head.contains('/')) by {
            if head.contains('/') {
                let i = choose|i: int| 0 <= i < head.len() && head[i] == '/';
                assert(name[i] == '/');
            }
        }
        split_of_name(head);
        assert(name.last() != '/') by {
            if name.last() == '/' {
                assert(name[name.len() - 1] == '/');
            }
        }
        assert(head.push(name.last()) == name);
        assert(seq![head].last() == head);
        assert(seq![head].drop_last().push(name) == seq![name]);
    } else {
        assert(name == Seq::<char>::empty());
    }
}

/// A slash and a name behind a text add the name to its pieces.
pub proof fn split_of_appended(text: Seq<char>, name: Seq<char>)
    requires
        !name.contains('/'),
    ensures
        split(text + seq!['/'] + name) == split(text).push(name),
    decreases name.len(),
{
    let whole = text + seq!['/'] + name;
    if name.len() == 0 {
        assert(whole.drop_last() == text);
        assert(name == Seq::<char>::empty());
    } else {
        let head = name.drop_last();
        assert(!head.contains('/')) by {
            if head.contains('/') {
                let i = choose|i: int| 0 <= i < head.len() && head[i] == '/';
                assert(name[i] == '/');
            }
        }
        assert(name.last() != '/') by {
            if name.last() == '/' {
                assert(name[name.len() - 1] == '/');
            }
        }
        split_of_appended(text, head);
        assert(whole.drop_last() == text + seq!['/'] + head);
        assert(whole.last() == name.last());
        assert(split(text).push(head).drop_last() == split(text));
        assert(head.push(name.last()) == name);
    }
}

/// The pieces behind the first slash of a path's text are its names.
pub proof fn split_of_joined(names: Seq<Seq<char>>)
    requires
        names.len() > 0,
        valid_names(names),
    ensures
        joined(names).len() > 1,
        joined(names)[0] == '/',
        split(joined(names).drop_first()) == names,
    decreases names.len(),
{
    let last = names.last();
    assert(valid_name(last));
    if names.len() == 1 {
        assert(names.drop_last() == Seq::<Seq<char>>::empty());
        assert(joined(names.drop_last()) == Seq::<char>::empty());
        assert(joined(names) == seq!['/'] + last);
        assert(joined(names).drop_first() == last);
        split_of_name(last);
        assert(names == seq![last]);
    } else {
        let front = names.drop_last();
        assert(valid_names(front)) by {
            assert forall|i: int| 0 <= i < front.len() implies valid_name(#[trigger] front[i]) by {
                assert(front[i] == names[i]);
            }
        }
        split_of_joined(front);
        assert(joined(names).drop_first() == joined(front).drop_first() + seq!['/'] + last);
        split_of_appended(joined(front).drop_first(), last);
        assert(front.push(last) == names);
    }
}

/// Reading the text of a path gives the path back.
pub proof fn parse_of_text(names: Seq<Seq<char>>)
    requires
        valid_names(names),
    ensures
        parse_names(text_of(names)) == Some(names),
{
    if names.len() == 0 {
        assert(names == Seq::<Seq<char>>::empty());
    } else {
        split_of_joined(names);
    }
}

/// A text has one piece at least.
pub proof fn split_is_not_empty(text: Seq<char>)
    ensures
        split(text).len() > 0,
    decreases text.len(),
{
    if text.len() > 0 {
        split_is_not_empty(text.drop_last());
    }
}

/// The pieces of a text, joined again, are the text behind a slash.
pub proof fn joined_of_split(text: Seq<char>)
    ensures
        joined(split(text)) == seq!['/'] + text,
    decreases text.len(),
{
    if text.len() == 0 {
        let pieces = seq![Seq::<char>::empty()];
        assert(pieces.drop_last() == Seq::<Seq<char>>::empty());
        assert(joined(pieces.drop_last()) == Seq::<char>::empty());
        assert(joined(pieces) == Seq::<char>::empty() + seq!['/'] + Seq::<char>::empty());
        assert(joined(pieces) == seq!['/'] + text);
    } else {
        let front = text.drop_last();
        let head = split(front);
        split_is_not_empty(front);
        joined_of_split(front);
        assert(seq!['/'] + text == (seq!['/'] + front).push(text.last())) by {
            assert(front.push(text.last()) == text);
        }
        if text.last() == '/' {
            let pieces = head.push(Seq::empty());
            assert(pieces.drop_last() == head);
            assert(joined(pieces) == joined(head) + seq!['/'] + Seq::<char>::empty());
            assert(joined(pieces) == (seq!['/'] + front).push('/'));
        } else {
            let last = head.last().push(text.last());
            let pieces = head.drop_last().push(last);
            assert(pieces.drop_last() == head.drop_last());
            assert(joined(pieces) == joined(head.drop_last()) + seq!['/'] + last);
            assert(joined(head) == joined(head.drop_last()) + seq!['/'] + head.last());
            assert(joined(pieces) == joined(head).push(text.last()));
        }
    }
}

/// The text of the path that a text was read as is that text: a path has one
/// text, and a text spells one path at most.
pub proof fn text_of_parsed(text: Seq<char>)
    requires
        parse_names(text) is Some,
    ensures
        text_of(parse_names(text).unwrap()) == text,
{
    if text.len() == 1 {
        assert(text == seq!['/']);
    } else {
        let tail = text.drop_first();
        split_is_not_empty(tail);
        joined_of_split(tail);
        assert(seq!['/'] + tail == text);
    }
}

} // verus!
