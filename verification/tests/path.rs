use shelf::path::{clean_path, normalize_path, Path};

fn path(text: &str) -> Path {
    Path::parse(text).unwrap()
}

#[test]
fn parse_reads_clean_absolute_paths() {
    assert_eq!(0, path("/").len());
    assert_eq!(Path::root(), path("/"));
    let p = path("/home/a");
    assert_eq!(2, p.len());
    assert_eq!("home", p.name(0));
    assert_eq!("a", p.name(1));
    assert_eq!(3, path("/home/.config/..x").len());
}

#[test]
fn parse_refuses_what_is_not_clean() {
    assert_eq!(None, Path::parse(""));
    assert_eq!(None, Path::parse("home/a"));
    assert_eq!(None, Path::parse("/home/"));
    assert_eq!(None, Path::parse("//"));
    assert_eq!(None, Path::parse("/home//a"));
    assert_eq!(None, Path::parse("/home/./a"));
    assert_eq!(None, Path::parse("/home/../a"));
    assert_eq!(None, Path::parse("/."));
    assert_eq!(None, Path::parse("/.."));
    assert_eq!(None, Path::parse("./a"));
}

#[test]
fn to_string_spells_the_path() {
    assert_eq!("/", Path::root().to_string());
    assert_eq!("/home", path("/home").to_string());
    assert_eq!("/home/a/b.txt", path("/home/a/b.txt").to_string());
    assert_eq!("/h\u{e9}/\u{4e2d}", path("/h\u{e9}/\u{4e2d}").to_string());
}

#[test]
fn parse_gives_back_what_to_string_spells() {
    for text in ["/", "/a", "/home/a", "/home/a/b/c", "/x/...", "/a b/c"] {
        let p = path(text);
        assert_eq!(Some(p.clone()), Path::parse(&p.to_string()));
    }
}

#[test]
fn parent_drops_the_last_name() {
    assert_eq!(None, Path::root().parent());
    assert_eq!(Some(Path::root()), path("/home").parent());
    assert_eq!(Some(path("/home/a")), path("/home/a/b").parent());
}

#[test]
fn prefix_takes_the_first_names() {
    let p = path("/home/a/b");
    assert_eq!(Path::root(), p.prefix(0));
    assert_eq!(path("/home"), p.prefix(1));
    assert_eq!(path("/home/a"), p.prefix(2));
    assert_eq!(p, p.prefix(3));
}

#[test]
fn paths_are_equal_when_their_names_are() {
    assert_eq!(path("/home/a"), path("/home/a"));
    assert_ne!(path("/home/a"), path("/home/b"));
    assert_ne!(path("/home/a"), path("/home"));
    assert_ne!(path("/home"), path("/home/a"));
    assert_eq!(path("/home/a"), path("/home/a").clone());
}

#[test]
fn valid_names_have_no_slash_and_are_no_dots() {
    assert!(Path::is_valid_name("a"));
    assert!(Path::is_valid_name("..."));
    assert!(Path::is_valid_name(".x"));
    assert!(Path::is_valid_name("a b"));
    assert!(!Path::is_valid_name(""));
    assert!(!Path::is_valid_name("."));
    assert!(!Path::is_valid_name(".."));
    assert!(!Path::is_valid_name("a/b"));
    assert!(!Path::is_valid_name("/"));
}

#[test]
fn clean_path_cleans_before_it_reads() {
    assert_eq!(Some(path("/home/b")), clean_path("/home/a/../b"));
    assert_eq!(Some(path("/home")), clean_path("/home/"));
    assert_eq!(Some(path("/home/a")), clean_path("//home/./a//"));
    assert_eq!(Some(Path::root()), clean_path("/.."));
    assert_eq!(Some(Path::root()), clean_path("/"));
    // A relative text stays relative, and is no path.
    assert_eq!(None, clean_path("home/a"));
    assert_eq!(None, clean_path(""));
    assert_eq!(None, clean_path("../a"));
}

#[test]
fn normalize_path_joins_and_cleans() {
    let home = path("/home");
    assert_eq!(Some(path("/home/a")), normalize_path("a", &home));
    assert_eq!(Some(path("/home/b")), normalize_path("a/../b", &home));
    assert_eq!(Some(path("/b")), normalize_path("../b", &home));
    assert_eq!(Some(path("/home")), normalize_path("", &home));
    assert_eq!(Some(path("/home")), normalize_path(".", &home));
    assert_eq!(Some(path("/a")), normalize_path("a", &Path::root()));
    // An absolute text replaces the directory.
    assert_eq!(Some(path("/etc/x")), normalize_path("/etc/x", &home));
    assert_eq!(Some(path("/etc")), normalize_path("/etc/x/..", &home));
}

#[test]
fn a_clean_text_comes_back_as_it_is() {
    for text in ["/", "/home", "/home/a/b", "/a b/...", "/h\u{e9}"] {
        assert_eq!(Path::parse(text), clean_path(text));
    }
    assert_eq!(Some(path("/home/me/x")), normalize_path("x", &path("/home/me")));
    assert_eq!(Some(path("/x")), normalize_path("x", &Path::root()));
    assert_eq!(Some(path("/home/u/v/w")), clean_path("/home/u/v/w"));
    assert_eq!(Some(path("/home/v/w")), clean_path("/home/u/../v/./w"));
}
