//! The description of a package: its name, what it depends on, and its
//! directives, in the order in which they were declared.
//!
//! The paths of a description are texts as the author wrote them: relative to
//! the package or to the destination, and not yet cleaned.

use vstd::prelude::*;

verus! {

/// The description of one package.
#[derive(Debug, PartialEq)]
pub struct Spec {
    pub name: String,
    pub deps: Vec<Dep>,
    pub directives: Vec<Directive>,
}

/// A package that another one depends on.
#[derive(Debug, Clone, PartialEq)]
pub struct Dep {
    pub path: String,
}

/// One thing that a package asks for.
#[derive(Debug, PartialEq)]
pub enum Directive {
    File(File),
    Hook(Hook),
}

/// A file or directory that a package puts in place.
#[derive(Debug, PartialEq)]
pub enum File {
    Regular(RegularFile),
    Templated(TemplatedFile),
    Tree(TreeFile),
    Generated(GeneratedFile),
    Dir(DirFile),
}

/// How a file of the package gets to its destination.
#[derive(Debug, Clone, Copy, PartialEq, Eq)]
pub enum LinkType {
    Link,
    Copy,
}

/// A file that is linked or copied as it is.
#[derive(Debug, Clone, PartialEq)]
pub struct RegularFile {
    pub src: String,
    /// Where the file goes; where `src` says, if absent.
    pub dest: Option<String>,
    pub link_type: LinkType,
    pub optional: bool,
}

/// A value handed to a template or written into a generated file. The core
/// carries such values and never looks into them.
#[derive(Debug, PartialEq)]
pub enum ObjectValue {
    Nil,
    Bool(bool),
    Int(i64),
    /// A floating-point number, as the bits of its IEEE 754 double.
    Float(u64),
    Str(String),
    Object(Object),
}

/// Named values, in the order in which they were given.
#[derive(Debug, PartialEq)]
pub struct Object(pub Vec<(String, ObjectValue)>);

/// A file that is rendered from a template.
#[derive(Debug, PartialEq)]
pub struct TemplatedFile {
    pub src: String,
    pub dest: String,
    pub vars: Object,
    pub typ: TemplatedFileType,
    pub optional: bool,
}

/// The language of a template.
#[derive(Debug, Clone, PartialEq)]
pub enum TemplatedFileType {
    Handlebars(HandlebarsTemplatedFile),
    Liquid(LiquidTemplatedFile),
}

#[derive(Debug, Clone, PartialEq)]
pub struct HandlebarsTemplatedFile {
    /// The partial templates, each with its name and the path of its file.
    pub partials: Vec<(String, String)>,
}

#[derive(Debug, Clone, PartialEq)]
pub struct LiquidTemplatedFile {}

/// A directory whose files are linked or copied one by one.
#[derive(Debug, Clone, PartialEq)]
pub struct TreeFile {
    pub src: String,
    /// Where the files go; into the destination root, if absent.
    pub dest: Option<String>,
    /// The patterns of the files to take; all of them, if absent.
    pub globs: Option<Vec<String>>,
    /// The patterns of the files to leave out.
    pub ignore: Option<Vec<String>>,
    pub link_type: LinkType,
    pub optional: bool,
}

/// A file whose contents the description itself gives.
#[derive(Debug, PartialEq)]
pub struct GeneratedFile {
    pub dest: String,
    pub typ: GeneratedFileTyp,
}

/// What the contents of a generated file are made from.
#[derive(Debug, PartialEq)]
pub enum GeneratedFileTyp {
    Empty(EmptyGeneratedFile),
    String(StringGeneratedFile),
    Yaml(YamlGeneratedFile),
    Toml(TomlGeneratedFile),
    Json(JsonGeneratedFile),
}

#[derive(Debug, Clone, PartialEq)]
pub struct EmptyGeneratedFile;

#[derive(Debug, Clone, PartialEq)]
pub struct StringGeneratedFile {
    pub contents: String,
}

#[derive(Debug, PartialEq)]
pub struct YamlGeneratedFile {
    pub values: Object,
    pub header: Option<String>,
}

#[derive(Debug, PartialEq)]
pub struct TomlGeneratedFile {
    pub values: Object,
    pub header: Option<String>,
}

#[derive(Debug, PartialEq)]
pub struct JsonGeneratedFile {
    pub values: Object,
}

/// A directory that is created.
#[derive(Debug, Clone, PartialEq)]
pub struct DirFile {
    pub dest: String,
    pub parents: bool,
}

/// Something that a package runs.
#[derive(Debug, Clone, PartialEq)]
pub enum Hook {
    Cmd(CmdHook),
    Fun(FunHook),
}

/// What to do when a hook reports failure.
#[derive(Debug, Clone, Copy, PartialEq, Eq)]
pub enum NonZeroExitBehavior {
    Error,
    Warn,
    Ignore,
}

/// A command that is run in a shell.
#[derive(Debug, Clone, PartialEq)]
pub struct CmdHook {
    pub command: String,
    /// The directory in which the command runs; the package's, if absent.
    pub start: Option<String>,
    /// The shell that runs the command; `sh`, if absent.
    pub shell: Option<String>,
    pub stdout: Option<bool>,
    pub stderr: Option<bool>,
    pub clean_env: Option<bool>,
    pub env: Option<Vec<(String, String)>>,
    pub nonzero_exit: Option<NonZeroExitBehavior>,
}

/// A function of the scripting host that is called.
#[derive(Debug, Clone, PartialEq)]
pub struct FunHook {
    /// The name under which the host has registered the function.
    pub name: String,
    /// The directory in which the function runs; the package's, if absent.
    pub start: Option<String>,
    pub nonzero_exit: Option<NonZeroExitBehavior>,
}

} // verus!
