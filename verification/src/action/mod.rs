//! Actions: what a package asks for, and how each is resolved into operations.
//!
//! To resolve an action is to look at the filesystem, through an
//! [`FsProbe`](crate::fs::FsProbe), and to decide which operations, in which
//! order, bring about what the action declares.

use vstd::prelude::*;
use crate::fs::PathView;
use crate::op::{copy_pairs, pairs_view, CommandOp, FunctionOp, OpView};
use crate::package::Object;
use crate::path::{views, Path};

pub mod link;
pub mod mkdir;
pub mod write;

pub use link::LinkAction;
pub use mkdir::MkdirAction;
pub use write::WriteAction;

verus! {

/// The outcome of resolving an action, as a plain value.
pub enum Resolved<S> {
    /// Nothing is in the way: the operations can run.
    Normal(Seq<OpView>),
    /// The destination exists and the operations start by removing it.
    Overwrite(Seq<OpView>),
    /// There is nothing to do.
    Skip(S),
}

/// The operations of a resolution: none where the action is skipped.
pub open spec fn ops_of<S>(resolved: Resolved<S>) -> Seq<OpView> {
    match resolved {
        Resolved::Normal(ops) => ops,
        Resolved::Overwrite(ops) => ops,
        Resolved::Skip(_) => Seq::empty(),
    }
}

/// Action to link or copy the files of the directory `src` into `dest`.
#[derive(Debug, PartialEq)]
pub struct TreeAction {
    pub src: Path,
    pub dest: Path,
    /// The patterns of the files to take.
    pub globs: Vec<String>,
    /// The patterns of the files to leave out.
    pub ignore: Vec<String>,
    /// Perform copies instead of symlinks.
    pub copy: bool,
    /// If the `src` does not exist, emit no operations.
    pub optional: bool,
}

/// Action to render the Handlebars template at `src` to `dest`.
#[derive(Debug, PartialEq)]
pub struct HandlebarsAction<'g> {
    pub src: Path,
    pub dest: Path,
    pub vars: &'g Object,
    pub optional: bool,
    /// The partial templates, each with its name and the path of its file.
    pub partials: &'g Vec<(String, String)>,
}

/// Action to render the Liquid template at `src` to `dest`.
#[derive(Debug, PartialEq)]
pub struct LiquidAction<'g> {
    pub src: Path,
    pub dest: Path,
    pub vars: &'g Object,
    pub optional: bool,
}

/// Action to write `values` as YAML to `dest`, below an optional header.
#[derive(Debug, PartialEq)]
pub struct YamlAction<'g> {
    pub dest: Path,
    pub values: &'g Object,
    pub header: &'g Option<String>,
}

/// Action to write `values` as TOML to `dest`, below an optional header.
#[derive(Debug, PartialEq)]
pub struct TomlAction<'g> {
    pub dest: Path,
    pub values: &'g Object,
    pub header: &'g Option<String>,
}

/// Action to write `values` as JSON to `dest`.
#[derive(Debug, PartialEq)]
pub struct JsonAction<'g> {
    pub dest: Path,
    pub values: &'g Object,
}

/// Action to run a command in a shell.
#[derive(Debug, PartialEq)]
pub struct CommandAction {
    pub command: String,
    /// The directory in which the command runs.
    pub start: Path,
    pub shell: String,
    /// Whether the command starts from an empty environment.
    pub clean_env: bool,
    pub env: Vec<(String, String)>,
}

/// Action to call a function of the scripting host.
#[derive(Debug, PartialEq)]
pub struct FunctionAction {
    /// The name under which the host has registered the function.
    pub function: String,
    /// The directory in which the function runs.
    pub start: Path,
}

/// What a directive of a package asks for, with every path absolute and clean.
#[derive(Debug, PartialEq)]
pub enum Action<'g> {
    Link(LinkAction),
    Write(WriteAction),
    Mkdir(MkdirAction),
    Tree(TreeAction),
    Handlebars(HandlebarsAction<'g>),
    Liquid(LiquidAction<'g>),
    Yaml(YamlAction<'g>),
    Toml(TomlAction<'g>),
    Json(JsonAction<'g>),
    Command(CommandAction),
    Function(FunctionAction),
}

/// An action as a plain value.
pub enum ActionView {
    Link { src: PathView, dest: PathView, copy: bool, optional: bool },
    Write { dest: PathView, contents: Seq<char> },
    Mkdir { path: PathView, parents: bool },
    Tree {
        src: PathView,
        dest: PathView,
        globs: Seq<Seq<char>>,
        ignore: Seq<Seq<char>>,
        copy: bool,
        optional: bool,
    },
    Handlebars {
        src: PathView,
        dest: PathView,
        vars: Object,
        optional: bool,
        partials: Seq<(String, String)>,
    },
    Liquid { src: PathView, dest: PathView, vars: Object, optional: bool },
    Yaml { dest: PathView, values: Object, header: Option<String> },
    Toml { dest: PathView, values: Object, header: Option<String> },
    Json { dest: PathView, values: Object },
    Command {
        command: Seq<char>,
        start: PathView,
        shell: Seq<char>,
        clean_env: bool,
        env: Seq<(Seq<char>, Seq<char>)>,
    },
    Function { function: Seq<char>, start: PathView },
}

impl<'g> View for Action<'g> {
    type V = ActionView;

    open spec fn view(&self) -> ActionView {
        match self {
            Action::Link(a) => ActionView::Link {
                src: a.src@,
                dest: a.dest@,
                copy: a.copy,
                optional: a.optional,
            },
            Action::Write(a) => ActionView::Write { dest: a.dest@, contents: a.contents@ },
            Action::Mkdir(a) => ActionView::Mkdir { path: a.path@, parents: a.parents },
            Action::Tree(a) => ActionView::Tree {
                src: a.src@,
                dest: a.dest@,
                globs: views(a.globs@),
                ignore: views(a.ignore@),
                copy: a.copy,
                optional: a.optional,
            },
            Action::Handlebars(a) => ActionView::Handlebars {
                src: a.src@,
                dest: a.dest@,
                vars: *a.vars,
                optional: a.optional,
                partials: a.partials@,
            },
            Action::Liquid(a) => ActionView::Liquid {
                src: a.src@,
                dest: a.dest@,
                vars: *a.vars,
                optional: a.optional,
            },
            Action::Yaml(a) => ActionView::Yaml {
                dest: a.dest@,
                values: *a.values,
                header: *a.header,
            },
            Action::Toml(a) => ActionView::Toml {
                dest: a.dest@,
                values: *a.values,
                header: *a.header,
            },
            Action::Json(a) => ActionView::Json { dest: a.dest@, values: *a.values },
            Action::Command(a) => ActionView::Command {
                command: a.command@,
                start: a.start@,
                shell: a.shell@,
                clean_env: a.clean_env,
                env: pairs_view(a.env@),
            },
            Action::Function(a) => ActionView::Function { function: a.function@, start: a.start@ },
        }
    }
}

impl CommandAction {
    /// Resolves the action into the one operation that runs the command.
    pub fn resolve(&self) -> (op: CommandOp)
        ensures
            op@ == (OpView::Command {
                command: self.command@,
                start: self.start@,
                shell: self.shell@,
                clean_env: self.clean_env,
                env: pairs_view(self.env@),
            }),
    {
        CommandOp {
            command: self.command.clone(),
            start: self.start.clone(),
            shell: self.shell.clone(),
            clean_env: self.clean_env,
            env: copy_pairs(&self.env),
        }
    }
}

impl FunctionAction {
    /// Resolves the action into the one operation that calls the function.
    pub fn resolve(&self) -> (op: FunctionOp)
        ensures
            op@ == (OpView::Function { name: self.function@, start: self.start@ }),
    {
        FunctionOp { name: self.function.clone(), start: self.start.clone() }
    }
}

} // verus!
