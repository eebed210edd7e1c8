//! The actions of a package, one for each directive, in their order.

use vstd::prelude::*;
use vstd::string::*;
use crate::action::{
    Action, ActionView, CommandAction, FunctionAction, HandlebarsAction, JsonAction,
    LinkAction, LiquidAction, MkdirAction, TomlAction, TreeAction, WriteAction, YamlAction,
};
use crate::fs::PathView;
use crate::op::{copy_pairs, copy_texts, pairs_view};
use crate::package::{
    CmdHook, DirFile, Directive, File, FunHook, GeneratedFile, GeneratedFileTyp, Hook,
    LinkType, RegularFile, TemplatedFile, TemplatedFileType, TreeFile,
};
use crate::path::{clean_stays, join_text, normal, normalize_path, views, Path};
use super::PackageData;

verus! {

/// A text of a package's description that does not come to a clean absolute path.
#[derive(Debug, Clone, PartialEq, Eq)]
pub struct PathError {
    pub path: String,
}

/// The text itself, or the other one where there is none.
pub open spec fn text_or(text: Option<String>, other: Seq<char>) -> Seq<char> {
    match text {
        Some(t) => t@,
        None => other,
    }
}

/// The views of the texts, or the others where there are none.
pub open spec fn texts_or(texts: Option<Vec<String>>, others: Seq<Seq<char>>) -> Seq<Seq<char>> {
    match texts {
        Some(t) => views(t@),
        None => others,
    }
}

/// The path that `text` comes to below `start`; `start` itself without a text.
pub open spec fn normal_or(start: PathView, text: Option<String>, other: PathView) -> Result<
    PathView,
    Seq<char>,
> {
    match text {
        Some(t) => match normal(start, t@) {
            Some(path) => Ok(path),
            None => Err(t@),
        },
        None => Ok(other),
    }
}

/// The action of a file that is linked or copied: the source is taken from the
/// package, the destination from the destination root, where the file goes by
/// the name of its source unless it is given another.
pub open spec fn regular_action(package: PathView, dest: PathView, file: RegularFile) -> Result<
    ActionView,
    Seq<char>,
> {
    let target = text_or(file.dest, file.src@);
    match (normal(package, file.src@), normal(dest, target)) {
        (Some(src), Some(to)) => Ok(
            ActionView::Link {
                src,
                dest: to,
                copy: file.link_type is Copy,
                optional: file.optional,
            },
        ),
        (None, _) => Err(file.src@),
        (_, None) => Err(target),
    }
}

/// The action of a file that is rendered from a template.
pub open spec fn template_action(package: PathView, dest: PathView, file: TemplatedFile)
    -> Result<ActionView, Seq<char>> {
    match (normal(package, file.src@), normal(dest, file.dest@)) {
        (Some(src), Some(to)) => Ok(
            match file.typ {
                TemplatedFileType::Handlebars(hbs) => ActionView::Handlebars {
                    src,
                    dest: to,
                    vars: file.vars,
                    optional: file.optional,
                    partials: hbs.partials@,
                },
                TemplatedFileType::Liquid(_) => ActionView::Liquid {
                    src,
                    dest: to,
                    vars: file.vars,
                    optional: file.optional,
                },
            },
        ),
        (None, _) => Err(file.src@),
        (_, None) => Err(file.dest@),
    }
}

/// The action of a directory whose files are linked or copied: without a
/// destination they go into the destination root; without patterns all files
/// are taken and none is left out.
pub open spec fn tree_action(package: PathView, dest: PathView, file: TreeFile) -> Result<
    ActionView,
    Seq<char>,
> {
    match (normal(package, file.src@), normal_or(dest, file.dest, dest)) {
        (Some(src), Ok(to)) => Ok(
            ActionView::Tree {
                src,
                dest: to,
                globs: texts_or(file.globs, seq!["**/*"@]),
                ignore: texts_or(file.ignore, Seq::empty()),
                copy: file.link_type is Copy,
                optional: file.optional,
            },
        ),
        (None, _) => Err(file.src@),
        (_, Err(text)) => Err(text),
    }
}

/// The action of a generated file.
pub open spec fn generated_action(dest: PathView, file: GeneratedFile) -> Result<
    ActionView,
    Seq<char>,
> {
    match normal(dest, file.dest@) {
        Some(to) => Ok(
            match file.typ {
                GeneratedFileTyp::Empty(_) => ActionView::Write {
                    dest: to,
                    contents: Seq::empty(),
                },
                GeneratedFileTyp::String(s) => ActionView::Write { dest: to, contents: s.contents@ },
                GeneratedFileTyp::Yaml(y) => ActionView::Yaml {
                    dest: to,
                    values: y.values,
                    header: y.header,
                },
                GeneratedFileTyp::Toml(t) => ActionView::Toml {
                    dest: to,
                    values: t.values,
                    header: t.header,
                },
                GeneratedFileTyp::Json(j) => ActionView::Json { dest: to, values: j.values },
            },
        ),
        None => Err(file.dest@),
    }
}

/// The action of a directory that is created.
pub open spec fn dir_action(dest: PathView, file: DirFile) -> Result<ActionView, Seq<char>> {
    match normal(dest, file.dest@) {
        Some(path) => Ok(ActionView::Mkdir { path, parents: file.parents }),
        None => Err(file.dest@),
    }
}

/// The action of a command: it runs in the package's directory unless it names
/// another, under `sh` unless it names another shell, and in the environment it
/// is started from unless it asks for a clean one.
pub open spec fn cmd_action(package: PathView, hook: CmdHook) -> Result<ActionView, Seq<char>> {
    match normal_or(package, hook.start, package) {
        Ok(start) => Ok(
            ActionView::Command {
                command: hook.command@,
                start,
                shell: text_or(hook.shell, "sh"@),
                clean_env: hook.clean_env == Some(true),
                env: match hook.env {
                    Some(env) => pairs_view(env@),
                    None => Seq::empty(),
                },
            },
        ),
        Err(text) => Err(text),
    }
}

/// The action of a function call: it runs in the package's directory unless it
/// names another.
pub open spec fn fun_action(package: PathView, hook: FunHook) -> Result<ActionView, Seq<char>> {
    match normal_or(package, hook.start, package) {
        Ok(start) => Ok(ActionView::Function { function: hook.name@, start }),
        Err(text) => Err(text),
    }
}

/// Whether it is known what `text` comes to below `start`, in case the two
/// join to a text that spells a clean absolute path already: that path.
pub open spec fn known(start: PathView, text: Seq<char>) -> bool {
    clean_stays(join_text(start, text))
}

/// Whether it is known what the start of a hook comes to, in case it is clean.
pub open spec fn known_start(package: PathView, start: Option<String>) -> bool {
    match start {
        Some(text) => known(package, text@),
        None => true,
    }
}

/// Whether it is known what the texts of `directive` come to, in case they are
/// clean: the first text always, the second where the first comes to a path.
pub open spec fn known_for(package: PathView, dest: PathView, directive: Directive) -> bool {
    match directive {
        Directive::File(File::Regular(file)) => known(package, file.src@) && (normal(
            package,
            file.src@,
        ) is Some ==> known(dest, text_or(file.dest, file.src@))),
        Directive::File(File::Templated(file)) => known(package, file.src@) && (normal(
            package,
            file.src@,
        ) is Some ==> known(dest, file.dest@)),
        Directive::File(File::Tree(file)) => known(package, file.src@) && (normal(
            package,
            file.src@,
        ) is Some ==> known_start(dest, file.dest)),
        Directive::File(File::Generated(file)) => known(dest, file.dest@),
        Directive::File(File::Dir(file)) => known(dest, file.dest@),
        Directive::Hook(Hook::Cmd(hook)) => known_start(package, hook.start),
        Directive::Hook(Hook::Fun(hook)) => known_start(package, hook.start),
    }
}

/// The action that `directive` asks for in the package at `package`, deployed
/// to `dest`; or the first of its texts that does not come to a path.
pub open spec fn action_of(package: PathView, dest: PathView, directive: Directive) -> Result<
    ActionView,
    Seq<char>,
> {
    match directive {
        Directive::File(File::Regular(file)) => regular_action(package, dest, file),
        Directive::File(File::Templated(file)) => template_action(package, dest, file),
        Directive::File(File::Tree(file)) => tree_action(package, dest, file),
        Directive::File(File::Generated(file)) => generated_action(dest, file),
        Directive::File(File::Dir(file)) => dir_action(dest, file),
        Directive::Hook(Hook::Cmd(hook)) => cmd_action(package, hook),
        Directive::Hook(Hook::Fun(hook)) => fun_action(package, hook),
    }
}

/// Whether `res` is what `expected` says: the same action, or the same text.
pub open spec fn yields<'g>(res: Result<Action<'g>, PathError>, expected: Result<
    ActionView,
    Seq<char>,
>) -> bool {
    match res {
        Ok(action) => expected == Ok::<ActionView, Seq<char>>(action@),
        Err(err) => expected == Err::<ActionView, Seq<char>>(err.path@),
    }
}

impl PackageData {
    /// The actions of the package, deployed to `dest`.
    pub fn action_iter(&self, dest: &Path) -> (iter: ActionIter<'_>)
        ensures
            iter.package() == self.path@,
            iter.dest() == dest@,
            iter.rest() == self.spec.directives@,
    {
        ActionIter { dest: dest.clone(), path: &self.path, directives: &self.spec.directives, pos: 0 }
    }
}

/// The actions of a package, one for each directive, in their order.
#[derive(Debug)]
pub struct ActionIter<'g> {
    dest: Path,
    path: &'g Path,
    directives: &'g Vec<Directive>,
    pos: usize,
}

impl<'g> ActionIter<'g> {
    /// The root directory of the package.
    pub closed spec fn package(&self) -> PathView {
        self.path@
    }

    /// The root directory that the package is deployed to.
    pub closed spec fn dest(&self) -> PathView {
        self.dest@
    }

    /// The directives that have not been turned into actions yet.
    pub closed spec fn rest(&self) -> Seq<Directive> {
        if self.pos <= self.directives@.len() {
            self.directives@.skip(self.pos as int)
        } else {
            Seq::empty()
        }
    }

    /// The action of the next directive, if one is left.
    pub fn next(&mut self) -> (item: Option<Result<Action<'g>, PathError>>)
        ensures
            final(self).package() == old(self).package(),
            final(self).dest() == old(self).dest(),
            old(self).rest().len() == 0 ==> item is None && final(self).rest() == old(self).rest(),
            old(self).rest().len() > 0 ==> {
                &&& final(self).rest() == old(self).rest().drop_first()
                &&& item matches Some(res) && yields(
                    res,
                    action_of(old(self).package(), old(self).dest(), old(self).rest()[0]),
                )
                &&& known_for(old(self).package(), old(self).dest(), old(self).rest()[0])
            },
    {
        if self.pos >= self.directives.len() {
            return None;
        }
        let directives: &'g Vec<Directive> = self.directives;
        let directive = &directives[self.pos];
        self.pos = self.pos + 1;
        assert(self.rest() == old(self).rest().drop_first());
        Some(self.get_directive(directive))
    }

    fn get_directive(&self, directive: &'g Directive) -> (res: Result<Action<'g>, PathError>)
        ensures
            yields(res, action_of(self.package(), self.dest(), *directive)),
            known_for(self.package(), self.dest(), *directive),
    {
        match directive {
            Directive::File(file) => self.get_file(file),
            Directive::Hook(hook) => self.get_hook(hook),
        }
    }

    fn get_file(&self, file: &'g File) -> (res: Result<Action<'g>, PathError>)
        ensures
            yields(res, action_of(self.package(), self.dest(), Directive::File(*file))),
            known_for(self.package(), self.dest(), Directive::File(*file)),
    {
        match file {
            File::Regular(file) => self.get_file_regular(file),
            File::Templated(file) => self.get_file_template(file),
            File::Tree(file) => self.get_file_tree(file),
            File::Generated(file) => self.get_file_generated(file),
            File::Dir(file) => self.get_file_dir(file),
        }
    }

    fn get_file_regular(&self, file: &RegularFile) -> (res: Result<Action<'g>, PathError>)
        ensures
            yields(res, regular_action(self.package(), self.dest(), *file)),
            known_for(self.package(), self.dest(), Directive::File(File::Regular(*file))),
    {
        // Normalize src.
        let src = match self.join_package(file.src.as_str()) {
            Ok(src) => src,
            Err(err) => {
                return Err(err);
            },
        };
        // Normalize dest (or use src if absent).
        let target = match &file.dest {
            Some(dest) => dest,
            None => &file.src,
        };
        let dest = match self.join_dest(target.as_str()) {
            Ok(dest) => dest,
            Err(err) => {
                return Err(err);
            },
        };
        // Determine copy flag.
        let copy = match file.link_type {
            LinkType::Link => false,
            LinkType::Copy => true,
        };
        Ok(Action::Link(LinkAction { src, dest, copy, optional: file.optional }))
    }

    fn get_file_template(&self, file: &'g TemplatedFile) -> (res: Result<Action<'g>, PathError>)
        ensures
            yields(res, template_action(self.package(), self.dest(), *file)),
            known_for(self.package(), self.dest(), Directive::File(File::Templated(*file))),
    {
        // Normalize src.
        let src = match self.join_package(file.src.as_str()) {
            Ok(src) => src,
            Err(err) => {
                return Err(err);
            },
        };
        // Normalize dest.
        let dest = match self.join_dest(file.dest.as_str()) {
            Ok(dest) => dest,
            Err(err) => {
                return Err(err);
            },
        };
        match &file.typ {
            TemplatedFileType::Handlebars(hbs) => Ok(
                Action::Handlebars(
                    HandlebarsAction {
                        src,
                        dest,
                        vars: &file.vars,
                        optional: file.optional,
                        partials: &hbs.partials,
                    },
                ),
            ),
            TemplatedFileType::Liquid(_) => Ok(
                Action::Liquid(
                    LiquidAction { src, dest, vars: &file.vars, optional: file.optional },
                ),
            ),
        }
    }

    fn get_file_tree(&self, file: &TreeFile) -> (res: Result<Action<'g>, PathError>)
        ensures
            yields(res, tree_action(self.package(), self.dest(), *file)),
            known_for(self.package(), self.dest(), Directive::File(File::Tree(*file))),
    {
        // Normalize src.
        let src = match self.join_package(file.src.as_str()) {
            Ok(src) => src,
            Err(err) => {
                return Err(err);
            },
        };
        // Normalize dest.
        let dest = match &file.dest {
            Some(dest) => match self.join_dest(dest.as_str()) {
                Ok(dest) => dest,
                Err(err) => {
                    return Err(err);
                },
            },
            None => self.dest.clone(),
        };
        let globs = match &file.globs {
            Some(globs) => copy_texts(globs),
            None => {
                let mut globs: Vec<String> = Vec::new();
                globs.push(String::from_str("**/*"));
                assert(views(globs@) == seq!["**/*"@]);
                globs
            },
        };
        let ignore = match &file.ignore {
            Some(ignore) => copy_texts(ignore),
            None => {
                let ignore: Vec<String> = Vec::new();
                assert(views(ignore@) == Seq::<Seq<char>>::empty());
                ignore
            },
        };
        // Determine copy flag.
        let copy = match file.link_type {
            LinkType::Link => false,
            LinkType::Copy => true,
        };
        Ok(Action::Tree(TreeAction { src, dest, globs, ignore, copy, optional: file.optional }))
    }

    fn get_file_generated(&self, file: &'g GeneratedFile) -> (res: Result<Action<'g>, PathError>)
        ensures
            yields(res, generated_action(self.dest(), *file)),
            known_for(self.package(), self.dest(), Directive::File(File::Generated(*file))),
    {
        // Normalize dest.
        let dest = match self.join_dest(file.dest.as_str()) {
            Ok(dest) => dest,
            Err(err) => {
                return Err(err);
            },
        };
        match &file.typ {
            GeneratedFileTyp::Empty(_) => Ok(
                Action::Write(WriteAction { dest, contents: String::new() }),
            ),
            GeneratedFileTyp::String(s) => Ok(
                Action::Write(WriteAction { dest, contents: s.contents.clone() }),
            ),
            GeneratedFileTyp::Yaml(y) => Ok(
                Action::Yaml(YamlAction { dest, values: &y.values, header: &y.header }),
            ),
            GeneratedFileTyp::Toml(t) => Ok(
                Action::Toml(TomlAction { dest, values: &t.values, header: &t.header }),
            ),
            GeneratedFileTyp::Json(j) => Ok(Action::Json(JsonAction { dest, values: &j.values })),
        }
    }

    fn get_file_dir(&self, file: &DirFile) -> (res: Result<Action<'g>, PathError>)
        ensures
            yields(res, dir_action(self.dest(), *file)),
            known_for(self.package(), self.dest(), Directive::File(File::Dir(*file))),
    {
        match self.join_dest(file.dest.as_str()) {
            Ok(path) => Ok(Action::Mkdir(MkdirAction { path, parents: file.parents })),
            Err(err) => Err(err),
        }
    }

    fn get_hook(&self, hook: &Hook) -> (res: Result<Action<'g>, PathError>)
        ensures
            yields(res, action_of(self.package(), self.dest(), Directive::Hook(*hook))),
            known_for(self.package(), self.dest(), Directive::Hook(*hook)),
    {
        match hook {
            Hook::Cmd(cmd) => self.get_hook_cmd(cmd),
            Hook::Fun(fun) => self.get_hook_fun(fun),
        }
    }

    /// The directory in which a hook runs.
    fn get_start(&self, start: &Option<String>) -> (res: Result<Path, PathError>)
        ensures
            match res {
                Ok(path) => normal_or(
                    self.package(),
                    *start,
                    self.package(),
                ) == Ok::<PathView, Seq<char>>(path@),
                Err(err) => normal_or(
                    self.package(),
                    *start,
                    self.package(),
                ) == Err::<PathView, Seq<char>>(err.path@),
            },
            known_start(self.package(), *start),
    {
        match start {
            Some(start) => self.join_package(start.as_str()),
            None => Ok(self.path.clone()),
        }
    }

    fn get_hook_cmd(&self, hook: &CmdHook) -> (res: Result<Action<'g>, PathError>)
        ensures
            yields(res, cmd_action(self.package(), *hook)),
            known_for(self.package(), self.dest(), Directive::Hook(Hook::Cmd(*hook))),
    {
        // Normalize start path.
        let start = match self.get_start(&hook.start) {
            Ok(start) => start,
            Err(err) => {
                return Err(err);
            },
        };
        let command = hook.command.clone();
        // Use sh as default shell.
        let shell = match &hook.shell {
            Some(shell) => shell.clone(),
            None => String::from_str("sh"),
        };
        let clean_env = match hook.clean_env {
            Some(clean_env) => clean_env,
            None => false,
        };
        let env = match &hook.env {
            Some(env) => copy_pairs(env),
            None => {
                let env: Vec<(String, String)> = Vec::new();
                assert(pairs_view(env@) == Seq::<(Seq<char>, Seq<char>)>::empty());
                env
            },
        };
        Ok(Action::Command(CommandAction { command, start, shell, clean_env, env }))
    }

    fn get_hook_fun(&self, hook: &FunHook) -> (res: Result<Action<'g>, PathError>)
        ensures
            yields(res, fun_action(self.package(), *hook)),
            known_for(self.package(), self.dest(), Directive::Hook(Hook::Fun(*hook))),
    {
        let start = match self.get_start(&hook.start) {
            Ok(start) => start,
            Err(err) => {
                return Err(err);
            },
        };
        Ok(Action::Function(FunctionAction { function: hook.name.clone(), start }))
    }

    fn join_package(&self, path: &str) -> (res: Result<Path, PathError>)
        ensures
            res is Ok <==> normal(self.package(), path@) is Some,
            res matches Ok(p) ==> normal(self.package(), path@) == Some(p@),
            res matches Err(err) ==> err.path@ == path@,
            known(self.package(), path@),
    {
        Self::normalize_path(path, self.path)
    }

    fn join_dest(&self, path: &str) -> (res: Result<Path, PathError>)
        ensures
            res is Ok <==> normal(self.dest(), path@) is Some,
            res matches Ok(p) ==> normal(self.dest(), path@) == Some(p@),
            res matches Err(err) ==> err.path@ == path@,
            known(self.dest(), path@),
    {
        Self::normalize_path(path, &self.dest)
    }

    fn normalize_path(path: &str, start: &Path) -> (res: Result<Path, PathError>)
        ensures
            res is Ok <==> normal(start@, path@) is Some,
            res matches Ok(p) ==> normal(start@, path@) == Some(p@),
            res matches Err(err) ==> err.path@ == path@,
            known(start@, path@),
    {
        match normalize_path(path, start) {
            Some(normal) => Ok(normal),
            None => Err(PathError { path: String::from_str(path) }),
        }
    }
}

} // verus!
