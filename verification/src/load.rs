//! Building the description of a package, one declaration at a time.
//!
//! A [`SpecObject`] is what the configuration script of a package talks to:
//! each of its methods stands for one declaration of the script and adds what
//! was declared to the description, after filling in what was left out.

use vstd::prelude::*;
use crate::package::{
    CmdHook, Dep, DirFile, Directive, EmptyGeneratedFile, File, FunHook, GeneratedFile,
    GeneratedFileTyp, HandlebarsTemplatedFile, Hook, JsonGeneratedFile, LinkType,
    LiquidTemplatedFile, NonZeroExitBehavior, Object, RegularFile, Spec, StringGeneratedFile,
    TemplatedFile, TemplatedFileType, TomlGeneratedFile, TreeFile, YamlGeneratedFile,
};

verus! {

/// Calls `uuid::Uuid::new_v4` and takes the text of the identifier, which is
/// drawn at random: nothing is promised of it.
#[verifier::external_body]
fn random_name() -> (name: String) {
    uuid::Uuid::new_v4().to_string()
}

/// The description of a package while its script runs.
#[derive(Debug, PartialEq)]
pub struct SpecObject {
    pub spec: Spec,
}

impl SpecObject {
    /// A description without a name, dependencies or directives.
    pub fn new() -> (object: Self)
        ensures
            object.spec.name@ == Seq::<char>::empty(),
            object.spec.deps@ == Seq::<Dep>::empty(),
            object.spec.directives@ == Seq::<Directive>::empty(),
    {
        Self { spec: Spec { name: String::new(), deps: Vec::new(), directives: Vec::new() } }
    }

    /// Whether `after` is `before` with `directive` added at the end.
    pub open spec fn declared(before: Self, after: Self, directive: Directive) -> bool {
        &&& after.spec.name == before.spec.name
        &&& after.spec.deps == before.spec.deps
        &&& after.spec.directives@ == before.spec.directives@.push(directive)
    }

    /// Names the package.
    pub fn name(&mut self, name: String)
        ensures
            final(self).spec.name == name,
            final(self).spec.deps == old(self).spec.deps,
            final(self).spec.directives == old(self).spec.directives,
    {
        self.spec.name = name;
    }

    /// Declares the packages at `paths` as dependencies, in their order.
    pub fn dep(&mut self, paths: Vec<String>)
        ensures
            final(self).spec.name == old(self).spec.name,
            final(self).spec.directives == old(self).spec.directives,
            final(self).spec.deps@ == old(self).spec.deps@ + Seq::new(
                paths@.len(),
                |i: int| Dep { path: paths@[i] },
            ),
    {
        let ghost all = Seq::new(paths@.len(), |i: int| Dep { path: paths@[i] });
        let mut paths = paths;
        let mut rest: Vec<Dep> = Vec::new();
        // Taken from the end, so that each text is moved and none is copied.
        while paths.len() > 0
            invariant
                paths@.len() <= all.len(),
                rest@.len() == all.len() - paths@.len(),
                forall|i: int| 0 <= i < paths@.len() ==> all[i] == (Dep { path: paths@[i] }),
                forall|i: int|
                    0 <= i < rest@.len() ==> #[trigger] rest@[i] == all[all.len() - 1 - i],
            decreases paths@.len(),
        {
            let path = paths.pop().unwrap();
            rest.push(Dep { path });
        }
        let ghost before = self.spec.deps@;
        while rest.len() > 0
            invariant
                rest@.len() <= all.len(),
                forall|i: int|
                    0 <= i < rest@.len() ==> #[trigger] rest@[i] == all[all.len() - 1 - i],
                self.spec.deps@ == before + all.take(all.len() - rest@.len()),
                self.spec.name == old(self).spec.name,
                self.spec.directives == old(self).spec.directives,
            decreases rest@.len(),
        {
            let ghost n = all.len() - rest@.len();
            let dep = rest.pop().unwrap();
            self.spec.deps.push(dep);
            assert(all.take(n + 1) == all.take(n).push(all[n]));
        }
        assert(all.take(all.len() as int) == all);
    }

    /// Declares a file that is linked, or copied if `link_type` says so.
    pub fn file(
        &mut self,
        src: String,
        dest: Option<String>,
        link_type: Option<LinkType>,
        optional: Option<bool>,
    )
        ensures
            Self::declared(
                *old(self),
                *final(self),
                Directive::File(
                    File::Regular(
                        RegularFile {
                            src,
                            dest,
                            link_type: link_type.unwrap_or(LinkType::Link),
                            optional: optional.unwrap_or(false),
                        },
                    ),
                ),
            ),
    {
        let link_type = match link_type {
            Some(link_type) => link_type,
            None => LinkType::Link,
        };
        let optional = match optional {
            Some(optional) => optional,
            None => false,
        };
        self.spec.directives.push(
            Directive::File(File::Regular(RegularFile { src, dest, link_type, optional })),
        );
    }

    /// Declares a directory whose files are linked or copied one by one.
    pub fn tree(
        &mut self,
        src: String,
        dest: Option<String>,
        link_type: Option<LinkType>,
        globs: Option<Vec<String>>,
        ignore: Option<Vec<String>>,
        optional: Option<bool>,
    )
        ensures
            Self::declared(
                *old(self),
                *final(self),
                Directive::File(
                    File::Tree(
                        TreeFile {
                            src,
                            dest,
                            globs,
                            ignore,
                            link_type: link_type.unwrap_or(LinkType::Link),
                            optional: optional.unwrap_or(false),
                        },
                    ),
                ),
            ),
    {
        let link_type = match link_type {
            Some(link_type) => link_type,
            None => LinkType::Link,
        };
        let optional = match optional {
            Some(optional) => optional,
            None => false,
        };
        self.spec.directives.push(
            Directive::File(
                File::Tree(TreeFile { src, dest, globs, ignore, link_type, optional }),
            ),
        );
    }

    /// Declares a file that is rendered from a Handlebars template.
    pub fn hbs(
        &mut self,
        src: String,
        dest: String,
        vars: Object,
        partials: Vec<(String, String)>,
        optional: Option<bool>,
    )
        ensures
            Self::declared(
                *old(self),
                *final(self),
                Directive::File(
                    File::Templated(
                        TemplatedFile {
                            src,
                            dest,
                            vars,
                            typ: TemplatedFileType::Handlebars(
                                HandlebarsTemplatedFile { partials },
                            ),
                            optional: optional.unwrap_or(false),
                        },
                    ),
                ),
            ),
    {
        let optional = match optional {
            Some(optional) => optional,
            None => false,
        };
        let typ = TemplatedFileType::Handlebars(HandlebarsTemplatedFile { partials });
        self.spec.directives.push(
            Directive::File(File::Templated(TemplatedFile { src, dest, vars, typ, optional })),
        );
    }

    /// Declares a file that is rendered from a Liquid template.
    pub fn liquid(&mut self, src: String, dest: String, vars: Object, optional: Option<bool>)
        ensures
            Self::declared(
                *old(self),
                *final(self),
                Directive::File(
                    File::Templated(
                        TemplatedFile {
                            src,
                            dest,
                            vars,
                            typ: TemplatedFileType::Liquid(LiquidTemplatedFile {  }),
                            optional: optional.unwrap_or(false),
                        },
                    ),
                ),
            ),
    {
        let optional = match optional {
            Some(optional) => optional,
            None => false,
        };
        let typ = TemplatedFileType::Liquid(LiquidTemplatedFile {  });
        self.spec.directives.push(
            Directive::File(File::Templated(TemplatedFile { src, dest, vars, typ, optional })),
        );
    }

    /// Declares a generated file.
    fn generated(&mut self, dest: String, typ: GeneratedFileTyp)
        ensures
            Self::declared(
                *old(self),
                *final(self),
                Directive::File(File::Generated(GeneratedFile { dest, typ })),
            ),
    {
        self.spec.directives.push(Directive::File(File::Generated(GeneratedFile { dest, typ })));
    }

    /// Declares an empty file.
    pub fn empty(&mut self, dest: String)
        ensures
            Self::declared(
                *old(self),
                *final(self),
                Directive::File(
                    File::Generated(
                        GeneratedFile { dest, typ: GeneratedFileTyp::Empty(EmptyGeneratedFile) },
                    ),
                ),
            ),
    {
        self.generated(dest, GeneratedFileTyp::Empty(EmptyGeneratedFile));
    }

    /// Declares a file with the given contents.
    pub fn str(&mut self, dest: String, contents: String)
        ensures
            Self::declared(
                *old(self),
                *final(self),
                Directive::File(
                    File::Generated(
                        GeneratedFile {
                            dest,
                            typ: GeneratedFileTyp::String(StringGeneratedFile { contents }),
                        },
                    ),
                ),
            ),
    {
        self.generated(dest, GeneratedFileTyp::String(StringGeneratedFile { contents }));
    }

    /// Declares a YAML file of the given values, below an optional header.
    pub fn yaml(&mut self, dest: String, values: Object, header: Option<String>)
        ensures
            Self::declared(
                *old(self),
                *final(self),
                Directive::File(
                    File::Generated(
                        GeneratedFile {
                            dest,
                            typ: GeneratedFileTyp::Yaml(YamlGeneratedFile { values, header }),
                        },
                    ),
                ),
            ),
    {
        self.generated(dest, GeneratedFileTyp::Yaml(YamlGeneratedFile { values, header }));
    }

    /// Declares a TOML file of the given values, below an optional header.
    pub fn toml(&mut self, dest: String, values: Object, header: Option<String>)
        ensures
            Self::declared(
                *old(self),
                *final(self),
                Directive::File(
                    File::Generated(
                        GeneratedFile {
                            dest,
                            typ: GeneratedFileTyp::Toml(TomlGeneratedFile { values, header }),
                        },
                    ),
                ),
            ),
    {
        self.generated(dest, GeneratedFileTyp::Toml(TomlGeneratedFile { values, header }));
    }

    /// Declares a JSON file of the given values.
    pub fn json(&mut self, dest: String, values: Object)
        ensures
            Self::declared(
                *old(self),
                *final(self),
                Directive::File(
                    File::Generated(
                        GeneratedFile {
                            dest,
                            typ: GeneratedFileTyp::Json(JsonGeneratedFile { values }),
                        },
                    ),
                ),
            ),
    {
        self.generated(dest, GeneratedFileTyp::Json(JsonGeneratedFile { values }));
    }

    /// Declares a directory.
    pub fn mkdir(&mut self, dest: String, parents: bool)
        ensures
            Self::declared(
                *old(self),
                *final(self),
                Directive::File(File::Dir(DirFile { dest, parents })),
            ),
    {
        self.spec.directives.push(Directive::File(File::Dir(DirFile { dest, parents })));
    }

    /// Declares a command that is run in a shell.
    pub fn cmd(
        &mut self,
        command: String,
        start: Option<String>,
        shell: Option<String>,
        stdout: Option<bool>,
        stderr: Option<bool>,
        clean_env: Option<bool>,
        env: Option<Vec<(String, String)>>,
        nonzero_exit: Option<NonZeroExitBehavior>,
    )
        ensures
            Self::declared(
                *old(self),
                *final(self),
                Directive::Hook(
                    Hook::Cmd(
                        CmdHook {
                            command,
                            start,
                            shell,
                            stdout,
                            stderr,
                            clean_env,
                            env,
                            nonzero_exit,
                        },
                    ),
                ),
            ),
    {
        self.spec.directives.push(
            Directive::Hook(
                Hook::Cmd(
                    CmdHook {
                        command,
                        start,
                        shell,
                        stdout,
                        stderr,
                        clean_env,
                        env,
                        nonzero_exit,
                    },
                ),
            ),
        );
    }

    /// Declares a call of a function of the scripting host, and returns the name,
    /// drawn at random, under which the host is to register that function.
    pub fn fun(&mut self, start: Option<String>, nonzero_exit: Option<NonZeroExitBehavior>) -> (name:
        String)
        ensures
            Self::declared(
                *old(self),
                *final(self),
                Directive::Hook(Hook::Fun(FunHook { name, start, nonzero_exit })),
            ),
    {
        let name = random_name();
        self.fun_named(name.clone(), start, nonzero_exit);
        name
    }

    /// Declares a call of the function that the scripting host has registered
    /// under `name`.
    pub fn fun_named(
        &mut self,
        name: String,
        start: Option<String>,
        nonzero_exit: Option<NonZeroExitBehavior>,
    )
        ensures
            Self::declared(
                *old(self),
                *final(self),
                Directive::Hook(Hook::Fun(FunHook { name, start, nonzero_exit })),
            ),
    {
        self.spec.directives.push(Directive::Hook(Hook::Fun(FunHook { name, start, nonzero_exit })));
    }
}

} // verus!
