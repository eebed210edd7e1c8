//! Declarative deployment of packages of dotfiles.
//!
//! A package declares what it wants in place: links, copies, generated files,
//! directories, hooks. Deploying it changes a live filesystem, so every change
//! has to be reversible. The crate holds the decisions of such a deployment,
//! each with a proved contract; touching the filesystem is left to the caller.
//!
//! - [`path`]: absolute, lexically clean paths.
//! - [`fs`]: what stands where, as far as it was looked at.
//! - [`package`], [`load`]: the description of a package and how it is built.
//! - [`graph`], [`linker`]: the actions that the directives of packages ask for.
//! - [`action`]: resolving an action into operations, by the state of the
//!   destination.
//! - [`op`]: the operations, their inverses, and their bytes in a journal.
//! - [`effect`]: what each operation does to a filesystem, and the laws of
//!   undoing and of deploying twice.
//! - [`journal`]: the append-only log of records and commits, its rollback, and
//!   reading it back.
//! - [`process`]: running the operations of an action against a journal.
//!
//! A journal holds, for each operation that was applied, the inverse of what
//! was done; a commit closes the operations of one action. To take a
//! transaction back is to apply its records, the newest first. The rollback of
//! a journal writes that down in the journal itself: behind each record that it
//! passes it appends the record's twin, so that a rollback can be rolled back in
//! turn.

pub mod action;
pub mod effect;
pub mod fs;
pub mod graph;
pub mod journal;
pub mod linker;
pub mod load;
pub mod op;
pub mod package;
pub mod path;
pub mod process;
