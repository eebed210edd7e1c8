//! The primitive filesystem operations and their inverses.
//!
//! An [`Op`] is one side effect: a link, a copy, a new file, a write, a new
//! directory, a removal, a command or a function call. All but the last two come
//! in pairs: each has an undo twin that takes its effect back. Applying an
//! operation is left to the caller; what it reports back is a [`Finished`], and
//! the inverse of a finished operation is computed here.

use vstd::prelude::*;
use vstd::utf8::{decode_utf8, valid_utf8};
use crate::fs::PathView;
use crate::journal::rollback::Rollback;
use crate::journal::IoError;
use crate::path::{views, Path};

pub mod ctx;
pub mod decode;
pub mod encode;
pub mod link;

pub use ctx::FinishCtx;
pub use link::{LinkOp, LinkOpError, LinkUndoOp};

verus! {

/// An operation as a plain value.
pub enum OpView {
    Link { src: PathView, dest: PathView },
    LinkUndo { src: PathView, dest: PathView },
    Copy { src: PathView, dest: PathView, dir: bool },
    CopyUndo { src: PathView, dest: PathView, dir: bool },
    Create { path: PathView },
    CreateUndo { path: PathView },
    Write { path: PathView, contents: Seq<u8> },
    WriteUndo { path: PathView, contents: Seq<u8>, backup: Option<PathView> },
    Mkdir { path: PathView },
    MkdirUndo { path: PathView },
    Rm { path: PathView, dir: bool },
    RmUndo { path: PathView, dir: bool, backup: Option<PathView> },
    Command {
        command: Seq<char>,
        start: PathView,
        shell: Seq<char>,
        clean_env: bool,
        env: Seq<(Seq<char>, Seq<char>)>,
    },
    Function { name: Seq<char>, start: PathView },
}

/// The view of a path that may be missing.
pub open spec fn path_view(path: Option<Path>) -> Option<PathView> {
    match path {
        Some(p) => Some(p@),
        None => None,
    }
}

/// The views of a list of pairs of strings.
pub open spec fn pairs_view(pairs: Seq<(String, String)>) -> Seq<(Seq<char>, Seq<char>)> {
    Seq::new(pairs.len(), |i: int| (pairs[i].0@, pairs[i].1@))
}

/// Calls `String::from_utf8` of the standard library, which gives the text that
/// the bytes spell in UTF-8, and none if they are not UTF-8.
#[verifier::external_body]
pub(crate) fn text_of_bytes(bytes: Vec<u8>) -> (text: Option<String>)
    ensures
        text is Some <==> valid_utf8(bytes@),
        text matches Some(t) ==> t@ == decode_utf8(bytes@),
{
    String::from_utf8(bytes).ok()
}

/// A copy of a path that may be missing.
pub fn copy_path(path: &Option<Path>) -> (copy: Option<Path>)
    ensures
        path_view(copy) == path_view(*path),
{
    match path {
        Some(p) => Some(p.clone()),
        None => None,
    }
}

/// A copy of a list of bytes.
pub fn copy_bytes(bytes: &Vec<u8>) -> (copy: Vec<u8>)
    ensures
        copy@ == bytes@,
{
    let mut copy: Vec<u8> = Vec::new();
    let mut i: usize = 0;
    while i < bytes.len()
        invariant
            i <= bytes@.len(),
            copy@ == bytes@.take(i as int),
        decreases bytes@.len() - i,
    {
        copy.push(bytes[i]);
        i = i + 1;
        assert(bytes@.take(i as int) == bytes@.take(i - 1).push(bytes@[i - 1]));
    }
    assert(bytes@.take(i as int) == bytes@);
    copy
}

/// A copy of a list of strings.
pub fn copy_texts(texts: &Vec<String>) -> (copy: Vec<String>)
    ensures
        views(copy@) == views(texts@),
{
    let mut copy: Vec<String> = Vec::new();
    let mut i: usize = 0;
    while i < texts.len()
        invariant
            i <= texts@.len(),
            copy@.len() == i,
            forall|j: int| 0 <= j < i ==> copy@[j]@ == texts@[j]@,
        decreases texts@.len() - i,
    {
        copy.push(texts[i].clone());
        i = i + 1;
    }
    assert(views(copy@) =~= views(texts@));
    copy
}

/// A copy of a list of pairs of strings.
pub fn copy_pairs(pairs: &Vec<(String, String)>) -> (copy: Vec<(String, String)>)
    ensures
        pairs_view(copy@) == pairs_view(pairs@),
{
    let mut copy: Vec<(String, String)> = Vec::new();
    let mut i: usize = 0;
    while i < pairs.len()
        invariant
            i <= pairs@.len(),
            copy@.len() == i,
            forall|j: int| 0 <= j < i ==> copy@[j].0@ == pairs@[j].0@ && copy@[j].1@ == pairs@[j].1@,
        decreases pairs@.len() - i,
    {
        copy.push((pairs[i].0.clone(), pairs[i].1.clone()));
        i = i + 1;
    }
    assert(pairs_view(copy@) =~= pairs_view(pairs@));
    copy
}

/// Copies a file or, with `dir`, a directory tree from `src` to `dest`.
#[derive(Debug, PartialEq)]
pub struct CopyOp {
    pub src: Path,
    pub dest: Path,
    pub dir: bool,
}

/// Removes what a [`CopyOp`] put at `dest`.
#[derive(Debug, PartialEq)]
pub struct CopyUndoOp {
    pub src: Path,
    pub dest: Path,
    pub dir: bool,
}

/// Creates an empty file.
#[derive(Debug, PartialEq)]
pub struct CreateOp {
    pub path: Path,
}

/// Removes the empty file that a [`CreateOp`] made.
#[derive(Debug, PartialEq)]
pub struct CreateUndoOp {
    pub path: Path,
}

/// Replaces the contents of a file.
#[derive(Debug, PartialEq)]
pub struct WriteOp {
    pub path: Path,
    pub contents: Vec<u8>,
}

/// Puts back the bytes that a [`WriteOp`] replaced. They are kept at `backup`;
/// without a backup there were none. `contents` is what the write had written.
#[derive(Debug, PartialEq)]
pub struct WriteUndoOp {
    pub path: Path,
    pub contents: Vec<u8>,
    pub backup: Option<Path>,
}

/// Creates one directory; its parent has to exist.
#[derive(Debug, PartialEq)]
pub struct MkdirOp {
    pub path: Path,
}

/// Removes the directory that a [`MkdirOp`] made, if it is empty.
#[derive(Debug, PartialEq)]
pub struct MkdirUndoOp {
    pub path: Path,
}

/// Removes a file or, with `dir`, a directory and all below it.
#[derive(Debug, PartialEq)]
pub struct RmOp {
    pub path: Path,
    pub dir: bool,
}

/// Puts back what an [`RmOp`] removed, from the copy kept at `backup`.
#[derive(Debug, PartialEq)]
pub struct RmUndoOp {
    pub path: Path,
    pub dir: bool,
    pub backup: Option<Path>,
}

/// Runs a command in a shell.
#[derive(Debug, PartialEq)]
pub struct CommandOp {
    pub command: String,
    /// The directory in which the command runs.
    pub start: Path,
    pub shell: String,
    /// Whether the command starts from an empty environment.
    pub clean_env: bool,
    pub env: Vec<(String, String)>,
}

/// Calls a function of the scripting host. The core never looks into it: it
/// only carries the name under which the host has registered the function.
#[derive(Debug, PartialEq)]
pub struct FunctionOp {
    pub name: String,
    /// The directory in which the function runs.
    pub start: Path,
}

impl View for CopyOp {
    type V = OpView;

    open spec fn view(&self) -> OpView {
        OpView::Copy { src: self.src@, dest: self.dest@, dir: self.dir }
    }
}

impl View for CopyUndoOp {
    type V = OpView;

    open spec fn view(&self) -> OpView {
        OpView::CopyUndo { src: self.src@, dest: self.dest@, dir: self.dir }
    }
}

impl View for CreateOp {
    type V = OpView;

    open spec fn view(&self) -> OpView {
        OpView::Create { path: self.path@ }
    }
}

impl View for CreateUndoOp {
    type V = OpView;

    open spec fn view(&self) -> OpView {
        OpView::CreateUndo { path: self.path@ }
    }
}

impl View for WriteOp {
    type V = OpView;

    open spec fn view(&self) -> OpView {
        OpView::Write { path: self.path@, contents: self.contents@ }
    }
}

impl View for WriteUndoOp {
    type V = OpView;

    open spec fn view(&self) -> OpView {
        OpView::WriteUndo {
            path: self.path@,
            contents: self.contents@,
            backup: path_view(self.backup),
        }
    }
}

impl View for MkdirOp {
    type V = OpView;

    open spec fn view(&self) -> OpView {
        OpView::Mkdir { path: self.path@ }
    }
}

impl View for MkdirUndoOp {
    type V = OpView;

    open spec fn view(&self) -> OpView {
        OpView::MkdirUndo { path: self.path@ }
    }
}

impl View for RmOp {
    type V = OpView;

    open spec fn view(&self) -> OpView {
        OpView::Rm { path: self.path@, dir: self.dir }
    }
}

impl View for RmUndoOp {
    type V = OpView;

    open spec fn view(&self) -> OpView {
        OpView::RmUndo { path: self.path@, dir: self.dir, backup: path_view(self.backup) }
    }
}

impl View for CommandOp {
    type V = OpView;

    open spec fn view(&self) -> OpView {
        OpView::Command {
            command: self.command@,
            start: self.start@,
            shell: self.shell@,
            clean_env: self.clean_env,
            env: pairs_view(self.env@),
        }
    }
}

impl View for FunctionOp {
    type V = OpView;

    open spec fn view(&self) -> OpView {
        OpView::Function { name: self.name@, start: self.start@ }
    }
}

impl Clone for CopyOp {
    fn clone(&self) -> (copy: Self)
        ensures
            copy@ == self@,
    {
        CopyOp { src: self.src.clone(), dest: self.dest.clone(), dir: self.dir }
    }
}

impl Clone for CopyUndoOp {
    fn clone(&self) -> (copy: Self)
        ensures
            copy@ == self@,
    {
        CopyUndoOp { src: self.src.clone(), dest: self.dest.clone(), dir: self.dir }
    }
}

impl Clone for CreateOp {
    fn clone(&self) -> (copy: Self)
        ensures
            copy@ == self@,
    {
        CreateOp { path: self.path.clone() }
    }
}

impl Clone for CreateUndoOp {
    fn clone(&self) -> (copy: Self)
        ensures
            copy@ == self@,
    {
        CreateUndoOp { path: self.path.clone() }
    }
}

impl Clone for WriteOp {
    fn clone(&self) -> (copy: Self)
        ensures
            copy@ == self@,
    {
        WriteOp { path: self.path.clone(), contents: copy_bytes(&self.contents) }
    }
}

impl Clone for WriteUndoOp {
    fn clone(&self) -> (copy: Self)
        ensures
            copy@ == self@,
    {
        WriteUndoOp {
            path: self.path.clone(),
            contents: copy_bytes(&self.contents),
            backup: copy_path(&self.backup),
        }
    }
}

impl Clone for MkdirOp {
    fn clone(&self) -> (copy: Self)
        ensures
            copy@ == self@,
    {
        MkdirOp { path: self.path.clone() }
    }
}

impl Clone for MkdirUndoOp {
    fn clone(&self) -> (copy: Self)
        ensures
            copy@ == self@,
    {
        MkdirUndoOp { path: self.path.clone() }
    }
}

impl Clone for RmOp {
    fn clone(&self) -> (copy: Self)
        ensures
            copy@ == self@,
    {
        RmOp { path: self.path.clone(), dir: self.dir }
    }
}

impl Clone for RmUndoOp {
    fn clone(&self) -> (copy: Self)
        ensures
            copy@ == self@,
    {
        RmUndoOp { path: self.path.clone(), dir: self.dir, backup: copy_path(&self.backup) }
    }
}

impl Clone for CommandOp {
    fn clone(&self) -> (copy: Self)
        ensures
            copy@ == self@,
    {
        CommandOp {
            command: self.command.clone(),
            start: self.start.clone(),
            shell: self.shell.clone(),
            clean_env: self.clean_env,
            env: copy_pairs(&self.env),
        }
    }
}

impl Clone for FunctionOp {
    fn clone(&self) -> (copy: Self)
        ensures
            copy@ == self@,
    {
        FunctionOp { name: self.name.clone(), start: self.start.clone() }
    }
}

/// A primitive filesystem operation.
#[derive(Debug, PartialEq)]
pub enum Op {
    Link(LinkOp),
    LinkUndo(LinkUndoOp),
    Copy(CopyOp),
    CopyUndo(CopyUndoOp),
    Create(CreateOp),
    CreateUndo(CreateUndoOp),
    Write(WriteOp),
    WriteUndo(WriteUndoOp),
    Mkdir(MkdirOp),
    MkdirUndo(MkdirUndoOp),
    Rm(RmOp),
    RmUndo(RmUndoOp),
    Command(CommandOp),
    Function(FunctionOp),
}

impl View for Op {
    type V = OpView;

    open spec fn view(&self) -> OpView {
        match self {
            Op::Link(op) => op@,
            Op::LinkUndo(op) => op@,
            Op::Copy(op) => op@,
            Op::CopyUndo(op) => op@,
            Op::Create(op) => op@,
            Op::CreateUndo(op) => op@,
            Op::Write(op) => op@,
            Op::WriteUndo(op) => op@,
            Op::Mkdir(op) => op@,
            Op::MkdirUndo(op) => op@,
            Op::Rm(op) => op@,
            Op::RmUndo(op) => op@,
            Op::Command(op) => op@,
            Op::Function(op) => op@,
        }
    }
}

impl Clone for Op {
    fn clone(&self) -> (copy: Self)
        ensures
            copy@ == self@,
    {
        match self {
            Op::Link(op) => Op::Link(op.clone()),
            Op::LinkUndo(op) => Op::LinkUndo(op.clone()),
            Op::Copy(op) => Op::Copy(op.clone()),
            Op::CopyUndo(op) => Op::CopyUndo(op.clone()),
            Op::Create(op) => Op::Create(op.clone()),
            Op::CreateUndo(op) => Op::CreateUndo(op.clone()),
            Op::Write(op) => Op::Write(op.clone()),
            Op::WriteUndo(op) => Op::WriteUndo(op.clone()),
            Op::Mkdir(op) => Op::Mkdir(op.clone()),
            Op::MkdirUndo(op) => Op::MkdirUndo(op.clone()),
            Op::Rm(op) => Op::Rm(op.clone()),
            Op::RmUndo(op) => Op::RmUndo(op.clone()),
            Op::Command(op) => Op::Command(op.clone()),
            Op::Function(op) => Op::Function(op.clone()),
        }
    }
}

/// The views of a list of operations.
pub open spec fn ops_view(ops: Seq<Op>) -> Seq<OpView> {
    Seq::new(ops.len(), |i: int| ops[i]@)
}

/// An operation of one kind of action, which is also an [`Op`].
pub trait ToOp: View<V = OpView> {
    /// The same operation as an [`Op`].
    fn to_op(&self) -> (op: Op)
        ensures
            op@ == self@,
    ;
}

/// Turns the operations of one kind of action into [`Op`]s.
pub fn map_ops<O: ToOp>(ops: &Vec<O>) -> (mapped: Vec<Op>)
    ensures
        ops_view(mapped@) == Seq::new(ops@.len(), |i: int| ops@[i]@),
{
    let mut mapped: Vec<Op> = Vec::new();
    let mut i: usize = 0;
    while i < ops.len()
        invariant
            i <= ops@.len(),
            mapped@.len() == i,
            forall|j: int| 0 <= j < i ==> mapped@[j]@ == ops@[j]@,
        decreases ops@.len() - i,
    {
        mapped.push(ops[i].to_op());
        i = i + 1;
    }
    assert(ops_view(mapped@) == Seq::new(ops@.len(), |i: int| ops@[i]@));
    mapped
}

/// Whether `op` is the undo twin of another operation.
pub open spec fn is_undo(op: OpView) -> bool {
    op is LinkUndo || op is CopyUndo || op is CreateUndo || op is WriteUndo || op is MkdirUndo
        || op is RmUndo
}

/// The operation that takes the effect of `op` back, where `backup` is the place
/// at which the bytes that `op` destroyed were kept. A command and a function
/// call have no inverse.
pub open spec fn inverse_of(op: OpView, backup: Option<PathView>) -> Option<OpView> {
    match op {
        OpView::Link { src, dest } => Some(OpView::LinkUndo { src, dest }),
        OpView::LinkUndo { src, dest } => Some(OpView::Link { src, dest }),
        OpView::Copy { src, dest, dir } => Some(OpView::CopyUndo { src, dest, dir }),
        OpView::CopyUndo { src, dest, dir } => Some(OpView::Copy { src, dest, dir }),
        OpView::Create { path } => Some(OpView::CreateUndo { path }),
        OpView::CreateUndo { path } => Some(OpView::Create { path }),
        OpView::Write { path, contents } => Some(OpView::WriteUndo { path, contents, backup }),
        OpView::WriteUndo { path, contents, .. } => Some(OpView::Write { path, contents }),
        OpView::Mkdir { path } => Some(OpView::MkdirUndo { path }),
        OpView::MkdirUndo { path } => Some(OpView::Mkdir { path }),
        OpView::Rm { path, dir } => Some(OpView::RmUndo { path, dir, backup }),
        OpView::RmUndo { path, dir, .. } => Some(OpView::Rm { path, dir }),
        OpView::Command { .. } => None,
        OpView::Function { .. } => None,
    }
}

/// The twin of `op`: its inverse, with no backup to go by. A command and a
/// function call, which have no inverse, are their own twins.
pub open spec fn twin(op: OpView) -> OpView {
    match inverse_of(op, None) {
        Some(inverse) => inverse,
        None => op,
    }
}

impl Op {
    /// The operation that takes the effect of this one back, where `backup` is
    /// the place at which the bytes that it destroyed were kept.
    pub fn inverse(&self, backup: &Option<Path>) -> (inverse: Option<Op>)
        ensures
            inverse is Some <==> inverse_of(self@, path_view(*backup)) is Some,
            inverse matches Some(op) ==> inverse_of(self@, path_view(*backup)) == Some(op@),
    {
        match self {
            Op::Link(op) => Some(
                Op::LinkUndo(LinkUndoOp { src: op.src.clone(), dest: op.dest.clone() }),
            ),
            Op::LinkUndo(op) => Some(
                Op::Link(LinkOp { src: op.src.clone(), dest: op.dest.clone() }),
            ),
            Op::Copy(op) => Some(
                Op::CopyUndo(
                    CopyUndoOp { src: op.src.clone(), dest: op.dest.clone(), dir: op.dir },
                ),
            ),
            Op::CopyUndo(op) => Some(
                Op::Copy(CopyOp { src: op.src.clone(), dest: op.dest.clone(), dir: op.dir }),
            ),
            Op::Create(op) => Some(Op::CreateUndo(CreateUndoOp { path: op.path.clone() })),
            Op::CreateUndo(op) => Some(Op::Create(CreateOp { path: op.path.clone() })),
            Op::Write(op) => Some(
                Op::WriteUndo(
                    WriteUndoOp {
                        path: op.path.clone(),
                        contents: copy_bytes(&op.contents),
                        backup: copy_path(backup),
                    },
                ),
            ),
            Op::WriteUndo(op) => Some(
                Op::Write(WriteOp { path: op.path.clone(), contents: copy_bytes(&op.contents) }),
            ),
            Op::Mkdir(op) => Some(Op::MkdirUndo(MkdirUndoOp { path: op.path.clone() })),
            Op::MkdirUndo(op) => Some(Op::Mkdir(MkdirOp { path: op.path.clone() })),
            Op::Rm(op) => Some(
                Op::RmUndo(
                    RmUndoOp { path: op.path.clone(), dir: op.dir, backup: copy_path(backup) },
                ),
            ),
            Op::RmUndo(op) => Some(Op::Rm(RmOp { path: op.path.clone(), dir: op.dir })),
            Op::Command(_) => None,
            Op::Function(_) => None,
        }
    }
}

impl Rollback for Op {
    type Output = Op;

    /// The twin of the operation.
    fn rollback(&self) -> (inverse: Op)
        ensures
            inverse@ == twin(self@),
    {
        match self.inverse(&None) {
            Some(inverse) => inverse,
            None => self.clone(),
        }
    }
}

/// What is known of an operation once it has been applied.
#[derive(Debug, PartialEq)]
pub struct Finished {
    /// The operation that was applied.
    pub op: Op,
    /// Where the bytes that the operation destroyed were kept, if it kept any.
    pub backup: Option<Path>,
}

impl Rollback for Finished {
    type Output = Option<Op>;

    /// The operation that takes the applied one back, where it has an inverse.
    fn rollback(&self) -> (inverse: Option<Op>)
        ensures
            inverse is Some <==> inverse_of(self.op@, path_view(self.backup)) is Some,
            inverse matches Some(op) ==> inverse_of(self.op@, path_view(self.backup)) == Some(
                op@,
            ),
    {
        self.op.inverse(&self.backup)
    }
}

/// Why copying failed.
#[derive(Debug, Clone, PartialEq, Eq)]
pub enum CopyOpError {
    Io(IoError),
}

/// Why creating a file failed.
#[derive(Debug, Clone, PartialEq, Eq)]
pub enum CreateOpError {
    Io(IoError),
}

/// Why writing failed.
#[derive(Debug, Clone, PartialEq, Eq)]
pub enum WriteOpError {
    Io(IoError),
}

/// Why creating a directory failed.
#[derive(Debug, Clone, PartialEq, Eq)]
pub enum MkdirOpError {
    Io(IoError),
}

/// Why removing failed.
#[derive(Debug, Clone, PartialEq, Eq)]
pub enum RmOpError {
    Io(IoError),
}

/// Why a command failed.
#[derive(Debug, Clone, PartialEq, Eq)]
pub enum CommandOpError {
    /// The command could not be started.
    Io(IoError),
    /// The command ran and reported failure.
    Exit { code: Option<i32> },
}

/// Why a function call failed.
#[derive(Debug, Clone, PartialEq, Eq)]
pub enum FunctionOpError {
    /// The scripting host reported an error.
    Host { message: String },
}

/// Why applying an operation failed.
#[derive(Debug, Clone, PartialEq, Eq)]
pub enum OpError {
    Link(LinkOpError),
    Copy(CopyOpError),
    Create(CreateOpError),
    Write(WriteOpError),
    Mkdir(MkdirOpError),
    Rm(RmOpError),
    Command(CommandOpError),
    Function(FunctionOpError),
}

/// The twin of a twin is the operation itself, for every operation that is not
/// an undo twin. An undo twin gets itself back without its backup: all that its
/// twin does not keep.
pub proof fn twin_of_twin(op: OpView)
    ensures
        !is_undo(op) ==> twin(twin(op)) == op,
        is_undo(op) ==> twin(twin(op)) == inverse_of(twin(op), None).unwrap() && twin(
            twin(twin(op)),
        ) == twin(op),
{
}

} // verus!
