//! The bytes of an operation in a journal.
//!
//! An operation is written as the tag of its kind and then its fields, in the
//! order in which they are declared. A number is eight little-endian bytes; a
//! flag is one byte; a text is the number of its UTF-8 bytes and those bytes; a
//! path is the number of its names and each name as a text; a path that may be
//! missing is a flag and, where the flag is set, the path.

use vstd::prelude::*;
use vstd::bytes::{spec_u64_to_le_bytes, u64_to_le_bytes};
use vstd::string::*;
use vstd::utf8::encode_utf8;
use crate::fs::PathView;
use crate::journal::Encode;
use crate::path::Path;
use super::decode::{
    fits, op_is_read_back, opt_path_fits, pairs_fit, parse_op, path_fits, text_fits,
};
use super::{pairs_view, path_view, Op, OpView};

verus! {

/// The bytes of a number.
pub open spec fn enc_u64(n: nat) -> Seq<u8> {
    spec_u64_to_le_bytes(n as u64)
}

/// The bytes of a flag.
pub open spec fn enc_bool(b: bool) -> Seq<u8> {
    if b {
        seq![1u8]
    } else {
        seq![0u8]
    }
}

/// The bytes of a list of bytes: its length, and the bytes.
pub open spec fn enc_bytes(bytes: Seq<u8>) -> Seq<u8> {
    enc_u64(bytes.len()) + bytes
}

/// The bytes of a text.
pub open spec fn enc_text(text: Seq<char>) -> Seq<u8> {
    enc_bytes(encode_utf8(text))
}

/// The bytes of the names of a path, one after the other.
pub open spec fn enc_names(names: Seq<Seq<char>>) -> Seq<u8>
    decreases names.len(),
{
    if names.len() == 0 {
        Seq::empty()
    } else {
        enc_names(names.drop_last()) + enc_text(names.last())
    }
}

/// The bytes of a path.
pub open spec fn enc_path(path: PathView) -> Seq<u8> {
    enc_u64(path.len()) + enc_names(path)
}

/// The bytes of a path that may be missing.
pub open spec fn enc_opt_path(path: Option<PathView>) -> Seq<u8> {
    match path {
        Some(p) => enc_bool(true) + enc_path(p),
        None => enc_bool(false),
    }
}

/// The bytes of pairs of texts, one pair after the other.
pub open spec fn enc_each_pair(pairs: Seq<(Seq<char>, Seq<char>)>) -> Seq<u8>
    decreases pairs.len(),
{
    if pairs.len() == 0 {
        Seq::empty()
    } else {
        enc_each_pair(pairs.drop_last()) + enc_text(pairs.last().0) + enc_text(pairs.last().1)
    }
}

/// The bytes of a list of pairs of texts.
pub open spec fn enc_pairs(pairs: Seq<(Seq<char>, Seq<char>)>) -> Seq<u8> {
    enc_u64(pairs.len()) + enc_each_pair(pairs)
}

/// The tag of the kind of an operation.
pub open spec fn op_tag(op: OpView) -> u8 {
    match op {
        OpView::Link { .. } => 0,
        OpView::LinkUndo { .. } => 1,
        OpView::Copy { .. } => 2,
        OpView::CopyUndo { .. } => 3,
        OpView::Create { .. } => 4,
        OpView::CreateUndo { .. } => 5,
        OpView::Write { .. } => 6,
        OpView::WriteUndo { .. } => 7,
        OpView::Mkdir { .. } => 8,
        OpView::MkdirUndo { .. } => 9,
        OpView::Rm { .. } => 10,
        OpView::RmUndo { .. } => 11,
        OpView::Command { .. } => 12,
        OpView::Function { .. } => 13,
    }
}

/// The bytes of the fields of an operation.
pub open spec fn op_fields(op: OpView) -> Seq<u8> {
    match op {
        OpView::Link { src, dest } => enc_path(src) + enc_path(dest),
        OpView::LinkUndo { src, dest } => enc_path(src) + enc_path(dest),
        OpView::Copy { src, dest, dir } => enc_path(src) + enc_path(dest) + enc_bool(dir),
        OpView::CopyUndo { src, dest, dir } => enc_path(src) + enc_path(dest) + enc_bool(dir),
        OpView::Create { path } => enc_path(path),
        OpView::CreateUndo { path } => enc_path(path),
        OpView::Write { path, contents } => enc_path(path) + enc_bytes(contents),
        OpView::WriteUndo { path, contents, backup } => enc_path(path) + enc_bytes(contents)
            + enc_opt_path(backup),
        OpView::Mkdir { path } => enc_path(path),
        OpView::MkdirUndo { path } => enc_path(path),
        OpView::Rm { path, dir } => enc_path(path) + enc_bool(dir),
        OpView::RmUndo { path, dir, backup } => enc_path(path) + enc_bool(dir) + enc_opt_path(
            backup,
        ),
        OpView::Command { command, start, shell, clean_env, env } => enc_text(command)
            + enc_path(start) + enc_text(shell) + enc_bool(clean_env) + enc_pairs(env),
        OpView::Function { name, start } => enc_text(name) + enc_path(start),
    }
}

/// The bytes of an operation.
pub open spec fn op_encoding(op: OpView) -> Seq<u8> {
    seq![op_tag(op)] + op_fields(op)
}

fn put_u64(out: &mut Vec<u8>, n: usize)
    ensures
        final(out)@ == old(out)@ + enc_u64(n as nat),
{
    let mut bytes = u64_to_le_bytes(n as u64);
    out.append(&mut bytes);
}

fn put_bool(out: &mut Vec<u8>, b: bool)
    ensures
        final(out)@ == old(out)@ + enc_bool(b),
{
    if b {
        out.push(1u8);
    } else {
        out.push(0u8);
    }
    assert(out@ == old(out)@ + enc_bool(b));
}

fn put_bytes(out: &mut Vec<u8>, bytes: &Vec<u8>)
    ensures
        final(out)@ == old(out)@ + enc_bytes(bytes@),
        bytes@.len() <= u64::MAX,
{
    put_u64(out, bytes.len());
    let ghost head = out@;
    let mut i: usize = 0;
    while i < bytes.len()
        invariant
            i <= bytes@.len(),
            out@ == head + bytes@.take(i as int),
        decreases bytes@.len() - i,
    {
        out.push(bytes[i]);
        i = i + 1;
        assert(bytes@.take(i as int) == bytes@.take(i - 1).push(bytes@[i - 1]));
    }
    assert(bytes@.take(i as int) == bytes@);
    assert(out@ == old(out)@ + (enc_u64(bytes@.len()) + bytes@));
}

fn put_text(out: &mut Vec<u8>, text: &str)
    ensures
        final(out)@ == old(out)@ + enc_text(text@),
        text_fits(text@),
{
    let bytes = text.as_bytes_vec();
    put_bytes(out, &bytes);
}

fn put_path(out: &mut Vec<u8>, path: &Path)
    ensures
        final(out)@ == old(out)@ + enc_path(path@),
        path_fits(path@),
{
    put_u64(out, path.len());
    let ghost head = out@;
    let mut i: usize = 0;
    assert(enc_names(path@.take(0)) == Seq::<u8>::empty());
    while i < path.len()
        invariant
            i <= path@.len(),
            out@ == head + enc_names(path@.take(i as int)),
            forall|j: int| 0 <= j < i ==> text_fits(#[trigger] path@[j]),
        decreases path@.len() - i,
    {
        assert(path@.take(i + 1).drop_last() == path@.take(i as int));
        put_text(out, path.name(i).as_str());
        i = i + 1;
    }
    assert(path@.take(i as int) == path@);
    assert(out@ == old(out)@ + (enc_u64(path@.len()) + enc_names(path@)));
}

fn put_opt_path(out: &mut Vec<u8>, path: &Option<Path>)
    ensures
        final(out)@ == old(out)@ + enc_opt_path(path_view(*path)),
        opt_path_fits(path_view(*path)),
{
    match path {
        Some(p) => {
            put_bool(out, true);
            put_path(out, p);
            assert(out@ == old(out)@ + (enc_bool(true) + enc_path(p@)));
        },
        None => {
            put_bool(out, false);
        },
    }
}

fn put_pairs(out: &mut Vec<u8>, pairs: &Vec<(String, String)>)
    ensures
        final(out)@ == old(out)@ + enc_pairs(pairs_view(pairs@)),
        pairs_fit(pairs_view(pairs@)),
{
    let ghost all = pairs_view(pairs@);
    put_u64(out, pairs.len());
    let ghost head = out@;
    let mut i: usize = 0;
    assert(enc_each_pair(all.take(0)) == Seq::<u8>::empty());
    while i < pairs.len()
        invariant
            i <= pairs@.len(),
            all == pairs_view(pairs@),
            out@ == head + enc_each_pair(all.take(i as int)),
            forall|j: int| 0 <= j < i ==> text_fits((#[trigger] all[j]).0) && text_fits(all[j].1),
        decreases pairs@.len() - i,
    {
        assert(all.take(i + 1).drop_last() == all.take(i as int));
        assert(all.take(i + 1).last() == (pairs@[i as int].0@, pairs@[i as int].1@));
        let ghost before = out@;
        put_text(out, pairs[i].0.as_str());
        put_text(out, pairs[i].1.as_str());
        assert(out@ == head + (enc_each_pair(all.take(i as int)) + enc_text(pairs@[i as int].0@)
            + enc_text(pairs@[i as int].1@)));
        i = i + 1;
    }
    assert(all.take(i as int) == all);
    assert(out@ == old(out)@ + (enc_u64(all.len()) + enc_each_pair(all)));
}

impl Op {
    /// The bytes of the operation, from which it can be read back.
    pub fn to_bytes(&self) -> (bytes: Vec<u8>)
        ensures
            bytes@ == op_encoding(self@),
            fits(self@),
            parse_op(bytes@) == Some(self@),
    {
        let bytes = self.written();
        proof {
            op_is_read_back(self@);
        }
        bytes
    }

    /// The tag of the operation and its fields.
    #[verifier::rlimit(40)]
    fn written(&self) -> (bytes: Vec<u8>)
        ensures
            bytes@ == op_encoding(self@),
            fits(self@),
    {
        let mut out: Vec<u8> = Vec::new();
        let ghost tag = seq![op_tag(self@)];
        match self {
            Op::Link(op) => {
                out.push(0u8);
                assert(out@ == tag);
                put_path(&mut out, &op.src);
                put_path(&mut out, &op.dest);
                assert(out@ == tag + (enc_path(op.src@) + enc_path(op.dest@)));
            },
            Op::LinkUndo(op) => {
                out.push(1u8);
                assert(out@ == tag);
                put_path(&mut out, &op.src);
                put_path(&mut out, &op.dest);
                assert(out@ == tag + (enc_path(op.src@) + enc_path(op.dest@)));
            },
            Op::Copy(op) => {
                out.push(2u8);
                assert(out@ == tag);
                put_path(&mut out, &op.src);
                put_path(&mut out, &op.dest);
                put_bool(&mut out, op.dir);
                assert(out@ == tag + (enc_path(op.src@) + enc_path(op.dest@) + enc_bool(op.dir)));
            },
            Op::CopyUndo(op) => {
                out.push(3u8);
                assert(out@ == tag);
                put_path(&mut out, &op.src);
                put_path(&mut out, &op.dest);
                put_bool(&mut out, op.dir);
                assert(out@ == tag + (enc_path(op.src@) + enc_path(op.dest@) + enc_bool(op.dir)));
            },
            Op::Create(op) => {
                out.push(4u8);
                assert(out@ == tag);
                put_path(&mut out, &op.path);
            },
            Op::CreateUndo(op) => {
                out.push(5u8);
                assert(out@ == tag);
                put_path(&mut out, &op.path);
            },
            Op::Write(op) => {
                out.push(6u8);
                assert(out@ == tag);
                put_path(&mut out, &op.path);
                put_bytes(&mut out, &op.contents);
                assert(out@ == tag + (enc_path(op.path@) + enc_bytes(op.contents@)));
            },
            Op::WriteUndo(op) => {
                out.push(7u8);
                assert(out@ == tag);
                put_path(&mut out, &op.path);
                put_bytes(&mut out, &op.contents);
                put_opt_path(&mut out, &op.backup);
                assert(out@ == tag + (enc_path(op.path@) + enc_bytes(op.contents@)
                    + enc_opt_path(path_view(op.backup))));
            },
            Op::Mkdir(op) => {
                out.push(8u8);
                assert(out@ == tag);
                put_path(&mut out, &op.path);
            },
            Op::MkdirUndo(op) => {
                out.push(9u8);
                assert(out@ == tag);
                put_path(&mut out, &op.path);
            },
            Op::Rm(op) => {
                out.push(10u8);
                assert(out@ == tag);
                put_path(&mut out, &op.path);
                put_bool(&mut out, op.dir);
                assert(out@ == tag + (enc_path(op.path@) + enc_bool(op.dir)));
            },
            Op::RmUndo(op) => {
                out.push(11u8);
                assert(out@ == tag);
                put_path(&mut out, &op.path);
                put_bool(&mut out, op.dir);
                put_opt_path(&mut out, &op.backup);
                assert(out@ == tag + (enc_path(op.path@) + enc_bool(op.dir) + enc_opt_path(
                    path_view(op.backup),
                )));
            },
            Op::Command(op) => {
                out.push(12u8);
                assert(out@ == tag);
                put_text(&mut out, op.command.as_str());
                put_path(&mut out, &op.start);
                put_text(&mut out, op.shell.as_str());
                put_bool(&mut out, op.clean_env);
                put_pairs(&mut out, &op.env);
                assert(out@ == tag + (enc_text(op.command@) + enc_path(op.start@) + enc_text(
                    op.shell@,
                ) + enc_bool(op.clean_env) + enc_pairs(pairs_view(op.env@))));
            },
            Op::Function(op) => {
                out.push(13u8);
                assert(out@ == tag);
                put_text(&mut out, op.name.as_str());
                put_path(&mut out, &op.start);
                assert(out@ == tag + (enc_text(op.name@) + enc_path(op.start@)));
            },
        }
        out
    }
}

impl Encode for Op {
    /// Every operation can be encoded.
    open spec fn encodable(&self) -> bool {
        true
    }

    fn encode(&self) -> (bytes: Option<Vec<u8>>)
        ensures
            bytes matches Some(b) && b@ == op_encoding(self@) && parse_op(b@) == Some(self@),
    {
        Some(self.to_bytes())
    }
}

} // verus!
