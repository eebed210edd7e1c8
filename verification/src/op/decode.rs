//! Reading an operation back from its bytes in a journal.
//!
//! The grammar is that of the encoding, read from the front: each reader takes
//! what it needs from the bytes and leaves the rest to the next one. An
//! operation has to use up its bytes.

use vstd::prelude::*;
use vstd::bytes::{
    lemma_auto_spec_u64_to_from_le_bytes, spec_u64_from_le_bytes, u64_from_le_bytes,
};
use vstd::slice::slice_subrange;
use vstd::string::*;
use vstd::utf8::{
    decode_utf8, encode_utf8, encode_utf8_decode_utf8, encode_utf8_valid_utf8, valid_utf8,
};
use crate::fs::PathView;
use crate::journal::Decode;
use crate::path::{valid_name, valid_names, Path};
use super::encode::{
    enc_bool, enc_bytes, enc_each_pair, enc_names, enc_opt_path, enc_pairs, enc_path, enc_text,
    enc_u64, op_encoding, op_fields, op_tag,
};
use super::{
    pairs_view, path_view, text_of_bytes, CommandOp, CopyOp, CopyUndoOp, CreateOp, CreateUndoOp,
    FunctionOp, LinkOp, LinkUndoOp, MkdirOp, MkdirUndoOp, Op, OpView, RmOp, RmUndoOp, WriteOp,
    WriteUndoOp,
};

verus! {

/// A number at the front of `bytes`, and the bytes behind it.
pub open spec fn parse_u64(bytes: Seq<u8>) -> Option<(u64, Seq<u8>)> {
    if bytes.len() >= 8 {
        Some((spec_u64_from_le_bytes(bytes.take(8)), bytes.skip(8)))
    } else {
        None
    }
}

/// A flag at the front of `bytes`, and the bytes behind it.
pub open spec fn parse_bool(bytes: Seq<u8>) -> Option<(bool, Seq<u8>)> {
    if bytes.len() >= 1 && bytes[0] == 0 {
        Some((false, bytes.skip(1)))
    } else if bytes.len() >= 1 && bytes[0] == 1 {
        Some((true, bytes.skip(1)))
    } else {
        None
    }
}

/// A list of bytes at the front of `bytes`, and the bytes behind it.
pub open spec fn parse_bytes(bytes: Seq<u8>) -> Option<(Seq<u8>, Seq<u8>)> {
    match parse_u64(bytes) {
        Some((n, rest)) => if n <= rest.len() {
            Some((rest.take(n as int), rest.skip(n as int)))
        } else {
            None
        },
        None => None,
    }
}

/// A text at the front of `bytes`, and the bytes behind it.
pub open spec fn parse_text(bytes: Seq<u8>) -> Option<(Seq<char>, Seq<u8>)> {
    match parse_bytes(bytes) {
        Some((text, rest)) => if valid_utf8(text) {
            Some((decode_utf8(text), rest))
        } else {
            None
        },
        None => None,
    }
}

/// `n` valid names at the front of `bytes`, and the bytes behind them.
pub open spec fn parse_names(bytes: Seq<u8>, n: nat) -> Option<(Seq<Seq<char>>, Seq<u8>)>
    decreases n,
{
    if n == 0 {
        Some((Seq::empty(), bytes))
    } else {
        match parse_text(bytes) {
            Some((name, rest)) => if valid_name(name) {
                match parse_names(rest, (n - 1) as nat) {
                    Some((names, behind)) => Some((seq![name] + names, behind)),
                    None => None,
                }
            } else {
                None
            },
            None => None,
        }
    }
}

/// A path at the front of `bytes`, and the bytes behind it.
pub open spec fn parse_path(bytes: Seq<u8>) -> Option<(PathView, Seq<u8>)> {
    match parse_u64(bytes) {
        Some((n, rest)) => parse_names(rest, n as nat),
        None => None,
    }
}

/// A path that may be missing at the front of `bytes`, and the bytes behind it.
pub open spec fn parse_opt_path(bytes: Seq<u8>) -> Option<(Option<PathView>, Seq<u8>)> {
    match parse_bool(bytes) {
        Some((true, rest)) => match parse_path(rest) {
            Some((path, behind)) => Some((Some(path), behind)),
            None => None,
        },
        Some((false, rest)) => Some((None, rest)),
        None => None,
    }
}

/// `n` pairs of texts at the front of `bytes`, and the bytes behind them.
pub open spec fn parse_each_pair(bytes: Seq<u8>, n: nat) -> Option<
    (Seq<(Seq<char>, Seq<char>)>, Seq<u8>),
>
    decreases n,
{
    if n == 0 {
        Some((Seq::empty(), bytes))
    } else {
        match parse_text(bytes) {
            Some((key, rest)) => match parse_text(rest) {
                Some((value, more)) => match parse_each_pair(more, (n - 1) as nat) {
                    Some((pairs, behind)) => Some((seq![(key, value)] + pairs, behind)),
                    None => None,
                },
                None => None,
            },
            None => None,
        }
    }
}

/// A list of pairs of texts at the front of `bytes`, and the bytes behind it.
pub open spec fn parse_pairs(bytes: Seq<u8>) -> Option<(Seq<(Seq<char>, Seq<char>)>, Seq<u8>)> {
    match parse_u64(bytes) {
        Some((n, rest)) => parse_each_pair(rest, n as nat),
        None => None,
    }
}

/// Two paths at the front of `bytes`.
pub open spec fn parse_two_paths(bytes: Seq<u8>) -> Option<((PathView, PathView), Seq<u8>)> {
    match parse_path(bytes) {
        Some((src, rest)) => match parse_path(rest) {
            Some((dest, behind)) => Some(((src, dest), behind)),
            None => None,
        },
        None => None,
    }
}

/// Two paths and a flag at the front of `bytes`.
pub open spec fn parse_copy(bytes: Seq<u8>) -> Option<((PathView, PathView, bool), Seq<u8>)> {
    match parse_two_paths(bytes) {
        Some(((src, dest), rest)) => match parse_bool(rest) {
            Some((dir, behind)) => Some(((src, dest, dir), behind)),
            None => None,
        },
        None => None,
    }
}

/// A path and a list of bytes at the front of `bytes`.
pub open spec fn parse_write(bytes: Seq<u8>) -> Option<((PathView, Seq<u8>), Seq<u8>)> {
    match parse_path(bytes) {
        Some((path, rest)) => match parse_bytes(rest) {
            Some((contents, behind)) => Some(((path, contents), behind)),
            None => None,
        },
        None => None,
    }
}

/// A path and a flag at the front of `bytes`.
pub open spec fn parse_rm(bytes: Seq<u8>) -> Option<((PathView, bool), Seq<u8>)> {
    match parse_path(bytes) {
        Some((path, rest)) => match parse_bool(rest) {
            Some((dir, behind)) => Some(((path, dir), behind)),
            None => None,
        },
        None => None,
    }
}

/// The fields of the operation with the tag `tag` at the front of `bytes`, and
/// the bytes behind them.
pub open spec fn parse_fields(tag: u8, bytes: Seq<u8>) -> Option<(OpView, Seq<u8>)> {
    if tag == 0 {
        match parse_two_paths(bytes) {
            Some(((src, dest), rest)) => Some((OpView::Link { src, dest }, rest)),
            None => None,
        }
    } else if tag == 1 {
        match parse_two_paths(bytes) {
            Some(((src, dest), rest)) => Some((OpView::LinkUndo { src, dest }, rest)),
            None => None,
        }
    } else if tag == 2 {
        match parse_copy(bytes) {
            Some(((src, dest, dir), rest)) => Some((OpView::Copy { src, dest, dir }, rest)),
            None => None,
        }
    } else if tag == 3 {
        match parse_copy(bytes) {
            Some(((src, dest, dir), rest)) => Some((OpView::CopyUndo { src, dest, dir }, rest)),
            None => None,
        }
    } else if tag == 4 {
        match parse_path(bytes) {
            Some((path, rest)) => Some((OpView::Create { path }, rest)),
            None => None,
        }
    } else if tag == 5 {
        match parse_path(bytes) {
            Some((path, rest)) => Some((OpView::CreateUndo { path }, rest)),
            None => None,
        }
    } else if tag == 6 {
        match parse_write(bytes) {
            Some(((path, contents), rest)) => Some((OpView::Write { path, contents }, rest)),
            None => None,
        }
    } else if tag == 7 {
        match parse_write(bytes) {
            Some(((path, contents), rest)) => match parse_opt_path(rest) {
                Some((backup, behind)) => Some(
                    (OpView::WriteUndo { path, contents, backup }, behind),
                ),
                None => None,
            },
            None => None,
        }
    } else if tag == 8 {
        match parse_path(bytes) {
            Some((path, rest)) => Some((OpView::Mkdir { path }, rest)),
            None => None,
        }
    } else if tag == 9 {
        match parse_path(bytes) {
            Some((path, rest)) => Some((OpView::MkdirUndo { path }, rest)),
            None => None,
        }
    } else if tag == 10 {
        match parse_rm(bytes) {
            Some(((path, dir), rest)) => Some((OpView::Rm { path, dir }, rest)),
            None => None,
        }
    } else if tag == 11 {
        match parse_rm(bytes) {
            Some(((path, dir), rest)) => match parse_opt_path(rest) {
                Some((backup, behind)) => Some((OpView::RmUndo { path, dir, backup }, behind)),
                None => None,
            },
            None => None,
        }
    } else if tag == 12 {
        match parse_text(bytes) {
            Some((command, a)) => match parse_path(a) {
                Some((start, b)) => match parse_text(b) {
                    Some((shell, c)) => match parse_bool(c) {
                        Some((clean_env, d)) => match parse_pairs(d) {
                            Some((env, rest)) => Some(
                                (OpView::Command { command, start, shell, clean_env, env }, rest),
                            ),
                            None => None,
                        },
                        None => None,
                    },
                    None => None,
                },
                None => None,
            },
            None => None,
        }
    } else if tag == 13 {
        match parse_text(bytes) {
            Some((name, a)) => match parse_path(a) {
                Some((start, rest)) => Some((OpView::Function { name, start }, rest)),
                None => None,
            },
            None => None,
        }
    } else {
        None
    }
}

/// The operation that `bytes` spell: a tag and the fields that belong to it,
/// with nothing behind them.
pub open spec fn parse_op(bytes: Seq<u8>) -> Option<OpView> {
    if bytes.len() == 0 {
        None
    } else {
        match parse_fields(bytes[0], bytes.skip(1)) {
            Some((op, rest)) => if rest.len() == 0 {
                Some(op)
            } else {
                None
            },
            None => None,
        }
    }
}

/// Whether the reader that has found `found`, a value and the place behind it,
/// has read `bytes` from the place `at` on as `parsed` says.
pub open spec fn read_as<V>(
    bytes: Seq<u8>,
    at: int,
    parsed: Option<(V, Seq<u8>)>,
    found: Option<(V, int)>,
) -> bool {
    match parsed {
        Some((value, rest)) => found matches Some((v, next)) && v == value && at <= next
            <= bytes.len() && bytes.skip(next) == rest,
        None => found is None,
    }
}

fn read_u64(bytes: &[u8], at: usize) -> (res: Option<(u64, usize)>)
    requires
        at <= bytes@.len(),
    ensures
        read_as(
            bytes@,
            at as int,
            parse_u64(bytes@.skip(at as int)),
            match res {
                Some((n, next)) => Some((n, next as int)),
                None => None,
            },
        ),
{
    if bytes.len() - at < 8 {
        return None;
    }
    let n = u64_from_le_bytes(slice_subrange(bytes, at, at + 8));
    assert(bytes@.subrange(at as int, at + 8) == bytes@.skip(at as int).take(8));
    assert(bytes@.skip(at + 8) == bytes@.skip(at as int).skip(8));
    Some((n, at + 8))
}

fn read_bool(bytes: &[u8], at: usize) -> (res: Option<(bool, usize)>)
    requires
        at <= bytes@.len(),
    ensures
        read_as(
            bytes@,
            at as int,
            parse_bool(bytes@.skip(at as int)),
            match res {
                Some((b, next)) => Some((b, next as int)),
                None => None,
            },
        ),
{
    if bytes.len() - at < 1 {
        return None;
    }
    assert(bytes@.skip(at + 1) == bytes@.skip(at as int).skip(1));
    if bytes[at] == 0 {
        Some((false, at + 1))
    } else if bytes[at] == 1 {
        Some((true, at + 1))
    } else {
        None
    }
}

fn read_bytes(bytes: &[u8], at: usize) -> (res: Option<(Vec<u8>, usize)>)
    requires
        at <= bytes@.len(),
    ensures
        read_as(
            bytes@,
            at as int,
            parse_bytes(bytes@.skip(at as int)),
            match res {
                Some((b, next)) => Some((b@, next as int)),
                None => None,
            },
        ),
{
    let (n, from) = match read_u64(bytes, at) {
        Some(found) => found,
        None => {
            return None;
        },
    };
    if ((bytes.len() - from) as u64) < n {
        return None;
    }
    let to = from + (n as usize);
    let mut out: Vec<u8> = Vec::new();
    let mut i: usize = from;
    while i < to
        invariant
            from <= i <= to <= bytes@.len(),
            out@ == bytes@.subrange(from as int, i as int),
        decreases to - i,
    {
        out.push(bytes[i]);
        i = i + 1;
        assert(bytes@.subrange(from as int, i as int) == bytes@.subrange(from as int, i - 1).push(
            bytes@[i - 1],
        ));
    }
    assert(bytes@.subrange(from as int, to as int) == bytes@.skip(from as int).take(n as int));
    assert(bytes@.skip(to as int) == bytes@.skip(from as int).skip(n as int));
    Some((out, to))
}

fn read_text(bytes: &[u8], at: usize) -> (res: Option<(String, usize)>)
    requires
        at <= bytes@.len(),
    ensures
        read_as(
            bytes@,
            at as int,
            parse_text(bytes@.skip(at as int)),
            match res {
                Some((t, next)) => Some((t@, next as int)),
                None => None,
            },
        ),
{
    let (text, next) = match read_bytes(bytes, at) {
        Some(found) => found,
        None => {
            return None;
        },
    };
    match text_of_bytes(text) {
        Some(text) => Some((text, next)),
        None => None,
    }
}

fn read_path(bytes: &[u8], at: usize) -> (res: Option<(Path, usize)>)
    requires
        at <= bytes@.len(),
    ensures
        read_as(
            bytes@,
            at as int,
            parse_path(bytes@.skip(at as int)),
            match res {
                Some((p, next)) => Some((p@, next as int)),
                None => None,
            },
        ),
{
    let (n, from) = match read_u64(bytes, at) {
        Some(found) => found,
        None => {
            return None;
        },
    };
    let ghost whole = parse_names(bytes@.skip(from as int), n as nat);
    let mut path = Path::root();
    let mut next: usize = from;
    let mut k: u64 = 0;
    assert(Seq::<Seq<char>>::empty() + Seq::<Seq<char>>::empty() == Seq::<Seq<char>>::empty());
    while k < n
        invariant
            k <= n,
            at <= from <= next <= bytes@.len(),
            whole == parse_path(bytes@.skip(at as int)),
            whole == match parse_names(bytes@.skip(next as int), (n - k) as nat) {
                Some((names, behind)) => Some((path@ + names, behind)),
                None => None,
            },
        decreases n - k,
    {
        let (name, behind) = match read_text(bytes, next) {
            Some(found) => found,
            None => {
                return None;
            },
        };
        let ghost so_far = path@;
        path = match path.child(name.as_str()) {
            Some(path) => path,
            None => {
                return None;
            },
        };
        proof {
            match parse_names(bytes@.skip(behind as int), (n - k - 1) as nat) {
                Some((names, rest)) => {
                    assert(so_far + (seq![name@] + names) == so_far.push(name@) + names);
                },
                None => {},
            }
        }
        next = behind;
        k = k + 1;
    }
    assert(path@ + Seq::<Seq<char>>::empty() == path@);
    Some((path, next))
}

fn read_opt_path(bytes: &[u8], at: usize) -> (res: Option<(Option<Path>, usize)>)
    requires
        at <= bytes@.len(),
    ensures
        read_as(
            bytes@,
            at as int,
            parse_opt_path(bytes@.skip(at as int)),
            match res {
                Some((p, next)) => Some((path_view(p), next as int)),
                None => None,
            },
        ),
{
    match read_bool(bytes, at) {
        Some((true, from)) => match read_path(bytes, from) {
            Some((path, next)) => Some((Some(path), next)),
            None => None,
        },
        Some((false, next)) => Some((None, next)),
        None => None,
    }
}

fn read_pairs(bytes: &[u8], at: usize) -> (res: Option<(Vec<(String, String)>, usize)>)
    requires
        at <= bytes@.len(),
    ensures
        read_as(
            bytes@,
            at as int,
            parse_pairs(bytes@.skip(at as int)),
            match res {
                Some((p, next)) => Some((pairs_view(p@), next as int)),
                None => None,
            },
        ),
{
    let (n, from) = match read_u64(bytes, at) {
        Some(found) => found,
        None => {
            return None;
        },
    };
    let ghost whole = parse_each_pair(bytes@.skip(from as int), n as nat);
    let mut pairs: Vec<(String, String)> = Vec::new();
    let mut next: usize = from;
    let mut k: u64 = 0;
    assert(pairs_view(pairs@) + Seq::<(Seq<char>, Seq<char>)>::empty() == Seq::<
        (Seq<char>, Seq<char>),
    >::empty());
    while k < n
        invariant
            k <= n,
            at <= from <= next <= bytes@.len(),
            whole == parse_pairs(bytes@.skip(at as int)),
            whole == match parse_each_pair(bytes@.skip(next as int), (n - k) as nat) {
                Some((more, behind)) => Some((pairs_view(pairs@) + more, behind)),
                None => None,
            },
        decreases n - k,
    {
        let (key, middle) = match read_text(bytes, next) {
            Some(found) => found,
            None => {
                return None;
            },
        };
        let (value, behind) = match read_text(bytes, middle) {
            Some(found) => found,
            None => {
                return None;
            },
        };
        let ghost so_far = pairs_view(pairs@);
        let ghost pair = (key@, value@);
        pairs.push((key, value));
        proof {
            assert(pairs_view(pairs@) == so_far.push(pair));
            match parse_each_pair(bytes@.skip(behind as int), (n - k - 1) as nat) {
                Some((more, rest)) => {
                    assert(so_far + (seq![pair] + more) == so_far.push(pair) + more);
                },
                None => {},
            }
        }
        next = behind;
        k = k + 1;
    }
    assert(pairs_view(pairs@) + Seq::<(Seq<char>, Seq<char>)>::empty() == pairs_view(pairs@));
    Some((pairs, next))
}

fn read_two_paths(bytes: &[u8], at: usize) -> (res: Option<((Path, Path), usize)>)
    requires
        at <= bytes@.len(),
    ensures
        read_as(
            bytes@,
            at as int,
            parse_two_paths(bytes@.skip(at as int)),
            match res {
                Some(((src, dest), next)) => Some(((src@, dest@), next as int)),
                None => None,
            },
        ),
{
    match read_path(bytes, at) {
        Some((src, from)) => match read_path(bytes, from) {
            Some((dest, next)) => Some(((src, dest), next)),
            None => None,
        },
        None => None,
    }
}

fn read_copy(bytes: &[u8], at: usize) -> (res: Option<((Path, Path, bool), usize)>)
    requires
        at <= bytes@.len(),
    ensures
        read_as(
            bytes@,
            at as int,
            parse_copy(bytes@.skip(at as int)),
            match res {
                Some(((src, dest, dir), next)) => Some(((src@, dest@, dir), next as int)),
                None => None,
            },
        ),
{
    match read_two_paths(bytes, at) {
        Some(((src, dest), from)) => match read_bool(bytes, from) {
            Some((dir, next)) => Some(((src, dest, dir), next)),
            None => None,
        },
        None => None,
    }
}

fn read_write(bytes: &[u8], at: usize) -> (res: Option<((Path, Vec<u8>), usize)>)
    requires
        at <= bytes@.len(),
    ensures
        read_as(
            bytes@,
            at as int,
            parse_write(bytes@.skip(at as int)),
            match res {
                Some(((path, contents), next)) => Some(((path@, contents@), next as int)),
                None => None,
            },
        ),
{
    match read_path(bytes, at) {
        Some((path, from)) => match read_bytes(bytes, from) {
            Some((contents, next)) => Some(((path, contents), next)),
            None => None,
        },
        None => None,
    }
}

fn read_rm(bytes: &[u8], at: usize) -> (res: Option<((Path, bool), usize)>)
    requires
        at <= bytes@.len(),
    ensures
        read_as(
            bytes@,
            at as int,
            parse_rm(bytes@.skip(at as int)),
            match res {
                Some(((path, dir), next)) => Some(((path@, dir), next as int)),
                None => None,
            },
        ),
{
    match read_path(bytes, at) {
        Some((path, from)) => match read_bool(bytes, from) {
            Some((dir, next)) => Some(((path, dir), next)),
            None => None,
        },
        None => None,
    }
}

fn read_fields(tag: u8, bytes: &[u8], at: usize) -> (res: Option<(Op, usize)>)
    requires
        at <= bytes@.len(),
    ensures
        read_as(
            bytes@,
            at as int,
            parse_fields(tag, bytes@.skip(at as int)),
            match res {
                Some((op, next)) => Some((op@, next as int)),
                None => None,
            },
        ),
{
    if tag == 0 {
        match read_two_paths(bytes, at) {
            Some(((src, dest), next)) => Some((Op::Link(LinkOp { src, dest }), next)),
            None => None,
        }
    } else if tag == 1 {
        match read_two_paths(bytes, at) {
            Some(((src, dest), next)) => Some((Op::LinkUndo(LinkUndoOp { src, dest }), next)),
            None => None,
        }
    } else if tag == 2 {
        match read_copy(bytes, at) {
            Some(((src, dest, dir), next)) => Some((Op::Copy(CopyOp { src, dest, dir }), next)),
            None => None,
        }
    } else if tag == 3 {
        match read_copy(bytes, at) {
            Some(((src, dest, dir), next)) => Some(
                (Op::CopyUndo(CopyUndoOp { src, dest, dir }), next),
            ),
            None => None,
        }
    } else if tag == 4 {
        match read_path(bytes, at) {
            Some((path, next)) => Some((Op::Create(CreateOp { path }), next)),
            None => None,
        }
    } else if tag == 5 {
        match read_path(bytes, at) {
            Some((path, next)) => Some((Op::CreateUndo(CreateUndoOp { path }), next)),
            None => None,
        }
    } else if tag == 6 {
        match read_write(bytes, at) {
            Some(((path, contents), next)) => Some((Op::Write(WriteOp { path, contents }), next)),
            None => None,
        }
    } else if tag == 7 {
        match read_write(bytes, at) {
            Some(((path, contents), from)) => match read_opt_path(bytes, from) {
                Some((backup, next)) => Some(
                    (Op::WriteUndo(WriteUndoOp { path, contents, backup }), next),
                ),
                None => None,
            },
            None => None,
        }
    } else if tag == 8 {
        match read_path(bytes, at) {
            Some((path, next)) => Some((Op::Mkdir(MkdirOp { path }), next)),
            None => None,
        }
    } else if tag == 9 {
        match read_path(bytes, at) {
            Some((path, next)) => Some((Op::MkdirUndo(MkdirUndoOp { path }), next)),
            None => None,
        }
    } else if tag == 10 {
        match read_rm(bytes, at) {
            Some(((path, dir), next)) => Some((Op::Rm(RmOp { path, dir }), next)),
            None => None,
        }
    } else if tag == 11 {
        match read_rm(bytes, at) {
            Some(((path, dir), from)) => match read_opt_path(bytes, from) {
                Some((backup, next)) => Some((Op::RmUndo(RmUndoOp { path, dir, backup }), next)),
                None => None,
            },
            None => None,
        }
    } else if tag == 12 {
        let (command, a) = match read_text(bytes, at) {
            Some(found) => found,
            None => {
                return None;
            },
        };
        let (start, b) = match read_path(bytes, a) {
            Some(found) => found,
            None => {
                return None;
            },
        };
        let (shell, c) = match read_text(bytes, b) {
            Some(found) => found,
            None => {
                return None;
            },
        };
        let (clean_env, d) = match read_bool(bytes, c) {
            Some(found) => found,
            None => {
                return None;
            },
        };
        match read_pairs(bytes, d) {
            Some((env, next)) => Some(
                (Op::Command(CommandOp { command, start, shell, clean_env, env }), next),
            ),
            None => None,
        }
    } else if tag == 13 {
        match read_text(bytes, at) {
            Some((name, from)) => match read_path(bytes, from) {
                Some((start, next)) => Some((Op::Function(FunctionOp { name, start }), next)),
                None => None,
            },
            None => None,
        }
    } else {
        None
    }
}

impl Op {
    /// The operation that `bytes` spell, if they spell one.
    pub fn from_bytes(bytes: &[u8]) -> (op: Option<Op>)
        ensures
            op is Some <==> parse_op(bytes@) is Some,
            op matches Some(o) ==> parse_op(bytes@) == Some(o@),
    {
        if bytes.len() == 0 {
            return None;
        }
        assert(bytes@.skip(1).len() == bytes@.len() - 1);
        match read_fields(bytes[0], bytes, 1) {
            Some((op, next)) => if next == bytes.len() {
                Some(op)
            } else {
                None
            },
            None => None,
        }
    }
}

impl Decode for Op {
    fn decode(bytes: &[u8]) -> (op: Option<Op>)
        ensures
            op is Some <==> parse_op(bytes@) is Some,
            op matches Some(o) ==> parse_op(bytes@) == Some(o@),
    {
        Op::from_bytes(bytes)
    }
}

/// Whether a text is short enough for its length to be written down.
pub open spec fn text_fits(text: Seq<char>) -> bool {
    encode_utf8(text).len() <= u64::MAX
}

/// Whether a path can be written down: its names are valid, and nothing in it
/// is too long for its length to be written down.
pub open spec fn path_fits(path: PathView) -> bool {
    &&& path.len() <= u64::MAX
    &&& valid_names(path)
    &&& forall|i: int| 0 <= i < path.len() ==> text_fits(#[trigger] path[i])
}

/// Whether a path that may be missing can be written down.
pub open spec fn opt_path_fits(path: Option<PathView>) -> bool {
    path matches Some(p) ==> path_fits(p)
}

/// Whether a list of pairs of texts can be written down.
pub open spec fn pairs_fit(pairs: Seq<(Seq<char>, Seq<char>)>) -> bool {
    &&& pairs.len() <= u64::MAX
    &&& forall|i: int|
        0 <= i < pairs.len() ==> text_fits((#[trigger] pairs[i]).0) && text_fits(pairs[i].1)
}

/// Whether an operation can be written down.
pub open spec fn fits(op: OpView) -> bool {
    match op {
        OpView::Link { src, dest } => path_fits(src) && path_fits(dest),
        OpView::LinkUndo { src, dest } => path_fits(src) && path_fits(dest),
        OpView::Copy { src, dest, .. } => path_fits(src) && path_fits(dest),
        OpView::CopyUndo { src, dest, .. } => path_fits(src) && path_fits(dest),
        OpView::Create { path } => path_fits(path),
        OpView::CreateUndo { path } => path_fits(path),
        OpView::Write { path, contents } => path_fits(path) && contents.len() <= u64::MAX,
        OpView::WriteUndo { path, contents, backup } => path_fits(path) && contents.len()
            <= u64::MAX && opt_path_fits(backup),
        OpView::Mkdir { path } => path_fits(path),
        OpView::MkdirUndo { path } => path_fits(path),
        OpView::Rm { path, .. } => path_fits(path),
        OpView::RmUndo { path, backup, .. } => path_fits(path) && opt_path_fits(backup),
        OpView::Command { command, start, shell, env, .. } => text_fits(command) && path_fits(
            start,
        ) && text_fits(shell) && pairs_fit(env),
        OpView::Function { name, start } => text_fits(name) && path_fits(start),
    }
}

/// A number that was written down is read back.
pub proof fn u64_is_read_back(n: nat, rest: Seq<u8>)
    requires
        n <= u64::MAX,
    ensures
        parse_u64(enc_u64(n) + rest) == Some((n as u64, rest)),
{
    lemma_auto_spec_u64_to_from_le_bytes();
    let bytes = enc_u64(n) + rest;
    assert(bytes.take(8) == enc_u64(n));
    assert(bytes.skip(8) == rest);
}

/// A flag that was written down is read back.
pub proof fn bool_is_read_back(b: bool, rest: Seq<u8>)
    ensures
        parse_bool(enc_bool(b) + rest) == Some((b, rest)),
{
    assert((enc_bool(b) + rest).skip(1) == rest);
}

/// Bytes that were written down are read back.
pub proof fn bytes_are_read_back(bytes: Seq<u8>, rest: Seq<u8>)
    requires
        bytes.len() <= u64::MAX,
    ensures
        parse_bytes(enc_bytes(bytes) + rest) == Some((bytes, rest)),
{
    assert(enc_bytes(bytes) + rest == enc_u64(bytes.len()) + (bytes + rest));
    u64_is_read_back(bytes.len(), bytes + rest);
    assert((bytes + rest).take(bytes.len() as int) == bytes);
    assert((bytes + rest).skip(bytes.len() as int) == rest);
}

/// A text that was written down is read back.
pub proof fn text_is_read_back(text: Seq<char>, rest: Seq<u8>)
    requires
        text_fits(text),
    ensures
        parse_text(enc_text(text) + rest) == Some((text, rest)),
{
    bytes_are_read_back(encode_utf8(text), rest);
    encode_utf8_valid_utf8(text);
    encode_utf8_decode_utf8(text);
}

/// The bytes of names are the bytes of the first name and those of the others.
pub proof fn first_name_first(name: Seq<char>, names: Seq<Seq<char>>)
    ensures
        enc_names(seq![name] + names) == enc_text(name) + enc_names(names),
    decreases names.len(),
{
    let all = seq![name] + names;
    if names.len() == 0 {
        assert(all.drop_last() == Seq::<Seq<char>>::empty());
        assert(enc_names(all.drop_last()) == Seq::<u8>::empty());
        assert(enc_names(all) == enc_text(name));
        assert(enc_text(name) + enc_names(names) == enc_text(name));
    } else {
        assert(all.drop_last() == seq![name] + names.drop_last());
        assert(all.last() == names.last());
        first_name_first(name, names.drop_last());
        assert((enc_text(name) + enc_names(names.drop_last())) + enc_text(names.last())
            == enc_text(name) + (enc_names(names.drop_last()) + enc_text(names.last())));
    }
}

/// Names that were written down are read back.
pub proof fn names_are_read_back(names: Seq<Seq<char>>, rest: Seq<u8>)
    requires
        valid_names(names),
        forall|i: int| 0 <= i < names.len() ==> text_fits(#[trigger] names[i]),
    ensures
        parse_names(enc_names(names) + rest, names.len()) == Some((names, rest)),
    decreases names.len(),
{
    if names.len() == 0 {
        assert(enc_names(names) + rest == rest);
        assert(names == Seq::<Seq<char>>::empty());
    } else {
        let name = names[0];
        let others = names.drop_first();
        assert(names == seq![name] + others);
        first_name_first(name, others);
        assert(enc_names(names) + rest == enc_text(name) + (enc_names(others) + rest));
        text_is_read_back(name, enc_names(others) + rest);
        assert(valid_name(name));
        assert forall|i: int| 0 <= i < others.len() implies valid_name(#[trigger] others[i]) by {
            assert(others[i] == names[i + 1]);
        }
        assert forall|i: int| 0 <= i < others.len() implies text_fits(#[trigger] others[i]) by {
            assert(others[i] == names[i + 1]);
        }
        names_are_read_back(others, rest);
    }
}

/// A path that was written down is read back.
pub proof fn path_is_read_back(path: PathView, rest: Seq<u8>)
    requires
        path_fits(path),
    ensures
        parse_path(enc_path(path) + rest) == Some((path, rest)),
{
    assert(enc_path(path) + rest == enc_u64(path.len()) + (enc_names(path) + rest));
    u64_is_read_back(path.len(), enc_names(path) + rest);
    names_are_read_back(path, rest);
}

/// A path that may be missing and was written down is read back.
pub proof fn opt_path_is_read_back(path: Option<PathView>, rest: Seq<u8>)
    requires
        opt_path_fits(path),
    ensures
        parse_opt_path(enc_opt_path(path) + rest) == Some((path, rest)),
{
    match path {
        Some(p) => {
            assert(enc_opt_path(path) + rest == enc_bool(true) + (enc_path(p) + rest));
            bool_is_read_back(true, enc_path(p) + rest);
            path_is_read_back(p, rest);
        },
        None => {
            bool_is_read_back(false, rest);
        },
    }
}

/// The bytes of pairs are the bytes of the first pair and those of the others.
pub proof fn first_pair_first(pair: (Seq<char>, Seq<char>), pairs: Seq<(Seq<char>, Seq<char>)>)
    ensures
        enc_each_pair(seq![pair] + pairs) == enc_text(pair.0) + enc_text(pair.1) + enc_each_pair(
            pairs,
        ),
    decreases pairs.len(),
{
    let all = seq![pair] + pairs;
    if pairs.len() == 0 {
        assert(all.drop_last() == Seq::<(Seq<char>, Seq<char>)>::empty());
        assert(enc_each_pair(all.drop_last()) == Seq::<u8>::empty());
        assert(enc_each_pair(all) == enc_text(pair.0) + enc_text(pair.1));
        assert(enc_text(pair.0) + enc_text(pair.1) + enc_each_pair(pairs) == enc_text(pair.0)
            + enc_text(pair.1));
    } else {
        assert(all.drop_last() == seq![pair] + pairs.drop_last());
        assert(all.last() == pairs.last());
        first_pair_first(pair, pairs.drop_last());
        let head = enc_text(pair.0) + enc_text(pair.1);
        let middle = enc_each_pair(pairs.drop_last());
        let a = enc_text(pairs.last().0);
        let b = enc_text(pairs.last().1);
        assert(((head + middle) + a) + b == head + ((middle + a) + b));
    }
}

/// Pairs that were written down are read back.
pub proof fn each_pair_is_read_back(pairs: Seq<(Seq<char>, Seq<char>)>, rest: Seq<u8>)
    requires
        forall|i: int|
            0 <= i < pairs.len() ==> text_fits((#[trigger] pairs[i]).0) && text_fits(pairs[i].1),
    ensures
        parse_each_pair(enc_each_pair(pairs) + rest, pairs.len()) == Some((pairs, rest)),
    decreases pairs.len(),
{
    if pairs.len() == 0 {
        assert(enc_each_pair(pairs) + rest == rest);
        assert(pairs == Seq::<(Seq<char>, Seq<char>)>::empty());
    } else {
        let pair = pairs[0];
        let others = pairs.drop_first();
        assert(pairs == seq![pair] + others);
        first_pair_first(pair, others);
        let behind = enc_each_pair(others) + rest;
        assert(enc_each_pair(pairs) + rest == enc_text(pair.0) + (enc_text(pair.1) + behind));
        text_is_read_back(pair.0, enc_text(pair.1) + behind);
        text_is_read_back(pair.1, behind);
        assert forall|i: int| 0 <= i < others.len() implies text_fits((#[trigger] others[i]).0)
            && text_fits(others[i].1) by {
            assert(others[i] == pairs[i + 1]);
        }
        each_pair_is_read_back(others, rest);
    }
}

/// A list of pairs that was written down is read back.
pub proof fn pairs_are_read_back(pairs: Seq<(Seq<char>, Seq<char>)>, rest: Seq<u8>)
    requires
        pairs_fit(pairs),
    ensures
        parse_pairs(enc_pairs(pairs) + rest) == Some((pairs, rest)),
{
    assert(enc_pairs(pairs) + rest == enc_u64(pairs.len()) + (enc_each_pair(pairs) + rest));
    u64_is_read_back(pairs.len(), enc_each_pair(pairs) + rest);
    each_pair_is_read_back(pairs, rest);
}

/// Two paths that were written down are read back.
proof fn two_paths_are_read_back(src: PathView, dest: PathView, rest: Seq<u8>)
    requires
        path_fits(src),
        path_fits(dest),
    ensures
        parse_two_paths(enc_path(src) + enc_path(dest) + rest) == Some(((src, dest), rest)),
{
    assert(enc_path(src) + enc_path(dest) + rest == enc_path(src) + (enc_path(dest) + rest));
    path_is_read_back(src, enc_path(dest) + rest);
    path_is_read_back(dest, rest);
}

/// Two paths and a flag that were written down are read back.
proof fn copy_is_read_back(src: PathView, dest: PathView, dir: bool)
    requires
        path_fits(src),
        path_fits(dest),
    ensures
        parse_copy(enc_path(src) + enc_path(dest) + enc_bool(dir)) == Some(
            ((src, dest, dir), Seq::<u8>::empty()),
        ),
{
    two_paths_are_read_back(src, dest, enc_bool(dir));
    bool_is_read_back(dir, Seq::empty());
    assert(enc_bool(dir) + Seq::<u8>::empty() == enc_bool(dir));
}

/// A path and bytes that were written down are read back.
proof fn write_is_read_back(path: PathView, contents: Seq<u8>, rest: Seq<u8>)
    requires
        path_fits(path),
        contents.len() <= u64::MAX,
    ensures
        parse_write(enc_path(path) + enc_bytes(contents) + rest) == Some(((path, contents), rest)),
{
    assert(enc_path(path) + enc_bytes(contents) + rest == enc_path(path) + (enc_bytes(contents)
        + rest));
    path_is_read_back(path, enc_bytes(contents) + rest);
    bytes_are_read_back(contents, rest);
}

/// A path and a flag that were written down are read back.
proof fn rm_is_read_back(path: PathView, dir: bool, rest: Seq<u8>)
    requires
        path_fits(path),
    ensures
        parse_rm(enc_path(path) + enc_bool(dir) + rest) == Some(((path, dir), rest)),
{
    assert(enc_path(path) + enc_bool(dir) + rest == enc_path(path) + (enc_bool(dir) + rest));
    path_is_read_back(path, enc_bool(dir) + rest);
    bool_is_read_back(dir, rest);
}

/// The fields of a command that were written down are read back.
proof fn command_is_read_back(
    command: Seq<char>,
    start: PathView,
    shell: Seq<char>,
    clean_env: bool,
    env: Seq<(Seq<char>, Seq<char>)>,
)
    requires
        fits(OpView::Command { command, start, shell, clean_env, env }),
    ensures
        parse_fields(12, op_fields(OpView::Command { command, start, shell, clean_env, env }))
            == Some(
            (OpView::Command { command, start, shell, clean_env, env }, Seq::<u8>::empty()),
        ),
{
    let none = Seq::<u8>::empty();
    let e = enc_pairs(env) + none;
    let d = enc_bool(clean_env) + e;
    let c = enc_text(shell) + d;
    let b = enc_path(start) + c;
    assert(enc_pairs(env) + none == enc_pairs(env));
    assert(op_fields(OpView::Command { command, start, shell, clean_env, env }) == enc_text(
        command,
    ) + b);
    text_is_read_back(command, b);
    path_is_read_back(start, c);
    text_is_read_back(shell, d);
    bool_is_read_back(clean_env, e);
    pairs_are_read_back(env, none);
}

/// The fields of an operation that were written down are read back.
pub proof fn fields_are_read_back(op: OpView)
    requires
        fits(op),
    ensures
        parse_fields(op_tag(op), op_fields(op)) == Some((op, Seq::<u8>::empty())),
{
    let none = Seq::<u8>::empty();
    match op {
        OpView::Link { src, dest } => {
            two_paths_are_read_back(src, dest, none);
            assert(enc_path(src) + enc_path(dest) + none == op_fields(op));
        },
        OpView::LinkUndo { src, dest } => {
            two_paths_are_read_back(src, dest, none);
            assert(enc_path(src) + enc_path(dest) + none == op_fields(op));
        },
        OpView::Copy { src, dest, dir } => {
            copy_is_read_back(src, dest, dir);
        },
        OpView::CopyUndo { src, dest, dir } => {
            copy_is_read_back(src, dest, dir);
        },
        OpView::Create { path } => {
            path_is_read_back(path, none);
            assert(enc_path(path) + none == op_fields(op));
        },
        OpView::CreateUndo { path } => {
            path_is_read_back(path, none);
            assert(enc_path(path) + none == op_fields(op));
        },
        OpView::Write { path, contents } => {
            write_is_read_back(path, contents, none);
            assert(enc_path(path) + enc_bytes(contents) + none == op_fields(op));
        },
        OpView::WriteUndo { path, contents, backup } => {
            write_is_read_back(path, contents, enc_opt_path(backup));
            opt_path_is_read_back(backup, none);
            assert(enc_opt_path(backup) + none == enc_opt_path(backup));
        },
        OpView::Mkdir { path } => {
            path_is_read_back(path, none);
            assert(enc_path(path) + none == op_fields(op));
        },
        OpView::MkdirUndo { path } => {
            path_is_read_back(path, none);
            assert(enc_path(path) + none == op_fields(op));
        },
        OpView::Rm { path, dir } => {
            rm_is_read_back(path, dir, none);
            assert(enc_path(path) + enc_bool(dir) + none == op_fields(op));
        },
        OpView::RmUndo { path, dir, backup } => {
            rm_is_read_back(path, dir, enc_opt_path(backup));
            opt_path_is_read_back(backup, none);
            assert(enc_opt_path(backup) + none == enc_opt_path(backup));
        },
        OpView::Command { command, start, shell, clean_env, env } => {
            command_is_read_back(command, start, shell, clean_env, env);
        },
        OpView::Function { name, start } => {
            assert(op_fields(op) == enc_text(name) + (enc_path(start) + none));
            text_is_read_back(name, enc_path(start) + none);
            path_is_read_back(start, none);
        },
    }
}

/// An operation that was written down is read back: the bytes of an operation
/// spell that operation and no other.
pub proof fn op_is_read_back(op: OpView)
    requires
        fits(op),
    ensures
        parse_op(op_encoding(op)) == Some(op),
{
    let bytes = op_encoding(op);
    assert(bytes.skip(1) == op_fields(op));
    assert(bytes[0] == op_tag(op));
    fields_are_read_back(op);
}

} // verus!
