//! Reading a journal back from its bytes.
//!
//! The bytes of a journal are its records one behind the other, and each record
//! says where it ends: a commit is its tag; an action is its tag, the length of
//! its payload, and the payload. So the bytes can be read from the front, and
//! what is appended later does not change what was read.

use vstd::prelude::*;
use vstd::bytes::{
    lemma_auto_spec_u64_to_from_le_bytes, spec_u64_from_le_bytes, spec_u64_to_le_bytes,
    u64_from_le_bytes,
};
use vstd::slice::slice_subrange;
use super::{
    action_frame, decodes, Decode, Encode, Journal, JournalError, Record, Writer, TAG_ACTION,
    TAG_COMMIT,
};

verus! {

/// One record on the wire, with its payload as bytes.
pub enum Frame {
    Commit,
    Action(Seq<u8>),
}

/// The length that the action at the front of `bytes` gives for its payload.
pub open spec fn payload_len(bytes: Seq<u8>) -> int {
    spec_u64_from_le_bytes(bytes.subrange(1, 9)) as int
}

/// The records that `bytes` hold, one behind the other, if they hold records
/// from the first byte to the last.
pub open spec fn frames(bytes: Seq<u8>) -> Option<Seq<Frame>>
    decreases bytes.len(),
{
    if bytes.len() == 0 {
        Some(Seq::empty())
    } else if bytes[0] == TAG_COMMIT {
        match frames(bytes.skip(1)) {
            Some(rest) => Some(seq![Frame::Commit] + rest),
            None => None,
        }
    } else if bytes[0] == TAG_ACTION && bytes.len() >= 9 && payload_len(bytes) <= bytes.len() - 9 {
        match frames(bytes.skip(9 + payload_len(bytes))) {
            Some(rest) => Some(
                seq![Frame::Action(bytes.subrange(9, 9 + payload_len(bytes)))] + rest,
            ),
            None => None,
        }
    } else {
        None
    }
}

/// Whether `decode` may answer `data` for a slice that holds `payload`.
pub open spec fn decodes_to<T: Decode>(payload: Seq<u8>, data: Option<T>) -> bool {
    exists|bytes: &[u8]| bytes@ == payload && #[trigger] decodes(bytes, data)
}

/// Whether `record` is what `frame` holds: a commit for a commit, and for an
/// action the data that its payload decodes to.
pub open spec fn holds<T: Decode>(record: Record<T>, frame: Frame) -> bool {
    match frame {
        Frame::Commit => record is Commit,
        Frame::Action(payload) => match record {
            Record::Action(data) => decodes_to(payload, Some(data)),
            Record::Commit => false,
        },
    }
}

/// Whether the payload of `frame` may fail to decode.
pub open spec fn fails<T: Decode>(frame: Frame) -> bool {
    match frame {
        Frame::Action(payload) => decodes_to::<T>(payload, None),
        Frame::Commit => false,
    }
}

/// Whether the payload of one of the frames may fail to decode.
pub open spec fn some_fails<T: Decode>(all: Seq<Frame>) -> bool {
    exists|i: int| 0 <= i < all.len() && fails::<T>(#[trigger] all[i])
}

/// Whether each of `records` is what the frame at its place holds.
pub open spec fn all_hold<T: Decode>(records: Seq<Record<T>>, all: Seq<Frame>) -> bool {
    &&& records.len() == all.len()
    &&& forall|i: int| 0 <= i < records.len() ==> holds(#[trigger] records[i], all[i])
}

impl<T: Encode + Decode, W: Writer> Journal<T, W> {
    /// The journal whose records `bytes` spell, to be carried on through
    /// `writer`. Bytes that do not hold records from the first to the last, or
    /// a payload that does not decode, are refused.
    pub fn load(bytes: &[u8], writer: W) -> (res: Result<Self, JournalError>)
        ensures
            res matches Err(err) ==> err == JournalError::Serde,
            match frames(bytes@) {
                Some(all) => match res {
                    Ok(journal) => all_hold(journal@, all) && journal.written() == bytes@
                        && journal.sink() == writer,
                    Err(_) => some_fails::<T>(all),
                },
                None => res is Err,
            },
    {
        let mut records: Vec<Record<T>> = Vec::new();
        let ghost mut read: Seq<Frame> = Seq::empty();
        let mut at: usize = 0;
        assert(bytes@.skip(0) == bytes@);
        assert(read + Seq::<Frame>::empty() == read);
        while at < bytes.len()
            invariant
                at <= bytes@.len(),
                all_hold(records@, read),
                frames(bytes@) == match frames(bytes@.skip(at as int)) {
                    Some(rest) => Some(read + rest),
                    None => None,
                },
            decreases bytes@.len() - at,
        {
            let ghost tail = bytes@.skip(at as int);
            let ghost before = records@;
            assert(tail[0] == bytes@[at as int]);
            if bytes[at] == TAG_COMMIT {
                records.push(Record::Commit);
                proof {
                    assert(tail.skip(1) == bytes@.skip(at + 1));
                    match frames(tail.skip(1)) {
                        Some(rest) => {
                            assert(read + (seq![Frame::Commit] + rest) == read.push(Frame::Commit)
                                + rest);
                        },
                        None => {},
                    }
                    let ghost so_far = read;
                    read = read.push(Frame::Commit);
                    assert forall|i: int| 0 <= i < records@.len() implies holds(
                        #[trigger] records@[i],
                        read[i],
                    ) by {
                        if i < before.len() {
                            assert(holds(before[i], so_far[i]));
                        }
                    }
                }
                at = at + 1;
            } else if bytes[at] == TAG_ACTION && bytes.len() - at >= 9 {
                let n = u64_from_le_bytes(slice_subrange(bytes, at + 1, at + 9));
                assert(bytes@.subrange(at + 1, at + 9) == tail.subrange(1, 9));
                if ((bytes.len() - at - 9) as u64) < n {
                    assert(frames(tail) is None);
                    return Err(JournalError::Serde);
                }
                let from = at + 9;
                let to = from + (n as usize);
                let payload = slice_subrange(bytes, from, to);
                let ghost frame = Frame::Action(payload@);
                assert(payload@ == tail.subrange(9, 9 + payload_len(tail)));
                assert(tail.skip(9 + payload_len(tail)) == bytes@.skip(to as int));
                match T::decode(payload) {
                    Some(data) => {
                        records.push(Record::Action(data));
                        proof {
                            assert(decodes(payload, Some(data)));
                            assert(decodes_to(payload@, Some(data)));
                            assert(holds(Record::Action(data), frame));
                            match frames(bytes@.skip(to as int)) {
                                Some(rest) => {
                                    assert(frames(tail) == Some(seq![frame] + rest));
                                    assert(read + (seq![frame] + rest) == read.push(frame)
                                        + rest);
                                },
                                None => {
                                    assert(frames(tail) is None);
                                },
                            }
                            let ghost so_far = read;
                            read = read.push(frame);
                            assert forall|i: int| 0 <= i < records@.len() implies holds(
                                #[trigger] records@[i],
                                read[i],
                            ) by {
                                if i < before.len() {
                                    assert(holds(before[i], so_far[i]));
                                }
                            }
                        }
                    },
                    None => {
                        proof {
                            assert(decodes::<T>(payload, None));
                            assert(decodes_to::<T>(payload@, None));
                            match frames(bytes@.skip(to as int)) {
                                Some(rest) => {
                                    assert(frames(tail) == Some(seq![frame] + rest));
                                    let all = read + (seq![frame] + rest);
                                    assert(frames(bytes@) == Some(all));
                                    let i = read.len() as int;
                                    assert(0 <= i < all.len());
                                    assert(all[i] == frame);
                                    assert(fails::<T>(all[i]));
                                    assert(some_fails::<T>(all));
                                },
                                None => {
                                    assert(frames(tail) is None);
                                },
                            }
                        }
                        return Err(JournalError::Serde);
                    },
                }
                at = to;
            } else {
                assert(tail.len() == bytes@.len() - at);
                assert(frames(tail) is None);
                return Err(JournalError::Serde);
            }
        }
        assert(read + Seq::<Frame>::empty() == read);
        Ok(Journal::resumed(records, writer, Ghost(bytes@)))
    }
}

/// The records of two lists of bytes, read one behind the other, are the
/// records of the bytes put together.
pub proof fn frames_of_joined(first: Seq<u8>, then: Seq<u8>)
    requires
        frames(first) is Some,
        frames(then) is Some,
    ensures
        frames(first + then) == Some(frames(first).unwrap() + frames(then).unwrap()),
    decreases first.len(),
{
    let all = first + then;
    if first.len() == 0 {
        assert(all == then);
        assert(Seq::<Frame>::empty() + frames(then).unwrap() == frames(then).unwrap());
    } else if first[0] == TAG_COMMIT {
        assert(all.skip(1) == first.skip(1) + then);
        frames_of_joined(first.skip(1), then);
        assert(seq![Frame::Commit] + (frames(first.skip(1)).unwrap() + frames(then).unwrap())
            == (seq![Frame::Commit] + frames(first.skip(1)).unwrap()) + frames(then).unwrap());
    } else {
        let n = payload_len(first);
        assert(all.subrange(1, 9) == first.subrange(1, 9));
        assert(all.skip(9 + n) == first.skip(9 + n) + then);
        assert(all.subrange(9, 9 + n) == first.subrange(9, 9 + n));
        frames_of_joined(first.skip(9 + n), then);
        let frame = Frame::Action(first.subrange(9, 9 + n));
        assert(seq![frame] + (frames(first.skip(9 + n)).unwrap() + frames(then).unwrap()) == (
        seq![frame] + frames(first.skip(9 + n)).unwrap()) + frames(then).unwrap());
    }
}

/// The bytes of an action on the wire hold that one action.
pub proof fn frames_of_action(payload: Seq<u8>)
    requires
        payload.len() <= u64::MAX,
    ensures
        frames(action_frame(payload)) == Some(seq![Frame::Action(payload)]),
{
    lemma_auto_spec_u64_to_from_le_bytes();
    let bytes = action_frame(payload);
    let len = spec_u64_to_le_bytes(payload.len() as u64);
    assert(bytes == seq![TAG_ACTION] + len + payload);
    assert(bytes.len() == 9 + payload.len());
    assert(bytes[0] == TAG_ACTION);
    assert(frames(Seq::<u8>::empty()) == Some(Seq::<Frame>::empty()));
    assert(bytes.subrange(1, 9) == len);
    assert(payload_len(bytes) == payload.len());
    assert(bytes.subrange(9, 9 + payload.len() as int) == payload);
    assert(bytes.skip(9 + payload.len() as int) == Seq::<u8>::empty());
    assert(seq![Frame::Action(payload)] + Seq::<Frame>::empty() == seq![Frame::Action(payload)]);
}

/// The tag of a commit holds that one commit.
pub proof fn frames_of_commit()
    ensures
        frames(seq![TAG_COMMIT]) == Some(seq![Frame::Commit]),
{
    assert(seq![TAG_COMMIT].skip(1) == Seq::<u8>::empty());
    assert(seq![TAG_COMMIT][0] == TAG_COMMIT);
    assert(frames(Seq::<u8>::empty()) == Some(Seq::<Frame>::empty()));
    assert(seq![Frame::Commit] + Seq::<Frame>::empty() == seq![Frame::Commit]);
}

/// What an append writes can be read back: behind bytes that hold records, the
/// bytes of one more record hold those records and the new one. An action is
/// read with the payload that its data was encoded to.
pub proof fn appended_is_read_back<T: Encode>(written: Seq<u8>, record: Record<T>, bytes: Seq<u8>)
    requires
        frames(written) is Some,
        super::framed(record, bytes),
    ensures
        frames(written + bytes) is Some,
        frames(written + bytes).unwrap().len() == frames(written).unwrap().len() + 1,
        frames(written + bytes).unwrap().drop_last() == frames(written).unwrap(),
        match record {
            Record::Commit => frames(written + bytes).unwrap().last() is Commit,
            Record::Action(data) => exists|payload: Vec<u8>|
                #[trigger] super::encodes(data, Some(payload)) && frames(
                    written + bytes,
                ).unwrap().last() == Frame::Action(payload@),
        },
{
    broadcast use vstd::std_specs::vec::axiom_spec_len;

    match record {
        Record::Commit => {
            frames_of_commit();
            frames_of_joined(written, bytes);
            assert((frames(written).unwrap() + seq![Frame::Commit]).drop_last() == frames(
                written,
            ).unwrap());
        },
        Record::Action(data) => {
            let payload = choose|payload: Vec<u8>|
                #[trigger] super::encodes(data, Some(payload)) && bytes == action_frame(payload@);
            assert(payload@.len() == payload.len());
            frames_of_action(payload@);
            frames_of_joined(written, bytes);
            assert((frames(written).unwrap() + seq![Frame::Action(payload@)]).drop_last()
                == frames(written).unwrap());
        },
    }
}

} // verus!
