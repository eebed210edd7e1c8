//! The append-only journal of applied operations and commit markers.
//!
//! A journal keeps its records in memory and persists each of them through a byte
//! writer before it acknowledges the append. On the wire a record is one tag byte;
//! an action is followed by the length of its payload, as eight little-endian
//! bytes, and by the payload itself.

use vstd::prelude::*;
use vstd::bytes::{spec_u64_to_le_bytes, u64_to_le_bytes};

pub mod read;
pub mod rollback;

verus! {

/// An error reported by a byte writer.
#[derive(Debug, Clone, PartialEq, Eq)]
pub struct IoError {
    pub message: String,
}

/// A sink of bytes that a journal persists its records through.
pub trait Writer {
    /// Whether the writer takes every byte that it is given and never fails. A
    /// writer that does not say so is not taken to be reliable, and nothing is
    /// promised of it.
    open spec fn reliable(&self) -> bool {
        false
    }

    /// The bytes that a reliable writer has taken so far.
    open spec fn taken(&self) -> Seq<u8> {
        Seq::empty()
    }

    /// Writes all of `bytes`. After a failure any part of them may have been written.
    fn write_all(&mut self, bytes: &[u8]) -> (res: Result<(), IoError>)
        ensures
            old(self).reliable() ==> res is Ok && final(self).reliable() && final(self).taken()
                == old(self).taken() + bytes@,
    ;

    /// Forces what was written out to the medium behind the writer.
    fn flush(&mut self) -> (res: Result<(), IoError>)
        ensures
            old(self).reliable() ==> res is Ok && final(self).reliable() && final(self).taken()
                == old(self).taken(),
    ;
}

/// An in-memory writer: it keeps every byte and never fails.
impl Writer for Vec<u8> {
    open spec fn reliable(&self) -> bool {
        true
    }

    open spec fn taken(&self) -> Seq<u8> {
        self@
    }

    fn write_all(&mut self, bytes: &[u8]) -> (res: Result<(), IoError>)
        ensures
            res is Ok,
            final(self)@ == old(self)@ + bytes@,
    {
        let mut i: usize = 0;
        while i < bytes.len()
            invariant
                i <= bytes@.len(),
                self@ == old(self)@ + bytes@.take(i as int),
            decreases bytes@.len() - i,
        {
            self.push(bytes[i]);
            i = i + 1;
            assert(bytes@.take(i as int) == bytes@.take(i - 1).push(bytes@[i - 1]));
        }
        assert(bytes@.take(i as int) == bytes@);
        Ok(())
    }

    fn flush(&mut self) -> (res: Result<(), IoError>)
        ensures
            res is Ok,
            final(self)@ == old(self)@,
    {
        Ok(())
    }
}

/// A value with a byte encoding of its own.
pub trait Encode {
    /// Whether the value can be encoded for sure. A type that does not say so
    /// is not taken to encode its values, and nothing is promised of it.
    open spec fn encodable(&self) -> bool {
        false
    }

    /// The bytes that stand for this value, unless it cannot be encoded.
    fn encode(&self) -> (bytes: Option<Vec<u8>>)
        ensures
            self.encodable() ==> bytes is Some,
    ;
}

/// Whether every value of the type can be encoded for sure.
pub open spec fn all_encodable<T: Encode>() -> bool {
    forall|data: T| #[trigger] data.encodable()
}

/// Whether `record` can be put on the wire for sure: a commit always can.
pub open spec fn can_frame<T: Encode>(record: Record<T>) -> bool {
    match record {
        Record::Commit => true,
        Record::Action(data) => data.encodable(),
    }
}

/// A value that can be read back from its byte encoding.
pub trait Decode: Sized {
    /// The value that the bytes stand for, if they stand for one.
    fn decode(bytes: &[u8]) -> Option<Self>;
}

/// Whether `decode` may answer `data` for `bytes`.
pub open spec fn decodes<T: Decode>(bytes: &[u8], data: Option<T>) -> bool {
    call_ensures(T::decode, (bytes,), data)
}

/// Whether `encode` may answer `bytes` for `data`.
pub open spec fn encodes<T: Encode>(data: T, bytes: Option<Vec<u8>>) -> bool {
    call_ensures(T::encode, (&data,), bytes)
}

/// One entry of a journal.
#[derive(Debug, Clone, PartialEq, Eq)]
pub enum Record<T> {
    /// An operation that was applied.
    Action(T),
    /// The end of a transaction.
    Commit,
}

/// Why a journal could not be written or read.
#[derive(Debug, Clone, PartialEq, Eq)]
pub enum JournalError {
    /// The writer refused the record.
    Io(IoError),
    /// A record has no encoding, or bytes hold no records.
    Serde,
}

/// The tag byte of a commit marker.
pub const TAG_COMMIT: u8 = 0;

/// The tag byte of an action.
pub const TAG_ACTION: u8 = 1;

/// The bytes of an action with the given payload on the wire.
pub open spec fn action_frame(payload: Seq<u8>) -> Seq<u8> {
    seq![TAG_ACTION] + spec_u64_to_le_bytes(payload.len() as u64) + payload
}

/// Whether `bytes` are `record` on the wire: the tag of a commit; or the tag of
/// an action, the length of an encoding of its data, and that encoding.
pub open spec fn framed<T: Encode>(record: Record<T>, bytes: Seq<u8>) -> bool {
    match record {
        Record::Commit => bytes == seq![TAG_COMMIT],
        Record::Action(data) => exists|payload: Vec<u8>|
            #[trigger] encodes(data, Some(payload)) && bytes == action_frame(payload@),
    }
}

/// Whether `record` is an action whose data the encoder may refuse, and is not
/// known to encode.
pub open spec fn unencodable<T: Encode>(record: Record<T>) -> bool {
    match record {
        Record::Commit => false,
        Record::Action(data) => encodes(data, None) && !data.encodable(),
    }
}

/// The record `i` places before the end of `records`, the last one being at place 0.
pub open spec fn record_back<T>(records: Seq<Record<T>>, i: int) -> Option<Record<T>> {
    if 0 <= i < records.len() {
        Some(records[records.len() - 1 - i])
    } else {
        None
    }
}

/// An append-only log of records, held in memory and persisted through a writer.
pub struct Journal<T, W> {
    records: Vec<Record<T>>,
    writer: W,
    /// The bytes that the writer has taken and flushed for this journal.
    persisted: Ghost<Seq<u8>>,
}

impl<T: Encode, W: Writer> Journal<T, W> {
    /// The records of the journal, oldest first.
    pub closed spec fn view(&self) -> Seq<Record<T>> {
        self.records@
    }

    /// The bytes that the journal has handed to its writer and that the writer
    /// has acknowledged, after a flush.
    pub closed spec fn written(&self) -> Seq<u8> {
        self.persisted@
    }

    /// The writer that the journal persists through.
    pub closed spec fn sink(&self) -> W {
        self.writer
    }

    /// An empty journal that persists through `writer`.
    pub fn new(writer: W) -> (journal: Self)
        ensures
            journal@ == Seq::<Record<T>>::empty(),
            journal.written() == Seq::<u8>::empty(),
            journal.sink() == writer,
    {
        Journal { records: Vec::new(), writer, persisted: Ghost(Seq::empty()) }
    }

    /// A journal that holds `records` already, which `bytes` spell on the medium
    /// behind `writer`.
    pub(crate) fn resumed(records: Vec<Record<T>>, writer: W, bytes: Ghost<Seq<u8>>) -> (journal:
        Self)
        ensures
            journal@ == records@,
            journal.written() == bytes@,
            journal.sink() == writer,
    {
        Journal { records, writer, persisted: bytes }
    }

    /// Whether `after` is `before` once it has put `record` on the wire: the
    /// bytes of the record stand behind what was written, and a reliable
    /// writer has taken them and is still reliable.
    pub open spec fn took(before: Self, after: Self, record: Record<T>) -> bool {
        exists|bytes: Seq<u8>|
            {
                &&& #[trigger] framed(record, bytes)
                &&& after.written() == before.written() + bytes
                &&& before.sink().reliable() ==> after.sink().reliable() && after.sink().taken()
                    == before.sink().taken() + bytes
            }
    }

    /// Encodes `record`, hands its bytes to the writer, flushes, and only then
    /// takes the record into the journal. When the record cannot be encoded or
    /// the writer fails, the journal keeps its records as they were. Over a
    /// reliable writer a record that can be encoded is always taken.
    pub fn append(&mut self, record: Record<T>) -> (res: Result<(), JournalError>)
        ensures
            old(self).sink().reliable() && can_frame(record) ==> res is Ok,
            old(self).sink().reliable() ==> final(self).sink().reliable(),
            res is Ok ==> final(self)@ == old(self)@.push(record) && Self::took(
                *old(self),
                *final(self),
                record,
            ),
            res is Err ==> final(self)@ == old(self)@ && final(self).written() == old(self).written(),
            res == Err::<(), JournalError>(JournalError::Serde) ==> unencodable(record),
    {
        let bytes = match Self::frame_bytes(&record) {
            Some(bytes) => bytes,
            None => {
                return Err(JournalError::Serde);
            },
        };
        match self.writer.write_all(bytes.as_slice()) {
            Ok(()) => {},
            Err(err) => {
                return Err(JournalError::Io(err));
            },
        }
        match self.writer.flush() {
            Ok(()) => {},
            Err(err) => {
                return Err(JournalError::Io(err));
            },
        }
        self.records.push(record);
        self.persisted = Ghost(self.persisted@ + bytes@);
        assert(framed(record, bytes@));
        Ok(())
    }

    /// The bytes of `record` on the wire, unless its data cannot be encoded.
    pub fn frame_bytes(record: &Record<T>) -> (bytes: Option<Vec<u8>>)
        ensures
            can_frame(*record) ==> bytes is Some,
            bytes matches Some(b) ==> framed(*record, b@),
            bytes is None ==> unencodable(*record),
    {
        match record {
            Record::Commit => {
                let mut bytes: Vec<u8> = Vec::new();
                bytes.push(TAG_COMMIT);
                assert(bytes@ == seq![TAG_COMMIT]);
                Some(bytes)
            },
            Record::Action(data) => {
                let mut payload = match data.encode() {
                    Some(payload) => payload,
                    None => {
                        return None;
                    },
                };
                let ghost encoded = payload;
                let len: u64 = payload.len() as u64;
                let mut bytes: Vec<u8> = Vec::new();
                bytes.push(TAG_ACTION);
                let mut prefix = u64_to_le_bytes(len);
                bytes.append(&mut prefix);
                bytes.append(&mut payload);
                assert(bytes@ == action_frame(encoded@));
                assert(encodes(*data, Some(encoded)));
                Some(bytes)
            },
        }
    }

    /// The records of the journal, oldest first.
    pub fn records(&self) -> (records: &[Record<T>])
        ensures
            records@ == self@,
    {
        self.records.as_slice()
    }

    /// The record appended last.
    pub fn latest(&self) -> (record: Option<&Record<T>>)
        ensures
            record is Some <==> record_back(self@, 0) is Some,
            record matches Some(r) ==> record_back(self@, 0) == Some(*r),
    {
        self.get_back(0)
    }

    /// The record `i` places before the end, the last one being at place 0.
    pub fn get_back(&self, i: usize) -> (record: Option<&Record<T>>)
        ensures
            record is Some <==> record_back(self@, i as int) is Some,
            record matches Some(r) ==> record_back(self@, i as int) == Some(*r),
    {
        let len = self.records.len();
        if i < len {
            Some(&self.records[len - 1 - i])
        } else {
            None
        }
    }

    pub fn is_empty(&self) -> (empty: bool)
        ensures
            empty == (self@.len() == 0),
    {
        self.records.len() == 0
    }

    pub fn len(&self) -> (n: usize)
        ensures
            n == self@.len(),
    {
        self.records.len()
    }

    /// The writer that the journal persists through.
    pub fn writer(&self) -> (writer: &W)
        ensures
            *writer == self.sink(),
    {
        &self.writer
    }
}

} // verus!
