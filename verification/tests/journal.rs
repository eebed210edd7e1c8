use shelf::journal::rollback::Rollback;
use shelf::journal::{Decode, Encode, IoError, Journal, JournalError, Record, Writer};

#[derive(Debug, Clone, Copy, PartialEq, Eq)]
enum Datum {
    Forward,
    Backward,
}

impl Rollback for Datum {
    type Output = Datum;

    fn rollback(&self) -> Datum {
        match self {
            Datum::Forward => Datum::Backward,
            Datum::Backward => Datum::Forward,
        }
    }
}

impl Encode for Datum {
    fn encode(&self) -> Option<Vec<u8>> {
        match self {
            Datum::Forward => Some(vec![b'F']),
            Datum::Backward => Some(vec![b'B']),
        }
    }
}

impl Decode for Datum {
    fn decode(bytes: &[u8]) -> Option<Datum> {
        match bytes {
            b"F" => Some(Datum::Forward),
            b"B" => Some(Datum::Backward),
            _ => None,
        }
    }
}

const FORWARD: Record<Datum> = Record::Action(Datum::Forward);
const BACKWARD: Record<Datum> = Record::Action(Datum::Backward);
const COMMIT: Record<Datum> = Record::Commit;

/// The bytes that a journal of `records` hands to its writer.
fn mk_expected(records: &[Record<Datum>]) -> Vec<u8> {
    let mut bytes = Vec::new();
    for record in records {
        match record {
            Record::Commit => bytes.push(0),
            Record::Action(datum) => {
                let payload = datum.encode().unwrap();
                bytes.push(1);
                bytes.extend_from_slice(&(payload.len() as u64).to_le_bytes());
                bytes.extend_from_slice(&payload);
            }
        }
    }
    bytes
}

fn assert_writer(expected: &[u8], journal: &Journal<Datum, Vec<u8>>) {
    assert_eq!(expected, journal.writer().as_slice());
}

#[test]
fn test_rollback_empty() -> Result<(), JournalError> {
    let mut journal: Journal<Datum, Vec<u8>> = Journal::new(Vec::new());

    // No records; rollback does nothing.
    let mut rollback = journal.rollback();
    assert!(rollback.next().is_none());
    assert!(journal.is_empty());

    Ok(())
}

#[test]
fn test_rollback_commit_only() -> Result<(), JournalError> {
    let mut journal: Journal<Datum, Vec<u8>> = Journal::new(Vec::new());

    journal.append(COMMIT)?;

    let mut rollback = journal.rollback();

    // Rollback should do nothing.
    assert!(rollback.next().is_none());
    assert_eq!(&[COMMIT], journal.records());

    Ok(())
}

#[test]
fn test_rollback_commit_double() -> Result<(), JournalError> {
    let mut journal: Journal<Datum, Vec<u8>> = Journal::new(Vec::new());

    journal.append(COMMIT)?;
    journal.append(COMMIT)?;

    let mut rollback = journal.rollback();

    // Rollback should do nothing.
    assert!(rollback.next().is_none());
    assert_eq!(&[COMMIT, COMMIT], journal.records());

    Ok(())
}

#[test]
fn test_rollback_no_commit() -> Result<(), JournalError> {
    let mut journal: Journal<Datum, Vec<u8>> = Journal::new(Vec::new());
    let mut records = Vec::new();

    records.push(FORWARD);
    journal.append(FORWARD)?;

    let mut rollback = journal.rollback();

    // Rollback should push a BACKWARD record to the journal on next.
    assert_eq!(Datum::Backward, rollback.next().unwrap()?);
    records.push(BACKWARD);
    assert_writer(&mk_expected(&records), &rollback.journal);

    // No more rollback to be done; None.
    assert!(rollback.next().is_none());
    // COMMIT record should have been pushed.
    records.push(COMMIT);
    assert_writer(&mk_expected(&records), &rollback.journal);

    // Same as last
    assert!(rollback.next().is_none());

    Ok(())
}

#[test]
fn test_rollback_commit_last() -> Result<(), JournalError> {
    let mut journal: Journal<Datum, Vec<u8>> = Journal::new(Vec::new());

    journal.append(FORWARD)?;
    journal.append(COMMIT)?;

    let mut rollback = journal.rollback();

    // Rollback should do nothing.
    assert!(rollback.next().is_none());
    assert_eq!(&[FORWARD, COMMIT], journal.records());

    Ok(())
}

#[test]
fn test_rollback_after_commit() -> Result<(), JournalError> {
    let mut journal: Journal<Datum, Vec<u8>> = Journal::new(Vec::new());
    let mut records = vec![FORWARD, COMMIT, FORWARD, BACKWARD];

    journal.append(FORWARD)?;
    journal.append(COMMIT)?;
    journal.append(FORWARD)?;
    journal.append(BACKWARD)?;

    let mut rollback = journal.rollback();

    // Rollback should push a FOWARD record to the journal on next.
    assert_eq!(Datum::Forward, rollback.next().unwrap()?);
    records.push(FORWARD);
    assert_writer(&mk_expected(&records), &rollback.journal);

    // Rollback should push a BACKWARD record to the journal on next.
    assert_eq!(Datum::Backward, rollback.next().unwrap()?);
    records.push(BACKWARD);
    assert_writer(&mk_expected(&records), &rollback.journal);

    // No more rollback to be done; None.
    assert!(rollback.next().is_none());
    // COMMIT record should have been pushed.
    records.push(COMMIT);
    assert_writer(&mk_expected(&records), &rollback.journal);

    Ok(())
}

#[test]
fn test_rollback_last_empty() -> Result<(), JournalError> {
    let mut journal: Journal<Datum, Vec<u8>> = Journal::new(Vec::new());

    // No records; no rollback iter.
    let rollback = journal.rollback_last();
    assert!(rollback.is_none());

    Ok(())
}

#[test]
fn test_rollback_last_non_commit() -> Result<(), JournalError> {
    let mut journal: Journal<Datum, Vec<u8>> = Journal::new(Vec::new());
    journal.append(FORWARD)?;

    // Latest is not commit; no rollback iter.
    let rollback = journal.rollback_last();
    assert!(rollback.is_none());

    Ok(())
}

#[test]
fn test_rollback_last_normal() -> Result<(), JournalError> {
    let mut journal: Journal<Datum, Vec<u8>> = Journal::new(Vec::new());

    let mut records = vec![FORWARD, COMMIT];
    journal.append(FORWARD)?;
    journal.append(COMMIT)?;

    // Latest is commit; rollback iter.
    let mut rollback = journal.rollback_last().unwrap();

    // Rollback should push a BACKWARD record to the journal on next.
    assert_eq!(Datum::Backward, rollback.next().unwrap()?);
    records.push(BACKWARD);
    assert_writer(&mk_expected(&records), &rollback.journal);

    // End of transaction; rollback should return none.
    assert!(rollback.next().is_none());
    // COMMIT record should have been pushed.
    records.push(COMMIT);
    assert_writer(&mk_expected(&records), &rollback.journal);

    Ok(())
}

#[test]
fn journal_reads_back_what_was_appended() -> Result<(), JournalError> {
    let mut journal: Journal<Datum, Vec<u8>> = Journal::new(Vec::new());
    assert!(journal.is_empty());
    assert_eq!(0, journal.len());
    assert_eq!(None, journal.latest());
    assert_eq!(None, journal.get_back(0));

    journal.append(FORWARD)?;
    journal.append(COMMIT)?;
    journal.append(BACKWARD)?;

    assert!(!journal.is_empty());
    assert_eq!(3, journal.len());
    assert_eq!(&[FORWARD, COMMIT, BACKWARD], journal.records());
    assert_eq!(Some(&BACKWARD), journal.latest());
    assert_eq!(Some(&BACKWARD), journal.get_back(0));
    assert_eq!(Some(&COMMIT), journal.get_back(1));
    assert_eq!(Some(&FORWARD), journal.get_back(2));
    assert_eq!(None, journal.get_back(3));

    Ok(())
}

#[test]
fn journal_frames_each_record() -> Result<(), JournalError> {
    let mut journal: Journal<Datum, Vec<u8>> = Journal::new(Vec::new());
    journal.append(FORWARD)?;
    assert_eq!(&vec![1, 1, 0, 0, 0, 0, 0, 0, 0, b'F'], journal.writer());
    journal.append(COMMIT)?;
    assert_eq!(&vec![1, 1, 0, 0, 0, 0, 0, 0, 0, b'F', 0], journal.writer());
    assert_eq!(
        Some(vec![1, 1, 0, 0, 0, 0, 0, 0, 0, b'B']),
        Journal::<Datum, Vec<u8>>::frame_bytes(&BACKWARD)
    );
    assert_eq!(Some(vec![0]), Journal::<Datum, Vec<u8>>::frame_bytes(&COMMIT));

    Ok(())
}

/// A value that cannot be encoded.
#[derive(Debug, Clone, PartialEq)]
struct Mute;

impl Rollback for Mute {
    type Output = Mute;

    fn rollback(&self) -> Mute {
        Mute
    }
}

impl Encode for Mute {
    fn encode(&self) -> Option<Vec<u8>> {
        None
    }
}

#[test]
fn journal_refuses_what_cannot_be_encoded() {
    let mut journal: Journal<Mute, Vec<u8>> = Journal::new(Vec::new());
    assert_eq!(Err(JournalError::Serde), journal.append(Record::Action(Mute)));
    assert!(journal.is_empty());
    assert!(journal.writer().is_empty());
    assert_eq!(Ok(()), journal.append(Record::Commit));
    assert_eq!(1, journal.len());
}

/// A writer that takes a number of writes and then fails.
struct Failing {
    left: usize,
    bytes: Vec<u8>,
}

impl Writer for Failing {
    fn write_all(&mut self, bytes: &[u8]) -> Result<(), IoError> {
        if self.left == 0 {
            return Err(IoError { message: String::from("disk full") });
        }
        self.left -= 1;
        self.bytes.extend_from_slice(bytes);
        Ok(())
    }

    fn flush(&mut self) -> Result<(), IoError> {
        Ok(())
    }
}

#[test]
fn journal_keeps_its_records_when_the_writer_fails() {
    let mut journal: Journal<Datum, Failing> =
        Journal::new(Failing { left: 1, bytes: Vec::new() });
    assert_eq!(Ok(()), journal.append(FORWARD));
    let err = journal.append(COMMIT);
    assert_eq!(Err(JournalError::Io(IoError { message: String::from("disk full") })), err);
    assert_eq!(&[FORWARD], journal.records());
    assert_eq!(mk_expected(&[FORWARD]), journal.writer().bytes);
}

#[test]
fn rollback_surfaces_a_writer_failure_and_moves_on() {
    let mut journal: Journal<Datum, Failing> =
        Journal::new(Failing { left: 2, bytes: Vec::new() });
    assert_eq!(Ok(()), journal.append(FORWARD));
    assert_eq!(Ok(()), journal.append(BACKWARD));

    let mut rollback = journal.rollback();
    // The inverse of the latest action cannot be written.
    assert!(matches!(rollback.next(), Some(Err(JournalError::Io(_)))));
    assert_eq!(1, rollback.idx);
    assert!(!rollback.appended);
    // The walk goes on with the action before it, which fails too.
    assert!(matches!(rollback.next(), Some(Err(JournalError::Io(_)))));
    assert_eq!(2, rollback.idx);
    // Nothing was appended, so the walk ends without a commit.
    assert!(rollback.next().is_none());
    assert!(rollback.done);
    assert_eq!(&[FORWARD, BACKWARD], journal.records());
}

#[test]
fn exhaust_rolls_back_to_the_last_commit() -> Result<(), JournalError> {
    let mut journal: Journal<Datum, Vec<u8>> = Journal::new(Vec::new());
    journal.append(FORWARD)?;
    journal.append(COMMIT)?;
    journal.append(FORWARD)?;
    journal.append(FORWARD)?;
    journal.append(BACKWARD)?;

    let inverses = journal.rollback().exhaust()?;
    assert_eq!(vec![Datum::Forward, Datum::Backward, Datum::Backward], inverses);
    assert_eq!(
        &[FORWARD, COMMIT, FORWARD, FORWARD, BACKWARD, FORWARD, BACKWARD, BACKWARD, COMMIT],
        journal.records()
    );

    // A second rollback finds a commit at the end and does nothing.
    let again = journal.rollback().exhaust()?;
    assert!(again.is_empty());
    assert_eq!(9, journal.len());

    Ok(())
}

#[test]
fn rollback_of_a_rollback_is_a_redo() -> Result<(), JournalError> {
    let mut journal: Journal<Datum, Vec<u8>> = Journal::new(Vec::new());
    journal.append(FORWARD)?;
    journal.append(BACKWARD)?;
    journal.append(BACKWARD)?;
    journal.append(COMMIT)?;

    let undone = journal.rollback_last().unwrap().exhaust()?;
    assert_eq!(vec![Datum::Forward, Datum::Forward, Datum::Backward], undone);
    // The journal is mirrored around the commit.
    assert_eq!(
        &[FORWARD, BACKWARD, BACKWARD, COMMIT, FORWARD, FORWARD, BACKWARD, COMMIT],
        journal.records()
    );

    let redone = journal.rollback_last().unwrap().exhaust()?;
    assert_eq!(vec![Datum::Forward, Datum::Backward, Datum::Backward], redone);
    assert_eq!(
        &[
            FORWARD, BACKWARD, BACKWARD, COMMIT, FORWARD, FORWARD, BACKWARD, COMMIT, FORWARD,
            BACKWARD, BACKWARD, COMMIT
        ],
        journal.records()
    );

    Ok(())
}

#[test]
fn rollback_last_of_an_empty_transaction_appends_nothing() -> Result<(), JournalError> {
    let mut journal: Journal<Datum, Vec<u8>> = Journal::new(Vec::new());
    journal.append(FORWARD)?;
    journal.append(COMMIT)?;
    journal.append(COMMIT)?;

    let undone = journal.rollback_last().unwrap().exhaust()?;
    assert!(undone.is_empty());
    assert_eq!(&[FORWARD, COMMIT, COMMIT], journal.records());

    Ok(())
}

#[test]
fn a_journal_is_read_back_from_what_it_wrote() -> Result<(), JournalError> {
    let mut journal: Journal<Datum, Vec<u8>> = Journal::new(Vec::new());
    journal.append(FORWARD)?;
    journal.append(BACKWARD)?;
    journal.append(COMMIT)?;
    journal.append(FORWARD)?;
    let written = journal.writer().clone();

    let mut resumed: Journal<Datum, Vec<u8>> = Journal::load(&written, written.clone())?;
    assert_eq!(journal.records(), resumed.records());

    // The journal that was read goes on where the other one stopped.
    let undone = resumed.rollback().exhaust()?;
    assert_eq!(vec![Datum::Backward], undone);
    assert_eq!(&[FORWARD, BACKWARD, COMMIT, FORWARD, BACKWARD, COMMIT], resumed.records());
    assert_eq!(&mk_expected(resumed.records()), resumed.writer());

    let empty: Journal<Datum, Vec<u8>> = Journal::load(&[], Vec::new())?;
    assert!(empty.is_empty());
    Ok(())
}

#[test]
fn bytes_that_hold_no_records_are_refused() {
    let load = |bytes: &[u8]| Journal::<Datum, Vec<u8>>::load(bytes, Vec::new()).map(|_| ());
    assert_eq!(Ok(()), load(&[0, 1, 1, 0, 0, 0, 0, 0, 0, 0, b'F', 0]));
    // An unknown tag.
    assert_eq!(Err(JournalError::Serde), load(&[0, 2]));
    // A length that is cut short, and one that reaches beyond the end.
    assert_eq!(Err(JournalError::Serde), load(&[1, 1, 0, 0]));
    assert_eq!(Err(JournalError::Serde), load(&[1, 2, 0, 0, 0, 0, 0, 0, 0, b'F']));
    assert_eq!(Err(JournalError::Serde), load(&[1, 255, 255, 255, 255, 255, 255, 255, 255]));
    // A payload that does not decode.
    assert_eq!(Err(JournalError::Serde), load(&[1, 1, 0, 0, 0, 0, 0, 0, 0, b'X']));
    assert_eq!(Err(JournalError::Serde), load(&[1, 0, 0, 0, 0, 0, 0, 0, 0]));
}

#[test]
fn exhaust_stops_at_the_first_failure_without_a_commit() {
    // Three records are written, and one inverse; the next write fails.
    let mut journal: Journal<Datum, Failing> =
        Journal::new(Failing { left: 4, bytes: Vec::new() });
    assert_eq!(Ok(()), journal.append(FORWARD));
    assert_eq!(Ok(()), journal.append(FORWARD));
    assert_eq!(Ok(()), journal.append(BACKWARD));

    let mut rollback = journal.rollback();
    assert!(matches!(rollback.exhaust(), Err(JournalError::Io(_))));
    assert!(!rollback.done);
    // The inverse of the newest action stands behind the records, and nothing else.
    assert_eq!(&[FORWARD, FORWARD, BACKWARD, FORWARD], journal.records());
}

#[test]
fn exhaust_cannot_fail_where_there_is_nothing_to_roll_back() {
    // The writer takes nothing, and is not asked to.
    let mut journal: Journal<Datum, Failing> =
        Journal::new(Failing { left: 0, bytes: Vec::new() });
    assert_eq!(Ok(Vec::new()), journal.rollback().exhaust());
    assert!(journal.is_empty());

    let mut journal: Journal<Datum, Failing> =
        Journal::new(Failing { left: 2, bytes: Vec::new() });
    assert_eq!(Ok(()), journal.append(FORWARD));
    assert_eq!(Ok(()), journal.append(COMMIT));
    let mut rollback = journal.rollback();
    assert_eq!(Ok(Vec::new()), rollback.exhaust());
    assert!(rollback.done);
    // A walk that has ended stays ended.
    assert_eq!(Ok(Vec::new()), rollback.exhaust());
    assert_eq!(&[FORWARD, COMMIT], journal.records());
}

#[test]
fn settle_hands_the_outcome_of_the_append_on() -> Result<(), JournalError> {
    let full = JournalError::Io(IoError { message: String::from("disk full") });
    let mut journal: Journal<Datum, Vec<u8>> = Journal::new(Vec::new());
    journal.append(FORWARD)?;
    let mut rollback = journal.rollback();

    // A failed append of an inverse: its error, and the cursor moves on by one.
    assert_eq!(Some(Err(full.clone())), rollback.settle(Some(Datum::Backward), Err(full.clone())));
    assert_eq!((1, false, false), (rollback.idx, rollback.appended, rollback.done));
    assert_eq!(
        Some(Err(JournalError::Serde)),
        rollback.settle(Some(Datum::Backward), Err(JournalError::Serde))
    );
    assert_eq!((2, false, false), (rollback.idx, rollback.appended, rollback.done));
    // An append of an inverse that went through: the inverse, and two places on.
    assert_eq!(Some(Ok(Datum::Backward)), rollback.settle(Some(Datum::Backward), Ok(())));
    assert_eq!((4, true, false), (rollback.idx, rollback.appended, rollback.done));
    // A failed append of the commit: its error, and the cursor stays.
    assert_eq!(Some(Err(full.clone())), rollback.settle(None, Err(full)));
    assert_eq!((4, true, false), (rollback.idx, rollback.appended, rollback.done));
    // A commit that went through ends the walk.
    assert_eq!(None, rollback.settle(None, Ok(())));
    assert_eq!((4, true, true), (rollback.idx, rollback.appended, rollback.done));
    // The journal was not touched.
    assert_eq!(&[FORWARD], journal.records());
    Ok(())
}

#[test]
fn a_failed_step_yields_the_error_of_the_writer() {
    let mut journal: Journal<Datum, Failing> =
        Journal::new(Failing { left: 1, bytes: Vec::new() });
    assert_eq!(Ok(()), journal.append(FORWARD));
    let mut rollback = journal.rollback();
    assert_eq!(
        Some(Err(JournalError::Io(IoError { message: String::from("disk full") }))),
        rollback.next()
    );
    assert_eq!(&[FORWARD], journal.records());
}

#[test]
fn a_walk_of_four_actions_yields_their_inverses_newest_first() -> Result<(), JournalError> {
    let mut journal: Journal<Datum, Vec<u8>> = Journal::new(Vec::new());
    for record in [FORWARD, BACKWARD, FORWARD, FORWARD] {
        journal.append(record)?;
    }
    let mut rollback = journal.rollback();
    assert_eq!(Some(Ok(Datum::Backward)), rollback.next());
    assert_eq!(Some(Ok(Datum::Backward)), rollback.next());
    assert_eq!(Some(Ok(Datum::Forward)), rollback.next());
    assert_eq!(Some(Ok(Datum::Backward)), rollback.next());
    assert_eq!(None, rollback.next());
    let all =
        [FORWARD, BACKWARD, FORWARD, FORWARD, BACKWARD, BACKWARD, FORWARD, BACKWARD, COMMIT];
    assert_eq!(&all, journal.records());
    assert_eq!(&mk_expected(&all), journal.writer());
    Ok(())
}

#[test]
fn rollback_last_rewinds_one_transaction_only() -> Result<(), JournalError> {
    let mut journal: Journal<Datum, Vec<u8>> = Journal::new(Vec::new());
    for record in [FORWARD, COMMIT, BACKWARD, COMMIT] {
        journal.append(record)?;
    }
    assert_eq!(vec![Datum::Forward], journal.rollback_last().unwrap().exhaust()?);
    assert_eq!(&[FORWARD, COMMIT, BACKWARD, COMMIT, FORWARD, COMMIT], journal.records());
    Ok(())
}
