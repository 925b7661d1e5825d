//! Framing of serialized records for the append-only log.
//!
//! The log is a run of serialized records, each followed by one delimiter
//! byte. Nothing encloses the run and the last delimiter is never dropped, so
//! a reader has to trim it and supply the enclosing brackets before handing
//! the log to a general-purpose parser.

use vstd::prelude::*;

verus! {

/// The byte written after every record: a comma.
pub const DELIMITER: u8 = 0x2c;

/// A serialized record followed by the delimiter.
pub open spec fn framed(serialized: Seq<u8>) -> Seq<u8> {
    serialized.push(DELIMITER)
}

/// The log that appending `records` one after the other to an empty log
/// leaves.
pub open spec fn log_of(records: Seq<Seq<u8>>) -> Seq<u8>
    decreases records.len(),
{
    if records.len() == 0 {
        Seq::empty()
    } else {
        log_of(records.drop_last()) + framed(records.last())
    }
}

/// The records with one delimiter between each two neighbours and none at
/// either end.
pub open spec fn joined(records: Seq<Seq<u8>>) -> Seq<u8>
    decreases records.len(),
{
    if records.len() == 0 {
        Seq::empty()
    } else if records.len() == 1 {
        records[0]
    } else {
        joined(records.drop_last()).push(DELIMITER) + records.last()
    }
}

/// The total length of the records.
pub open spec fn total_len(records: Seq<Seq<u8>>) -> nat
    decreases records.len(),
{
    if records.len() == 0 {
        0
    } else {
        total_len(records.drop_last()) + records.last().len()
    }
}

/// The bytes that one append writes: the serialized record, then the
/// delimiter.
pub fn frame(serialized: &Vec<u8>) -> (r: Vec<u8>)
    ensures
        r@ == framed(serialized@),
{
    let mut r = serialized.clone();
    r.push(DELIMITER);
    r
}

/// Appends one serialized record and its delimiter to `log`.
pub fn append(log: &mut Vec<u8>, serialized: &Vec<u8>)
    ensures
        final(log)@ == old(log)@ + framed(serialized@),
{
    let ghost before = log@;
    let mut n: usize = 0;
    while n < serialized.len()
        invariant
            n <= serialized.len(),
            log@ == before + serialized@.take(n as int),
        decreases serialized.len() - n,
    {
        log.push(serialized[n]);
        assert(serialized@.take(n + 1) =~= serialized@.take(n as int).push(serialized[n as int]));
        assert(log@ =~= before + serialized@.take(n + 1));
        n = n + 1;
    }
    log.push(DELIMITER);
    assert(serialized@.take(n as int) =~= serialized@);
    assert(log@ =~= before + framed(serialized@));
}

/// Appending a record to a log of `records` gives the log of the records
/// with that one added.
pub proof fn lemma_log_append(records: Seq<Seq<u8>>, serialized: Seq<u8>)
    ensures
        log_of(records.push(serialized)) == log_of(records) + framed(serialized),
{
    assert(records.push(serialized).drop_last() =~= records);
}

/// A log of at least one record is its records joined by delimiters and
/// then one more delimiter; so its last byte is a delimiter.
pub proof fn lemma_log_is_joined_and_delimiter(records: Seq<Seq<u8>>)
    requires
        records.len() > 0,
    ensures
        log_of(records) == joined(records).push(DELIMITER),
        log_of(records).last() == DELIMITER,
    decreases records.len(),
{
    if records.len() == 1 {
        assert(log_of(records.drop_last()) =~= Seq::<u8>::empty());
        assert(records.last() == records[0]);
        assert(log_of(records) =~= joined(records).push(DELIMITER));
    } else {
        lemma_log_is_joined_and_delimiter(records.drop_last());
        assert(log_of(records) =~= joined(records).push(DELIMITER));
    }
}

/// A log holds every byte of its records and one delimiter for each.
pub proof fn lemma_log_len(records: Seq<Seq<u8>>)
    ensures
        log_of(records).len() == total_len(records) + records.len(),
    decreases records.len(),
{
    if records.len() > 0 {
        lemma_log_len(records.drop_last());
    }
}

} // verus!
