//! How the store's replies become the results of the repository's
//! operations.
//!
//! A failure of the store is handed on as it came, in every operation. A
//! record that is not there is no failure: it is an absent value, a `false`
//! or a count of zero.

use vstd::prelude::*;

verus! {

/// What the store reports of an update.
#[derive(Clone, Copy, Debug, PartialEq, Eq, Structural)]
pub struct UpdateSummary {
    /// Number of records that the filter selected.
    pub matched_count: u64,
    /// Number of records whose content the update changed.
    pub modified_count: u64,
}

/// What the store reports of a deletion.
#[derive(Clone, Copy, Debug, PartialEq, Eq, Structural)]
pub struct DeleteSummary {
    /// Number of records that were removed.
    pub deleted_count: u64,
}

/// The result of inserting: what was handed in, once the store has taken it.
pub fn insert_outcome<T, E>(submitted: T, reply: Result<(), E>) -> (out: Result<T, E>)
    ensures
        out == match reply {
            Ok(_) => Ok::<T, E>(submitted),
            Err(e) => Err::<T, E>(e),
        },
{
    match reply {
        Ok(_) => Ok(submitted),
        Err(e) => Err(e),
    }
}

/// The result of an existence check: whether the store found a record.
pub fn exists_outcome<T, E>(reply: Result<Option<T>, E>) -> (out: Result<bool, E>)
    ensures
        out == match reply {
            Ok(found) => Ok::<bool, E>(found is Some),
            Err(e) => Err::<bool, E>(e),
        },
{
    match reply {
        Ok(found) => Ok(found.is_some()),
        Err(e) => Err(e),
    }
}

/// The result of updating one record: whether a record was changed. A
/// record that was selected and left as it was does not count.
pub fn update_outcome<E>(reply: Result<UpdateSummary, E>) -> (out: Result<bool, E>)
    ensures
        out == match reply {
            Ok(summary) => Ok::<bool, E>(summary.modified_count > 0),
            Err(e) => Err::<bool, E>(e),
        },
{
    match reply {
        Ok(summary) => Ok(summary.modified_count > 0),
        Err(e) => Err(e),
    }
}

/// The result of updating many records: the number of records changed,
/// not the number selected.
pub fn update_many_outcome<E>(reply: Result<UpdateSummary, E>) -> (out: Result<u64, E>)
    ensures
        out == match reply {
            Ok(summary) => Ok::<u64, E>(summary.modified_count),
            Err(e) => Err::<u64, E>(e),
        },
{
    match reply {
        Ok(summary) => Ok(summary.modified_count),
        Err(e) => Err(e),
    }
}

/// The result of deleting one record: whether a record was removed.
pub fn delete_outcome<E>(reply: Result<DeleteSummary, E>) -> (out: Result<bool, E>)
    ensures
        out == match reply {
            Ok(summary) => Ok::<bool, E>(summary.deleted_count > 0),
            Err(e) => Err::<bool, E>(e),
        },
{
    match reply {
        Ok(summary) => Ok(summary.deleted_count > 0),
        Err(e) => Err(e),
    }
}

/// The result of deleting many records: the number of records removed.
pub fn delete_many_outcome<E>(reply: Result<DeleteSummary, E>) -> (out: Result<u64, E>)
    ensures
        out == match reply {
            Ok(summary) => Ok::<u64, E>(summary.deleted_count),
            Err(e) => Err::<u64, E>(e),
        },
{
    match reply {
        Ok(summary) => Ok(summary.deleted_count),
        Err(e) => Err(e),
    }
}

/// One reply of the store's result stream: a record, the end of the stream,
/// or a failure.
pub type StreamReply<T, E> = Result<Option<T>, E>;

/// How far a result stream has been read, as a value of the mathematics.
pub enum Progress<T, E> {
    /// The records read so far; the stream has more to say.
    Reading(Seq<T>),
    /// All records of the stream, in the order in which it gave them.
    Complete(Seq<T>),
    /// The stream failed; the records read before are given up.
    Failed(E),
}

/// Progress after one more reply. A stream that has ended or failed is not
/// read again.
pub open spec fn advance<T, E>(progress: Progress<T, E>, reply: StreamReply<T, E>) -> Progress<
    T,
    E,
> {
    match progress {
        Progress::Reading(records) => match reply {
            Ok(Some(record)) => Progress::Reading(records.push(record)),
            Ok(None) => Progress::Complete(records),
            Err(e) => Progress::Failed(e),
        },
        _ => progress,
    }
}

/// Progress after a sequence of replies, taken in order from a fresh stream.
pub open spec fn progress_after<T, E>(replies: Seq<StreamReply<T, E>>) -> Progress<T, E>
    decreases replies.len(),
{
    if replies.len() == 0 {
        Progress::Reading(Seq::empty())
    } else {
        advance(progress_after(replies.drop_last()), replies.last())
    }
}

/// The replies of a stream that gives `records` and has not ended yet.
pub open spec fn records_as_replies<T, E>(records: Seq<T>) -> Seq<StreamReply<T, E>> {
    Seq::new(records.len(), |i: int| Ok::<Option<T>, E>(Some(records[i])))
}

/// The reading of a result stream: the records collected so far, or how the
/// reading ended.
pub enum Drain<T, E> {
    /// The records read so far; the next reply of the stream is wanted.
    Reading(Vec<T>),
    /// All records of the stream, in the order in which it gave them.
    Complete(Vec<T>),
    /// The failure of the stream.
    Failed(E),
}

impl<T, E> View for Drain<T, E> {
    type V = Progress<T, E>;

    open spec fn view(&self) -> Progress<T, E> {
        match self {
            Drain::Reading(records) => Progress::Reading(records@),
            Drain::Complete(records) => Progress::Complete(records@),
            Drain::Failed(e) => Progress::Failed(*e),
        }
    }
}

impl<T, E> Drain<T, E> {
    /// The reading of a fresh stream: nothing read yet.
    pub fn start() -> (drain: Drain<T, E>)
        ensures
            drain@ == Progress::<T, E>::Reading(Seq::empty()),
            drain@ == progress_after::<T, E>(Seq::empty()),
    {
        Drain::Reading(Vec::new())
    }

    /// Takes the next reply of the stream: a record is put behind those
    /// read before, the end of the stream completes the reading, a failure
    /// replaces it. A reading that has ended stays as it is.
    pub fn step(self, reply: Result<Option<T>, E>) -> (next: Drain<T, E>)
        ensures
            next@ == advance(self@, reply),
    {
        match self {
            Drain::Reading(mut records) => match reply {
                Ok(Some(record)) => {
                    records.push(record);
                    Drain::Reading(records)
                },
                Ok(None) => Drain::Complete(records),
                Err(e) => Drain::Failed(e),
            },
            Drain::Complete(records) => Drain::Complete(records),
            Drain::Failed(e) => Drain::Failed(e),
        }
    }
}

/// A stream that gives records and nothing else has been read as exactly
/// those records, in their order.
pub proof fn lemma_reading_keeps_order<T, E>(records: Seq<T>)
    ensures
        progress_after(records_as_replies::<T, E>(records)) == Progress::<T, E>::Reading(records),
    decreases records.len(),
{
    let replies = records_as_replies::<T, E>(records);
    if records.len() == 0 {
        assert(records =~= Seq::empty());
    } else {
        lemma_reading_keeps_order::<T, E>(records.drop_last());
        assert(replies.drop_last() =~= records_as_replies::<T, E>(records.drop_last()));
        assert(records.drop_last().push(records.last()) =~= records);
    }
}

/// A stream that gives records and then ends is drained to exactly those
/// records, in their order.
pub proof fn lemma_drained_in_order<T, E>(records: Seq<T>)
    ensures
        progress_after(records_as_replies::<T, E>(records).push(Ok(None))) == Progress::<
            T,
            E,
        >::Complete(records),
{
    let replies = records_as_replies::<T, E>(records).push(Ok(None));
    lemma_reading_keeps_order::<T, E>(records);
    assert(replies.drop_last() =~= records_as_replies::<T, E>(records));
}

/// A stream that gives records and then fails is drained to that failure
/// alone: none of the records read before it comes back.
pub proof fn lemma_failure_discards<T, E>(records: Seq<T>, e: E)
    ensures
        progress_after(records_as_replies::<T, E>(records).push(Err(e))) == Progress::<
            T,
            E,
        >::Failed(e),
{
    let replies = records_as_replies::<T, E>(records).push(Err(e));
    lemma_reading_keeps_order::<T, E>(records);
    assert(replies.drop_last() =~= records_as_replies::<T, E>(records));
}

} // verus!
