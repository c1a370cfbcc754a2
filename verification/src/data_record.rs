//! Data records of the log, with the metadata needed for ordering and key filtering.

use vstd::prelude::*;

use crate::log_entry::{LogEntry, Lsn, MaybeRecord, NanosSinceEpoch};

verus! {

/// Error returned when a [`LogEntry`] is not a data record.
#[derive(Debug)]
pub enum DataRecordError<S> {
    /// The entry was filtered out.
    FilteredGap {
        /// First covered sequence number.
        from: S,
        /// Last covered sequence number, inclusive.
        to: S,
    },
    /// The entry covers data that is known to be lost.
    DataLossGap {
        /// First covered sequence number.
        from: S,
        /// Last covered sequence number, inclusive.
        to: S,
    },
    /// The entry was trimmed.
    TrimGap {
        /// First covered sequence number.
        from: S,
        /// Last covered sequence number, inclusive.
        to: S,
    },
}

/// Something that a query for keys of type `Q` can select.
pub trait MatchKeyQuery<Q> {
    /// Whether the query selects this value.
    fn matches_key_query(&self, query: &Q) -> (matches: bool);
}

/// A value that knows roughly how much memory it occupies.
pub trait EstimatedMemorySize {
    /// The estimated memory footprint in bytes.
    fn estimated_memory_size(&self) -> (bytes: usize);
}

/// A log data record with the metadata needed for ordering and key filtering.
#[derive(Debug, Clone)]
pub struct DataRecord<M, K, S = Lsn> {
    seq: S,
    created_at: NanosSinceEpoch,
    keys: K,
    inner: M,
}

impl<M, K, S> DataRecord<M, K, S> {
    /// The sequence number of the record.
    pub closed spec fn spec_seq(self) -> S {
        self.seq
    }

    /// The timestamp of the record.
    pub closed spec fn spec_created_at(self) -> NanosSinceEpoch {
        self.created_at
    }

    /// The keys of the record.
    pub closed spec fn spec_keys(self) -> K {
        self.keys
    }

    /// The payload of the record.
    pub closed spec fn spec_inner(self) -> M {
        self.inner
    }

    /// Two records agree in everything but their payloads.
    pub open spec fn same_metadata<B>(self, other: DataRecord<B, K, S>) -> bool {
        &&& self.spec_seq() == other.spec_seq()
        &&& self.spec_created_at() == other.spec_created_at()
        &&& self.spec_keys() == other.spec_keys()
    }

    /// The record with the given parts.
    pub closed spec fn from_parts(
        created_at: NanosSinceEpoch,
        keys: K,
        seq: S,
        inner: M,
    ) -> Self {
        DataRecord { seq, created_at, keys, inner }
    }

    /// Records that agree in everything but their payloads have the same sequence number, timestamp
    /// and keys, and if their payloads are the same as well, so are they.
    pub proof fn law_metadata_is_all_but_the_payload(self, other: Self)
        ensures
            self.same_metadata(other) <==> {
                &&& self.spec_seq() == other.spec_seq()
                &&& self.spec_created_at() == other.spec_created_at()
                &&& self.spec_keys() == other.spec_keys()
            },
            self.same_metadata(other) && self.spec_inner() == other.spec_inner() <==> self
                == other,
    {
    }

    /// The parts of a record are those that it is made from, and they are all that it is.
    pub proof fn law_a_record_is_its_parts(self, created_at: NanosSinceEpoch, keys: K, seq: S, inner: M)
        ensures
            Self::from_parts(created_at, keys, seq, inner) == self <==> {
                &&& self.spec_created_at() == created_at
                &&& self.spec_keys() == keys
                &&& self.spec_seq() == seq
                &&& self.spec_inner() == inner
            },
    {
    }
}

impl<M, K, S: Copy> TryFrom<LogEntry<M, K, S>> for DataRecord<M, K, S> {
    type Error = DataRecordError<S>;

    fn try_from(value: LogEntry<M, K, S>) -> (converted: Result<Self, DataRecordError<S>>)
        ensures
            match value.record {
                MaybeRecord::TrimGap(gap) => converted matches Err(error) && error == (
                DataRecordError::TrimGap { from: value.seq, to: gap.to }),
                MaybeRecord::Filtered(gap) => converted matches Err(error) && error == (
                DataRecordError::FilteredGap { from: value.seq, to: gap.to }),
                MaybeRecord::DataLoss(gap) => converted matches Err(error) && error == (
                DataRecordError::DataLossGap { from: value.seq, to: gap.to }),
                MaybeRecord::Data(record) => converted matches Ok(data) && {
                    &&& data.spec_seq() == value.seq
                    &&& data.spec_created_at() == record.created_at
                    &&& data.spec_keys() == record.keys
                    &&& data.spec_inner() == record.body
                },
            },
    {
        let (seq, record) = value.dissolve();
        match record {
            MaybeRecord::TrimGap(gap) => Err(DataRecordError::TrimGap { from: seq, to: gap.to }),
            MaybeRecord::Filtered(gap) => Err(
                DataRecordError::FilteredGap { from: seq, to: gap.to },
            ),
            MaybeRecord::DataLoss(gap) => Err(
                DataRecordError::DataLossGap { from: seq, to: gap.to },
            ),
            MaybeRecord::Data(record) => {
                let (created_at, inner, keys) = record.dissolve();
                Ok(DataRecord { seq, created_at, keys, inner })
            },
        }
    }
}

impl<M, K, S: Copy> vstd::std_specs::convert::TryFromSpecImpl<LogEntry<M, K, S>>
    for DataRecord<M, K, S> {
    open spec fn obeys_try_from_spec() -> bool {
        true
    }

    open spec fn try_from_spec(value: LogEntry<M, K, S>) -> Result<Self, DataRecordError<S>> {
        match value.record {
            MaybeRecord::TrimGap(gap) => Err(
                DataRecordError::TrimGap { from: value.seq, to: gap.to },
            ),
            MaybeRecord::Filtered(gap) => Err(
                DataRecordError::FilteredGap { from: value.seq, to: gap.to },
            ),
            MaybeRecord::DataLoss(gap) => Err(
                DataRecordError::DataLossGap { from: value.seq, to: gap.to },
            ),
            MaybeRecord::Data(record) => Ok(
                DataRecord::from_parts(record.created_at, record.keys, value.seq, record.body),
            ),
        }
    }
}

impl<M, K, S: Copy> DataRecord<M, K, S> {
    /// Builds a data record from its parts.
    pub fn new(created_at: NanosSinceEpoch, keys: K, seq: S, inner: M) -> (record: Self)
        ensures
            record.spec_created_at() == created_at,
            record.spec_keys() == keys,
            record.spec_seq() == seq,
            record.spec_inner() == inner,
    {
        DataRecord { seq, created_at, keys, inner }
    }

    /// Timestamp attached to the record.
    pub fn created_at(&self) -> (created_at: NanosSinceEpoch)
        ensures
            created_at == self.spec_created_at(),
    {
        self.created_at
    }

    /// Keys used for key-filter matching.
    pub fn keys(&self) -> (keys: &K)
        ensures
            *keys == self.spec_keys(),
    {
        &self.keys
    }

    /// Sequence number of the record.
    pub fn seq(&self) -> (seq: S)
        ensures
            seq == self.spec_seq(),
    {
        self.seq
    }

    /// Payload of the record.
    pub fn inner(&self) -> (inner: &M)
        ensures
            *inner == self.spec_inner(),
    {
        &self.inner
    }

    /// Consumes the record and returns its payload.
    pub fn into_inner(self) -> (inner: M)
        ensures
            inner == self.spec_inner(),
    {
        self.inner
    }

    /// Transforms the payload while preserving sequence number, timestamp, and keys.
    pub fn map<B>(self, f: impl FnOnce(M) -> B) -> (mapped: DataRecord<B, K, S>)
        requires
            call_requires(f, (self.spec_inner(),)),
        ensures
            self.same_metadata(mapped),
            call_ensures(f, (self.spec_inner(),), mapped.spec_inner()),
    {
        DataRecord {
            seq: self.seq,
            created_at: self.created_at,
            keys: self.keys,
            inner: f(self.inner),
        }
    }

    /// Fallibly transforms the payload while preserving sequence number, timestamp, and keys.
    pub fn try_map<B, E>(self, f: impl FnOnce(M) -> Result<B, E>) -> (mapped: Result<
        DataRecord<B, K, S>,
        E,
    >)
        requires
            call_requires(f, (self.spec_inner(),)),
        ensures
            match mapped {
                Ok(record) => {
                    &&& self.same_metadata(record)
                    &&& call_ensures(f, (self.spec_inner(),), Ok(record.spec_inner()))
                },
                Err(error) => call_ensures(f, (self.spec_inner(),), Err(error)),
            },
    {
        match f(self.inner) {
            Ok(body) => Ok(
                DataRecord {
                    seq: self.seq,
                    created_at: self.created_at,
                    keys: self.keys,
                    inner: body,
                },
            ),
            Err(error) => Err(error),
        }
    }
}

impl<M, K, S> AsRef<M> for DataRecord<M, K, S> {
    fn as_ref(&self) -> (inner: &M)
        ensures
            *inner == self.spec_inner(),
    {
        &self.inner
    }
}

impl<M, K, S> AsMut<M> for DataRecord<M, K, S> {
    fn as_mut(&mut self) -> (inner: &mut M)
        ensures
            *inner == old(self).spec_inner(),
            *final(inner) == final(self).spec_inner(),
            old(self).same_metadata(*final(self)),
    {
        &mut self.inner
    }
}

impl<M, K: MatchKeyQuery<Q>, S, Q> MatchKeyQuery<Q> for DataRecord<M, K, S> {
    fn matches_key_query(&self, query: &Q) -> (matches: bool)
        ensures
            call_ensures(
                <K as MatchKeyQuery<Q>>::matches_key_query,
                (&self.spec_keys(), query),
                matches,
            ),
    {
        self.keys.matches_key_query(query)
    }
}

impl<M: EstimatedMemorySize, K, S> EstimatedMemorySize for DataRecord<M, K, S> {
    fn estimated_memory_size(&self) -> (bytes: usize)
        ensures
            call_ensures(M::estimated_memory_size, (&self.spec_inner(),), bytes),
    {
        self.inner.estimated_memory_size()
    }
}

} // verus!
