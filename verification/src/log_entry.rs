//! Entries of a replicated log, as they are read back.

use vstd::prelude::*;

verus! {

/// A position in the log.
#[derive(Debug, Clone, Copy, PartialEq, Eq, Structural)]
pub struct Lsn(pub u64);

/// A point in time, in nanoseconds since the Unix epoch.
#[derive(Debug, Clone, Copy, PartialEq, Eq, Structural)]
pub struct NanosSinceEpoch(pub u64);

/// A stretch of the log without readable records. It starts at the sequence number of its entry.
#[derive(Debug, Clone, Copy)]
pub struct Gap<S> {
    /// Last covered sequence number, inclusive.
    pub to: S,
}

/// A record as it is stored in the log.
#[derive(Debug)]
pub struct Record<B, K> {
    /// Timestamp attached to the record.
    pub created_at: NanosSinceEpoch,
    /// Payload of the record.
    pub body: B,
    /// Keys used for key-filter matching.
    pub keys: K,
}

impl<B, K> Record<B, K> {
    /// Takes the record apart into its timestamp, payload and keys.
    pub fn dissolve(self) -> (parts: (NanosSinceEpoch, B, K))
        ensures
            parts == (self.created_at, self.body, self.keys),
    {
        (self.created_at, self.body, self.keys)
    }
}

/// What the log holds at a sequence number.
#[derive(Debug)]
pub enum MaybeRecord<B, K, S> {
    /// The records were trimmed.
    TrimGap(Gap<S>),
    /// The records were filtered out by the reader.
    Filtered(Gap<S>),
    /// The records are known to be lost.
    DataLoss(Gap<S>),
    /// A record.
    Data(Record<B, K>),
}

/// An entry of the log: a sequence number and what the log holds there.
#[derive(Debug)]
pub struct LogEntry<B, K, S> {
    /// First covered sequence number.
    pub seq: S,
    /// The record, or the gap in its place.
    pub record: MaybeRecord<B, K, S>,
}

impl<B, K, S> LogEntry<B, K, S> {
    /// Takes the entry apart into its sequence number and what the log holds there.
    pub fn dissolve(self) -> (parts: (S, MaybeRecord<B, K, S>))
        ensures
            parts == (self.seq, self.record),
    {
        (self.seq, self.record)
    }
}

} // verus!
