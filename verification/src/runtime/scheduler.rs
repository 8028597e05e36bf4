//! The counters that number batches, events and timestamps.

use vstd::prelude::*;

verus! {

/// Three counters that start at one.
#[derive(Debug, Clone, Copy)]
pub struct Scheduler {
    next_batch_id: u64,
    next_event_sequence: u64,
    next_timestamp_ms: u64,
}

impl Scheduler {
    /// The number that the next batch gets.
    pub closed spec fn batch(&self) -> u64 {
        self.next_batch_id
    }

    /// The sequence number that the next event gets.
    pub closed spec fn sequence(&self) -> u64 {
        self.next_event_sequence
    }

    /// The timestamp that the next event gets.
    pub closed spec fn timestamp(&self) -> u64 {
        self.next_timestamp_ms
    }

    /// The sequence number that the next event gets.
    pub fn upcoming_sequence(&self) -> (res: u64)
        ensures
            res == self.sequence(),
    {
        self.next_event_sequence
    }

    /// The number of the next batch.
    pub fn next_batch_id(&mut self) -> (res: u64)
        requires
            old(self).batch() < u64::MAX,
        ensures
            res == old(self).batch(),
            final(self).batch() == res + 1,
            final(self).sequence() == old(self).sequence(),
            final(self).timestamp() == old(self).timestamp(),
    {
        let id = self.next_batch_id;
        self.next_batch_id = id + 1;
        id
    }

    /// The sequence number of the next event.
    pub fn next_event_sequence(&mut self) -> (res: u64)
        requires
            old(self).sequence() < u64::MAX,
        ensures
            res == old(self).sequence(),
            final(self).sequence() == res + 1,
            final(self).batch() == old(self).batch(),
            final(self).timestamp() == old(self).timestamp(),
    {
        let sequence = self.next_event_sequence;
        self.next_event_sequence = sequence + 1;
        sequence
    }

    /// The timestamp of the next event.
    pub fn next_timestamp_ms(&mut self) -> (res: u64)
        requires
            old(self).timestamp() < u64::MAX,
        ensures
            res == old(self).timestamp(),
            final(self).timestamp() == res + 1,
            final(self).batch() == old(self).batch(),
            final(self).sequence() == old(self).sequence(),
    {
        let timestamp = self.next_timestamp_ms;
        self.next_timestamp_ms = timestamp + 1;
        timestamp
    }
}

impl Default for Scheduler {
    fn default() -> (res: Self)
        ensures
            res.batch() == 1,
            res.sequence() == 1,
            res.timestamp() == 1,
    {
        Scheduler { next_batch_id: 1, next_event_sequence: 1, next_timestamp_ms: 1 }
    }
}

} // verus!
