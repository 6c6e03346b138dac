//! The counters of a filtering run.

use vstd::prelude::*;

verus! {

/// The model of the counters: how many records were seen and how many of them
/// were written.
pub struct Tally {
    pub processed: nat,
    pub written: nat,
}

/// The two counters of a filtering run. `written` never exceeds `processed`.
///
/// Updates take `&mut self`: whoever shares the counters between workers has
/// to hand them out one worker at a time, so no update is lost.
#[derive(Debug)]
pub struct Counters {
    processed: u64,
    written: u64,
}

impl View for Counters {
    type V = Tally;

    closed spec fn view(&self) -> Tally {
        Tally { processed: self.processed as nat, written: self.written as nat }
    }
}

impl Counters {
    #[verifier::type_invariant]
    spec fn ordered(self) -> bool {
        self.written <= self.processed
    }

    /// Counters at zero.
    pub fn new() -> (counters: Counters)
        ensures
            counters@ == (Tally { processed: 0, written: 0 }),
    {
        Counters { processed: 0, written: 0 }
    }

    /// Counts one more record as seen. After it, fewer records are written
    /// than seen.
    pub fn increment_processed(&mut self)
        requires
            old(self)@.processed < u64::MAX,
        ensures
            final(self)@ == (Tally { processed: old(self)@.processed + 1, ..old(self)@ }),
            final(self)@.written < final(self)@.processed,
    {
        proof {
            use_type_invariant(&*self);
        }
        self.processed = self.processed + 1;
    }

    /// Counts one more record as written. The record must have been counted
    /// as seen before.
    pub fn increment_written(&mut self)
        requires
            old(self)@.written < old(self)@.processed,
        ensures
            final(self)@ == (Tally { written: old(self)@.written + 1, ..old(self)@ }),
    {
        self.written = self.written + 1;
    }

    /// The number of records seen.
    pub fn processed(&self) -> (n: u64)
        ensures
            n == self@.processed,
            self@.written <= n,
    {
        proof {
            use_type_invariant(self);
        }
        self.processed
    }

    /// The number of records written.
    pub fn written(&self) -> (n: u64)
        ensures
            n == self@.written,
            n <= self@.processed,
    {
        proof {
            use_type_invariant(self);
        }
        self.written
    }
}

} // verus!
