//! The latched over-current safety relay of a three-phase power line. Once
//! any phase draws more than the trip threshold the relay trips, every phase
//! is cut, and the relay stays tripped until the breaker is reset.
use vstd::prelude::*;

verus! {

/// The state of an over-current safety relay.
pub struct SafetyRelay {
    tripped: bool,
}

impl SafetyRelay {
    pub closed spec fn view(&self) -> bool {
        self.tripped
    }

    /// A closed relay.
    pub fn new() -> (r: Self)
        ensures
            !r@,
    {
        SafetyRelay { tripped: false }
    }

    /// Whether the relay has tripped.
    pub fn is_tripped(&self) -> (r: bool)
        ensures
            r == self@,
    {
        self.tripped
    }

    /// Accounts for one sample of the phase currents, given whether any
    /// phase exceeded the trip threshold; returns whether the phases are cut
    /// for this sample. A tripped relay stays tripped.
    pub fn observe(&mut self, over_threshold: bool) -> (cut: bool)
        ensures
            final(self)@ == (old(self)@ || over_threshold),
            cut == final(self)@,
    {
        if !self.tripped && over_threshold {
            self.tripped = true;
        }
        self.tripped
    }

    /// Resets the breaker, closing the relay.
    pub fn reset(&mut self)
        ensures
            !final(self)@,
    {
        self.tripped = false;
    }
}

/// The relay latches: after any sequence of samples it is tripped exactly
/// when it was tripped before or some sample exceeded the threshold.
pub open spec fn relay_after(tripped: bool, over: Seq<bool>) -> bool
    decreases over.len(),
{
    if over.len() == 0 {
        tripped
    } else {
        relay_after(tripped, over.drop_last()) || over.last()
    }
}

/// Once tripped, the relay stays tripped whatever the later samples carry.
pub proof fn lemma_relay_latches(over: Seq<bool>)
    ensures
        relay_after(true, over),
        relay_after(false, over) <==> over.contains(true),
    decreases over.len(),
{
    if over.len() > 0 {
        lemma_relay_latches(over.drop_last());
        if over.drop_last().contains(true) {
            let j = choose|j: int| 0 <= j < over.drop_last().len() && over.drop_last()[j] == true;
            assert(over[j] == true);
        }
        if over.contains(true) && !over.last() {
            let j = choose|j: int| 0 <= j < over.len() && over[j] == true;
            assert(over.drop_last()[j] == true);
        }
        if over.last() {
            assert(over[over.len() - 1] == true);
        }
    }
}

} // verus!
