//! Signals that count once: the shutdown request and the fatal error of a
//! Kafka client.

use vstd::prelude::*;

verus! {

/// A signal that fires at most once. Whatever reports it again changes
/// nothing.
#[derive(Clone, Copy, Debug, PartialEq, Eq, Structural)]
pub struct Latch {
    fired: bool,
}

impl Latch {
    /// Whether the signal has fired.
    pub closed spec fn spec_fired(&self) -> bool {
        self.fired
    }

    /// A signal that has not fired.
    pub fn new() -> (latch: Latch)
        ensures
            !latch.spec_fired(),
    {
        Latch { fired: false }
    }

    /// Whether the signal has fired.
    #[verifier::when_used_as_spec(spec_fired)]
    pub fn fired(&self) -> (fired: bool)
        ensures
            fired == self.spec_fired(),
    {
        self.fired
    }

    /// Reports the signal. Returns whether this report is the one on which
    /// it fires: `true` for the first report and `false` for every later
    /// one.
    pub fn fire(&mut self) -> (first: bool)
        ensures
            first == !old(self).spec_fired(),
            final(self).spec_fired(),
    {
        let first = !self.fired;
        self.fired = true;
        first
    }
}

} // verus!
