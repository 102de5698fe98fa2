use vstd::prelude::*;

verus! {

/// The generation a unit of work was started under.
#[derive(Debug, Clone, Copy, PartialEq, Eq, Structural)]
pub struct Generation {
    pub value: u64,
}

/// The live generation of one orchestrator. Every new request, and every
/// cancellation, replaces it; work started under an older one is stale.
#[derive(Debug)]
pub struct GenerationCounter {
    live: u64,
}

impl GenerationCounter {
    pub closed spec fn live(&self) -> u64 {
        self.live
    }

    pub fn new() -> (r: GenerationCounter)
        ensures
            r.live() == 0,
    {
        GenerationCounter { live: 0 }
    }

    /// The generation that is live now.
    pub fn current(&self) -> (r: Generation)
        ensures
            r.value == self.live(),
    {
        Generation { value: self.live }
    }

    /// Replaces the live generation by a fresh one, which no earlier call
    /// has handed out, and returns it.
    pub fn new_generation(&mut self) -> (r: Generation)
        requires
            old(self).live() < u64::MAX,
        ensures
            final(self).live() == old(self).live() + 1,
            r.value == final(self).live(),
    {
        self.live = self.live + 1;
        Generation { value: self.live }
    }

    /// Whether work started under `g` may still commit its results.
    pub fn is_current(&self, g: Generation) -> (r: bool)
        ensures
            r == (g.value == self.live()),
    {
        g.value == self.live
    }
}

} // verus!
