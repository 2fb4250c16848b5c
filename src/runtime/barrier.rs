//! A reusable phase barrier as a generation-counting state machine.
use vstd::prelude::*;

verus! {

/// Raised when a barrier is built for zero participants.
#[derive(Clone, Copy, Debug, PartialEq, Eq, Structural)]
pub enum BarrierError {
    InvalidParticipantCount,
}

/// What an arrival at the barrier means for the participant that arrives.
#[derive(Clone, Copy, Debug, PartialEq, Eq, Structural)]
pub enum Arrival {
    /// Not everybody is here: block until the barrier leaves `generation`.
    Wait { generation: u64 },
    /// This was the last participant of `generation`: everybody is released.
    Release { generation: u64 },
}

/// The generation a barrier moves to after `g`.
pub open spec fn next_generation(g: u64) -> u64 {
    if g == u64::MAX {
        0
    } else {
        (g + 1) as u64
    }
}

/// The state `(generation, arrived)` after one arrival at a barrier for `n`
/// participants, and whether that arrival released the generation.
pub open spec fn arrive_step(n: u64, g: u64, arrived: u64) -> (u64, u64, bool) {
    if arrived + 1 >= n {
        (next_generation(g), 0, true)
    } else {
        (g, (arrived + 1) as u64, false)
    }
}

/// The state after `k` arrivals, starting from `(g, arrived)`.
pub open spec fn arrive_times(n: u64, g: u64, arrived: u64, k: nat) -> (u64, u64)
    decreases k,
{
    if k == 0 {
        (g, arrived)
    } else {
        let prev = arrive_times(n, g, arrived, (k - 1) as nat);
        let s = arrive_step(n, prev.0, prev.1);
        (s.0, s.1)
    }
}

/// A reusable rendezvous for a fixed number of participants, kept as the
/// state machine `Waiting(generation, arrived)`.
pub struct PhaseBarrier {
    participants: u64,
    generation: u64,
    arrived: u64,
}

impl PhaseBarrier {
    pub closed spec fn participants(&self) -> u64 {
        self.participants
    }

    pub closed spec fn generation(&self) -> u64 {
        self.generation
    }

    pub closed spec fn arrived(&self) -> u64 {
        self.arrived
    }

    /// There is at least one participant, and fewer than all have arrived.
    pub closed spec fn wf(&self) -> bool {
        0 < self.participants && self.arrived < self.participants
    }

    /// A barrier for `n` participants at generation zero; zero participants
    /// are refused.
    pub fn new(n: u64) -> (r: Result<PhaseBarrier, BarrierError>)
        ensures
            r is Err <==> n == 0,
            r matches Err(e) ==> e == BarrierError::InvalidParticipantCount,
            r matches Ok(b) ==> b.wf() && b.participants() == n && b.generation() == 0
                && b.arrived() == 0,
    {
        if n == 0 {
            Err(BarrierError::InvalidParticipantCount)
        } else {
            Ok(PhaseBarrier { participants: n, generation: 0, arrived: 0 })
        }
    }

    /// The number of participants.
    pub fn participant_count(&self) -> (r: u64)
        ensures
            r == self.participants(),
    {
        self.participants
    }

    /// The current generation.
    pub fn current_generation(&self) -> (r: u64)
        ensures
            r == self.generation(),
    {
        self.generation
    }

    /// How many participants of the current generation have arrived.
    pub fn arrived_count(&self) -> (r: u64)
        ensures
            r == self.arrived(),
    {
        self.arrived
    }

    /// One participant arrives. The last one of a generation releases it and
    /// the barrier moves on to the next generation with nobody arrived;
    /// anyone else waits for the current generation to end.
    pub fn arrive(&mut self) -> (r: Arrival)
        requires
            old(self).wf(),
        ensures
            final(self).wf(),
            final(self).participants() == old(self).participants(),
            ({
                let s = arrive_step(old(self).participants(), old(self).generation(), old(self).arrived());
                &&& final(self).generation() == s.0
                &&& final(self).arrived() == s.1
                &&& r == (if s.2 {
                    Arrival::Release { generation: old(self).generation() }
                } else {
                    Arrival::Wait { generation: old(self).generation() }
                })
            }),
    {
        let g = self.generation;
        if self.arrived + 1 >= self.participants {
            self.generation = self.generation.wrapping_add(1);
            self.arrived = 0;
            Arrival::Release { generation: g }
        } else {
            self.arrived = self.arrived + 1;
            Arrival::Wait { generation: g }
        }
    }

    /// Whether a participant that waits for generation `g` may go on: the
    /// barrier has left that generation.
    pub fn has_released(&self, g: u64) -> (r: bool)
        ensures
            r == (self.generation() != g),
    {
        self.generation != g
    }

    /// A participant of generation `g` that gave up waiting takes its
    /// arrival back. This happens only while `g` is still current; once the
    /// generation was released the arrival stands and `false` is returned.
    pub fn withdraw(&mut self, g: u64) -> (r: bool)
        requires
            old(self).wf(),
        ensures
            final(self).wf(),
            r == (old(self).generation() == g && old(self).arrived() > 0),
            final(self).participants() == old(self).participants(),
            final(self).generation() == old(self).generation(),
            final(self).arrived() == (if r { old(self).arrived() - 1 } else { old(self).arrived() as int }),
    {
        if self.generation == g && self.arrived > 0 {
            self.arrived = self.arrived - 1;
            true
        } else {
            false
        }
    }
}

/// A generation is released together: starting from a generation `g` with
/// nobody arrived, the first `k < n` arrivals leave the barrier in `g` with
/// `k` arrived (nobody is released), and the `n`-th arrival moves it to the
/// next generation with nobody arrived, ready for the next phase.
pub proof fn lemma_release_together(n: u64, g: u64, k: nat)
    requires
        0 < n,
        k <= n,
    ensures
        k < n ==> arrive_times(n, g, 0, k) == (g, k as u64),
        k == n ==> arrive_times(n, g, 0, k) == (next_generation(g), 0u64),
    decreases k,
{
    if k > 0 {
        lemma_release_together(n, g, (k - 1) as nat);
    }
}

/// Reuse: `2 * n` arrivals from a fresh generation `g` complete two whole
/// phases, generation `g` and the one after it.
pub proof fn lemma_two_phases(n: u64, g: u64)
    requires
        0 < n,
    ensures
        arrive_times(n, g, 0, (2 * n) as nat) == (next_generation(next_generation(g)), 0u64),
{
    lemma_release_together(n, g, n as nat);
    lemma_compose(n, g, 0, n as nat, n as nat);
    lemma_release_together(n, next_generation(g), n as nat);
}

proof fn lemma_compose(n: u64, g: u64, a: u64, j: nat, k: nat)
    ensures
        arrive_times(n, g, a, j + k) == ({
            let m = arrive_times(n, g, a, j);
            arrive_times(n, m.0, m.1, k)
        }),
    decreases k,
{
    if k > 0 {
        lemma_compose(n, g, a, j, (k - 1) as nat);
        assert((j + k - 1) as nat == j + (k - 1) as nat);
    }
}

} // verus!
