//! A lock-free counter and the arithmetic of its steps.
use std::sync::atomic::AtomicU64;
use std::sync::atomic::Ordering;
use vstd::prelude::*;

verus! {

/// The value that follows `v` on a 64-bit counter: overflow wraps to zero.
pub open spec fn successor(v: u64) -> u64 {
    if v == u64::MAX {
        0
    } else {
        (v + 1) as u64
    }
}

/// The value a counter holds after `n` increments starting from `v`.
pub open spec fn advance(v: u64, n: nat) -> u64
    decreases n,
{
    if n == 0 {
        v
    } else {
        successor(advance(v, (n - 1) as nat))
    }
}

/// No increment is lost: `n` increments from `v` add exactly `n` as long as
/// the sum fits in 64 bits, and one more from the largest value wraps to 0.
pub proof fn lemma_increments_add_up(v: u64, n: nat)
    requires
        v + n <= u64::MAX,
    ensures
        advance(v, n) == v + n,
        advance(u64::MAX, 1) == 0,
    decreases n,
{
    if n > 0 {
        lemma_increments_add_up(v, (n - 1) as nat);
    }
    assert(advance(u64::MAX, 0) == u64::MAX);
}

/// Computes `successor(v)`.
pub fn next_value(v: u64) -> (r: u64)
    ensures
        r == successor(v),
{
    v.wrapping_add(1)
}

/// What one compare-and-swap does to a cell that holds `current`.
#[derive(Clone, Copy, Debug, PartialEq, Eq, Structural)]
pub struct CasOutcome {
    /// Whether the new value was stored.
    pub success: bool,
    /// The value the cell held when the operation took effect.
    pub observed: u64,
    /// The value the cell holds afterwards.
    pub stored: u64,
}

/// The decision of a compare-and-swap: it succeeds exactly when the cell
/// holds `expected`, and it always reports the value it found.
pub fn cas_step(current: u64, expected: u64, new: u64) -> (r: CasOutcome)
    ensures
        r.success == (current == expected),
        r.observed == current,
        r.stored == (if current == expected { new } else { current }),
{
    if current == expected {
        CasOutcome { success: true, observed: current, stored: new }
    } else {
        CasOutcome { success: false, observed: current, stored: current }
    }
}

/// A lock-free 64-bit counter that can be shared between threads by
/// reference. Increments wrap on overflow.
pub struct AtomicCounter {
    cell: AtomicU64,
}

impl AtomicCounter {
    /// A counter that starts at `initial`.
    pub fn new(initial: u64) -> (r: AtomicCounter) {
        AtomicCounter { cell: AtomicU64::new(initial) }
    }

    /// Adds one atomically and returns the value it produced: the successor
    /// (`next_value`) of whatever the counter held at that instant, which
    /// other threads may change at any time.
    pub fn increment(&self) -> u64 {
        let previous = self.cell.fetch_add(1, Ordering::SeqCst);
        next_value(previous)
    }

    /// The current value.
    pub fn get(&self) -> u64 {
        self.cell.load(Ordering::SeqCst)
    }

    /// Stores `new` if the counter holds `expected`. Returns whether it did,
    /// and the value found; on success that value is `expected`.
    pub fn compare_and_swap(&self, expected: u64, new: u64) -> (r: (bool, u64))
        ensures
            r.0 ==> r.1 == expected,
    {
        match self.cell.compare_exchange(expected, new, Ordering::SeqCst, Ordering::SeqCst) {
            Ok(_) => (true, expected),
            Err(found) => (false, found),
        }
    }
}

} // verus!
