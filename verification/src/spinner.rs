//! The circular progress indicator that turns while a setup command runs:
//! it steps through 0%, 5%, ..., 100% and starts over.
use vstd::prelude::*;

verus! {

/// Number of positions of the spinner: 0%, 5%, ..., 100%.
pub const SPINNER_POSITIONS: usize = 21;

/// The percentage shown at a position.
pub open spec fn position_percent(index: int) -> int {
    5 * index
}

/// The position that follows `index`.
pub open spec fn next_position(index: int) -> int {
    (index + 1) % (SPINNER_POSITIONS as int)
}

/// The position reached from `index` after `n` steps.
pub open spec fn position_after(index: int, n: nat) -> int
    decreases n,
{
    if n == 0 {
        index
    } else {
        next_position(position_after(index, (n - 1) as nat))
    }
}

/// A spinner at one of its positions.
#[derive(Clone, Copy, PartialEq, Eq, Debug, Structural)]
pub struct Spinner {
    pub index: usize,
}

impl Spinner {
    /// The position is one of the spinner's positions.
    pub open spec fn wf(self) -> bool {
        self.index < SPINNER_POSITIONS
    }

    /// The spinner after one step.
    pub open spec fn stepped(self) -> Spinner {
        Spinner { index: next_position(self.index as int) as usize }
    }

    /// A spinner at 0%.
    pub fn new() -> (s: Spinner)
        ensures
            s.wf(),
            s.index == 0,
    {
        Spinner { index: 0 }
    }

    /// The percentage that the spinner shows.
    pub fn percent(&self) -> (p: u32)
        requires
            self.wf(),
        ensures
            p == position_percent(self.index as int),
            p <= 100,
            p % 5 == 0,
    {
        let i = self.index as u32;
        5 * i
    }

    /// Moves the spinner one position on and returns the percentage it now
    /// shows; after 100% it shows 0% again.
    pub fn advance(&mut self) -> (p: u32)
        requires
            old(self).wf(),
        ensures
            *final(self) == old(self).stepped(),
            final(self).wf(),
            p == position_percent(final(self).index as int),
    {
        if self.index + 1 == SPINNER_POSITIONS {
            self.index = 0;
        } else {
            self.index = self.index + 1;
        }
        self.percent()
    }
}

/// From any position, the spinner comes back to it after exactly as many
/// steps as it has positions, and not before.
pub proof fn lemma_spinner_period(index: int, n: nat)
    requires
        0 <= index < SPINNER_POSITIONS,
    ensures
        position_after(index, n) == (index + n) % (SPINNER_POSITIONS as int),
        position_after(index, n) == index <==> n % (SPINNER_POSITIONS as nat) == 0,
    decreases n,
{
    if n > 0 {
        lemma_spinner_period(index, (n - 1) as nat);
        let k = SPINNER_POSITIONS as int;
        assert(((index + n - 1) % k + 1) % k == (index + n) % k) by (nonlinear_arith)
            requires
                k == 21,
                0 <= index < k,
                n >= 1,
        ;
    }
    let k = SPINNER_POSITIONS as int;
    assert((index + n) % k == index <==> (n as int) % k == 0) by (nonlinear_arith)
        requires
            k == 21,
            0 <= index < k,
            n >= 0,
    ;
}

} // verus!
