//! Peak-hold stabilization of the per-cycle marker counts. Within one
//! display session the state keeps the elementwise maximum of the counts seen
//! so far and reports only on a strict rise; an unusable frame or fewer than
//! two visible markers resets the session.

use vstd::prelude::*;

use crate::region::RegionOutcome;

verus! {

/// Fewest markers that count as a meaningful reading: the game never shows
/// fewer than two.
pub const MARKER_FLOOR: usize = 2;

/// The running elementwise maximum of the filtered counts of one session.
#[derive(Clone, Copy, Debug, PartialEq, Eq, Structural)]
pub struct StabilizerState {
    pub max_real: usize,
    pub max_empty: usize,
}

pub open spec fn spec_reset() -> StabilizerState {
    StabilizerState { max_real: 0, max_empty: 0 }
}

/// The state after one cycle: reset on an unusable frame or when fewer than
/// `MARKER_FLOOR` markers are visible, the elementwise maximum otherwise.
pub open spec fn spec_next(st: StabilizerState, outcome: RegionOutcome) -> StabilizerState {
    match outcome {
        RegionOutcome::NoDisplayRegion => spec_reset(),
        RegionOutcome::Counts { reals, empties } => {
            if reals + empties < MARKER_FLOOR {
                spec_reset()
            } else {
                StabilizerState {
                    max_real: if reals >= st.max_real {
                        reals
                    } else {
                        st.max_real
                    },
                    max_empty: if empties >= st.max_empty {
                        empties
                    } else {
                        st.max_empty
                    },
                }
            }
        },
    }
}

/// What one cycle reports: the updated maxima, exactly when at least one of
/// them strictly rose; never on a reset.
pub open spec fn spec_emit(st: StabilizerState, outcome: RegionOutcome) -> Option<(usize, usize)> {
    match outcome {
        RegionOutcome::NoDisplayRegion => None,
        RegionOutcome::Counts { reals, empties } => {
            if reals + empties < MARKER_FLOOR {
                None
            } else {
                let nxt = spec_next(st, outcome);
                if nxt.max_real > st.max_real || nxt.max_empty > st.max_empty {
                    Some((nxt.max_real, nxt.max_empty))
                } else {
                    None
                }
            }
        },
    }
}

impl StabilizerState {
    pub fn new() -> (s: Self)
        ensures
            s == spec_reset(),
    {
        StabilizerState { max_real: 0, max_empty: 0 }
    }

    pub fn reset(&mut self)
        ensures
            *final(self) == spec_reset(),
    {
        self.max_real = 0;
        self.max_empty = 0;
    }

    /// One transition of the session state, returning the pair to report if
    /// this cycle rose above the peak seen so far.
    pub fn step(&mut self, outcome: RegionOutcome) -> (emit: Option<(usize, usize)>)
        ensures
            *final(self) == spec_next(*old(self), outcome),
            emit == spec_emit(*old(self), outcome),
    {
        match outcome {
            RegionOutcome::NoDisplayRegion => {
                self.max_real = 0;
                self.max_empty = 0;
                None
            },
            RegionOutcome::Counts { reals, empties } => {
                if reals < MARKER_FLOOR && empties < MARKER_FLOOR && reals + empties
                    < MARKER_FLOOR {
                    self.max_real = 0;
                    self.max_empty = 0;
                    None
                } else {
                    let nr = if reals >= self.max_real {
                        reals
                    } else {
                        self.max_real
                    };
                    let ne = if empties >= self.max_empty {
                        empties
                    } else {
                        self.max_empty
                    };
                    let rose = nr > self.max_real || ne > self.max_empty;
                    self.max_real = nr;
                    self.max_empty = ne;
                    if rose {
                        Some((nr, ne))
                    } else {
                        None
                    }
                }
            },
        }
    }
}

} // verus!
