//! The playback rate and the time that it allows for one frame.

use vstd::prelude::*;
use crate::aspect::{lemma_round_div_nearest, round_div};

verus! {

/// A positive frame rate, `numer / denom` frames in a second.
#[derive(Debug, Clone, Copy, PartialEq, Eq)]
pub struct Fps {
    numer: u32,
    denom: u32,
}

impl View for Fps {
    type V = (nat, nat);

    /// The numerator and the denominator, both at least one.
    closed spec fn view(&self) -> (nat, nat) {
        (self.numer as nat, self.denom as nat)
    }
}

/// The time that one frame may take at `numer / denom` frames in a second:
/// a million microseconds divided by the rate, rounded to the nearest whole.
pub open spec fn budget_micros(numer: nat, denom: nat) -> int {
    round_div(1_000_000 * (denom as int), numer as int)
}

impl Fps {
    #[verifier::type_invariant]
    spec fn inv(self) -> bool {
        self.numer >= 1 && self.denom >= 1
    }

    /// The rate `numer / denom`. There is none unless both are positive.
    pub fn new(numer: u32, denom: u32) -> (fps: Option<Fps>)
        ensures
            fps is Some <==> numer >= 1 && denom >= 1,
            fps matches Some(f) ==> f@ == (numer as nat, denom as nat),
    {
        if numer >= 1 && denom >= 1 {
            Some(Fps { numer, denom })
        } else {
            None
        }
    }

    /// Thirty frames in a second.
    pub fn thirty() -> (fps: Fps)
        ensures
            fps@ == (30nat, 1nat),
    {
        Fps { numer: 30, denom: 1 }
    }

    /// The numerator of the rate.
    pub fn numer(&self) -> (n: u32)
        ensures
            n == self@.0,
            n >= 1,
    {
        proof {
            use_type_invariant(self);
        }
        self.numer
    }

    /// The denominator of the rate.
    pub fn denom(&self) -> (d: u32)
        ensures
            d == self@.1,
            d >= 1,
    {
        proof {
            use_type_invariant(self);
        }
        self.denom
    }

    /// The microseconds that one frame may take.
    pub fn frame_micros(&self) -> (micros: u64)
        ensures
            micros == budget_micros(self@.0, self@.1),
            self@.0 >= 1,
            self@.1 >= 1,
    {
        proof {
            use_type_invariant(self);
            lemma_round_div_nearest(1_000_000 * self.denom, self.numer as int);
        }
        let scaled = 1_000_000 * (self.denom as u64);
        (2 * scaled + self.numer as u64) / (2 * (self.numer as u64))
    }
}

} // verus!
