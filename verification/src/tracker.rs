//! Decaying peak trackers.
//!
//! A tracker is a running maximum that relaxes geometrically: an observation
//! above it lifts it to that observation, and once per block it is multiplied
//! by a factor below one. It never reaches zero.

use vstd::prelude::*;
use crate::level::{divide, share, EPSILON, FLOOR, UNIT};

verus! {

/// The denominator of a tracker's decay factor.
pub const RETAIN_SCALE: u64 = 10_000;

/// What a per-band tracker keeps of its value per block: 0.9999.
pub const BAND_RETAIN: u64 = 9_999;

/// What the global tracker keeps of its value per block: 0.999.
pub const GLOBAL_RETAIN: u64 = 9_990;

/// The peak after the observation `seen`: the larger of the two.
pub open spec fn raised(peak: nat, seen: nat) -> nat {
    if seen > peak {
        seen
    } else {
        peak
    }
}

/// The peak after one decay step that keeps `retain` parts in
/// [`RETAIN_SCALE`], held at [`FLOOR`] from below.
pub open spec fn decayed(peak: nat, retain: nat) -> nat {
    let next = peak * retain / RETAIN_SCALE as nat;
    if next < FLOOR {
        FLOOR as nat
    } else {
        next
    }
}

/// An observation never lowers a peak: the raised peak is the observation
/// where that is larger, and the old peak otherwise.
pub proof fn lemma_raised_never_lowers(peak: nat, seen: nat)
    ensures
        raised(peak, seen) >= peak,
        raised(peak, seen) >= seen,
        seen > peak ==> raised(peak, seen) == seen,
        seen <= peak ==> raised(peak, seen) == peak,
{
}

/// A decay step with a factor below one never raises a positive peak, never
/// takes it below [`FLOOR`], and strictly lowers every peak above [`FLOOR`].
pub proof fn lemma_decayed_relaxes(peak: nat, retain: nat)
    requires
        peak >= FLOOR,
        0 < retain < RETAIN_SCALE,
    ensures
        FLOOR <= decayed(peak, retain) <= peak,
        peak > FLOOR ==> decayed(peak, retain) < peak,
{
    let p: int = peak as int;
    let r: int = retain as int;
    let s: int = RETAIN_SCALE as int;
    assert(0 <= p * r / s < p) by (nonlinear_arith)
        requires
            1 <= p,
            0 < r < s,
    ;
}

/// A decaying running maximum.
pub struct PeakTracker {
    value: u64,
    retain: u64,
}

impl PeakTracker {
    #[verifier::type_invariant]
    spec fn well_formed(self) -> bool {
        &&& self.value >= FLOOR
        &&& 0 < self.retain < RETAIN_SCALE
    }

    /// The tracked peak.
    pub closed spec fn level(self) -> nat {
        self.value as nat
    }

    /// The parts in [`RETAIN_SCALE`] that one decay step keeps.
    pub closed spec fn retain(self) -> nat {
        self.retain as nat
    }

    /// A tracker for one band: it starts at [`EPSILON`] and keeps
    /// [`BAND_RETAIN`] parts per block.
    pub fn band() -> (t: Self)
        ensures
            t.level() == EPSILON,
            t.retain() == BAND_RETAIN,
    {
        PeakTracker { value: EPSILON, retain: BAND_RETAIN }
    }

    /// The tracker shared by all bands: it starts at [`EPSILON`] and keeps
    /// [`GLOBAL_RETAIN`] parts per block.
    pub fn global() -> (t: Self)
        ensures
            t.level() == EPSILON,
            t.retain() == GLOBAL_RETAIN,
    {
        PeakTracker { value: EPSILON, retain: GLOBAL_RETAIN }
    }

    /// The tracked peak, which is never zero.
    pub fn value(&self) -> (v: u64)
        ensures
            v == self.level(),
            v >= FLOOR,
        no_unwind
    {
        proof {
            use_type_invariant(self);
        }
        self.value
    }

    /// Takes in one observation: the peak jumps up to it if it is larger.
    pub fn observe(&mut self, seen: u64)
        ensures
            final(self).level() == raised(old(self).level(), seen as nat),
            final(self).level() >= FLOOR,
            final(self).retain() == old(self).retain(),
        no_unwind
    {
        proof {
            use_type_invariant(&*self);
        }
        if seen > self.value {
            self.value = seen;
        }
    }

    /// The share of `seen` in the tracked peak, for an observation that the
    /// tracker has already taken in.
    pub fn normalize(&self, seen: u64) -> (n: u64)
        requires
            seen <= self.level(),
        ensures
            n == share(seen as nat, self.level()),
            n <= UNIT,
        no_unwind
    {
        proof {
            use_type_invariant(self);
        }
        divide(seen, self.value)
    }

    /// Takes in one observation and returns its share in the peak after it.
    pub fn track(&mut self, seen: u64) -> (n: u64)
        ensures
            final(self).level() == raised(old(self).level(), seen as nat),
            final(self).level() >= FLOOR,
            final(self).retain() == old(self).retain(),
            n == share(seen as nat, final(self).level()),
            n <= UNIT,
        no_unwind
    {
        self.observe(seen);
        self.normalize(seen)
    }

    /// One decay step, taken once per block.
    pub fn decay(&mut self)
        ensures
            final(self).level() == decayed(old(self).level(), old(self).retain()),
            FLOOR <= final(self).level() <= old(self).level(),
            final(self).retain() == old(self).retain(),
        no_unwind
    {
        proof {
            use_type_invariant(&*self);
            lemma_decayed_relaxes(self.value as nat, self.retain as nat);
            assert(self.value as int * self.retain as int <= u64::MAX as int * RETAIN_SCALE as int)
                by (nonlinear_arith)
                requires
                    0 <= self.value as int <= u64::MAX as int,
                    0 <= self.retain as int <= RETAIN_SCALE as int,
            ;
        }
        let product: u128 = self.value as u128 * self.retain as u128;
        let next: u128 = product / RETAIN_SCALE as u128;
        if next < FLOOR as u128 {
            self.value = FLOOR;
        } else {
            self.value = next as u64;
        }
    }
}

} // verus!
