//! Fixed-point levels.
//!
//! Every magnitude, peak and intensity is an unsigned count of steps, where
//! [`UNIT`] steps make up the level 1.0. Quotients round towards zero.

use vstd::prelude::*;

verus! {

/// The number of steps in the level 1.0.
pub const UNIT: u64 = 1_000_000_000_000;

/// The smallest positive level: one step.
pub const FLOOR: u64 = 1;

/// The level every peak tracker starts from (1e-10).
pub const EPSILON: u64 = 100;

/// `x` limited to the closed range from 0 to [`UNIT`].
pub open spec fn clamped(x: int) -> nat {
    if x < 0 {
        0
    } else if x > UNIT {
        UNIT as nat
    } else {
        x as nat
    }
}

/// The level `part / whole`, for a positive `whole`.
pub open spec fn share(part: nat, whole: nat) -> nat {
    part * UNIT as nat / whole
}

/// The level `x` multiplied by the signed factor `gain`, itself given in steps.
pub open spec fn amplified(x: nat, gain: int) -> int {
    x * gain / UNIT as int
}

/// A part that does not exceed its whole has a share of at most [`UNIT`],
/// a part of zero has the share zero, and the whole itself has the share
/// [`UNIT`].
pub proof fn lemma_share_bounds(part: nat, whole: nat)
    requires
        0 < whole,
        part <= whole,
    ensures
        share(part, whole) <= UNIT,
        part == 0 ==> share(part, whole) == 0,
        part == whole ==> share(part, whole) == UNIT,
{
    let u: int = UNIT as int;
    let p: int = part as int;
    let w: int = whole as int;
    assert(p * u / w <= u && (p == 0 ==> p * u / w == 0) && (p == w ==> p * u / w == u))
        by (nonlinear_arith)
        requires
            0 < w,
            0 <= p <= w,
            0 < u,
    ;
}

/// Limits a signed level to the range from 0 to [`UNIT`].
pub fn clamp(x: i128) -> (y: u64)
    ensures
        y == clamped(x as int),
        y <= UNIT,
{
    if x < 0 {
        0
    } else if x > UNIT as i128 {
        UNIT
    } else {
        x as u64
    }
}

/// Computes the share of `part` in `whole`.
pub fn divide(part: u64, whole: u64) -> (q: u64)
    requires
        0 < whole,
        part <= whole,
    ensures
        q == share(part as nat, whole as nat),
        q <= UNIT,
    no_unwind
{
    proof {
        lemma_share_bounds(part as nat, whole as nat);
        assert(part as int * UNIT as int <= u64::MAX as int * UNIT as int) by (nonlinear_arith)
            requires
                0 <= part as int <= u64::MAX as int,
                0 < UNIT as int,
        ;
    }
    let scaled: u128 = part as u128 * UNIT as u128;
    let q: u128 = scaled / whole as u128;
    q as u64
}

/// Multiplies the level `x` by `gain` and clamps the product: the clamp comes
/// last, so a gain above one may saturate and a negative gain gives zero.
pub fn amplify(x: u64, gain: i64) -> (y: u64)
    ensures
        y == clamped(amplified(x as nat, gain as int)),
        y <= UNIT,
    no_unwind
{
    if gain <= 0 {
        proof {
            let xi: int = x as int;
            let g: int = gain as int;
            let u: int = UNIT as int;
            assert(xi * g / u <= 0) by (nonlinear_arith)
                requires
                    0 <= xi,
                    g <= 0,
                    0 < u,
            ;
        }
        0
    } else {
        proof {
            let xi: int = x as int;
            let g: int = gain as int;
            let u: int = UNIT as int;
            assert(0 <= xi * g <= u64::MAX as int * i64::MAX as int && 0 <= xi * g / u)
                by (nonlinear_arith)
                requires
                    0 <= xi <= u64::MAX as int,
                    0 < g <= i64::MAX as int,
                    0 < u,
            ;
        }
        let product: u128 = x as u128 * gain as u128;
        let q: u128 = product / UNIT as u128;
        if q > UNIT as u128 {
            UNIT
        } else {
            q as u64
        }
    }
}

} // verus!
