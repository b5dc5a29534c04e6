//! Bar rendering of a level, for debug output.

use vstd::prelude::*;
use vstd::string::StringExecFns;
use crate::level::UNIT;

verus! {

/// The glyph of a filled position.
pub const FILLED: char = '█';

/// The glyph of an empty position.
pub const EMPTY: char = '░';

/// Whether position `k` of a bar of `n` positions is filled for the level
/// `x`: it is where `x` reaches the fraction `k / (n - 1)` of [`UNIT`]. A bar
/// of one position has no such fraction, and its position is empty.
pub open spec fn filled(x: nat, k: nat, n: nat) -> bool {
    n >= 2 && x * (n - 1) >= k * UNIT
}

/// The bar of `n` positions for the level `x`.
pub open spec fn bar_of(x: nat, n: nat) -> Seq<char> {
    Seq::new(
        n,
        |k: int|
            if filled(x, k as nat, n) {
                FILLED
            } else {
                EMPTY
            },
    )
}

/// The filled positions of a bar come first: before a filled position every
/// position is filled. In a bar of two or more positions the first one is
/// always filled, and the level [`UNIT`] fills them all.
pub proof fn lemma_bar_fills_from_the_left(x: nat, n: nat, j: nat, k: nat)
    requires
        j <= k < n,
    ensures
        filled(x, k, n) ==> filled(x, j, n),
        n >= 2 ==> filled(x, 0, n),
        n >= 2 && x >= UNIT ==> filled(x, k, n),
{
    let u: int = UNIT as int;
    let xi: int = x as int;
    let ji: int = j as int;
    let ki: int = k as int;
    let span: int = n - 1;
    assert(ji * u <= ki * u) by (nonlinear_arith)
        requires
            0 <= ji <= ki,
            0 < u,
    ;
    assert(xi * span >= 0 && (xi >= u ==> xi * span >= ki * u)) by (nonlinear_arith)
        requires
            0 <= xi,
            0 <= ki <= span,
            0 < u,
    ;
}

/// Renders the level `x` as a bar of `n` glyphs.
pub fn level_to_bar(x: u64, n: usize) -> (bar: String)
    ensures
        bar@ == bar_of(x as nat, n as nat),
        bar@.len() == n,
{
    let mut bar: String = String::new();
    let mut k: usize = 0;
    proof {
        reveal_strlit("█");
        reveal_strlit("░");
    }
    while k < n
        invariant
            k <= n,
            bar@ == bar_of(x as nat, n as nat).take(k as int),
            "█"@ == seq![FILLED],
            "░"@ == seq![EMPTY],
        decreases n - k,
    {
        proof {
            assert(x as int * (n - 1) <= u64::MAX as int * usize::MAX as int) by (nonlinear_arith)
                requires
                    0 <= x as int <= u64::MAX as int,
                    0 <= n - 1 <= usize::MAX as int,
            ;
            assert(k as int * UNIT as int <= usize::MAX as int * UNIT as int) by (nonlinear_arith)
                requires
                    0 <= k as int <= usize::MAX as int,
                    0 < UNIT as int,
            ;
        }
        let reached: bool = n >= 2 && x as u128 * (n - 1) as u128 >= k as u128 * UNIT as u128;
        assert(reached == filled(x as nat, k as nat, n as nat));
        if reached {
            bar.append("█");
        } else {
            bar.append("░");
        }
        k += 1;
        assert(bar@ =~= bar_of(x as nat, n as nat).take(k as int));
    }
    assert(bar_of(x as nat, n as nat).take(n as int) =~= bar_of(x as nat, n as nat));
    bar
}

} // verus!
