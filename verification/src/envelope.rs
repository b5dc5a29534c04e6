//! Envelope extraction: one magnitude per band and block.
//!
//! The samples of a block are fixed-point levels with a sign. Their absolute
//! values are reduced to one number by the chosen [`Reduction`]; an empty
//! block has the envelope zero.

use vstd::prelude::*;

verus! {

/// How the absolute values of a block are reduced to one magnitude.
#[derive(Clone, Copy, Debug, PartialEq, Eq, Structural)]
pub enum Reduction {
    /// The smallest absolute value: the quietest instant of the block.
    Min,
    /// The largest absolute value.
    Max,
    /// The mean of the absolute values, rounded down.
    Mean,
}

impl Default for Reduction {
    /// The smallest absolute value is the reduction used unless another is
    /// asked for.
    fn default() -> (r: Self)
        ensures
            r == Reduction::Min,
    {
        Reduction::Min
    }
}

/// The absolute value of a sample.
pub open spec fn magnitude(x: i64) -> nat {
    if x < 0 {
        (-x) as nat
    } else {
        x as nat
    }
}

/// The smallest absolute value in `s`, and zero for an empty `s`.
pub open spec fn least(s: Seq<i64>) -> nat
    decreases s.len(),
{
    if s.len() == 0 {
        0
    } else if s.len() == 1 {
        magnitude(s[0])
    } else {
        let before = least(s.drop_last());
        if magnitude(s.last()) < before {
            magnitude(s.last())
        } else {
            before
        }
    }
}

/// The largest absolute value in `s`, and zero for an empty `s`.
pub open spec fn greatest(s: Seq<i64>) -> nat
    decreases s.len(),
{
    if s.len() == 0 {
        0
    } else {
        let before = greatest(s.drop_last());
        if magnitude(s.last()) > before {
            magnitude(s.last())
        } else {
            before
        }
    }
}

/// The sum of the absolute values in `s`.
pub open spec fn total(s: Seq<i64>) -> nat
    decreases s.len(),
{
    if s.len() == 0 {
        0
    } else {
        total(s.drop_last()) + magnitude(s.last())
    }
}

/// The envelope of the block `s` under the reduction `r`.
pub open spec fn envelope_of(s: Seq<i64>, r: Reduction) -> nat {
    match r {
        Reduction::Min => least(s),
        Reduction::Max => greatest(s),
        Reduction::Mean => if s.len() == 0 {
            0
        } else {
            total(s) / s.len()
        },
    }
}

/// The smallest absolute value of a block is below no sample's absolute
/// value, and some sample of a non-empty block has it.
pub proof fn lemma_least_is_minimum(s: Seq<i64>)
    ensures
        forall|i: int| 0 <= i < s.len() ==> least(s) <= magnitude(#[trigger] s[i]),
        s.len() > 0 ==> exists|i: int| 0 <= i < s.len() && least(s) == magnitude(#[trigger] s[i]),
    decreases s.len(),
{
    if s.len() == 1 {
        assert(least(s) == magnitude(s[0]));
    } else if s.len() >= 2 {
        let front = s.drop_last();
        lemma_least_is_minimum(front);
        let w = choose|i: int| 0 <= i < front.len() && least(front) == magnitude(#[trigger] front[i]);
        assert(front[w] == s[w]);
        assert(s.last() == s[s.len() - 1]);
        assert forall|i: int| 0 <= i < s.len() implies least(s) <= magnitude(#[trigger] s[i]) by {
            if i < front.len() {
                assert(front[i] == s[i]);
            }
        }
    }
}

/// The largest absolute value of a block is above no sample's absolute
/// value, and some sample of a non-empty block has it.
pub proof fn lemma_greatest_is_maximum(s: Seq<i64>)
    ensures
        forall|i: int| 0 <= i < s.len() ==> greatest(s) >= magnitude(#[trigger] s[i]),
        s.len() > 0 ==> exists|i: int|
            0 <= i < s.len() && greatest(s) == magnitude(#[trigger] s[i]),
    decreases s.len(),
{
    if s.len() == 1 {
        assert(greatest(s.drop_last()) == 0);
        assert(s.last() == s[0]);
    } else if s.len() >= 2 {
        let front = s.drop_last();
        lemma_greatest_is_maximum(front);
        let w = choose|i: int|
            0 <= i < front.len() && greatest(front) == magnitude(#[trigger] front[i]);
        assert(front[w] == s[w]);
        assert(s.last() == s[s.len() - 1]);
        assert forall|i: int| 0 <= i < s.len() implies greatest(s) >= magnitude(
            #[trigger] s[i],
        ) by {
            if i < front.len() {
                assert(front[i] == s[i]);
            }
        }
    }
}

/// The sum of the absolute values lies between the block's length times its
/// smallest and times its largest absolute value.
pub proof fn lemma_total_bounds(s: Seq<i64>)
    ensures
        s.len() * least(s) <= total(s) <= s.len() * greatest(s),
    decreases s.len(),
{
    if s.len() == 1 {
        assert(total(s.drop_last()) == 0);
        assert(greatest(s.drop_last()) == 0);
        assert(s.last() == s[0]);
    } else if s.len() >= 2 {
        let front = s.drop_last();
        lemma_total_bounds(front);
        let n: int = front.len() as int;
        let lo: int = least(s) as int;
        let hi: int = greatest(s) as int;
        let flo: int = least(front) as int;
        let fhi: int = greatest(front) as int;
        assert((n + 1) * lo <= n * flo + lo && n * fhi + hi <= (n + 1) * hi) by (nonlinear_arith)
            requires
                0 <= n,
                0 <= lo <= flo,
                0 <= fhi <= hi,
        ;
    }
}

/// Under every reduction the envelope lies between the smallest and the
/// largest absolute value of the block.
pub proof fn lemma_envelope_between(s: Seq<i64>, r: Reduction)
    ensures
        least(s) <= envelope_of(s, r) <= greatest(s),
    decreases s.len(),
{
    lemma_total_bounds(s);
    lemma_least_is_minimum(s);
    lemma_greatest_is_maximum(s);
    if s.len() > 0 {
        let n: int = s.len() as int;
        let t: int = total(s) as int;
        let lo: int = least(s) as int;
        let hi: int = greatest(s) as int;
        assert(lo <= t / n <= hi) by (nonlinear_arith)
            requires
                0 < n,
                n * lo <= t <= n * hi,
        ;
        let w = choose|i: int| 0 <= i < s.len() && least(s) == magnitude(#[trigger] s[i]);
        assert(magnitude(s[w]) <= greatest(s));
    }
}

/// A block of zeros has the envelope zero under every reduction.
pub proof fn lemma_silent_block(s: Seq<i64>, r: Reduction)
    requires
        forall|i: int| 0 <= i < s.len() ==> #[trigger] s[i] == 0,
    ensures
        envelope_of(s, r) == 0,
{
    lemma_envelope_between(s, r);
    lemma_greatest_is_maximum(s);
    if s.len() > 0 {
        let w = choose|i: int| 0 <= i < s.len() && greatest(s) == magnitude(#[trigger] s[i]);
        assert(s[w] == 0);
    }
}

/// The absolute value of a sample.
pub fn magnitude_of(x: i64) -> (m: u64)
    ensures
        m == magnitude(x),
        m <= 0x8000_0000_0000_0000,
{
    if x >= 0 {
        x as u64
    } else {
        let below: i64 = -(x + 1);
        below as u64 + 1
    }
}

fn smallest(samples: &[i64]) -> (e: u64)
    ensures
        e == least(samples@),
{
    let n: usize = samples.len();
    if n == 0 {
        return 0;
    }
    let mut best: u64 = magnitude_of(samples[0]);
    assert(samples@.take(1) =~= seq![samples@[0]]);
    let mut i: usize = 1;
    while i < n
        invariant
            1 <= i <= n,
            n == samples@.len(),
            best == least(samples@.take(i as int)),
        decreases n - i,
    {
        let m: u64 = magnitude_of(samples[i]);
        proof {
            let next = samples@.take(i + 1);
            assert(next.drop_last() =~= samples@.take(i as int));
            assert(next.last() == samples@[i as int]);
        }
        if m < best {
            best = m;
        }
        i += 1;
    }
    assert(samples@.take(n as int) =~= samples@);
    best
}

fn largest(samples: &[i64]) -> (e: u64)
    ensures
        e == greatest(samples@),
{
    let n: usize = samples.len();
    let mut best: u64 = 0;
    let mut i: usize = 0;
    while i < n
        invariant
            i <= n,
            n == samples@.len(),
            best == greatest(samples@.take(i as int)),
        decreases n - i,
    {
        let m: u64 = magnitude_of(samples[i]);
        proof {
            let next = samples@.take(i + 1);
            assert(next.drop_last() =~= samples@.take(i as int));
            assert(next.last() == samples@[i as int]);
        }
        if m > best {
            best = m;
        }
        i += 1;
    }
    assert(samples@.take(n as int) =~= samples@);
    best
}

fn average(samples: &[i64]) -> (e: u64)
    ensures
        samples@.len() == 0 ==> e == 0,
        samples@.len() > 0 ==> e == total(samples@) / samples@.len(),
{
    let n: usize = samples.len();
    if n == 0 {
        return 0;
    }
    let mut sum: u128 = 0;
    let mut i: usize = 0;
    while i < n
        invariant
            i <= n,
            n == samples@.len(),
            sum == total(samples@.take(i as int)),
            sum <= i * 0x8000_0000_0000_0000,
        decreases n - i,
    {
        let m: u64 = magnitude_of(samples[i]);
        proof {
            let next = samples@.take(i + 1);
            assert(next.drop_last() =~= samples@.take(i as int));
            assert(next.last() == samples@[i as int]);
        }
        sum = sum + m as u128;
        i += 1;
    }
    assert(samples@.take(n as int) =~= samples@);
    proof {
        let t: int = sum as int;
        let k: int = n as int;
        assert(t / k <= 0x8000_0000_0000_0000) by (nonlinear_arith)
            requires
                0 < k,
                0 <= t <= k * 0x8000_0000_0000_0000,
        ;
    }
    let mean: u128 = sum / n as u128;
    mean as u64
}

/// Reduces one band's block to its envelope.
pub fn envelope(samples: &[i64], reduction: Reduction) -> (e: u64)
    ensures
        e == envelope_of(samples@, reduction),
        samples@.len() == 0 ==> e == 0,
{
    match reduction {
        Reduction::Min => smallest(samples),
        Reduction::Max => largest(samples),
        Reduction::Mean => average(samples),
    }
}

} // verus!
