//! Two-stage adaptive normalisation.
//!
//! Once per block each band's magnitude is divided by that band's own decaying
//! peak, then by a peak shared by all bands, multiplied by the configured gain
//! and clamped. The clamp is the last step.

use vstd::prelude::*;
use crate::band::Band;
use crate::level::{amplified, amplify, clamped, lemma_share_bounds, share, EPSILON, FLOOR, UNIT};
use crate::tracker::{
    decayed, lemma_decayed_relaxes, raised, PeakTracker, BAND_RETAIN, GLOBAL_RETAIN,
};

verus! {

/// The raw magnitude of each band for one block.
#[derive(Clone, Copy, Debug, PartialEq, Eq, Structural)]
pub struct Magnitudes {
    pub low: u64,
    pub high: u64,
}

impl Magnitudes {
    /// The magnitude of `band`.
    pub open spec fn of(self, band: Band) -> nat {
        match band {
            Band::Low => self.low as nat,
            Band::High => self.high as nat,
        }
    }
}

/// The peaks that the normaliser carries from block to block.
pub struct Peaks {
    pub low: nat,
    pub high: nat,
    pub global: nat,
}

impl Peaks {
    /// No peak is zero, and the shared peak is at most [`UNIT`].
    pub open spec fn valid(self) -> bool {
        &&& self.low >= FLOOR
        &&& self.high >= FLOOR
        &&& FLOOR <= self.global <= UNIT
    }

    /// The peaks before the first block.
    pub open spec fn initial() -> Peaks {
        Peaks { low: EPSILON as nat, high: EPSILON as nat, global: EPSILON as nat }
    }

    /// The peak of `band`.
    pub open spec fn of(self, band: Band) -> nat {
        match band {
            Band::Low => self.low,
            Band::High => self.high,
        }
    }

    /// The peak of `band` after it has taken the block's magnitude in.
    pub open spec fn lifted(self, m: Magnitudes, band: Band) -> nat {
        raised(self.of(band), m.of(band))
    }

    /// The magnitude of `band` as a share of the band's own lifted peak.
    pub open spec fn band_share(self, m: Magnitudes, band: Band) -> nat {
        share(m.of(band), self.lifted(m, band))
    }

    /// The larger of the two bands' shares.
    pub open spec fn top_share(self, m: Magnitudes) -> nat {
        if self.band_share(m, Band::Low) >= self.band_share(m, Band::High) {
            self.band_share(m, Band::Low)
        } else {
            self.band_share(m, Band::High)
        }
    }

    /// The shared peak after it has taken the block's largest share in.
    pub open spec fn ceiling(self, m: Magnitudes) -> nat {
        raised(self.global, self.top_share(m))
    }

    /// What is emitted for `band`: its share, divided by the ceiling,
    /// multiplied by `gain` and then clamped.
    pub open spec fn intensity(self, m: Magnitudes, band: Band, gain: int) -> nat {
        clamped(amplified(share(self.band_share(m, band), self.ceiling(m)), gain))
    }

    /// What is emitted for the block, low band first.
    pub open spec fn intensities(self, m: Magnitudes, gain: int) -> Seq<nat> {
        seq![self.intensity(m, Band::Low, gain), self.intensity(m, Band::High, gain)]
    }

    /// The peaks after the block: each has taken its observation in and then
    /// decayed once.
    pub open spec fn next(self, m: Magnitudes) -> Peaks {
        Peaks {
            low: decayed(self.lifted(m, Band::Low), BAND_RETAIN as nat),
            high: decayed(self.lifted(m, Band::High), BAND_RETAIN as nat),
            global: decayed(self.ceiling(m), GLOBAL_RETAIN as nat),
        }
    }

    /// The peaks after `blocks` blocks that all have the magnitudes `m`.
    pub open spec fn after(self, m: Magnitudes, blocks: nat) -> Peaks
        decreases blocks,
    {
        if blocks == 0 {
            self
        } else {
            self.next(m).after(m, (blocks - 1) as nat)
        }
    }
}

/// Every emitted intensity lies between 0 and [`UNIT`], whatever the peaks,
/// the magnitudes and the gain are.
pub proof fn lemma_intensities_in_range(p: Peaks, m: Magnitudes, gain: int)
    ensures
        p.intensities(m, gain).len() == 2,
        forall|i: int| 0 <= i < 2 ==> 0 <= #[trigger] p.intensities(m, gain)[i] <= UNIT,
        forall|band: Band| 0 <= #[trigger] p.intensity(m, band, gain) <= UNIT,
{
}

/// Within a block a band's peak never falls when it takes the magnitude in;
/// between blocks, absent a new maximum, it does not rise, and it strictly
/// falls as long as it is above [`FLOOR`]. The same holds of the shared peak
/// and the block's largest share. No peak ever reaches zero.
pub proof fn lemma_peaks_relax(p: Peaks, m: Magnitudes)
    requires
        p.valid(),
    ensures
        p.next(m).valid(),
        p.ceiling(m) >= p.global,
        p.top_share(m) <= p.global ==> p.next(m).global <= p.global,
        p.top_share(m) <= p.global && p.global > FLOOR ==> p.next(m).global < p.global,
        forall|band: Band| #[trigger] p.lifted(m, band) >= p.of(band),
        forall|band: Band|
            m.of(band) <= p.of(band) ==> #[trigger] p.next(m).of(band) <= p.of(band),
        forall|band: Band|
            m.of(band) <= p.of(band) && p.of(band) > FLOOR ==> #[trigger] p.next(m).of(band)
                < p.of(band),
{
    lemma_share_bounds(m.low as nat, p.lifted(m, Band::Low));
    lemma_share_bounds(m.high as nat, p.lifted(m, Band::High));
    lemma_decayed_relaxes(p.lifted(m, Band::Low), BAND_RETAIN as nat);
    lemma_decayed_relaxes(p.lifted(m, Band::High), BAND_RETAIN as nat);
    lemma_decayed_relaxes(p.ceiling(m), GLOBAL_RETAIN as nat);
}

/// A block in which both bands have the magnitude zero is emitted as zero in
/// both bands, whatever the gain is.
pub proof fn lemma_silence_is_zero(p: Peaks, m: Magnitudes, gain: int)
    requires
        p.valid(),
        m.low == 0,
        m.high == 0,
    ensures
        p.intensities(m, gain) == seq![0nat, 0nat],
{
    lemma_silent_band_is_zero(p, m, Band::Low, gain);
    lemma_silent_band_is_zero(p, m, Band::High, gain);
    assert(p.intensities(m, gain) =~= seq![0nat, 0nat]);
}

/// A band with the magnitude zero is emitted as zero, whatever the other
/// band and the gain are.
pub proof fn lemma_silent_band_is_zero(p: Peaks, m: Magnitudes, band: Band, gain: int)
    requires
        p.valid(),
        m.of(band) == 0,
    ensures
        p.band_share(m, band) == 0,
        p.intensity(m, band, gain) == 0,
{
    lemma_peaks_relax(p, m);
    lemma_share_bounds(0, p.lifted(m, band));
    lemma_share_bounds(0, p.ceiling(m));
    assert(amplified(0, gain) == 0) by {
        assert(0 * gain / UNIT as int == 0) by (nonlinear_arith);
    }
}

/// A band whose magnitude reaches its own peak fills the scale: its share is
/// [`UNIT`], so is the ceiling, and the band is emitted as the clamped gain.
/// If its magnitude stays, it reaches its peak in the next block again.
pub proof fn lemma_band_at_peak(p: Peaks, m: Magnitudes, band: Band, gain: int)
    requires
        p.valid(),
        m.of(band) >= p.of(band),
    ensures
        p.band_share(m, band) == UNIT,
        p.top_share(m) == UNIT,
        p.ceiling(m) == UNIT,
        p.intensity(m, band, gain) == clamped(gain),
        p.next(m).valid(),
        m.of(band) >= p.next(m).of(band),
{
    lemma_peaks_relax(p, m);
    lemma_share_bounds(m.low as nat, p.lifted(m, Band::Low));
    lemma_share_bounds(m.high as nat, p.lifted(m, Band::High));
    lemma_share_bounds(UNIT as nat, UNIT as nat);
    lemma_decayed_relaxes(p.lifted(m, band), BAND_RETAIN as nat);
    assert(amplified(UNIT as nat, gain) == gain) by {
        let u: int = UNIT as int;
        assert(u * gain / u == gain) by (nonlinear_arith)
            requires
                u > 0,
        ;
    }
}

/// A band that has reached its peak stays there while its magnitude stays:
/// after any number of further blocks of the same magnitudes the peaks are
/// valid and the band's magnitude still reaches its peak.
pub proof fn lemma_band_stays_at_peak(p: Peaks, m: Magnitudes, band: Band, blocks: nat)
    requires
        p.valid(),
        m.of(band) >= p.of(band),
    ensures
        p.after(m, blocks).valid(),
        m.of(band) >= p.after(m, blocks).of(band),
    decreases blocks,
{
    if blocks > 0 {
        lemma_band_at_peak(p, m, band, 0);
        lemma_band_stays_at_peak(p.next(m), m, band, (blocks - 1) as nat);
    }
}

/// A steady band settles: where every block has the same magnitudes and that
/// of `band` is not zero, there is a number of blocks, at most the band's
/// peak in steps, from which on the band is emitted as the clamped gain in
/// every block. A band that is silent beside it is emitted as zero in every
/// block. The number is returned.
pub proof fn lemma_steady_band_settles(p: Peaks, m: Magnitudes, band: Band, gain: int) -> (from:
    nat)
    requires
        p.valid(),
        m.of(band) >= FLOOR,
    ensures
        from <= p.of(band),
        forall|blocks: nat|
            blocks >= from ==> #[trigger] p.after(m, blocks).intensity(m, band, gain) == clamped(
                gain,
            ),
        forall|blocks: nat, other: Band|
            m.of(other) == 0 ==> #[trigger] p.after(m, blocks).intensity(m, other, gain) == 0,
    decreases p.of(band),
{
    assert forall|blocks: nat, other: Band| m.of(other) == 0 implies #[trigger] p.after(
        m,
        blocks,
    ).intensity(m, other, gain) == 0 by {
        lemma_after_is_valid(p, m, blocks);
        lemma_silent_band_is_zero(p.after(m, blocks), m, other, gain);
    }
    if m.of(band) >= p.of(band) {
        assert forall|blocks: nat| blocks >= 0 implies #[trigger] p.after(m, blocks).intensity(
            m,
            band,
            gain,
        ) == clamped(gain) by {
            lemma_band_stays_at_peak(p, m, band, blocks);
            lemma_band_at_peak(p.after(m, blocks), m, band, gain);
        }
        0
    } else {
        lemma_peaks_relax(p, m);
        assert(p.next(m).of(band) < p.of(band));
        let later = lemma_steady_band_settles(p.next(m), m, band, gain);
        assert forall|blocks: nat| blocks >= later + 1 implies #[trigger] p.after(
            m,
            blocks,
        ).intensity(m, band, gain) == clamped(gain) by {
            let fewer = (blocks - 1) as nat;
            assert(p.after(m, blocks) == p.next(m).after(m, fewer));
            assert(p.next(m).after(m, fewer).intensity(m, band, gain) == clamped(gain));
        }
        later + 1
    }
}

/// Valid peaks stay valid over any number of blocks.
pub proof fn lemma_after_is_valid(p: Peaks, m: Magnitudes, blocks: nat)
    requires
        p.valid(),
    ensures
        p.after(m, blocks).valid(),
    decreases blocks,
{
    if blocks > 0 {
        lemma_peaks_relax(p, m);
        lemma_after_is_valid(p.next(m), m, (blocks - 1) as nat);
    }
}

/// The intensities of one block, low band first, each from 0 to [`UNIT`].
#[derive(Clone, Copy, Debug)]
pub struct IntensityVector {
    low: u64,
    high: u64,
}

impl View for IntensityVector {
    type V = Seq<nat>;

    closed spec fn view(&self) -> Seq<nat> {
        seq![self.low as nat, self.high as nat]
    }
}

impl IntensityVector {
    #[verifier::type_invariant]
    spec fn in_range(self) -> bool {
        self.low <= UNIT && self.high <= UNIT
    }

    /// The intensity of the low band.
    pub fn low(&self) -> (v: u64)
        ensures
            self@.len() == 2,
            v == self@[0],
            v <= UNIT,
    {
        proof {
            use_type_invariant(self);
        }
        self.low
    }

    /// The intensity of the high band.
    pub fn high(&self) -> (v: u64)
        ensures
            self@.len() == 2,
            v == self@[1],
            v <= UNIT,
    {
        proof {
            use_type_invariant(self);
        }
        self.high
    }

    /// The intensity of `band`.
    pub fn get(&self, band: Band) -> (v: u64)
        ensures
            self@.len() == 2,
            v == self@[band.position()],
            v <= UNIT,
    {
        match band {
            Band::Low => self.low(),
            Band::High => self.high(),
        }
    }

    /// The intensities in the order in which a device takes them.
    pub fn to_vec(&self) -> (v: Vec<u64>)
        ensures
            v@.len() == 2,
            v@.map_values(|x: u64| x as nat) == self@,
            forall|i: int| 0 <= i < v@.len() ==> v@[i] <= UNIT,
    {
        proof {
            use_type_invariant(self);
        }
        let mut v: Vec<u64> = Vec::new();
        v.push(self.low);
        v.push(self.high);
        assert(v@.map_values(|x: u64| x as nat) =~= self@);
        v
    }
}

/// The state of the normalisation: one peak per band, one shared peak, and
/// the gain.
pub struct Normalizer {
    low: PeakTracker,
    high: PeakTracker,
    global: PeakTracker,
    gain: i64,
}

impl View for Normalizer {
    type V = Peaks;

    closed spec fn view(&self) -> Peaks {
        Peaks { low: self.low.level(), high: self.high.level(), global: self.global.level() }
    }
}

impl Normalizer {
    #[verifier::type_invariant]
    spec fn well_formed(self) -> bool {
        &&& self.low.retain() == BAND_RETAIN
        &&& self.high.retain() == BAND_RETAIN
        &&& self.global.retain() == GLOBAL_RETAIN
        &&& self.low.level() >= FLOOR
        &&& self.high.level() >= FLOOR
        &&& FLOOR <= self.global.level() <= UNIT
    }

    /// The gain, in steps: [`UNIT`] leaves a level as it is.
    pub closed spec fn gain(self) -> int {
        self.gain as int
    }

    /// A normaliser before its first block.
    pub fn new(gain: i64) -> (n: Self)
        ensures
            n@ == Peaks::initial(),
            n@.valid(),
            n.gain() == gain,
    {
        Normalizer {
            low: PeakTracker::band(),
            high: PeakTracker::band(),
            global: PeakTracker::global(),
            gain,
        }
    }

    /// The peak that is tracked for `band`.
    pub fn peak(&self, band: Band) -> (v: u64)
        ensures
            self@.valid(),
            v == self@.of(band),
    {
        proof {
            use_type_invariant(self);
        }
        match band {
            Band::Low => self.low.value(),
            Band::High => self.high.value(),
        }
    }

    /// The peak that all bands share.
    pub fn shared_peak(&self) -> (v: u64)
        ensures
            self@.valid(),
            v == self@.global,
    {
        proof {
            use_type_invariant(self);
        }
        self.global.value()
    }

    /// Normalises one block: returns its intensities and moves every peak on
    /// by one block.
    pub fn process(&mut self, m: Magnitudes) -> (out: IntensityVector)
        ensures
            out@ == old(self)@.intensities(m, old(self).gain()),
            out@.len() == 2,
            forall|i: int| 0 <= i < 2 ==> 0 <= #[trigger] out@[i] <= UNIT,
            final(self)@ == old(self)@.next(m),
            final(self)@.valid(),
            final(self).gain() == old(self).gain(),
        no_unwind
    {
        proof {
            use_type_invariant(&*self);
        }
        let low_share: u64 = self.low.track(m.low);
        let high_share: u64 = self.high.track(m.high);
        let top: u64 = if low_share >= high_share {
            low_share
        } else {
            high_share
        };
        self.global.observe(top);
        let low_level: u64 = self.global.normalize(low_share);
        let high_level: u64 = self.global.normalize(high_share);
        let out = IntensityVector {
            low: amplify(low_level, self.gain),
            high: amplify(high_level, self.gain),
        };
        self.low.decay();
        self.high.decay();
        self.global.decay();
        out
    }
}

} // verus!
