//! The values that parameterise the pipeline.

use vstd::prelude::*;
use crate::band::Band;
use crate::envelope::Reduction;
use crate::filter::HIGH_CUTOFF;

verus! {

/// The low band's cutoff unless another is configured: 200 Hz.
pub const DEFAULT_LOW_CUTOFF: u64 = 200_000;

/// The gain unless another is configured: 1.1.
pub const DEFAULT_GAIN: i64 = 1_100_000_000_000;

/// The configuration of the pipeline.
#[derive(Clone, Copy, Debug)]
pub struct Config {
    /// The cutoff of the low band's filter, in millihertz.
    pub low_cutoff: u64,
    /// The linear amplification, in steps of the level scale.
    pub gain: i64,
    /// Whether a bar per band is rendered for each block.
    pub debug: bool,
    /// How a block is reduced to its envelope.
    pub reduction: Reduction,
}

impl Default for Config {
    fn default() -> (c: Self)
        ensures
            c.low_cutoff == DEFAULT_LOW_CUTOFF,
            c.gain == DEFAULT_GAIN,
            !c.debug,
            c.reduction == Reduction::Min,
    {
        Config {
            low_cutoff: DEFAULT_LOW_CUTOFF,
            gain: DEFAULT_GAIN,
            debug: false,
            reduction: Reduction::Min,
        }
    }
}

impl Config {
    /// The cutoff of the filter of `band`, in millihertz: configured for the
    /// low band, fixed for the high band.
    pub open spec fn cutoff_of(self, band: Band) -> nat {
        match band {
            Band::Low => self.low_cutoff as nat,
            Band::High => HIGH_CUTOFF as nat,
        }
    }

    /// The cutoff of the filter of `band`, in millihertz.
    pub fn cutoff(&self, band: Band) -> (c: u64)
        ensures
            c == self.cutoff_of(band),
    {
        match band {
            Band::Low => self.low_cutoff,
            Band::High => HIGH_CUTOFF,
        }
    }
}

} // verus!
