//! The two frequency bands.

use vstd::prelude::*;

verus! {

/// One of the two filtered signal paths.
#[derive(Clone, Copy, Debug, PartialEq, Eq, Structural)]
pub enum Band {
    /// What passes the low-pass filter.
    Low,
    /// What passes the high-pass filter.
    High,
}

/// The number of bands, and so of entries in an intensity vector.
pub const BANDS: usize = 2;

impl Band {
    /// The position of the band in every per-band sequence: low first.
    pub open spec fn position(self) -> int {
        match self {
            Band::Low => 0,
            Band::High => 1,
        }
    }

    /// The position of the band in every per-band sequence.
    pub fn index(self) -> (i: usize)
        ensures
            i == self.position(),
            i < BANDS,
    {
        match self {
            Band::Low => 0,
            Band::High => 1,
        }
    }
}

} // verus!
