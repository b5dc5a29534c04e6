//! Filter designs: which cutoff a band's filter may have at a sample rate.
//!
//! A design is the validated parameter set of one second-order section. The
//! coefficients depend on the sample rate, so a design is made anew whenever
//! the sample rate of a block differs from the last one.

use vstd::prelude::*;
use crate::band::Band;

verus! {

/// The number of cutoff steps in one hertz: cutoffs are given in millihertz.
pub const MILLI: u64 = 1_000;

/// The cutoff of the high band's filter: 2000 Hz.
pub const HIGH_CUTOFF: u64 = 2_000_000;

/// The shape of a band's filter. Both are Butterworth sections.
#[derive(Clone, Copy, Debug, PartialEq, Eq, Structural)]
pub enum Shape {
    LowPass,
    HighPass,
}

/// Why a filter cannot be designed.
#[derive(Clone, Copy, Debug, PartialEq, Eq, Structural)]
pub enum FilterError {
    /// The cutoff is zero.
    ZeroCutoff,
    /// The cutoff is at or above half the sample rate.
    AboveNyquist,
}

impl Band {
    /// The shape of the band's filter.
    pub open spec fn shape_of(self) -> Shape {
        match self {
            Band::Low => Shape::LowPass,
            Band::High => Shape::HighPass,
        }
    }

    /// The shape of the band's filter.
    pub fn shape(self) -> (s: Shape)
        ensures
            s == self.shape_of(),
    {
        match self {
            Band::Low => Shape::LowPass,
            Band::High => Shape::HighPass,
        }
    }
}

/// Whether a filter with the cutoff `cutoff`, in millihertz, can run at
/// `sample_rate` hertz: the cutoff lies strictly between zero and half the
/// sample rate.
pub open spec fn admissible(sample_rate: nat, cutoff: nat) -> bool {
    0 < cutoff && 2 * cutoff < sample_rate * MILLI
}

/// The error, if any, of designing a filter for these values.
pub open spec fn design_error(sample_rate: nat, cutoff: nat) -> Option<FilterError> {
    if cutoff == 0 {
        Some(FilterError::ZeroCutoff)
    } else if 2 * cutoff >= sample_rate * MILLI {
        Some(FilterError::AboveNyquist)
    } else {
        None
    }
}

/// A design fails exactly on the values that are not admissible, and on each
/// of them with one fixed error.
pub proof fn lemma_design_fails_iff_inadmissible(sample_rate: nat, cutoff: nat)
    ensures
        admissible(sample_rate, cutoff) <==> design_error(sample_rate, cutoff) is None,
        cutoff >= sample_rate * MILLI ==> design_error(sample_rate, cutoff) is Some,
{
}

/// The parameters of a filter design.
pub struct Design {
    pub shape: Shape,
    pub sample_rate: nat,
    pub cutoff: nat,
}

/// A validated filter design for one band at one sample rate.
#[derive(Clone, Copy, Debug)]
pub struct FilterSpec {
    shape: Shape,
    sample_rate: usize,
    cutoff: u64,
}

impl View for FilterSpec {
    type V = Design;

    closed spec fn view(&self) -> Design {
        Design {
            shape: self.shape,
            sample_rate: self.sample_rate as nat,
            cutoff: self.cutoff as nat,
        }
    }
}

impl FilterSpec {
    #[verifier::type_invariant]
    spec fn well_formed(self) -> bool {
        admissible(self.sample_rate as nat, self.cutoff as nat)
    }

    /// Designs a filter of the given shape, or says why there is none.
    pub fn new(shape: Shape, sample_rate: usize, cutoff: u64) -> (r: Result<Self, FilterError>)
        ensures
            match r {
                Ok(f) => admissible(sample_rate as nat, cutoff as nat) && f@ == (Design {
                    shape,
                    sample_rate: sample_rate as nat,
                    cutoff: cutoff as nat,
                }),
                Err(e) => design_error(sample_rate as nat, cutoff as nat) == Some(e),
            },
    {
        if cutoff == 0 {
            return Err(FilterError::ZeroCutoff);
        }
        let twice: u128 = 2 * cutoff as u128;
        assert(sample_rate as int * MILLI as int <= usize::MAX as int * 1_000) by (nonlinear_arith)
            requires
                0 <= sample_rate as int <= usize::MAX as int,
                MILLI as int == 1_000,
        ;
        let limit: u128 = sample_rate as u128 * MILLI as u128;
        if twice >= limit {
            Err(FilterError::AboveNyquist)
        } else {
            Ok(FilterSpec { shape, sample_rate, cutoff })
        }
    }

    /// The same filter for another sample rate, or the error if the cutoff
    /// does not lie below half of it.
    pub fn retune(&self, sample_rate: usize) -> (r: Result<Self, FilterError>)
        ensures
            admissible(self@.sample_rate, self@.cutoff),
            match r {
                Ok(f) => admissible(sample_rate as nat, self@.cutoff) && f@ == (Design {
                    shape: self@.shape,
                    sample_rate: sample_rate as nat,
                    cutoff: self@.cutoff,
                }),
                Err(e) => e == FilterError::AboveNyquist && !admissible(
                    sample_rate as nat,
                    self@.cutoff,
                ),
            },
    {
        proof {
            use_type_invariant(self);
        }
        FilterSpec::new(self.shape, sample_rate, self.cutoff)
    }

    /// The shape of the filter.
    pub fn shape(&self) -> (s: Shape)
        ensures
            s == self@.shape,
    {
        self.shape
    }

    /// The sample rate the filter is designed for, in hertz.
    pub fn sample_rate(&self) -> (r: usize)
        ensures
            r == self@.sample_rate,
            admissible(self@.sample_rate, self@.cutoff),
    {
        proof {
            use_type_invariant(self);
        }
        self.sample_rate
    }

    /// The cutoff of the filter, in millihertz.
    pub fn cutoff(&self) -> (c: u64)
        ensures
            c == self@.cutoff,
            admissible(self@.sample_rate, self@.cutoff),
    {
        proof {
            use_type_invariant(self);
        }
        self.cutoff
    }
}

/// The error, if any, of designing both bands' filters at `sample_rate`
/// hertz, where the low band has the cutoff `low_cutoff`: the low band's
/// error comes first.
pub open spec fn bank_error(sample_rate: nat, low_cutoff: nat) -> Option<FilterError> {
    if design_error(sample_rate, low_cutoff) is Some {
        design_error(sample_rate, low_cutoff)
    } else {
        design_error(sample_rate, HIGH_CUTOFF as nat)
    }
}

/// The designs of both bands' filters at one sample rate.
#[derive(Clone, Copy, Debug)]
pub struct FilterBank {
    low: FilterSpec,
    high: FilterSpec,
}

impl FilterBank {
    #[verifier::type_invariant]
    spec fn well_formed(self) -> bool {
        &&& self.low@.shape == Shape::LowPass
        &&& self.high@.shape == Shape::HighPass
        &&& self.high@.cutoff == HIGH_CUTOFF
        &&& self.low@.sample_rate == self.high@.sample_rate
        &&& admissible(self.low@.sample_rate, self.low@.cutoff)
        &&& admissible(self.high@.sample_rate, self.high@.cutoff)
    }

    /// The sample rate that both filters are designed for.
    pub closed spec fn sample_rate(self) -> nat {
        self.low@.sample_rate
    }

    /// The cutoff of the low band's filter.
    pub closed spec fn low_cutoff(self) -> nat {
        self.low@.cutoff
    }

    /// The design of the filter of `band`: the band's shape, the bank's
    /// sample rate, and the band's cutoff, which is fixed for the high band.
    pub open spec fn design(self, band: Band) -> Design {
        Design {
            shape: band.shape_of(),
            sample_rate: self.sample_rate(),
            cutoff: match band {
                Band::Low => self.low_cutoff(),
                Band::High => HIGH_CUTOFF as nat,
            },
        }
    }

    /// Designs both bands' filters for a block at `sample_rate` hertz, with
    /// the low band's cutoff at `low_cutoff` millihertz.
    pub fn new(sample_rate: usize, low_cutoff: u64) -> (r: Result<Self, FilterError>)
        ensures
            match r {
                Ok(bank) => {
                    &&& bank_error(sample_rate as nat, low_cutoff as nat) is None
                    &&& bank.sample_rate() == sample_rate
                    &&& bank.low_cutoff() == low_cutoff
                },
                Err(e) => bank_error(sample_rate as nat, low_cutoff as nat) == Some(e),
            },
    {
        let low = match FilterSpec::new(Shape::LowPass, sample_rate, low_cutoff) {
            Ok(f) => f,
            Err(e) => {
                return Err(e);
            },
        };
        let high = match FilterSpec::new(Shape::HighPass, sample_rate, HIGH_CUTOFF) {
            Ok(f) => f,
            Err(e) => {
                return Err(e);
            },
        };
        Ok(FilterBank { low, high })
    }

    /// The filter of `band`.
    pub fn filter(&self, band: Band) -> (f: FilterSpec)
        ensures
            f@ == self.design(band),
            admissible(f@.sample_rate, f@.cutoff),
    {
        proof {
            use_type_invariant(self);
        }
        match band {
            Band::Low => self.low,
            Band::High => self.high,
        }
    }
}

} // verus!
