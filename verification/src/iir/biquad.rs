//! The kinds of biquad filter that the crossovers are built from.
use vstd::prelude::*;

verus! {

/// The response of a biquad filter.
#[derive(Clone, Copy, Debug, PartialEq, Eq, Structural)]
pub enum BiquadFilterType {
    LowPass,
    HighPass,
    BandPass,
}

} // verus!
