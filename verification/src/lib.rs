//! Verified core of a multi-band distortion effect: the distortion and
//! filter kinds, the crossover routing between bands, and the band
//! navigation of the editor.
use vstd::prelude::*;

pub mod bands;
pub mod editor;
pub mod iir;
pub mod satfuncs;

verus! {

/// How many bands the signal can be split into.
pub const NUM_BANDS: usize = 5;

} // verus!
