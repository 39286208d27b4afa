use vstd::prelude::*;

verus! {

/// The waveshaping curves that a band or the whole signal can be sent through.
#[derive(Clone, Copy, Debug, PartialEq, Eq, Structural)]
pub enum DistFuncs {
    /// sign(x) * min(|x| * t, 1)
    HardClip,
    /// (1 - e^(-|3x| * t)) / (1 + e^(-|3x| * t))
    SoftClip,
    /// tanh(2 * x * t)
    Tanh,
    /// sign(x) * sqrt(|x|) * t
    Sqrt,
    /// round(x * t) / t
    Bitcrush,
    /// sign(x) * sin(x * t * PI)
    Sine,
    /// sin(x * t) * cos(x * t)
    Wonky,
    /// sign(x) * sin(x^2 * t * PI)
    SineSqr,
    /// soft clip plus a sine ripple scaled by 1 / (5 * sqrt(|x|))
    SineSoftClip,
}

} // verus!
