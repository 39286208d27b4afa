//! Infinite impulse response filters.
pub mod biquad;
