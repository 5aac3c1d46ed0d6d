//! Host side of a GPU acceleration layer for finite-field and elliptic-curve
//! arithmetic: synthesis of type-specialized device source, a per-device
//! program cache, and the launch schedules of the FFT, multi-scalar
//! multiplication and polynomial-commitment round kernels.

pub mod cache;
pub mod curve;
pub mod devices;
pub mod error;
pub mod fft;
pub mod field;
pub mod kernel;
pub mod knobs;
pub mod limb;
pub mod msm;
pub mod polycommit;
pub mod powers;
pub mod sources;
pub mod templates;
pub mod text;
