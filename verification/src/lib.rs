//! Control logic of a per-sample bitcrusher: a sample-and-hold decimator, the
//! per-channel state that a one-pole lowpass and the decimator keep between
//! samples, and the selection made by the dry/wet mixer.
//!
//! Samples travel through this crate as the 32 bit patterns of their
//! single-precision encoding. The crate moves, stores and compares patterns;
//! it never does arithmetic on them.

pub mod decimator;
pub mod mixer;
pub mod sample;
pub mod state;

pub use crate::state::{EffectState, SimpleBitcrush};
