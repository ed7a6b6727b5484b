//! A side-channel analysis harness for ed25519 signature verification.
//!
//! The crate searches for adversarial ("byzantine") verification inputs with
//! the help of an external scoring oracle, measures execution-time
//! distributions for such inputs under controllable cache-priming policies,
//! and reduces the raw timing samples to means, deviations and confidence
//! intervals.

pub mod crypto;
pub mod input;
pub mod search;
pub mod stats;
pub mod timing;
