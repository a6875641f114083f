//! A fixed-point signal pipeline: a noisy-sinusoid sample generator and a
//! lossy frequency-domain codec built on a DCT-II / DCT-III transform pair.
//!
//! Values are carried as `i64` fixed-point numbers with [`fixed::VALUE_SCALE`]
//! ticks per unit, and timestamps as `i64` nanosecond counts, so that the
//! bookkeeping, bounds enforcement and rescaling arithmetic can be verified.
//! The transform itself is numeric work done by an implementor of
//! [`codec::DctTransform`] that the caller supplies.

pub mod codec;
pub mod fixed;
pub mod reading;
pub mod signal;
