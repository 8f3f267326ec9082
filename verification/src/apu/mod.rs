//! Audio processing units.
pub mod volume_envelope;
