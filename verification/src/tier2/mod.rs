//! Tier 2: formats that need more than the common image decoders.
pub mod avdecode;
pub mod jpeg;
pub mod raw;
pub mod renderer;
