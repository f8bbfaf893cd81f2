//! Tier 3: formats that external tools render.
pub mod env_check;
pub mod renderer;
pub mod report;
pub mod sandbox;
pub mod scratch;
