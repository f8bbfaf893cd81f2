//! Caching: which backends a spec names, and the rules of the store in front
//! of them.
pub mod cloud;
pub mod dsn;
pub mod flight;
pub mod frontend;
pub mod memory;
pub mod size;
pub mod store;
