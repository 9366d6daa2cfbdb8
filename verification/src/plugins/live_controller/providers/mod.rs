//! Control surfaces that the live controller knows.
pub mod boards;
