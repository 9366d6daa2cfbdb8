//! The boards, by manufacturer.
pub mod behringer;
