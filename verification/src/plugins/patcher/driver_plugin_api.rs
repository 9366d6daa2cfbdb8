//! The errors that an output driver reports to the patcher.
use vstd::prelude::*;

verus! {

/// An error from an output driver while importing a fixture definition.
#[derive(Debug, Clone, PartialEq, Eq)]
pub enum ImportError {
    /// The form data could not be parsed
    InvalidData(String),
    /// Any other error
    Other(String),
}

/// An error from an output driver while creating a fixture instance.
#[derive(Debug, Clone, PartialEq, Eq)]
pub enum CreateInstanceError {
    /// The form data could not be parsed
    InvalidData(String),
    /// Any other error
    Other(String),
}

/// An error from an output driver while editing a fixture instance.
#[derive(Debug, Clone, PartialEq, Eq)]
pub enum EditInstanceError {
    /// The form data could not be parsed
    InvalidData(String),
    /// Any other error
    Other(String),
}

} // verus!
