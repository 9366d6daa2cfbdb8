//! What the DMX plugin knows of the transport drivers it sends frames to.
use vstd::prelude::*;

verus! {

/// A transport driver that DMX universes can be linked to. Drivers are
/// implemented by the runtime; these are the parts the DMX plugin lists.
pub trait DMXDriver {
    /// The unique id of the driver
    fn get_id(&self) -> String;

    /// The human-readable name of the driver
    fn get_name(&self) -> String;

    /// A human-readable description of the driver, such as what devices and
    /// protocols it uses
    fn get_description(&self) -> String;
}

/// A driver as it is shown to the user.
#[derive(Debug, Clone, PartialEq, Eq)]
pub struct DisplayableDMXDriver {
    pub id: String,
    pub name: String,
    pub description: String,
}

/// An error that occurs while registering a universe with a driver.
#[derive(Debug, Clone, PartialEq, Eq)]
pub enum RegisterUniverseError {
    /// The form data could not be parsed
    InvalidData(String),
    /// The transport driver reported an error
    Other(String),
}

} // verus!
