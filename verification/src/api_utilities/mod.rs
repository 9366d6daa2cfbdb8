//! The JSON API that front ends use to call services and listen to events.
pub mod events;
pub mod rpc;
pub mod rpc_laws;

use vstd::prelude::*;

verus! {

/// An error that could occur while attempting to call a JSON service.
#[derive(Debug, Clone, Copy, PartialEq, Eq, Structural)]
pub enum JSONCallServiceError {
    ServiceNotFound,
    ArgDeserializationFailed,
    ResponseSerializationFailed,
}

} // verus!
