//! What the show knows of a controller.
use vstd::prelude::*;

verus! {

/// How a controller is shown to the user.
#[derive(Debug, Clone, PartialEq, Eq)]
pub struct ControllerMeta {
    pub name: String,
}

} // verus!
