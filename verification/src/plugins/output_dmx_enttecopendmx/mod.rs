//! Output through an Enttec OpenDMX USB adapter, which drives one universe.
pub mod interface;

use vstd::prelude::*;

use crate::utils::saved::SavedData;
use self::interface::{OpenDMXShowSave, OpenDMXState};

verus! {

/// An error that could occur while initializing the OpenDMX plugin.
#[derive(Debug, Clone, Copy, PartialEq, Eq, Structural)]
pub enum OpenDMXInitializationError {
    /// "The show file could not be parsed."
    UnrecognizedData,
}

/// The driver's state at start-up: unreadable data is an error; without
/// saved data it has no universe, else the saved one; the controller starts
/// with the first frame either way.
pub fn load_opendmx(saved: SavedData<OpenDMXShowSave>) -> (r: Result<OpenDMXState, OpenDMXInitializationError>)
    ensures
        match saved {
            SavedData::Unreadable => r == Err::<OpenDMXState, OpenDMXInitializationError>(
                OpenDMXInitializationError::UnrecognizedData,
            ),
            SavedData::NothingSaved => r == Ok::<OpenDMXState, OpenDMXInitializationError>(
                OpenDMXState { universe_id: None, controller_running: false },
            ),
            SavedData::Saved(data) => r == Ok::<OpenDMXState, OpenDMXInitializationError>(
                OpenDMXState { universe_id: data.universe_id, controller_running: false },
            ),
        },
{
    match saved {
        SavedData::Unreadable => Err(OpenDMXInitializationError::UnrecognizedData),
        SavedData::NothingSaved => Ok(OpenDMXState::new()),
        SavedData::Saved(data) => Ok(OpenDMXState::from_file(data)),
    }
}

} // verus!
