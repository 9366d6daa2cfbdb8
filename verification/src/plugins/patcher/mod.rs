//! The patcher: the fixture library, the fixtures in the show, and the
//! background layer the mixer blends over.
pub mod driver_plugin_api;
pub mod fixture_types;
pub mod interface;
pub mod laws;
pub mod state;

use vstd::prelude::*;

use crate::utils::saved::SavedData;
use self::state::{PatcherContext, SharablePatcherState};
use self::fixture_types::FixtureInfo;
use self::state::FixtureInstance;

verus! {

/// An error that could occur while initializing the patcher plugin.
#[derive(Debug, Clone, Copy, PartialEq, Eq, Structural)]
pub enum PatcherInitializationError {
    /// The saved patcher data could not be read
    UnrecognizedData,
}

/// The patcher's state at start-up: unreadable data is an error; without
/// saved data the patcher starts empty, else from what was saved.
pub fn load_patcher(saved: SavedData<SharablePatcherState>) -> (r: Result<PatcherContext, PatcherInitializationError>)
    ensures
        match saved {
            SavedData::Unreadable => r == Err::<PatcherContext, PatcherInitializationError>(
                PatcherInitializationError::UnrecognizedData,
            ),
            SavedData::NothingSaved => r matches Ok(c) && c.sharable.library@ == Map::<u128, FixtureInfo>::empty()
                && c.sharable.fixture_order@ == Seq::<u128>::empty() && c.sharable.fixtures@ == Map::<
                u128,
                FixtureInstance,
            >::empty(),
            SavedData::Saved(data) => r matches Ok(c) && c.sharable == data,
        },
{
    match saved {
        SavedData::Unreadable => Err(PatcherInitializationError::UnrecognizedData),
        SavedData::NothingSaved => Ok(PatcherContext::new()),
        SavedData::Saved(data) => Ok(PatcherContext::from_file(data)),
    }
}

} // verus!
