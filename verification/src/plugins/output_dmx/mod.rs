//! DMX output: fixture placement in universes, and the universes themselves.
pub mod driver_types;
pub mod fixture_types;
pub mod interface;
pub mod services;
pub mod state;

use vstd::prelude::*;

use crate::utils::saved::SavedData;
use self::interface::DMXInterface;
use self::state::{DMXShowSave, DMXState, DMXFixtureInstance, UniverseInstance};
use self::fixture_types::DMXFixtureData;

verus! {

/// An error that could occur while initializing the DMX plugin.
#[derive(Debug, Clone, Copy, PartialEq, Eq, Structural)]
pub enum DMXInitializationError {
    /// The saved DMX data could not be read
    UnrecognizedData,
}

/// The DMX plugin's state at start-up: unreadable data is an error; without
/// saved data it starts empty, else from what was saved.
pub fn load_dmx(saved: SavedData<DMXShowSave>) -> (r: Result<DMXState, DMXInitializationError>)
    ensures
        match saved {
            SavedData::Unreadable => r == Err::<DMXState, DMXInitializationError>(
                DMXInitializationError::UnrecognizedData,
            ),
            SavedData::NothingSaved => r matches Ok(s) && s.library@ == Map::<u128, DMXFixtureData>::empty()
                && s.fixtures@ == Map::<u128, DMXFixtureInstance>::empty() && s.universes@ == Map::<
                u128,
                UniverseInstance,
            >::empty(),
            SavedData::Saved(data) => r matches Ok(s) && s.library == data.library && s.fixtures == data.fixtures
                && s.universes == data.universes,
        },
{
    match saved {
        SavedData::Unreadable => Err(DMXInitializationError::UnrecognizedData),
        SavedData::NothingSaved => Ok(DMXState::new()),
        SavedData::Saved(data) => Ok(DMXState::from_file(data)),
    }
}

/// Offers the universes as the options of a required choice.
pub struct UniverseTypeSpecifier(pub DMXInterface);

impl UniverseTypeSpecifier {
    /// Each universe, with its name.
    pub fn get_options(&self) -> (r: Vec<(u128, String)>)
        ensures
            r@.len() == self.0.state.universes.entries().len(),
            forall|i: int|
                0 <= i < r@.len() ==> #[trigger] r@[i].0 == self.0.state.universes.entries()[i].0
                    && r@[i].1@ == self.0.state.universes.entries()[i].1.name@,
    {
        self.0.list_universes()
    }
}

/// Offers the universes as the options of an optional choice: first
/// "Unassigned", then each universe.
pub struct OptionalUniverseTypeSpecifier(pub DMXInterface);

impl OptionalUniverseTypeSpecifier {
    /// "Unassigned", then each universe, with its name.
    pub fn get_options(&self) -> (r: Vec<(Option<u128>, String)>)
        ensures
            r@.len() == self.0.state.universes.entries().len() + 1,
            r@[0].0 is None,
            r@[0].1@ == "Unassigned"@,
            forall|i: int|
                1 <= i < r@.len() ==> #[trigger] r@[i].0 == Some(self.0.state.universes.entries()[i - 1].0)
                    && r@[i].1@ == self.0.state.universes.entries()[i - 1].1.name@,
    {
        let universes = self.0.list_universes();
        let mut options: Vec<(Option<u128>, String)> = Vec::new();
        options.push((None, "Unassigned".to_owned()));
        let mut i: usize = 0;
        while i < universes.len()
            invariant
                i <= universes@.len(),
                universes@.len() == self.0.state.universes.entries().len(),
                forall|j: int|
                    0 <= j < universes@.len() ==> #[trigger] universes@[j].0
                        == self.0.state.universes.entries()[j].0 && universes@[j].1@
                        == self.0.state.universes.entries()[j].1.name@,
                options@.len() == i + 1,
                options@[0].0 is None,
                options@[0].1@ == "Unassigned"@,
                forall|j: int|
                    1 <= j < options@.len() ==> #[trigger] options@[j].0 == Some(universes@[j - 1].0)
                        && options@[j].1@ == universes@[j - 1].1@,
            decreases universes@.len() - i,
        {
            let (id, name) = (universes[i].0, universes[i].1.clone());
            options.push((Some(id), name));
            i = i + 1;
        }
        options
    }
}

} // verus!
