//! The DMX plugin's handle on its state.
use vstd::prelude::*;

use super::state::DMXState;

verus! {

/// The DMX plugin's state together with the queries the services make.
pub struct DMXInterface {
    pub state: DMXState,
}

impl DMXInterface {
    /// Wraps the plugin's state.
    pub fn new(state: DMXState) -> (r: Self)
        ensures
            r.state == state,
    {
        DMXInterface { state }
    }

    /// Each universe, with its name, in the order the universes were added.
    pub fn list_universes(&self) -> (r: Vec<(u128, String)>)
        ensures
            r@.len() == self.state.universes.entries().len(),
            forall|i: int|
                0 <= i < r@.len() ==> #[trigger] r@[i].0 == self.state.universes.entries()[i].0
                    && r@[i].1@ == self.state.universes.entries()[i].1.name@,
    {
        let universes = &self.state.universes;
        let mut r: Vec<(u128, String)> = Vec::new();
        let mut i: usize = 0;
        while i < universes.len()
            invariant
                i <= universes.entries().len(),
                universes == &self.state.universes,
                r@.len() == i,
                forall|j: int|
                    0 <= j < i ==> #[trigger] r@[j].0 == universes.entries()[j].0 && r@[j].1@
                        == universes.entries()[j].1.name@,
            decreases universes.entries().len() - i,
        {
            let id = universes.key_at(i);
            let name = universes.value_at(i).name.clone();
            r.push((id, name));
            i = i + 1;
        }
        r
    }
}

} // verus!
