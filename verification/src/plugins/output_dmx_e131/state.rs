//! The E.1.31 driver's state.
use vstd::prelude::*;

use crate::utils::smallmap::SmallMap;

verus! {

/// E.1.31-specific data of a universe.
#[derive(Debug, Clone, Copy, PartialEq, Eq, Structural)]
pub struct E131Universe {
    /// The universe number on the network
    pub external_universe: u16,
}

/// The E.1.31 driver's state: the network universe of each show universe.
/// The frames waiting to be sent are held next to it, shared with the
/// network sender.
pub struct E131State {
    pub universes: SmallMap<u128, E131Universe>,
}

impl E131State {
    /// A driver without universes.
    pub fn new() -> (r: Self)
        ensures
            r.universes@ == Map::<u128, E131Universe>::empty(),
    {
        E131State { universes: SmallMap::new() }
    }

    /// The driver as it was loaded from a show file.
    pub fn from_file(file: super::interface::E131DMXShowSave) -> (r: Self)
        ensures
            r.universes == file.universes,
    {
        E131State { universes: file.universes }
    }
}

} // verus!
