//! The patcher's state: the fixture library and the fixtures in the show.
use vstd::prelude::*;

use super::fixture_types::FixtureInfo;
use crate::utils::smallmap::SmallMap;

verus! {

/// Where a fixture is drawn in the visualizer.
#[derive(Debug, Clone, Copy, PartialEq, Eq, Structural)]
pub struct VisualizationInfo {
    pub x: u16,
    pub y: u16,
}

impl Default for VisualizationInfo {
    fn default() -> (r: Self)
        ensures
            r == (VisualizationInfo { x: 0, y: 0 }),
    {
        VisualizationInfo { x: 0, y: 0 }
    }
}

/// An individual instance of a fixture in the show.
pub struct FixtureInstance {
    /// The id of this particular fixture
    pub id: u128,
    /// The id of this fixture's type
    pub fixture_id: u128,
    /// The personality of this fixture
    pub personality: u32,
    /// An arbitrary name for this particular instance of the fixture
    pub name: Option<String>,
    /// Arbitrary comments left by the user about this instance
    pub comments: Option<String>,
    /// Where the fixture is drawn in the visualizer
    pub visualization_info: VisualizationInfo,
}

/// The part of the patcher's state that is saved and shared with the output
/// drivers: the fixture library and the fixtures in the show.
pub struct SharablePatcherState {
    /// The fixture types, by id
    pub library: SmallMap<u128, FixtureInfo>,
    /// The fixtures, in the order they were created
    pub fixture_order: Vec<u128>,
    /// The fixtures, by id
    pub fixtures: SmallMap<u128, FixtureInstance>,
}

/// The patcher's state. The output drivers registered with the patcher are
/// held by the runtime, next to this state.
pub struct PatcherContext {
    pub sharable: SharablePatcherState,
}

impl PatcherContext {
    /// A patcher without fixture types or fixtures.
    pub fn new() -> (r: Self)
        ensures
            r.sharable.library@ == Map::<u128, FixtureInfo>::empty(),
            r.sharable.fixture_order@ == Seq::<u128>::empty(),
            r.sharable.fixtures@ == Map::<u128, FixtureInstance>::empty(),
    {
        PatcherContext {
            sharable: SharablePatcherState {
                library: SmallMap::new(),
                fixture_order: Vec::new(),
                fixtures: SmallMap::new(),
            },
        }
    }

    /// The patcher as it was loaded from a show file.
    pub fn from_file(file: SharablePatcherState) -> (r: Self)
        ensures
            r.sharable == file,
    {
        PatcherContext { sharable: file }
    }
}

} // verus!
