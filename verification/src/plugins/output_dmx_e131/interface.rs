//! The E.1.31 driver's operations on universes and frames.
use vstd::prelude::*;

use super::state::{E131State, E131Universe};
use crate::plugins::output_dmx::driver_types::RegisterUniverseError;
use crate::utils::smallmap::{SmallMap, lemma_index_of_unique, lemma_no_entries_iff_empty, unique_keys};

verus! {

/// The frames waiting to be sent, by network universe.
pub type FrameCache = Option<SmallMap<u16, [u8; 512]>>;

/// The E.1.31 portion of the show file.
pub struct E131DMXShowSave {
    pub universes: SmallMap<u128, E131Universe>,
}

/// Why a universe could not be linked to the E.1.31 driver.
#[derive(Debug, Clone, Copy, PartialEq, Eq, Structural)]
pub enum E131UniverseError {
    /// "This external universe ID is taken"
    ExternalUniverseTaken,
}

/// Some show universe already uses network universe `external`.
pub open spec fn external_taken(universes: Map<u128, E131Universe>, external: u16) -> bool {
    exists|id: u128| #[trigger] universes.contains_key(id) && universes[id].external_universe == external
}

/// The frames of `frames` whose show universe has a network universe, keyed
/// by that network universe; a later frame for the same network universe
/// replaces an earlier one.
pub open spec fn frames_by_external(
    frames: Seq<(u128, [u8; 512])>,
    universes: Map<u128, E131Universe>,
) -> Map<u16, [u8; 512]>
    decreases frames.len(),
{
    if frames.len() == 0 {
        Map::empty()
    } else {
        let before = frames_by_external(frames.drop_last(), universes);
        let (id, frame) = frames.last();
        if universes.contains_key(id) {
            before.insert(universes[id].external_universe, frame)
        } else {
            before
        }
    }
}

impl E131State {
    /// Links show universe `int_id` to a network universe, unless another
    /// show universe uses it. Linking the first universe makes the frame
    /// cache ready if it was not.
    pub fn create_universe(&mut self, cache: &mut FrameCache, int_id: u128, data: E131Universe) -> (r: Result<
        (),
        E131UniverseError,
    >)
        ensures
            external_taken(old(self).universes@, data.external_universe) ==> r == Err::<(), E131UniverseError>(E131UniverseError::ExternalUniverseTaken)
                && final(self).universes@ == old(self).universes@ && *final(cache) == *old(cache),
            !external_taken(old(self).universes@, data.external_universe) ==> r is Ok
                && final(self).universes@ == old(self).universes@.insert(int_id, data) && (if old(
                self,
            ).universes.entries().len() == 0 && *old(cache) is None {
                *final(cache) matches Some(c) && c@ == Map::<u16, [u8; 512]>::empty()
            } else {
                *final(cache) == *old(cache)
            }),
    {
        proof {
            use_type_invariant(&self.universes);
        }
        let mut i: usize = 0;
        while i < self.universes.len()
            invariant
                i <= self.universes.entries().len(),
                unique_keys(self.universes.entries()),
                forall|j: int|
                    0 <= j < i ==> #[trigger] self.universes.entries()[j].1.external_universe
                        != data.external_universe,
            decreases self.universes.entries().len() - i,
        {
            if self.universes.value_at(i).external_universe == data.external_universe {
                proof {
                    lemma_index_of_unique(self.universes, i as int);
                }
                return Err(E131UniverseError::ExternalUniverseTaken);
            }
            i = i + 1;
        }
        assert(!external_taken(self.universes@, data.external_universe)) by {
            if external_taken(self.universes@, data.external_universe) {
                let id = choose|id: u128|
                    #[trigger] self.universes@.contains_key(id) && self.universes@[id].external_universe
                        == data.external_universe;
                let a = self.universes.index_of(id);
                lemma_index_of_unique(self.universes, a);
                assert(self.universes.entries()[a].1.external_universe == data.external_universe);
            }
        }
        if self.universes.len() == 0 {
            if cache.is_none() {
                *cache = Some(SmallMap::new());
            }
        }
        self.universes.insert(int_id, data);
        Ok(())
    }

    /// Unlinks show universe `int_id`. With no universe left the frame cache
    /// is dropped; otherwise the frame of its network universe is.
    pub fn destroy_universe(&mut self, cache: &mut FrameCache, int_id: u128)
        ensures
            !old(self).universes@.contains_key(int_id) ==> final(self).universes@ == old(self).universes@
                && *final(cache) == *old(cache),
            old(self).universes@.contains_key(int_id) ==> final(self).universes@ == old(self).universes@.remove(int_id)
                && (final(self).universes@ == Map::<u128, E131Universe>::empty() ==> *final(cache) is None)
                && (final(self).universes@ != Map::<u128, E131Universe>::empty() ==> match *old(cache) {
                Some(c) => (*final(cache) matches Some(n) && n@ == c@.remove(
                    old(self).universes@[int_id].external_universe,
                )),
                None => *final(cache) is None,
            }),
    {
        match self.universes.remove(&int_id) {
            Some(ext_data) => {
                proof {
                    lemma_no_entries_iff_empty(self.universes);
                }
                if self.universes.len() == 0 {
                    *cache = None;
                } else {
                    match cache {
                        Some(frames) => {
                            frames.remove(&ext_data.external_universe);
                        },
                        None => {},
                    }
                }
            },
            None => {},
        }
    }

    /// Hands the frames of the linked universes to the network sender, keyed
    /// by network universe. Without any, the cache is dropped.
    pub fn send_frames(&self, cache: &mut FrameCache, frames: &SmallMap<u128, [u8; 512]>)
        ensures
            ({
                let m = frames_by_external(frames.entries(), self.universes@);
                &&& m == Map::<u16, [u8; 512]>::empty() ==> *final(cache) is None
                &&& m != Map::<u16, [u8; 512]>::empty() ==> (*final(cache) matches Some(c) && c@ == m)
            }),
    {
        let mut dereferenced: SmallMap<u16, [u8; 512]> = SmallMap::new();
        let mut i: usize = 0;
        while i < frames.len()
            invariant
                i <= frames.entries().len(),
                dereferenced@ == frames_by_external(frames.entries().take(i as int), self.universes@),
            decreases frames.entries().len() - i,
        {
            let internal_id = frames.key_at(i);
            let frame = *frames.value_at(i);
            assert(frames.entries().take(i + 1).drop_last() =~= frames.entries().take(i as int));
            assert(frames.entries().take(i + 1).last() == (internal_id, frame));
            match self.universes.get(&internal_id) {
                Some(external_data) => {
                    dereferenced.insert(external_data.external_universe, frame);
                },
                None => {},
            }
            i = i + 1;
        }
        assert(frames.entries().take(frames.entries().len() as int) =~= frames.entries());
        proof {
            lemma_no_entries_iff_empty(dereferenced);
        }
        if dereferenced.len() > 0 {
            *cache = Some(dereferenced);
        } else {
            *cache = None;
        }
    }

    /// Links a universe from the registration form: `form` is the form
    /// data as read, or the reason it could not be read.
    pub fn register_universe(
        &mut self,
        cache: &mut FrameCache,
        id: u128,
        form: Result<E131Universe, String>,
    ) -> (r: Result<(), RegisterUniverseError>)
        ensures
            match form {
                Err(msg) => r == Err::<(), RegisterUniverseError>(RegisterUniverseError::InvalidData(msg))
                    && final(self).universes@ == old(self).universes@ && *final(cache) == *old(cache),
                Ok(data) => if external_taken(old(self).universes@, data.external_universe) {
                    r is Err && final(self).universes@ == old(self).universes@ && *final(cache) == *old(cache)
                } else {
                    r is Ok && final(self).universes@ == old(self).universes@.insert(id, data)
                },
            },
            r matches Err(RegisterUniverseError::Other(msg)) ==> msg@ == "This external universe ID is taken"@,
    {
        match form {
            Err(msg) => Err(RegisterUniverseError::InvalidData(msg)),
            Ok(data) => match self.create_universe(cache, id, data) {
                Ok(()) => Ok(()),
                Err(_) => Err(RegisterUniverseError::Other("This external universe ID is taken".to_owned())),
            },
        }
    }
}

} // verus!
