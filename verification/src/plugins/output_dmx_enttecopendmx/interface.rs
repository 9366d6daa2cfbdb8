//! The OpenDMX driver's decisions: which universe it drives, and what to do
//! with the frames it is handed.
use vstd::prelude::*;

use crate::plugins::output_dmx::driver_types::RegisterUniverseError;
use crate::utils::smallmap::SmallMap;

verus! {

/// The OpenDMX portion of the show file.
#[derive(Debug, Clone, Copy, PartialEq, Eq, Structural)]
pub struct OpenDMXShowSave {
    pub universe_id: Option<u128>,
}

/// The OpenDMX driver's state: the universe it drives, and whether the
/// controller that talks to the adapter is running. The controller itself
/// is held by the runtime.
#[derive(Debug, Clone, Copy, PartialEq, Eq, Structural)]
pub struct OpenDMXState {
    pub universe_id: Option<u128>,
    pub controller_running: bool,
}

/// What to do with the frames handed to the driver.
#[derive(Debug, Clone, Copy, PartialEq, Eq)]
pub enum OpenDMXAction {
    /// Hand this frame to the running controller
    SendFrame([u8; 512]),
    /// Start the controller with this frame
    StartController([u8; 512]),
    /// Nothing to do
    Idle,
}

impl Default for OpenDMXState {
    fn default() -> (r: Self)
        ensures
            r == (OpenDMXState { universe_id: None, controller_running: false }),
    {
        OpenDMXState { universe_id: None, controller_running: false }
    }
}

impl OpenDMXState {
    /// A driver without a universe.
    pub fn new() -> (r: Self)
        ensures
            r == (OpenDMXState { universe_id: None, controller_running: false }),
    {
        OpenDMXState::default()
    }

    /// The driver as it was loaded from a show file; the controller starts
    /// with the first frame.
    pub fn from_file(file: OpenDMXShowSave) -> (r: Self)
        ensures
            r == (OpenDMXState { universe_id: file.universe_id, controller_running: false }),
    {
        OpenDMXState { universe_id: file.universe_id, controller_running: false }
    }

    /// What is saved in the show file.
    pub fn save(&self) -> (r: OpenDMXShowSave)
        ensures
            r == (OpenDMXShowSave { universe_id: self.universe_id }),
    {
        OpenDMXShowSave { universe_id: self.universe_id }
    }

    /// Links universe `id` to the adapter, unless another universe uses it.
    /// Linking the universe it already drives succeeds.
    pub fn register_universe(&mut self, id: u128) -> (r: Result<(), RegisterUniverseError>)
        ensures
            match old(self).universe_id {
                Some(existing) => if existing != id {
                    r matches Err(RegisterUniverseError::Other(msg)) && msg@
                        == "OpenDMX driver is already in use"@
                } else {
                    r is Ok
                },
                None => r is Ok,
            },
            *final(self) == registered(*old(self), id),
    {
        match self.universe_id {
            Some(existing_id) => {
                if id != existing_id {
                    return Err(RegisterUniverseError::Other("OpenDMX driver is already in use".to_owned()));
                }
            },
            None => {
                self.universe_id = Some(id);
            },
        }
        Ok(())
    }

    /// Unlinks universe `id` if it is the one the adapter drives. Returns
    /// whether the running controller has to be shut down.
    pub fn delete_universe(&mut self, id: u128) -> (shut_down: bool)
        ensures
            *final(self) == unregistered(*old(self), id),
            shut_down == (old(self).universe_id == Some(id) && old(self).controller_running),
    {
        match self.universe_id {
            Some(old_id) => {
                if old_id == id {
                    let running = self.controller_running;
                    self.universe_id = None;
                    self.controller_running = false;
                    return running;
                }
                false
            },
            None => false,
        }
    }

    /// What to do with the frames handed to the driver: the frame of the
    /// linked universe, if there is one, goes to the controller, which is
    /// started with it if it is not running.
    pub fn send_dmx(&mut self, universes: &SmallMap<u128, [u8; 512]>) -> (r: OpenDMXAction)
        ensures
            match old(self).universe_id {
                Some(u) => if universes@.contains_key(u) {
                    if old(self).controller_running {
                        r == OpenDMXAction::SendFrame(universes@[u]) && *final(self) == *old(self)
                    } else {
                        r == OpenDMXAction::StartController(universes@[u]) && *final(self) == (OpenDMXState {
                            universe_id: Some(u),
                            controller_running: true,
                        })
                    }
                } else {
                    r == OpenDMXAction::Idle && *final(self) == *old(self)
                },
                None => r == OpenDMXAction::Idle && *final(self) == *old(self),
            },
    {
        match self.universe_id {
            Some(universe_id) => match universes.get(&universe_id) {
                Some(frame) => {
                    if self.controller_running {
                        OpenDMXAction::SendFrame(*frame)
                    } else {
                        self.controller_running = true;
                        OpenDMXAction::StartController(*frame)
                    }
                },
                None => OpenDMXAction::Idle,
            },
            None => OpenDMXAction::Idle,
        }
    }
}

/// The universe the adapter drives after linking `id`.
pub open spec fn registered(st: OpenDMXState, id: u128) -> OpenDMXState {
    OpenDMXState {
        universe_id: match st.universe_id {
            Some(existing) => Some(existing),
            None => Some(id),
        },
        controller_running: st.controller_running,
    }
}

/// The driver after unlinking `id`.
pub open spec fn unregistered(st: OpenDMXState, id: u128) -> OpenDMXState {
    if st.universe_id == Some(id) {
        OpenDMXState { universe_id: None, controller_running: false }
    } else {
        st
    }
}

/// Linking a universe to an idle adapter and unlinking it again leaves the
/// adapter idle; while it drives one universe, linking another changes
/// nothing.
pub proof fn law_register_then_delete(st: OpenDMXState, id: u128, other: u128)
    ensures
        st.universe_id is None ==> unregistered(registered(st, id), id) == (OpenDMXState {
            universe_id: None,
            controller_running: false,
        }),
        st.universe_id == Some(id) && other != id ==> registered(st, other) == st,
{
}

} // verus!
