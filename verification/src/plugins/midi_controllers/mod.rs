//! MIDI control surfaces: the boards the show knows, how each one's controls
//! map to MIDI messages, and the boards that were created.
pub mod controller_types;
pub mod controllers;

use vstd::prelude::*;

use crate::plugins::midi_router::{
    InputMeta, LogicalInput, LogicalOutput, MidiIndex, MidiMomento, MidiRouterInterface, OutputMeta,
};
use crate::utils::random_id::{is_random_id, new_random_id};
use crate::utils::smallmap::SmallMap;

use self::controller_types::MidiInterfaceController;
use self::controllers::behringer::x_touch_compact::{
    XTouchCompact, XTouchLayoutEntry, create_x_touch, is_layout_entry, layout_control, x_touch_compact_id,
};

verus! {

/// How a type of board is shown to the user.
#[derive(Debug, Clone, PartialEq, Eq)]
pub struct MidiBoardMeta {
    pub name: String,
    pub manufacturer: String,
    pub family: Option<String>,
}

/// An error that could occur while creating a board.
#[derive(Debug, Clone, Copy, PartialEq, Eq, Structural)]
pub enum CreateBoardError {
    /// "The requested board does not exist."
    BoardNotFound,
    /// The creation form's data could not be read
    InvalidForm,
}

/// The boards created in the show, each with its MIDI interface.
pub struct MidiControllersInterface {
    pub controller_instances: SmallMap<u128, MidiInterfaceController>,
}

impl MidiControllersInterface {
    /// No boards created yet.
    pub fn new() -> (r: Self)
        ensures
            r.controller_instances@ == Map::<u128, MidiInterfaceController>::empty(),
    {
        MidiControllersInterface { controller_instances: SmallMap::new() }
    }

    /// The types of boards that the show recognizes, with how each is shown.
    pub fn list_boards(&self) -> (r: Vec<(u128, MidiBoardMeta)>)
        ensures
            r@.len() == 1,
            r@[0].0 == x_touch_compact_id(),
            r@[0].1.name@ == "X-Touch Compact"@,
            r@[0].1.manufacturer@ == "Behringer"@,
            r@[0].1.family matches Some(f) && f@ == "X-Touch"@,
    {
        let board = XTouchCompact;
        let mut r: Vec<(u128, MidiBoardMeta)> = Vec::new();
        r.push((board.id(), board.meta()));
        r
    }

    /// Creates an instance of board `board_id` named `name`. `channel` is the
    /// MIDI channel read from the creation form, `None` where the form's data
    /// could not be read. The board's logical input and output are created
    /// unlinked in the router before the form is read, and stay there when it
    /// cannot be. Returns the new instance's id with the layout of its
    /// controls.
    pub fn create_board(
        &mut self,
        midi: &mut MidiRouterInterface,
        board_id: u128,
        name: String,
        channel: Option<u8>,
    ) -> (r: Result<(u128, Vec<XTouchLayoutEntry>), CreateBoardError>)
        ensures
            board_id != x_touch_compact_id() ==> r == Err::<(u128, Vec<XTouchLayoutEntry>), CreateBoardError>(
                CreateBoardError::BoardNotFound,
            ) && final(midi).inputs == old(midi).inputs && final(midi).outputs == old(midi).outputs,
            board_id == x_touch_compact_id() ==> exists|i: u128, o: u128|
                #![trigger final(midi).inputs@[i], final(midi).outputs@[o]]
                final(midi).inputs@ == old(midi).inputs@.insert(i, (InputMeta { name }, LogicalInput::Unlinked))
                    && final(midi).outputs@ == old(midi).outputs@.insert(
                    o,
                    (OutputMeta { name }, LogicalOutput::Unlinked),
                ) && match r {
                    Ok((id, layout)) => channel matches Some(c) && is_random_id(id) && final(self).controller_instances@
                        == old(self).controller_instances@.insert(
                        id,
                        MidiInterfaceController { input_id: Some(i), output_id: Some(o) },
                    ) && layout@.len() == 55 && forall|k: int|
                        0 <= k < 55 ==> is_layout_entry(#[trigger] layout@[k], layout_control(k), c % 16),
                    Err(e) => e == CreateBoardError::InvalidForm && channel is None
                        && final(self).controller_instances@ == old(self).controller_instances@,
                },
            r is Err ==> final(self).controller_instances@ == old(self).controller_instances@,
    {
        if board_id != XTouchCompact.id() {
            return Err(CreateBoardError::BoardNotFound);
        }
        let output_name = name.clone();
        let interface = MidiInterfaceController::new(
            midi,
            InputMeta { name },
            MidiMomento::Unlinked,
            false,
            Some((OutputMeta { name: output_name }, MidiMomento::Unlinked, false)),
        );
        let ghost i = interface.input_id->0;
        let ghost o = interface.output_id->0;
        assert(midi.inputs@[i] == midi.inputs@[i] && midi.outputs@[o] == midi.outputs@[o]);
        match channel {
            None => Err(CreateBoardError::InvalidForm),
            Some(c) => {
                let layout = create_x_touch(c);
                let id = new_random_id();
                self.controller_instances.insert(id, interface);
                Ok((id, layout))
            },
        }
    }

    /// Removes a board instance, tearing down its logical input and output.
    /// Returns the devices whose connections are to be closed.
    pub fn delete_board(&mut self, midi: &mut MidiRouterInterface, instance_id: u128) -> (r: (
        Option<MidiIndex>,
        Option<MidiIndex>,
    ))
        ensures
            final(self).controller_instances@ == old(self).controller_instances@.remove(instance_id),
            !old(self).controller_instances@.contains_key(instance_id) ==> r == (None::<MidiIndex>, None::<MidiIndex>)
                && final(midi).inputs == old(midi).inputs && final(midi).outputs == old(midi).outputs,
            old(self).controller_instances@.contains_key(instance_id) ==> {
                let c = old(self).controller_instances@[instance_id];
                &&& final(midi).inputs@ == match c.input_id {
                    Some(i) => old(midi).inputs@.remove(i),
                    None => old(midi).inputs@,
                }
                &&& final(midi).outputs@ == match c.output_id {
                    Some(o) => old(midi).outputs@.remove(o),
                    None => old(midi).outputs@,
                }
            },
    {
        match self.controller_instances.remove(&instance_id) {
            Some(mut controller) => controller.teardown(midi),
            None => (None, None),
        }
    }
}

} // verus!
