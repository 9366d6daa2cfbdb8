use simplydmx::plugins::midi_controllers::controller_types::MidiInterfaceController;
use simplydmx::plugins::midi_controllers::{CreateBoardError, MidiControllersInterface};
use simplydmx::plugins::midi_router::{
    InputMeta, LogicalInput, LogicalOutput, MidiIndex, MidiMomento, MidiRouterInterface, OutputMeta,
};

const X_TOUCH_COMPACT: u128 = 0x569ec2d6_e5b4_4fb8_b27d_c17f41728f6b;

#[test]
fn boards_list_the_x_touch_compact() {
    let boards = MidiControllersInterface::new().list_boards();
    assert_eq!(boards.len(), 1);
    assert_eq!(boards[0].0, X_TOUCH_COMPACT);
    assert_eq!(boards[0].1.name, "X-Touch Compact");
    assert_eq!(boards[0].1.manufacturer, "Behringer");
    assert_eq!(boards[0].1.family.as_deref(), Some("X-Touch"));
}

#[test]
fn unknown_board_is_refused_without_touching_the_router() {
    let mut midi = MidiRouterInterface::new();
    let mut boards = MidiControllersInterface::new();
    assert_eq!(
        boards.create_board(&mut midi, 7, "Desk".into(), Some(1)).map(|(id, _)| id),
        Err(CreateBoardError::BoardNotFound)
    );
    assert_eq!(midi.inputs.len(), 0);
    assert_eq!(midi.outputs.len(), 0);
    assert_eq!(boards.controller_instances.len(), 0);
}

#[test]
fn board_creation_and_deletion() {
    let mut midi = MidiRouterInterface::new();
    let mut boards = MidiControllersInterface::new();
    let (id, layout) = boards.create_board(&mut midi, X_TOUCH_COMPACT, "Desk".into(), Some(17)).unwrap();
    assert_eq!(layout.len(), 55);
    assert!(layout.iter().all(|entry| entry.channel == 1));
    assert_eq!(midi.inputs.len(), 1);
    assert_eq!(midi.outputs.len(), 1);
    let interface = boards.controller_instances.get(&id).unwrap();
    let input = interface.input_id.unwrap();
    let output = interface.get_output_id().unwrap();
    assert_eq!(midi.inputs.get(&input).unwrap().0.name, "Desk");
    assert_eq!(midi.inputs.get(&input).unwrap().1, LogicalInput::Unlinked);
    assert_eq!(midi.outputs.get(&output).unwrap().1, LogicalOutput::Unlinked);

    // A form that cannot be read leaves the board's logical devices behind.
    assert_eq!(
        boards.create_board(&mut midi, X_TOUCH_COMPACT, "Other".into(), None).map(|(id, _)| id),
        Err(CreateBoardError::InvalidForm)
    );
    assert_eq!(midi.inputs.len(), 2);
    assert_eq!(boards.controller_instances.len(), 1);

    assert_eq!(boards.delete_board(&mut midi, id), (None, None));
    assert_eq!(boards.controller_instances.len(), 0);
    assert_eq!(midi.inputs.len(), 1);
    assert_eq!(midi.outputs.len(), 1);
    assert!(midi.inputs.get(&input).is_none());
    assert_eq!(boards.delete_board(&mut midi, id), (None, None));
}

#[test]
fn interface_controller_links_and_tears_down() {
    let mut midi = MidiRouterInterface::new();
    let mut controller = MidiInterfaceController::new(
        &mut midi,
        InputMeta { name: "In".into() },
        MidiMomento::CoreMidi(3),
        true,
        Some((OutputMeta { name: "Out".into() }, MidiMomento::CoreMidi(4), false)),
    );
    let input = controller.input_id.unwrap();
    let output = controller.get_output_id().unwrap();
    assert_eq!(midi.inputs.get(&input).unwrap().1, LogicalInput::Linked(MidiIndex::CoreMidi(3)));
    assert_eq!(midi.outputs.get(&output).unwrap().1, LogicalOutput::Unlinked);
    assert_eq!(controller.teardown(&mut midi), (Some(MidiIndex::CoreMidi(3)), None));
    assert_eq!(midi.inputs.len(), 0);
    assert_eq!(midi.outputs.len(), 0);

    let no_output = MidiInterfaceController::new(&mut midi, InputMeta { name: "In".into() }, MidiMomento::Unlinked, true, None);
    assert_eq!(no_output.get_output_id(), None);
    assert_eq!(midi.outputs.len(), 0);
}
