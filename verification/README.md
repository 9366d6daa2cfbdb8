# simplydmx

The show logic of SimplyDMX, a stage lighting controller, as a Verus library:
every function in `src/` carries a contract that Verus proves.

- `src/layering`, `src/mixer_utils`: submasters, layers and how they blend
  (HTP, LTP, snapping, offsets), computed exactly in integers.
- `src/plugins/mixer`: the layer stack, blind mode, opacities, and the laws
  that tie them together (`laws.rs`).
- `src/plugins/patcher`: fixtures, the background layer, virtual intensity
  channels (`laws.rs`).
- `src/plugins/output_dmx*`: DMX universes, fixture placement in them, and
  the decisions of the sACN and Enttec OpenDMX drivers.
- `src/plugins/midi_router`, `src/plugins/midi_controllers`,
  `src/plugins/live_controller`: logical MIDI devices, the Behringer X-Touch
  Compact layout, and how board messages map to controls and feedback.
  MIDI messages are read and written with the `midly` crate.
- `src/api_utilities`: the TypeScript module through which front ends call
  the backend's services, built in a fixed order (`rpc.rs`).
- `src/utils`: a small ordered map, id lists, random ids (`uuid`), and what
  a plugin finds in the show file at start-up.

`app/` is the program around the library: the async runtime, the blender
loop, the network and serial output of DMX frames, and writing the
TypeScript module to disk. `tests/` holds the
tests.
