//! The show's plugins: mixer, patcher, outputs and controllers.
pub mod live_controller;
pub mod midi_controllers;
pub mod midi_router;
pub mod mixer;
pub mod output_dmx;
pub mod output_dmx_e131;
pub mod output_dmx_enttecopendmx;
pub mod patcher;
