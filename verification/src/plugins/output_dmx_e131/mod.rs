//! E.1.31 (sACN) output: the mapping from show universes to network
//! universes, and the frames handed to the network sender.
pub mod dmxsource_controller;
pub mod interface;
pub mod state;
