//! The data the mixer blends and the layers it blends.
pub mod default_blender;
pub mod laws;
pub mod state;
pub mod static_layer;
