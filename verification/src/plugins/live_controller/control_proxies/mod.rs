//! State machines that add functionality to physical control interfaces.
pub mod analog_to_digital;
pub mod debounce_analog;
pub mod digital_to_analog;
