//! Behringer boards.
pub mod x_touch_compact;
