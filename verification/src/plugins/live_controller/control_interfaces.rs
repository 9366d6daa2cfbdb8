//! The kinds of movement a physical control reports.
use vstd::prelude::*;

verus! {

/// A movement of an endless encoder, in ticks: one tick is one click of the
/// wheel and changes the value it controls by 1.
#[derive(Debug, Clone, Copy, PartialEq, Eq, Structural)]
pub enum TickingEncoderMovement {
    Up(u8),
    Down(u8),
}

} // verus!
