//! Which events a front end's listeners pass on.
use vstd::prelude::*;

verus! {

/// Whether a listener passes an event on to the front end. A front end may
/// listen to an event both without a filter and with filters; while it
/// listens without a filter, only that listener passes the event on, so
/// that it arrives once.
pub fn should_forward(listener_unfiltered: bool, event_has_unfiltered_listener: bool) -> (r: bool)
    ensures
        r == (listener_unfiltered == event_has_unfiltered_listener),
{
    !((!listener_unfiltered && event_has_unfiltered_listener) || (listener_unfiltered
        && !event_has_unfiltered_listener))
}

} // verus!
