//! The services the DMX plugin offers, each holding the plugin's handle.
use vstd::prelude::*;

use super::interface::DMXInterface;

verus! {

/// Creates a new, unlinked universe for DMX output.
pub struct CreateUniverse(pub DMXInterface);

impl CreateUniverse {
    pub fn new(interface: DMXInterface) -> (r: Self)
        ensures
            r.0 == interface,
    {
        CreateUniverse(interface)
    }
}

/// Deletes an existing universe, unlinking any associated lights or
/// controllers.
pub struct DeleteUniverse(pub DMXInterface);

impl DeleteUniverse {
    pub fn new(interface: DMXInterface) -> (r: Self)
        ensures
            r.0 == interface,
    {
        DeleteUniverse(interface)
    }
}

/// Links an existing universe to a DMX driver.
pub struct LinkUniverse(pub DMXInterface);

impl LinkUniverse {
    pub fn new(interface: DMXInterface) -> (r: Self)
        ensures
            r.0 == interface,
    {
        LinkUniverse(interface)
    }
}

/// Unlinks an existing universe from its driver.
pub struct UnlinkUniverse(pub DMXInterface);

impl UnlinkUniverse {
    pub fn new(interface: DMXInterface) -> (r: Self)
        ensures
            r.0 == interface,
    {
        UnlinkUniverse(interface)
    }
}

/// Lists the universes registered in the DMX plugin.
pub struct ListUniverses(pub DMXInterface);

impl ListUniverses {
    pub fn new(interface: DMXInterface) -> (r: Self)
        ensures
            r.0 == interface,
    {
        ListUniverses(interface)
    }
}

/// Lists the transport drivers registered with the DMX plugin.
pub struct ListDrivers(pub DMXInterface);

impl ListDrivers {
    pub fn new(interface: DMXInterface) -> (r: Self)
        ensures
            r.0 == interface,
    {
        ListDrivers(interface)
    }
}

} // verus!
