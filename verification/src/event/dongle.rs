//! Events about the dongle's link.

use vstd::prelude::*;

verus! {

#[derive(Clone, Copy, Debug, PartialEq, Eq, Structural)]
pub enum DongleState {
    /// Waiting for the bonded keyboard to connect.
    Searching,
    /// The pairing window is open.
    Pairing,
    /// The bonded keyboard is connected. Relaying the keyboard to the USB host.
    Connected,
}

impl Default for DongleState {
    fn default() -> (r: Self)
        ensures
            r == DongleState::Searching,
    {
        DongleState::Searching
    }
}

#[derive(Clone, Copy, Debug, PartialEq, Eq, Structural)]
pub struct DongleStateEvent(pub DongleState);

} // verus!
