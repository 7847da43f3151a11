//! Resolved actions.

use vstd::prelude::*;
use crate::types::{Action, KeyboardEvent};

verus! {

/// An action that a key event was resolved to.
#[derive(Clone, Copy, Debug, Eq, PartialEq, Structural)]
pub struct ActionEvent {
    pub action: Action,
    pub keyboard_event: KeyboardEvent,
    /// Whether a Sticky key produced this resolved action.
    ///
    /// This local classification flag is omitted from the dongle event wire
    /// format. An event that comes off the wire therefore has this set to `false`.
    pub is_sticky: bool,
}

impl ActionEvent {
    pub fn new(action: Action, keyboard_event: KeyboardEvent) -> (r: Self)
        ensures
            r == (ActionEvent { action, keyboard_event, is_sticky: false }),
    {
        ActionEvent { action, keyboard_event, is_sticky: false }
    }

    pub fn new_sticky(action: Action, keyboard_event: KeyboardEvent) -> (r: Self)
        ensures
            r == (ActionEvent { action, keyboard_event, is_sticky: true }),
    {
        ActionEvent { action, keyboard_event, is_sticky: true }
    }
}

} // verus!
