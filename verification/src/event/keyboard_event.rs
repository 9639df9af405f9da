//! Events that the keyboard produces.

use vstd::prelude::*;
use winit::keyboard::PhysicalKey;

verus! {

/// `winit::keyboard::PhysicalKey`, carried as an opaque value: events name
/// the key and nothing here looks into it.
#[verifier::external_type_specification]
#[verifier::external_body]
pub struct ExPhysicalKey(PhysicalKey);

/// A key changed position.
#[derive(Debug, Clone, Copy, PartialEq, Eq)]
pub enum KeyboardEvent {
    /// The key went down.
    Pressed(PhysicalKey),
    /// The key came up.
    Released(PhysicalKey),
}

impl KeyboardEvent {
    /// The event for `key` going down, if `pressed`, or coming up.
    pub fn from_input(pressed: bool, key: PhysicalKey) -> (event: KeyboardEvent)
        ensures
            event == if pressed {
                KeyboardEvent::Pressed(key)
            } else {
                KeyboardEvent::Released(key)
            },
    {
        if pressed {
            KeyboardEvent::Pressed(key)
        } else {
            KeyboardEvent::Released(key)
        }
    }
}

} // verus!
