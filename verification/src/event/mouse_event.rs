//! Events that the mouse produces.

use vstd::prelude::*;
use winit::event::MouseButton;

verus! {

/// `winit::event::MouseButton`, carried as an opaque value: events name the
/// button and nothing here looks into it.
#[verifier::external_type_specification]
#[verifier::external_body]
pub struct ExMouseButton(MouseButton);

/// The mouse moved or one of its buttons changed position.
#[derive(Debug, Clone, Copy, PartialEq, Eq)]
pub enum MouseEvent {
    /// The button went down.
    Pressed(MouseButton),
    /// The button came up.
    Released(MouseButton),
    /// The pointer is now at this position.
    Moved(u32, u32),
}

impl MouseEvent {
    /// The event for `button` going down, if `pressed`, or coming up.
    pub fn from_input(pressed: bool, button: MouseButton) -> (event: MouseEvent)
        ensures
            event == if pressed {
                MouseEvent::Pressed(button)
            } else {
                MouseEvent::Released(button)
            },
    {
        if pressed {
            MouseEvent::Pressed(button)
        } else {
            MouseEvent::Released(button)
        }
    }
}

} // verus!
