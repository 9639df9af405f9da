//! Events that a window produces.

use vstd::prelude::*;

verus! {

/// A signal in the life of a window.
#[derive(Debug, Clone, Copy, PartialEq, Eq, Structural)]
pub enum WindowEvent {
    /// The user asked for the window to close.
    CloseRequested,
    /// The window wants to be drawn again.
    RedrawRequested,
}

} // verus!
