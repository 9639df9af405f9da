//! Events that the engine itself produces.

use vstd::prelude::*;

verus! {

/// A step in the engine's own life.
#[derive(Debug, Clone, Copy, PartialEq, Eq, Structural)]
pub enum EngineEvent {
    /// Just started.
    Started,
    /// Preparing for shutdown.
    Shutdown,
    /// Stopped.
    Stopped,
}

} // verus!
