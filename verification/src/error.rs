//! Failures of the engine's lifecycle.

use crate::engine::EngineState;
use vstd::prelude::*;

verus! {

/// Why the engine refused an operation.
#[derive(Debug, Clone, Copy, PartialEq, Eq, Structural)]
pub enum Error {
    /// The operation needs the engine in the first state; it was in the
    /// second.
    InvalidState(EngineState, EngineState),
}

} // verus!
