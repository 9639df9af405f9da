//! Background work: jobs, the channels that carry them, workers and the pool.

use vstd::prelude::*;

pub mod cell;
pub mod transport;
pub mod pool;
pub mod worker;

verus! {

/// A unit of background work: an owned callable that is invoked exactly once,
/// on whichever worker picks it up.
///
/// Trusted: the callable is a boxed trait object, which the verifier cannot
/// look into, so the whole value is opaque to proofs.
#[verifier::external_body]
pub struct Job {
    body: Box<dyn FnOnce() + Send + 'static>,
}

impl Job {
    /// Boxes `body` (`Box::new`). Trusted; nothing is claimed of the result
    /// beyond its type.
    #[verifier::external_body]
    pub fn new<F>(body: F) -> (job: Job) where F: FnOnce() + Send + 'static {
        Job { body: Box::new(body) }
    }

    /// Invokes the boxed callable (`FnOnce::call_once`) and returns when it
    /// returns. Trusted; the callable is arbitrary caller code, so nothing is
    /// claimed of its effects. If it panics, the panic unwinds through the
    /// calling thread.
    #[verifier::external_body]
    pub(crate) fn run(self) {
        (self.body)()
    }
}

} // verus!
