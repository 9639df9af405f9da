//! Trusted boundary to `crossbeam::channel`.
//!
//! What travels through a channel depends on every thread that holds one of
//! its ends, so none of these items promises anything about the messages. The
//! callers hand whatever comes back to verified functions that are specified
//! for every possible message.

use crossbeam::channel::Receiver;
use crossbeam::channel::Sender;
use vstd::prelude::*;

verus! {

/// `crossbeam::channel::Sender`, carried as an opaque value.
#[verifier::external_type_specification]
#[verifier::external_body]
#[verifier::reject_recursive_types(T)]
pub struct ExSender<T>(Sender<T>);

/// `crossbeam::channel::Receiver`, carried as an opaque value.
#[verifier::external_type_specification]
#[verifier::external_body]
#[verifier::reject_recursive_types(T)]
pub struct ExReceiver<T>(Receiver<T>);

/// `crossbeam::channel::unbounded`: creates a channel of unlimited capacity
/// and returns its two ends. Nothing is claimed of them.
pub assume_specification<T>[ crossbeam::channel::unbounded::<T> ]() -> (ends: (
    Sender<T>,
    Receiver<T>,
));

/// `Sender::clone`: another handle to the same channel. Nothing is claimed.
pub assume_specification<T>[ <Sender<T> as Clone>::clone ](sender: &Sender<T>) -> (copy: Sender<T>);

/// `Receiver::clone`: another handle to the same channel. Nothing is claimed.
pub assume_specification<T>[ <Receiver<T> as Clone>::clone ](receiver: &Receiver<T>) -> (copy:
    Receiver<T>);

/// `Sender::send`. Returns whether the message was enqueued; it is not when
/// every receiver of the channel is gone. On an unbounded channel the call
/// does not block. Which of the two happens is not claimed.
#[verifier::external_body]
pub(crate) fn send<T>(sender: &Sender<T>, message: T) -> (enqueued: bool) {
    sender.send(message).is_ok()
}

/// `Receiver::try_recv`. Returns the next message if one is queued right now,
/// and `None` when the channel is empty or disconnected; never blocks.
/// Nothing is claimed of the message.
#[verifier::external_body]
pub(crate) fn try_receive<T>(receiver: &Receiver<T>) -> (message: Option<T>) {
    receiver.try_recv().ok()
}

/// `Receiver::recv`. Blocks until a message arrives and returns it, or returns
/// `None` once the channel is empty and every sender is gone. While senders
/// remain and stay silent the call keeps waiting. Nothing is claimed of the
/// message.
#[verifier::external_body]
pub(crate) fn receive<T>(receiver: &Receiver<T>) -> (message: Option<T>) {
    receiver.recv().ok()
}

} // verus!
