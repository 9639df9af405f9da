//! The event vocabulary and the bus that carries it: any number of
//! dispatchers feed one consumer.

use std::sync::mpsc::Receiver;
use std::sync::mpsc::Sender;
use std::sync::mpsc::TryRecvError;
use vstd::prelude::*;

pub mod engine_event;
pub mod event_handler;
pub mod keyboard_event;
pub mod mouse_event;
pub mod window_event;

pub use engine_event::EngineEvent;
pub use event_handler::EventHandler;
pub use event_handler::RawCallback;
pub use keyboard_event::KeyboardEvent;
pub use mouse_event::MouseEvent;
pub use window_event::WindowEvent;

verus! {

/// Something that happened. Events hold plain values only, so they can be
/// copied and sent between threads freely.
#[derive(Debug, Clone, Copy, PartialEq, Eq)]
pub enum Event {
    /// Produced by the engine.
    Engine(EngineEvent),
    /// Produced by a window.
    Window(WindowEvent),
    /// Produced by the keyboard.
    Keyboard(KeyboardEvent),
    /// Produced by the mouse.
    Mouse(MouseEvent),
}

/// What one look at the bus brought.
#[derive(Debug, Clone, Copy, PartialEq, Eq)]
pub enum Polled {
    /// The oldest event that waited.
    Event(Event),
    /// Nothing waited.
    Empty,
    /// Nothing waited, and nothing will: every dispatcher is gone.
    Disconnected,
}

impl Polled {
    /// The event that the look brought, if it brought one.
    pub open spec fn spec_event(self) -> Option<Event> {
        match self {
            Polled::Event(event) => Some(event),
            _ => None,
        }
    }

    /// The event that the look brought, if it brought one.
    #[verifier::when_used_as_spec(spec_event)]
    pub fn event(self) -> (event: Option<Event>)
        ensures
            event == self.event(),
    {
        match self {
            Polled::Event(event) => Some(event),
            _ => None,
        }
    }
}

/// `std::sync::mpsc::Sender`, carried as an opaque value.
#[verifier::external_type_specification]
#[verifier::external_body]
#[verifier::reject_recursive_types(T)]
pub struct ExBusSender<T>(Sender<T>);

/// `std::sync::mpsc::Receiver`, carried as an opaque value.
#[verifier::external_type_specification]
#[verifier::external_body]
#[verifier::reject_recursive_types(T)]
pub struct ExBusReceiver<T>(Receiver<T>);

/// `std::sync::mpsc::channel`: creates a channel and returns its two ends.
/// Nothing is claimed of them.
pub assume_specification<T>[ std::sync::mpsc::channel::<T> ]() -> (ends: (Sender<T>, Receiver<T>));

/// `Sender::clone` of `std::sync::mpsc`: another handle to the same channel.
/// Nothing is claimed.
pub assume_specification<T>[ <Sender<T> as Clone>::clone ](sender: &Sender<T>) -> (copy: Sender<T>);

/// `Sender::send` of `std::sync::mpsc`. Returns whether the event was queued;
/// it is not when the receiver is gone. Never blocks. Which of the two
/// happens is not claimed.
#[verifier::external_body]
fn post(sender: &Sender<Event>, event: Event) -> (queued: bool) {
    sender.send(event).is_ok()
}

/// `Receiver::try_recv` of `std::sync::mpsc`. Returns the next event if one
/// is queued right now, `Empty` when none is, and `Disconnected` when none is
/// and every sender is gone; never blocks. Nothing is claimed of the answer:
/// any thread that holds a dispatcher may have sent an event or dropped out.
#[verifier::external_body]
fn fetch(receiver: &Receiver<Event>) -> (polled: Polled) {
    match receiver.try_recv() {
        Ok(event) => Polled::Event(event),
        Err(TryRecvError::Empty) => Polled::Empty,
        Err(TryRecvError::Disconnected) => Polled::Disconnected,
    }
}

/// The sending end of the bus. Clones are equivalent and can be handed to any
/// thread.
#[derive(Debug)]
pub struct Dispatcher {
    sender: Sender<Event>,
}

impl Clone for Dispatcher {
    /// Another dispatcher into the same bus.
    fn clone(&self) -> Dispatcher {
        Dispatcher { sender: self.sender.clone() }
    }
}

/// The receiving end of the bus. There is exactly one per bus.
pub struct Consumer {
    receiver: Receiver<Event>,
}

/// Creates a bus and returns its two ends.
pub fn create_handler() -> (Dispatcher, Consumer) {
    let (sender, receiver) = std::sync::mpsc::channel();
    (Dispatcher::new(sender), Consumer::new(receiver))
}

impl Dispatcher {
    fn new(sender: Sender<Event>) -> (dispatcher: Dispatcher)
        ensures
            dispatcher.sender == sender,
    {
        Dispatcher { sender }
    }

    /// Queues `event` for the consumer and returns at once. An event sent
    /// after the consumer is gone is dropped.
    pub fn send(&self, event: Event) {
        let _ = self.try_send(event);
    }

    /// Queues `event` for the consumer, returns at once and says whether the
    /// event was queued. It is not when the consumer is gone; whether it is
    /// gone is up to whoever holds it.
    pub fn try_send(&self, event: Event) -> (queued: bool) {
        post(&self.sender, event)
    }
}

impl Consumer {
    fn new(receiver: Receiver<Event>) -> (consumer: Consumer)
        ensures
            consumer.receiver == receiver,
    {
        Consumer { receiver }
    }

    /// The oldest event that waits on the bus, if any. Never blocks.
    pub fn poll(&self) -> Option<Event> {
        self.try_poll().event()
    }

    /// Looks at the bus once: the oldest event that waits, or else whether
    /// the bus is merely empty or has lost every dispatcher. Never blocks.
    /// Which of them it is depends on the dispatchers.
    pub fn try_poll(&self) -> (polled: Polled) {
        fetch(&self.receiver)
    }
}

} // verus!
