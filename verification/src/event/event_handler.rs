//! A hook through which an outer driver reacts to events that the engine has
//! already dealt with.

use super::Event;
use vstd::prelude::*;

verus! {

/// A caller's callback: it may change the data it is given and reads the
/// event.
///
/// Trusted: the callback is a boxed trait object, which the verifier cannot
/// look into, so the whole value is opaque to proofs.
#[verifier::external_body]
#[verifier::reject_recursive_types(T)]
pub struct RawCallback<T> {
    call: Box<dyn FnMut(&mut T, &Event)>,
}

impl<T> RawCallback<T> {
    /// Boxes `handler` (`Box::new`). Trusted; nothing is claimed of the
    /// result beyond its type.
    #[verifier::external_body]
    fn new<F>(handler: F) -> (callback: RawCallback<T>) where F: FnMut(&mut T, &Event) + 'static {
        RawCallback { call: Box::new(handler) }
    }

    /// Calls the boxed callback (`FnMut::call_mut`) once with `data` and
    /// `event`. Trusted; the callback is arbitrary caller code, so nothing is
    /// claimed of what it does to `data`. If it panics, the panic unwinds
    /// through the caller.
    #[verifier::external_body]
    fn invoke(&mut self, data: &mut T, event: &Event) {
        (self.call)(data, event)
    }
}

/// Holds at most one callback and calls it once per event it is stepped with.
#[verifier::reject_recursive_types(T)]
pub struct EventHandler<T> {
    callback: Option<RawCallback<T>>,
    delivered: Ghost<Seq<Event>>,
}

impl<T> EventHandler<T> {
    /// Whether a callback is set.
    pub closed spec fn has_callback(&self) -> bool {
        self.callback is Some
    }

    /// The events that were handed to a callback so far, oldest first.
    pub closed spec fn delivered(&self) -> Seq<Event> {
        self.delivered@
    }

    /// A handler without a callback, which has delivered nothing.
    pub fn new() -> (handler: EventHandler<T>)
        ensures
            !handler.has_callback(),
            handler.delivered() == Seq::<Event>::empty(),
    {
        EventHandler { callback: None, delivered: Ghost(Seq::empty()) }
    }

    /// Sets the callback, in place of any earlier one.
    pub fn set_callback<F>(&mut self, handler: F) where F: FnMut(&mut T, &Event) + 'static
        ensures
            final(self).has_callback(),
            final(self).delivered() == old(self).delivered(),
    {
        self.callback = Some(RawCallback::new(handler));
    }

    /// Hands `data` and `event` to the callback, once, and keeps the callback
    /// for the next event. What the callback makes of `data` is its own
    /// affair. Without a callback nothing is delivered and `data` is left as
    /// it is.
    pub fn step(&mut self, data: &mut T, event: &Event)
        ensures
            final(self).has_callback() == old(self).has_callback(),
            final(self).delivered() == if old(self).has_callback() {
                old(self).delivered().push(*event)
            } else {
                old(self).delivered()
            },
            !old(self).has_callback() ==> *final(data) == *old(data),
    {
        match self.callback.take() {
            Some(mut callback) => {
                callback.invoke(data, event);
                self.callback = Some(callback);
                proof {
                    self.delivered@ = self.delivered@.push(*event);
                }
            },
            None => {},
        }
    }
}

impl<T> Default for EventHandler<T> {
    fn default() -> (handler: EventHandler<T>)
        ensures
            !handler.has_callback(),
            handler.delivered() == Seq::<Event>::empty(),
    {
        EventHandler::new()
    }
}

} // verus!
