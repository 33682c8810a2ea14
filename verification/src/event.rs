//! What a wait hands back to its caller.

use vstd::prelude::*;
use crate::interest::Token;

verus! {

/// One readiness report: the value given at registration, and the flags of
/// what became ready.
#[derive(Clone, Copy, Debug, PartialEq, Eq, Structural)]
pub struct Event {
    pub flags: u32,
    pub data: u64,
}

impl Event {
    /// The token under which the resource of this event was registered.
    pub fn token(&self) -> (token: Token)
        ensures
            token.0 == self.data as usize,
    {
        Token(self.data as usize)
    }
}

/// The events of one wait, in the order in which their completions arrived.
#[derive(Debug)]
pub struct Events {
    events: Vec<Event>,
    capacity: usize,
}

impl View for Events {
    type V = Seq<Event>;

    closed spec fn view(&self) -> Seq<Event> {
        self.events@
    }
}

impl Events {
    /// The number of completions that one wait on the port is to take at
    /// most.
    pub closed spec fn spec_capacity(&self) -> usize {
        self.capacity
    }

    /// An empty collection for waits that take up to `cap` completions off
    /// the port at a time.
    pub fn with_capacity(cap: usize) -> (events: Events)
        ensures
            events@ == Seq::<Event>::empty(),
            events.capacity() == cap,
    {
        Events { events: Vec::with_capacity(cap), capacity: cap }
    }

    /// The number of completions that one wait on the port is to take at
    /// most.
    #[verifier::when_used_as_spec(spec_capacity)]
    pub fn capacity(&self) -> (cap: usize)
        ensures
            cap == self.capacity(),
    {
        self.capacity
    }

    /// The events, for a function that adds to them.
    pub fn as_mut_vec(&mut self) -> (list: &mut Vec<Event>)
        ensures
            list@ == old(self)@,
            final(self)@ == final(list)@,
            final(self).capacity() == old(self).capacity(),
    {
        &mut self.events
    }

    /// Adds an event at the end.
    pub fn push(&mut self, event: Event)
        ensures
            final(self)@ == old(self)@.push(event),
            final(self).capacity() == old(self).capacity(),
    {
        self.events.push(event);
    }

    /// Whether no event is held.
    pub fn is_empty(&self) -> (empty: bool)
        ensures
            empty == (self@.len() == 0),
    {
        self.events.len() == 0
    }

    /// The number of events held.
    pub fn len(&self) -> (len: usize)
        ensures
            len == self@.len(),
    {
        self.events.len()
    }

    /// The event at `idx`, if there is one.
    pub fn get(&self, idx: usize) -> (event: Option<Event>)
        ensures
            event == (if idx < self@.len() { Some(self@[idx as int]) } else { None }),
    {
        if idx < self.events.len() {
            Some(self.events[idx])
        } else {
            None
        }
    }

    /// Forgets every event.
    pub fn clear(&mut self)
        ensures
            final(self)@ == Seq::<Event>::empty(),
            final(self).capacity() == old(self).capacity(),
    {
        self.events.clear();
    }
}

} // verus!
