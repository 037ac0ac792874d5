//! The subscribing client's local listener: the one capability it exposes to
//! the server, whose sole method accepts a notification message, records it,
//! and succeeds unconditionally.

use vstd::prelude::*;

verus! {

/// The subscribing client's listener implementation. It keeps every message
/// it was delivered, in arrival order.
pub struct EventListenerImpl {
    pub received: Vec<String>,
}

impl EventListenerImpl {
    /// A fresh listener that has received nothing.
    pub fn new() -> (l: EventListenerImpl)
        ensures
            l.received@ == Seq::<String>::empty(),
    {
        EventListenerImpl { received: Vec::new() }
    }

    /// Accepts one notification: records the message and succeeds
    /// unconditionally.
    pub fn on_event(&mut self, message: String)
        ensures
            final(self).received@ == old(self).received@.push(message),
    {
        self.received.push(message);
    }
}

} // verus!
