//! The server-side service logic: the request/response handler and the
//! subscription method, sharing one listener registry.
//!
//! The RPC transport decodes requests and encodes replies at its edge; it
//! hands this module plain values. A decode failure is reported here as
//! `None`, and the handler answers it with `MalformedRequest`, failing that
//! single call and nothing else.

use vstd::prelude::*;
use crate::registry::ListenerRegistry;
use crate::reply::make_reply;
use crate::reply::reply_message;

verus! {

/// The service's error taxonomy. `ConnectFailure` and `AcceptFailure` are
/// fatal to the role that observes them; `MalformedRequest` fails one call;
/// `DeliveryFailure` is contained in the broadcast pass and only ever shows
/// as eviction from the registry.
#[derive(Clone, Copy, Debug, PartialEq, Eq, Structural)]
pub enum ServiceError {
    ConnectFailure,
    MalformedRequest,
    DeliveryFailure,
    AcceptFailure,
}

/// The two fields of a request: a name and a numeric value.
pub struct RequestPayload {
    pub name: String,
    pub value: i32,
}

/// The composed reply to a request.
#[derive(Debug)]
pub struct ReplyPayload {
    pub message: String,
}

/// The server-side service state: the one process-wide listener registry,
/// shared (behind the caller's lock) by every session's handler and by the
/// broadcast pass.
pub struct HelloWorldImpl {
    pub event_listeners: ListenerRegistry,
}

impl HelloWorldImpl {
    /// A fresh service with an empty registry, built once before the accept
    /// loop starts.
    pub fn new() -> (s: HelloWorldImpl)
        ensures
            s.event_listeners@ == Seq::<u64>::empty(),
    {
        HelloWorldImpl { event_listeners: ListenerRegistry::new() }
    }

    /// The request/response method. A decoded request `(name, value)` is
    /// answered with exactly `"Hello {name}, I got {value}"`; a decode
    /// failure (`None`) fails this one call with `MalformedRequest` and
    /// produces no reply. Stateless: the registry is untouched.
    pub fn say_hello(&self, request: Option<&RequestPayload>) -> (r: Result<
        ReplyPayload,
        ServiceError,
    >)
        ensures
            match request {
                Some(req) => r matches Ok(rep) && rep.message@ == reply_message(
                    req.name@,
                    req.value as int,
                ),
                None => r matches Err(e) && e == ServiceError::MalformedRequest,
            },
    {
        match request {
            Some(req) => Ok(ReplyPayload { message: make_reply(req.name.as_str(), req.value) }),
            None => Err(ServiceError::MalformedRequest),
        }
    }

    /// The subscription method. A decoded listener handle is appended to the
    /// registry and acknowledged at once, with no reachability check and no
    /// deduplication; a decode failure fails the call with
    /// `MalformedRequest` and leaves the registry unchanged.
    pub fn subscribe_events(&mut self, listener: Option<u64>) -> (r: Result<(), ServiceError>)
        ensures
            match listener {
                Some(h) => {
                    &&& r matches Ok(u)
                    &&& final(self).event_listeners@ == old(self).event_listeners@.push(h)
                },
                None => {
                    &&& r matches Err(e) && e == ServiceError::MalformedRequest
                    &&& final(self).event_listeners@ == old(self).event_listeners@
                },
            },
    {
        match listener {
            Some(h) => {
                self.event_listeners.register(h);
                Ok(())
            },
            None => Err(ServiceError::MalformedRequest),
        }
    }
}

} // verus!
