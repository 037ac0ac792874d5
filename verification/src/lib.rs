//! A capability-based publish/subscribe notification service, built as a
//! verified core: a request handler that composes a greeting reply, a
//! registry of subscribed listener handles, and the bookkeeping of a
//! broadcast pass that evicts listeners whose delivery failed.
//!
//! The RPC transport, socket handling and task scheduling live outside this
//! library; they hand it plain values (listener slot handles, delivery
//! outcomes) and apply the decisions it returns.

pub mod broadcast_pass;
pub mod client;
pub mod registry;
pub mod reply;
pub mod server;
pub mod subscribe_client;
pub mod threshold;
