//! A message bus spoken over WebSockets (and HTTP for plain request/response).
//!
//! Clients send requests; the server hands each request to the application, may echo it to
//! every client, and answers it with a reply that carries the request's id. The server also
//! broadcasts notifications, and writes an error message to every client when a frame cannot be
//! read as a request.
//!
//! This crate holds the bus's logic: the message model, the server's connection registry with
//! its broadcast, unicast and shutdown rules, the routing of incoming frames, the answering of
//! requests, and the client's side of the protocol. Sockets, tasks, and the JSON and MessagePack
//! encodings are left to the caller, which hands the library decoded frames and performs the
//! actions it returns.

use vstd::prelude::*;

pub mod channel;
pub mod client;
pub mod frame;
pub mod ids;
pub mod laws;
pub mod loopback;
pub mod message;
pub mod message_laws;
pub mod server;

verus! {

/// The bound that every message payload carried over the bus satisfies.
pub trait Message: Send + Clone {}

impl<T: Send + Clone> Message for T {}

} // verus!
