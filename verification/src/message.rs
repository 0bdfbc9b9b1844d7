//! The messages on the bus.

use vstd::prelude::*;
use crate::ids::{is_random_id, new_id};

verus! {

/// A request as clients send it to the server: an id the client chose, the request's payload,
/// and, once the server has it, the connection it came from (never put on the wire).
#[derive(Clone)]
pub struct Request<M> {
    pub id: u128,
    pub message: M,
    pub sender: Option<u128>,
}

impl<M> Request<M> {
    /// A request for `msg` under a fresh random id.
    pub fn new(msg: M, sender: Option<u128>) -> (req: Request<M>)
        ensures
            is_random_id(req.id),
            req.message == msg,
            req.sender == sender,
    {
        Request { id: new_id(), message: msg, sender }
    }
}

/// A message as the server sends it to clients.
#[allow(inconsistent_fields)]
pub enum Response<Req, Resp> {
    /// The server's answer to the request with id `request`; `sender` (never put on the wire)
    /// is the connection the request came from.
    Reply { request: u128, message: Resp, sender: Option<u128> },
    /// An event the server announces to every client.
    Notify(Resp),
    /// Text the server received and could not read as a request.
    Error(String),
    /// A request the server received, echoed to the bus.
    Request { id: u128, message: Req },
    /// A request whose envelope was read but whose payload was not; no `Error` is sent then.
    InvalidRequest { id: u128, description: String },
}

/// `b` is a copy of `a`: the same kind of message with the same ids and texts, its payloads
/// clones of `a`'s.
pub open spec fn response_copy<Req: Clone, Resp: Clone>(
    a: Response<Req, Resp>,
    b: Response<Req, Resp>,
) -> bool {
    match (a, b) {
        (
            Response::Reply { request: r1, message: m1, sender: s1 },
            Response::Reply { request: r2, message: m2, sender: s2 },
        ) => r1 == r2 && s1 == s2 && cloned(m1, m2),
        (Response::Notify(m1), Response::Notify(m2)) => cloned(m1, m2),
        (Response::Error(e1), Response::Error(e2)) => e1 == e2,
        (
            Response::Request { id: i1, message: m1 },
            Response::Request { id: i2, message: m2 },
        ) => i1 == i2 && cloned(m1, m2),
        (
            Response::InvalidRequest { id: i1, description: d1 },
            Response::InvalidRequest { id: i2, description: d2 },
        ) => i1 == i2 && d1 == d2,
        _ => false,
    }
}

impl<Req: Clone, Resp: Clone> Clone for Response<Req, Resp> {
    fn clone(&self) -> (copy: Self)
        ensures
            response_copy(*self, copy),
    {
        match self {
            Response::Reply { request, message, sender } => Response::Reply {
                request: *request,
                message: message.clone(),
                sender: *sender,
            },
            Response::Notify(m) => Response::Notify(m.clone()),
            Response::Error(e) => Response::Error(e.clone()),
            Response::Request { id, message } => Response::Request { id: *id, message: message.clone() },
            Response::InvalidRequest { id, description } => Response::InvalidRequest {
                id: *id,
                description: description.clone(),
            },
        }
    }
}

/// What `notification` keeps of a message: the payload of a `Notify`.
pub open spec fn notification_of<Req, Resp>(r: Response<Req, Resp>) -> Option<Resp> {
    match r {
        Response::Notify(m) => Some(m),
        _ => None,
    }
}

/// What `bus_message` keeps of a message: the payload of a `Notify` or of a `Reply`.
pub open spec fn payload_of<Req, Resp>(r: Response<Req, Resp>) -> Option<Resp> {
    match r {
        Response::Notify(m) => Some(m),
        Response::Reply { message, .. } => Some(message),
        _ => None,
    }
}

/// What `reply` keeps of a message: a `Reply`'s payload with the id of the request it answers.
pub open spec fn reply_of<Req, Resp>(r: Response<Req, Resp>) -> Option<(Resp, u128)> {
    match r {
        Response::Reply { request, message, .. } => Some((message, request)),
        _ => None,
    }
}

impl<Req, Resp> Response<Req, Resp> {
    /// The payload of a notification; `None` for every other kind of message.
    pub fn notification(self) -> (m: Option<Resp>)
        ensures
            m == notification_of(self),
    {
        match self {
            Response::Notify(m) => Some(m),
            _ => None,
        }
    }

    /// The payload of a notification or of a reply; `None` for every other kind of message.
    pub fn bus_message(self) -> (m: Option<Resp>)
        ensures
            m == payload_of(self),
    {
        match self {
            Response::Notify(m) => Some(m),
            Response::Reply { message, .. } => Some(message),
            _ => None,
        }
    }

    /// A reply's payload and the id of the request it answers; `None` for other messages.
    pub fn reply(self) -> (r: Option<(Resp, u128)>)
        ensures
            r == reply_of(self),
    {
        match self {
            Response::Reply { request, message, .. } => Some((message, request)),
            _ => None,
        }
    }
}

} // verus!
