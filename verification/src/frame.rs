//! WebSocket frames as the bus sees them.

use vstd::prelude::*;

verus! {

/// One WebSocket frame. A text frame carries what its JSON text decoded to (`T`), a binary frame
/// what its MessagePack bytes decoded to; the other kinds carry their raw payload, and a close
/// frame's reason is not kept.
pub enum Frame<T> {
    Text(T),
    Binary(T),
    Ping(Vec<u8>),
    Pong(Vec<u8>),
    Close,
    Raw,
}

/// The payload that the server's keep-alive pings carry.
pub fn keepalive_payload() -> (payload: Vec<u8>)
    ensures
        payload@ == seq![1u8, 2u8, 3u8, 4u8],
{
    let mut payload: Vec<u8> = Vec::new();
    payload.push(1);
    payload.push(2);
    payload.push(3);
    payload.push(4);
    payload
}

} // verus!
