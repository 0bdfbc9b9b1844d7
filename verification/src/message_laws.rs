//! What the operations on single messages are for, stated over what the operations themselves
//! may return.

use vstd::prelude::*;
use crate::channel::Bus;
use crate::client::{frame_action, frame_effect, ClientFrameAction, ClientView, PendingRequest};
use crate::frame::Frame;
use crate::message::Response;

verus! {

/// A reply is handed back with the id of the request it answers, unchanged, and with its
/// payload; no other kind of message is taken for a reply.
pub proof fn reply_keeps_the_request_id<Req, Resp>(
    r: Response<Req, Resp>,
    out: Option<(Resp, u128)>,
)
    requires
        call_ensures(Response::<Req, Resp>::reply, (r,), out),
    ensures
        out is Some <==> r is Reply,
        forall|request: u128, message: Resp, sender: Option<u128>|
            r == (Response::<Req, Resp>::Reply { request, message, sender }) ==> out == Some(
                (message, request),
            ),
{
}

/// The bus's messages for a subscriber are the payloads of the notifications and of every
/// reply, whatever request the reply answers; every other kind of message gives nothing.
pub proof fn bus_message_keeps_every_reply_and_notification<Req, Resp>(
    r: Response<Req, Resp>,
    out: Option<Resp>,
)
    requires
        call_ensures(Response::<Req, Resp>::bus_message, (r,), out),
    ensures
        out is Some <==> (r is Reply || r is Notify),
        forall|request: u128, message: Resp, sender: Option<u128>|
            r == (Response::<Req, Resp>::Reply { request, message, sender }) ==> out == Some(
                message,
            ),
        forall|message: Resp| r == Response::<Req, Resp>::Notify(message) ==> out == Some(message),
{
}

/// Notifications are the payloads of `Notify` messages, and of nothing else.
pub proof fn notification_keeps_only_notify<Req, Resp>(r: Response<Req, Resp>, out: Option<Resp>)
    requires
        call_ensures(Response::<Req, Resp>::notification, (r,), out),
    ensures
        out is Some <==> r is Notify,
        forall|message: Resp| r == Response::<Req, Resp>::Notify(message) ==> out == Some(message),
{
}

/// A copy of a message is the same kind of message, with the same ids, the same connection and
/// the same texts; its payload is a clone of the original's.
pub proof fn clone_keeps_ids_and_kind<Req: Clone, Resp: Clone>(
    r: Response<Req, Resp>,
    c: Response<Req, Resp>,
)
    requires
        call_ensures(Response::<Req, Resp>::clone, (&r,), c),
    ensures
        forall|request: u128, message: Resp, sender: Option<u128>|
            r == (Response::<Req, Resp>::Reply { request, message, sender }) ==> (c matches Response::Reply {
                request: r2,
                message: m2,
                sender: s2,
            } && r2 == request && s2 == sender && cloned(message, m2)),
        forall|message: Resp|
            r == Response::<Req, Resp>::Notify(message) ==> (c matches Response::Notify(m2)
                && cloned(message, m2)),
        forall|e: String| r == Response::<Req, Resp>::Error(e) ==> c == Response::<Req, Resp>::Error(e),
        forall|id: u128, message: Req|
            r == (Response::<Req, Resp>::Request { id, message }) ==> (c matches Response::Request {
                id: i2,
                message: m2,
            } && i2 == id && cloned(message, m2)),
        forall|id: u128, description: String|
            r == (Response::<Req, Resp>::InvalidRequest { id, description }) ==> c == (Response::<
                Req,
                Resp,
            >::InvalidRequest { id, description }),
{
}

/// A client that sent a request under `id` and waits for its reply takes the payload of a reply
/// to `id` as its answer, and nothing from a reply to another request.
pub proof fn waiting_request_takes_its_own_reply<Req, Resp>(
    pending: PendingRequest,
    r: Response<Req, Resp>,
    replied: Option<(Resp, u128)>,
    answer: Option<Resp>,
)
    requires
        call_ensures(Response::<Req, Resp>::reply, (r,), replied),
        replied is Some,
        call_ensures(PendingRequest::on_reply::<Resp>, (&pending, replied.unwrap().0, replied.unwrap().1), answer),
    ensures
        forall|message: Resp, sender: Option<u128>|
            r == (Response::<Req, Resp>::Reply { request: pending.id, message, sender }) ==> answer
                == Some(message),
        forall|request: u128, message: Resp, sender: Option<u128>|
            r == (Response::<Req, Resp>::Reply { request, message, sender }) && request != pending.id
                ==> answer is None,
{
}

/// The client's reader publishes every message of the bus that a text or binary frame carries,
/// whatever kind of message it is: the bus is offered exactly that message, once, and reading
/// goes on; nothing else changes.
pub proof fn every_bus_message_is_published<Req, Resp>(
    pre: ClientView<Req, Resp>,
    post: ClientView<Req, Resp>,
    bus_pre: Bus<Response<Req, Resp>>,
    bus_post: Bus<Response<Req, Resp>>,
    r: Response<Req, Resp>,
    binary: bool,
    reads_on: bool,
)
    requires
        frame_effect(
            pre,
            post,
            bus_pre,
            bus_post,
            Ok(if binary { Frame::Binary(Some(r)) } else { Frame::Text(Some(r)) }),
            reads_on,
        ),
    ensures
        reads_on,
        post == pre,
        bus_post.handle() == bus_pre.handle(),
        bus_post.log().len() == bus_pre.log().len() + 1,
        bus_post.log().subrange(0, bus_pre.log().len() as int) == bus_pre.log(),
        bus_post.log().last().0 == r,
{
    assert(bus_post.log().last() == bus_post.log()[bus_pre.log().len() as int]);
}

/// The reader's rule publishes the message of every text or binary frame that carries one,
/// whatever kind of message it is.
pub proof fn reader_rule_publishes_every_message<Req, Resp>(
    r: Response<Req, Resp>,
    binary: bool,
    action: ClientFrameAction<Req, Resp>,
)
    requires
        call_ensures(
            frame_action::<Req, Resp>,
            (Ok(if binary { Frame::Binary(Some(r)) } else { Frame::Text(Some(r)) }),),
            action,
        ),
    ensures
        action == ClientFrameAction::Publish(r),
{
}

} // verus!
