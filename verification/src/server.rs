//! The server side of the bus: the registry of connected clients, and the rules by which
//! requests are handed to the application, echoed, answered, and by which the server broadcasts,
//! unicasts and shuts down.
//!
//! `ServerState` is the state that the server's tasks share; each method is one step that a task
//! takes while it holds the state. The view holds every channel handle the server sends through,
//! with the record of what was offered through it (see `channel`): the live ones, those of the
//! clients it removed, and the application's request channel; and it holds the listeners' stop
//! signals, with the records of the stop signals and of the answers to waiting HTTP callers given
//! so far. So the contracts say who was offered what.

use vstd::prelude::*;
use std::collections::HashMap;
use tokio::sync::mpsc::UnboundedSender;
use tokio::sync::oneshot;
use vstd::std_specs::iter::IteratorSpec;
use crate::channel::{complete, unbounded, Answer, Inlet, Outlet};
use crate::frame::{keepalive_payload, Frame};
use crate::ids::{is_random_id, new_id};
use crate::message::{response_copy, Request, Response};
use crate::Message;

verus! {

broadcast use vstd::std_specs::hash::group_hash_axioms;

/// What the server queues for one client's writer task.
pub enum SenderMsg<Req, Resp> {
    /// Close the connection.
    Drop,
    /// Answer a ping of the client with this payload.
    Pong(Vec<u8>),
    /// Send this message to the client.
    Message(Response<Req, Resp>),
}

/// `b` is a copy of `a`: a close request, a pong with the same bytes, or a copy of the same
/// message.
pub open spec fn sender_msg_copy<Req: Clone, Resp: Clone>(
    a: SenderMsg<Req, Resp>,
    b: SenderMsg<Req, Resp>,
) -> bool {
    match (a, b) {
        (SenderMsg::Drop, SenderMsg::Drop) => true,
        (SenderMsg::Pong(x), SenderMsg::Pong(y)) => x@ == y@,
        (SenderMsg::Message(m1), SenderMsg::Message(m2)) => response_copy(m1, m2),
        _ => false,
    }
}

impl<Req: Clone, Resp: Clone> Clone for SenderMsg<Req, Resp> {
    fn clone(&self) -> (copy: Self)
        ensures
            sender_msg_copy(*self, copy),
    {
        match self {
            SenderMsg::Drop => SenderMsg::Drop,
            SenderMsg::Pong(x) => {
                let y = x.clone();
                assert(y@ =~= x@);
                SenderMsg::Pong(y)
            },
            SenderMsg::Message(m) => SenderMsg::Message(m.clone()),
        }
    }
}

/// What a text frame from a client decoded to.
pub enum Incoming<Req> {
    /// The text is not a request envelope; the decoder's description of the problem.
    Malformed(String),
    /// The envelope carries an id, but its payload is not a request the server understands.
    Invalid { id: u128, description: String },
    /// A request with its id.
    Valid { id: u128, message: Req },
}

/// The means to answer one request: its id, the caller waiting over HTTP for the answer, and the
/// connection the request came from.
#[verifier::reject_recursive_types(Resp)]
pub struct RespondTo<Resp> {
    pub id: u128,
    pub direct: Option<oneshot::Sender<Resp>>,
    pub sender: Option<u128>,
}

/// Another name for `RespondTo`.
pub type Reply<Resp> = RespondTo<Resp>;

/// A request handed to the application, with the means to answer it.
#[verifier::reject_recursive_types(Resp)]
pub struct Requested<Req, Resp> {
    pub msg: Req,
    pub reply: RespondTo<Resp>,
}

/// The handle on a client's channel, as the server holds it.
pub type ClientOutlet<Req, Resp> = Outlet<SenderMsg<Req, Resp>>;

/// The abstract state of a server.
#[verifier::ext_equal]
#[verifier::reject_recursive_types(Req)]
#[verifier::reject_recursive_types(Resp)]
pub struct ServerView<Req, Resp> {
    /// The connected clients' channel handles, by connection id.
    pub connections: Map<u128, ClientOutlet<Req, Resp>>,
    /// The handles of the clients removed so far, in order, as they were when dropped.
    pub retired: Seq<ClientOutlet<Req, Resp>>,
    /// The stop signals of the listeners that run.
    pub listeners: Seq<oneshot::Sender<()>>,
    /// The records of the stop signals given so far, in order.
    pub stopped: Seq<Answer<()>>,
    /// Whether requests are still handed to the application.
    pub accepting: bool,
    /// The handle of the channel on which requests are handed to the application.
    pub requests: Outlet<Requested<Req, Resp>>,
    /// Whether requests and answers are broadcast to every client.
    pub broadcast_reqrep: bool,
    /// The records of the answers given to waiting HTTP callers so far, in order.
    pub answered: Seq<Answer<Resp>>,
}

/// The state that a server's tasks share.
#[verifier::reject_recursive_types(Req)]
#[verifier::reject_recursive_types(Resp)]
pub struct ServerState<Req, Resp> {
    connections: HashMap<u128, ClientOutlet<Req, Resp>>,
    abort_handles: Vec<oneshot::Sender<()>>,
    tx_req: Option<Outlet<Requested<Req, Resp>>>,
    broadcast_reqrep: bool,
    retired: Ghost<Seq<ClientOutlet<Req, Resp>>>,
    stopped: Ghost<Seq<Answer<()>>>,
    closed_requests: Ghost<Outlet<Requested<Req, Resp>>>,
    answered: Ghost<Seq<Answer<Resp>>>,
}

impl<Req, Resp> View for ServerState<Req, Resp> {
    type V = ServerView<Req, Resp>;

    closed spec fn view(&self) -> ServerView<Req, Resp> {
        ServerView {
            connections: self.connections@,
            retired: self.retired@,
            listeners: self.abort_handles@,
            stopped: self.stopped@,
            accepting: self.tx_req is Some,
            requests: match self.tx_req {
                Some(o) => o,
                None => self.closed_requests@,
            },
            broadcast_reqrep: self.broadcast_reqrep,
            answered: self.answered@,
        }
    }
}

/// The state of a server that was just made, handing requests to the application through `requests`.
pub open spec fn fresh_view<Req, Resp>(
    requests: Outlet<Requested<Req, Resp>>,
) -> ServerView<Req, Resp> {
    ServerView {
        connections: Map::empty(),
        retired: Seq::empty(),
        listeners: Seq::empty(),
        stopped: Seq::empty(),
        accepting: true,
        requests,
        broadcast_reqrep: false,
        answered: Seq::empty(),
    }
}

/// `o2` is `o1` after one more offer, of `msg`, that the channel took (`taken`) or refused.
pub open spec fn after_offer<T>(o1: Outlet<T>, o2: Outlet<T>, msg: T, taken: bool) -> bool {
    o2.handle() == o1.handle() && o2.log() == o1.log().push((msg, taken))
}

/// `o2` is `o1` after one more offer, of a copy of `msg`, that the channel took (`taken`) or
/// refused.
pub open spec fn after_copy<Req: Clone, Resp: Clone>(
    o1: ClientOutlet<Req, Resp>,
    o2: ClientOutlet<Req, Resp>,
    msg: SenderMsg<Req, Resp>,
    taken: bool,
) -> bool {
    &&& o2.handle() == o1.handle()
    &&& o2.log().len() == o1.log().len() + 1
    &&& o2.log().subrange(0, o1.log().len() as int) == o1.log()
    &&& sender_msg_copy(msg, o2.log()[o1.log().len() as int].0)
    &&& o2.log()[o1.log().len() as int].1 == taken
}

/// `o2` is `o1` after one more offer, of a close request (taken or refused).
pub open spec fn after_close<Req, Resp>(
    o1: ClientOutlet<Req, Resp>,
    o2: ClientOutlet<Req, Resp>,
) -> bool {
    &&& o2.handle() == o1.handle()
    &&& o2.log().len() == o1.log().len() + 1
    &&& o2.log().subrange(0, o1.log().len() as int) == o1.log()
    &&& o2.log()[o1.log().len() as int].0 == SenderMsg::<Req, Resp>::Drop
}

/// `o2` is `o1` after `msg` was offered and refused, and then a close request was offered.
pub open spec fn refused_then_closed<Req, Resp>(
    o1: ClientOutlet<Req, Resp>,
    o2: ClientOutlet<Req, Resp>,
    msg: SenderMsg<Req, Resp>,
) -> bool {
    &&& o2.handle() == o1.handle()
    &&& o2.log().len() == o1.log().len() + 2
    &&& o2.log().subrange(0, o1.log().len() as int) == o1.log()
    &&& o2.log()[o1.log().len() as int] == (msg, false)
    &&& o2.log()[o1.log().len() + 1int].0 == SenderMsg::<Req, Resp>::Drop
}

/// `o2` is `o1` after a copy of `msg` was offered and refused, and then a close request was
/// offered.
pub open spec fn refused_copy_then_closed<Req: Clone, Resp: Clone>(
    o1: ClientOutlet<Req, Resp>,
    o2: ClientOutlet<Req, Resp>,
    msg: SenderMsg<Req, Resp>,
) -> bool {
    &&& o2.handle() == o1.handle()
    &&& o2.log().len() == o1.log().len() + 2
    &&& o2.log().subrange(0, o1.log().len() as int) == o1.log()
    &&& sender_msg_copy(msg, o2.log()[o1.log().len() as int].0)
    &&& !o2.log()[o1.log().len() as int].1
    &&& o2.log()[o1.log().len() + 1int].0 == SenderMsg::<Req, Resp>::Drop
}

/// `remove_client`: if client `id` is connected, it leaves the registry and its handle, after a
/// close request was offered through it, is retired.
pub open spec fn removal_effect<Req, Resp>(
    pre: ServerView<Req, Resp>,
    post: ServerView<Req, Resp>,
    id: u128,
) -> bool {
    if pre.connections.contains_key(id) {
        &&& post == (ServerView {
            connections: pre.connections.remove(id),
            retired: pre.retired.push(post.retired.last()),
            ..pre
        })
        &&& after_close(pre.connections[id], post.retired.last())
    } else {
        post == pre
    }
}

/// `dispatch_request`: if the server still accepts requests, `req` is offered to the application's
/// channel and `ok` is whether it took it; otherwise nothing happens and `ok` is false.
pub open spec fn dispatch_effect<Req, Resp>(
    pre: ServerView<Req, Resp>,
    post: ServerView<Req, Resp>,
    req: Requested<Req, Resp>,
    ok: bool,
) -> bool {
    if pre.accepting {
        post == (ServerView { requests: post.requests, ..pre }) && after_offer(
            pre.requests,
            post.requests,
            req,
            ok,
        )
    } else {
        post == pre && !ok
    }
}

/// `send`: if client `id` is connected, `msg` is offered to its channel; a client whose channel
/// refused it leaves the registry (no close request is offered) and its handle is retired.
pub open spec fn send_effect<Req, Resp>(
    pre: ServerView<Req, Resp>,
    post: ServerView<Req, Resp>,
    id: u128,
    msg: Response<Req, Resp>,
) -> bool {
    if pre.connections.contains_key(id) {
        ||| {
            &&& post == (ServerView {
                connections: pre.connections.insert(id, post.connections[id]),
                ..pre
            })
            &&& after_offer(pre.connections[id], post.connections[id], SenderMsg::Message(msg), true)
        }
        ||| {
            &&& post == (ServerView {
                connections: pre.connections.remove(id),
                retired: pre.retired.push(post.retired.last()),
                ..pre
            })
            &&& after_offer(pre.connections[id], post.retired.last(), SenderMsg::Message(msg), false)
        }
    } else {
        post == pre
    }
}

/// `unicast`: if client `id` is connected, `msg` is offered to its channel only; a client whose
/// channel refused it is removed as `remove_client` removes it.
pub open spec fn unicast_effect<Req, Resp>(
    pre: ServerView<Req, Resp>,
    post: ServerView<Req, Resp>,
    id: u128,
    msg: SenderMsg<Req, Resp>,
) -> bool {
    if pre.connections.contains_key(id) {
        ||| {
            &&& post == (ServerView {
                connections: pre.connections.insert(id, post.connections[id]),
                ..pre
            })
            &&& after_offer(pre.connections[id], post.connections[id], msg, true)
        }
        ||| {
            &&& post == (ServerView {
                connections: pre.connections.remove(id),
                retired: pre.retired.push(post.retired.last()),
                ..pre
            })
            &&& refused_then_closed(pre.connections[id], post.retired.last(), msg)
        }
    } else {
        post == pre
    }
}

/// `order` lists the keys of `m`, each once.
pub open spec fn lists_keys<V>(order: Seq<u128>, m: Map<u128, V>) -> bool {
    order.no_duplicates() && order.to_set() == m.dom()
}

/// After a broadcast of `msg` from `pre`, client `k` (connected in `pre`) was offered a copy: if
/// its channel took it, it is still connected with that offer recorded; if not, it left the
/// registry, and its handle, after a close request, is among those retired since `pre`.
pub open spec fn served<Req: Clone, Resp: Clone>(
    pre: ServerView<Req, Resp>,
    post: ServerView<Req, Resp>,
    k: u128,
    msg: SenderMsg<Req, Resp>,
) -> bool {
    ||| post.connections.contains_key(k) && after_copy(
        pre.connections[k],
        post.connections[k],
        msg,
        true,
    )
    ||| !post.connections.contains_key(k) && exists|r: int|
        pre.retired.len() <= r < post.retired.len() && refused_copy_then_closed(
            pre.connections[k],
            #[trigger] post.retired[r],
            msg,
        )
}

/// A handle retired since `pre`, after a broadcast of `msg`, is that of a client connected in
/// `pre`, gone in `post`, whose channel refused the copy and was offered a close request.
pub open spec fn retired_by_broadcast<Req: Clone, Resp: Clone>(
    pre: ServerView<Req, Resp>,
    post: ServerView<Req, Resp>,
    o: ClientOutlet<Req, Resp>,
    msg: SenderMsg<Req, Resp>,
) -> bool {
    exists|k: u128|
        #[trigger] pre.connections.contains_key(k) && !post.connections.contains_key(k)
            && refused_copy_then_closed(pre.connections[k], o, msg)
}

/// `broadcast_internal`: every connected client is offered a copy of `msg` (see `served`); the
/// clients whose channels refused it are removed as `remove_client` removes them; nothing else
/// changes.
pub open spec fn broadcast_effect<Req: Clone, Resp: Clone>(
    pre: ServerView<Req, Resp>,
    post: ServerView<Req, Resp>,
    msg: SenderMsg<Req, Resp>,
) -> bool {
    &&& post == (ServerView { connections: post.connections, retired: post.retired, ..pre })
    &&& post.connections.dom().subset_of(pre.connections.dom())
    &&& pre.retired.len() <= post.retired.len()
    &&& post.retired.subrange(0, pre.retired.len() as int) == pre.retired
    &&& forall|k: u128| #[trigger] pre.connections.contains_key(k) ==> served(pre, post, k, msg)
    &&& forall|r: int|
        pre.retired.len() <= r < post.retired.len() ==> retired_by_broadcast(
            pre,
            post,
            #[trigger] post.retired[r],
            msg,
        )
}

/// `o` is the handle of a client connected in `pre`, after a close request was offered to it.
pub open spec fn closed_client<Req, Resp>(pre: ServerView<Req, Resp>, o: ClientOutlet<Req, Resp>) -> bool {
    exists|k: u128| #[trigger] pre.connections.contains_key(k) && after_close(pre.connections[k], o)
}

/// `a` records that the stop signal `tx` was given.
pub open spec fn signalled(tx: oneshot::Sender<()>, a: Answer<()>) -> bool {
    a.origin() == tx
}

/// `shutdown`: every connected client is offered a close request and leaves the registry, its
/// handle retired; every listener's stop signal is given; requests are no longer handed to the
/// application.
pub open spec fn shutdown_effect<Req, Resp>(
    pre: ServerView<Req, Resp>,
    post: ServerView<Req, Resp>,
) -> bool {
    &&& post == (ServerView {
        connections: Map::empty(),
        retired: post.retired,
        listeners: Seq::empty(),
        stopped: post.stopped,
        accepting: false,
        ..pre
    })
    &&& pre.retired.len() <= post.retired.len()
    &&& post.retired.subrange(0, pre.retired.len() as int) == pre.retired
    &&& forall|k: u128|
        #[trigger] pre.connections.contains_key(k) ==> exists|r: int|
            pre.retired.len() <= r < post.retired.len() && after_close(
                pre.connections[k],
                #[trigger] post.retired[r],
            )
    &&& forall|r: int|
        pre.retired.len() <= r < post.retired.len() ==> closed_client(pre, #[trigger] post.retired[r])
    &&& post.stopped.len() == pre.stopped.len() + pre.listeners.len()
    &&& post.stopped.subrange(0, pre.stopped.len() as int) == pre.stopped
    &&& forall|i: int|
        0 <= i < pre.listeners.len() ==> signalled(
            #[trigger] pre.listeners[i],
            post.stopped[pre.stopped.len() + i],
        )
}

/// The request handed to the application for `msg`: its payload, answerable under its id to
/// the connection it came from, with no HTTP caller waiting.
pub open spec fn requested_for<Req, Resp>(msg: Request<Req>) -> Requested<Req, Resp> {
    Requested {
        msg: msg.message,
        reply: RespondTo { id: msg.id, direct: None, sender: msg.sender },
    }
}

/// `handle_valid_msg`: with broadcasting on, the request (a clone of its payload, under its id)
/// is first broadcast to every client; then it is dispatched to the application.
pub open spec fn valid_msg_effect<Req: Clone, Resp: Clone>(
    pre: ServerView<Req, Resp>,
    post: ServerView<Req, Resp>,
    msg: Request<Req>,
    ok: bool,
) -> bool {
    exists|mid: ServerView<Req, Resp>, copy: Req|
        #[trigger] valid_msg_steps(pre, post, msg, ok, mid, copy)
}

/// `valid_msg_effect`, with the state between the two steps and the payload's clone.
pub open spec fn valid_msg_steps<Req: Clone, Resp: Clone>(
    pre: ServerView<Req, Resp>,
    post: ServerView<Req, Resp>,
    msg: Request<Req>,
    ok: bool,
    mid: ServerView<Req, Resp>,
    copy: Req,
) -> bool {
    &&& if pre.broadcast_reqrep {
        &&& cloned(msg.message, copy)
        &&& broadcast_effect(
            pre,
            mid,
            SenderMsg::Message(Response::Request { id: msg.id, message: copy }),
        )
    } else {
        mid == pre
    }
    &&& dispatch_effect(mid, post, requested_for::<Req, Resp>(msg), ok)
}

/// The message that tells the bus a text could not be read as a request.
pub open spec fn rejection<Req, Resp>(inc: Incoming<Req>) -> Response<Req, Resp> {
    match inc {
        Incoming::Malformed(e) => Response::Error(e),
        Incoming::Invalid { id, description } => Response::InvalidRequest { id, description },
        Incoming::Valid { .. } => arbitrary(),
    }
}

/// `handle_text_message`: a malformed text makes the server broadcast an `Error`, a request
/// with an unreadable payload an `InvalidRequest` under its id (and no `Error`); both keep the
/// connection open. A valid request, stamped with the connection it came from, is handled as
/// `handle_valid_msg` handles it.
pub open spec fn text_effect<Req: Clone, Resp: Clone>(
    pre: ServerView<Req, Resp>,
    post: ServerView<Req, Resp>,
    inc: Incoming<Req>,
    client_id: u128,
    ok: bool,
) -> bool {
    match inc {
        Incoming::Valid { id, message } => valid_msg_effect(
            pre,
            post,
            Request { id, message, sender: Some(client_id) },
            ok,
        ),
        _ => ok && broadcast_effect(pre, post, SenderMsg::Message(rejection::<Req, Resp>(inc))),
    }
}

/// `handle_rx`: a text or binary frame is handled as `handle_text_message` handles what it
/// decoded to; a ping is answered by offering a pong with its payload through the client's own
/// handle (`tx_pre` before, `tx_post` after), and the connection stays open if the channel took
/// it; a close frame or a read error ends the connection; other frames are ignored.
pub open spec fn rx_effect<Req: Clone, Resp: Clone>(
    pre: ServerView<Req, Resp>,
    post: ServerView<Req, Resp>,
    client_id: u128,
    frame: Result<Frame<Incoming<Req>>, ()>,
    tx_pre: ClientOutlet<Req, Resp>,
    tx_post: ClientOutlet<Req, Resp>,
    ok: bool,
) -> bool {
    match frame {
        Ok(Frame::Text(inc)) => text_effect(pre, post, inc, client_id, ok) && tx_post == tx_pre,
        Ok(Frame::Binary(inc)) => text_effect(pre, post, inc, client_id, ok) && tx_post == tx_pre,
        Ok(Frame::Ping(data)) => post == pre && after_offer(
            tx_pre,
            tx_post,
            SenderMsg::Pong(data),
            ok,
        ),
        Ok(Frame::Close) => post == pre && tx_post == tx_pre && !ok,
        Ok(_) => post == pre && tx_post == tx_pre && ok,
        Err(_) => post == pre && tx_post == tx_pre && !ok,
    }
}

/// `handle_http_request`: the request gets a fresh random id; it is broadcast to every client
/// under that id, whatever the broadcasting setting; then a clone of it, answerable to the
/// waiting caller `direct` and to no connection, is dispatched to the application.
pub open spec fn http_effect<Req: Clone, Resp: Clone>(
    pre: ServerView<Req, Resp>,
    post: ServerView<Req, Resp>,
    request: Req,
    direct: oneshot::Sender<Resp>,
    ok: bool,
) -> bool {
    exists|id: u128, copy: Req, mid: ServerView<Req, Resp>|
        #[trigger] http_steps(pre, post, request, direct, ok, id, copy, mid)
}

/// `http_effect`, with the request's id, its clone and the state between the two steps.
pub open spec fn http_steps<Req: Clone, Resp: Clone>(
    pre: ServerView<Req, Resp>,
    post: ServerView<Req, Resp>,
    request: Req,
    direct: oneshot::Sender<Resp>,
    ok: bool,
    id: u128,
    copy: Req,
    mid: ServerView<Req, Resp>,
) -> bool {
    &&& is_random_id(id)
    &&& cloned(request, copy)
    &&& broadcast_effect(pre, mid, SenderMsg::Message(Response::Request { id, message: request }))
    &&& dispatch_effect(
        mid,
        post,
        Requested { msg: copy, reply: RespondTo { id, direct: Some(direct), sender: None } },
        ok,
    )
}

/// The reply that answers, with `resp`, the request behind `reply`: it carries the request's id.
pub open spec fn reply_to<Req, Resp>(reply: RespondTo<Resp>, resp: Resp) -> Response<Req, Resp> {
    Response::Reply { request: reply.id, message: resp, sender: reply.sender }
}

/// `a` records that the waiting caller's channel `tx` was given a clone of `resp`.
pub open spec fn answered_with<Resp: Clone>(tx: oneshot::Sender<Resp>, a: Answer<Resp>, resp: Resp) -> bool {
    a.origin() == tx && cloned(resp, a.value())
}

/// A caller waiting over HTTP, if there is one, is given a clone of `resp`, which is recorded
/// among the answers given.
pub open spec fn direct_effect<Req, Resp: Clone>(
    pre: ServerView<Req, Resp>,
    post: ServerView<Req, Resp>,
    direct: Option<oneshot::Sender<Resp>>,
    resp: Resp,
) -> bool {
    match direct {
        Some(tx) => {
            &&& post == (ServerView { answered: pre.answered.push(post.answered.last()), ..pre })
            &&& answered_with(tx, post.answered.last(), resp)
        },
        None => post == pre,
    }
}

/// `answer_unicast`: a waiting HTTP caller gets a clone of the answer; the reply goes to the
/// connection the request came from, if it came from one, as `unicast` sends it.
pub open spec fn unicast_answer_effect<Req: Clone, Resp: Clone>(
    pre: ServerView<Req, Resp>,
    post: ServerView<Req, Resp>,
    reply: RespondTo<Resp>,
    resp: Resp,
) -> bool {
    exists|mid: ServerView<Req, Resp>| #[trigger] unicast_answer_steps(pre, post, reply, resp, mid)
}

/// `unicast_answer_effect`, with the state between the two steps.
pub open spec fn unicast_answer_steps<Req: Clone, Resp: Clone>(
    pre: ServerView<Req, Resp>,
    post: ServerView<Req, Resp>,
    reply: RespondTo<Resp>,
    resp: Resp,
    mid: ServerView<Req, Resp>,
) -> bool {
    &&& direct_effect(pre, mid, reply.direct, resp)
    &&& match reply.sender {
        Some(s) => unicast_effect(mid, post, s, SenderMsg::Message(reply_to(reply, resp))),
        None => post == mid,
    }
}

/// `answer_broadcast`: a waiting HTTP caller gets a clone of the answer; the reply is broadcast
/// to every client.
pub open spec fn broadcast_answer_effect<Req: Clone, Resp: Clone>(
    pre: ServerView<Req, Resp>,
    post: ServerView<Req, Resp>,
    reply: RespondTo<Resp>,
    resp: Resp,
) -> bool {
    exists|mid: ServerView<Req, Resp>|
        #[trigger] broadcast_answer_steps(pre, post, reply, resp, mid)
}

/// `broadcast_answer_effect`, with the state between the two steps.
pub open spec fn broadcast_answer_steps<Req: Clone, Resp: Clone>(
    pre: ServerView<Req, Resp>,
    post: ServerView<Req, Resp>,
    reply: RespondTo<Resp>,
    resp: Resp,
    mid: ServerView<Req, Resp>,
) -> bool {
    &&& direct_effect(pre, mid, reply.direct, resp)
    &&& broadcast_effect(mid, post, SenderMsg::Message(reply_to(reply, resp)))
}

/// `answer`: as `answer_broadcast` with broadcasting on, as `answer_unicast` with it off.
pub open spec fn answer_effect<Req: Clone, Resp: Clone>(
    pre: ServerView<Req, Resp>,
    post: ServerView<Req, Resp>,
    reply: RespondTo<Resp>,
    resp: Resp,
) -> bool {
    if pre.broadcast_reqrep {
        broadcast_answer_effect(pre, post, reply, resp)
    } else {
        unicast_answer_effect(pre, post, reply, resp)
    }
}

/// The keys of the entries that a map's iterator yields, in order.
spec fn keys_of<V>(entries: Seq<(&u128, &V)>) -> Seq<u128> {
    entries.map_values(|p: (&u128, &V)| *p.0)
}

/// The entries that a map's iterator yields list the map's keys, each once.
proof fn lemma_iteration_lists_keys<V>(entries: Seq<(&u128, &V)>, m: Map<u128, V>)
    requires
        entries.no_duplicates(),
        forall|i: int| 0 <= i < entries.len() ==> m.contains_key(*entries[i].0) && m[*entries[i].0] == *entries[i].1,
        forall|k: u128| #[trigger] m.contains_key(k) ==> entries.contains((&k, &m[k])),
    ensures
        lists_keys(keys_of(entries), m),
        keys_of(entries).len() == entries.len(),
        forall|i: int| 0 <= i < entries.len() ==> keys_of(entries)[i] == *entries[i].0,
{
    let order = keys_of(entries);
    assert forall|i: int, j: int| 0 <= i < order.len() && 0 <= j < order.len() && i != j implies order[i] != order[j] by {
        if order[i] == order[j] {
            assert(entries[i] == entries[j]);
        }
    }
    assert forall|k: u128| order.to_set().contains(k) <==> m.dom().contains(k) by {
        if m.dom().contains(k) {
            assert(entries.contains((&k, &m[k])));
            let i = choose|i: int| 0 <= i < entries.len() && entries[i] == (&k, &m[k]);
            assert(order[i] == k);
        }
        if order.to_set().contains(k) {
            let i = choose|i: int| 0 <= i < order.len() && order[i] == k;
            assert(m.contains_key(*entries[i].0));
        }
    }
    assert(order.to_set() =~= m.dom());
}


impl<Req: Message, Resp: Message> ServerState<Req, Resp> {
    /// A server with no clients, broadcasting of requests and answers off, and the receiving end
    /// of the channel on which it hands requests to the application.
    pub fn new() -> (r: (Self, Inlet<Requested<Req, Resp>>))
        ensures
            r.0@ == fresh_view(r.0@.requests),
            r.0@.requests.log() == Seq::<(Requested<Req, Resp>, bool)>::empty(),
            r.1.paired() == r.0@.requests.handle(),
    {
        let (tx_req, rx_req) = unbounded();
        let requests = Outlet::new(tx_req);
        let ghost first = requests;
        let state = ServerState {
            connections: HashMap::new(),
            abort_handles: Vec::new(),
            tx_req: Some(requests),
            broadcast_reqrep: false,
            retired: Ghost(Seq::empty()),
            stopped: Ghost(Seq::empty()),
            closed_requests: Ghost(first),
            answered: Ghost(Seq::empty()),
        };
        (state, rx_req)
    }

    /// Sets whether requests and answers are broadcast to every client by default.
    pub fn enable_broadcast_reqrep(&mut self, enable_reqrep: bool)
        ensures
            final(self)@ == (ServerView { broadcast_reqrep: enable_reqrep, ..old(self)@ }),
    {
        self.broadcast_reqrep = enable_reqrep;
    }

    /// Whether client `id` is connected.
    pub fn is_connected(&self, id: u128) -> (connected: bool)
        ensures
            connected == self@.connections.contains_key(id),
    {
        self.connections.contains_key(&id)
    }

    /// Keeps the stop signal of a listener, to be given at shutdown.
    pub fn add_listener(&mut self, cancel: oneshot::Sender<()>)
        ensures
            final(self)@ == (ServerView { listeners: old(self)@.listeners.push(cancel), ..old(self)@ }),
    {
        self.abort_handles.push(cancel);
    }

    /// Registers a client's channel under a fresh connection id, and returns the id.
    pub fn register_sender(&mut self, tx: UnboundedSender<SenderMsg<Req, Resp>>) -> (id: u128)
        ensures
            is_random_id(id),
            final(self)@ == (ServerView {
                connections: old(self)@.connections.insert(id, final(self)@.connections[id]),
                ..old(self)@
            }),
            final(self)@.connections[id].handle() == tx,
            final(self)@.connections[id].log().len() == 0,
    {
        let id = new_id();
        self.connections.insert(id, Outlet::new(tx));
        id
    }

    /// Registers a client that just connected: makes the channel on which the server queues
    /// messages for it, registers a handle on that channel under a fresh connection id, and
    /// returns the id with another handle on the channel and its receiving half.
    pub fn accept_client(&mut self) -> (accepted: (
        u128,
        ClientOutlet<Req, Resp>,
        Inlet<SenderMsg<Req, Resp>>,
    ))
        ensures
            is_random_id(accepted.0),
            final(self)@ == (ServerView {
                connections: old(self)@.connections.insert(
                    accepted.0,
                    final(self)@.connections[accepted.0],
                ),
                ..old(self)@
            }),
            final(self)@.connections[accepted.0] == accepted.1,
            accepted.1.log().len() == 0,
            accepted.2.paired() == accepted.1.handle(),
    {
        let (tx_resp, rx_resp) = unbounded();
        let id = new_id();
        let handle = Outlet::new(tx_resp);
        let registered = handle.clone();
        self.connections.insert(id, registered);
        (id, handle, rx_resp)
    }

    /// Removes the client `id` from the registry and offers its channel a close request.
    pub fn disconnect_sender(&mut self, id: u128)
        ensures
            removal_effect(old(self)@, final(self)@, id),
    {
        self.remove_client(id);
    }

    /// Removes the client `id` from the registry and, if it was there, offers its channel a close
    /// request.
    pub fn remove_client(&mut self, id: u128)
        ensures
            removal_effect(old(self)@, final(self)@, id),
    {
        match self.connections.remove(&id) {
            Some(mut client) => {
                let ghost before = client;
                let _ = client.send(SenderMsg::Drop);
                proof {
                    assert(client.log().subrange(0, before.log().len() as int) =~= before.log());
                    self.retired@ = self.retired@.push(client);
                }
            },
            None => {
                assert(self.connections@ =~= old(self).connections@);
            },
        }
    }

    /// Hands a request to the application; `true` when the application's channel took it.
    pub fn dispatch_request(&mut self, req: Requested<Req, Resp>) -> (ok: bool)
        ensures
            dispatch_effect(old(self)@, final(self)@, req, ok),
    {
        match self.tx_req.take() {
            Some(mut requests) => {
                let ok = requests.send(req);
                self.tx_req = Some(requests);
                ok
            },
            None => false,
        }
    }

    /// Sends `msg` to client `id` if it is connected; a client whose channel refuses it leaves
    /// the registry.
    pub fn send(&mut self, id: u128, msg: Response<Req, Resp>)
        ensures
            send_effect(old(self)@, final(self)@, id, msg),
    {
        match self.connections.remove(&id) {
            Some(mut con) => {
                let taken = con.send(SenderMsg::Message(msg));
                if taken {
                    self.connections.insert(id, con);
                    assert(self.connections@ =~= old(self).connections@.insert(id, con));
                } else {
                    proof {
                        self.retired@ = self.retired@.push(con);
                    }
                }
            },
            None => {
                assert(self.connections@ =~= old(self).connections@);
            },
        }
    }

    /// Sends `msg` to client `id` only, if it is connected; a client whose channel refuses it is
    /// removed as `remove_client` removes it.
    pub fn unicast(&mut self, id: u128, msg: SenderMsg<Req, Resp>)
        ensures
            unicast_effect(old(self)@, final(self)@, id, msg),
    {
        match self.connections.remove(&id) {
            Some(mut con) => {
                let ghost before = con;
                let taken = con.send(msg);
                if taken {
                    self.connections.insert(id, con);
                    assert(self.connections@ =~= old(self).connections@.insert(id, con));
                } else {
                    let _ = con.send(SenderMsg::Drop);
                    proof {
                        assert(con.log().subrange(0, before.log().len() as int) =~= before.log());
                        self.retired@ = self.retired@.push(con);
                    }
                }
            },
            None => {
                assert(self.connections@ =~= old(self).connections@);
            },
        }
    }

    /// The ids of the connected clients, each once.
    fn connection_ids(&self) -> (ids: Vec<u128>)
        ensures
            lists_keys(ids@, self@.connections),
    {
        let ghost conns = self.connections@;
        let mut ids: Vec<u128> = Vec::new();
        let iter = self.connections.iter();
        let ghost full = iter.remaining();
        proof {
            assert(full == vstd::std_specs::hash::spec_hash_map_iter(&self.connections).remaining());
            lemma_iteration_lists_keys(full, conns);
        }
        for (id, _con) in it: iter
            invariant
                it.seq() == full,
                keys_of(full).len() == full.len(),
                forall|i: int| 0 <= i < full.len() ==> keys_of(full)[i] == *full[i].0,
                ids@ == keys_of(full).subrange(0, it.index() as int),
        {
            ids.push(*id);
            proof {
                assert(ids@ =~= keys_of(full).subrange(0, it.index() + 1));
            }
        }
        proof {
            assert(ids@ =~= keys_of(full));
        }
        ids
    }

    /// Offers a copy of `msg` to every connected client's channel; removes, as `remove_client`
    /// removes them, the clients whose channels refused it.
    pub fn broadcast_internal(&mut self, msg: SenderMsg<Req, Resp>)
        ensures
            broadcast_effect(old(self)@, final(self)@, msg),
    {
        let ids = self.connection_ids();
        let ghost pre = self@;
        let ghost base = pre.retired.len();
        let mut i: usize = 0;
        while i < ids.len()
            invariant
                lists_keys(ids@, pre.connections),
                i <= ids.len(),
                base == pre.retired.len(),
                self@ == (ServerView {
                    connections: self@.connections,
                    retired: self@.retired,
                    ..pre
                }),
                base <= self@.retired.len(),
                self@.retired.subrange(0, base as int) == pre.retired,
                self@.connections.dom().subset_of(pre.connections.dom()),
                forall|j: int|
                    i <= j < ids@.len() ==> self@.connections.contains_key(#[trigger] ids@[j])
                        && self@.connections[ids@[j]] == pre.connections[ids@[j]],
                forall|j: int| 0 <= j < i ==> served(pre, self@, #[trigger] ids@[j], msg),
                forall|r: int|
                    base <= r < self@.retired.len() ==> retired_by_broadcast(
                        pre,
                        self@,
                        #[trigger] self@.retired[r],
                        msg,
                    ),
            decreases ids.len() - i,
        {
            let k = ids[i];
            let ghost cur = self@;
            proof {
                assert(ids@[i as int] == k);
            }
            match self.connections.remove(&k) {
                Some(mut con) => {
                    let ghost before = con;
                    let copy = msg.clone();
                    let taken = con.send(copy);
                    proof {
                        assert(before == pre.connections[k]);
                        assert(con.log().subrange(0, before.log().len() as int) =~= before.log());
                    }
                    if taken {
                        self.connections.insert(k, con);
                        proof {
                            assert(after_copy(pre.connections[k], con, msg, true));
                            assert(self@.connections[k] == con);
                        }
                    } else {
                        let ghost refused = con;
                        let _ = con.send(SenderMsg::Drop);
                        proof {
                            assert(con.log().subrange(0, refused.log().len() as int) =~= refused.log());
                            assert(con.log().subrange(0, before.log().len() as int) =~= before.log());
                            assert(refused_copy_then_closed(pre.connections[k], con, msg));
                            self.retired@ = self.retired@.push(con);
                        }
                    }
                    proof {
                        assert(self@.retired.subrange(0, base as int) =~= pre.retired);
                        assert forall|j: int| 0 <= j < i + 1 implies served(pre, self@, #[trigger] ids@[j], msg) by {
                            if j < i {
                                assert(ids@[j] != k);
                                assert(served(pre, cur, ids@[j], msg));
                                if !cur.connections.contains_key(ids@[j]) {
                                    let r = choose|r: int| pre.retired.len() <= r < cur.retired.len()
                                        && refused_copy_then_closed(pre.connections[ids@[j]], #[trigger] cur.retired[r], msg);
                                    assert(self@.retired[r] == cur.retired[r]);
                                }
                            } else {
                                if !taken {
                                    assert(self@.retired[cur.retired.len() as int] == con);
                                }
                            }
                        }
                        assert forall|j: int| i + 1 <= j < ids@.len() implies self@.connections.contains_key(#[trigger] ids@[j])
                            && self@.connections[ids@[j]] == pre.connections[ids@[j]] by {
                            assert(ids@[j] != k);
                        }
                        assert forall|r: int| base <= r < self@.retired.len() implies retired_by_broadcast(
                            pre, self@, #[trigger] self@.retired[r], msg) by {
                            if r < cur.retired.len() {
                                assert(self@.retired[r] == cur.retired[r]);
                                assert(retired_by_broadcast(pre, cur, cur.retired[r], msg));
                                let kk = choose|kk: u128| #[trigger] pre.connections.contains_key(kk)
                                    && !cur.connections.contains_key(kk)
                                    && refused_copy_then_closed(pre.connections[kk], cur.retired[r], msg);
                                assert(!self@.connections.contains_key(kk));
                            } else {
                                assert(pre.connections.contains_key(k));
                            }
                        }
                    }
                },
                None => {
                    proof {
                        assert(false);
                    }
                },
            }
            i += 1;
        }
        proof {
            assert forall|k: u128| #[trigger] pre.connections.contains_key(k) implies served(pre, self@, k, msg) by {
                assert(ids@.to_set().contains(k));
                let j = choose|j: int| 0 <= j < ids@.len() && ids@[j] == k;
                assert(served(pre, self@, ids@[j], msg));
            }
        }
    }

    /// Broadcasts a notification to every client.
    pub fn broadcast(&mut self, resp: Resp)
        ensures
            broadcast_effect(old(self)@, final(self)@, SenderMsg::Message(Response::Notify(resp))),
    {
        self.broadcast_internal(SenderMsg::Message(Response::Notify(resp)));
    }

    /// Shuts the server down: offers every client's channel a close request and empties the
    /// registry, gives every listener its stop signal, and stops handing requests to the
    /// application.
    pub fn shutdown(&mut self)
        ensures
            shutdown_effect(old(self)@, final(self)@),
    {
        let ids = self.connection_ids();
        let ghost pre = self@;
        let ghost base = pre.retired.len();
        let mut i: usize = 0;
        while i < ids.len()
            invariant
                lists_keys(ids@, pre.connections),
                i <= ids.len(),
                base == pre.retired.len(),
                self@ == (ServerView {
                    connections: self@.connections,
                    retired: self@.retired,
                    ..pre
                }),
                base <= self@.retired.len(),
                self@.retired.subrange(0, base as int) == pre.retired,
                forall|j: int|
                    i <= j < ids@.len() ==> self@.connections.contains_key(#[trigger] ids@[j])
                        && self@.connections[ids@[j]] == pre.connections[ids@[j]],
                forall|j: int|
                    0 <= j < i ==> exists|r: int|
                        base <= r < self@.retired.len() && after_close(
                            pre.connections[#[trigger] ids@[j]],
                            #[trigger] self@.retired[r],
                        ),
                forall|r: int|
                    base <= r < self@.retired.len() ==> closed_client(pre, #[trigger] self@.retired[r]),
            decreases ids.len() - i,
        {
            let k = ids[i];
            let ghost cur = self@;
            proof {
                assert(ids@[i as int] == k);
            }
            match self.connections.remove(&k) {
                Some(mut con) => {
                    let ghost before = con;
                    let _ = con.send(SenderMsg::Drop);
                    proof {
                        assert(con.log().subrange(0, before.log().len() as int) =~= before.log());
                        self.retired@ = self.retired@.push(con);
                        assert(self@.retired.subrange(0, base as int) =~= pre.retired);
                        assert forall|j: int| 0 <= j < i + 1 implies exists|r: int|
                            base <= r < self@.retired.len() && after_close(
                                pre.connections[#[trigger] ids@[j]],
                                #[trigger] self@.retired[r],
                            ) by {
                            if j < i {
                                let r = choose|r: int| base <= r < cur.retired.len() && after_close(
                                    pre.connections[ids@[j]], #[trigger] cur.retired[r]);
                                assert(self@.retired[r] == cur.retired[r]);
                            } else {
                                assert(self@.retired[cur.retired.len() as int] == con);
                            }
                        }
                        assert forall|j: int| i + 1 <= j < ids@.len() implies self@.connections.contains_key(#[trigger] ids@[j])
                            && self@.connections[ids@[j]] == pre.connections[ids@[j]] by {
                            assert(ids@[j] != k);
                        }
                        assert forall|r: int| base <= r < self@.retired.len() implies closed_client(
                            pre, #[trigger] self@.retired[r]) by {
                            if r < cur.retired.len() {
                                assert(self@.retired[r] == cur.retired[r]);
                                assert(closed_client(pre, cur.retired[r]));
                            } else {
                                assert(pre.connections.contains_key(k));
                            }
                        }
                    }
                },
                None => {
                    proof {
                        assert(false);
                    }
                },
            }
            i += 1;
        }
        self.connections.clear();
        let ghost mid = self@;
        let mut handles: Vec<oneshot::Sender<()>> = Vec::new();
        std::mem::swap(&mut handles, &mut self.abort_handles);
        let total = handles.len();
        let ghost ls = handles@;
        let ghost sbase = pre.stopped.len();
        let mut n: usize = 0;
        while handles.len() > 0
            invariant
                ls == pre.listeners,
                ls.len() == total,
                sbase == pre.stopped.len(),
                n + handles@.len() == ls.len(),
                handles@ == ls.subrange(n as int, ls.len() as int),
                self.stopped@.len() == sbase + n,
                self.stopped@.subrange(0, sbase as int) == pre.stopped,
                forall|j: int| 0 <= j < n ==> signalled(#[trigger] ls[j], self.stopped@[sbase + j]),
                self.connections@ == Map::<u128, ClientOutlet<Req, Resp>>::empty(),
                self.abort_handles@ == Seq::<oneshot::Sender<()>>::empty(),
                self.retired@ == mid.retired,
                self.broadcast_reqrep == pre.broadcast_reqrep,
                self.answered@ == pre.answered,
                self@.accepting == pre.accepting,
                self@.requests == pre.requests,
            decreases handles.len(),
        {
            let h = handles.remove(0);
            proof {
                assert(h == ls[n as int]);
            }
            let given = complete(h, ());
            proof {
                self.stopped@ = self.stopped@.push(given);
                assert(self.stopped@.subrange(0, sbase as int) =~= pre.stopped);
                assert(handles@ =~= ls.subrange(n + 1, ls.len() as int));
            }
            n += 1;
        }
        match self.tx_req.take() {
            Some(requests) => {
                proof {
                    self.closed_requests@ = requests;
                }
            },
            None => {},
        }
        proof {
            assert(self@.listeners =~= Seq::<oneshot::Sender<()>>::empty());
            assert forall|k: u128| #[trigger] pre.connections.contains_key(k) implies exists|r: int|
                pre.retired.len() <= r < self@.retired.len() && after_close(
                    pre.connections[k],
                    #[trigger] self@.retired[r],
                ) by {
                assert(ids@.to_set().contains(k));
                let j = choose|j: int| 0 <= j < ids@.len() && ids@[j] == k;
                assert(ids@[j] == k);
            }
            assert(self@.requests == pre.requests);
            assert(pre.retired.len() <= self@.retired.len());
            assert(self@.retired.subrange(0, pre.retired.len() as int) == pre.retired);
            assert(self@.retired == mid.retired);
            assert(self@.stopped.len() == pre.stopped.len() + pre.listeners.len());
            assert(forall|i: int|
                0 <= i < pre.listeners.len() ==> signalled(
                    #[trigger] pre.listeners[i],
                    self@.stopped[pre.stopped.len() + i],
                ));
            assert(self@.stopped.subrange(0, pre.stopped.len() as int) == pre.stopped);
            assert(self@ == (ServerView {
                connections: Map::empty(),
                retired: self@.retired,
                listeners: Seq::empty(),
                stopped: self@.stopped,
                accepting: false,
                ..pre
            }));
        }
    }

    /// Handles a request that was read: with broadcasting on it is first echoed to every
    /// client; then it is dispatched to the application. `false` when the application no longer
    /// takes requests.
    pub fn handle_valid_msg(&mut self, msg: Request<Req>) -> (ok: bool)
        ensures
            valid_msg_effect(old(self)@, final(self)@, msg, ok),
    {
        let ghost pre = self@;
        let ghost spec_msg = msg;
        let ghost mut copy = msg.message;
        let id = msg.id;
        if self.broadcast_reqrep {
            let echoed = msg.message.clone();
            proof {
                copy = echoed;
            }
            self.broadcast_internal(SenderMsg::Message(Response::Request { id, message: echoed }));
        }
        let ghost mid = self@;
        let requested = Requested {
            msg: msg.message,
            reply: RespondTo { id, direct: None, sender: msg.sender },
        };
        let ok = self.dispatch_request(requested);
        proof {
            assert(valid_msg_steps(pre, self@, spec_msg, ok, mid, copy));
        }
        ok
    }

    /// Handles a request that a loop-back client sent: stamps it with the client's connection id
    /// and handles it as `handle_valid_msg` does.
    pub fn handle_loopback_request(&mut self, client_id: u128, msg: Request<Req>) -> (ok: bool)
        ensures
            valid_msg_effect(
                old(self)@,
                final(self)@,
                Request { id: msg.id, message: msg.message, sender: Some(client_id) },
                ok,
            ),
    {
        let stamped = Request { id: msg.id, message: msg.message, sender: Some(client_id) };
        self.handle_valid_msg(stamped)
    }

    /// Handles what a client's text (or binary) frame decoded to. `false` when the connection
    /// should end.
    pub fn handle_text_message(&mut self, inc: Incoming<Req>, client_id: u128) -> (ok: bool)
        ensures
            text_effect(old(self)@, final(self)@, inc, client_id, ok),
    {
        match inc {
            Incoming::Valid { id, message } => {
                self.handle_valid_msg(Request { id, message, sender: Some(client_id) })
            },
            Incoming::Invalid { id, description } => {
                self.broadcast_internal(
                    SenderMsg::Message(Response::InvalidRequest { id, description }),
                );
                true
            },
            Incoming::Malformed(e) => {
                self.broadcast_internal(SenderMsg::Message(Response::Error(e)));
                true
            },
        }
    }

    /// Handles one frame read from client `client_id`, whose own handle is `tx_resp`, or a read
    /// error. `false` when the connection should end.
    pub fn handle_rx(
        &mut self,
        client_id: u128,
        msg: Result<Frame<Incoming<Req>>, ()>,
        tx_resp: &mut ClientOutlet<Req, Resp>,
    ) -> (ok: bool)
        ensures
            rx_effect(old(self)@, final(self)@, client_id, msg, *old(tx_resp), *final(tx_resp), ok),
    {
        match msg {
            Ok(Frame::Text(inc)) => self.handle_text_message(inc, client_id),
            Ok(Frame::Binary(inc)) => self.handle_text_message(inc, client_id),
            Ok(Frame::Ping(data)) => tx_resp.send(SenderMsg::Pong(data)),
            Ok(Frame::Close) => false,
            Ok(_) => true,
            Err(_) => false,
        }
    }

    /// Handles a request that came over HTTP from a caller waiting on `direct`: it is given a
    /// fresh id, broadcast to every client, and dispatched to the application. `false` when the
    /// application no longer takes requests.
    pub fn handle_http_request(&mut self, request: Req, direct: oneshot::Sender<Resp>) -> (ok: bool)
        ensures
            http_effect(old(self)@, final(self)@, request, direct, ok),
    {
        let ghost pre = self@;
        let ghost spec_request = request;
        let id = new_id();
        let copy = request.clone();
        let ghost spec_direct = direct;
        let req = Requested {
            msg: copy,
            reply: RespondTo { id, direct: Some(direct), sender: None },
        };
        self.broadcast_internal(SenderMsg::Message(Response::Request { id, message: request }));
        let ghost mid = self@;
        let ok = self.dispatch_request(req);
        proof {
            assert(http_steps(pre, self@, spec_request, spec_direct, ok, id, copy, mid));
        }
        ok
    }
}

impl<Resp: Message> RespondTo<Resp> {
    /// Gives a clone of `resp` to the waiting HTTP caller, if there is one, and records the
    /// answer among those given.
    fn answer_directly<Req: Message>(
        direct: Option<oneshot::Sender<Resp>>,
        server: &mut ServerState<Req, Resp>,
        resp: &Resp,
    )
        ensures
            direct_effect(old(server)@, final(server)@, direct, *resp),
    {
        match direct {
            Some(tx) => {
                let answer = resp.clone();
                let given = complete(tx, answer);
                proof {
                    server.answered@ = server.answered@.push(given);
                }
            },
            None => {},
        }
    }

    /// Answers the request as the server is set to: to every client with broadcasting on, else
    /// to the client the request came from only.
    pub fn answer<Req: Message>(self, server: &mut ServerState<Req, Resp>, resp: Resp)
        ensures
            answer_effect(old(server)@, final(server)@, self, resp),
    {
        if server.broadcast_reqrep {
            self.answer_broadcast(server, resp);
        } else {
            self.answer_unicast(server, resp);
        }
    }

    /// Answers the request to the client it came from only (and to a waiting HTTP caller).
    pub fn answer_unicast<Req: Message>(self, server: &mut ServerState<Req, Resp>, resp: Resp)
        ensures
            unicast_answer_effect(old(server)@, final(server)@, self, resp),
    {
        let ghost pre = server@;
        let ghost spec_self = self;
        let RespondTo { id, direct, sender } = self;
        Self::answer_directly(direct, server, &resp);
        let ghost mid = server@;
        let reply = Response::Reply { request: id, message: resp, sender };
        match sender {
            Some(s) => server.unicast(s, SenderMsg::Message(reply)),
            None => {},
        }
        proof {
            assert(unicast_answer_steps(pre, server@, spec_self, resp, mid));
        }
    }

    /// Answers the request to every client (and to a waiting HTTP caller).
    pub fn answer_broadcast<Req: Message>(self, server: &mut ServerState<Req, Resp>, resp: Resp)
        ensures
            broadcast_answer_effect(old(server)@, final(server)@, self, resp),
    {
        let ghost pre = server@;
        let ghost spec_self = self;
        let RespondTo { id, direct, sender } = self;
        Self::answer_directly(direct, server, &resp);
        let ghost mid = server@;
        let reply = Response::Reply { request: id, message: resp, sender };
        server.broadcast_internal(SenderMsg::Message(reply));
        proof {
            assert(broadcast_answer_steps(pre, server@, spec_self, resp, mid));
        }
    }

    /// The id of the request this answers.
    pub fn request_id(&self) -> (id: u128)
        ensures
            id == self.id,
    {
        self.id
    }
}

impl<Req: Message, Resp: Message> Requested<Req, Resp> {
    /// Answers the request as the server is set to (see `RespondTo::answer`).
    pub fn answer(self, server: &mut ServerState<Req, Resp>, resp: Resp)
        ensures
            answer_effect(old(server)@, final(server)@, self.reply, resp),
    {
        self.reply.answer(server, resp);
    }

    /// The request's payload.
    pub fn msg(&self) -> (m: &Req)
        ensures
            *m == self.msg,
    {
        &self.msg
    }

    /// The request's payload and the means to answer it.
    pub fn split(self) -> (parts: (Req, RespondTo<Resp>))
        ensures
            parts == (self.msg, self.reply),
    {
        (self.msg, self.reply)
    }

    /// The id of the request.
    pub fn request_id(self) -> (id: u128)
        ensures
            id == self.reply.id,
    {
        self.reply.id
    }
}

/// Why a request that came over HTTP gets no answer from the application.
pub enum HttpFailure {
    /// The body is not UTF-8.
    NotUtf8,
    /// The body is not a request the server understands.
    Undecodable,
    /// The request was dropped without an answer.
    Unanswered,
}

/// The HTTP reply to a request that failed: its status, the error's description, and the
/// reason given, when it is fixed (otherwise the decoder's own description of the problem is
/// given).
pub fn http_failure_reply(failure: HttpFailure) -> (reply: (u16, &'static str, Option<&'static str>))
    ensures
        reply.0 == 400,
        failure is NotUtf8 ==> reply.1@ == "Cannot decode body as UTF-8."@ && reply.2 is None,
        failure is Undecodable ==> reply.1@ == "Cannot deserialize body"@ && reply.2 is None,
        failure is Unanswered ==> reply.1@ == "Cannot process request"@ && (reply.2
            matches Some(r) && r@ == "Unknown error"@),
{
    match failure {
        HttpFailure::NotUtf8 => (400, "Cannot decode body as UTF-8.", None),
        HttpFailure::Undecodable => (400, "Cannot deserialize body", None),
        HttpFailure::Unanswered => (400, "Cannot process request", Some("Unknown error")),
    }
}

/// What wakes a client's writer task: its keep-alive timer, or the next message queued for the
/// client (`None` once the queue is closed).
pub enum WriterEvent<Req, Resp> {
    Tick,
    Queued(Option<SenderMsg<Req, Resp>>),
}

/// What a client's writer task does next.
pub enum WriterAction<Req, Resp> {
    /// Send a ping frame with this payload.
    Ping(Vec<u8>),
    /// Send a pong frame with this payload.
    Pong(Vec<u8>),
    /// Send this message as a JSON text frame.
    Text(Response<Req, Resp>),
    /// Stop writing and close the connection.
    Stop,
}

/// The writer task's rule: pings keep the connection alive, queued pongs and messages are sent,
/// and a close request or a closed queue ends the connection. The task goes on while sending
/// succeeds.
pub fn write_action<Req, Resp>(event: WriterEvent<Req, Resp>) -> (action: WriterAction<Req, Resp>)
    ensures
        match event {
            WriterEvent::Tick => action matches WriterAction::Ping(p) && p@ == seq![1u8, 2u8, 3u8, 4u8],
            WriterEvent::Queued(Some(SenderMsg::Pong(x))) => action == WriterAction::<Req, Resp>::Pong(x),
            WriterEvent::Queued(Some(SenderMsg::Message(m))) => action == WriterAction::Text(m),
            WriterEvent::Queued(Some(SenderMsg::Drop)) => action is Stop,
            WriterEvent::Queued(None) => action is Stop,
        },
{
    match event {
        WriterEvent::Tick => WriterAction::Ping(keepalive_payload()),
        WriterEvent::Queued(Some(SenderMsg::Pong(x))) => WriterAction::Pong(x),
        WriterEvent::Queued(Some(SenderMsg::Message(m))) => WriterAction::Text(m),
        WriterEvent::Queued(Some(SenderMsg::Drop)) => WriterAction::Stop,
        WriterEvent::Queued(None) => WriterAction::Stop,
    }
}

} // verus!
