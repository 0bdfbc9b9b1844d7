//! Properties of the bus that span several steps of the server, proved from the steps'
//! contracts.
//!
//! The steps' contracts speak of the record that each channel handle keeps of what was offered
//! through it (see `channel`); so do these properties.

use vstd::prelude::*;
use crate::ids::is_random_id;
use crate::loopback::{loopback_action, LoopbackAction};
use crate::message::{Request, Response};
use crate::server::Requested;
use crate::server::{
    after_close, after_offer, answer_effect, answered_with, broadcast_answer_steps,
    broadcast_effect, http_effect, http_steps, refused_copy_then_closed, refused_then_closed, rejection,
    removal_effect, reply_to, requested_for, retired_by_broadcast, sender_msg_copy, served,
    shutdown_effect, signalled, text_effect, unicast_answer_steps, valid_msg_effect,
    valid_msg_steps, ClientOutlet, Incoming, RespondTo, SenderMsg, ServerView,
};

verus! {

/// `o` is a later state of the handle `before`, and the first offer made through it after those
/// that `before` records was a copy of `msg`.
pub open spec fn next_offer_copies<Req: Clone, Resp: Clone>(
    before: ClientOutlet<Req, Resp>,
    o: ClientOutlet<Req, Resp>,
    msg: SenderMsg<Req, Resp>,
) -> bool {
    &&& o.handle() == before.handle()
    &&& before.log().len() < o.log().len()
    &&& o.log().subrange(0, before.log().len() as int) == before.log()
    &&& sender_msg_copy(msg, o.log()[before.log().len() as int].0)
}

/// Between `pre` and `post`, the first offer to client `k` (connected in `pre`) was a copy of
/// `msg`: its handle, after that offer, is still registered or among those retired since `pre`.
pub open spec fn reached<Req: Clone, Resp: Clone>(
    pre: ServerView<Req, Resp>,
    post: ServerView<Req, Resp>,
    k: u128,
    msg: SenderMsg<Req, Resp>,
) -> bool {
    ||| post.connections.contains_key(k) && next_offer_copies(
        pre.connections[k],
        post.connections[k],
        msg,
    )
    ||| exists|r: int|
        pre.retired.len() <= r < post.retired.len() && next_offer_copies(
            pre.connections[k],
            #[trigger] post.retired[r],
            msg,
        )
}

/// A client served by a broadcast was reached by it.
proof fn lemma_served_is_reached<Req: Clone, Resp: Clone>(
    pre: ServerView<Req, Resp>,
    post: ServerView<Req, Resp>,
    k: u128,
    msg: SenderMsg<Req, Resp>,
)
    requires
        pre.connections.contains_key(k),
        served(pre, post, k, msg),
    ensures
        reached(pre, post, k, msg),
{
    if !post.connections.contains_key(k) {
        let r = choose|r: int|
            pre.retired.len() <= r < post.retired.len() && refused_copy_then_closed(
                pre.connections[k],
                #[trigger] post.retired[r],
                msg,
            );
        assert(next_offer_copies(pre.connections[k], post.retired[r], msg));
    }
}

/// A broadcast from a server with no clients changes nothing.
proof fn lemma_broadcast_to_no_one<Req: Clone, Resp: Clone>(
    pre: ServerView<Req, Resp>,
    post: ServerView<Req, Resp>,
    msg: SenderMsg<Req, Resp>,
)
    requires
        pre.connections == Map::<u128, ClientOutlet<Req, Resp>>::empty(),
        broadcast_effect(pre, post, msg),
    ensures
        post == pre,
{
    assert(post.connections =~= pre.connections);
    if post.retired.len() > pre.retired.len() {
        let r = pre.retired.len() as int;
        assert(retired_by_broadcast(pre, post, post.retired[r], msg));
    }
    assert(post.retired =~= post.retired.subrange(0, pre.retired.len() as int));
    assert(post.retired =~= pre.retired);
}

/// Broadcasting reaches every client: the first offer to each client connected when a message
/// is broadcast is a copy of it. The clients still connected afterwards were connected before,
/// and their channels took the copy; the others' channels refused it. Nothing else changes.
pub proof fn broadcast_reaches_every_client<Req: Clone, Resp: Clone>(
    pre: ServerView<Req, Resp>,
    post: ServerView<Req, Resp>,
    msg: SenderMsg<Req, Resp>,
)
    requires
        broadcast_effect(pre, post, msg),
    ensures
        forall|k: u128| #[trigger] pre.connections.contains_key(k) ==> reached(pre, post, k, msg),
        forall|k: u128|
            #[trigger] post.connections.contains_key(k) ==> ({
                &&& pre.connections.contains_key(k)
                &&& post.connections[k].log() == pre.connections[k].log().push(
                    post.connections[k].log().last(),
                )
                &&& post.connections[k].log().last().1
            }),
        post == (ServerView { connections: post.connections, retired: post.retired, ..pre }),
{
    assert forall|k: u128| #[trigger] pre.connections.contains_key(k) implies reached(
        pre,
        post,
        k,
        msg,
    ) by {
        lemma_served_is_reached(pre, post, k, msg);
    }
    assert forall|k: u128| #[trigger] post.connections.contains_key(k) implies {
        &&& pre.connections.contains_key(k)
        &&& post.connections[k].log() == pre.connections[k].log().push(
            post.connections[k].log().last(),
        )
        &&& post.connections[k].log().last().1
    } by {
        assert(pre.connections.dom().contains(k));
        assert(served(pre, post, k, msg));
        let n = pre.connections[k].log().len() as int;
        assert(post.connections[k].log() =~= post.connections[k].log().subrange(0, n).push(
            post.connections[k].log()[n],
        ));
    }
}

/// Shutting down closes everything: afterwards no client is connected, no listener runs and no
/// request is handed to the application; every client that was connected was offered a close
/// request, and every listener was given its stop signal.
pub proof fn shutdown_closes_everything<Req, Resp>(
    pre: ServerView<Req, Resp>,
    post: ServerView<Req, Resp>,
)
    requires
        shutdown_effect(pre, post),
    ensures
        post.connections == Map::<u128, ClientOutlet<Req, Resp>>::empty(),
        post.listeners.len() == 0,
        !post.accepting,
        forall|k: u128|
            #[trigger] pre.connections.contains_key(k) ==> exists|r: int|
                pre.retired.len() <= r < post.retired.len() && after_close(
                    pre.connections[k],
                    #[trigger] post.retired[r],
                ),
        forall|i: int|
            0 <= i < pre.listeners.len() ==> signalled(
                #[trigger] pre.listeners[i],
                post.stopped[pre.stopped.len() + i],
            ),
{
}

/// After a shutdown, a broadcast reaches no one and changes nothing.
pub proof fn broadcast_after_shutdown_is_silent<Req: Clone, Resp: Clone>(
    before: ServerView<Req, Resp>,
    stopped: ServerView<Req, Resp>,
    after: ServerView<Req, Resp>,
    msg: SenderMsg<Req, Resp>,
)
    requires
        shutdown_effect(before, stopped),
        broadcast_effect(stopped, after, msg),
    ensures
        after == stopped,
{
    lemma_broadcast_to_no_one(stopped, after, msg);
}

/// After a shutdown, a request that is read is handed to no one: it is neither echoed nor
/// dispatched, nothing changes, and the connection it came from is to end.
pub proof fn request_after_shutdown_fails<Req: Clone, Resp: Clone>(
    before: ServerView<Req, Resp>,
    stopped: ServerView<Req, Resp>,
    after: ServerView<Req, Resp>,
    msg: Request<Req>,
    ok: bool,
)
    requires
        shutdown_effect(before, stopped),
        valid_msg_effect(stopped, after, msg, ok),
    ensures
        !ok,
        after == stopped,
{
    let (mid, copy) = choose|mid: ServerView<Req, Resp>, copy: Req|
        #[trigger] valid_msg_steps(stopped, after, msg, ok, mid, copy);
    if stopped.broadcast_reqrep {
        lemma_broadcast_to_no_one(
            stopped,
            mid,
            SenderMsg::Message(Response::Request { id: msg.id, message: copy }),
        );
    }
}

/// Registering a client and removing it again leaves the server as it was, but for the
/// client's handle, which is retired after a close request was offered through it.
pub proof fn register_then_remove_restores<Req, Resp>(
    before: ServerView<Req, Resp>,
    registered: ServerView<Req, Resp>,
    after: ServerView<Req, Resp>,
    id: u128,
)
    requires
        !before.connections.contains_key(id),
        registered == (ServerView {
            connections: before.connections.insert(id, registered.connections[id]),
            ..before
        }),
        removal_effect(registered, after, id),
    ensures
        after == (ServerView { retired: before.retired.push(after.retired.last()), ..before }),
        after_close(registered.connections[id], after.retired.last()),
{
    assert(registered.connections.remove(id) =~= before.connections);
}

/// One handled request, if the server accepts requests, is offered to the application's
/// channel (and nothing else is), and the server still accepts requests.
proof fn lemma_request_dispatched<Req: Clone, Resp: Clone>(
    pre: ServerView<Req, Resp>,
    post: ServerView<Req, Resp>,
    msg: Request<Req>,
    ok: bool,
)
    requires
        pre.accepting,
        valid_msg_effect(pre, post, msg, ok),
    ensures
        post.accepting,
        after_offer(pre.requests, post.requests, requested_for::<Req, Resp>(msg), ok),
{
    let (mid, copy) = choose|mid: ServerView<Req, Resp>, copy: Req|
        #[trigger] valid_msg_steps(pre, post, msg, ok, mid, copy);
}

/// A request that is handled is handed to the application answerable under its own id to the
/// connection it came from, and the reply that answers it carries that id back; if the server
/// still accepts requests, the application's channel is offered exactly that request.
pub proof fn handled_request_is_answered_under_its_id<Req: Clone, Resp: Clone>(
    pre: ServerView<Req, Resp>,
    post: ServerView<Req, Resp>,
    msg: Request<Req>,
    ok: bool,
    resp: Resp,
)
    requires
        valid_msg_effect(pre, post, msg, ok),
    ensures
        pre.accepting ==> post.accepting && after_offer(
            pre.requests,
            post.requests,
            requested_for::<Req, Resp>(msg),
            ok,
        ),
        !pre.accepting ==> !ok && post.requests == pre.requests,
        requested_for::<Req, Resp>(msg).msg == msg.message,
        requested_for::<Req, Resp>(msg).reply.id == msg.id,
        requested_for::<Req, Resp>(msg).reply.sender == msg.sender,
        (reply_to::<Req, Resp>(requested_for::<Req, Resp>(msg).reply, resp) == Response::<
            Req,
            Resp,
        >::Reply { request: msg.id, message: resp, sender: msg.sender }),
{
    if pre.accepting {
        lemma_request_dispatched(pre, post, msg, ok);
    } else {
        let (mid, copy) = choose|mid: ServerView<Req, Resp>, copy: Req|
            #[trigger] valid_msg_steps(pre, post, msg, ok, mid, copy);
    }
}

/// With broadcasting on, a request that is handled is first echoed, under its id, to every
/// client connected at the time; with it off, handling a request offers nothing to any client.
pub proof fn handled_request_echo<Req: Clone, Resp: Clone>(
    pre: ServerView<Req, Resp>,
    post: ServerView<Req, Resp>,
    msg: Request<Req>,
    ok: bool,
)
    requires
        valid_msg_effect(pre, post, msg, ok),
    ensures
        pre.broadcast_reqrep ==> (exists|copy: Req|
            cloned(msg.message, copy) && forall|k: u128|
                #[trigger] pre.connections.contains_key(k) ==> reached(
                    pre,
                    post,
                    k,
                    SenderMsg::Message((Response::Request { id: msg.id, message: copy })),
                )),
        !pre.broadcast_reqrep ==> (post.connections == pre.connections && post.retired
            == pre.retired),
{
    let (mid, copy) = choose|mid: ServerView<Req, Resp>, copy: Req|
        #[trigger] valid_msg_steps(pre, post, msg, ok, mid, copy);
    assert(post.connections == mid.connections && post.retired == mid.retired);
    if pre.broadcast_reqrep {
        let echo = SenderMsg::Message(Response::Request { id: msg.id, message: copy });
        lemma_broadcast_then_same_registry(pre, mid, post, echo);
    }
}

/// What a broadcast from `pre` to `mid` reached, it reached as seen from `post` too, if `post`
/// has the registry and retired handles of `mid`.
proof fn lemma_broadcast_then_same_registry<Req: Clone, Resp: Clone>(
    pre: ServerView<Req, Resp>,
    mid: ServerView<Req, Resp>,
    post: ServerView<Req, Resp>,
    msg: SenderMsg<Req, Resp>,
)
    requires
        broadcast_effect(pre, mid, msg),
        post.connections == mid.connections,
        post.retired == mid.retired,
    ensures
        forall|k: u128| #[trigger] pre.connections.contains_key(k) ==> reached(pre, post, k, msg),
{
    broadcast_reaches_every_client(pre, mid, msg);
}

/// The first offer made through `o` after those that `before` records was `msg` or a copy of it.
pub open spec fn next_offer_is<Req: Clone, Resp: Clone>(
    before: ClientOutlet<Req, Resp>,
    o: ClientOutlet<Req, Resp>,
    msg: SenderMsg<Req, Resp>,
) -> bool {
    &&& o.handle() == before.handle()
    &&& before.log().len() < o.log().len()
    &&& o.log().subrange(0, before.log().len() as int) == before.log()
    &&& (o.log()[before.log().len() as int].0 == msg || sender_msg_copy(
        msg,
        o.log()[before.log().len() as int].0,
    ))
}

/// With broadcasting off, an answer goes to the connection the request came from and to no
/// other client: if that client is connected, the reply, under the request's id, is the next
/// offer to its channel; a channel that refused it was also offered a close request and left the
/// registry. No other client's entry changes, and nothing is dispatched.
pub proof fn unicast_answer_reaches_requester_only<Req: Clone, Resp: Clone>(
    pre: ServerView<Req, Resp>,
    post: ServerView<Req, Resp>,
    reply: RespondTo<Resp>,
    resp: Resp,
    s: u128,
)
    requires
        !pre.broadcast_reqrep,
        reply.sender == Some(s),
        pre.connections.contains_key(s),
        answer_effect(pre, post, reply, resp),
    ensures
        (reply_to::<Req, Resp>(reply, resp) == Response::<Req, Resp>::Reply {
            request: reply.id,
            message: resp,
            sender: Some(s),
        }),
        post.connections.contains_key(s) ==> after_offer(
            pre.connections[s],
            post.connections[s],
            SenderMsg::Message(reply_to::<Req, Resp>(reply, resp)),
            true,
        ),
        !post.connections.contains_key(s) ==> ({
            &&& post.retired == pre.retired.push(post.retired.last())
            &&& refused_then_closed(
                pre.connections[s],
                post.retired.last(),
                SenderMsg::Message(reply_to::<Req, Resp>(reply, resp)),
            )
        }),
        post.connections.contains_key(s) ==> post.retired == pre.retired,
        post.connections.remove(s) == pre.connections.remove(s),
        post.requests == pre.requests,
        post.accepting == pre.accepting,
{
    let mid = choose|mid: ServerView<Req, Resp>|
        #[trigger] unicast_answer_steps(pre, post, reply, resp, mid);
    assert(mid.connections == pre.connections && mid.retired == pre.retired);
    if post.connections.contains_key(s) {
        assert(post.connections.remove(s) =~= pre.connections.remove(s));
    } else {
        assert(post.connections.remove(s) =~= pre.connections.remove(s));
    }
}

/// With broadcasting on, an answer reaches every client connected at the time: the first offer
/// to each client's channel is a copy of the reply, which carries the request's id.
pub proof fn broadcast_answer_reaches_every_client<Req: Clone, Resp: Clone>(
    pre: ServerView<Req, Resp>,
    post: ServerView<Req, Resp>,
    reply: RespondTo<Resp>,
    resp: Resp,
)
    requires
        pre.broadcast_reqrep,
        answer_effect(pre, post, reply, resp),
    ensures
        forall|k: u128|
            #[trigger] pre.connections.contains_key(k) ==> reached(
                pre,
                post,
                k,
                SenderMsg::Message(reply_to::<Req, Resp>(reply, resp)),
            ),
        (reply_to::<Req, Resp>(reply, resp) matches Response::Reply { request, .. } && request
            == reply.id),
{
    let mid = choose|mid: ServerView<Req, Resp>|
        #[trigger] broadcast_answer_steps(pre, post, reply, resp, mid);
    let m = SenderMsg::Message(reply_to::<Req, Resp>(reply, resp));
    assert(mid.connections == pre.connections && mid.retired == pre.retired);
    broadcast_reaches_every_client(mid, post, m);
}

/// A caller waiting over HTTP always gets the answer, whatever the broadcasting setting: its
/// channel is given a clone of it, and that answer is recorded among those given.
pub proof fn waiting_caller_is_answered<Req: Clone, Resp: Clone>(
    pre: ServerView<Req, Resp>,
    post: ServerView<Req, Resp>,
    reply: RespondTo<Resp>,
    resp: Resp,
)
    requires
        reply.direct is Some,
        answer_effect(pre, post, reply, resp),
    ensures
        post.answered == pre.answered.push(post.answered.last()),
        answered_with(reply.direct->0, post.answered.last(), resp),
{
    if pre.broadcast_reqrep {
        let mid = choose|mid: ServerView<Req, Resp>|
            #[trigger] broadcast_answer_steps(pre, post, reply, resp, mid);
    } else {
        let mid = choose|mid: ServerView<Req, Resp>|
            #[trigger] unicast_answer_steps(pre, post, reply, resp, mid);
    }
}

/// A frame that cannot be read as a request is answered on the bus, to every client: with an
/// `Error` when it is not a request envelope, with an `InvalidRequest` under the request's id
/// when only its payload is unreadable. Nothing is handed to the application, and the
/// connection stays open.
pub proof fn unreadable_text_reaches_every_client<Req: Clone, Resp: Clone>(
    pre: ServerView<Req, Resp>,
    post: ServerView<Req, Resp>,
    inc: Incoming<Req>,
    client_id: u128,
    ok: bool,
)
    requires
        !(inc is Valid),
        text_effect(pre, post, inc, client_id, ok),
    ensures
        ok,
        post.requests == pre.requests,
        post.accepting == pre.accepting,
        forall|k: u128|
            #[trigger] pre.connections.contains_key(k) ==> reached(
                pre,
                post,
                k,
                SenderMsg::Message(rejection::<Req, Resp>(inc)),
            ),
        (inc matches Incoming::Malformed(e) ==> rejection::<Req, Resp>(inc) == Response::<
            Req,
            Resp,
        >::Error(e)),
        (inc matches Incoming::Invalid { id, description } ==> rejection::<Req, Resp>(inc)
            == Response::<Req, Resp>::InvalidRequest { id, description }),
{
    broadcast_reaches_every_client(pre, post, SenderMsg::Message(rejection::<Req, Resp>(inc)));
}

/// A client that sends a request gets the answer under its request's id: when the request it
/// sent is handled and then answered, the next offer to that client's channel (if it is
/// connected when the answer is given) is the reply or a copy of it, whether the server
/// broadcasts answers or not.
pub proof fn requester_gets_the_reply<Req: Clone, Resp: Clone>(
    before: ServerView<Req, Resp>,
    handled: ServerView<Req, Resp>,
    after: ServerView<Req, Resp>,
    msg: Request<Req>,
    ok: bool,
    resp: Resp,
    s: u128,
)
    requires
        msg.sender == Some(s),
        valid_msg_effect(before, handled, msg, ok),
        handled.connections.contains_key(s),
        answer_effect(handled, after, requested_for::<Req, Resp>(msg).reply, resp),
    ensures
        ({
            let m = SenderMsg::Message(
                Response::<Req, Resp>::Reply { request: msg.id, message: resp, sender: Some(s) },
            );
            ||| after.connections.contains_key(s) && next_offer_is(
                handled.connections[s],
                after.connections[s],
                m,
            )
            ||| exists|r: int|
                handled.retired.len() <= r < after.retired.len() && next_offer_is(
                    handled.connections[s],
                    #[trigger] after.retired[r],
                    m,
                )
        }),
{
    let reply = requested_for::<Req, Resp>(msg).reply;
    if handled.broadcast_reqrep {
        let m = SenderMsg::Message(reply_to::<Req, Resp>(reply, resp));
        broadcast_answer_reaches_every_client(handled, after, reply, resp);
        assert(reached(handled, after, s, m));
        lemma_reached_is_next_offer(handled, after, s, m);
    } else {
        lemma_unicast_reply_reaches(handled, after, reply, resp, s);
    }
}

/// A client reached by a copy of `m` had `m`, or a copy of it, as its next offer.
proof fn lemma_reached_is_next_offer<Req: Clone, Resp: Clone>(
    pre: ServerView<Req, Resp>,
    post: ServerView<Req, Resp>,
    s: u128,
    m: SenderMsg<Req, Resp>,
)
    requires
        reached(pre, post, s, m),
    ensures
        ({
            ||| post.connections.contains_key(s) && next_offer_is(
                pre.connections[s],
                post.connections[s],
                m,
            )
            ||| exists|r: int|
                pre.retired.len() <= r < post.retired.len() && next_offer_is(
                    pre.connections[s],
                    #[trigger] post.retired[r],
                    m,
                )
        }),
{
    if !(post.connections.contains_key(s) && next_offer_copies(
        pre.connections[s],
        post.connections[s],
        m,
    )) {
        let r = choose|r: int|
            pre.retired.len() <= r < post.retired.len() && next_offer_copies(
                pre.connections[s],
                #[trigger] post.retired[r],
                m,
            );
        assert(next_offer_is(pre.connections[s], post.retired[r], m));
    }
}

/// With broadcasting off, the next offer to a connected requester is the reply.
proof fn lemma_unicast_reply_reaches<Req: Clone, Resp: Clone>(
    pre: ServerView<Req, Resp>,
    post: ServerView<Req, Resp>,
    reply: RespondTo<Resp>,
    resp: Resp,
    s: u128,
)
    requires
        !pre.broadcast_reqrep,
        reply.sender == Some(s),
        pre.connections.contains_key(s),
        answer_effect(pre, post, reply, resp),
    ensures
        ({
            let m = SenderMsg::Message(reply_to::<Req, Resp>(reply, resp));
            ||| post.connections.contains_key(s) && next_offer_is(
                pre.connections[s],
                post.connections[s],
                m,
            )
            ||| exists|r: int|
                pre.retired.len() <= r < post.retired.len() && next_offer_is(
                    pre.connections[s],
                    #[trigger] post.retired[r],
                    m,
                )
        }),
{
    let m = SenderMsg::Message(reply_to::<Req, Resp>(reply, resp));
    unicast_answer_reaches_requester_only(pre, post, reply, resp, s);
    let n = pre.connections[s].log().len() as int;
    if post.connections.contains_key(s) {
        assert(post.connections[s].log().subrange(0, n) =~= pre.connections[s].log());
    } else {
        let r = pre.retired.len() as int;
        assert(post.retired[r] == post.retired.last());
        assert(post.retired.last().log().subrange(0, n) =~= pre.connections[s].log());
        assert(next_offer_is(pre.connections[s], post.retired[r], m));
    }
}

/// The request that a loop-back client with connection id `client_id` sent as `msg`, as the
/// server handles it: stamped with that id.
pub open spec fn stamped<Req>(msg: Request<Req>, client_id: u128) -> Request<Req> {
    Request { id: msg.id, message: msg.message, sender: Some(client_id) }
}

/// The first `n` of the requests that a loop-back client sent were offered to the application
/// in order.
proof fn lemma_loopback_prefix<Req: Clone, Resp: Clone>(
    states: Seq<ServerView<Req, Resp>>,
    msgs: Seq<Request<Req>>,
    oks: Seq<bool>,
    client_id: u128,
    n: int,
)
    requires
        states.len() == msgs.len() + 1,
        oks.len() == msgs.len(),
        0 <= n <= msgs.len(),
        states[0].accepting,
        forall|i: int|
            0 <= i < msgs.len() ==> valid_msg_effect(
                #[trigger] states[i],
                states[i + 1],
                stamped(msgs[i], client_id),
                oks[i],
            ),
    ensures
        states[n].accepting,
        states[n].requests.handle() == states[0].requests.handle(),
        states[n].requests.log() == states[0].requests.log() + Seq::new(
            n as nat,
            |i: int| (requested_for::<Req, Resp>(stamped(msgs[i], client_id)), oks[i]),
        ),
    decreases n,
{
    if n == 0 {
        assert(states[0].requests.log() + Seq::new(
            0,
            |i: int| (requested_for::<Req, Resp>(stamped(msgs[i], client_id)), oks[i]),
        ) =~= states[0].requests.log());
    } else {
        lemma_loopback_prefix(states, msgs, oks, client_id, n - 1);
        assert(valid_msg_effect(
            states[n - 1],
            states[n],
            stamped(msgs[n - 1], client_id),
            oks[n - 1],
        ));
        lemma_request_dispatched(states[n - 1], states[n], stamped(msgs[n - 1], client_id), oks[n - 1]);
        assert(states[n].requests.log() =~= states[0].requests.log() + Seq::new(
            n as nat,
            |i: int| (requested_for::<Req, Resp>(stamped(msgs[i], client_id)), oks[i]),
        ));
    }
}

/// The requests that a loop-back client sends are handed to the application in the order
/// sent, each with its payload, answerable under its own id to the loop-back client's connection
/// (whatever connection the client named), and to no HTTP caller: if the server accepts requests
/// before the first, then after the last the application's channel has been offered exactly
/// these requests, in order, and the server still accepts requests.
pub proof fn loopback_requests_dispatched_in_order<Req: Clone, Resp: Clone>(
    states: Seq<ServerView<Req, Resp>>,
    msgs: Seq<Request<Req>>,
    oks: Seq<bool>,
    client_id: u128,
)
    requires
        states.len() == msgs.len() + 1,
        oks.len() == msgs.len(),
        states[0].accepting,
        forall|i: int|
            0 <= i < msgs.len() ==> valid_msg_effect(
                #[trigger] states[i],
                states[i + 1],
                stamped(msgs[i], client_id),
                oks[i],
            ),
    ensures
        states.last().accepting,
        states.last().requests.handle() == states[0].requests.handle(),
        states.last().requests.log() == states[0].requests.log() + Seq::new(
            msgs.len(),
            |i: int| (requested_for::<Req, Resp>(stamped(msgs[i], client_id)), oks[i]),
        ),
        forall|i: int|
            0 <= i < msgs.len() ==> ({
                let r = #[trigger] requested_for::<Req, Resp>(stamped(msgs[i], client_id));
                &&& r.msg == msgs[i].message
                &&& r.reply.id == msgs[i].id
                &&& r.reply.sender == Some(client_id)
                &&& r.reply.direct is None
            }),
{
    lemma_loopback_prefix(states, msgs, oks, client_id, msgs.len() as int);
}

/// What the task serving a loop-back client passes on to the client when `queued` is what the
/// server queued for it: the messages queued before the first close request, in order, without
/// the pongs.
pub open spec fn forwarded<Req, Resp>(queued: Seq<SenderMsg<Req, Resp>>) -> Seq<Response<Req, Resp>>
    decreases queued.len(),
{
    if queued.len() == 0 {
        Seq::empty()
    } else {
        match queued[0] {
            SenderMsg::Drop => Seq::empty(),
            SenderMsg::Pong(_) => forwarded(queued.drop_first()),
            SenderMsg::Message(m) => seq![m] + forwarded(queued.drop_first()),
        }
    }
}

/// What the task passes on when it acts on `actions` in order: the message of each forward, up
/// to the first stop.
pub open spec fn performed<Req, Resp>(actions: Seq<LoopbackAction<Req, Resp>>) -> Seq<
    Response<Req, Resp>,
>
    decreases actions.len(),
{
    if actions.len() == 0 {
        Seq::empty()
    } else {
        match actions[0] {
            LoopbackAction::Forward(m) => seq![m] + performed(actions.drop_first()),
            LoopbackAction::Skip => performed(actions.drop_first()),
            LoopbackAction::Stop => Seq::empty(),
        }
    }
}

/// The task serving a loop-back client passes on exactly the messages queued for the client
/// before the first close request, in order, and never a pong: acting, in order, on what
/// `loopback_action` says for each queued item gives `forwarded` of the queue.
pub proof fn loopback_forwards_until_closed<Req, Resp>(
    queued: Seq<SenderMsg<Req, Resp>>,
    actions: Seq<LoopbackAction<Req, Resp>>,
)
    requires
        actions.len() == queued.len(),
        forall|i: int|
            0 <= i < queued.len() ==> call_ensures(
                loopback_action::<Req, Resp>,
                (queued[i],),
                #[trigger] actions[i],
            ),
    ensures
        performed(actions) == forwarded(queued),
    decreases queued.len(),
{
    if queued.len() > 0 {
        assert(call_ensures(loopback_action::<Req, Resp>, (queued[0],), actions[0]));
        let rest_q = queued.drop_first();
        let rest_a = actions.drop_first();
        assert forall|i: int| 0 <= i < rest_q.len() implies call_ensures(
            loopback_action::<Req, Resp>,
            (rest_q[i],),
            #[trigger] rest_a[i],
        ) by {
            assert(rest_q[i] == queued[i + 1]);
            assert(rest_a[i] == actions[i + 1]);
        }
        loopback_forwards_until_closed(rest_q, rest_a);
    }
}

/// `o` is a later state of the handle `before`, and the first offer made through it after those
/// that `before` records was a reply to the request `id` (`reply`), or an echo of the request
/// `id` (`!reply`).
pub open spec fn next_offer_has_id<Req, Resp>(
    before: ClientOutlet<Req, Resp>,
    o: ClientOutlet<Req, Resp>,
    reply: bool,
    id: u128,
) -> bool {
    &&& o.handle() == before.handle()
    &&& before.log().len() < o.log().len()
    &&& if reply {
        (o.log()[before.log().len() as int].0 matches SenderMsg::Message(
            Response::Reply { request, .. },
        ) && request == id)
    } else {
        (o.log()[before.log().len() as int].0 matches SenderMsg::Message(
            Response::Request { id: i, .. },
        ) && i == id)
    }
}

/// Between `pre` and `post`, the first offer to client `k` (connected in `pre`) was a reply to
/// the request `id` (`reply`), or an echo of the request `id` (`!reply`).
pub open spec fn first_offer_has_id<Req, Resp>(
    pre: ServerView<Req, Resp>,
    post: ServerView<Req, Resp>,
    k: u128,
    reply: bool,
    id: u128,
) -> bool {
    ||| post.connections.contains_key(k) && next_offer_has_id(
        pre.connections[k],
        post.connections[k],
        reply,
        id,
    )
    ||| exists|r: int|
        pre.retired.len() <= r < post.retired.len() && next_offer_has_id(
            pre.connections[k],
            #[trigger] post.retired[r],
            reply,
            id,
        )
}

/// A client reached by a copy of a reply to, or an echo of, the request `id` was first offered a
/// message under that same id.
proof fn lemma_copy_keeps_id<Req: Clone, Resp: Clone>(
    pre: ServerView<Req, Resp>,
    post: ServerView<Req, Resp>,
    k: u128,
    msg: SenderMsg<Req, Resp>,
    reply: bool,
    id: u128,
)
    requires
        reached(pre, post, k, msg),
        reply ==> (msg matches SenderMsg::Message(Response::Reply { request, .. }) && request == id),
        !reply ==> (msg matches SenderMsg::Message(Response::Request { id: i, .. }) && i == id),
    ensures
        first_offer_has_id(pre, post, k, reply, id),
{
    if !(post.connections.contains_key(k) && next_offer_copies(
        pre.connections[k],
        post.connections[k],
        msg,
    )) {
        let r = choose|r: int|
            pre.retired.len() <= r < post.retired.len() && next_offer_copies(
                pre.connections[k],
                #[trigger] post.retired[r],
                msg,
            );
        assert(next_offer_has_id(pre.connections[k], post.retired[r], reply, id));
    }
}

/// With broadcasting on, every client connected when a request is answered is first offered a
/// reply that carries the answered request's id, unchanged, so each can match it to its request.
pub proof fn broadcast_answer_carries_the_request_id<Req: Clone, Resp: Clone>(
    pre: ServerView<Req, Resp>,
    post: ServerView<Req, Resp>,
    reply: RespondTo<Resp>,
    resp: Resp,
)
    requires
        pre.broadcast_reqrep,
        answer_effect(pre, post, reply, resp),
    ensures
        forall|k: u128|
            #[trigger] pre.connections.contains_key(k) ==> first_offer_has_id(
                pre,
                post,
                k,
                true,
                reply.id,
            ),
{
    let m = SenderMsg::Message(reply_to::<Req, Resp>(reply, resp));
    broadcast_answer_reaches_every_client(pre, post, reply, resp);
    assert forall|k: u128| #[trigger] pre.connections.contains_key(k) implies first_offer_has_id(
        pre,
        post,
        k,
        true,
        reply.id,
    ) by {
        lemma_copy_keeps_id(pre, post, k, m, true, reply.id);
    }
}

/// A request that a client sends over its connection, read as valid, is handed to the
/// application with its payload, answerable under the id the client gave it, to that client's
/// connection, and to no HTTP caller: if the server accepts requests, the application's channel
/// is offered exactly that; if not, nothing is offered and the connection is to end. With
/// broadcasting on, every client is first offered an echo of the request under that same id.
pub proof fn valid_text_is_dispatched_under_its_id<Req: Clone, Resp: Clone>(
    pre: ServerView<Req, Resp>,
    post: ServerView<Req, Resp>,
    id: u128,
    message: Req,
    client_id: u128,
    ok: bool,
)
    requires
        text_effect(pre, post, Incoming::Valid { id, message }, client_id, ok),
    ensures
        pre.accepting ==> post.accepting && post.requests.handle() == pre.requests.handle()
            && post.requests.log() == pre.requests.log().push(
            (
                (Requested {
                    msg: message,
                    reply: RespondTo { id, direct: None, sender: Some(client_id) },
                }),
                ok,
            ),
        ),
        !pre.accepting ==> !ok && post.requests == pre.requests,
        pre.broadcast_reqrep ==> forall|k: u128|
            #[trigger] pre.connections.contains_key(k) ==> first_offer_has_id(
                pre,
                post,
                k,
                false,
                id,
            ),
{
    let msg = Request { id, message, sender: Some(client_id) };
    assert(valid_msg_effect(pre, post, msg, ok));
    handled_request_is_answered_under_its_id(pre, post, msg, ok, arbitrary());
    if pre.broadcast_reqrep {
        handled_request_echo(pre, post, msg, ok);
        let copy = choose|copy: Req|
            cloned(msg.message, copy) && forall|k: u128|
                #[trigger] pre.connections.contains_key(k) ==> reached(
                    pre,
                    post,
                    k,
                    SenderMsg::Message((Response::Request { id: msg.id, message: copy })),
                );
        assert forall|k: u128| #[trigger] pre.connections.contains_key(k) implies first_offer_has_id(
            pre,
            post,
            k,
            false,
            id,
        ) by {
            lemma_copy_keeps_id(
                pre,
                post,
                k,
                SenderMsg::Message((Response::Request { id: msg.id, message: copy })),
                false,
                id,
            );
        }
    }
}

/// The request that came over HTTP was echoed to every client connected in `pre` under the
/// random id `id`, and, if the server accepted requests, the application's channel was offered
/// `copy` (a clone of it) under that same id, answerable to the caller waiting on `direct`.
pub open spec fn http_request_under_id<Req: Clone, Resp: Clone>(
    pre: ServerView<Req, Resp>,
    post: ServerView<Req, Resp>,
    request: Req,
    direct: tokio::sync::oneshot::Sender<Resp>,
    ok: bool,
    id: u128,
    copy: Req,
) -> bool {
    &&& is_random_id(id)
    &&& cloned(request, copy)
    &&& pre.accepting ==> post.requests.log() == pre.requests.log().push(
        (
            (Requested { msg: copy, reply: RespondTo { id, direct: Some(direct), sender: None } }),
            ok,
        ),
    )
    &&& forall|k: u128|
        #[trigger] pre.connections.contains_key(k) ==> first_offer_has_id(pre, post, k, false, id)
}

/// A request that comes over HTTP is given one fresh random id, under which it is both echoed
/// to every client and handed to the application, answerable to the waiting caller and to no
/// connection: if the server accepts requests, the application's channel is offered exactly a
/// clone of the request under that id; every client is first offered the request under it.
pub proof fn http_request_shares_one_id<Req: Clone, Resp: Clone>(
    pre: ServerView<Req, Resp>,
    post: ServerView<Req, Resp>,
    request: Req,
    direct: tokio::sync::oneshot::Sender<Resp>,
    ok: bool,
)
    requires
        http_effect(pre, post, request, direct, ok),
    ensures
        exists|id: u128, copy: Req|
            #[trigger] http_request_under_id(pre, post, request, direct, ok, id, copy),
{
    let (id, copy, mid) = choose|id: u128, copy: Req, mid: ServerView<Req, Resp>|
        #[trigger] http_steps(pre, post, request, direct, ok, id, copy, mid);
    lemma_echo_first_offers(pre, mid, SenderMsg::Message(Response::Request { id, message: request }), id);
    assert(mid.connections == post.connections && mid.retired == post.retired);
    assert(mid.requests == pre.requests && mid.accepting == pre.accepting);
    let dispatched = Requested {
        msg: copy,
        reply: RespondTo { id, direct: Some(direct), sender: None },
    };
    assert(pre.accepting ==> post.requests.log() == pre.requests.log().push((dispatched, ok)));
    assert forall|k: u128| #[trigger] pre.connections.contains_key(k) implies first_offer_has_id(
        pre,
        post,
        k,
        false,
        id,
    ) by {
        assert(first_offer_has_id(pre, mid, k, false, id));
    }
    assert(http_request_under_id(pre, post, request, direct, ok, id, copy));
}

/// After a broadcast of an echo of the request `id`, every client connected before was first
/// offered a message under that id.
proof fn lemma_echo_first_offers<Req: Clone, Resp: Clone>(
    pre: ServerView<Req, Resp>,
    post: ServerView<Req, Resp>,
    m: SenderMsg<Req, Resp>,
    id: u128,
)
    requires
        broadcast_effect(pre, post, m),
        m matches SenderMsg::Message(Response::Request { id: i, .. }) && i == id,
    ensures
        forall|k: u128|
            #[trigger] pre.connections.contains_key(k) ==> first_offer_has_id(
                pre,
                post,
                k,
                false,
                id,
            ),
{
    broadcast_reaches_every_client(pre, post, m);
    assert forall|k: u128| #[trigger] pre.connections.contains_key(k) implies first_offer_has_id(
        pre,
        post,
        k,
        false,
        id,
    ) by {
        lemma_copy_keeps_id(pre, post, k, m, false, id);
    }
}

} // verus!
