//! The client side of the bus: sending requests, reading the server's frames, and matching
//! replies to the requests they answer.

use vstd::prelude::*;
use tokio::sync::broadcast;
use crate::channel::{bus_channel, unbounded, Bus, Inlet, Outlet};
use crate::frame::Frame;
use crate::ids::{is_random_id, new_id};
use crate::message::{Request, Response};
use crate::Message;

verus! {

/// An I/O error of the standard library; opaque to proofs.
#[verifier::external_type_specification]
#[verifier::external_body]
pub struct ExIoError(std::io::Error);

/// How many messages the client's bus keeps for subscribers that lag behind.
pub const BC_CHANNEL_SIZE: usize = 1000;

/// The ways a request can fail.
#[derive(Debug)]
pub enum ClientError {
    /// An I/O error occurred.
    Io(std::io::Error),
    /// No reply came in time.
    Timeout,
    /// The connection's reading side stopped before the reply came.
    ReceiverHungUp,
    /// The connection's writing side was gone, so the request could not be sent.
    SenderHungUp,
}

impl From<std::io::Error> for ClientError {
    fn from(x: std::io::Error) -> (e: ClientError) {
        ClientError::Io(x)
    }
}

impl vstd::std_specs::convert::FromSpecImpl<std::io::Error> for ClientError {
    open spec fn obeys_from_spec() -> bool {
        true
    }

    open spec fn from_spec(x: std::io::Error) -> ClientError {
        ClientError::Io(x)
    }
}

/// What the client queues for its writer task.
#[derive(Clone)]
pub enum SenderMsg<Req> {
    /// Close the connection.
    Drop,
    /// Answer a ping of the server with this payload.
    Pong(Vec<u8>),
    /// Send this request to the server.
    Message(Request<Req>),
}

/// A client's handle on its connection: the queue of its writer task, and the bus on which its
/// reader task publishes every message the server sends. Handles can be cloned; they share the
/// connection.
#[verifier::reject_recursive_types(Req)]
#[verifier::reject_recursive_types(Resp)]
pub struct Client<Req, Resp> {
    tx: Outlet<SenderMsg<Req>>,
    tx_bc: broadcast::Sender<Response<Req, Resp>>,
}

/// The abstract state of a client handle.
#[verifier::reject_recursive_types(Req)]
#[verifier::reject_recursive_types(Resp)]
pub struct ClientView<Req, Resp> {
    /// The handle on the writer task's queue, with what was offered through it.
    pub queue: Outlet<SenderMsg<Req>>,
    /// The handle of the bus on which the reader task publishes.
    pub bus: broadcast::Sender<Response<Req, Resp>>,
}

impl<Req, Resp> View for Client<Req, Resp> {
    type V = ClientView<Req, Resp>;

    closed spec fn view(&self) -> ClientView<Req, Resp> {
        ClientView { queue: self.tx, bus: self.tx_bc }
    }
}

impl<Req, Resp> Clone for Client<Req, Resp> {
    /// Another handle on the same connection: the same writer queue, with the same record, and
    /// the same bus.
    fn clone(&self) -> (copy: Self)
        ensures
            copy@ == self@,
    {
        Client { tx: self.tx.clone(), tx_bc: self.tx_bc.clone() }
    }
}

/// `o2` is `o1` after one more offer, of `msg` (whether the channel took it or not).
pub open spec fn offered<T>(o1: Outlet<T>, o2: Outlet<T>, msg: T) -> bool {
    &&& o2.handle() == o1.handle()
    &&& o2.log().len() == o1.log().len() + 1
    &&& o2.log().subrange(0, o1.log().len() as int) == o1.log()
    &&& o2.log()[o1.log().len() as int].0 == msg
}

/// `b2` is `b1` after one more offer, of `value` (whether a subscriber took it or not).
pub open spec fn published<T>(b1: Bus<T>, b2: Bus<T>, value: T) -> bool {
    &&& b2.handle() == b1.handle()
    &&& b2.log().len() == b1.log().len() + 1
    &&& b2.log().subrange(0, b1.log().len() as int) == b1.log()
    &&& b2.log()[b1.log().len() as int].0 == value
}

/// `send`: a request for `msg` under a fresh random id, from no connection, was offered to the
/// writer task's queue (`o1` before, `o2` after); `id` is that id when the queue took it, and
/// `None` when it refused it.
pub open spec fn sent_request<Req>(
    o1: Outlet<SenderMsg<Req>>,
    o2: Outlet<SenderMsg<Req>>,
    msg: Req,
    id: Option<u128>,
) -> bool {
    &&& o2.handle() == o1.handle()
    &&& o2.log().len() == o1.log().len() + 1
    &&& o2.log().subrange(0, o1.log().len() as int) == o1.log()
    &&& match o2.log()[o1.log().len() as int] {
        (SenderMsg::Message(r), taken) => {
            &&& r.message == msg
            &&& r.sender is None
            &&& is_random_id(r.id)
            &&& id == (if taken { Some(r.id) } else { None::<u128> })
        },
        _ => false,
    }
}

/// `handle_frame`: what one frame (or a read error) does to the client handle and the bus, and
/// whether the reader task reads on. A message of the bus, in a text or a binary frame, is
/// published; a ping is answered by queueing a pong with its payload; a close frame queues a
/// close request and ends reading, as a read error does; anything else is ignored.
pub open spec fn frame_effect<Req, Resp>(
    pre: ClientView<Req, Resp>,
    post: ClientView<Req, Resp>,
    bus_pre: Bus<Response<Req, Resp>>,
    bus_post: Bus<Response<Req, Resp>>,
    msg: Result<Frame<Option<Response<Req, Resp>>>, ()>,
    reads_on: bool,
) -> bool {
    match msg {
        Ok(Frame::Text(Some(r))) => post == pre && published(bus_pre, bus_post, r) && reads_on,
        Ok(Frame::Binary(Some(r))) => post == pre && published(bus_pre, bus_post, r) && reads_on,
        Ok(Frame::Ping(data)) => {
            &&& post.bus == pre.bus
            &&& offered(pre.queue, post.queue, SenderMsg::Pong(data))
            &&& bus_post == bus_pre
            &&& reads_on
        },
        Ok(Frame::Close) => {
            &&& post.bus == pre.bus
            &&& offered(pre.queue, post.queue, SenderMsg::Drop)
            &&& bus_post == bus_pre
            &&& !reads_on
        },
        Err(_) => post == pre && bus_post == bus_pre && !reads_on,
        _ => post == pre && bus_post == bus_pre && reads_on,
    }
}

/// The ends that a new client's tasks work with.
#[verifier::reject_recursive_types(Req)]
#[verifier::reject_recursive_types(Resp)]
pub struct ClientPorts<Req, Resp> {
    /// The client, for the application.
    pub client: Client<Req, Resp>,
    /// Where the writer task finds what to send.
    pub outgoing: Inlet<SenderMsg<Req>>,
    /// Where the reader task publishes the server's messages.
    pub bus: Bus<Response<Req, Resp>>,
}

/// What the client's reader task does with one frame read from the server, or a read error.
pub enum ClientFrameAction<Req, Resp> {
    /// Publish the message to every subscriber and read on.
    Publish(Response<Req, Resp>),
    /// Queue a pong with this payload and read on.
    Pong(Vec<u8>),
    /// The server closes the connection: queue a close request and stop reading.
    Close,
    /// Read on: the frame is of no interest, or its text was not a message of the bus.
    Ignore,
    /// The connection failed: stop reading.
    Fail,
}

/// What the client's reader task does with one frame read from the server, or a read error.
pub fn frame_action<Req, Resp>(msg: Result<Frame<Option<Response<Req, Resp>>>, ()>) -> (action:
    ClientFrameAction<Req, Resp>)
    ensures
        match msg {
            Ok(Frame::Text(Some(r))) => action == ClientFrameAction::Publish(r),
            Ok(Frame::Binary(Some(r))) => action == ClientFrameAction::Publish(r),
            Ok(Frame::Ping(data)) => action == ClientFrameAction::<Req, Resp>::Pong(data),
            Ok(Frame::Close) => action is Close,
            Err(_) => action is Fail,
            _ => action is Ignore,
        },
{
    match msg {
        Ok(Frame::Text(Some(r))) => ClientFrameAction::Publish(r),
        Ok(Frame::Binary(Some(r))) => ClientFrameAction::Publish(r),
        Ok(Frame::Text(None)) => ClientFrameAction::Ignore,
        Ok(Frame::Ping(data)) => ClientFrameAction::Pong(data),
        Ok(Frame::Close) => ClientFrameAction::Close,
        Ok(_) => ClientFrameAction::Ignore,
        Err(_) => ClientFrameAction::Fail,
    }
}

/// What the client's writer task does with what was queued for it.
pub enum SenderAction<Req> {
    /// Close the connection and stop.
    Close,
    /// Send a pong frame with this payload.
    Pong(Vec<u8>),
    /// Send this request as a JSON text frame.
    Text(Request<Req>),
}

/// The writer task's rule: a close request closes the connection, pongs and requests are sent.
/// The task goes on while sending succeeds.
pub fn sender_action<Req>(msg: SenderMsg<Req>) -> (action: SenderAction<Req>)
    ensures
        match msg {
            SenderMsg::Drop => action is Close,
            SenderMsg::Pong(data) => action == SenderAction::<Req>::Pong(data),
            SenderMsg::Message(r) => action == SenderAction::Text(r),
        },
{
    match msg {
        SenderMsg::Drop => SenderAction::Close,
        SenderMsg::Pong(data) => SenderAction::Pong(data),
        SenderMsg::Message(r) => SenderAction::Text(r),
    }
}

impl<Req: Message, Resp: Message> Client<Req, Resp> {
    /// A client on a new connection: makes the writer task's queue and the bus.
    pub fn open() -> (ports: ClientPorts<Req, Resp>)
        ensures
            ports.client@.queue.log().len() == 0,
            ports.outgoing.paired() == ports.client@.queue.handle(),
            ports.client@.bus == ports.bus.handle(),
            ports.bus.log().len() == 0,
    {
        let (receiver_tx, _) = bus_channel(BC_CHANNEL_SIZE);
        let (sender_tx, sender_rx) = unbounded();
        let client = Client { tx: Outlet::new(sender_tx), tx_bc: receiver_tx.clone() };
        ClientPorts { client, outgoing: sender_rx, bus: Bus::new(receiver_tx) }
    }

    /// The bus on which every message the server sends is published.
    pub fn bus(&self) -> (bus: &broadcast::Sender<Response<Req, Resp>>)
        ensures
            *bus == self@.bus,
    {
        &self.tx_bc
    }

    /// Sends `msg` to the server as a request under a fresh random id; the id, or `None` when
    /// the connection's writing side is gone.
    pub fn send(&mut self, msg: Req) -> (id: Option<u128>)
        ensures
            final(self)@.bus == old(self)@.bus,
            sent_request(old(self)@.queue, final(self)@.queue, msg, id),
    {
        let id = new_id();
        let request = Request { id, message: msg, sender: None };
        let ghost before = self.tx;
        let taken = self.tx.send(SenderMsg::Message(request));
        proof {
            assert(self.tx.log().subrange(0, before.log().len() as int) =~= before.log());
        }
        if taken {
            Some(id)
        } else {
            None
        }
    }

    /// Asks the writer task to close the connection: a close request is queued after what was
    /// queued before, so that is still written first.
    pub fn disconnect(&mut self)
        ensures
            final(self)@.bus == old(self)@.bus,
            offered(old(self)@.queue, final(self)@.queue, SenderMsg::Drop),
    {
        let ghost before = self.tx;
        let _ = self.tx.send(SenderMsg::Drop);
        proof {
            assert(self.tx.log().subrange(0, before.log().len() as int) =~= before.log());
        }
    }

    /// Does what the reader task's rule says for one frame, publishing on `bus`; `true` when
    /// the task reads on.
    pub fn handle_frame(
        &mut self,
        bus: &mut Bus<Response<Req, Resp>>,
        msg: Result<Frame<Option<Response<Req, Resp>>>, ()>,
    ) -> (reads_on: bool)
        ensures
            frame_effect(old(self)@, final(self)@, *old(bus), *final(bus), msg, reads_on),
    {
        let ghost before = self.tx;
        let ghost bus_before = *bus;
        match frame_action(msg) {
            ClientFrameAction::Publish(r) => {
                let _ = bus.publish(r);
                proof {
                    assert(bus.log().subrange(0, bus_before.log().len() as int) =~= bus_before.log());
                }
                true
            },
            ClientFrameAction::Pong(data) => {
                let _ = self.tx.send(SenderMsg::Pong(data));
                proof {
                    assert(self.tx.log().subrange(0, before.log().len() as int) =~= before.log());
                }
                true
            },
            ClientFrameAction::Close => {
                let _ = self.tx.send(SenderMsg::Drop);
                proof {
                    assert(self.tx.log().subrange(0, before.log().len() as int) =~= before.log());
                }
                false
            },
            ClientFrameAction::Ignore => true,
            ClientFrameAction::Fail => false,
        }
    }

    /// Asks the writer task to close the connection once the reader task has stopped.
    pub fn reader_stopped(&mut self)
        ensures
            final(self)@.bus == old(self)@.bus,
            offered(old(self)@.queue, final(self)@.queue, SenderMsg::Drop),
    {
        let ghost before = self.tx;
        let _ = self.tx.send(SenderMsg::Drop);
        proof {
            assert(self.tx.log().subrange(0, before.log().len() as int) =~= before.log());
        }
    }
}

/// A request that was sent and waits for its reply.
pub struct PendingRequest {
    pub id: u128,
}

impl PendingRequest {
    /// The wait for the reply to the request sent under `sent`; `SenderHungUp` when the request
    /// could not be sent.
    pub fn start(sent: Option<u128>) -> (r: Result<PendingRequest, ClientError>)
        ensures
            match sent {
                Some(id) => r matches Ok(p) && p.id == id,
                None => r matches Err(ClientError::SenderHungUp),
            },
    {
        match sent {
            Some(id) => Ok(PendingRequest { id }),
            None => Err(ClientError::SenderHungUp),
        }
    }

    /// The answer, if `reply` (a reply to the request with id `request`) is the one awaited.
    pub fn on_reply<Resp>(&self, reply: Resp, request: u128) -> (answer: Option<Resp>)
        ensures
            answer == (if request == self.id { Some(reply) } else { None::<Resp> }),
    {
        if request == self.id {
            Some(reply)
        } else {
            None
        }
    }

    /// The outcome when the replies stop before the awaited one came.
    pub fn on_hang_up<Resp>(&self) -> (r: Result<Resp, ClientError>)
        ensures
            r matches Err(ClientError::ReceiverHungUp),
    {
        Err(ClientError::ReceiverHungUp)
    }
}

/// The outcome of a request given a time limit: what the wait gave, or `Timeout` when the time
/// ran out first (`None`).
pub fn within_deadline<Resp>(waited: Option<Result<Resp, ClientError>>) -> (r: Result<Resp, ClientError>)
    ensures
        match waited {
            Some(x) => r == x,
            None => r matches Err(ClientError::Timeout),
        },
{
    match waited {
        Some(x) => x,
        None => Err(ClientError::Timeout),
    }
}

/// What a connecting client does after an attempt.
pub enum ConnectStep {
    /// The attempt succeeded.
    Connected,
    /// Wait `RETRY_DELAY_MS` milliseconds and try again.
    Retry,
    /// Give up: the time allowed has passed.
    GiveUp,
}

/// How long a connecting client waits between attempts, in milliseconds.
pub const RETRY_DELAY_MS: u64 = 10;

/// The connecting rule: attempts are repeated until one succeeds or, after a failed attempt, the
/// time allowed is found to have passed.
pub fn connect_step(attempt_succeeded: bool, time_is_up: bool) -> (step: ConnectStep)
    ensures
        attempt_succeeded ==> step is Connected,
        !attempt_succeeded && time_is_up ==> step is GiveUp,
        !attempt_succeeded && !time_is_up ==> step is Retry,
{
    if attempt_succeeded {
        ConnectStep::Connected
    } else if time_is_up {
        ConnectStep::GiveUp
    } else {
        ConnectStep::Retry
    }
}

} // verus!
