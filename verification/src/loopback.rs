//! Loop-back clients: clients of the server that live in the same process and talk to it over
//! channels instead of sockets.

use vstd::prelude::*;
use tokio::sync::mpsc::UnboundedSender;
use crate::channel::{unbounded, Inlet};
use crate::ids::is_random_id;
use crate::message::{Request, Response};
use crate::server::{SenderMsg, ServerState, ServerView};
use crate::Message;

verus! {

/// A client channel that can be used to loop back requests to the server.
#[verifier::reject_recursive_types(Req)]
#[verifier::reject_recursive_types(Resp)]
pub struct LoopbackClient<Req, Resp> {
    /// Receives every message the server sends to this client.
    pub rx: Inlet<Response<Req, Resp>>,
    /// Takes the requests this client sends to the server.
    pub tx: UnboundedSender<Request<Req>>,
}

impl<Req, Resp> LoopbackClient<Req, Resp> {
    /// Another handle on which requests can be sent to the server.
    pub fn sender(&self) -> (tx: UnboundedSender<Request<Req>>)
        ensures
            tx == self.tx,
    {
        self.tx.clone()
    }

    /// The receiver of every message the server sends to this client.
    pub fn receiver(self) -> (rx: Inlet<Response<Req, Resp>>)
        ensures
            rx == self.rx,
    {
        self.rx
    }

    /// The client's two halves: where to send requests, and where the server's messages arrive.
    pub fn split(self) -> (halves: (UnboundedSender<Request<Req>>, Inlet<Response<Req, Resp>>))
        ensures
            halves == (self.tx, self.rx),
    {
        (self.tx, self.rx)
    }
}

/// The ends that the tasks serving a loop-back client work with.
#[verifier::reject_recursive_types(Req)]
#[verifier::reject_recursive_types(Resp)]
pub struct LoopbackPorts<Req, Resp> {
    /// The client itself, for the application.
    pub client: LoopbackClient<Req, Resp>,
    /// The client's connection id.
    pub client_id: u128,
    /// Where the client's requests arrive.
    pub requests: Inlet<Request<Req>>,
    /// Where the messages the server queues for the client arrive.
    pub queued: Inlet<SenderMsg<Req, Resp>>,
    /// Where the messages for the client are passed on to.
    pub deliveries: UnboundedSender<Response<Req, Resp>>,
}

/// What the task that serves a loop-back client does with a message queued for it.
pub enum LoopbackAction<Req, Resp> {
    /// Pass the message on to the client.
    Forward(Response<Req, Resp>),
    /// Nothing: pongs mean nothing to a client without a socket.
    Skip,
    /// Stop serving the client.
    Stop,
}

/// The rule of the task that serves a loop-back client: messages are passed on, a close request
/// stops it, and pongs are dropped. The task also stops once the client's receiver is gone.
pub fn loopback_action<Req, Resp>(msg: SenderMsg<Req, Resp>) -> (action: LoopbackAction<Req, Resp>)
    ensures
        match msg {
            SenderMsg::Message(m) => action == LoopbackAction::Forward(m),
            SenderMsg::Pong(_) => action is Skip,
            SenderMsg::Drop => action is Stop,
        },
{
    match msg {
        SenderMsg::Message(m) => LoopbackAction::Forward(m),
        SenderMsg::Pong(_) => LoopbackAction::Skip,
        SenderMsg::Drop => LoopbackAction::Stop,
    }
}

impl<Req: Message, Resp: Message> ServerState<Req, Resp> {
    /// Creates a loop-back client: makes its three channels and registers it under a fresh
    /// connection id, as a client that connected over a socket is registered. The requests the
    /// client sends arrive on `requests`; what the server queues for it arrives on `queued`; what
    /// is passed on through `deliveries` reaches the client's receiver.
    pub fn loopback(&mut self) -> (ports: LoopbackPorts<Req, Resp>)
        ensures
            is_random_id(ports.client_id),
            final(self)@ == (ServerView {
                connections: old(self)@.connections.insert(
                    ports.client_id,
                    final(self)@.connections[ports.client_id],
                ),
                ..old(self)@
            }),
            final(self)@.connections[ports.client_id].log().len() == 0,
            ports.requests.paired() == ports.client.tx,
            ports.queued.paired() == final(self)@.connections[ports.client_id].handle(),
            ports.client.rx.paired() == ports.deliveries,
    {
        let (client_tx, client_rx) = unbounded();
        let (network_tx, network_rx) = unbounded();
        let (client_id, _handle, sender_rx) = self.accept_client();
        LoopbackPorts {
            client: LoopbackClient { rx: network_rx, tx: client_tx },
            client_id,
            requests: client_rx,
            queued: sender_rx,
            deliveries: network_tx,
        }
    }
}

} // verus!
