use broadcast_wsrpc::frame::Frame;
use broadcast_wsrpc::loopback::{loopback_action, LoopbackAction};
use broadcast_wsrpc::message::{Request, Response};
use broadcast_wsrpc::server::{
    http_failure_reply, write_action, ClientOutlet, HttpFailure, Incoming, Requested, RespondTo,
    SenderMsg, ServerState,
    WriterAction, WriterEvent,
};
use tokio::sync::mpsc::{unbounded_channel, UnboundedReceiver};
use tokio::sync::oneshot;

#[derive(Clone, Debug, PartialEq)]
enum Req {
    Shutdown,
    Ping(u32),
}

#[derive(Clone, Debug, PartialEq)]
enum Resp {
    Done,
    Pong(u32),
}

type Server = ServerState<Req, Resp>;
type Queue = UnboundedReceiver<SenderMsg<Req, Resp>>;

fn is_v4(id: u128) -> bool {
    (id >> 76) & 0xf == 4 && (id >> 62) & 0x3 == 2
}

fn connect(server: &mut Server) -> (u128, Queue) {
    let (tx, rx) = unbounded_channel();
    let id = server.register_sender(tx);
    (id, rx)
}

fn new_server() -> (Server, UnboundedReceiver<Requested<Req, Resp>>) {
    let (server, rx) = Server::new();
    (server, rx.into_receiver())
}

fn accept(server: &mut Server) -> (u128, ClientOutlet<Req, Resp>, Queue) {
    let (id, handle, rx) = server.accept_client();
    (id, handle, rx.into_receiver())
}

fn next_response(rx: &mut Queue) -> Response<Req, Resp> {
    match rx.try_recv().expect("a queued message") {
        SenderMsg::Message(m) => m,
        SenderMsg::Drop => panic!("unexpected close request"),
        SenderMsg::Pong(_) => panic!("unexpected pong"),
    }
}

fn assert_empty(rx: &mut Queue) {
    assert!(rx.try_recv().is_err());
}

#[test]
fn server_shutdown_one() {
    let (mut server, mut rx) = new_server();
    let mut ports = server.loopback();
    let mut requests = ports.requests.into_receiver();
    let mut queued = ports.queued.into_receiver();
    let (tx, _) = ports.client.split();
    let _ = tx.send(Request::new(Req::Shutdown, None));

    let sent = requests.try_recv().unwrap();
    assert!(server.handle_loopback_request(ports.client_id, sent));
    let msg = rx.try_recv().unwrap();
    let (req, _) = msg.split();
    assert!(matches!(req, Req::Shutdown));
    server.shutdown();
    assert!(matches!(queued.try_recv(), Ok(SenderMsg::Drop)));
}

#[test]
fn server_shutdown_two() {
    let (mut server, _) = new_server();
    let mut ports = server.loopback();
    let mut queued = ports.queued.into_receiver();

    server.broadcast(Resp::Done);
    let queued = queued.try_recv().unwrap();
    match loopback_action(queued) {
        LoopbackAction::Forward(m) => ports.deliveries.send(m).unwrap(),
        _ => panic!(),
    }
    let rx_msg = ports.client.receiver().into_receiver().try_recv().unwrap();
    match rx_msg {
        Response::Notify(msg) => assert!(matches!(msg, Resp::Done)),
        _ => panic!(),
    }
    server.shutdown();
}

#[test]
fn broadcast_reaches_every_client_and_drops_dead_ones() {
    let (mut server, _rx) = new_server();
    let (a, mut qa) = connect(&mut server);
    let (b, mut qb) = connect(&mut server);
    let (c, qc) = connect(&mut server);
    drop(qc);
    server.broadcast(Resp::Pong(7));
    assert!(matches!(next_response(&mut qa), Response::Notify(Resp::Pong(7))));
    assert!(matches!(next_response(&mut qb), Response::Notify(Resp::Pong(7))));
    assert!(server.is_connected(a));
    assert!(server.is_connected(b));
    assert!(!server.is_connected(c));
    assert_empty(&mut qa);
    assert_empty(&mut qb);
}

#[test]
fn register_gives_random_ids_and_disconnect_closes() {
    let (mut server, _rx) = new_server();
    let (a, mut qa) = connect(&mut server);
    let (b, _qb) = connect(&mut server);
    assert!(is_v4(a));
    assert!(is_v4(b));
    assert_ne!(a, b);
    server.disconnect_sender(a);
    assert!(!server.is_connected(a));
    assert!(server.is_connected(b));
    assert!(matches!(qa.try_recv(), Ok(SenderMsg::Drop)));
    // Removing an unknown client changes nothing.
    server.remove_client(a);
    assert!(server.is_connected(b));
}

#[test]
fn valid_request_echoed_only_when_broadcasting() {
    let (mut server, mut rx) = new_server();
    let (a, mut qa) = connect(&mut server);
    let (_b, mut qb) = connect(&mut server);

    let incoming = Incoming::Valid { id: 42, message: Req::Ping(1) };
    assert!(server.handle_text_message(incoming, a));
    assert_empty(&mut qa);
    assert_empty(&mut qb);
    let requested = rx.try_recv().unwrap();
    assert_eq!(*requested.msg(), Req::Ping(1));
    assert_eq!(requested.reply.sender, Some(a));
    assert_eq!(requested.request_id(), 42);

    server.enable_broadcast_reqrep(true);
    let incoming = Incoming::Valid { id: 43, message: Req::Ping(2) };
    assert!(server.handle_text_message(incoming, a));
    for q in [&mut qa, &mut qb] {
        match next_response(q) {
            Response::Request { id, message } => {
                assert_eq!(id, 43);
                assert_eq!(message, Req::Ping(2));
            },
            _ => panic!(),
        }
    }
    let requested = rx.try_recv().unwrap();
    assert_eq!(requested.reply.id, 43);
}

#[test]
fn unicast_answer_reaches_requester_only() {
    let (mut server, mut rx) = new_server();
    let (a, mut qa) = connect(&mut server);
    let (_b, mut qb) = connect(&mut server);
    assert!(server.handle_text_message(Incoming::Valid { id: 5, message: Req::Ping(3) }, a));
    let requested = rx.try_recv().unwrap();
    requested.answer(&mut server, Resp::Pong(3));
    match next_response(&mut qa) {
        Response::Reply { request, message, sender } => {
            assert_eq!(request, 5);
            assert_eq!(message, Resp::Pong(3));
            assert_eq!(sender, Some(a));
        },
        _ => panic!(),
    }
    assert_empty(&mut qb);
}

#[test]
fn broadcast_answer_reaches_every_client() {
    let (mut server, mut rx) = new_server();
    let (a, mut qa) = connect(&mut server);
    let (_b, mut qb) = connect(&mut server);
    assert!(server.handle_text_message(Incoming::Valid { id: 6, message: Req::Ping(4) }, a));
    let (_req, reply) = rx.try_recv().unwrap().split();
    assert_eq!(reply.request_id(), 6);
    reply.answer_broadcast(&mut server, Resp::Pong(4));
    for q in [&mut qa, &mut qb] {
        match next_response(q) {
            Response::Reply { request, message, .. } => {
                assert_eq!(request, 6);
                assert_eq!(message, Resp::Pong(4));
            },
            _ => panic!(),
        }
    }
}

#[test]
fn answer_follows_broadcast_setting() {
    let (mut server, _rx) = new_server();
    let (a, mut qa) = connect(&mut server);
    let (_b, mut qb) = connect(&mut server);
    server.enable_broadcast_reqrep(true);
    let reply = RespondTo { id: 9, direct: None, sender: Some(a) };
    reply.answer(&mut server, Resp::Done);
    assert!(matches!(next_response(&mut qa), Response::Reply { request: 9, .. }));
    assert!(matches!(next_response(&mut qb), Response::Reply { request: 9, .. }));
    server.enable_broadcast_reqrep(false);
    let reply = RespondTo { id: 10, direct: None, sender: Some(a) };
    reply.answer(&mut server, Resp::Done);
    assert!(matches!(next_response(&mut qa), Response::Reply { request: 10, .. }));
    assert_empty(&mut qb);
}

#[test]
fn answer_without_origin_reaches_no_client() {
    let (mut server, _rx) = new_server();
    let (_a, mut qa) = connect(&mut server);
    let reply = RespondTo { id: 11, direct: None, sender: None };
    reply.answer_unicast(&mut server, Resp::Done);
    assert_empty(&mut qa);
}

#[test]
fn http_request_is_broadcast_and_answered_directly() {
    let (mut server, mut rx) = new_server();
    let (_a, mut qa) = connect(&mut server);
    let (direct, mut waiting) = oneshot::channel();
    assert!(server.handle_http_request(Req::Ping(8), direct));
    let echoed_id = match next_response(&mut qa) {
        Response::Request { id, message } => {
            assert_eq!(message, Req::Ping(8));
            id
        },
        _ => panic!(),
    };
    assert!(is_v4(echoed_id));
    let requested = rx.try_recv().unwrap();
    assert_eq!(requested.reply.id, echoed_id);
    assert_eq!(requested.reply.sender, None);
    requested.answer(&mut server, Resp::Pong(8));
    assert_eq!(waiting.try_recv().unwrap(), Resp::Pong(8));
    assert_empty(&mut qa);
}

#[test]
fn unreadable_texts_are_written_to_every_client() {
    let (mut server, mut rx) = new_server();
    let (a, mut qa) = connect(&mut server);
    let (_b, mut qb) = connect(&mut server);
    assert!(server.handle_text_message(Incoming::Malformed("expected value".to_string()), a));
    for q in [&mut qa, &mut qb] {
        match next_response(q) {
            Response::Error(e) => assert_eq!(e, "expected value"),
            _ => panic!(),
        }
    }
    let invalid = Incoming::Invalid { id: 77, description: "unknown variant".to_string() };
    assert!(server.handle_text_message(invalid, a));
    for q in [&mut qa, &mut qb] {
        match next_response(q) {
            Response::InvalidRequest { id, description } => {
                assert_eq!(id, 77);
                assert_eq!(description, "unknown variant");
            },
            _ => panic!(),
        }
    }
    assert_empty(&mut qa);
    assert_empty(&mut qb);
    assert!(rx.try_recv().is_err());
}

#[test]
fn send_to_a_dead_client_removes_it() {
    let (mut server, _rx) = new_server();
    let (a, qa) = connect(&mut server);
    drop(qa);
    server.send(a, Response::Notify(Resp::Done));
    assert!(!server.is_connected(a));
}

#[test]
fn unicast_to_a_dead_client_removes_it() {
    let (mut server, _rx) = new_server();
    let (a, qa) = connect(&mut server);
    let (b, mut qb) = connect(&mut server);
    drop(qa);
    server.unicast(a, SenderMsg::Message(Response::Notify(Resp::Done)));
    assert!(!server.is_connected(a));
    server.unicast(b, SenderMsg::Message(Response::Notify(Resp::Done)));
    assert!(server.is_connected(b));
    assert!(matches!(next_response(&mut qb), Response::Notify(Resp::Done)));
}

#[test]
fn frames_from_a_client() {
    let (mut server, mut rx) = new_server();
    let (a, mut tx_resp, mut rx_resp) = accept(&mut server);
    assert!(server.is_connected(a));
    assert!(is_v4(a));
    assert!(server.handle_rx(a, Ok(Frame::Ping(vec![9, 8])), &mut tx_resp));
    match rx_resp.try_recv() {
        Ok(SenderMsg::Pong(p)) => assert_eq!(p, vec![9, 8]),
        _ => panic!(),
    }
    assert!(server.handle_rx(a, Ok(Frame::Pong(vec![])), &mut tx_resp));
    assert!(server.handle_rx(a, Ok(Frame::Raw), &mut tx_resp));
    assert!(!server.handle_rx(a, Ok(Frame::Close), &mut tx_resp));
    assert!(!server.handle_rx(a, Err(()), &mut tx_resp));
    assert!(rx_resp.try_recv().is_err());
    assert!(rx.try_recv().is_err());
}

#[test]
fn binary_frames_are_read_as_text_frames_are() {
    let (mut server, mut rx) = new_server();
    let (a, mut tx_resp, mut rx_resp) = accept(&mut server);
    let valid = Incoming::Valid { id: 21, message: Req::Ping(6) };
    assert!(server.handle_rx(a, Ok(Frame::Binary(valid)), &mut tx_resp));
    let requested = rx.try_recv().unwrap();
    assert_eq!(*requested.msg(), Req::Ping(6));
    assert_eq!(requested.reply.id, 21);
    assert_eq!(requested.reply.sender, Some(a));
    let malformed = Incoming::Malformed("not messagepack".to_string());
    assert!(server.handle_rx(a, Ok(Frame::Binary(malformed)), &mut tx_resp));
    match rx_resp.try_recv() {
        Ok(SenderMsg::Message(Response::Error(e))) => assert_eq!(e, "not messagepack"),
        _ => panic!(),
    }
    let text = Incoming::Valid { id: 22, message: Req::Ping(6) };
    assert!(server.handle_rx(a, Ok(Frame::Text(text)), &mut tx_resp));
    assert_eq!(rx.try_recv().unwrap().reply.id, 22);
}

#[test]
fn accepted_clients_get_their_own_messages() {
    let (mut server, _rx) = new_server();
    let (a, _tx_a, mut rx_a) = accept(&mut server);
    let (b, _tx_b, mut rx_b) = accept(&mut server);
    assert_ne!(a, b);
    server.send(a, Response::Notify(Resp::Pong(1)));
    assert!(matches!(rx_a.try_recv(), Ok(SenderMsg::Message(Response::Notify(Resp::Pong(1))))));
    assert!(rx_b.try_recv().is_err());
    server.remove_client(b);
    assert!(matches!(rx_b.try_recv(), Ok(SenderMsg::Drop)));
}

#[test]
fn shutdown_closes_clients_listeners_and_requests() {
    let (mut server, mut rx) = new_server();
    let (a, mut qa) = connect(&mut server);
    let (stop, mut stopped) = oneshot::channel();
    server.add_listener(stop);
    server.shutdown();
    assert!(matches!(qa.try_recv(), Ok(SenderMsg::Drop)));
    assert!(!server.is_connected(a));
    assert!(stopped.try_recv().is_ok());
    assert!(!server.handle_text_message(Incoming::Valid { id: 1, message: Req::Shutdown }, a));
    assert!(rx.try_recv().is_err());
    server.broadcast(Resp::Done);
    assert_empty(&mut qa);
}

#[test]
fn dispatch_fails_once_the_application_is_gone() {
    let (mut server, rx) = new_server();
    drop(rx);
    let (a, _qa) = connect(&mut server);
    assert!(!server.handle_text_message(Incoming::Valid { id: 2, message: Req::Shutdown }, a));
}

#[test]
fn writer_rules() {
    match write_action::<Req, Resp>(WriterEvent::Tick) {
        WriterAction::Ping(p) => assert_eq!(p, vec![1, 2, 3, 4]),
        _ => panic!(),
    }
    match write_action::<Req, Resp>(WriterEvent::Queued(Some(SenderMsg::Pong(vec![5])))) {
        WriterAction::Pong(p) => assert_eq!(p, vec![5]),
        _ => panic!(),
    }
    let m = SenderMsg::Message(Response::<Req, Resp>::Notify(Resp::Done));
    assert!(matches!(write_action(WriterEvent::Queued(Some(m))), WriterAction::Text(Response::Notify(Resp::Done))));
    assert!(matches!(write_action::<Req, Resp>(WriterEvent::Queued(Some(SenderMsg::Drop))), WriterAction::Stop));
    assert!(matches!(write_action::<Req, Resp>(WriterEvent::Queued(None)), WriterAction::Stop));
}

#[test]
fn loopback_rules() {
    assert!(matches!(loopback_action::<Req, Resp>(SenderMsg::Drop), LoopbackAction::Stop));
    assert!(matches!(loopback_action::<Req, Resp>(SenderMsg::Pong(vec![1])), LoopbackAction::Skip));
    let m = SenderMsg::Message(Response::Error("x".to_string()));
    assert!(matches!(loopback_action::<Req, Resp>(m), LoopbackAction::Forward(Response::Error(_))));
}

#[test]
fn loopback_sender_reaches_the_server() {
    let (mut server, mut rx) = new_server();
    let mut ports = server.loopback();
    let mut requests = ports.requests.into_receiver();
    assert!(is_v4(ports.client_id));
    assert!(server.is_connected(ports.client_id));
    let tx = ports.client.sender();
    tx.send(Request::new(Req::Ping(5), None)).unwrap();
    let req = requests.try_recv().unwrap();
    assert!(server.handle_loopback_request(ports.client_id, req));
    let requested = rx.try_recv().unwrap();
    assert_eq!(requested.reply.sender, Some(ports.client_id));
    let _rx = ports.client.receiver();
}

#[test]
fn http_failures_are_bad_requests() {
    assert_eq!(
        http_failure_reply(HttpFailure::NotUtf8),
        (400, "Cannot decode body as UTF-8.", None)
    );
    assert_eq!(http_failure_reply(HttpFailure::Undecodable), (400, "Cannot deserialize body", None));
    assert_eq!(
        http_failure_reply(HttpFailure::Unanswered),
        (400, "Cannot process request", Some("Unknown error"))
    );
}

#[test]
fn loopback_requests_arrive_in_order_stamped_with_the_client() {
    let (mut server, mut rx) = new_server();
    let mut ports = server.loopback();
    let mut requests = ports.requests.into_receiver();
    let tx = ports.client.sender();
    for (n, sender) in [(1u32, None), (2, Some(99u128)), (3, None)] {
        tx.send(Request { id: 100 + n as u128, message: Req::Ping(n), sender }).unwrap();
    }
    while let Ok(req) = requests.try_recv() {
        assert!(server.handle_loopback_request(ports.client_id, req));
    }
    for n in 1u32..=3 {
        let requested = rx.try_recv().unwrap();
        assert_eq!(*requested.msg(), Req::Ping(n));
        assert_eq!(requested.reply.id, 100 + n as u128);
        assert_eq!(requested.reply.sender, Some(ports.client_id));
    }
    assert!(rx.try_recv().is_err());
}

#[test]
fn loopback_forwards_messages_until_the_close_request() {
    let queued = vec![
        SenderMsg::Message(Response::<Req, Resp>::Notify(Resp::Pong(1))),
        SenderMsg::Pong(vec![1]),
        SenderMsg::Message(Response::Notify(Resp::Pong(2))),
        SenderMsg::Drop,
        SenderMsg::Message(Response::Notify(Resp::Pong(3))),
    ];
    let mut forwarded = Vec::new();
    for msg in queued {
        match loopback_action(msg) {
            LoopbackAction::Forward(Response::Notify(r)) => forwarded.push(r),
            LoopbackAction::Forward(_) => panic!(),
            LoopbackAction::Skip => {},
            LoopbackAction::Stop => break,
        }
    }
    assert_eq!(forwarded, vec![Resp::Pong(1), Resp::Pong(2)]);
}
