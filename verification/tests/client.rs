use broadcast_wsrpc::client::{
    connect_step, frame_action, sender_action, within_deadline, Client, ClientError,
    ClientFrameAction, ConnectStep, PendingRequest, SenderAction, SenderMsg, BC_CHANNEL_SIZE,
    RETRY_DELAY_MS,
};
use broadcast_wsrpc::frame::{keepalive_payload, Frame};
use broadcast_wsrpc::message::{Request, Response};

#[derive(Clone, Debug, PartialEq)]
enum Req {
    Ping,
}

#[derive(Clone, Debug, PartialEq)]
enum Resp {
    Pong,
    Event(u8),
}

fn is_v4(id: u128) -> bool {
    (id >> 76) & 0xf == 4 && (id >> 62) & 0x3 == 2
}

fn all_kinds() -> Vec<Response<Req, Resp>> {
    vec![
        Response::Reply { request: 1, message: Resp::Pong, sender: None },
        Response::Notify(Resp::Event(2)),
        Response::Error("bad".to_string()),
        Response::Request { id: 3, message: Req::Ping },
        Response::InvalidRequest { id: 4, description: "no".to_string() },
    ]
}

#[test]
fn notifications_keep_only_notify() {
    let kept: Vec<Option<Resp>> = all_kinds().into_iter().map(|r| r.notification()).collect();
    assert_eq!(kept, vec![None, Some(Resp::Event(2)), None, None, None]);
}

#[test]
fn messages_keep_notify_and_reply() {
    let kept: Vec<Option<Resp>> = all_kinds().into_iter().map(|r| r.bus_message()).collect();
    assert_eq!(kept, vec![Some(Resp::Pong), Some(Resp::Event(2)), None, None, None]);
}

#[test]
fn replies_keep_reply_with_its_request_id() {
    let kept: Vec<Option<(Resp, u128)>> = all_kinds().into_iter().map(|r| r.reply()).collect();
    assert_eq!(kept, vec![Some((Resp::Pong, 1)), None, None, None, None]);
}

#[test]
fn request_new_draws_a_random_id() {
    let a = Request::new(Req::Ping, None);
    let b = Request::new(Req::Ping, Some(5));
    assert!(is_v4(a.id));
    assert!(is_v4(b.id));
    assert_ne!(a.id, b.id);
    assert_eq!(b.sender, Some(5));
    assert_eq!(a.message, Req::Ping);
}

#[test]
fn client_send_queues_the_request() {
    let mut ports = Client::<Req, Resp>::open();
    let mut outgoing = ports.outgoing.into_receiver();
    let id = ports.client.send(Req::Ping).unwrap();
    assert!(is_v4(id));
    match outgoing.try_recv() {
        Ok(SenderMsg::Message(r)) => {
            assert_eq!(r.id, id);
            assert_eq!(r.message, Req::Ping);
            assert_eq!(r.sender, None);
        },
        _ => panic!(),
    }
    ports.client.clone().disconnect();
    assert!(matches!(outgoing.try_recv(), Ok(SenderMsg::Drop)));
}

#[test]
fn disconnect_queues_the_close_after_earlier_requests() {
    let mut ports = Client::<Req, Resp>::open();
    let mut outgoing = ports.outgoing.into_receiver();
    let mut client = ports.client.clone();
    let first = client.send(Req::Ping).unwrap();
    client.disconnect();
    match outgoing.try_recv() {
        Ok(SenderMsg::Message(r)) => assert_eq!(r.id, first),
        _ => panic!(),
    }
    assert!(matches!(outgoing.try_recv(), Ok(SenderMsg::Drop)));
    assert!(outgoing.try_recv().is_err());
}

#[test]
fn sender_hung_up_when_the_writer_is_gone() {
    let mut ports = Client::<Req, Resp>::open();
    drop(ports.outgoing);
    let sent = ports.client.send(Req::Ping);
    assert_eq!(sent, None);
    assert!(matches!(PendingRequest::start(sent), Err(ClientError::SenderHungUp)));
}

#[test]
fn reader_publishes_answers_pings_and_closes() {
    let mut ports = Client::<Req, Resp>::open();
    let mut outgoing = ports.outgoing.into_receiver();
    let mut sub = ports.client.bus().subscribe();
    let client = &mut ports.client;
    let frame = Ok(Frame::Text(Some(Response::Notify(Resp::Event(1)))));
    assert!(client.handle_frame(&mut ports.bus, frame));
    assert!(matches!(sub.try_recv(), Ok(Response::Notify(Resp::Event(1)))));
    assert!(client.handle_frame(&mut ports.bus, Ok(Frame::Text(None))));
    assert!(sub.try_recv().is_err());
    assert!(client.handle_frame(&mut ports.bus, Ok(Frame::Ping(vec![3]))));
    match outgoing.try_recv() {
        Ok(SenderMsg::Pong(p)) => assert_eq!(p, vec![3]),
        _ => panic!(),
    }
    assert!(client.handle_frame(&mut ports.bus, Ok(Frame::Binary(None))));
    assert!(sub.try_recv().is_err());
    let binary = Ok(Frame::Binary(Some(Response::Reply { request: 4, message: Resp::Pong, sender: None })));
    assert!(client.handle_frame(&mut ports.bus, binary));
    assert!(matches!(sub.try_recv(), Ok(Response::Reply { request: 4, .. })));
    assert!(!client.handle_frame(&mut ports.bus, Ok(Frame::Close)));
    assert!(matches!(outgoing.try_recv(), Ok(SenderMsg::Drop)));
    assert!(!client.handle_frame(&mut ports.bus, Err(())));
    assert!(outgoing.try_recv().is_err());
    client.reader_stopped();
    assert!(matches!(outgoing.try_recv(), Ok(SenderMsg::Drop)));
}

#[test]
fn client_reader_rules() {
    let r: Result<Frame<Option<Response<Req, Resp>>>, ()> = Ok(Frame::Pong(vec![]));
    assert!(matches!(frame_action(r), ClientFrameAction::Ignore));
    let r: Result<Frame<Option<Response<Req, Resp>>>, ()> = Ok(Frame::Raw);
    assert!(matches!(frame_action(r), ClientFrameAction::Ignore));
    let r: Result<Frame<Option<Response<Req, Resp>>>, ()> = Err(());
    assert!(matches!(frame_action(r), ClientFrameAction::Fail));
    let r: Result<Frame<Option<Response<Req, Resp>>>, ()> = Ok(Frame::Close);
    assert!(matches!(frame_action(r), ClientFrameAction::Close));
}

#[test]
fn client_writer_rules() {
    assert!(matches!(sender_action::<Req>(SenderMsg::Drop), SenderAction::Close));
    match sender_action::<Req>(SenderMsg::Pong(vec![7])) {
        SenderAction::Pong(p) => assert_eq!(p, vec![7]),
        _ => panic!(),
    }
    let r = Request { id: 12, message: Req::Ping, sender: None };
    match sender_action(SenderMsg::Message(r)) {
        SenderAction::Text(r) => assert_eq!(r.id, 12),
        _ => panic!(),
    }
}

#[test]
fn replies_are_matched_by_request_id() {
    let pending = PendingRequest::start(Some(21)).unwrap();
    assert_eq!(pending.id, 21);
    assert_eq!(pending.on_reply(Resp::Pong, 20), None);
    assert_eq!(pending.on_reply(Resp::Pong, 21), Some(Resp::Pong));
    assert!(matches!(pending.on_hang_up::<Resp>(), Err(ClientError::ReceiverHungUp)));
}

#[test]
fn deadlines() {
    assert!(matches!(within_deadline::<Resp>(None), Err(ClientError::Timeout)));
    assert!(matches!(within_deadline(Some(Ok(Resp::Pong))), Ok(Resp::Pong)));
    let hung: Result<Resp, ClientError> = Err(ClientError::ReceiverHungUp);
    assert!(matches!(within_deadline(Some(hung)), Err(ClientError::ReceiverHungUp)));
}

#[test]
fn io_errors_convert() {
    let e = std::io::Error::new(std::io::ErrorKind::TimedOut, "late");
    match ClientError::from(e) {
        ClientError::Io(inner) => assert_eq!(inner.kind(), std::io::ErrorKind::TimedOut),
        _ => panic!(),
    }
}

#[test]
fn connecting_rules() {
    assert!(matches!(connect_step(true, true), ConnectStep::Connected));
    assert!(matches!(connect_step(true, false), ConnectStep::Connected));
    assert!(matches!(connect_step(false, true), ConnectStep::GiveUp));
    assert!(matches!(connect_step(false, false), ConnectStep::Retry));
    assert_eq!(RETRY_DELAY_MS, 10);
    assert_eq!(BC_CHANNEL_SIZE, 1000);
}

#[test]
fn keepalive_payload_bytes() {
    assert_eq!(keepalive_payload(), vec![1, 2, 3, 4]);
}

#[test]
fn clones_share_the_connection() {
    let ports = Client::<Req, Resp>::open();
    let mut outgoing = ports.outgoing.into_receiver();
    let mut a = ports.client.clone();
    let mut b = a.clone();
    let mut sub = b.bus().subscribe();
    let first = a.send(Req::Ping).unwrap();
    let second = b.send(Req::Ping).unwrap();
    for expected in [first, second] {
        match outgoing.try_recv() {
            Ok(SenderMsg::Message(r)) => assert_eq!(r.id, expected),
            _ => panic!(),
        }
    }
    let mut bus = ports.bus;
    assert!(a.handle_frame(&mut bus, Ok(Frame::Text(Some(Response::Notify(Resp::Event(9)))))));
    assert!(matches!(sub.try_recv(), Ok(Response::Notify(Resp::Event(9)))));
    a.disconnect();
    assert!(matches!(outgoing.try_recv(), Ok(SenderMsg::Drop)));
}
