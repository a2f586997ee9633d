use stomp_rs::client::connection::{ConnectionMachine, ReadOutcome};
use stomp_rs::client::listener::{ListenerAction, ServerListener};
use stomp_rs::client::registry::{
    delivered_receipt, release_awaiter, release_receipt, subscriber_for, Registry,
};
use stomp_rs::client::{connect_outcome, ClientBuilder, ClientError, TransactionFrames};
use stomp_rs::protocol::frame::{Ack, Nack, Send, Subscribe};
use stomp_rs::protocol::{ClientCommand, Frame, Headers, ServerCommand, StompMessage};

fn is_uuid_v4_text(s: &str) -> bool {
    let b = s.as_bytes();
    b.len() == 36
        && b.iter().enumerate().all(|(i, c)| {
            if i == 8 || i == 13 || i == 18 || i == 23 {
                *c == b'-'
            } else {
                c.is_ascii_digit() || (b'a'..=b'f').contains(c)
            }
        })
        && b[14] == b'4'
        && matches!(b[19], b'8' | b'9' | b'a' | b'b')
}

fn server_frame(command: ServerCommand, headers: &[(&str, &str)]) -> Frame<ServerCommand> {
    let mut h = Headers::new();
    for (k, v) in headers {
        h.insert(k.to_string(), v.to_string());
    }
    Frame::new(command, h, String::new())
}

#[test]
fn builder_connect_frame() {
    let b = ClientBuilder::new("127.0.0.1:61613".to_owned());
    assert_eq!(b.host(), "127.0.0.1:61613");
    assert_eq!(b.server_timeout(), 0);
    let f = b.connect_frame();
    assert_eq!(f.command, ClientCommand::Connect);
    assert_eq!(f.to_bytes(), b"CONNECT\naccept-version:1.2\nhost:127.0.0.1:61613\n\n\0".to_vec());
    let b = b.heartbeat(500, 750);
    assert_eq!(b.server_timeout(), 750);
    let f = b.connect_frame();
    assert_eq!(f.headers.get("heart-beat").unwrap(), "500,750");
    assert_eq!(f.headers.len(), 3);
}

#[test]
fn connect_outcome_requires_connected() {
    assert!(connect_outcome(&server_frame(ServerCommand::Connected, &[])).is_ok());
    assert!(matches!(
        connect_outcome(&server_frame(ServerCommand::Error, &[("message", "no")])),
        Err(ClientError::ConnectionError(None))
    ));
    assert!(connect_outcome(&server_frame(ServerCommand::Receipt, &[])).is_err());
}

#[test]
fn receipted_frames_carry_fresh_ids() {
    let f = Send::new("/t".to_owned()).body("x".to_owned()).into_receipted_frame();
    assert_eq!(f.command, ClientCommand::Send);
    assert_eq!(f.body, "x");
    assert!(is_uuid_v4_text(f.headers.get("receipt").unwrap()));
    let f = Ack::new("m1".to_owned()).into_receipted_frame();
    assert_eq!(f.command, ClientCommand::Ack);
    assert!(is_uuid_v4_text(f.headers.get("receipt").unwrap()));
    let f = Nack::new("m1".to_owned()).into_receipted_frame();
    assert_eq!(f.command, ClientCommand::Nack);
    assert!(is_uuid_v4_text(f.headers.get("receipt").unwrap()));
}

#[test]
fn subscription_request_names_its_target() {
    let r = Subscribe::new("1".to_owned(), "/test/topic".to_owned()).into_request();
    assert_eq!(r.id, "1");
    assert_eq!(r.destination, "/test/topic");
    assert_eq!(r.frame.command, ClientCommand::Subscribe);
    assert!(is_uuid_v4_text(r.frame.headers.get("receipt").unwrap()));
    let r = Subscribe::new("1".to_owned(), "/a".to_owned())
        .header("destination".to_owned(), "/b".to_owned())
        .into_request();
    assert_eq!(r.destination, "/b");
}

#[test]
fn transactions_mark_their_frames() {
    let (t, begin) = TransactionFrames::begin();
    assert!(is_uuid_v4_text(t.id()));
    assert_eq!(begin.command, ClientCommand::Begin);
    assert_eq!(begin.headers.get("transaction").unwrap(), t.id());
    assert!(is_uuid_v4_text(begin.headers.get("receipt").unwrap()));
    let send = t.send(Send::new("/q".to_owned()).body("b".to_owned())).into_frame();
    assert_eq!(send.headers.get("transaction").unwrap(), t.id());
    assert_eq!(send.body, "b");
    let ack = t.ack(Ack::new("m".to_owned())).into_frame();
    assert_eq!(ack.headers.get("transaction").unwrap(), t.id());
    let nack = t.nack(Nack::new("m".to_owned())).into_frame();
    assert_eq!(nack.headers.get("transaction").unwrap(), t.id());
    let commit = t.commit();
    assert_eq!(commit.command, ClientCommand::Commit);
    assert_eq!(commit.headers.get("transaction").unwrap(), t.id());
    let abort = t.abort();
    assert_eq!(abort.command, ClientCommand::Abort);
    assert_ne!(commit.headers.get("receipt").unwrap(), abort.headers.get("receipt").unwrap());
}

#[test]
fn registry_reads_back_writes() {
    let mut r: Registry<u32> = Registry::new();
    assert_eq!(r.insert("a".to_owned(), 1), None);
    assert_eq!(r.insert("b".to_owned(), 2), None);
    assert_eq!(r.insert("a".to_owned(), 3), Some(1));
    assert_eq!(r.len(), 2);
    assert_eq!(r.get("a"), Some(&3));
    assert_eq!(r.entry(0).0, "a");
    assert_eq!(r.remove("a"), Some(3));
    assert_eq!(r.get("a"), None);
    assert_eq!(r.remove("a"), None);
    assert_eq!(r.get("b"), Some(&2));
}

#[test]
fn receipts_release_their_waiters() {
    let mut pending: Registry<&str> = Registry::new();
    pending.insert("r1".to_owned(), "waiter-1");
    pending.insert("r2".to_owned(), "waiter-2");
    let receipt = server_frame(ServerCommand::Receipt, &[("receipt-id", "r1")]);
    assert_eq!(delivered_receipt(&receipt), Some("r1".to_owned()));
    assert_eq!(release_receipt(&mut pending, &receipt), Some("waiter-1"));
    assert_eq!(pending.len(), 1);
    // a MESSAGE frame with a receipt-id header delivers no receipt
    let message = server_frame(ServerCommand::Message, &[("receipt-id", "r2")]);
    assert_eq!(delivered_receipt(&message), None);
    assert_eq!(release_receipt(&mut pending, &message), None);
    assert_eq!(pending.len(), 1);
    let unknown = server_frame(ServerCommand::Receipt, &[("receipt-id", "r9")]);
    assert_eq!(release_receipt(&mut pending, &unknown), None);
}

#[test]
fn messages_go_to_their_subscriber() {
    let mut subs: Registry<u8> = Registry::new();
    subs.insert("1".to_owned(), 7);
    let m = server_frame(ServerCommand::Message, &[("subscription", "1")]);
    assert_eq!(subscriber_for(&subs, &m), Some(&7));
    let m = server_frame(ServerCommand::Message, &[("subscription", "2")]);
    assert_eq!(subscriber_for(&subs, &m), None);
    let m = server_frame(ServerCommand::Message, &[]);
    assert_eq!(subscriber_for(&subs, &m), None);
}

#[test]
fn listener_tracks_heartbeats() {
    let mut l = ServerListener::new(500, 1000);
    assert!(!l.heartbeat_overdue(1500));
    assert!(l.heartbeat_overdue(1501));
    assert!(!l.heartbeat_overdue(10));
    let ping: StompMessage<ServerCommand> = StompMessage::Ping;
    assert_eq!(l.on_message(1400, &ping, true), ListenerAction::Heartbeat);
    assert!(!l.heartbeat_overdue(1900));
    assert!(l.heartbeat_overdue(1901));
    let frame = StompMessage::Frame(server_frame(ServerCommand::Connected, &[]));
    assert_eq!(l.on_message(1450, &frame, false), ListenerAction::Deliver { to_connect: false });
    assert_eq!(l.on_message(1460, &frame, true), ListenerAction::Deliver { to_connect: true });
    assert_eq!(l.on_message(1470, &frame, true), ListenerAction::Deliver { to_connect: false });
    let silent = ServerListener::new(0, 0);
    assert!(!silent.heartbeat_overdue(1_000_000));
}

#[test]
fn connection_closes_on_refused_input() {
    let mut c = ConnectionMachine::new();
    assert!(c.accepts_traffic());
    match c.on_received(b"CONNECTED\n\n\0\n") {
        ReadOutcome::Messages(ms) => assert_eq!(ms.len(), 2),
        _ => panic!("expected messages"),
    }
    assert!(c.accepts_traffic());
    assert!(!c.on_read_error(true));
    assert!(c.accepts_traffic());
    assert!(matches!(c.on_received(b"Invalid\n"), ReadOutcome::Refused(_)));
    assert!(!c.accepts_traffic());
    let mut c = ConnectionMachine::new();
    assert!(matches!(c.on_received(b"MESSAGE\nbad\n"), ReadOutcome::Malformed));
    let mut c = ConnectionMachine::new();
    assert!(c.on_read_error(false));
    assert!(!c.accepts_traffic());
}

#[test]
fn awaiters_release_on_any_receipt_id() {
    let mut pending: Registry<u8> = Registry::new();
    pending.insert("r1".to_owned(), 1);
    let message = server_frame(ServerCommand::Message, &[("receipt-id", "r1")]);
    assert_eq!(release_awaiter(&mut pending, &message), Some(1));
    assert_eq!(pending.len(), 0);
    let none = server_frame(ServerCommand::Receipt, &[]);
    assert_eq!(release_awaiter(&mut pending, &none), None);
}
