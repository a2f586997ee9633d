use stomp_rs::protocol::frame::{
    Abort, Ack, Begin, Commit, Connect, Disconnect, Nack, Send, Subscribe, Unsubscribe,
};
use stomp_rs::protocol::{ClientCommand, Frame};

#[test]
fn test_ack() {
    let ack_id = "12345";
    let test_header = "random";
    let test_value = "54321";

    let frame: Frame<ClientCommand> = Ack::new(ack_id.to_owned())
        .header(test_header.to_owned(), test_value.to_owned())
        .into_frame();

    assert_eq!(frame.command, ClientCommand::Ack);
    assert_eq!(frame.headers.get("id").unwrap(), ack_id);
    assert_eq!(frame.headers.get(test_header).unwrap(), test_value);
}

#[test]
fn test_nack() {
    let nack_id = "12345";
    let test_header = "random";
    let test_value = "54321";

    let frame: Frame<ClientCommand> = Nack::new(nack_id.to_owned())
        .header(test_header.to_owned(), test_value.to_owned())
        .into_frame();

    assert_eq!(frame.command, ClientCommand::Nack);
    assert_eq!(frame.headers.get("id").unwrap(), nack_id);
    assert_eq!(frame.headers.get(test_header).unwrap(), test_value);
}

#[test]
fn test_connect() {
    let accept_version = "1.2";
    let client_heartbeat = 10;
    let server_heartbeat = 25;
    let host = "test-host";
    let test_header = "random";
    let test_value = "54321";

    let frame: Frame<ClientCommand> = Connect::new(accept_version.to_owned(), host.to_owned())
        .heartbeat(client_heartbeat, server_heartbeat)
        .header(test_header.to_owned(), test_value.to_owned())
        .into_frame();

    assert_eq!(frame.command, ClientCommand::Connect);
    assert_eq!(frame.headers.get("accept-version").unwrap(), accept_version);
    assert_eq!(frame.headers.get("host").unwrap(), host);
    assert_eq!(
        frame.headers.get("heart-beat").unwrap(),
        &format!("{},{}", client_heartbeat, server_heartbeat)
    );
    assert_eq!(frame.headers.get(test_header).unwrap(), test_value);
}

#[test]
fn test_send() {
    let destination = "/dest/123";
    let body = "test-payload";
    let test_header = "random";
    let test_value = "54321";

    let frame: Frame<ClientCommand> = Send::new(destination.to_owned())
        .body(body.to_owned())
        .header(test_header.to_owned(), test_value.to_owned())
        .into_frame();

    assert_eq!(frame.command, ClientCommand::Send);
    assert_eq!(frame.headers.get("destination").unwrap(), destination);
    assert_eq!(frame.body, body);
    assert_eq!(frame.headers.get(test_header).unwrap(), test_value);
}

#[test]
fn test_subscribe() {
    let subscribe_id = "12345";
    let destination = "/dest/123";
    let receipt_id = "receipt-123";
    let test_header = "random";
    let test_value = "54321";

    let frame: Frame<ClientCommand> =
        Subscribe::new(subscribe_id.to_owned(), destination.to_owned())
            .receipt(receipt_id.to_owned())
            .header(test_header.to_owned(), test_value.to_owned())
            .into_frame();

    assert_eq!(frame.command, ClientCommand::Subscribe);
    assert_eq!(frame.headers.get("id").unwrap(), subscribe_id);
    assert_eq!(frame.headers.get("destination").unwrap(), destination);
    assert_eq!(frame.headers.get("receipt").unwrap(), receipt_id);
    assert_eq!(frame.headers.get(test_header).unwrap(), test_value);
}

#[test]
fn heartbeat_header_is_decimal_pair() {
    let frame = Connect::new("1.2".to_owned(), "h".to_owned())
        .heartbeat(0, 4294967295)
        .into_frame();
    assert_eq!(frame.headers.get("heart-beat").unwrap(), "0,4294967295");
    let frame = Connect::new("1.2".to_owned(), "h".to_owned())
        .heartbeat(1000, 7)
        .into_frame();
    assert_eq!(frame.headers.get("heart-beat").unwrap(), "1000,7");
}

#[test]
fn header_replaces_in_place() {
    let frame = Send::new("/a".to_owned())
        .header("x".to_owned(), "1".to_owned())
        .header("destination".to_owned(), "/b".to_owned())
        .into_frame();
    assert_eq!(frame.headers.len(), 2);
    assert_eq!(frame.headers.entry(0).0, "destination");
    assert_eq!(frame.headers.entry(0).1, "/b");
    assert_eq!(frame.headers.entry(1).0, "x");
    assert!(frame.headers.contains_key("x"));
    assert!(!frame.headers.contains_key("y"));
    assert!(frame.headers.get("y").is_none());
}

#[test]
fn builders_carry_their_commands() {
    let f = Unsubscribe::new("s1".to_owned()).receipt("r".to_owned()).into_frame();
    assert_eq!(f.command, ClientCommand::Unsubscribe);
    assert_eq!(f.headers.get("id").unwrap(), "s1");
    assert_eq!(f.headers.get("receipt").unwrap(), "r");
    let f = Begin::new("t".to_owned()).into_frame();
    assert_eq!(f.command, ClientCommand::Begin);
    assert_eq!(f.headers.get("transaction").unwrap(), "t");
    let f = Commit::new("t".to_owned()).into_frame();
    assert_eq!(f.command, ClientCommand::Commit);
    let f = Abort::new("t".to_owned()).into_frame();
    assert_eq!(f.command, ClientCommand::Abort);
    let f = Disconnect::new("t".to_owned()).receipt("77".to_owned()).into_frame();
    assert_eq!(f.command, ClientCommand::Disconnect);
    assert_eq!(f.headers.get("receipt").unwrap(), "77");
    assert_eq!(f.body, "");
    let f = Ack::new("m".to_owned()).transaction("t9".to_owned()).into_frame();
    assert_eq!(f.headers.get("transaction").unwrap(), "t9");
    let f = Nack::new("m".to_owned()).transaction("t8".to_owned()).receipt("r8".to_owned()).into_frame();
    assert_eq!(f.headers.get("transaction").unwrap(), "t8");
    assert_eq!(f.headers.get("receipt").unwrap(), "r8");
}

fn is_uuid_v4_text(s: &str) -> bool {
    let b = s.as_bytes();
    if b.len() != 36 {
        return false;
    }
    for (i, c) in b.iter().enumerate() {
        let ok = if i == 8 || i == 13 || i == 18 || i == 23 {
            *c == b'-'
        } else {
            c.is_ascii_digit() || (b'a'..=b'f').contains(c)
        };
        if !ok {
            return false;
        }
    }
    b[14] == b'4' && matches!(b[19], b'8' | b'9' | b'a' | b'b')
}

#[test]
fn random_subscription_id_is_a_v4_uuid() {
    let a = Subscribe::new_with_random_id("/topic/t".to_owned()).into_frame();
    let b = Subscribe::new_with_random_id("/topic/t".to_owned()).into_frame();
    let ida = a.headers.get("id").unwrap();
    let idb = b.headers.get("id").unwrap();
    assert!(is_uuid_v4_text(ida));
    assert!(is_uuid_v4_text(idb));
    assert_ne!(ida, idb);
    assert_eq!(a.headers.get("destination").unwrap(), "/topic/t");
    assert_eq!(a.headers.entry(0).0, "id");
}
