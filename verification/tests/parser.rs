use stomp_rs::protocol::command::Command;
use stomp_rs::protocol::frame::Send;
use stomp_rs::protocol::text::same_text;
use stomp_rs::protocol::{
    ClientCommand, Frame, FrameParser, Headers, ParseError, ServerCommand, StompMessage,
};

#[test]
fn parse_test() {
    let body = "SEND\n\
        test: value\n\
        test_val: heeerre\n\
        \n\
        body\n\
        first body\0\n\n\
        \n\
        \n\
        SEND\n\
        test2: value\n\
        \n\
        body : test\n\
        second body\0
        "
    .as_bytes();

    let mut frames = vec![];
    let mut parser: FrameParser<ClientCommand> = FrameParser::new();

    for body_chunk in body.chunks(4) {
        frames.append(&mut parser.parse(body_chunk).unwrap());
    }

    let frame = frames.first();

    assert!(frame.is_some());
    let frame = frame.unwrap();

    if let StompMessage::Frame(frame) = frame {
        assert_eq!(frame.command, ClientCommand::Send);
        let headers = &frame.headers;

        assert!(headers.contains_key("test"));
        assert_eq!(headers.get("test").unwrap(), "value");
        assert!(headers.contains_key("test_val"));
        assert_eq!(headers.get("test_val").unwrap(), "heeerre");

        assert_eq!(frame.body, "body\n\
first body");
        println!("{:?}", frame);
    }
}

#[test]
fn parse_test_sees_every_message() {
    let body = "SEND\ntest: value\n\nfirst\0\n\n\r\nSEND\ntest2: value\n\nbody : test\nsecond\0";
    let mut parser: FrameParser<ClientCommand> = FrameParser::new();
    let messages = parser.parse(body.as_bytes()).unwrap();
    // a frame, three heart-beats (the CR is skipped), a frame
    assert_eq!(messages.len(), 5);
    assert!(matches!(messages[1], StompMessage::Ping));
    assert!(matches!(messages[2], StompMessage::Ping));
    assert!(matches!(messages[3], StompMessage::Ping));
    match &messages[4] {
        StompMessage::Frame(f) => {
            assert_eq!(f.headers.get("test2").unwrap(), "value");
            assert_eq!(f.body, "body : test\nsecond");
        }
        StompMessage::Ping => panic!("expected a frame"),
    }
}

#[test]
fn wire_form_is_exact() {
    let frame = Send::new("/q".to_owned())
        .header("k".to_owned(), "v".to_owned())
        .body("hi".to_owned())
        .into_frame();
    assert_eq!(frame.to_bytes(), b"SEND\ndestination:/q\nk:v\n\nhi\0".to_vec());
    let ping: StompMessage<ClientCommand> = StompMessage::Ping;
    assert_eq!(ping.to_bytes(), vec![10u8]);
    let server = Frame::new(ServerCommand::Connected, Headers::new(), String::new());
    assert_eq!(server.to_bytes(), b"CONNECTED\n\n\0".to_vec());
}

#[test]
fn frames_read_back_unchanged_in_any_chunking() {
    let frame = Send::new("/queue/ä".to_owned())
        .header("receipt".to_owned(), "r-1".to_owned())
        .body("héllo\nworld".to_owned())
        .into_frame();
    let mut bytes = frame.to_bytes();
    bytes.extend_from_slice(&frame.to_bytes());
    for size in 1..bytes.len() + 1 {
        let mut parser: FrameParser<ClientCommand> = FrameParser::new();
        let mut got = vec![];
        for chunk in bytes.chunks(size) {
            got.append(&mut parser.parse(chunk).unwrap());
        }
        assert_eq!(got.len(), 2);
        for m in got {
            match m {
                StompMessage::Frame(f) => {
                    assert_eq!(f.command, ClientCommand::Send);
                    assert_eq!(f.headers.len(), 2);
                    assert_eq!(f.headers.entry(0).0, "destination");
                    assert_eq!(f.headers.entry(0).1, "/queue/ä");
                    assert_eq!(f.headers.entry(1).0, "receipt");
                    assert_eq!(f.headers.entry(1).1, "r-1");
                    assert_eq!(f.body, "héllo\nworld");
                }
                StompMessage::Ping => panic!("no heart-beat was sent"),
            }
        }
    }
}

#[test]
fn unknown_command_is_refused() {
    let mut parser: FrameParser<ServerCommand> = FrameParser::new();
    match parser.parse("Invalid\n".as_bytes()) {
        Err(ParseError::CommandNotFound(text)) => assert_eq!(text, "Invalid"),
        Ok(_) => panic!("accepted an unknown command"),
    }
    let mut parser: FrameParser<ClientCommand> = FrameParser::new();
    assert!(matches!(
        parser.parse("SEND\r\n\n\0".as_bytes()),
        Err(ParseError::CommandNotFound(_))
    ));
}

#[test]
fn header_lines_are_split_and_trimmed() {
    let mut parser: FrameParser<ServerCommand> = FrameParser::new();
    let text = "MESSAGE\n  key \t:  value  : rest\n\u{a0}x\u{a0}:y\nk:\n\nb\0";
    let messages = parser.parse(text.as_bytes()).unwrap();
    assert_eq!(messages.len(), 1);
    match &messages[0] {
        StompMessage::Frame(f) => {
            assert_eq!(f.command, ServerCommand::Message);
            assert_eq!(f.headers.get("key").unwrap(), "value");
            assert_eq!(f.headers.get("x").unwrap(), "y");
            assert_eq!(f.headers.get("k").unwrap(), "");
            assert_eq!(f.body, "b");
        }
        StompMessage::Ping => panic!("expected a frame"),
    }
}

#[test]
fn repeated_header_keeps_the_last_value() {
    let mut parser: FrameParser<ServerCommand> = FrameParser::new();
    let messages = parser.parse(b"RECEIPT\na:1\nb:2\na:3\n\n\0").unwrap();
    match &messages[0] {
        StompMessage::Frame(f) => {
            assert_eq!(f.headers.len(), 2);
            assert_eq!(f.headers.entry(0).0, "a");
            assert_eq!(f.headers.entry(0).1, "3");
        }
        StompMessage::Ping => panic!("expected a frame"),
    }
}

#[test]
fn malformed_lines_fault() {
    let mut parser: FrameParser<ServerCommand> = FrameParser::new();
    assert!(parser.try_parse(b"MESSAGE\nno colon here\n").is_none());
    let mut parser: FrameParser<ServerCommand> = FrameParser::new();
    assert!(parser.try_parse(&[0xff, 0xfe, b'\n']).is_none());
    let mut parser: FrameParser<ServerCommand> = FrameParser::new();
    assert!(parser.try_parse(b"MESSAGE\n\n\xff\0").is_none());
    let mut parser: FrameParser<ServerCommand> = FrameParser::new();
    assert!(matches!(parser.try_parse(b"ERROR\nmessage:x\n\noops\0"), Some(Ok(_))));
}

#[test]
fn parser_keeps_state_across_calls() {
    let mut parser: FrameParser<ServerCommand> = FrameParser::new();
    assert_eq!(parser.parse(b"CONNEC").unwrap().len(), 0);
    assert_eq!(parser.parse(b"TED\nversion:1.2\n").unwrap().len(), 0);
    let out = parser.parse(b"\n\0\n").unwrap();
    assert_eq!(out.len(), 2);
    match &out[0] {
        StompMessage::Frame(f) => {
            assert_eq!(f.command, ServerCommand::Connected);
            assert_eq!(f.headers.get("version").unwrap(), "1.2");
            assert_eq!(f.body, "");
        }
        StompMessage::Ping => panic!("expected a frame"),
    }
    assert!(matches!(out[1], StompMessage::Ping));
}

#[test]
fn command_names_round_trip() {
    let all = [
        ClientCommand::Connect,
        ClientCommand::Send,
        ClientCommand::Subscribe,
        ClientCommand::Unsubscribe,
        ClientCommand::Ack,
        ClientCommand::Nack,
        ClientCommand::Begin,
        ClientCommand::Commit,
        ClientCommand::Abort,
        ClientCommand::Disconnect,
    ];
    for c in all {
        assert_eq!(ClientCommand::try_from_name(c.name()), Ok(c));
    }
    for c in [
        ServerCommand::Connected,
        ServerCommand::Message,
        ServerCommand::Receipt,
        ServerCommand::Error,
    ] {
        assert_eq!(ServerCommand::try_from_name(c.name()), Ok(c));
    }
    assert_eq!(ClientCommand::Connect.name(), "CONNECT");
    assert_eq!(ServerCommand::Error.name(), "ERROR");
    assert_eq!(ClientCommand::try_from_name("send"), Err("Unknown client command"));
    assert_eq!(ServerCommand::try_from_name("SEND"), Err("Unknown client command"));
}

#[test]
fn same_text_compares_characters() {
    assert!(same_text("héllo", "héllo"));
    assert!(!same_text("héllo", "hello"));
    assert!(!same_text("a", "ab"));
    assert!(same_text("", ""));
}
