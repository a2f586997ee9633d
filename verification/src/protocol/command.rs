use vstd::prelude::*;
use super::text::same_text;

verus! {

/// Whether a character is an upper-case ASCII letter, the alphabet of command names.
pub open spec fn is_upper_ascii(c: char) -> bool {
    'A' <= c && c <= 'Z'
}

/// Whether every character of `s` is an upper-case ASCII letter.
pub open spec fn is_command_text(s: Seq<char>) -> bool {
    s.len() > 0 && forall|i: int| 0 <= i < s.len() ==> is_upper_ascii(#[trigger] s[i])
}

/// A STOMP command: a value with a textual name on the wire.
pub trait Command: Sized + Copy {
    /// The name of the command as it appears on the wire.
    spec fn spec_name(self) -> Seq<char>;

    /// The command whose name is `text`, if there is one.
    spec fn spec_from_name(text: Seq<char>) -> Option<Self>;

    /// A name identifies its command, and names are upper-case ASCII words.
    proof fn lemma_name(self)
        ensures
            Self::spec_from_name(self.spec_name()) == Some(self),
            is_command_text(self.spec_name()),
    ;

    /// The name of the command as it appears on the wire.
    fn name(&self) -> (r: &'static str)
        ensures
            r@ == self.spec_name(),
    ;

    /// The command whose name is `text`, or the error that the text names no command.
    fn try_from_name(text: &str) -> (r: Result<Self, &'static str>)
        ensures
            r is Ok <==> Self::spec_from_name(text@) is Some,
            r matches Ok(c) ==> Self::spec_from_name(text@) == Some(c),
            r matches Err(e) ==> e@ == unknown_command_text(),
    ;
}

/// The message with which an unknown command name is refused.
pub open spec fn unknown_command_text() -> Seq<char> {
    "Unknown client command"@
}

/// Commands that a client sends to a broker.
#[derive(Debug, Clone, Copy, PartialEq, Eq, Structural)]
pub enum ClientCommand {
    Connect,
    Send,
    Subscribe,
    Unsubscribe,
    Ack,
    Nack,
    Begin,
    Commit,
    Abort,
    Disconnect,
}

/// Commands that a broker sends to a client.
#[derive(Debug, Clone, Copy, PartialEq, Eq, Structural)]
pub enum ServerCommand {
    Connected,
    Message,
    Receipt,
    Error,
}

impl Command for ClientCommand {
    open spec fn spec_name(self) -> Seq<char> {
        match self {
            ClientCommand::Connect => "CONNECT"@,
            ClientCommand::Send => "SEND"@,
            ClientCommand::Subscribe => "SUBSCRIBE"@,
            ClientCommand::Unsubscribe => "UNSUBSCRIBE"@,
            ClientCommand::Ack => "ACK"@,
            ClientCommand::Nack => "NACK"@,
            ClientCommand::Begin => "BEGIN"@,
            ClientCommand::Commit => "COMMIT"@,
            ClientCommand::Abort => "ABORT"@,
            ClientCommand::Disconnect => "DISCONNECT"@,
        }
    }

    open spec fn spec_from_name(text: Seq<char>) -> Option<Self> {
        if text == "CONNECT"@ {
            Some(ClientCommand::Connect)
        } else if text == "SEND"@ {
            Some(ClientCommand::Send)
        } else if text == "SUBSCRIBE"@ {
            Some(ClientCommand::Subscribe)
        } else if text == "UNSUBSCRIBE"@ {
            Some(ClientCommand::Unsubscribe)
        } else if text == "ACK"@ {
            Some(ClientCommand::Ack)
        } else if text == "NACK"@ {
            Some(ClientCommand::Nack)
        } else if text == "BEGIN"@ {
            Some(ClientCommand::Begin)
        } else if text == "COMMIT"@ {
            Some(ClientCommand::Commit)
        } else if text == "ABORT"@ {
            Some(ClientCommand::Abort)
        } else if text == "DISCONNECT"@ {
            Some(ClientCommand::Disconnect)
        } else {
            None
        }
    }

    proof fn lemma_name(self) {
        reveal_strlit("CONNECT");
        reveal_strlit("SEND");
        reveal_strlit("SUBSCRIBE");
        reveal_strlit("UNSUBSCRIBE");
        reveal_strlit("ACK");
        reveal_strlit("NACK");
        reveal_strlit("BEGIN");
        reveal_strlit("COMMIT");
        reveal_strlit("ABORT");
        reveal_strlit("DISCONNECT");
        assert("CONNECT"@.len() == 7 && "SEND"@.len() == 4 && "SUBSCRIBE"@.len() == 9);
        assert("UNSUBSCRIBE"@.len() == 11 && "ACK"@.len() == 3 && "NACK"@.len() == 4);
        assert("BEGIN"@.len() == 5 && "COMMIT"@.len() == 6 && "ABORT"@.len() == 5);
        assert("DISCONNECT"@.len() == 10);
        assert("SEND"@[0] != "NACK"@[0]);
        assert("BEGIN"@[0] != "ABORT"@[0]);
    }

    fn name(&self) -> (r: &'static str) {
        match self {
            ClientCommand::Connect => "CONNECT",
            ClientCommand::Send => "SEND",
            ClientCommand::Subscribe => "SUBSCRIBE",
            ClientCommand::Unsubscribe => "UNSUBSCRIBE",
            ClientCommand::Ack => "ACK",
            ClientCommand::Nack => "NACK",
            ClientCommand::Begin => "BEGIN",
            ClientCommand::Commit => "COMMIT",
            ClientCommand::Abort => "ABORT",
            ClientCommand::Disconnect => "DISCONNECT",
        }
    }

    fn try_from_name(text: &str) -> (r: Result<Self, &'static str>) {
        if same_text(text, "CONNECT") {
            Ok(ClientCommand::Connect)
        } else if same_text(text, "SEND") {
            Ok(ClientCommand::Send)
        } else if same_text(text, "SUBSCRIBE") {
            Ok(ClientCommand::Subscribe)
        } else if same_text(text, "UNSUBSCRIBE") {
            Ok(ClientCommand::Unsubscribe)
        } else if same_text(text, "ACK") {
            Ok(ClientCommand::Ack)
        } else if same_text(text, "NACK") {
            Ok(ClientCommand::Nack)
        } else if same_text(text, "BEGIN") {
            Ok(ClientCommand::Begin)
        } else if same_text(text, "COMMIT") {
            Ok(ClientCommand::Commit)
        } else if same_text(text, "ABORT") {
            Ok(ClientCommand::Abort)
        } else if same_text(text, "DISCONNECT") {
            Ok(ClientCommand::Disconnect)
        } else {
            Err("Unknown client command")
        }
    }
}

impl Command for ServerCommand {
    open spec fn spec_name(self) -> Seq<char> {
        match self {
            ServerCommand::Connected => "CONNECTED"@,
            ServerCommand::Message => "MESSAGE"@,
            ServerCommand::Receipt => "RECEIPT"@,
            ServerCommand::Error => "ERROR"@,
        }
    }

    open spec fn spec_from_name(text: Seq<char>) -> Option<Self> {
        if text == "CONNECTED"@ {
            Some(ServerCommand::Connected)
        } else if text == "MESSAGE"@ {
            Some(ServerCommand::Message)
        } else if text == "RECEIPT"@ {
            Some(ServerCommand::Receipt)
        } else if text == "ERROR"@ {
            Some(ServerCommand::Error)
        } else {
            None
        }
    }

    proof fn lemma_name(self) {
        reveal_strlit("CONNECTED");
        reveal_strlit("MESSAGE");
        reveal_strlit("RECEIPT");
        reveal_strlit("ERROR");
        assert("MESSAGE"@[0] != "RECEIPT"@[0]);
        assert("CONNECTED"@.len() == 9 && "MESSAGE"@.len() == 7);
        assert("RECEIPT"@.len() == 7 && "ERROR"@.len() == 5);
    }

    fn name(&self) -> (r: &'static str) {
        match self {
            ServerCommand::Connected => "CONNECTED",
            ServerCommand::Message => "MESSAGE",
            ServerCommand::Receipt => "RECEIPT",
            ServerCommand::Error => "ERROR",
        }
    }

    fn try_from_name(text: &str) -> (r: Result<Self, &'static str>) {
        if same_text(text, "CONNECTED") {
            Ok(ServerCommand::Connected)
        } else if same_text(text, "MESSAGE") {
            Ok(ServerCommand::Message)
        } else if same_text(text, "RECEIPT") {
            Ok(ServerCommand::Receipt)
        } else if same_text(text, "ERROR") {
            Ok(ServerCommand::Error)
        } else {
            Err("Unknown client command")
        }
    }
}

/// Each command has its fixed STOMP wire name, spelled out here letter by letter, and each
/// of these names reads back as its command.
pub proof fn lemma_wire_names()
    ensures
        ClientCommand::Connect.spec_name() == seq!['C', 'O', 'N', 'N', 'E', 'C', 'T'],
        ClientCommand::Send.spec_name() == seq!['S', 'E', 'N', 'D'],
        ClientCommand::Subscribe.spec_name() == seq!['S', 'U', 'B', 'S', 'C', 'R', 'I', 'B', 'E'],
        ClientCommand::Unsubscribe.spec_name() == seq![
            'U',
            'N',
            'S',
            'U',
            'B',
            'S',
            'C',
            'R',
            'I',
            'B',
            'E',
        ],
        ClientCommand::Ack.spec_name() == seq!['A', 'C', 'K'],
        ClientCommand::Nack.spec_name() == seq!['N', 'A', 'C', 'K'],
        ClientCommand::Begin.spec_name() == seq!['B', 'E', 'G', 'I', 'N'],
        ClientCommand::Commit.spec_name() == seq!['C', 'O', 'M', 'M', 'I', 'T'],
        ClientCommand::Abort.spec_name() == seq!['A', 'B', 'O', 'R', 'T'],
        ClientCommand::Disconnect.spec_name() == seq![
            'D',
            'I',
            'S',
            'C',
            'O',
            'N',
            'N',
            'E',
            'C',
            'T',
        ],
        ServerCommand::Connected.spec_name() == seq!['C', 'O', 'N', 'N', 'E', 'C', 'T', 'E', 'D'],
        ServerCommand::Message.spec_name() == seq!['M', 'E', 'S', 'S', 'A', 'G', 'E'],
        ServerCommand::Receipt.spec_name() == seq!['R', 'E', 'C', 'E', 'I', 'P', 'T'],
        ServerCommand::Error.spec_name() == seq!['E', 'R', 'R', 'O', 'R'],
        forall|c: ClientCommand| ClientCommand::spec_from_name(#[trigger] c.spec_name()) == Some(c),
        forall|c: ServerCommand| ServerCommand::spec_from_name(#[trigger] c.spec_name()) == Some(c),
{
    reveal_strlit("CONNECT");
    reveal_strlit("SEND");
    reveal_strlit("SUBSCRIBE");
    reveal_strlit("UNSUBSCRIBE");
    reveal_strlit("ACK");
    reveal_strlit("NACK");
    reveal_strlit("BEGIN");
    reveal_strlit("COMMIT");
    reveal_strlit("ABORT");
    reveal_strlit("DISCONNECT");
    reveal_strlit("CONNECTED");
    reveal_strlit("MESSAGE");
    reveal_strlit("RECEIPT");
    reveal_strlit("ERROR");
    assert(ClientCommand::Connect.spec_name() =~= seq!['C', 'O', 'N', 'N', 'E', 'C', 'T']);
    assert(ClientCommand::Send.spec_name() =~= seq!['S', 'E', 'N', 'D']);
    assert(ClientCommand::Subscribe.spec_name() =~= seq!['S', 'U', 'B', 'S', 'C', 'R', 'I', 'B', 'E']);
    assert(ClientCommand::Unsubscribe.spec_name() =~= seq!['U', 'N', 'S', 'U', 'B', 'S', 'C', 'R', 'I', 'B', 'E']);
    assert(ClientCommand::Ack.spec_name() =~= seq!['A', 'C', 'K']);
    assert(ClientCommand::Nack.spec_name() =~= seq!['N', 'A', 'C', 'K']);
    assert(ClientCommand::Begin.spec_name() =~= seq!['B', 'E', 'G', 'I', 'N']);
    assert(ClientCommand::Commit.spec_name() =~= seq!['C', 'O', 'M', 'M', 'I', 'T']);
    assert(ClientCommand::Abort.spec_name() =~= seq!['A', 'B', 'O', 'R', 'T']);
    assert(ClientCommand::Disconnect.spec_name() =~= seq!['D', 'I', 'S', 'C', 'O', 'N', 'N', 'E', 'C', 'T']);
    assert(ServerCommand::Connected.spec_name() =~= seq!['C', 'O', 'N', 'N', 'E', 'C', 'T', 'E', 'D']);
    assert(ServerCommand::Message.spec_name() =~= seq!['M', 'E', 'S', 'S', 'A', 'G', 'E']);
    assert(ServerCommand::Receipt.spec_name() =~= seq!['R', 'E', 'C', 'E', 'I', 'P', 'T']);
    assert(ServerCommand::Error.spec_name() =~= seq!['E', 'R', 'R', 'O', 'R']);
    assert forall|c: ClientCommand| ClientCommand::spec_from_name(#[trigger] c.spec_name()) == Some(c) by {
        c.lemma_name();
    }
    assert forall|c: ServerCommand| ServerCommand::spec_from_name(#[trigger] c.spec_name()) == Some(c) by {
        c.lemma_name();
    }
}

} // verus!
