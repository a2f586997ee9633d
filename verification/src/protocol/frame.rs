use vstd::prelude::*;

use super::command::ClientCommand;
use super::headers::{has_key, lemma_insert_get, pairs_get, pairs_insert, Headers};
use super::message::{Frame, FrameView};
use crate::ids::{is_uuid_v4_text, random_uuid};

verus! {

/// The decimal digits of `n`, most significant first, without leading zeros.
pub open spec fn decimal(n: nat) -> Seq<char>
    decreases n,
{
    if n < 10 {
        seq![digit(n)]
    } else {
        decimal(n / 10).push(digit(n % 10))
    }
}

/// The decimal digit of `d`, for `d` below ten.
pub open spec fn digit(d: nat) -> char {
    if d == 0 { '0' } else if d == 1 { '1' } else if d == 2 { '2' } else if d == 3 { '3' }
    else if d == 4 { '4' } else if d == 5 { '5' } else if d == 6 { '6' } else if d == 7 { '7' }
    else if d == 8 { '8' } else { '9' }
}

/// The value of a heart-beat header: the two intervals in decimal, separated by a comma.
pub open spec fn heartbeat_text(client_interval: u32, server_interval: u32) -> Seq<char> {
    decimal(client_interval as nat) + seq![','] + decimal(server_interval as nat)
}

/// Calls `format!("{},{}", ..)` on two `u32`s, which writes each in decimal (the `Display`
/// form of an integer) with a comma between; the contract states exactly that.
#[verifier::external_body]
fn format_heartbeat(client_interval: u32, server_interval: u32) -> (r: String)
    ensures
        r@ == heartbeat_text(client_interval, server_interval),
{
    format!("{},{}", client_interval, server_interval)
}


/// A NACK frame: refuses a message.
#[derive(Debug, Clone)]
pub struct Nack {
    pub(crate) headers: Headers,
}

impl Nack {

    /// The headers set so far, in order.
    pub closed spec fn header_pairs(&self) -> Seq<(Seq<char>, Seq<char>)> {
        self.headers.pairs()
    }
    /// The frame with its required headers.
    pub fn new(id: String) -> (r: Nack)
        ensures
            r.header_pairs() == seq![("id"@, id@)],
    {
        let mut headers = Headers::new();
        headers.insert(String::from_str("id"), id);
        assert(headers.pairs() =~= seq![("id"@, id@)]);
        Nack { headers }
    }

    /// Sets the `transaction` header.
    pub fn transaction(self, transaction: String) -> (r: Nack)
        ensures
            r.header_pairs() == pairs_insert(self.header_pairs(), "transaction"@, transaction@),
    {
        self.header(String::from_str("transaction"), transaction)
    }

    /// Sets the `receipt` header.
    pub fn receipt(self, receipt: String) -> (r: Nack)
        ensures
            r.header_pairs() == pairs_insert(self.header_pairs(), "receipt"@, receipt@),
    {
        self.header(String::from_str("receipt"), receipt)
    }

    /// Sets header `key` to `value`.
    pub fn header(self, key: String, value: String) -> (r: Nack)
        ensures
            r.header_pairs() == pairs_insert(self.header_pairs(), key@, value@),
    {
        let mut headers = self.headers;
        headers.insert(key, value);
        Nack { headers }
    }

    /// The frame: command Nack, these headers, an empty body.
    pub fn into_frame(self) -> (r: Frame<ClientCommand>)
        ensures
            r@ == (FrameView {
                command: ClientCommand::Nack,
                headers: self.header_pairs(),
                body: Seq::<char>::empty(),
            }),
    {
        Frame { command: ClientCommand::Nack, headers: self.headers, body: String::new() }
    }
}

/// An ACK frame: acknowledges a message.
#[derive(Debug, Clone)]
pub struct Ack {
    pub(crate) headers: Headers,
}

impl Ack {

    /// The headers set so far, in order.
    pub closed spec fn header_pairs(&self) -> Seq<(Seq<char>, Seq<char>)> {
        self.headers.pairs()
    }
    /// The frame with its required headers.
    pub fn new(id: String) -> (r: Ack)
        ensures
            r.header_pairs() == seq![("id"@, id@)],
    {
        let mut headers = Headers::new();
        headers.insert(String::from_str("id"), id);
        assert(headers.pairs() =~= seq![("id"@, id@)]);
        Ack { headers }
    }

    /// Sets the `transaction` header.
    pub fn transaction(self, transaction: String) -> (r: Ack)
        ensures
            r.header_pairs() == pairs_insert(self.header_pairs(), "transaction"@, transaction@),
    {
        self.header(String::from_str("transaction"), transaction)
    }

    /// Sets the `receipt` header.
    pub fn receipt(self, receipt: String) -> (r: Ack)
        ensures
            r.header_pairs() == pairs_insert(self.header_pairs(), "receipt"@, receipt@),
    {
        self.header(String::from_str("receipt"), receipt)
    }

    /// Sets header `key` to `value`.
    pub fn header(self, key: String, value: String) -> (r: Ack)
        ensures
            r.header_pairs() == pairs_insert(self.header_pairs(), key@, value@),
    {
        let mut headers = self.headers;
        headers.insert(key, value);
        Ack { headers }
    }

    /// The frame: command Ack, these headers, an empty body.
    pub fn into_frame(self) -> (r: Frame<ClientCommand>)
        ensures
            r@ == (FrameView {
                command: ClientCommand::Ack,
                headers: self.header_pairs(),
                body: Seq::<char>::empty(),
            }),
    {
        Frame { command: ClientCommand::Ack, headers: self.headers, body: String::new() }
    }
}

/// A CONNECT frame: opens a session with a broker.
#[derive(Debug, Clone)]
pub struct Connect {
    pub(crate) headers: Headers,
}

impl Connect {

    /// The headers set so far, in order.
    pub closed spec fn header_pairs(&self) -> Seq<(Seq<char>, Seq<char>)> {
        self.headers.pairs()
    }
    /// The frame with its required headers.
    pub fn new(accept_version: String, host: String) -> (r: Connect)
        ensures
            r.header_pairs() == seq![("accept-version"@, accept_version@), ("host"@, host@)],
    {
        proof {
            reveal_strlit("accept-version");
            reveal_strlit("host");
            assert("accept-version"@.len() == 14 && "host"@.len() == 4);
        }
        let mut headers = Headers::new();
        headers.insert(String::from_str("accept-version"), accept_version);
        headers.insert(String::from_str("host"), host);
        assert(headers.pairs() =~= seq![("accept-version"@, accept_version@), ("host"@, host@)]);
        Connect { headers }
    }

    /// Sets the `heart-beat` header to the intervals, in milliseconds, at which the client
    /// sends heart-beats and at which it wants to receive them.
    pub fn heartbeat(self, client_interval: u32, server_interval: u32) -> (r: Connect)
        ensures
            r.header_pairs() == pairs_insert(
                self.header_pairs(),
                "heart-beat"@,
                heartbeat_text(client_interval, server_interval),
            ),
    {
        self.header(String::from_str("heart-beat"), format_heartbeat(client_interval, server_interval))
    }

    /// Sets header `key` to `value`.
    pub fn header(self, key: String, value: String) -> (r: Connect)
        ensures
            r.header_pairs() == pairs_insert(self.header_pairs(), key@, value@),
    {
        let mut headers = self.headers;
        headers.insert(key, value);
        Connect { headers }
    }

    /// The frame: command Connect, these headers, an empty body.
    pub fn into_frame(self) -> (r: Frame<ClientCommand>)
        ensures
            r@ == (FrameView {
                command: ClientCommand::Connect,
                headers: self.header_pairs(),
                body: Seq::<char>::empty(),
            }),
    {
        Frame { command: ClientCommand::Connect, headers: self.headers, body: String::new() }
    }
}

/// A SEND frame: a message for a destination.
#[derive(Debug, Clone)]
pub struct Send {
    pub(crate) headers: Headers,
    pub(crate) payload: String,
}

impl Send {

    /// The headers set so far, in order.
    pub closed spec fn header_pairs(&self) -> Seq<(Seq<char>, Seq<char>)> {
        self.headers.pairs()
    }

    /// The body.
    pub closed spec fn body_text(&self) -> Seq<char> {
        self.payload@
    }
    /// A message for `destination`, with an empty body.
    pub fn new(destination: String) -> (r: Send)
        ensures
            r.header_pairs() == seq![("destination"@, destination@)],
            r.body_text() == Seq::<char>::empty(),
    {
        let mut headers = Headers::new();
        headers.insert(String::from_str("destination"), destination);
        assert(headers.pairs() =~= seq![("destination"@, destination@)]);
        Send { headers, payload: String::new() }
    }

    /// Sets the body.
    pub fn body(self, payload: String) -> (r: Send)
        ensures
            r.header_pairs() == self.header_pairs(),
            r.body_text() == payload@,
    {
        Send { headers: self.headers, payload }
    }

    /// Sets the `receipt` header.
    pub fn receipt(self, receipt_id: String) -> (r: Send)
        ensures
            r.header_pairs() == pairs_insert(self.header_pairs(), "receipt"@, receipt_id@),
            r.body_text() == self.body_text(),
    {
        self.header(String::from_str("receipt"), receipt_id)
    }

    /// Sets header `key` to `value`.
    pub fn header(self, key: String, value: String) -> (r: Send)
        ensures
            r.header_pairs() == pairs_insert(self.header_pairs(), key@, value@),
            r.body_text() == self.body_text(),
    {
        let mut headers = self.headers;
        headers.insert(key, value);
        Send { headers, payload: self.payload }
    }

    /// The frame: command SEND, these headers, the body.
    pub fn into_frame(self) -> (r: Frame<ClientCommand>)
        ensures
            r@ == (FrameView {
                command: ClientCommand::Send,
                headers: self.header_pairs(),
                body: self.body_text(),
            }),
    {
        Frame { command: ClientCommand::Send, headers: self.headers, body: self.payload }
    }
}

/// A SUBSCRIBE frame: asks for the messages of a destination.
#[derive(Debug)]
pub struct Subscribe {
    pub(crate) headers: Headers,
}

impl Subscribe {
    #[verifier::type_invariant]
    spec fn names_target(&self) -> bool {
        has_key(self.headers.pairs(), "id"@) && has_key(self.headers.pairs(), "destination"@)
    }

    /// The headers set so far, in order.
    pub closed spec fn header_pairs(&self) -> Seq<(Seq<char>, Seq<char>)> {
        self.headers.pairs()
    }
    /// The frame with its required headers.
    pub fn new(id: String, destination: String) -> (r: Subscribe)
        ensures
            r.header_pairs() == seq![("id"@, id@), ("destination"@, destination@)],
    {
        proof {
            reveal_strlit("id");
            reveal_strlit("destination");
            assert("id"@.len() == 2 && "destination"@.len() == 11);
        }
        let mut headers = Headers::new();
        headers.insert(String::from_str("id"), id);
        headers.insert(String::from_str("destination"), destination);
        assert(headers.pairs() =~= seq![("id"@, id@), ("destination"@, destination@)]);
        Subscribe { headers }
    }

    /// Sets the `receipt` header.
    pub fn receipt(self, receipt: String) -> (r: Subscribe)
        ensures
            r.header_pairs() == pairs_insert(self.header_pairs(), "receipt"@, receipt@),
    {
        self.header(String::from_str("receipt"), receipt)
    }

    /// A subscription to `destination` under a fresh random (version 4) UUID.
    pub fn new_with_random_id(destination: String) -> (r: Subscribe)
        ensures
            r.header_pairs().len() == 2,
            r.header_pairs()[0].0 == "id"@,
            is_uuid_v4_text(r.header_pairs()[0].1),
            r.header_pairs()[1] == ("destination"@, destination@),
    {
        Self::new(random_uuid(), destination)
    }

    /// Sets header `key` to `value`.
    pub fn header(self, key: String, value: String) -> (r: Subscribe)
        ensures
            r.header_pairs() == pairs_insert(self.header_pairs(), key@, value@),
    {
        proof {
            use_type_invariant(&self);
            use_type_invariant(&self.headers);
            lemma_insert_get(self.headers.pairs(), key@, value@, "id"@);
            lemma_insert_get(self.headers.pairs(), key@, value@, "destination"@);
        }
        let mut headers = self.headers;
        headers.insert(key, value);
        Subscribe { headers }
    }

    /// The frame: command Subscribe, these headers, an empty body.
    pub fn into_frame(self) -> (r: Frame<ClientCommand>)
        ensures
            r@ == (FrameView {
                command: ClientCommand::Subscribe,
                headers: self.header_pairs(),
                body: Seq::<char>::empty(),
            }),
    {
        Frame { command: ClientCommand::Subscribe, headers: self.headers, body: String::new() }
    }
}

/// An UNSUBSCRIBE frame: ends a subscription.
#[derive(Debug, Clone)]
pub struct Unsubscribe {
    pub(crate) headers: Headers,
}

impl Unsubscribe {

    /// The headers set so far, in order.
    pub closed spec fn header_pairs(&self) -> Seq<(Seq<char>, Seq<char>)> {
        self.headers.pairs()
    }
    /// The frame with its required headers.
    pub fn new(id: String) -> (r: Unsubscribe)
        ensures
            r.header_pairs() == seq![("id"@, id@)],
    {
        let mut headers = Headers::new();
        headers.insert(String::from_str("id"), id);
        assert(headers.pairs() =~= seq![("id"@, id@)]);
        Unsubscribe { headers }
    }

    /// Sets the `receipt` header.
    pub fn receipt(self, receipt: String) -> (r: Unsubscribe)
        ensures
            r.header_pairs() == pairs_insert(self.header_pairs(), "receipt"@, receipt@),
    {
        self.header(String::from_str("receipt"), receipt)
    }

    /// Sets header `key` to `value`.
    pub fn header(self, key: String, value: String) -> (r: Unsubscribe)
        ensures
            r.header_pairs() == pairs_insert(self.header_pairs(), key@, value@),
    {
        let mut headers = self.headers;
        headers.insert(key, value);
        Unsubscribe { headers }
    }

    /// The frame: command Unsubscribe, these headers, an empty body.
    pub fn into_frame(self) -> (r: Frame<ClientCommand>)
        ensures
            r@ == (FrameView {
                command: ClientCommand::Unsubscribe,
                headers: self.header_pairs(),
                body: Seq::<char>::empty(),
            }),
    {
        Frame { command: ClientCommand::Unsubscribe, headers: self.headers, body: String::new() }
    }
}

/// A BEGIN frame: starts a transaction.
#[derive(Debug, Clone)]
pub struct Begin {
    pub(crate) headers: Headers,
}

impl Begin {

    /// The headers set so far, in order.
    pub closed spec fn header_pairs(&self) -> Seq<(Seq<char>, Seq<char>)> {
        self.headers.pairs()
    }
    /// The frame with its required headers.
    pub fn new(transaction: String) -> (r: Begin)
        ensures
            r.header_pairs() == seq![("transaction"@, transaction@)],
    {
        let mut headers = Headers::new();
        headers.insert(String::from_str("transaction"), transaction);
        assert(headers.pairs() =~= seq![("transaction"@, transaction@)]);
        Begin { headers }
    }

    /// Sets the `receipt` header.
    pub fn receipt(self, receipt: String) -> (r: Begin)
        ensures
            r.header_pairs() == pairs_insert(self.header_pairs(), "receipt"@, receipt@),
    {
        self.header(String::from_str("receipt"), receipt)
    }

    /// Sets header `key` to `value`.
    pub fn header(self, key: String, value: String) -> (r: Begin)
        ensures
            r.header_pairs() == pairs_insert(self.header_pairs(), key@, value@),
    {
        let mut headers = self.headers;
        headers.insert(key, value);
        Begin { headers }
    }

    /// The frame: command Begin, these headers, an empty body.
    pub fn into_frame(self) -> (r: Frame<ClientCommand>)
        ensures
            r@ == (FrameView {
                command: ClientCommand::Begin,
                headers: self.header_pairs(),
                body: Seq::<char>::empty(),
            }),
    {
        Frame { command: ClientCommand::Begin, headers: self.headers, body: String::new() }
    }
}

/// A COMMIT frame: commits a transaction.
#[derive(Debug, Clone)]
pub struct Commit {
    pub(crate) headers: Headers,
}

impl Commit {

    /// The headers set so far, in order.
    pub closed spec fn header_pairs(&self) -> Seq<(Seq<char>, Seq<char>)> {
        self.headers.pairs()
    }
    /// The frame with its required headers.
    pub fn new(transaction: String) -> (r: Commit)
        ensures
            r.header_pairs() == seq![("transaction"@, transaction@)],
    {
        let mut headers = Headers::new();
        headers.insert(String::from_str("transaction"), transaction);
        assert(headers.pairs() =~= seq![("transaction"@, transaction@)]);
        Commit { headers }
    }

    /// Sets the `receipt` header.
    pub fn receipt(self, receipt: String) -> (r: Commit)
        ensures
            r.header_pairs() == pairs_insert(self.header_pairs(), "receipt"@, receipt@),
    {
        self.header(String::from_str("receipt"), receipt)
    }

    /// Sets header `key` to `value`.
    pub fn header(self, key: String, value: String) -> (r: Commit)
        ensures
            r.header_pairs() == pairs_insert(self.header_pairs(), key@, value@),
    {
        let mut headers = self.headers;
        headers.insert(key, value);
        Commit { headers }
    }

    /// The frame: command Commit, these headers, an empty body.
    pub fn into_frame(self) -> (r: Frame<ClientCommand>)
        ensures
            r@ == (FrameView {
                command: ClientCommand::Commit,
                headers: self.header_pairs(),
                body: Seq::<char>::empty(),
            }),
    {
        Frame { command: ClientCommand::Commit, headers: self.headers, body: String::new() }
    }
}

/// An ABORT frame: rolls a transaction back.
#[derive(Debug, Clone)]
pub struct Abort {
    pub(crate) headers: Headers,
}

impl Abort {

    /// The headers set so far, in order.
    pub closed spec fn header_pairs(&self) -> Seq<(Seq<char>, Seq<char>)> {
        self.headers.pairs()
    }
    /// The frame with its required headers.
    pub fn new(transaction: String) -> (r: Abort)
        ensures
            r.header_pairs() == seq![("transaction"@, transaction@)],
    {
        let mut headers = Headers::new();
        headers.insert(String::from_str("transaction"), transaction);
        assert(headers.pairs() =~= seq![("transaction"@, transaction@)]);
        Abort { headers }
    }

    /// Sets the `receipt` header.
    pub fn receipt(self, receipt: String) -> (r: Abort)
        ensures
            r.header_pairs() == pairs_insert(self.header_pairs(), "receipt"@, receipt@),
    {
        self.header(String::from_str("receipt"), receipt)
    }

    /// Sets header `key` to `value`.
    pub fn header(self, key: String, value: String) -> (r: Abort)
        ensures
            r.header_pairs() == pairs_insert(self.header_pairs(), key@, value@),
    {
        let mut headers = self.headers;
        headers.insert(key, value);
        Abort { headers }
    }

    /// The frame: command Abort, these headers, an empty body.
    pub fn into_frame(self) -> (r: Frame<ClientCommand>)
        ensures
            r@ == (FrameView {
                command: ClientCommand::Abort,
                headers: self.header_pairs(),
                body: Seq::<char>::empty(),
            }),
    {
        Frame { command: ClientCommand::Abort, headers: self.headers, body: String::new() }
    }
}

/// A DISCONNECT frame: ends the session.
#[derive(Debug, Clone)]
pub struct Disconnect {
    pub(crate) headers: Headers,
}

impl Disconnect {

    /// The headers set so far, in order.
    pub closed spec fn header_pairs(&self) -> Seq<(Seq<char>, Seq<char>)> {
        self.headers.pairs()
    }
    /// The frame with its required headers.
    pub fn new(transaction: String) -> (r: Disconnect)
        ensures
            r.header_pairs() == seq![("transaction"@, transaction@)],
    {
        let mut headers = Headers::new();
        headers.insert(String::from_str("transaction"), transaction);
        assert(headers.pairs() =~= seq![("transaction"@, transaction@)]);
        Disconnect { headers }
    }

    /// Sets the `receipt` header.
    pub fn receipt(self, receipt: String) -> (r: Disconnect)
        ensures
            r.header_pairs() == pairs_insert(self.header_pairs(), "receipt"@, receipt@),
    {
        self.header(String::from_str("receipt"), receipt)
    }

    /// Sets header `key` to `value`.
    pub fn header(self, key: String, value: String) -> (r: Disconnect)
        ensures
            r.header_pairs() == pairs_insert(self.header_pairs(), key@, value@),
    {
        let mut headers = self.headers;
        headers.insert(key, value);
        Disconnect { headers }
    }

    /// The frame: command Disconnect, these headers, an empty body.
    pub fn into_frame(self) -> (r: Frame<ClientCommand>)
        ensures
            r@ == (FrameView {
                command: ClientCommand::Disconnect,
                headers: self.header_pairs(),
                body: Seq::<char>::empty(),
            }),
    {
        Frame { command: ClientCommand::Disconnect, headers: self.headers, body: String::new() }
    }
}

impl Clone for Subscribe {
    fn clone(&self) -> (r: Subscribe)
        ensures
            r.header_pairs() == self.header_pairs(),
    {
        proof {
            use_type_invariant(self);
        }
        Subscribe { headers: self.headers.clone() }
    }
}

/// A subscription request: the subscription's id and destination, and the SUBSCRIBE frame
/// that asks for it.
pub struct SubscriptionRequest {
    pub id: String,
    pub destination: String,
    pub frame: Frame<ClientCommand>,
}

impl Subscribe {
    /// The subscription's id, its destination, and its frame with a fresh receipt id.
    pub fn into_request(self) -> (r: SubscriptionRequest)
        ensures
            pairs_get(self.header_pairs(), "id"@) == Some(r.id@),
            pairs_get(self.header_pairs(), "destination"@) == Some(r.destination@),
            exists|id: Seq<char>|
                is_uuid_v4_text(id) && r.frame@ == (FrameView {
                    command: ClientCommand::Subscribe,
                    headers: pairs_insert(self.header_pairs(), "receipt"@, id),
                    body: Seq::<char>::empty(),
                }),
    {
        proof {
            use_type_invariant(&self);
        }
        let id = match self.headers.get("id") {
            Some(v) => v.clone(),
            None => String::new(),
        };
        let destination = match self.headers.get("destination") {
            Some(v) => v.clone(),
            None => String::new(),
        };
        let receipt = random_uuid();
        let frame = self.receipt(receipt).into_frame();
        assert(is_uuid_v4_text(receipt@));
        SubscriptionRequest { id, destination, frame }
    }
}

} // verus!
