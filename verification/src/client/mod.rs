//! The decisions of a STOMP client: what it sends when it connects, subscribes, sends or
//! runs a transaction, how it reads the broker's answer to CONNECT, and the state machines
//! of its connection and of its listener for server frames.

pub mod connection;
pub mod listener;
pub mod registry;

use vstd::prelude::*;

use crate::ids::{is_uuid_v4_text, random_uuid};
use crate::protocol::command::{ClientCommand, ServerCommand};
use crate::protocol::frame::{heartbeat_text, Abort, Ack, Begin, Commit, Connect, Nack, Send};
use crate::protocol::headers::pairs_insert;
use crate::protocol::message::{Frame, FrameView};

verus! {

/// Where and how a client connects: the broker's address, and optionally the heart-beat
/// intervals (client, server) in milliseconds.
#[derive(Debug, Clone)]
pub struct ClientBuilder {
    pub(crate) host: String,
    pub(crate) heartbeat: Option<(u32, u32)>,
}

/// The headers of the CONNECT frame for `host`, with the heart-beat header when asked for.
pub open spec fn connect_pairs(host: Seq<char>, heartbeat: Option<(u32, u32)>) -> Seq<
    (Seq<char>, Seq<char>),
> {
    let base = seq![("accept-version"@, "1.2"@), ("host"@, host)];
    match heartbeat {
        Some(h) => pairs_insert(base, "heart-beat"@, heartbeat_text(h.0, h.1)),
        None => base,
    }
}

impl ClientBuilder {
    /// The broker's address.
    pub closed spec fn host_text(&self) -> Seq<char> {
        self.host@
    }

    /// The heart-beat intervals asked for, if any.
    pub closed spec fn heartbeat_intervals(&self) -> Option<(u32, u32)> {
        self.heartbeat
    }

    /// A builder for the broker at `host`, without heart-beats.
    pub fn new(host: String) -> (r: ClientBuilder)
        ensures
            r.host_text() == host@,
            r.heartbeat_intervals() is None,
    {
        ClientBuilder { host, heartbeat: None }
    }

    /// Asks for heart-beats: sent every `client_interval` ms, expected every
    /// `server_interval` ms.
    pub fn heartbeat(self, client_interval: u32, server_interval: u32) -> (r: ClientBuilder)
        ensures
            r.host_text() == self.host_text(),
            r.heartbeat_intervals() == Some((client_interval, server_interval)),
    {
        ClientBuilder { host: self.host, heartbeat: Some((client_interval, server_interval)) }
    }

    /// The broker's address.
    pub fn host(&self) -> (r: &String)
        ensures
            r@ == self.host_text(),
    {
        &self.host
    }

    /// The CONNECT frame: protocol version 1.2, the host, and the heart-beat header when
    /// heart-beats are asked for.
    pub fn connect_frame(&self) -> (r: Frame<ClientCommand>)
        ensures
            r@ == (FrameView {
                command: ClientCommand::Connect,
                headers: connect_pairs(self.host_text(), self.heartbeat_intervals()),
                body: Seq::<char>::empty(),
            }),
    {
        let mut connect = Connect::new(String::from_str("1.2"), self.host.clone());
        match self.heartbeat {
            Some(h) => {
                connect = connect.heartbeat(h.0, h.1);
            },
            None => {},
        }
        connect.into_frame()
    }

    /// How long, in milliseconds, the broker may stay silent before the client closes the
    /// connection; 0 when no heart-beats are asked for (no limit).
    pub fn server_timeout(&self) -> (r: u128)
        ensures
            r == match self.heartbeat_intervals() {
                Some(h) => h.1 as u128,
                None => 0,
            },
    {
        match self.heartbeat {
            Some(h) => h.1 as u128,
            None => 0,
        }
    }
}

/// Why a client operation failed.
#[derive(Debug)]
pub enum ClientError {
    /// No receipt came for the request with this receipt id in time.
    ReceiptTimeout(String),
    /// The broker refused the message with this id.
    Nack(String),
    /// The connection could not be set up or was lost, with a description of the cause
    /// when one is known.
    ConnectionError(Option<String>),
}

/// What the broker's first frame means for a connection attempt: it stands when the frame
/// is CONNECTED, and fails as a connection error otherwise.
pub fn connect_outcome(first: &Frame<ServerCommand>) -> (r: Result<(), ClientError>)
    ensures
        r is Ok <==> first.command == ServerCommand::Connected,
        r matches Err(e) ==> e matches ClientError::ConnectionError(None),
{
    match first.command {
        ServerCommand::Connected => Ok(()),
        _ => Err(ClientError::ConnectionError(None)),
    }
}

impl Send {
    /// The SEND frame with a fresh receipt id, so that the broker acknowledges it.
    pub fn into_receipted_frame(self) -> (r: Frame<ClientCommand>)
        ensures
            exists|id: Seq<char>|
                is_uuid_v4_text(id) && r@ == (FrameView {
                    command: ClientCommand::Send,
                    headers: pairs_insert(self.header_pairs(), "receipt"@, id),
                    body: self.body_text(),
                }),
    {
        let id = random_uuid();
        let frame = self.receipt(id).into_frame();
        assert(is_uuid_v4_text(id@));
        frame
    }
}

impl Ack {
    /// The ACK frame with a fresh receipt id.
    pub fn into_receipted_frame(self) -> (r: Frame<ClientCommand>)
        ensures
            exists|id: Seq<char>|
                is_uuid_v4_text(id) && r@ == (FrameView {
                    command: ClientCommand::Ack,
                    headers: pairs_insert(self.header_pairs(), "receipt"@, id),
                    body: Seq::<char>::empty(),
                }),
    {
        let id = random_uuid();
        let frame = self.receipt(id).into_frame();
        assert(is_uuid_v4_text(id@));
        frame
    }
}

impl Nack {
    /// The NACK frame with a fresh receipt id.
    pub fn into_receipted_frame(self) -> (r: Frame<ClientCommand>)
        ensures
            exists|id: Seq<char>|
                is_uuid_v4_text(id) && r@ == (FrameView {
                    command: ClientCommand::Nack,
                    headers: pairs_insert(self.header_pairs(), "receipt"@, id),
                    body: Seq::<char>::empty(),
                }),
    {
        let id = random_uuid();
        let frame = self.receipt(id).into_frame();
        assert(is_uuid_v4_text(id@));
        frame
    }
}

/// The transaction a client runs: its id, which goes on every frame sent in it.
#[derive(Debug, Clone)]
pub struct TransactionFrames {
    pub(crate) transaction_id: String,
}

/// The headers of a BEGIN, COMMIT or ABORT frame for transaction `id` with receipt `receipt`.
pub open spec fn transaction_pairs(id: Seq<char>, receipt: Seq<char>) -> Seq<
    (Seq<char>, Seq<char>),
> {
    seq![("transaction"@, id), ("receipt"@, receipt)]
}

impl TransactionFrames {
    /// The transaction's id.
    pub closed spec fn id_text(&self) -> Seq<char> {
        self.transaction_id@
    }

    /// The transaction's id.
    pub fn id(&self) -> (r: &String)
        ensures
            r@ == self.id_text(),
    {
        &self.transaction_id
    }

    /// Starts a transaction under a fresh random id: the transaction and its BEGIN frame,
    /// which carries a fresh receipt id.
    pub fn begin() -> (r: (TransactionFrames, Frame<ClientCommand>))
        ensures
            is_uuid_v4_text(r.0.id_text()),
            exists|receipt: Seq<char>|
                is_uuid_v4_text(receipt) && r.1@ == (FrameView {
                    command: ClientCommand::Begin,
                    headers: transaction_pairs(r.0.id_text(), receipt),
                    body: Seq::<char>::empty(),
                }),
    {
        let transaction_id = random_uuid();
        let receipt = random_uuid();
        proof {
            reveal_strlit("transaction");
            reveal_strlit("receipt");
            assert("transaction"@.len() == 11 && "receipt"@.len() == 7);
        }
        let frame = Begin::new(transaction_id.clone()).receipt(receipt).into_frame();
        assert(frame@.headers =~= transaction_pairs(transaction_id@, receipt@));
        (TransactionFrames { transaction_id }, frame)
    }

    /// `send` as part of this transaction.
    pub fn send(&self, send: Send) -> (r: Send)
        ensures
            r.header_pairs() == pairs_insert(send.header_pairs(), "transaction"@, self.id_text()),
            r.body_text() == send.body_text(),
    {
        send.header(String::from_str("transaction"), self.transaction_id.clone())
    }

    /// `ack` as part of this transaction.
    pub fn ack(&self, ack: Ack) -> (r: Ack)
        ensures
            r.header_pairs() == pairs_insert(ack.header_pairs(), "transaction"@, self.id_text()),
    {
        ack.transaction(self.transaction_id.clone())
    }

    /// `nack` as part of this transaction.
    pub fn nack(&self, nack: Nack) -> (r: Nack)
        ensures
            r.header_pairs() == pairs_insert(nack.header_pairs(), "transaction"@, self.id_text()),
    {
        nack.transaction(self.transaction_id.clone())
    }

    /// The COMMIT frame of this transaction, with a fresh receipt id.
    pub fn commit(&self) -> (r: Frame<ClientCommand>)
        ensures
            exists|receipt: Seq<char>|
                is_uuid_v4_text(receipt) && r@ == (FrameView {
                    command: ClientCommand::Commit,
                    headers: transaction_pairs(self.id_text(), receipt),
                    body: Seq::<char>::empty(),
                }),
    {
        let receipt = random_uuid();
        proof {
            reveal_strlit("transaction");
            reveal_strlit("receipt");
            assert("transaction"@.len() == 11 && "receipt"@.len() == 7);
        }
        let frame = Commit::new(self.transaction_id.clone()).receipt(receipt).into_frame();
        assert(frame@.headers =~= transaction_pairs(self.id_text(), receipt@));
        frame
    }

    /// The ABORT frame of this transaction, with a fresh receipt id.
    pub fn abort(&self) -> (r: Frame<ClientCommand>)
        ensures
            exists|receipt: Seq<char>|
                is_uuid_v4_text(receipt) && r@ == (FrameView {
                    command: ClientCommand::Abort,
                    headers: transaction_pairs(self.id_text(), receipt),
                    body: Seq::<char>::empty(),
                }),
    {
        let receipt = random_uuid();
        proof {
            reveal_strlit("transaction");
            reveal_strlit("receipt");
            assert("transaction"@.len() == 11 && "receipt"@.len() == 7);
        }
        let frame = Abort::new(self.transaction_id.clone()).receipt(receipt).into_frame();
        assert(frame@.headers =~= transaction_pairs(self.id_text(), receipt@));
        frame
    }
}

} // verus!
