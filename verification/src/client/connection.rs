use vstd::prelude::*;

use crate::protocol::command::ServerCommand;
use crate::protocol::message::StompMessage;
use crate::protocol::parser::{
    initial_parser, messages_view, run, FrameParser, ParseError, ParserView, Run,
};

verus! {

/// The decisions of a connection to a broker: it parses what arrives and, once it has
/// asked to close, takes no more traffic.
pub struct ConnectionMachine {
    parser: FrameParser<ServerCommand>,
    closing: bool,
}

/// What to do with bytes read from the broker.
#[derive(Debug)]
pub enum ReadOutcome {
    /// Hand these messages on, in order.
    Messages(Vec<StompMessage<ServerCommand>>),
    /// The broker sent a command line that names no command: close the connection.
    Refused(ParseError),
    /// The broker sent a line that is not UTF-8, or a header line without ':'; the reader
    /// cannot go on.
    Malformed,
}

impl ConnectionMachine {
    /// The state of the frame parser.
    pub closed spec fn parser_state(&self) -> ParserView<ServerCommand> {
        self.parser@
    }

    /// Whether the connection has asked to close.
    pub closed spec fn is_closing(&self) -> bool {
        self.closing
    }

    /// A fresh connection.
    pub fn new() -> (r: ConnectionMachine)
        ensures
            r.parser_state() == initial_parser::<ServerCommand>(),
            !r.is_closing(),
    {
        ConnectionMachine { parser: FrameParser::new(), closing: false }
    }

    /// Whether the connection still takes traffic: frames to send and bytes to read.
    pub fn accepts_traffic(&self) -> (r: bool)
        ensures
            r == !self.is_closing(),
    {
        !self.closing
    }

    /// Takes bytes read from the broker: the messages they complete, or, when a command
    /// line names no command, the request to close.
    pub fn on_received(&mut self, bytes: &[u8]) -> (r: ReadOutcome)
        ensures
            match run(old(self).parser_state(), bytes@) {
                Run::Done { parser, out } => {
                    &&& r matches ReadOutcome::Messages(ms) && messages_view(ms@) == out
                    &&& final(self).parser_state() == parser
                    &&& final(self).is_closing() == old(self).is_closing()
                },
                Run::Unknown { parser, text } => {
                    &&& r matches ReadOutcome::Refused(ParseError::CommandNotFound(t)) && t@
                        == text
                    &&& final(self).parser_state() == parser
                    &&& final(self).is_closing()
                },
                Run::Fault => {
                    &&& r matches ReadOutcome::Malformed
                    &&& final(self).is_closing() == old(self).is_closing()
                },
            },
    {
        match self.parser.try_parse(bytes) {
            Some(Ok(messages)) => ReadOutcome::Messages(messages),
            Some(Err(e)) => {
                self.closing = true;
                ReadOutcome::Refused(e)
            },
            None => ReadOutcome::Malformed,
        }
    }

    /// Takes a failed read: one that would block changes nothing; any other failure asks to
    /// close. Returns whether to ask.
    pub fn on_read_error(&mut self, would_block: bool) -> (r: bool)
        ensures
            r == !would_block,
            final(self).is_closing() == (old(self).is_closing() || !would_block),
            final(self).parser_state() == old(self).parser_state(),
    {
        if !would_block {
            self.closing = true;
        }
        !would_block
    }
}

} // verus!
