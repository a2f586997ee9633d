use vstd::prelude::*;
use vstd::utf8::encode_utf8;

use super::command::Command;
use super::headers::Headers;

verus! {

/// The byte that ends a frame.
pub const BNF_NULL: u8 = 0;

/// The byte that ends the command line and each header line; alone, a heart-beat.
pub const BNF_LF: u8 = 10;

/// Carriage return, tolerated between frames.
pub const BNF_CR: u8 = 13;

/// The byte between a header's name and its value.
pub const BNF_COLON: u8 = 58;

/// A STOMP frame: a command, headers and a body.
#[derive(Debug)]
pub struct Frame<T> {
    pub command: T,
    pub headers: Headers,
    pub body: String,
}

/// What a frame holds, as values.
pub struct FrameView<T> {
    pub command: T,
    pub headers: Seq<(Seq<char>, Seq<char>)>,
    pub body: Seq<char>,
}

impl<T: Command> View for Frame<T> {
    type V = FrameView<T>;

    open spec fn view(&self) -> FrameView<T> {
        FrameView { command: self.command, headers: self.headers.pairs(), body: self.body@ }
    }
}

/// What travels on a connection: a frame or a heart-beat.
#[derive(Debug)]
pub enum StompMessage<T> {
    Frame(Frame<T>),
    Ping,
}

/// A message, as values.
pub enum MessageView<T> {
    Frame(FrameView<T>),
    Ping,
}

impl<T: Command> View for StompMessage<T> {
    type V = MessageView<T>;

    open spec fn view(&self) -> MessageView<T> {
        match self {
            StompMessage::Frame(f) => MessageView::Frame(f@),
            StompMessage::Ping => MessageView::Ping,
        }
    }
}

impl<T: Command> Clone for Frame<T> {
    fn clone(&self) -> (r: Frame<T>)
        ensures
            r@ == self@,
    {
        Frame { command: self.command, headers: self.headers.clone(), body: self.body.clone() }
    }
}

impl<T: Command> Clone for StompMessage<T> {
    fn clone(&self) -> (r: StompMessage<T>)
        ensures
            r@ == self@,
    {
        match self {
            StompMessage::Frame(f) => StompMessage::Frame(f.clone()),
            StompMessage::Ping => StompMessage::Ping,
        }
    }
}

/// The wire form of one header: `name:value` and a line feed.
pub open spec fn header_line(name: Seq<char>, value: Seq<char>) -> Seq<u8> {
    encode_utf8(name) + seq![BNF_COLON] + encode_utf8(value) + seq![BNF_LF]
}

/// The wire form of a list of headers, one line each, in order.
pub open spec fn header_block(pairs: Seq<(Seq<char>, Seq<char>)>) -> Seq<u8>
    decreases pairs.len(),
{
    if pairs.len() == 0 {
        seq![]
    } else {
        header_block(pairs.drop_last()) + header_line(pairs.last().0, pairs.last().1)
    }
}

/// The wire form of a frame: the command line, the header lines, an empty line, the body
/// and a NUL byte, all text in UTF-8.
pub open spec fn frame_bytes<T: Command>(f: FrameView<T>) -> Seq<u8> {
    encode_utf8(f.command.spec_name()) + seq![BNF_LF] + header_block(f.headers) + seq![BNF_LF]
        + encode_utf8(f.body) + seq![BNF_NULL]
}

/// Appends `bytes` to `buffer`.
pub fn append_bytes(buffer: &mut Vec<u8>, bytes: &[u8])
    ensures
        final(buffer)@ == old(buffer)@ + bytes@,
{
    let ghost start = buffer@;
    let mut i: usize = 0;
    while i < bytes.len()
        invariant
            i <= bytes.len(),
            buffer@ == start + bytes@.subrange(0, i as int),
        decreases bytes.len() - i,
    {
        buffer.push(bytes[i]);
        i = i + 1;
        assert(buffer@ =~= start + bytes@.subrange(0, i as int));
    }
    assert(bytes@.subrange(0, bytes.len() as int) =~= bytes@);
}

impl<T: Command> Frame<T> {
    /// A frame of the given parts.
    pub fn new(command: T, headers: Headers, body: String) -> (r: Frame<T>)
        ensures
            r.command == command,
            r.headers.pairs() == headers.pairs(),
            r.body@ == body@,
    {
        Frame { command, headers, body }
    }

    /// The wire form of the frame.
    pub fn to_bytes(&self) -> (r: Vec<u8>)
        ensures
            r@ == frame_bytes(self@),
    {
        let mut buffer: Vec<u8> = Vec::new();
        append_bytes(&mut buffer, self.command.name().as_bytes());
        buffer.push(BNF_LF);
        let ghost head = buffer@;
        assert(head =~= encode_utf8(self.command.spec_name()) + seq![BNF_LF]);
        let n = self.headers.len();
        let mut i: usize = 0;
        while i < n
            invariant
                n == self.headers.pairs().len(),
                i <= n,
                buffer@ == head + header_block(self.headers.pairs().subrange(0, i as int)),
            decreases n - i,
        {
            let (name, value) = self.headers.entry(i);
            append_bytes(&mut buffer, name.as_str().as_bytes());
            buffer.push(BNF_COLON);
            append_bytes(&mut buffer, value.as_str().as_bytes());
            buffer.push(BNF_LF);
            proof {
                let ps = self.headers.pairs();
                assert(ps.subrange(0, i + 1).drop_last() =~= ps.subrange(0, i as int));
            }
            i = i + 1;
            assert(buffer@ =~= head + header_block(self.headers.pairs().subrange(0, i as int)));
        }
        assert(self.headers.pairs().subrange(0, n as int) =~= self.headers.pairs());
        buffer.push(BNF_LF);
        append_bytes(&mut buffer, self.body.as_str().as_bytes());
        buffer.push(BNF_NULL);
        assert(buffer@ =~= frame_bytes(self@));
        buffer
    }
}

/// What goes on the wire for a message: a frame's wire form, or a lone line feed for a
/// heart-beat.
pub open spec fn message_bytes<T: Command>(m: MessageView<T>) -> Seq<u8> {
    match m {
        MessageView::Frame(f) => frame_bytes(f),
        MessageView::Ping => seq![BNF_LF],
    }
}

impl<T: Command> StompMessage<T> {
    /// What goes on the wire for this message.
    pub fn to_bytes(&self) -> (r: Vec<u8>)
        ensures
            r@ == message_bytes(self@),
    {
        match self {
            StompMessage::Frame(f) => f.to_bytes(),
            StompMessage::Ping => {
                let mut v: Vec<u8> = Vec::new();
                v.push(BNF_LF);
                assert(v@ =~= seq![BNF_LF]);
                v
            },
        }
    }
}

} // verus!
