use vstd::prelude::*;
use vstd::utf8::*;

use super::command::Command;
use super::headers::{pairs_insert, Headers};
use super::message::{
    BNF_COLON, BNF_CR, BNF_LF, BNF_NULL, Frame, FrameView, MessageView, StompMessage,
};
use super::text::{decode_text, lemma_split_at_ascii, trim_text, trimmed};

verus! {

/// What the parser is reading.
#[derive(Debug, Clone, Copy, PartialEq, Eq, Structural)]
pub enum ReadingState {
    Command,
    Header,
    Body,
    Completed,
}

/// Why input was refused.
#[derive(Debug)]
pub enum ParseError {
    /// The command line names no command.
    CommandNotFound(String),
}

/// The parser's state, as values: the bytes of the current line, what it reads, and the
/// command and headers of the frame under way.
pub struct ParserView<T> {
    pub buffer: Seq<u8>,
    pub state: ReadingState,
    pub command: Option<T>,
    pub headers: Seq<(Seq<char>, Seq<char>)>,
}

/// The parser at its start: reading a command, nothing buffered.
pub open spec fn initial_parser<T>() -> ParserView<T> {
    ParserView { buffer: seq![], state: ReadingState::Command, command: None, headers: seq![] }
}

/// Whether byte `b` ends what is read in `state`: a NUL ends the body, a line feed ends
/// every other line.
pub open spec fn ends_line(state: ReadingState, b: u8) -> bool {
    if state == ReadingState::Body {
        b == BNF_NULL
    } else {
        b == BNF_LF
    }
}

/// Whether `i` is the position of the first ':' byte of `line`.
pub open spec fn is_first_colon(line: Seq<u8>, i: int) -> bool {
    &&& 0 <= i < line.len()
    &&& line[i] == BNF_COLON
    &&& forall|j: int| 0 <= j < i ==> line[j] != BNF_COLON
}

/// Whether `line` holds a ':' byte.
pub open spec fn has_colon(line: Seq<u8>) -> bool {
    exists|i: int| 0 <= i < line.len() && line[i] == BNF_COLON
}

/// The position of the first ':' byte of `line`.
pub open spec fn first_colon(line: Seq<u8>) -> int {
    choose|i: int| is_first_colon(line, i)
}

/// The bytes of `line` before its first ':', or all of them.
pub open spec fn until_colon(line: Seq<u8>) -> Seq<u8> {
    if has_colon(line) {
        line.take(first_colon(line))
    } else {
        line
    }
}

/// The header that a header line sets: the line is split at ':' bytes; the name is the text
/// before the first one and the value the text between the first and the next one (or the
/// end), both without surrounding white space. A line without ':' sets none.
pub open spec fn header_entry(line: Seq<u8>) -> Option<(Seq<char>, Seq<char>)> {
    if has_colon(line) {
        let i = first_colon(line);
        Some(
            (
                trimmed(decode_utf8(line.take(i))),
                trimmed(decode_utf8(until_colon(line.skip(i + 1)))),
            ),
        )
    } else {
        None
    }
}

/// The effect of one byte on the parser.
pub enum Step<T> {
    /// The parser moves on to `parser` and puts out `out`.
    Next { parser: ParserView<T>, out: Seq<MessageView<T>> },
    /// The command line `text` names no command; the parser stays at `parser`.
    Unknown { parser: ParserView<T>, text: Seq<char> },
    /// The byte completes a line that is not valid UTF-8, or a header line without ':'.
    Fault,
}

/// What reading byte `b` does to parser `p`.
///
/// After a frame, a line feed is a heart-beat, a carriage return is skipped and any other
/// byte starts the next command. A byte that ends the current line completes it: a command
/// line selects the command; a header line sets a header, and an empty one starts the body;
/// the body completes the frame. Any other byte joins the current line.
pub open spec fn step<T: Command>(p: ParserView<T>, b: u8) -> Step<T> {
    let ping = p.state == ReadingState::Completed && b == BNF_LF;
    let state = if p.state == ReadingState::Completed && b != BNF_LF && b != BNF_CR {
        ReadingState::Command
    } else {
        p.state
    };
    let p1 = ParserView { state, ..p };
    let out: Seq<MessageView<T>> = if ping {
        seq![MessageView::Ping]
    } else {
        seq![]
    };
    if !ends_line(state, b) {
        let buffer = if state == ReadingState::Completed {
            p1.buffer
        } else {
            p1.buffer.push(b)
        };
        Step::Next { parser: ParserView { buffer, ..p1 }, out }
    } else {
        match state {
            ReadingState::Command => {
                if !valid_utf8(p1.buffer) {
                    Step::Fault
                } else {
                    let text = decode_utf8(p1.buffer);
                    match T::spec_from_name(text) {
                        Some(c) => Step::Next {
                            parser: ParserView {
                                buffer: seq![],
                                state: ReadingState::Header,
                                command: Some(c),
                                headers: seq![],
                            },
                            out,
                        },
                        None => Step::Unknown { parser: p1, text },
                    }
                }
            },
            ReadingState::Header => {
                if p1.buffer.len() == 0 {
                    Step::Next {
                        parser: ParserView { buffer: seq![], state: ReadingState::Body, ..p1 },
                        out,
                    }
                } else if !valid_utf8(p1.buffer) {
                    Step::Fault
                } else {
                    match header_entry(p1.buffer) {
                        Some(e) => Step::Next {
                            parser: ParserView {
                                buffer: seq![],
                                headers: pairs_insert(p1.headers, e.0, e.1),
                                ..p1
                            },
                            out,
                        },
                        None => Step::Fault,
                    }
                }
            },
            ReadingState::Body => {
                if !valid_utf8(p1.buffer) {
                    Step::Fault
                } else {
                    match p1.command {
                        Some(c) => Step::Next {
                            parser: ParserView {
                                buffer: seq![],
                                state: ReadingState::Completed,
                                command: None,
                                headers: seq![],
                            },
                            out: out.push(
                                MessageView::Frame(
                                    FrameView {
                                        command: c,
                                        headers: p1.headers,
                                        body: decode_utf8(p1.buffer),
                                    },
                                ),
                            ),
                        },
                        None => Step::Fault,
                    }
                }
            },
            ReadingState::Completed => Step::Next {
                parser: ParserView { buffer: seq![], ..p1 },
                out,
            },
        }
    }
}

/// The outcome of reading a run of bytes.
pub enum Run<T> {
    /// All bytes were read; the parser is at `parser` and put out `out`.
    Done { parser: ParserView<T>, out: Seq<MessageView<T>> },
    /// A command line named no command; the parser stopped at `parser`.
    Unknown { parser: ParserView<T>, text: Seq<char> },
    /// A byte faulted.
    Fault,
}

/// `r` with `out` put out before what it puts out.
pub open spec fn after_output<T>(out: Seq<MessageView<T>>, r: Run<T>) -> Run<T> {
    match r {
        Run::Done { parser, out: rest } => Run::Done { parser, out: out + rest },
        _ => r,
    }
}

/// Putting out `a` and then `b` before a run is putting out `a + b` before it.
pub proof fn lemma_after_output_twice<T>(a: Seq<MessageView<T>>, b: Seq<MessageView<T>>, r: Run<T>)
    ensures
        after_output(a, after_output(b, r)) == after_output(a + b, r),
{
    match r {
        Run::Done { parser, out } => {
            assert(a + (b + out) =~= (a + b) + out);
        },
        _ => {},
    }
}

/// What reading `bytes`, one after the other, does to parser `p`.
pub open spec fn run<T: Command>(p: ParserView<T>, bytes: Seq<u8>) -> Run<T>
    decreases bytes.len(),
{
    if bytes.len() == 0 {
        Run::Done { parser: p, out: seq![] }
    } else {
        match step(p, bytes[0]) {
            Step::Next { parser, out } => after_output(out, run(parser, bytes.drop_first())),
            Step::Unknown { parser, text } => Run::Unknown { parser, text },
            Step::Fault => Run::Fault,
        }
    }
}

/// Views of a list of messages.
pub open spec fn messages_view<T: Command>(ms: Seq<StompMessage<T>>) -> Seq<MessageView<T>> {
    ms.map_values(|m: StompMessage<T>| m@)
}

/// The position of the first ':' byte of `line`, if it has one.
fn find_colon(line: &[u8]) -> (r: Option<usize>)
    ensures
        r matches Some(i) ==> is_first_colon(line@, i as int),
        r is None ==> !has_colon(line@),
{
    let mut i: usize = 0;
    while i < line.len()
        invariant
            i <= line.len(),
            forall|j: int| 0 <= j < i ==> line@[j] != BNF_COLON,
        decreases line.len() - i,
    {
        if line[i] == BNF_COLON {
            return Some(i);
        }
        i = i + 1;
    }
    None
}

/// The first ':' is the one that `first_colon` names.
proof fn lemma_first_colon(line: Seq<u8>, i: int)
    requires
        is_first_colon(line, i),
    ensures
        has_colon(line),
        first_colon(line) == i,
{
    assert(line[i] == BNF_COLON);
    let j = first_colon(line);
    assert(is_first_colon(line, j));
    if j < i {
        assert(line[j] != BNF_COLON);
    }
    if i < j {
        assert(line[i] != BNF_COLON);
    }
}

/// The header that a complete header line sets (see `header_entry`), if it sets one.
fn read_header(line: &[u8]) -> (r: Option<(String, String)>)
    requires
        valid_utf8(line@),
    ensures
        r matches Some(e) ==> header_entry(line@) == Some((e.0@, e.1@)),
        r is None ==> header_entry(line@) is None,
{
    let i = match find_colon(line) {
        Some(i) => i,
        None => {
            return None;
        },
    };
    assert(is_first_colon(line@, i as int));
    assert(i < line.len());
    proof {
        lemma_first_colon(line@, i as int);
        lemma_split_at_ascii(line@, i as int);
    }
    let name_bytes = vstd::slice::slice_subrange(line, 0, i);
    let rest = vstd::slice::slice_subrange(line, i + 1, line.len());
    assert(name_bytes@ =~= line@.take(i as int));
    assert(rest@ =~= line@.skip(i + 1));
    let j = match find_colon(rest) {
        Some(j) => {
            proof {
                lemma_first_colon(rest@, j as int);
                lemma_split_at_ascii(rest@, j as int);
            }
            j
        },
        None => rest.len(),
    };
    let value_bytes = vstd::slice::slice_subrange(rest, 0, j);
    assert(value_bytes@ =~= until_colon(rest@));
    let name = match decode_text(name_bytes) {
        Some(t) => t,
        None => {
            return None;
        },
    };
    let value = match decode_text(value_bytes) {
        Some(t) => t,
        None => {
            return None;
        },
    };
    let name = String::from_str(trim_text(name.as_str()));
    let value = String::from_str(trim_text(value.as_str()));
    Some((name, value))
}

/// An incremental STOMP frame parser: it takes bytes as they arrive, in chunks of any size,
/// and puts out each frame and heart-beat as it completes.
pub struct FrameParser<T> {
    buffer: Vec<u8>,
    state: ReadingState,
    current_command: Option<T>,
    current_headers: Headers,
}

impl<T: Command> View for FrameParser<T> {
    type V = ParserView<T>;

    closed spec fn view(&self) -> ParserView<T> {
        ParserView {
            buffer: self.buffer@,
            state: self.state,
            command: self.current_command,
            headers: self.current_headers.pairs(),
        }
    }
}

impl<T: Command> FrameParser<T> {
    /// A parser at its start.
    pub fn new() -> (r: FrameParser<T>)
        ensures
            r@ == initial_parser::<T>(),
    {
        let r = FrameParser {
            buffer: Vec::new(),
            state: ReadingState::Command,
            current_command: None,
            current_headers: Headers::new(),
        };
        assert(r@.buffer =~= Seq::<u8>::empty());
        r
    }

    /// Reads one byte (see `step`), appending what it puts out to `frames`. Returns `None`
    /// when the byte faults; the parser is then left in no particular state.
    fn consume(&mut self, b: u8, frames: &mut Vec<StompMessage<T>>) -> (r: Option<
        Result<(), ParseError>,
    >)
        ensures
            match step(old(self)@, b) {
                Step::Next { parser, out } => {
                    &&& r == Some(Ok::<(), ParseError>(()))
                    &&& final(self)@ == parser
                    &&& messages_view(final(frames)@) == messages_view(old(frames)@) + out
                },
                Step::Unknown { parser, text } => {
                    &&& r matches Some(Err(ParseError::CommandNotFound(t))) && t@ == text
                    &&& final(self)@ == parser
                },
                Step::Fault => r is None,
            },
    {
        let ghost frames0 = frames@;
        if self.state == ReadingState::Completed && b == BNF_LF {
            frames.push(StompMessage::Ping);
        } else if self.state == ReadingState::Completed && b != BNF_LF && b != BNF_CR {
            self.state = ReadingState::Command;
        }
        let ghost out = messages_view(frames@).skip(frames0.len() as int);
        assert(messages_view(frames@) =~= messages_view(frames0) + out);
        let ends = if self.state == ReadingState::Body {
            b == BNF_NULL
        } else {
            b == BNF_LF
        };
        if !ends {
            if self.state != ReadingState::Completed {
                self.buffer.push(b);
            }
            return Some(Ok(()));
        }
        match self.state {
            ReadingState::Command => {
                let text = match decode_text(self.buffer.as_slice()) {
                    Some(t) => t,
                    None => {
                        return None;
                    },
                };
                match T::try_from_name(text.as_str()) {
                    Ok(c) => {
                        self.current_command = Some(c);
                        self.state = ReadingState::Header;
                        self.current_headers = Headers::new();
                        self.buffer.clear();
                        Some(Ok(()))
                    },
                    Err(_) => Some(Err(ParseError::CommandNotFound(text))),
                }
            },
            ReadingState::Header => {
                if self.buffer.len() == 0 {
                    self.state = ReadingState::Body;
                    self.buffer.clear();
                } else {
                    if decode_text(self.buffer.as_slice()).is_none() {
                        return None;
                    }
                    let (name, value) = match read_header(self.buffer.as_slice()) {
                        Some(e) => e,
                        None => {
                            return None;
                        },
                    };
                    self.current_headers.insert(name, value);
                    self.buffer.clear();
                }
                Some(Ok(()))
            },
            ReadingState::Body => {
                let body = match decode_text(self.buffer.as_slice()) {
                    Some(t) => t,
                    None => {
                        return None;
                    },
                };
                let command = match self.current_command {
                    Some(c) => c,
                    None => {
                        return None;
                    },
                };
                let mut headers = Headers::new();
                std::mem::swap(&mut headers, &mut self.current_headers);
                self.state = ReadingState::Completed;
                self.current_command = None;
                self.buffer.clear();
                frames.push(StompMessage::Frame(Frame { command, headers, body }));
                assert(messages_view(frames@) =~= messages_view(old(frames)@) + match step(
                    old(self)@,
                    b,
                ) {
                    Step::Next { parser, out } => out,
                    _ => seq![],
                });
                Some(Ok(()))
            },
            ReadingState::Completed => {
                self.buffer.clear();
                Some(Ok(()))
            },
        }
    }

    /// Reads `body`, the next bytes of the stream (see `run`). Returns `None` when a byte
    /// faults (a line that is not UTF-8, a header line without ':'); otherwise what `parse`
    /// returns.
    pub fn try_parse(&mut self, body: &[u8]) -> (r: Option<Result<Vec<StompMessage<T>>, ParseError>>)
        ensures
            match run(old(self)@, body@) {
                Run::Done { parser, out } => {
                    &&& r matches Some(Ok(frames)) && messages_view(frames@) == out
                    &&& final(self)@ == parser
                },
                Run::Unknown { parser, text } => {
                    &&& r matches Some(Err(ParseError::CommandNotFound(t))) && t@ == text
                    &&& final(self)@ == parser
                },
                Run::Fault => r is None,
            },
    {
        let mut frames: Vec<StompMessage<T>> = Vec::new();
        let mut i: usize = 0;
        assert(body@.skip(0) =~= body@);
        assert(messages_view(frames@) =~= Seq::<MessageView<T>>::empty());
        while i < body.len()
            invariant
                i <= body.len(),
                run(old(self)@, body@) == after_output(
                    messages_view(frames@),
                    run(self@, body@.skip(i as int)),
                ),
            decreases body.len() - i,
        {
            let ghost before = self@;
            let ghost seen = messages_view(frames@);
            let ghost rest = body@.skip(i as int);
            assert(rest.drop_first() =~= body@.skip(i + 1));
            assert(rest[0] == body@[i as int]);
            match self.consume(body[i], &mut frames) {
                Some(Ok(())) => {},
                Some(Err(e)) => {
                    return Some(Err(e));
                },
                None => {
                    return None;
                },
            }
            proof {
                match step(before, body@[i as int]) {
                    Step::Next { parser, out } => {
                        lemma_after_output_twice(seen, out, run(parser, rest.drop_first()));
                    },
                    _ => {},
                }
            }
            i = i + 1;
        }
        assert(messages_view(frames@) + Seq::<MessageView<T>>::empty() =~= messages_view(frames@));
        Some(Ok(frames))
    }

    /// Reads `body`, the next bytes of the stream, and returns the frames and heart-beats
    /// that they complete, in order (see `run`). When a command line names no command, it
    /// returns that error and the parser stays where it stopped.
    pub fn parse(&mut self, body: &[u8]) -> (r: Result<Vec<StompMessage<T>>, ParseError>)
        requires
            !(run(old(self)@, body@) is Fault),
        ensures
            match run(old(self)@, body@) {
                Run::Done { parser, out } => {
                    &&& r matches Ok(frames) && messages_view(frames@) == out
                    &&& final(self)@ == parser
                },
                Run::Unknown { parser, text } => {
                    &&& r matches Err(ParseError::CommandNotFound(t)) && t@ == text
                    &&& final(self)@ == parser
                },
                Run::Fault => false,
            },
    {
        match self.try_parse(body) {
            Some(r) => r,
            None => {
                proof {
                    assert(false);
                }
                Ok(Vec::new())
            },
        }
    }
}

} // verus!
