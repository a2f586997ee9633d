use vstd::prelude::*;
use vstd::utf8::*;

use super::command::{lemma_wire_names, ClientCommand, Command};
use super::headers::{has_key, keys_distinct, pairs_insert};
use super::message::{
    frame_bytes, header_block, header_line, BNF_COLON, BNF_CR, BNF_LF, BNF_NULL, FrameView,
    MessageView,
};
use super::parser::{
    after_output, ends_line, first_colon, has_colon, header_entry, initial_parser,
    is_first_colon, lemma_after_output_twice, run, step, until_colon, ParserView, ReadingState,
    Run, Step,
};
use super::text::{
    has_byte, has_code, is_white_space, lemma_ascii_byte_in_encoding, lemma_trimmed_unchanged,
};

verus! {

/// Continues run `r` with `bytes`, when it read all its bytes.
pub open spec fn then_run<T: Command>(r: Run<T>, bytes: Seq<u8>) -> Run<T> {
    match r {
        Run::Done { parser, out } => after_output(out, run(parser, bytes)),
        _ => r,
    }
}

/// Text that can stand as a header name or value and be read back unchanged: no ':' and no
/// line feed in it, and no white space at either end.
pub open spec fn is_plain_text(s: Seq<char>) -> bool {
    &&& forall|i: int| 0 <= i < s.len() ==> #[trigger] s[i] != ':' && s[i] != '\n'
    &&& s.len() > 0 ==> !is_white_space(s[0]) && !is_white_space(s.last())
}

/// A frame that a parser reads back exactly as it was sent: distinct header names, plain
/// header names and values, and no NUL character in the body.
pub open spec fn is_transmittable<T>(f: FrameView<T>) -> bool {
    &&& keys_distinct(f.headers)
    &&& forall|i: int|
        0 <= i < f.headers.len() ==> is_plain_text((#[trigger] f.headers[i]).0) && is_plain_text(
            f.headers[i].1,
        )
    &&& forall|i: int| 0 <= i < f.body.len() ==> #[trigger] f.body[i] != '\0'
}

/// Whether the parser stands between frames: nothing buffered, and it awaits a command.
pub open spec fn between_frames<T>(p: ParserView<T>) -> bool {
    &&& p.buffer.len() == 0
    &&& (p.state == ReadingState::Command || p.state == ReadingState::Completed)
}

/// The parser just after it completed a frame.
pub open spec fn completed_parser<T>() -> ParserView<T> {
    ParserView { buffer: seq![], state: ReadingState::Completed, command: None, headers: seq![] }
}

/// The wire form of frames sent one after the other.
pub open spec fn stream_bytes<T: Command>(frames: Seq<FrameView<T>>) -> Seq<u8>
    decreases frames.len(),
{
    if frames.len() == 0 {
        seq![]
    } else {
        stream_bytes(frames.drop_last()) + frame_bytes(frames.last())
    }
}

/// The messages that carry `frames`, in order.
pub open spec fn frame_messages<T>(frames: Seq<FrameView<T>>) -> Seq<MessageView<T>> {
    frames.map_values(|f: FrameView<T>| MessageView::Frame(f))
}

proof fn lemma_then_after_output<T: Command>(out: Seq<MessageView<T>>, r: Run<T>, b: Seq<u8>)
    ensures
        after_output(out, then_run(r, b)) == then_run(after_output(out, r), b),
{
    match r {
        Run::Done { parser, out: o } => {
            lemma_after_output_twice(out, o, run(parser, b));
        },
        _ => {},
    }
}

/// Reading bytes in two chunks is reading them in one: the parser goes on from where the
/// first chunk left it, and the messages of both chunks come out in order.
pub proof fn lemma_run_split<T: Command>(p: ParserView<T>, a: Seq<u8>, b: Seq<u8>)
    ensures
        run(p, a + b) == then_run(run(p, a), b),
    decreases a.len(),
{
    if a.len() == 0 {
        assert(a + b =~= b);
        match run(p, b) {
            Run::Done { parser, out } => {
                assert(Seq::<MessageView<T>>::empty() + out =~= out);
            },
            _ => {},
        }
    } else {
        assert((a + b)[0] == a[0]);
        assert((a + b).drop_first() =~= a.drop_first() + b);
        match step(p, a[0]) {
            Step::Next { parser, out } => {
                lemma_run_split(parser, a.drop_first(), b);
                lemma_then_after_output(out, run(parser, a.drop_first()), b);
            },
            _ => {},
        }
    }
}

/// Bytes that end no line are gathered in the buffer, and nothing comes out.
proof fn lemma_run_gather<T: Command>(p: ParserView<T>, bytes: Seq<u8>)
    requires
        p.state != ReadingState::Completed,
        forall|i: int| 0 <= i < bytes.len() ==> !ends_line(p.state, #[trigger] bytes[i]),
    ensures
        run(p, bytes) == (Run::Done {
            parser: ParserView { buffer: p.buffer + bytes, ..p },
            out: seq![],
        }),
    decreases bytes.len(),
{
    if bytes.len() == 0 {
        assert(p.buffer + bytes =~= p.buffer);
    } else {
        let q = ParserView { buffer: p.buffer.push(bytes[0]), ..p };
        assert(!ends_line(p.state, bytes[0]));
        assert(step(p, bytes[0]) == (Step::Next { parser: q, out: seq![] }));
        assert forall|i: int|
            0 <= i < bytes.drop_first().len() implies !ends_line(
            q.state,
            #[trigger] bytes.drop_first()[i],
        ) by {
            assert(bytes.drop_first()[i] == bytes[i + 1]);
        }
        lemma_run_gather(q, bytes.drop_first());
        assert(q.buffer + bytes.drop_first() =~= p.buffer + bytes);
        assert(Seq::<MessageView<T>>::empty() + Seq::<MessageView<T>>::empty() =~= Seq::<
            MessageView<T>,
        >::empty());
    }
}

/// A character of code below 0x80 is not in `s` if no character of `s` equals it.
proof fn lemma_no_code(s: Seq<char>, c: char)
    requires
        (c as u32) < 0x80,
        forall|i: int| 0 <= i < s.len() ==> #[trigger] s[i] != c,
    ensures
        !has_code(s, c as u32),
{
    if has_code(s, c as u32) {
        let i = choose|i: int| 0 <= i < s.len() && (#[trigger] s[i]) as u32 == c as u32;
        char_u32_cast(s[i], c as u32);
        char_u32_cast(c, c as u32);
        assert(s[i] == c);
    }
}

/// The encoding of text without character `c` (of code below 0x80) has no byte `c`.
proof fn lemma_encoding_avoids(s: Seq<char>, c: char)
    requires
        (c as u32) < 0x80,
        forall|i: int| 0 <= i < s.len() ==> #[trigger] s[i] != c,
    ensures
        forall|i: int|
            0 <= i < encode_utf8(s).len() ==> #[trigger] encode_utf8(s)[i] != (c as u32) as u8,
{
    lemma_no_code(s, c);
    lemma_ascii_byte_in_encoding(s, (c as u32) as u8);
    assert forall|i: int|
        0 <= i < encode_utf8(s).len() implies #[trigger] encode_utf8(s)[i] != (c as u32) as u8 by {
        if encode_utf8(s)[i] == (c as u32) as u8 {
            assert(has_byte(encode_utf8(s), (c as u32) as u8));
        }
    }
}

/// A header line of plain name and value sets exactly that header.
proof fn lemma_header_entry(name: Seq<char>, value: Seq<char>)
    requires
        is_plain_text(name),
        is_plain_text(value),
    ensures
        header_entry(encode_utf8(name) + seq![BNF_COLON] + encode_utf8(value)) == Some(
            (name, value),
        ),
        valid_utf8(encode_utf8(name) + seq![BNF_COLON] + encode_utf8(value)),
{
    let en = encode_utf8(name);
    let ev = encode_utf8(value);
    let line = en + seq![BNF_COLON] + ev;
    assert((':' as u32) == 58);
    lemma_encoding_avoids(name, ':');
    lemma_encoding_avoids(value, ':');
    let i = en.len() as int;
    assert(line[i] == BNF_COLON);
    assert(is_first_colon(line, i)) by {
        assert forall|j: int| 0 <= j < i implies line[j] != BNF_COLON by {
            assert(line[j] == en[j]);
        }
    }
    assert(has_colon(line));
    let k = first_colon(line);
    assert(is_first_colon(line, k));
    if k < i {
        assert(line[k] == en[k]);
    }
    assert(k == i);
    assert(line.take(i) =~= en);
    assert(line.skip(i + 1) =~= ev);
    assert(!has_colon(ev)) by {
        if has_colon(ev) {
            let j = choose|j: int| 0 <= j < ev.len() && ev[j] == BNF_COLON;
            assert(ev[j] != BNF_COLON);
        }
    }
    assert(until_colon(ev) == ev);
    encode_utf8_decode_utf8(name);
    encode_utf8_decode_utf8(value);
    lemma_trimmed_unchanged(name);
    lemma_trimmed_unchanged(value);
    encode_utf8_valid_utf8(name);
    encode_utf8_valid_utf8(value);
    assert(valid_utf8(seq![BNF_COLON])) by {
        reveal_with_fuel(valid_utf8, 2);
        assert(pop_first_scalar(seq![BNF_COLON]) =~= Seq::<u8>::empty());
    }
    valid_utf8_concat(en, seq![BNF_COLON]);
    valid_utf8_concat(en + seq![BNF_COLON], ev);
}

/// The header lines of distinct plain headers, read in the header section, set exactly
/// those headers.
proof fn lemma_run_header_block<T: Command>(p: ParserView<T>, ps: Seq<(Seq<char>, Seq<char>)>)
    requires
        p.state == ReadingState::Header,
        p.buffer.len() == 0,
        p.headers.len() == 0,
        keys_distinct(ps),
        forall|i: int|
            0 <= i < ps.len() ==> is_plain_text((#[trigger] ps[i]).0) && is_plain_text(ps[i].1),
    ensures
        run(p, header_block(ps)) == (Run::Done {
            parser: ParserView { headers: ps, ..p },
            out: Seq::<MessageView<T>>::empty(),
        }),
    decreases ps.len(),
{
    if ps.len() == 0 {
        assert(header_block(ps) =~= Seq::<u8>::empty());
        assert(ps =~= p.headers);
    } else {
        let init = ps.drop_last();
        let (k, v) = ps.last();
        assert(ps[ps.len() - 1] == ps.last());
        assert(keys_distinct(init)) by {
            assert forall|i: int, j: int|
                0 <= i < init.len() && 0 <= j < init.len() && i != j implies (
                #[trigger] init[i]).0 != (#[trigger] init[j]).0 by {
                assert(init[i] == ps[i] && init[j] == ps[j]);
            }
        }
        assert forall|i: int| 0 <= i < init.len() implies is_plain_text(
            (#[trigger] init[i]).0,
        ) && is_plain_text(init[i].1) by {
            assert(init[i] == ps[i]);
        }
        lemma_run_header_block(p, init);
        let q = ParserView { headers: init, ..p };
        let text = encode_utf8(k) + seq![BNF_COLON] + encode_utf8(v);
        let line = header_line(k, v);
        assert(line =~= text + seq![BNF_LF]);
        assert(header_block(ps) == header_block(init) + line);
        lemma_run_split(p, header_block(init), line);
        assert(Seq::<MessageView<T>>::empty() + Seq::<MessageView<T>>::empty() =~= Seq::<
            MessageView<T>,
        >::empty());
        // the line's text is gathered, then its line feed sets the header
        assert(('\n' as u32) == 10);
        lemma_encoding_avoids(k, '\n');
        lemma_encoding_avoids(v, '\n');
        assert forall|i: int| 0 <= i < text.len() implies !ends_line(q.state, #[trigger] text[i]) by {
            if i < encode_utf8(k).len() {
                assert(text[i] == encode_utf8(k)[i]);
            } else if i > encode_utf8(k).len() {
                assert(text[i] == encode_utf8(v)[i - encode_utf8(k).len() - 1]);
            }
        }
        lemma_run_gather(q, text);
        let q2 = ParserView { buffer: q.buffer + text, ..q };
        assert(q2.buffer =~= text);
        lemma_run_split(q, text, seq![BNF_LF]);
        lemma_header_entry(k, v);
        assert(!has_key(init, k)) by {
            if has_key(init, k) {
                let j = choose|j: int| 0 <= j < init.len() && (#[trigger] init[j]).0 == k;
                assert(ps[j].0 != ps[ps.len() - 1].0);
            }
        }
        assert(pairs_insert(init, k, v) =~= ps);
        let q3 = ParserView { buffer: seq![], headers: ps, ..q2 };
        assert(step(q2, BNF_LF) == (Step::Next { parser: q3, out: Seq::<MessageView<T>>::empty() }));
        assert(seq![BNF_LF].drop_first() =~= Seq::<u8>::empty());
        assert(run(q3, Seq::<u8>::empty()) == (Run::Done { parser: q3, out: Seq::<MessageView<T>>::empty() }));
        assert(run(q2, seq![BNF_LF]) == (Run::Done { parser: q3, out: Seq::<MessageView<T>>::empty() }));
        assert(p.buffer =~= Seq::<u8>::empty());
        assert(q3 == ParserView { headers: ps, ..p });
    }
}

/// A single byte run: what `step` does, as a run.
proof fn lemma_run_one<T: Command>(p: ParserView<T>, b: u8)
    ensures
        run(p, seq![b]) == match step(p, b) {
            Step::Next { parser, out } => Run::Done { parser, out },
            Step::Unknown { parser, text } => Run::Unknown { parser, text },
            Step::Fault => Run::Fault,
        },
{
    assert(seq![b].drop_first() =~= Seq::<u8>::empty());
    match step(p, b) {
        Step::Next { parser, out } => {
            assert(run(parser, Seq::<u8>::empty()) == (Run::Done {
                parser,
                out: Seq::<MessageView<T>>::empty(),
            }));
            assert(out + Seq::<MessageView<T>>::empty() =~= out);
        },
        _ => {},
    }
}

/// A parser between frames reads a frame's command line up to its line feed.
proof fn lemma_run_command_text<T: Command>(p: ParserView<T>, c: T)
    requires
        between_frames(p),
    ensures
        run(p, encode_utf8(c.spec_name())) == (Run::Done {
            parser: ParserView {
                buffer: encode_utf8(c.spec_name()),
                state: ReadingState::Command,
                ..p
            },
            out: Seq::<MessageView<T>>::empty(),
        }),
{
    let name = c.spec_name();
    c.lemma_name();
    let cmd = encode_utf8(name);
    assert(is_ascii_chars(name)) by {
        assert forall|i: int| 0 <= i < name.len() implies '\0' <= #[trigger] name[i] <= '\u{7f}' by {
            assert('A' <= name[i] <= 'Z');
        }
    }
    is_ascii_chars_encode_utf8(name);
    assert forall|i: int| 0 <= i < cmd.len() implies 65 <= #[trigger] cmd[i] <= 90 by {
        assert('A' <= name[i] <= 'Z');
        assert(name[i] as u8 == cmd[i]);
    }
    let pc = ParserView { state: ReadingState::Command, ..p };
    if p.state == ReadingState::Command {
        lemma_run_gather(pc, cmd);
        assert(p.buffer + cmd =~= cmd);
        assert(pc == p);
    } else {
        let q = ParserView { buffer: seq![cmd[0]], state: ReadingState::Command, ..p };
        assert(p.buffer.push(cmd[0]) =~= seq![cmd[0]]);
        assert(step(p, cmd[0]) == (Step::Next { parser: q, out: Seq::<MessageView<T>>::empty() }));
        assert forall|i: int|
            0 <= i < cmd.drop_first().len() implies !ends_line(
            q.state,
            #[trigger] cmd.drop_first()[i],
        ) by {
            assert(cmd.drop_first()[i] == cmd[i + 1]);
        }
        lemma_run_gather(q, cmd.drop_first());
        assert(seq![cmd[0]] + cmd.drop_first() =~= cmd);
        assert(Seq::<MessageView<T>>::empty() + Seq::<MessageView<T>>::empty() =~= Seq::<
            MessageView<T>,
        >::empty());
    }
}

/// Encoding a frame and reading it back, from between frames, gives the frame: the parser
/// puts out exactly that frame and then stands just after it.
pub proof fn lemma_frame_roundtrip<T: Command>(p: ParserView<T>, f: FrameView<T>)
    requires
        between_frames(p),
        is_transmittable(f),
    ensures
        run(p, frame_bytes(f)) == (Run::Done {
            parser: completed_parser::<T>(),
            out: seq![MessageView::Frame(f)],
        }),
{
    let empty = Seq::<MessageView<T>>::empty();
    assert(empty + empty =~= empty);
    let name = f.command.spec_name();
    f.command.lemma_name();
    let s1 = encode_utf8(name);
    let s2 = s1 + seq![BNF_LF];
    let s3 = s2 + header_block(f.headers);
    let s4 = s3 + seq![BNF_LF];
    let s5 = s4 + encode_utf8(f.body);
    let s6 = s5 + seq![BNF_NULL];
    assert(s6 == frame_bytes(f));
    // the command line
    lemma_run_command_text(p, f.command);
    let q1 = ParserView { buffer: s1, state: ReadingState::Command, ..p };
    lemma_run_split(p, s1, seq![BNF_LF]);
    encode_utf8_valid_utf8(name);
    encode_utf8_decode_utf8(name);
    let q2 = ParserView::<T> {
        buffer: seq![],
        state: ReadingState::Header,
        command: Some(f.command),
        headers: seq![],
    };
    assert(step(q1, BNF_LF) == (Step::Next { parser: q2, out: empty }));
    lemma_run_one(q1, BNF_LF);
    assert(run(p, s2) == (Run::Done { parser: q2, out: empty }));
    // the header lines
    lemma_run_header_block(q2, f.headers);
    lemma_run_split(p, s2, header_block(f.headers));
    let q3 = ParserView { headers: f.headers, ..q2 };
    assert(run(p, s3) == (Run::Done { parser: q3, out: empty }));
    // the empty line
    let q4 = ParserView { state: ReadingState::Body, ..q3 };
    assert(step(q3, BNF_LF) == (Step::Next { parser: q4, out: empty }));
    lemma_run_one(q3, BNF_LF);
    lemma_run_split(p, s3, seq![BNF_LF]);
    assert(run(p, s4) == (Run::Done { parser: q4, out: empty }));
    // the body
    let body = encode_utf8(f.body);
    assert(('\0' as u32) == 0);
    lemma_encoding_avoids(f.body, '\0');
    assert forall|i: int| 0 <= i < body.len() implies !ends_line(q4.state, #[trigger] body[i]) by {}
    lemma_run_gather(q4, body);
    lemma_run_split(p, s4, body);
    let q5 = ParserView { buffer: body, ..q4 };
    assert(q4.buffer + body =~= body);
    assert(run(p, s5) == (Run::Done { parser: q5, out: empty }));
    // the NUL byte
    encode_utf8_valid_utf8(f.body);
    encode_utf8_decode_utf8(f.body);
    let out = seq![MessageView::Frame(f)];
    assert(empty.push(MessageView::Frame(f)) =~= out);
    assert(step(q5, BNF_NULL) == (Step::Next { parser: completed_parser::<T>(), out }));
    lemma_run_one(q5, BNF_NULL);
    lemma_run_split(p, s5, seq![BNF_NULL]);
    assert(empty + out =~= out);
}

/// Frames sent one after the other are read back in order: from between frames, reading
/// their wire forms puts out exactly those frames.
pub proof fn lemma_stream_roundtrip<T: Command>(p: ParserView<T>, frames: Seq<FrameView<T>>)
    requires
        between_frames(p),
        forall|i: int| 0 <= i < frames.len() ==> is_transmittable(#[trigger] frames[i]),
    ensures
        run(p, stream_bytes(frames)) == (Run::Done {
            parser: if frames.len() == 0 {
                p
            } else {
                completed_parser::<T>()
            },
            out: frame_messages(frames),
        }),
    decreases frames.len(),
{
    if frames.len() == 0 {
        assert(frame_messages(frames) =~= Seq::<MessageView<T>>::empty());
    } else {
        let init = frames.drop_last();
        assert forall|i: int| 0 <= i < init.len() implies is_transmittable(#[trigger] init[i]) by {
            assert(init[i] == frames[i]);
        }
        lemma_stream_roundtrip(p, init);
        assert(frames[frames.len() - 1] == frames.last());
        let q = if init.len() == 0 {
            p
        } else {
            completed_parser::<T>()
        };
        lemma_frame_roundtrip(q, frames.last());
        lemma_run_split(p, stream_bytes(init), frame_bytes(frames.last()));
        assert(frame_messages(init) + seq![MessageView::Frame(frames.last())] =~= frame_messages(
            frames,
        ));
    }
}

/// A new parser reads the wire form of frames back as those frames.
pub proof fn lemma_parse_after_new<T: Command>(frames: Seq<FrameView<T>>)
    requires
        forall|i: int| 0 <= i < frames.len() ==> is_transmittable(#[trigger] frames[i]),
    ensures
        run(initial_parser::<T>(), stream_bytes(frames)) matches Run::Done { out, .. } && out
            == frame_messages(frames),
{
    lemma_stream_roundtrip(initial_parser::<T>(), frames);
}

/// Between frames a line feed is a heart-beat and a carriage return is skipped; either way
/// the parser stays between frames.
pub proof fn lemma_between_frames_bytes<T: Command>()
    ensures
        run(completed_parser::<T>(), seq![BNF_LF]) == (Run::Done {
            parser: completed_parser::<T>(),
            out: seq![MessageView::<T>::Ping],
        }),
        run(completed_parser::<T>(), seq![BNF_CR]) == (Run::Done {
            parser: completed_parser::<T>(),
            out: Seq::<MessageView<T>>::empty(),
        }),
{
    let p = completed_parser::<T>();
    assert(step(p, BNF_LF) == (Step::Next { parser: p, out: seq![MessageView::<T>::Ping] }));
    lemma_run_one(p, BNF_LF);
    assert(step(p, BNF_CR) == (Step::Next { parser: p, out: Seq::<MessageView<T>>::empty() }));
    lemma_run_one(p, BNF_CR);
}

/// A frame's wire form starts with its command's name, byte for byte, and a line feed.
pub proof fn lemma_frame_starts_with_name<T: Command>(f: FrameView<T>)
    ensures
        frame_bytes(f).take(f.command.spec_name().len() + 1int) == Seq::new(
            f.command.spec_name().len(),
            |i: int| f.command.spec_name()[i] as u8,
        ).push(BNF_LF),
{
    let name = f.command.spec_name();
    f.command.lemma_name();
    assert(is_ascii_chars(name)) by {
        assert forall|i: int| 0 <= i < name.len() implies '\0' <= #[trigger] name[i] <= '\u{7f}' by {
            assert('A' <= name[i] <= 'Z');
        }
    }
    is_ascii_chars_encode_utf8(name);
    let e = encode_utf8(name);
    assert(frame_bytes(f).take(name.len() + 1int) =~= Seq::new(name.len(), |i: int| name[i] as u8).push(
        BNF_LF,
    )) by {
        assert(frame_bytes(f) =~= (e + seq![BNF_LF]) + (header_block(f.headers) + seq![BNF_LF]
            + encode_utf8(f.body) + seq![BNF_NULL]));
    }
}

/// The command line of every client frame on the wire: ACK frames start with `ACK`, NACK
/// frames with `NACK`, and so on for each command, then a line feed.
pub proof fn lemma_client_command_lines(f: FrameView<ClientCommand>)
    ensures
        f.command == ClientCommand::Connect ==> frame_bytes(f).take(8) == seq![67u8, 79u8, 78u8, 78u8, 69u8, 67u8, 84u8, 10u8],
        f.command == ClientCommand::Send ==> frame_bytes(f).take(5) == seq![83u8, 69u8, 78u8, 68u8, 10u8],
        f.command == ClientCommand::Subscribe ==> frame_bytes(f).take(10) == seq![83u8, 85u8, 66u8, 83u8, 67u8, 82u8, 73u8, 66u8, 69u8, 10u8],
        f.command == ClientCommand::Unsubscribe ==> frame_bytes(f).take(12) == seq![85u8, 78u8, 83u8, 85u8, 66u8, 83u8, 67u8, 82u8, 73u8, 66u8, 69u8, 10u8],
        f.command == ClientCommand::Ack ==> frame_bytes(f).take(4) == seq![65u8, 67u8, 75u8, 10u8],
        f.command == ClientCommand::Nack ==> frame_bytes(f).take(5) == seq![78u8, 65u8, 67u8, 75u8, 10u8],
        f.command == ClientCommand::Begin ==> frame_bytes(f).take(6) == seq![66u8, 69u8, 71u8, 73u8, 78u8, 10u8],
        f.command == ClientCommand::Commit ==> frame_bytes(f).take(7) == seq![67u8, 79u8, 77u8, 77u8, 73u8, 84u8, 10u8],
        f.command == ClientCommand::Abort ==> frame_bytes(f).take(6) == seq![65u8, 66u8, 79u8, 82u8, 84u8, 10u8],
        f.command == ClientCommand::Disconnect ==> frame_bytes(f).take(11) == seq![68u8, 73u8, 83u8, 67u8, 79u8, 78u8, 78u8, 69u8, 67u8, 84u8, 10u8],
{
    lemma_wire_names();
    lemma_frame_starts_with_name(f);
    let name = f.command.spec_name();
    assert(frame_bytes(f).take(name.len() + 1int) =~= Seq::new(name.len(), |i: int| name[i] as u8).push(
        BNF_LF,
    ));
    match f.command {
        ClientCommand::Connect => {
            assert(Seq::new(name.len(), |i: int| name[i] as u8).push(BNF_LF) =~= seq![67u8, 79u8, 78u8, 78u8, 69u8, 67u8, 84u8, 10u8]);
        },
        ClientCommand::Send => {
            assert(Seq::new(name.len(), |i: int| name[i] as u8).push(BNF_LF) =~= seq![83u8, 69u8, 78u8, 68u8, 10u8]);
        },
        ClientCommand::Subscribe => {
            assert(Seq::new(name.len(), |i: int| name[i] as u8).push(BNF_LF) =~= seq![83u8, 85u8, 66u8, 83u8, 67u8, 82u8, 73u8, 66u8, 69u8, 10u8]);
        },
        ClientCommand::Unsubscribe => {
            assert(Seq::new(name.len(), |i: int| name[i] as u8).push(BNF_LF) =~= seq![85u8, 78u8, 83u8, 85u8, 66u8, 83u8, 67u8, 82u8, 73u8, 66u8, 69u8, 10u8]);
        },
        ClientCommand::Ack => {
            assert(Seq::new(name.len(), |i: int| name[i] as u8).push(BNF_LF) =~= seq![65u8, 67u8, 75u8, 10u8]);
        },
        ClientCommand::Nack => {
            assert(Seq::new(name.len(), |i: int| name[i] as u8).push(BNF_LF) =~= seq![78u8, 65u8, 67u8, 75u8, 10u8]);
        },
        ClientCommand::Begin => {
            assert(Seq::new(name.len(), |i: int| name[i] as u8).push(BNF_LF) =~= seq![66u8, 69u8, 71u8, 73u8, 78u8, 10u8]);
        },
        ClientCommand::Commit => {
            assert(Seq::new(name.len(), |i: int| name[i] as u8).push(BNF_LF) =~= seq![67u8, 79u8, 77u8, 77u8, 73u8, 84u8, 10u8]);
        },
        ClientCommand::Abort => {
            assert(Seq::new(name.len(), |i: int| name[i] as u8).push(BNF_LF) =~= seq![65u8, 66u8, 79u8, 82u8, 84u8, 10u8]);
        },
        ClientCommand::Disconnect => {
            assert(Seq::new(name.len(), |i: int| name[i] as u8).push(BNF_LF) =~= seq![68u8, 73u8, 83u8, 67u8, 79u8, 78u8, 78u8, 69u8, 67u8, 84u8, 10u8]);
        },
    }
}

} // verus!
