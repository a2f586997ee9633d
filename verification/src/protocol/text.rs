use vstd::prelude::*;
use vstd::utf8::*;

verus! {

/// Whether `c` has the Unicode White_Space property, which is what `char::is_whitespace`
/// and `str::trim` go by.
pub open spec fn is_white_space(c: char) -> bool {
    ||| ('\u{9}' <= c && c <= '\u{d}')
    ||| c == ' '
    ||| c == '\u{85}'
    ||| c == '\u{a0}'
    ||| c == '\u{1680}'
    ||| ('\u{2000}' <= c && c <= '\u{200a}')
    ||| c == '\u{2028}'
    ||| c == '\u{2029}'
    ||| c == '\u{202f}'
    ||| c == '\u{205f}'
    ||| c == '\u{3000}'
}

/// `s` without its leading white space.
pub open spec fn trim_start(s: Seq<char>) -> Seq<char>
    decreases s.len(),
{
    if s.len() > 0 && is_white_space(s[0]) {
        trim_start(s.drop_first())
    } else {
        s
    }
}

/// `s` without its trailing white space.
pub open spec fn trim_end(s: Seq<char>) -> Seq<char>
    decreases s.len(),
{
    if s.len() > 0 && is_white_space(s.last()) {
        trim_end(s.drop_last())
    } else {
        s
    }
}

/// `s` without leading and trailing white space.
pub open spec fn trimmed(s: Seq<char>) -> Seq<char> {
    trim_end(trim_start(s))
}

/// Text that neither starts nor ends with white space is its own trimmed form.
pub proof fn lemma_trimmed_unchanged(s: Seq<char>)
    requires
        s.len() > 0 ==> !is_white_space(s[0]) && !is_white_space(s.last()),
    ensures
        trimmed(s) == s,
{
}

/// Calls `str::trim`, which returns `s` without leading and trailing white space, white
/// space being the characters of the Unicode White_Space property. The contract states
/// exactly that, over `trimmed`.
#[verifier::external_body]
pub(crate) fn trim_text<'a>(s: &'a str) -> (r: &'a str)
    ensures
        r@ == trimmed(s@),
{
    s.trim()
}

/// Calls `String::from_utf8` on a copy of `bytes`: it succeeds exactly on valid UTF-8, and
/// then holds the characters that the bytes encode. The contract states that over vstd's
/// `valid_utf8` and `decode_utf8`.
#[verifier::external_body]
pub(crate) fn decode_text(bytes: &[u8]) -> (r: Option<String>)
    ensures
        r is Some <==> valid_utf8(bytes@),
        r matches Some(s) ==> s@ == decode_utf8(bytes@),
{
    String::from_utf8(bytes.to_vec()).ok()
}

/// Whether two strings hold the same characters; compares their UTF-8 bytes.
pub fn same_text(a: &str, b: &str) -> (r: bool)
    ensures
        r == (a@ == b@),
{
    let x = a.as_bytes();
    let y = b.as_bytes();
    proof {
        encode_utf8_decode_utf8(a@);
        encode_utf8_decode_utf8(b@);
    }
    if x.len() != y.len() {
        return false;
    }
    let mut i: usize = 0;
    while i < x.len()
        invariant
            x@ == encode_utf8(a@),
            y@ == encode_utf8(b@),
            x.len() == y.len(),
            i <= x.len(),
            forall|j: int| 0 <= j < i ==> x@[j] == y@[j],
        decreases x.len() - i,
    {
        if x[i] != y[i] {
            assert(x@[i as int] != y@[i as int]);
            return false;
        }
        i = i + 1;
    }
    assert(x@ =~= y@);
    true
}

/// Cutting valid UTF-8 around an ASCII byte leaves valid UTF-8 on both sides.
pub proof fn lemma_split_at_ascii(line: Seq<u8>, i: int)
    requires
        valid_utf8(line),
        0 <= i < line.len(),
        line[i] < 0x80,
    ensures
        valid_utf8(line.take(i)),
        valid_utf8(line.skip(i + 1)),
{
    is_char_boundary_iff_is_leading_byte(line, i);
    valid_utf8_split(line, i);
    let tail = line.subrange(i, line.len() as int);
    assert(line.take(i) =~= line.subrange(0, i));
    assert(tail[0] == line[i]);
    assert(pop_first_scalar(tail) =~= line.skip(i + 1));
}

/// Whether some character of `s` has code `code`.
pub open spec fn has_code(s: Seq<char>, code: u32) -> bool {
    exists|i: int| 0 <= i < s.len() && (#[trigger] s[i]) as u32 == code
}

/// Whether some byte of `b` is `x`.
pub open spec fn has_byte(b: Seq<u8>, x: u8) -> bool {
    exists|i: int| 0 <= i < b.len() && #[trigger] b[i] == x
}

/// The encoding of a scalar holds an ASCII byte only when the scalar is that ASCII character.
proof fn lemma_scalar_ascii_byte(c: char, x: u8)
    requires
        x < 0x80,
    ensures
        has_byte(encode_scalar(c as u32), x) <==> c as u32 == x as u32,
{
    char_is_scalar(c);
    let s = c as u32;
    let e = encode_scalar(s);
    if has_width_1_encoding(s) {
        assert((s & 0x7F) as u8 == s) by (bit_vector)
            requires
                s <= 0x7F,
        ;
        assert(e =~= seq![s as u8]);
        if s == x as u32 {
            assert(e[0] == x);
        }
    } else {
        assert(s >= 0x80);
        assert(0xC0 | ((s >> 6) & 0x1F) as u8 >= 0x80) by (bit_vector);
        assert(0xE0 | ((s >> 12) & 0x0F) as u8 >= 0x80) by (bit_vector);
        assert(0xF0 | ((s >> 18) & 0x7) as u8 >= 0x80) by (bit_vector);
        assert(0x80 | (s & 0x3F) as u8 >= 0x80) by (bit_vector);
        assert(0x80 | ((s >> 6) & 0x3F) as u8 >= 0x80) by (bit_vector);
        assert(0x80 | ((s >> 12) & 0x3F) as u8 >= 0x80) by (bit_vector);
        assert forall|i: int| 0 <= i < e.len() implies e[i] >= 0x80 by {}
    }
}

/// An ASCII byte occurs in the UTF-8 encoding of a text exactly where its character occurs
/// in the text.
pub proof fn lemma_ascii_byte_in_encoding(s: Seq<char>, x: u8)
    requires
        x < 0x80,
    ensures
        has_byte(encode_utf8(s), x) <==> has_code(s, x as u32),
    decreases s.len(),
{
    if s.len() > 0 {
        let head = encode_scalar(s[0] as u32);
        let tail = encode_utf8(s.drop_first());
        lemma_scalar_ascii_byte(s[0], x);
        lemma_ascii_byte_in_encoding(s.drop_first(), x);
        let e = encode_utf8(s);
        assert(e =~= head + tail);
        if has_byte(e, x) {
            let i = choose|i: int| 0 <= i < e.len() && #[trigger] e[i] == x;
            if i < head.len() {
                assert(head[i] == x);
                assert(s[0] as u32 == x as u32);
            } else {
                assert(tail[i - head.len()] == x);
                let j = choose|j: int|
                    0 <= j < s.drop_first().len() && (#[trigger] s.drop_first()[j]) as u32
                        == x as u32;
                assert(s[j + 1] as u32 == x as u32);
            }
        }
        if has_code(s, x as u32) {
            let j = choose|j: int| 0 <= j < s.len() && (#[trigger] s[j]) as u32 == x as u32;
            if j == 0 {
                let i = choose|i: int| 0 <= i < head.len() && #[trigger] head[i] == x;
                assert(e[i] == x);
            } else {
                assert(s.drop_first()[j - 1] as u32 == x as u32);
                let i = choose|i: int| 0 <= i < tail.len() && #[trigger] tail[i] == x;
                assert(e[i + head.len()] == x);
            }
        }
    }
}

} // verus!
