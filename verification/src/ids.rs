use vstd::prelude::*;

verus! {

/// Whether `c` is a lower-case hexadecimal digit.
pub open spec fn is_lower_hex(c: char) -> bool {
    ('0' <= c && c <= '9') || ('a' <= c && c <= 'f')
}

/// Whether `s` is the hyphenated lower-case text of a random (version 4) UUID: 36
/// characters, hyphens at positions 8, 13, 18 and 23, hexadecimal digits elsewhere, the
/// version digit `4` at position 14 and a variant digit `8`, `9`, `a` or `b` at 19.
pub open spec fn is_uuid_v4_text(s: Seq<char>) -> bool {
    &&& s.len() == 36
    &&& forall|i: int|
        0 <= i < 36 ==> if i == 8 || i == 13 || i == 18 || i == 23 {
            #[trigger] s[i] == '-'
        } else {
            is_lower_hex(s[i])
        }
    &&& s[14] == '4'
    &&& (s[19] == '8' || s[19] == '9' || s[19] == 'a' || s[19] == 'b')
}

/// Calls `uuid::Uuid::new_v4` and writes the result with `to_string`. The UUID is random;
/// the contract states only its form, which `uuid`'s source fixes: `new_v4` sets the
/// version and variant bits, and `Display` writes the hyphenated lower-case form.
#[verifier::external_body]
pub(crate) fn random_uuid() -> (r: String)
    ensures
        is_uuid_v4_text(r@),
{
    uuid::Uuid::new_v4().to_string()
}

} // verus!
