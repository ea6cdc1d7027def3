//! Store identifiers: twelve bytes, written as twenty-four hexadecimal digits.
use vstd::prelude::*;

verus! {

/// A character that the store's identifier text may hold, in either case.
pub open spec fn is_hex_char(c: char) -> bool {
    ('0' <= c && c <= '9') || ('a' <= c && c <= 'f') || ('A' <= c && c <= 'F')
}

/// A character of the canonical (lower-case) identifier text.
pub open spec fn is_lower_hex_char(c: char) -> bool {
    ('0' <= c && c <= '9') || ('a' <= c && c <= 'f')
}

/// The value of one hexadecimal digit.
pub open spec fn hex_value(c: char) -> int {
    if '0' <= c && c <= '9' {
        c as int - '0' as int
    } else if 'a' <= c && c <= 'f' {
        c as int - 'a' as int + 10
    } else {
        c as int - 'A' as int + 10
    }
}

/// The lower-case digit for a value below sixteen.
pub open spec fn hex_digit(n: int) -> char {
    seq!['0', '1', '2', '3', '4', '5', '6', '7', '8', '9', 'a', 'b', 'c', 'd', 'e', 'f'][n]
}

/// Text that names a store identifier: exactly twenty-four hexadecimal digits.
pub open spec fn is_object_id_text(s: Seq<char>) -> bool {
    s.len() == 24 && forall|i: int| 0 <= i < s.len() ==> is_hex_char(#[trigger] s[i])
}

/// Identifier text in its canonical form: twenty-four lower-case digits.
pub open spec fn is_canonical_id_text(s: Seq<char>) -> bool {
    s.len() == 24 && forall|i: int| 0 <= i < s.len() ==> is_lower_hex_char(#[trigger] s[i])
}

/// The twelve bytes that identifier text stands for, two digits per byte.
pub open spec fn decode_object_id(s: Seq<char>) -> Seq<u8> {
    Seq::new(12, |k: int| (hex_value(s[2 * k]) * 16 + hex_value(s[2 * k + 1])) as u8)
}

/// The canonical text of an identifier's bytes, high digit first.
pub open spec fn object_id_text(b: Seq<u8>) -> Seq<char> {
    Seq::new(
        2 * b.len(),
        |i: int|
            if i % 2 == 0 {
                hex_digit(b[i / 2] as int / 16)
            } else {
                hex_digit(b[i / 2] as int % 16)
            },
    )
}

/// The error that bson reports for identifier text it cannot read.
#[verifier::external_type_specification]
#[verifier::external_body]
pub struct ExObjectIdError(bson::oid::Error);

/// Relies on bson's `ObjectId::with_string`, which hex-decodes the text's bytes
/// and accepts them only where they are exactly twelve bytes.
#[verifier::external_body]
fn object_id_with_string(s: &str) -> (r: Result<[u8; 12], bson::oid::Error>)
    ensures
        r is Ok <==> is_object_id_text(s@),
        r is Ok ==> r->Ok_0@ == decode_object_id(s@),
{
    bson::oid::ObjectId::with_string(s).map(|o| o.bytes())
}

/// Reads identifier text into the identifier's twelve bytes; `None` where the
/// text is not twenty-four hexadecimal digits.
pub fn parse_object_id(s: &str) -> (r: Option<[u8; 12]>)
    ensures
        r is Some <==> is_object_id_text(s@),
        r is Some ==> r->Some_0@ == decode_object_id(s@),
{
    match object_id_with_string(s) {
        Ok(b) => Some(b),
        Err(_) => None,
    }
}

/// Relies on `String::push`: the character is appended at the end.
#[verifier::external_body]
pub(crate) fn push_char(s: &mut String, c: char)
    ensures
        final(s)@ == old(s)@.push(c),
{
    s.push(c)
}

fn digit_char(n: u8) -> (c: char)
    requires
        n < 16,
    ensures
        c == hex_digit(n as int),
{
    match n {
        0 => '0',
        1 => '1',
        2 => '2',
        3 => '3',
        4 => '4',
        5 => '5',
        6 => '6',
        7 => '7',
        8 => '8',
        9 => '9',
        10 => 'a',
        11 => 'b',
        12 => 'c',
        13 => 'd',
        14 => 'e',
        _ => 'f',
    }
}

/// Writes an identifier's bytes as canonical text.
pub fn render_object_id(b: &[u8; 12]) -> (r: String)
    ensures
        r@ == object_id_text(b@),
{
    let mut out = String::new();
    let mut i: usize = 0;
    while i < 12
        invariant
            i <= 12,
            b@.len() == 12,
            out@ =~= object_id_text(b@.subrange(0, i as int)),
        decreases 12 - i,
    {
        let byte = b[i];
        push_char(&mut out, digit_char(byte / 16));
        push_char(&mut out, digit_char(byte % 16));
        assert(object_id_text(b@.subrange(0, i + 1)) =~= object_id_text(b@.subrange(0, i as int))
            + seq![hex_digit(byte as int / 16), hex_digit(byte as int % 16)]);
        i = i + 1;
    }
    assert(b@.subrange(0, 12) =~= b@);
    out
}

} // verus!
