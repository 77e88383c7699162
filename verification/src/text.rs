//! Text from bytes.

use vstd::prelude::*;
use vstd::utf8::*;

verus! {

/// `std::str::from_utf8`: the bytes as text where they are well-formed UTF-8,
/// and nothing where they are not.
#[verifier::external_body]
fn str_from_utf8(bytes: &[u8]) -> (r: Option<&str>)
    ensures
        r is Some <==> valid_utf8(bytes@),
        r is Some ==> r->0@ == decode_utf8(bytes@),
{
    match std::str::from_utf8(bytes) {
        Ok(s) => Some(s),
        Err(_) => None,
    }
}

/// The text that `bytes` encode, if they are well-formed UTF-8.
pub fn decode_text(bytes: &Vec<u8>) -> (r: Option<String>)
    ensures
        r is Some <==> valid_utf8(bytes@),
        r is Some ==> r->0@ == decode_utf8(bytes@),
{
    match str_from_utf8(bytes.as_slice()) {
        Some(s) => Some(s.to_owned()),
        None => None,
    }
}

/// One ASCII byte is well-formed UTF-8 for the character of the same number.
pub proof fn lemma_ascii_is_text(b: u8)
    requires
        b < 0x80,
    ensures
        valid_utf8(seq![b]),
        decode_utf8(seq![b]) == seq![b as char],
{
    let s = seq![b];
    assert(b & 0x80 == 0 && (b & 0x7f) as u32 == b as u32 && (b & 0x7f) < 0x80) by (bit_vector)
        requires
            b < 0x80,
    ;
    assert(is_leading_byte_width_1(s[0]));
    assert(valid_first_scalar(s));
    assert(pop_first_scalar(s) =~= Seq::<u8>::empty());
    assert(valid_utf8(pop_first_scalar(s)));
    assert(valid_utf8(s));
    assert(decode_utf8(pop_first_scalar(s)) =~= Seq::<char>::empty());
    assert(decode_utf8(s) =~= seq![b as char]);
}

/// The one-character text of an ASCII byte.
pub fn ascii_text(b: u8) -> (r: String)
    requires
        b < 0x80,
    ensures
        r@ == seq![b as char],
{
    proof {
        lemma_ascii_is_text(b);
    }
    let mut bytes: Vec<u8> = Vec::new();
    bytes.push(b);
    assert(bytes@ =~= seq![b]);
    match decode_text(&bytes) {
        Some(s) => s,
        None => String::new(),
    }
}

} // verus!
