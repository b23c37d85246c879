//! Text construction helpers used when rendering names and decoding
//! TXT payloads.

use vstd::prelude::*;

use crate::name::label_chars;

verus! {

/// Relies on `String::push`: appends the given character to the end of
/// the string.
#[verifier::external_body]
pub(crate) fn push_char(s: &mut String, c: char)
    ensures
        final(s)@ == old(s)@.push(c),
{
    s.push(c)
}

/// Relies on `String::from_utf8`: returns the decoded string exactly
/// when the bytes are valid UTF-8, and an error otherwise.
#[verifier::external_body]
pub(crate) fn string_from_utf8(bytes: Vec<u8>) -> (r: Option<String>)
    ensures
        r is Some <==> vstd::utf8::valid_utf8(bytes@),
        r is Some ==> r.unwrap()@ == vstd::utf8::decode_utf8(bytes@),
{
    match String::from_utf8(bytes) {
        Ok(s) => Some(s),
        Err(_) => None,
    }
}

/// Builds the string whose characters are the byte values of `b`.
pub(crate) fn chars_of_ascii(b: &[u8]) -> (r: String)
    ensures
        r@ == label_chars(b@),
{
    let mut text = String::new();
    let n = b.len();
    for j in 0..n
        invariant
            n == b@.len(),
            text@ == label_chars(b@.take(j as int)),
    {
        let c = b[j] as char;
        push_char(&mut text, c);
        proof {
            assert(label_chars(b@.take(j + 1)) =~= label_chars(b@.take(j as int)).push(
                b@[j as int] as char,
            ));
        }
    }
    proof {
        assert(b@.take(n as int) =~= b@);
    }
    text
}

} // verus!
