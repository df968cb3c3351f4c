//! The bytes of a text, and the text that bytes are.
use vstd::prelude::*;

use crate::outside::{narrow_text, utf8_lossy};

verus! {

/// What bytes say that are meant to be text in UTF-8.
pub fn decode(bytes: &Vec<u8>) -> (r: String)
    ensures
        r@ == narrow_text(bytes@),
{
    utf8_lossy(bytes)
}

/// The bytes of a text in UTF-8.
pub fn bytes_of(s: &str) -> (r: Vec<u8>)
    ensures
        r@ == vstd::utf8::encode_utf8(s@),
{
    let bytes = s.as_bytes();
    let mut r: Vec<u8> = Vec::new();
    let mut i: usize = 0;
    while i < bytes.len()
        invariant
            i <= bytes@.len(),
            bytes@ == vstd::utf8::encode_utf8(s@),
            r@ == bytes@.take(i as int),
        decreases bytes@.len() - i,
    {
        r.push(bytes[i]);
        i += 1;
    }
    assert(bytes@.take(i as int) =~= bytes@);
    r
}

/// How many bytes a text has in UTF-8.
pub fn byte_len(s: &str) -> (r: usize)
    ensures
        r == vstd::utf8::encode_utf8(s@).len(),
{
    s.as_bytes().len()
}

} // verus!
