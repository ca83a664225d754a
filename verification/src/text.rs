//! Conversions between byte buffers and strings, against vstd's UTF-8 model.

use vstd::prelude::*;
use vstd::utf8::{decode_utf8, valid_utf8};

verus! {

/// Relies on `String::from_utf8`: it succeeds exactly on valid UTF-8 input,
/// and the characters of the resulting string are the decoding of the bytes,
/// as vstd's UTF-8 model states both.
#[verifier::external_body]
pub fn string_from_utf8(v: Vec<u8>) -> (r: Option<String>)
    ensures
        r is Some <==> vstd::utf8::valid_utf8(v@),
        r matches Some(s) ==> s@ == vstd::utf8::decode_utf8(v@),
{
    String::from_utf8(v).ok()
}

/// Copies the byte range `[a, b)` out of a slice.
pub fn bytes_range(t: &[u8], a: usize, b: usize) -> (r: Vec<u8>)
    requires
        a <= b <= t@.len(),
    ensures
        r@ == t@.subrange(a as int, b as int),
{
    let mut r: Vec<u8> = Vec::new();
    let mut j: usize = a;
    while j < b
        invariant
            a <= j <= b <= t@.len(),
            r@ == t@.subrange(a as int, j as int),
        decreases b - j,
    {
        r.push(t[j]);
        proof {
            assert(r@ =~= t@.subrange(a as int, j + 1));
        }
        j += 1;
    }
    r
}

/// The characters of the byte range `[a, b)`, where it decodes; empty
/// where it does not.
pub open spec fn range_chars(t: Seq<u8>, a: int, b: int) -> Seq<char> {
    if valid_utf8(t.subrange(a, b)) {
        decode_utf8(t.subrange(a, b))
    } else {
        Seq::<char>::empty()
    }
}

/// The byte range `[a, b)` of a slice as a string, where it decodes; the
/// empty string where it does not.
pub fn lossy_fragment(t: &[u8], a: usize, b: usize) -> (r: String)
    requires
        a <= b <= t@.len(),
    ensures
        r@ == range_chars(t@, a as int, b as int),
{
    let v: Vec<u8> = bytes_range(t, a, b);
    let ghost vb = v@;
    match string_from_utf8(v) {
        Some(s) => {
            proof {
                assert(valid_utf8(vb) && s@ == decode_utf8(vb));
            }
            s
        },
        None => String::new(),
    }
}

} // verus!
