//! The forms a team's program can take on its way through the pipeline,
//! and the text conversions the editor layer uses for them.

use vstd::prelude::*;
use vstd::string::{StringExecFns, StringSliceAdditionalSpecFns};
use vstd::utf8::{decode_utf8, valid_utf8};

use crate::sanitizer::{bytes_match, match_at};
use crate::text::{bytes_range, string_from_utf8};

verus! {

/// A team's program: absent, human-submitted source, compiled module
/// bytes, an engine-serialized module, or a named pre-shipped program.
pub enum Code {
    Absent,
    Source(String),
    Wasm(Vec<u8>),
    Precompiled(Vec<u8>),
    Builtin(String),
}

/// The marker that names a builtin program in editor text: a hash, then
/// the word `builtin`, then a colon.
pub open spec fn builtin_marker() -> Seq<u8> {
    seq![0x23u8, 0x62, 0x75, 0x69, 0x6c, 0x74, 0x69, 0x6e, 0x3a]
}

/// The marker that opens an encrypted source blob.
pub open spec fn encrypted_marker() -> Seq<u8> {
    seq![0x45u8, 0x4e, 0x43, 0x52, 0x59, 0x50, 0x54, 0x45, 0x44, 0x3a]
}

/// An ASCII whitespace byte.
pub open spec fn is_space_byte(b: u8) -> bool {
    b == 0x20 || b == 0x09 || b == 0x0a || b == 0x0b || b == 0x0c || b == 0x0d
}

/// Text that holds nothing but whitespace.
pub open spec fn all_space(t: Seq<u8>) -> bool {
    forall|i: int| 0 <= i < t.len() ==> is_space_byte(#[trigger] t[i])
}

/// Where the builtin name ends: the first line break at or after `j`.
pub open spec fn line_end(t: Seq<u8>, j: int) -> int
    decreases t.len() - j,
{
    if j < 0 || j >= t.len() || t[j] == 0x0a {
        j
    } else {
        line_end(t, j + 1)
    }
}

/// The builtin name opened by a marker at `i`: the rest of that line,
/// decoded; empty where the bytes do not decode.
pub open spec fn builtin_name_at(t: Seq<u8>, i: int) -> Seq<char> {
    let lo = i + builtin_marker().len();
    let hi = line_end(t, lo);
    if valid_utf8(t.subrange(lo, hi)) {
        decode_utf8(t.subrange(lo, hi))
    } else {
        Seq::<char>::empty()
    }
}

/// A marker occurrence at `i` with none before it.
pub open spec fn first_marker(t: Seq<u8>, i: int) -> bool {
    match_at(t, i, builtin_marker()) && forall|j: int|
        0 <= j < i ==> !match_at(t, j, builtin_marker())
}

/// The editor text of a code value: empty for absent code, the source
/// itself, a stub comment for binary forms, and the marker plus name for
/// a builtin.
pub fn code_to_string(code: &Code) -> (r: String)
    ensures
        code is Absent ==> r@ == Seq::<char>::empty(),
        code matches Code::Source(s) ==> r@ == s@,
        code is Wasm ==> r@ == "// wasm"@,
        code is Precompiled ==> r@ == "// wasm"@,
        code matches Code::Builtin(name) ==> r@ == "#builtin:"@ + name@,
{
    match code {
        Code::Absent => String::new(),
        Code::Source(s) => s.clone(),
        Code::Wasm(_) => String::from_str("// wasm"),
        Code::Precompiled(_) => String::from_str("// wasm"),
        Code::Builtin(name) => String::from_str("#builtin:").concat(name.as_str()),
    }
}

fn marker_vec() -> (r: Vec<u8>)
    ensures
        r@ == builtin_marker(),
{
    let v: Vec<u8> = vec![0x23u8, 0x62, 0x75, 0x69, 0x6c, 0x74, 0x69, 0x6e, 0x3a];
    proof {
        assert(v@ =~= builtin_marker());
    }
    v
}

fn match_marker_at(t: &[u8], i: usize, w: &Vec<u8>) -> (r: bool)
    requires
        i <= t@.len(),
    ensures
        r == match_at(t@, i as int, w@),
{
    if w.len() > t.len() - i {
        return false;
    }
    let mut k: usize = 0;
    while k < w.len()
        invariant
            i + w@.len() <= t@.len(),
            t@.len() <= usize::MAX,
            k <= w@.len(),
            forall|k2: int| 0 <= k2 < k ==> t@[i + k2] == w@[k2],
        decreases w@.len() - k,
    {
        if t[i + k] != w[k] {
            return false;
        }
        k += 1;
    }
    true
}

fn line_end_x(t: &[u8], j: usize) -> (r: usize)
    requires
        j <= t@.len(),
    ensures
        r == line_end(t@, j as int),
        j <= r <= t@.len(),
{
    let mut p: usize = j;
    while p < t.len() && t[p] != 0x0a
        invariant
            j <= p <= t@.len(),
            line_end(t@, j as int) == line_end(t@, p as int),
        decreases t@.len() - p,
    {
        p += 1;
    }
    p
}

/// Parses editor text back into a code value: a builtin marker anywhere
/// makes a builtin of the rest of that line; blank text is absent code;
/// anything else is source. The name is the line's bytes as a string,
/// or empty where they do not decode.
pub fn str_to_code(s: &str) -> (r: Code)
    ensures
        (r is Builtin <==> exists|i: int| #[trigger] match_at(
            s.spec_bytes(),
            i,
            builtin_marker(),
        )),
        r matches Code::Builtin(name) ==> exists|i: int|
            #[trigger] first_marker(s.spec_bytes(), i) && name@ == builtin_name_at(
                s.spec_bytes(),
                i,
            ),
        !(exists|i: int| #[trigger] match_at(s.spec_bytes(), i, builtin_marker())) && all_space(
            s.spec_bytes(),
        ) ==> r is Absent,
        r matches Code::Source(text) ==> text@ == s@,
        r is Source <==> (!(exists|i: int| #[trigger] match_at(
            s.spec_bytes(),
            i,
            builtin_marker(),
        )) && !all_space(s.spec_bytes())),
{
    let t: &[u8] = s.as_bytes();
    let n: usize = t.len();
    let w: Vec<u8> = marker_vec();
    let mut i: usize = 0;
    while i < n
        invariant
            n == t@.len(),
            t@ == s.spec_bytes(),
            i <= n,
            w@ == builtin_marker(),
            forall|j: int| 0 <= j < i ==> !match_at(t@, j, builtin_marker()),
        decreases n - i,
    {
        if match_marker_at(t, i, &w) {
            let lo: usize = i + 9;
            let hi: usize = line_end_x(t, lo);
            let chunk: Vec<u8> = bytes_range(t, lo, hi);
            let ghost cb = chunk@;
            let name: String = match string_from_utf8(chunk) {
                Some(x) => x,
                None => String::new(),
            };
            proof {
                assert(first_marker(t@, i as int));
                assert(cb == t@.subrange(lo as int, hi as int));
                assert(name@ == builtin_name_at(t@, i as int));
            }
            return Code::Builtin(name);
        }
        i += 1;
    }
    let mut k: usize = 0;
    while k < n
        invariant
            n == t@.len(),
            t@ == s.spec_bytes(),
            k <= n,
            forall|j: int| 0 <= j < n ==> !match_at(t@, j, builtin_marker()),
            forall|j: int| 0 <= j < k ==> is_space_byte(#[trigger] t@[j]),
        decreases n - k,
    {
        let b: u8 = t[k];
        if !(b == 0x20 || b == 0x09 || b == 0x0a || b == 0x0b || b == 0x0c || b == 0x0d) {
            proof {
                assert(!all_space(t@));
            }
            return Code::Source(s.to_owned());
        }
        k += 1;
    }
    Code::Absent
}

/// The encoding of a concatenation is the concatenation of the
/// encodings.
proof fn lemma_encode_utf8_concat(a: Seq<char>, b: Seq<char>)
    ensures
        vstd::utf8::encode_utf8(a + b) == vstd::utf8::encode_utf8(a) + vstd::utf8::encode_utf8(b),
    decreases a.len(),
{
    if a.len() == 0 {
        assert(a + b =~= b);
        assert(vstd::utf8::encode_utf8(a) + vstd::utf8::encode_utf8(b) =~= vstd::utf8::encode_utf8(
            b,
        ));
    } else {
        assert((a + b)[0] == a[0]);
        assert((a + b).drop_first() =~= a.drop_first() + b);
        lemma_encode_utf8_concat(a.drop_first(), b);
        assert(vstd::utf8::encode_utf8(a + b) =~= vstd::utf8::encode_utf8(a)
            + vstd::utf8::encode_utf8(b));
    }
}

/// A character sequence without line breaks encodes to bytes without the
/// line-break byte.
proof fn lemma_no_newline_bytes(chars: Seq<char>)
    requires
        forall|i: int| 0 <= i < chars.len() ==> chars[i] != '\n',
    ensures
        forall|j: int|
            0 <= j < vstd::utf8::encode_utf8(chars).len() ==> #[trigger] vstd::utf8::encode_utf8(
                chars,
            )[j] != 0x0a,
    decreases chars.len(),
{
    if chars.len() > 0 {
        let c = chars[0] as u32;
        assert(chars[0] != '\n');
        assert(c != 0x0a) by {
            if c == 0x0a {
                vstd::utf8::char_u32_cast(chars[0], c);
                assert((0x0au32 as char) == chars[0]);
                assert(('\n' as u32) == 0x0a);
                vstd::utf8::char_u32_cast('\n', 0x0a);
                assert((0x0au32 as char) == '\n');
            }
        };
        assert(vstd::utf8::has_width_1_encoding(c) ==> vstd::utf8::leading_byte_width_1(c)
            != 0x0a) by (bit_vector)
            requires
                c != 0x0a,
        ;
        assert(vstd::utf8::leading_byte_width_2(c) != 0x0a) by (bit_vector);
        assert(vstd::utf8::leading_byte_width_3(c) != 0x0a) by (bit_vector);
        assert(vstd::utf8::leading_byte_width_4(c) != 0x0a) by (bit_vector);
        assert(vstd::utf8::last_continuation_byte(c) != 0x0a) by (bit_vector);
        assert(vstd::utf8::second_last_continuation_byte(c) != 0x0a) by (bit_vector);
        assert(vstd::utf8::third_last_continuation_byte(c) != 0x0a) by (bit_vector);
        lemma_no_newline_bytes(chars.drop_first());
        assert forall|j: int|
            0 <= j < vstd::utf8::encode_utf8(chars).len() implies #[trigger] vstd::utf8::encode_utf8(
            chars,
        )[j] != 0x0a by {
            let es = vstd::utf8::encode_scalar(c);
            let rest = vstd::utf8::encode_utf8(chars.drop_first());
            assert(vstd::utf8::encode_utf8(chars) == es + rest);
            if j >= es.len() {
                assert(vstd::utf8::encode_utf8(chars)[j] == rest[j - es.len()]);
            }
        };
    }
}

/// Scanning for a line break over bytes that hold none runs to the end.
proof fn lemma_line_end_none(t: Seq<u8>, j: int)
    requires
        0 <= j <= t.len(),
        forall|k: int| j <= k < t.len() ==> t[k] != 0x0a,
    ensures
        line_end(t, j) == t.len(),
    decreases t.len() - j,
{
    if j < t.len() {
        lemma_line_end_none(t, j + 1);
    }
}

/// The builtin round trip, at the contract level: the editor text
/// written for a builtin — the marker, then the name — parses back to
/// the same name, for any name without a line break. Together with
/// `code_to_string`'s builtin clause and `str_to_code`'s contract, the
/// text produced for a builtin parses back to the same builtin.
pub proof fn lemma_builtin_round_trip(name: Seq<char>)
    requires
        forall|i: int| 0 <= i < name.len() ==> name[i] != '\n',
    ensures
        ({
            let t = vstd::utf8::encode_utf8("#builtin:"@ + name);
            &&& first_marker(t, 0)
            &&& forall|i: int| #[trigger] first_marker(t, i) ==> i == 0
            &&& builtin_name_at(t, 0) == name
        }),
{
    reveal_strlit("#builtin:");
    let m = "#builtin:"@;
    let t = vstd::utf8::encode_utf8(m + name);
    lemma_encode_utf8_concat(m, name);
    assert(vstd::utf8::is_ascii_chars(m));
    vstd::utf8::is_ascii_chars_encode_utf8(m);
    assert(vstd::utf8::encode_utf8(m) =~= builtin_marker());
    assert(bytes_match(t, 0, builtin_marker())) by {
        assert forall|k: int| 0 <= k < 9 implies t[k] == builtin_marker()[k] by {
            assert(t[k] == vstd::utf8::encode_utf8(m)[k]);
        };
    };
    assert(match_at(t, 0, builtin_marker()));
    assert(first_marker(t, 0));
    assert forall|i: int| #[trigger] first_marker(t, i) implies i == 0 by {
        if i != 0 {
            assert(match_at(t, 0, builtin_marker()));
        }
    };
    lemma_no_newline_bytes(name);
    let en = vstd::utf8::encode_utf8(name);
    assert(t.subrange(9, t.len() as int) =~= en);
    assert forall|k: int| 9 <= k < t.len() implies t[k] != 0x0a by {
        assert(t[k] == en[k - 9]);
    };
    lemma_line_end_none(t, 9);
    vstd::utf8::encode_utf8_valid_utf8(name);
    vstd::utf8::encode_utf8_decode_utf8(name);
    assert(builtin_name_at(t, 0) == name);
}

/// Whether a code value is an encrypted source blob: source text that
/// starts with the encrypted marker.
pub fn is_encrypted(code: &Code) -> (r: bool)
    ensures
        r == (code matches Code::Source(s) && match_at(
            vstd::utf8::encode_utf8(s@),
            0,
            encrypted_marker(),
        )),
{
    match code {
        Code::Source(s) => {
            let t: &[u8] = s.as_str().as_bytes();
            let w: Vec<u8> = vec![
                0x45u8,
                0x4e,
                0x43,
                0x52,
                0x59,
                0x50,
                0x54,
                0x45,
                0x44,
                0x3a,
            ];
            proof {
                assert(w@ =~= encrypted_marker());
            }
            match_marker_at(t, 0, &w)
        },
        _ => false,
    }
}

} // verus!
