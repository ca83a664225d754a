//! The source sanitizer: a textual pre-filter over submitted program text,
//! run before the text ever reaches a compiler. It rejects a fixed set of
//! dangerous keyword and macro tokens when they occur as whole words, the
//! storage-duration keyword unless written in its lifetime form, and every
//! attribute whose head token is not on a small allowlist.
//!
//! The filter works on the UTF-8 bytes of the text. A "word byte" is an
//! ASCII letter, digit or underscore; every non-ASCII byte counts as a
//! boundary. A character-level reading with Unicode word classes would
//! treat a non-ASCII letter next to a token as part of the same word and
//! accept; this byte-level reading rejects there, so it refuses at least
//! everything the character-level reading refuses. On ASCII text the two
//! agree. The token tables below are spelled as hex byte values.

use vstd::prelude::*;
use vstd::string::StringSliceAdditionalSpecFns;

use crate::text::lossy_fragment;
use crate::{Error, ErrorKind};

verus! {

/// An ASCII letter, digit or underscore.
pub open spec fn is_word_byte(b: u8) -> bool {
    (0x61 <= b && b <= 0x7a) || (0x41 <= b && b <= 0x5a) || (0x30 <= b && b <= 0x39) || b == 0x5f
}

fn word_byte(b: u8) -> (r: bool)
    ensures
        r == is_word_byte(b),
{
    (0x61 <= b && b <= 0x7a) || (0x41 <= b && b <= 0x5a) || (0x30 <= b && b <= 0x39) || b == 0x5f
}

/// The bytes of `w` occur in `t` at position `p` (no bounds demanded).
pub open spec fn bytes_match(t: Seq<u8>, p: int, w: Seq<u8>) -> bool {
    forall|k: int| 0 <= k < w.len() ==> t[p + k] == w[k]
}

/// The bytes of `w` occur in `t` at position `i`, within bounds.
pub open spec fn match_at(t: Seq<u8>, i: int, w: Seq<u8>) -> bool {
    0 <= i && i + w.len() <= t.len() && bytes_match(t, i, w)
}

/// `w` occurs at `i` as a whole word: no word byte immediately before or
/// after the occurrence.
pub open spec fn word_occurs_at(t: Seq<u8>, i: int, w: Seq<u8>) -> bool {
    &&& match_at(t, i, w)
    &&& (i == 0 || !is_word_byte(t[i - 1]))
    &&& (i + w.len() == t.len() || !is_word_byte(t[i + w.len()]))
}

// The rejected whole-word tokens. Spelled as bytes; each doc comment
// describes the token without writing it out.
/// The keyword that opens an unchecked block.
pub open spec fn tok_unsafe() -> Seq<u8> {
    seq![0x75u8, 0x6e, 0x73, 0x61, 0x66, 0x65]
}

/// The keyword that declares foreign linkage.
pub open spec fn tok_foreign() -> Seq<u8> {
    seq![0x65u8, 0x78, 0x74, 0x65, 0x72, 0x6e]
}

/// The keyword that names the crate root in paths.
pub open spec fn tok_crate() -> Seq<u8> {
    seq![0x63u8, 0x72, 0x61, 0x74, 0x65]
}

/// The macro-definition keyword.
pub open spec fn tok_macro_def() -> Seq<u8> {
    seq![0x6du8, 0x61, 0x63, 0x72, 0x6f, 0x5f, 0x72, 0x75, 0x6c, 0x65, 0x73]
}

/// The macro that splices a file in as tokens.
pub open spec fn tok_splice() -> Seq<u8> {
    seq![0x69u8, 0x6e, 0x63, 0x6c, 0x75, 0x64, 0x65]
}

/// The macro that splices a file in as a byte array.
pub open spec fn tok_splice_bytes() -> Seq<u8> {
    seq![0x69u8, 0x6e, 0x63, 0x6c, 0x75, 0x64, 0x65, 0x5f, 0x62, 0x79, 0x74, 0x65, 0x73]
}

/// The macro that splices a file in as a string.
pub open spec fn tok_splice_str() -> Seq<u8> {
    seq![0x69u8, 0x6e, 0x63, 0x6c, 0x75, 0x64, 0x65, 0x5f, 0x73, 0x74, 0x72]
}

/// The storage-duration keyword, also the name of the permitted lifetime.
pub open spec fn tok_static() -> Seq<u8> {
    seq![0x73u8, 0x74, 0x61, 0x74, 0x69, 0x63]
}

/// The whole-word tokens rejected everywhere.
pub open spec fn banned_words() -> Seq<Seq<u8>> {
    seq![
        tok_unsafe(),
        tok_foreign(),
        tok_crate(),
        tok_macro_def(),
        tok_splice(),
        tok_splice_bytes(),
        tok_splice_str(),
    ]
}

/// The storage-duration keyword occurs at `i`, ends at a word boundary, and
/// is not preceded by an apostrophe (the lifetime form is permitted).
pub open spec fn static_occurs_at(t: Seq<u8>, i: int) -> bool {
    &&& match_at(t, i, tok_static())
    &&& (i + 6 == t.len() || !is_word_byte(t[i + 6]))
    &&& (i == 0 || t[i - 1] != 0x27)
}

/// A rejected token occurrence at position `i`.
pub open spec fn banned_at(t: Seq<u8>, i: int) -> bool {
    ||| static_occurs_at(t, i)
    ||| exists|k: int|
        0 <= k < banned_words().len() && word_occurs_at(t, i, #[trigger] banned_words()[k])
}

// ---------------------------------------------------------------------
// Attributes: every `#[` or `#![` prefix opens a head token (the maximal
// following run of bytes that are not a bracket or a space), and the head
// must contain one of the allowed markers.
/// A byte that terminates an attribute head token.
pub open spec fn is_stop_byte(b: u8) -> bool {
    b == 0x5b || b == 0x5d || b == 0x20
}

fn stop_byte(b: u8) -> (r: bool)
    ensures
        r == is_stop_byte(b),
{
    b == 0x5b || b == 0x5d || b == 0x20
}

/// An attribute opener at `i`: a hash, an optional bang, then a bracket.
pub open spec fn attr_start(t: Seq<u8>, i: int) -> bool {
    &&& 0 <= i < t.len()
    &&& t[i] == 0x23
    &&& i + 1 < t.len()
    &&& (t[i + 1] == 0x5b || (t[i + 1] == 0x21 && i + 2 < t.len() && t[i + 2] == 0x5b))
}

/// Where the head token begins, given an opener at `i`.
pub open spec fn head_start(t: Seq<u8>, i: int) -> int {
    if t[i + 1] == 0x5b {
        i + 2
    } else {
        i + 3
    }
}

/// Where the head token ends: the first stop byte at or after `j`.
pub open spec fn head_end(t: Seq<u8>, j: int) -> int
    decreases t.len() - j,
{
    if j < 0 || j >= t.len() || is_stop_byte(t[j]) {
        j
    } else {
        head_end(t, j + 1)
    }
}

/// `w` occurs at `p` wholly before `hi`.
pub open spec fn tok_in_range(t: Seq<u8>, p: int, hi: int, w: Seq<u8>) -> bool {
    p + w.len() <= hi && bytes_match(t, p, w)
}

/// `w` occurs somewhere in `[lo, hi)`.
pub open spec fn contains_tok(t: Seq<u8>, lo: int, hi: int, w: Seq<u8>) -> bool {
    exists|p: int| lo <= p && #[trigger] tok_in_range(t, p, hi, w)
}

// The allowed attribute-head markers.
/// The derive marker.
pub open spec fn tok_derive() -> Seq<u8> {
    seq![0x64u8, 0x65, 0x72, 0x69, 0x76, 0x65]
}

/// The representation marker.
pub open spec fn tok_repr() -> Seq<u8> {
    seq![0x72u8, 0x65, 0x70, 0x72]
}

/// The inlining marker.
pub open spec fn tok_inline() -> Seq<u8> {
    seq![0x69u8, 0x6e, 0x6c, 0x69, 0x6e, 0x65]
}

/// The test-only conditional marker, parentheses and all.
pub open spec fn tok_cfg_test() -> Seq<u8> {
    seq![0x63u8, 0x66, 0x67, 0x28, 0x74, 0x65, 0x73, 0x74, 0x29]
}

/// The test marker.
pub open spec fn tok_test() -> Seq<u8> {
    seq![0x74u8, 0x65, 0x73, 0x74]
}

/// The must-use marker.
pub open spec fn tok_must_use() -> Seq<u8> {
    seq![0x6du8, 0x75, 0x73, 0x74, 0x5f, 0x75, 0x73, 0x65]
}

/// The default marker; this one must end at a word boundary.
pub open spec fn tok_default() -> Seq<u8> {
    seq![0x64u8, 0x65, 0x66, 0x61, 0x75, 0x6c, 0x74]
}

/// The default marker occurs at `p` before `hi` and ends at a word
/// boundary (relative to the head range).
pub open spec fn default_in_range(t: Seq<u8>, p: int, hi: int) -> bool {
    tok_in_range(t, p, hi, tok_default()) && (p + 7 == hi || !is_word_byte(t[p + 7]))
}

/// The head range `[lo, hi)` carries one of the allowed markers.
pub open spec fn allowed_head(t: Seq<u8>, lo: int, hi: int) -> bool {
    ||| contains_tok(t, lo, hi, tok_derive())
    ||| contains_tok(t, lo, hi, tok_repr())
    ||| contains_tok(t, lo, hi, tok_inline())
    ||| contains_tok(t, lo, hi, tok_cfg_test())
    ||| contains_tok(t, lo, hi, tok_test())
    ||| contains_tok(t, lo, hi, tok_must_use())
    ||| exists|p: int| lo <= p && #[trigger] default_in_range(t, p, hi)
}

/// The attribute opened at `i`, if any, has an allowed head.
pub open spec fn attr_ok_at(t: Seq<u8>, i: int) -> bool {
    attr_start(t, i) ==> allowed_head(
        t,
        head_start(t, i),
        head_end(t, head_start(t, i)),
    )
}

/// The byte range `[a, b)` is a fragment the filter reports: a rejected
/// whole-word token, the storage-duration keyword (with the preceding
/// byte where there is one, as the filter matched it), or an attribute
/// opener together with its disallowed head.
pub open spec fn fragment_names_match(t: Seq<u8>, a: int, b: int) -> bool {
    ||| exists|k: int|
        0 <= k < banned_words().len() && word_occurs_at(t, a, #[trigger] banned_words()[k]) && b
            == a + banned_words()[k].len()
    ||| (a == 0 && static_occurs_at(t, 0) && b == 6)
    ||| (0 <= a && static_occurs_at(t, a + 1) && b == a + 7)
    ||| (attr_start(t, a) && b == head_end(t, head_start(t, a)) && !allowed_head(
        t,
        head_start(t, a),
        b,
    ))
}

/// The acceptance predicate of the sanitizer: no rejected token occurrence,
/// and every attribute head is allowed.
pub open spec fn sanitizer_ok(t: Seq<u8>) -> bool {
    &&& forall|i: int| 0 <= i < t.len() ==> !#[trigger] banned_at(t, i)
    &&& forall|i: int| 0 <= i < t.len() ==> #[trigger] attr_ok_at(t, i)
}

// ---------------------------------------------------------------------
// Executable scanning.
fn match_at_x(t: &[u8], i: usize, w: &Vec<u8>) -> (r: bool)
    requires
        i <= t@.len(),
    ensures
        r == match_at(t@, i as int, w@),
{
    if w.len() > t.len() - i {
        return false;
    }
    let mut k: usize = 0;
    while k < w.len()
        invariant
            i + w@.len() <= t@.len(),
            t@.len() <= usize::MAX,
            k <= w@.len(),
            forall|k2: int| 0 <= k2 < k ==> t@[i + k2] == w@[k2],
        decreases w@.len() - k,
    {
        if t[i + k] != w[k] {
            return false;
        }
        k += 1;
    }
    true
}

fn word_occ_x(t: &[u8], i: usize, w: &Vec<u8>) -> (r: bool)
    requires
        i < t@.len(),
    ensures
        r == word_occurs_at(t@, i as int, w@),
{
    let n: usize = t.len();
    if i > 0 && word_byte(t[i - 1]) {
        return false;
    }
    if !match_at_x(t, i, w) {
        return false;
    }
    let j: usize = i + w.len();
    if j < n && word_byte(t[j]) {
        return false;
    }
    true
}

fn tok_static_x() -> (r: Vec<u8>)
    ensures
        r@ == tok_static(),
{
    let v: Vec<u8> = vec![0x73u8, 0x74, 0x61, 0x74, 0x69, 0x63];
    proof {
        assert(v@ =~= tok_static());
    }
    v
}

fn static_occ_x(t: &[u8], i: usize) -> (r: bool)
    requires
        i < t@.len(),
    ensures
        r == static_occurs_at(t@, i as int),
{
    let n: usize = t.len();
    let w: Vec<u8> = tok_static_x();
    if !match_at_x(t, i, &w) {
        return false;
    }
    let j: usize = i + 6;
    if j < n && word_byte(t[j]) {
        return false;
    }
    if i > 0 && t[i - 1] == 0x27 {
        return false;
    }
    true
}

/// The rejected-token table, in the order of `banned_words`.
fn banned_words_x() -> (r: Vec<Vec<u8>>)
    ensures
        r@.len() == banned_words().len(),
        forall|k: int| 0 <= k < r@.len() ==> #[trigger] r@[k]@ == banned_words()[k],
{
    let mut r: Vec<Vec<u8>> = Vec::new();
    let w0: Vec<u8> = vec![0x75u8, 0x6e, 0x73, 0x61, 0x66, 0x65];
    let w1: Vec<u8> = vec![0x65u8, 0x78, 0x74, 0x65, 0x72, 0x6e];
    let w2: Vec<u8> = vec![0x63u8, 0x72, 0x61, 0x74, 0x65];
    let w3: Vec<u8> = vec![0x6du8, 0x61, 0x63, 0x72, 0x6f, 0x5f, 0x72, 0x75, 0x6c, 0x65, 0x73];
    let w4: Vec<u8> = vec![0x69u8, 0x6e, 0x63, 0x6c, 0x75, 0x64, 0x65];
    let w5: Vec<u8> = vec![
        0x69u8,
        0x6e,
        0x63,
        0x6c,
        0x75,
        0x64,
        0x65,
        0x5f,
        0x62,
        0x79,
        0x74,
        0x65,
        0x73,
    ];
    let w6: Vec<u8> = vec![0x69u8, 0x6e, 0x63, 0x6c, 0x75, 0x64, 0x65, 0x5f, 0x73, 0x74, 0x72];
    proof {
        assert(w0@ =~= tok_unsafe());
        assert(w1@ =~= tok_foreign());
        assert(w2@ =~= tok_crate());
        assert(w3@ =~= tok_macro_def());
        assert(w4@ =~= tok_splice());
        assert(w5@ =~= tok_splice_bytes());
        assert(w6@ =~= tok_splice_str());
    }
    r.push(w0);
    r.push(w1);
    r.push(w2);
    r.push(w3);
    r.push(w4);
    r.push(w5);
    r.push(w6);
    proof {
        assert forall|k: int| 0 <= k < r@.len() implies #[trigger] r@[k]@ == banned_words()[k] by {
            if k == 0 {
                assert(banned_words()[0] == tok_unsafe());
            } else if k == 1 {
                assert(banned_words()[1] == tok_foreign());
            } else if k == 2 {
                assert(banned_words()[2] == tok_crate());
            } else if k == 3 {
                assert(banned_words()[3] == tok_macro_def());
            } else if k == 4 {
                assert(banned_words()[4] == tok_splice());
            } else if k == 5 {
                assert(banned_words()[5] == tok_splice_bytes());
            } else {
                assert(banned_words()[6] == tok_splice_str());
            }
        }
    }
    r
}

/// Finds a rejected token occurrence at `i`: the fragment to report, as its
/// byte range in `t`.
fn banned_at_x(t: &[u8], i: usize, words: &Vec<Vec<u8>>) -> (r: Option<(usize, usize)>)
    requires
        i < t@.len(),
        words@.len() == banned_words().len(),
        forall|k: int| 0 <= k < words@.len() ==> #[trigger] words@[k]@ == banned_words()[k],
    ensures
        r.is_some() == banned_at(t@, i as int),
        r matches Some((a, b)) ==> a <= b <= t@.len() && fragment_names_match(
            t@,
            a as int,
            b as int,
        ),
{
    let n: usize = t.len();
    if static_occ_x(t, i) {
        let a: usize = if i > 0 {
            i - 1
        } else {
            0
        };
        proof {
            if i > 0 {
                assert(static_occurs_at(t@, a + 1));
            } else {
                assert(a == 0 && static_occurs_at(t@, 0));
            }
        }
        return Some((a, i + 6));
    }
    let mut k: usize = 0;
    while k < words.len()
        invariant
            i < t@.len(),
            t@.len() <= usize::MAX,
            k <= words@.len(),
            words@.len() == banned_words().len(),
            forall|k2: int|
                0 <= k2 < words@.len() ==> #[trigger] words@[k2]@ == banned_words()[k2],
            forall|k2: int|
                0 <= k2 < k ==> !word_occurs_at(t@, i as int, #[trigger] banned_words()[k2]),
        decreases words@.len() - k,
    {
        if word_occ_x(t, i, &words[k]) {
            let wl: usize = words[k].len();
            proof {
                assert(i + wl <= t@.len());
                assert(word_occurs_at(t@, i as int, banned_words()[k as int]));
                assert(fragment_names_match(t@, i as int, i + wl));
            }
            return Some((i, i + wl));
        }
        k += 1;
    }
    None
}

fn head_end_x(t: &[u8], hs: usize) -> (r: usize)
    requires
        hs <= t@.len(),
    ensures
        r == head_end(t@, hs as int),
        hs <= r <= t@.len(),
    decreases t@.len() - hs,
{
    let mut j: usize = hs;
    while j < t.len() && !stop_byte(t[j])
        invariant
            hs <= j <= t@.len(),
            head_end(t@, hs as int) == head_end(t@, j as int),
        decreases t@.len() - j,
    {
        j += 1;
    }
    j
}

fn contains_tok_x(t: &[u8], lo: usize, hi: usize, w: &Vec<u8>) -> (r: bool)
    requires
        lo <= hi <= t@.len(),
        w@.len() >= 1,
    ensures
        r == contains_tok(t@, lo as int, hi as int, w@),
{
    let mut p: usize = lo;
    while p < hi
        invariant
            lo <= p <= hi <= t@.len(),
            w@.len() >= 1,
            forall|p2: int| lo <= p2 < p ==> !#[trigger] tok_in_range(t@, p2, hi as int, w@),
        decreases hi - p,
    {
        if hi - p >= w.len() && match_at_x(t, p, w) {
            proof {
                assert(tok_in_range(t@, p as int, hi as int, w@));
            }
            return true;
        }
        proof {
            if tok_in_range(t@, p as int, hi as int, w@) {
                assert(match_at(t@, p as int, w@));
            }
        }
        p += 1;
    }
    false
}

fn default_ok_x(t: &[u8], lo: usize, hi: usize, w: &Vec<u8>) -> (r: bool)
    requires
        lo <= hi <= t@.len(),
        w@ == tok_default(),
    ensures
        r == exists|p: int| lo <= p && #[trigger] default_in_range(t@, p, hi as int),
{
    let mut p: usize = lo;
    while p < hi
        invariant
            lo <= p <= hi <= t@.len(),
            w@ == tok_default(),
            forall|p2: int| lo <= p2 < p ==> !#[trigger] default_in_range(t@, p2, hi as int),
        decreases hi - p,
    {
        if hi - p >= w.len() && match_at_x(t, p, w) {
            let j: usize = p + 7;
            if j == hi || !word_byte(t[j]) {
                proof {
                    assert(default_in_range(t@, p as int, hi as int));
                }
                return true;
            }
        }
        proof {
            if default_in_range(t@, p as int, hi as int) {
                assert(match_at(t@, p as int, tok_default()));
            }
        }
        p += 1;
    }
    false
}

fn allowed_head_x(t: &[u8], lo: usize, hi: usize) -> (r: bool)
    requires
        lo <= hi <= t@.len(),
    ensures
        r == allowed_head(t@, lo as int, hi as int),
{
    let derive_w: Vec<u8> = vec![0x64u8, 0x65, 0x72, 0x69, 0x76, 0x65];
    let repr_w: Vec<u8> = vec![0x72u8, 0x65, 0x70, 0x72];
    let inline_w: Vec<u8> = vec![0x69u8, 0x6e, 0x6c, 0x69, 0x6e, 0x65];
    let cfg_test_w: Vec<u8> = vec![0x63u8, 0x66, 0x67, 0x28, 0x74, 0x65, 0x73, 0x74, 0x29];
    let test_w: Vec<u8> = vec![0x74u8, 0x65, 0x73, 0x74];
    let must_use_w: Vec<u8> = vec![0x6du8, 0x75, 0x73, 0x74, 0x5f, 0x75, 0x73, 0x65];
    let default_w: Vec<u8> = vec![0x64u8, 0x65, 0x66, 0x61, 0x75, 0x6c, 0x74];
    proof {
        assert(derive_w@ =~= tok_derive());
        assert(repr_w@ =~= tok_repr());
        assert(inline_w@ =~= tok_inline());
        assert(cfg_test_w@ =~= tok_cfg_test());
        assert(test_w@ =~= tok_test());
        assert(must_use_w@ =~= tok_must_use());
        assert(default_w@ =~= tok_default());
    }
    if contains_tok_x(t, lo, hi, &derive_w) {
        return true;
    }
    if contains_tok_x(t, lo, hi, &repr_w) {
        return true;
    }
    if contains_tok_x(t, lo, hi, &inline_w) {
        return true;
    }
    if contains_tok_x(t, lo, hi, &cfg_test_w) {
        return true;
    }
    if contains_tok_x(t, lo, hi, &test_w) {
        return true;
    }
    if contains_tok_x(t, lo, hi, &must_use_w) {
        return true;
    }
    if default_ok_x(t, lo, hi, &default_w) {
        return true;
    }
    false
}

/// Screens submitted source text. Accepts exactly the texts whose UTF-8
/// bytes hold no rejected token occurrence and only allowed attribute
/// heads; any rejection is a `SanitizerRejection` whose message shows the
/// offending fragment.
pub fn check(text: &str) -> (r: Result<(), Error>)
    ensures
        r.is_ok() <==> sanitizer_ok(text.spec_bytes()),
        r matches Err(e) ==> e.kind == ErrorKind::SanitizerRejection,
        r matches Err(e) ==> exists|a: int, b: int|
            0 <= a <= b <= text.spec_bytes().len() && #[trigger] fragment_names_match(
                text.spec_bytes(),
                a,
                b,
            ) && e.msg@ == crate::text::range_chars(text.spec_bytes(), a, b),
{
    let t: &[u8] = text.as_bytes();
    let n: usize = t.len();
    let words: Vec<Vec<u8>> = banned_words_x();
    let mut i: usize = 0;
    while i < n
        invariant
            n == t@.len(),
            t@ == text.spec_bytes(),
            i <= n,
            words@.len() == banned_words().len(),
            forall|k: int| 0 <= k < words@.len() ==> #[trigger] words@[k]@ == banned_words()[k],
            forall|j: int| 0 <= j < i ==> !#[trigger] banned_at(t@, j),
        decreases n - i,
    {
        match banned_at_x(t, i, &words) {
            Some((a, b)) => {
                proof {
                    assert(banned_at(text.spec_bytes(), i as int));
                    assert(!sanitizer_ok(text.spec_bytes()));
                    assert(fragment_names_match(text.spec_bytes(), a as int, b as int));
                }
                return Err(
                    Error {
                        kind: ErrorKind::SanitizerRejection,
                        msg: lossy_fragment(t, a, b),
                    },
                );
            },
            None => {},
        }
        i += 1;
    }
    let mut i2: usize = 0;
    while i2 < n
        invariant
            n == t@.len(),
            t@ == text.spec_bytes(),
            i2 <= n,
            forall|j: int| 0 <= j < n ==> !#[trigger] banned_at(t@, j),
            forall|j: int| 0 <= j < i2 ==> #[trigger] attr_ok_at(t@, j),
        decreases n - i2,
    {
        if t[i2] == 0x23 && i2 + 1 < n {
            let hs_opt: Option<usize> = if t[i2 + 1] == 0x5b {
                Some(i2 + 2)
            } else if t[i2 + 1] == 0x21 && i2 + 2 < n && t[i2 + 2] == 0x5b {
                Some(i2 + 3)
            } else {
                None
            };
            match hs_opt {
                Some(hs) => {
                    let he: usize = head_end_x(t, hs);
                    if !allowed_head_x(t, hs, he) {
                        proof {
                            assert(attr_start(t@, i2 as int));
                            assert(head_start(t@, i2 as int) == hs as int);
                            assert(!attr_ok_at(t@, i2 as int));
                            assert(!sanitizer_ok(text.spec_bytes()));
                            assert(fragment_names_match(text.spec_bytes(), i2 as int, he as int));
                        }
                        return Err(
                            Error {
                                kind: ErrorKind::SanitizerRejection,
                                msg: lossy_fragment(t, i2, he),
                            },
                        );
                    }
                    proof {
                        assert(attr_ok_at(t@, i2 as int));
                    }
                },
                None => {
                    proof {
                        assert(!attr_start(t@, i2 as int));
                    }
                },
            }
        } else {
            proof {
                assert(!attr_start(t@, i2 as int));
            }
        }
        i2 += 1;
    }
    Ok(())
}

} // verus!
