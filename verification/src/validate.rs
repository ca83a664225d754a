//! Screening of guest-supplied debug data. The guest leaves arrays of
//! plain structs in its linear memory; the host copies the raw bytes out
//! and decodes them field by field against a fixed little-endian layout,
//! then validates them before anything reaches the simulation: a batch
//! with any non-finite coordinate is rejected whole.

use vstd::prelude::*;
use vstd::bytes::{
    spec_u32_from_le_bytes, spec_u64_from_le_bytes, u32_from_le_bytes, u64_from_le_bytes,
};

use crate::ieee::f64_is_finite;
use crate::text::bytes_range;

verus! {

/// Bytes of one line struct: four doubles, a color, four bytes padding.
pub const LINE_BYTES: usize = 40;

/// Bytes of one text struct: two doubles, color, length, a fixed buffer.
pub const TEXT_BYTES: usize = 56;

/// The fixed byte-buffer capacity of a text struct.
pub const TEXT_CAP: usize = 32;

/// The largest debug batch a guest may emit per tick.
pub const MAX_DEBUG_BATCH: usize = 128;

/// A debug line: two endpoints (doubles as bit patterns) and a color.
#[derive(Clone, Copy, Debug, PartialEq, Eq, Structural)]
pub struct Line {
    pub x0: u64,
    pub y0: u64,
    pub x1: u64,
    pub y1: u64,
    pub color: u32,
}

/// A drawn text: a position, a color, and `length` bytes of the fixed
/// buffer.
#[derive(Clone, Debug)]
pub struct Text {
    pub x: u64,
    pub y: u64,
    pub color: u32,
    pub length: u32,
    pub text: Vec<u8>,
}

/// The line decoded from the bytes at `off`: doubles and the color are
/// little-endian; the last four bytes are padding.
pub open spec fn spec_line_at(b: Seq<u8>, off: int) -> Line {
    Line {
        x0: spec_u64_from_le_bytes(b.subrange(off, off + 8)),
        y0: spec_u64_from_le_bytes(b.subrange(off + 8, off + 16)),
        x1: spec_u64_from_le_bytes(b.subrange(off + 16, off + 24)),
        y1: spec_u64_from_le_bytes(b.subrange(off + 24, off + 32)),
        color: spec_u32_from_le_bytes(b.subrange(off + 32, off + 36)),
    }
}

/// A decoded text matches the bytes at `off`.
pub open spec fn text_matches_at(t: Text, b: Seq<u8>, off: int) -> bool {
    &&& t.x == spec_u64_from_le_bytes(b.subrange(off, off + 8))
    &&& t.y == spec_u64_from_le_bytes(b.subrange(off + 8, off + 16))
    &&& t.color == spec_u32_from_le_bytes(b.subrange(off + 16, off + 20))
    &&& t.length == spec_u32_from_le_bytes(b.subrange(off + 20, off + 24))
    &&& t.text@ == b.subrange(off + 24, off + 56)
}

/// Every coordinate of every line is finite.
pub open spec fn lines_finite(lines: Seq<Line>) -> bool {
    forall|i: int|
        0 <= i < lines.len() ==> {
            &&& f64_is_finite(#[trigger] lines[i].x0)
            &&& f64_is_finite(lines[i].y0)
            &&& f64_is_finite(lines[i].x1)
            &&& f64_is_finite(lines[i].y1)
        }
}

/// Every text has finite coordinates and a length within its buffer.
pub open spec fn texts_valid(texts: Seq<Text>) -> bool {
    forall|i: int|
        0 <= i < texts.len() ==> {
            &&& f64_is_finite(#[trigger] texts[i].x)
            &&& f64_is_finite(texts[i].y)
            &&& texts[i].length <= texts[i].text@.len()
        }
}

/// Reads one little-endian double pattern out of a byte slice.
fn read_u64_at(b: &[u8], off: usize) -> (r: u64)
    requires
        off + 8 <= b@.len(),
    ensures
        r == spec_u64_from_le_bytes(b@.subrange(off as int, off + 8)),
{
    let total: usize = b.len();
    proof {
        assert(off + 8 <= total);
    }
    let chunk: Vec<u8> = bytes_range(b, off, off + 8);
    u64_from_le_bytes(chunk.as_slice())
}

/// Reads one little-endian `u32` out of a byte slice.
fn read_u32_at(b: &[u8], off: usize) -> (r: u32)
    requires
        off + 4 <= b@.len(),
    ensures
        r == spec_u32_from_le_bytes(b@.subrange(off as int, off + 4)),
{
    let total: usize = b.len();
    proof {
        assert(off + 4 <= total);
    }
    let chunk: Vec<u8> = bytes_range(b, off, off + 4);
    u32_from_le_bytes(chunk.as_slice())
}

/// Decodes `n` line structs from their raw bytes.
pub fn decode_lines(bytes: &Vec<u8>, n: usize) -> (r: Vec<Line>)
    requires
        n <= MAX_DEBUG_BATCH,
        bytes@.len() == n * LINE_BYTES,
    ensures
        r@.len() == n,
        forall|i: int| 0 <= i < n ==> #[trigger] r@[i] == spec_line_at(bytes@, i * LINE_BYTES),
{
    let mut r: Vec<Line> = Vec::new();
    let mut i: usize = 0;
    while i < n
        invariant
            i <= n,
            n <= MAX_DEBUG_BATCH,
            bytes@.len() == n * LINE_BYTES,
            r@.len() == i,
            forall|j: int| 0 <= j < i ==> #[trigger] r@[j] == spec_line_at(bytes@, j * LINE_BYTES),
        decreases n - i,
    {
        let off: usize = i * LINE_BYTES;
        proof {
            assert(off + LINE_BYTES <= n * LINE_BYTES) by (nonlinear_arith)
                requires
                    off == i * LINE_BYTES,
                    i < n,
            ;
        }
        let x0: u64 = read_u64_at(bytes.as_slice(), off);
        let y0: u64 = read_u64_at(bytes.as_slice(), off + 8);
        let x1: u64 = read_u64_at(bytes.as_slice(), off + 16);
        let y1: u64 = read_u64_at(bytes.as_slice(), off + 24);
        let color: u32 = read_u32_at(bytes.as_slice(), off + 32);
        r.push(Line { x0, y0, x1, y1, color });
        i += 1;
    }
    r
}

/// Decodes `n` text structs from their raw bytes.
pub fn decode_texts(bytes: &Vec<u8>, n: usize) -> (r: Vec<Text>)
    requires
        n <= MAX_DEBUG_BATCH,
        bytes@.len() == n * TEXT_BYTES,
    ensures
        r@.len() == n,
        forall|i: int|
            0 <= i < n ==> text_matches_at(#[trigger] r@[i], bytes@, i * TEXT_BYTES),
{
    let mut r: Vec<Text> = Vec::new();
    let mut i: usize = 0;
    while i < n
        invariant
            i <= n,
            n <= MAX_DEBUG_BATCH,
            bytes@.len() == n * TEXT_BYTES,
            r@.len() == i,
            forall|j: int|
                0 <= j < i ==> text_matches_at(#[trigger] r@[j], bytes@, j * TEXT_BYTES),
        decreases n - i,
    {
        let off: usize = i * TEXT_BYTES;
        proof {
            assert(off + TEXT_BYTES <= n * TEXT_BYTES) by (nonlinear_arith)
                requires
                    off == i * TEXT_BYTES,
                    i < n,
            ;
        }
        let x: u64 = read_u64_at(bytes.as_slice(), off);
        let y: u64 = read_u64_at(bytes.as_slice(), off + 8);
        let color: u32 = read_u32_at(bytes.as_slice(), off + 16);
        let length: u32 = read_u32_at(bytes.as_slice(), off + 20);
        let text: Vec<u8> = bytes_range(bytes.as_slice(), off + 24, off + 24 + TEXT_CAP);
        r.push(Text { x, y, color, length, text });
        i += 1;
    }
    r
}

/// Checks that every pattern in the batch is finite.
pub fn validate_floats(vs: &Vec<u64>) -> (r: bool)
    ensures
        r == forall|i: int| 0 <= i < vs@.len() ==> f64_is_finite(#[trigger] vs@[i]),
{
    let mut i: usize = 0;
    while i < vs.len()
        invariant
            i <= vs@.len(),
            forall|j: int| 0 <= j < i ==> f64_is_finite(#[trigger] vs@[j]),
        decreases vs@.len() - i,
    {
        if !crate::ieee::bits_finite(vs[i]) {
            return false;
        }
        i += 1;
    }
    true
}

/// Accepts a line batch only if every coordinate is finite.
pub fn validate_lines(lines: &Vec<Line>) -> (r: bool)
    ensures
        r == lines_finite(lines@),
{
    let mut i: usize = 0;
    while i < lines.len()
        invariant
            i <= lines@.len(),
            forall|j: int|
                0 <= j < i ==> {
                    &&& f64_is_finite(#[trigger] lines@[j].x0)
                    &&& f64_is_finite(lines@[j].y0)
                    &&& f64_is_finite(lines@[j].x1)
                    &&& f64_is_finite(lines@[j].y1)
                },
        decreases lines@.len() - i,
    {
        let l: Line = lines[i];
        if !crate::ieee::bits_finite(l.x0) || !crate::ieee::bits_finite(l.y0)
            || !crate::ieee::bits_finite(l.x1) || !crate::ieee::bits_finite(l.y1) {
            return false;
        }
        proof {
            assert forall|j: int|
                0 <= j < i + 1 implies {
                    &&& f64_is_finite(#[trigger] lines@[j].x0)
                    &&& f64_is_finite(lines@[j].y0)
                    &&& f64_is_finite(lines@[j].x1)
                    &&& f64_is_finite(lines@[j].y1)
                } by {
                if j == i {
                    assert(lines@[j] == l);
                }
            };
        }
        i += 1;
    }
    true
}

/// Accepts a text batch only if every text has finite coordinates and a
/// length within its buffer.
pub fn validate_texts(texts: &Vec<Text>) -> (r: bool)
    ensures
        r == texts_valid(texts@),
{
    let mut i: usize = 0;
    while i < texts.len()
        invariant
            i <= texts@.len(),
            forall|j: int|
                0 <= j < i ==> {
                    &&& f64_is_finite(#[trigger] texts@[j].x)
                    &&& f64_is_finite(texts@[j].y)
                    &&& texts@[j].length <= texts@[j].text@.len()
                },
        decreases texts@.len() - i,
    {
        let finite: bool = crate::ieee::bits_finite(texts[i].x) && crate::ieee::bits_finite(
            texts[i].y,
        );
        let len_ok: bool = texts[i].length as usize <= texts[i].text.len();
        if !finite || !len_ok {
            return false;
        }
        proof {
            assert forall|j: int|
                0 <= j < i + 1 implies {
                    &&& f64_is_finite(#[trigger] texts@[j].x)
                    &&& f64_is_finite(texts@[j].y)
                    &&& texts@[j].length <= texts@[j].text@.len()
                } by {
                if j == i {
                    assert(f64_is_finite(texts@[j].x));
                    assert(f64_is_finite(texts@[j].y));
                    assert(texts@[j].length <= texts@[j].text@.len());
                }
            };
        }
        i += 1;
    }
    true
}

} // verus!
