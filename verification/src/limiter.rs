//! The limiter: the bytecode pass a module goes through before
//! compilation. It rewrites the module to weave gas accounting in: a
//! mutable gas global is appended, a `reset_gas(i32)` function that the
//! host calls each tick is appended and exported (replacing any export of
//! that name the guest shipped), and every function entry and every loop
//! header is prefixed with a debit-and-check sequence that traps once the
//! budget is spent. Since a loop's back-edge re-enters its header, the
//! header debit charges every iteration.
//!
//! The pass decodes the module container and every instruction stream it
//! touches; anything it cannot decode — a malformed section, an opcode
//! outside the known encoding — is refused as a `ModuleValidation` error,
//! as is any input without a well-formed header. Custom sections are
//! dropped; they carry no semantics.

use vstd::prelude::*;

use crate::text::bytes_range;
use crate::{Error, ErrorKind};
use vstd::string::StringExecFns;

verus! {

/// Gas granted to a ship for one tick.
pub const GAS_PER_TICK: i32 = 1_000_000;

/// A module header: the magic number, then version one.
pub open spec fn wasm_header_ok(b: Seq<u8>) -> bool {
    &&& b.len() >= 8
    &&& b[0] == 0x00
    &&& b[1] == 0x61
    &&& b[2] == 0x73
    &&& b[3] == 0x6d
    &&& b[4] == 0x01
    &&& b[5] == 0x00
    &&& b[6] == 0x00
    &&& b[7] == 0x00
}

/// Length of the LEB128-encoded integer at `p`, scanning continuation
/// bits; `None` past ten bytes or at a truncated input.
fn leb_len(b: &[u8], p: usize) -> (r: Option<usize>)
    requires
        p <= b@.len(),
    ensures
        r matches Some(l) ==> 1 <= l && p + l <= b@.len(),
{
    let n: usize = b.len();
    let mut l: usize = 0;
    while l < 10
        invariant
            p <= n,
            n == b@.len(),
            l <= 10,
        decreases 10 - l,
    {
        if l >= n - p {
            return None;
        }
        if b[p + l] & 0x80 == 0 {
            return Some(l + 1);
        }
        l += 1;
    }
    None
}

/// Reads the unsigned LEB128 value at `p` into a `u32`, with its length.
fn leb_read(b: &[u8], p: usize) -> (r: Option<(u32, usize)>)
    requires
        p <= b@.len(),
    ensures
        r matches Some((v, l)) ==> 1 <= l && p + l <= b@.len(),
{
    let n: usize = b.len();
    let mut v: u32 = 0;
    let mut l: usize = 0;
    while l < 5
        invariant
            p <= n,
            n == b@.len(),
            l <= 5,
        decreases 5 - l,
    {
        if l >= n - p {
            return None;
        }
        let byte: u8 = b[p + l];
        let payload: u32 = (byte & 0x7f) as u32;
        if l == 4 && payload >= 0x10 {
            return None;
        }
        v = v | (payload << ((7 * l) as u32));
        if byte & 0x80 == 0 {
            return Some((v, l + 1));
        }
        l += 1;
    }
    None
}

/// Appends the unsigned LEB128 encoding of `v`, leaving earlier bytes
/// alone.
fn push_leb(out: &mut Vec<u8>, v: u32)
    ensures
        final(out)@.len() >= old(out)@.len(),
        forall|j: int| 0 <= j < old(out)@.len() ==> final(out)@[j] == old(out)@[j],
{
    let mut x: u32 = v;
    while x >= 0x80
        invariant
            out@.len() >= old(out)@.len(),
            forall|j: int| 0 <= j < old(out)@.len() ==> out@[j] == old(out)@[j],
        decreases x,
    {
        out.push(((x & 0x7f) as u8) | 0x80);
        let nx: u32 = x >> 7;
        proof {
            assert(x >= 0x80 ==> (x >> 7) < x) by (bit_vector);
        }
        x = nx;
    }
    out.push(x as u8);
}

/// Appends the signed LEB128 encoding of a non-negative value.
fn push_sleb_pos(out: &mut Vec<u8>, v: i32)
    requires
        v >= 0,
    ensures
        final(out)@.len() >= old(out)@.len(),
        forall|j: int| 0 <= j < old(out)@.len() ==> final(out)@[j] == old(out)@[j],
{
    let mut x: u32 = v as u32;
    while x >= 0x40
        invariant
            out@.len() >= old(out)@.len(),
            forall|j: int| 0 <= j < old(out)@.len() ==> out@[j] == old(out)@[j],
        decreases x,
    {
        out.push(((x & 0x7f) as u8) | 0x80);
        let nx: u32 = x >> 7;
        proof {
            assert(x >= 0x40 ==> (x >> 7) < x) by (bit_vector);
        }
        x = nx;
    }
    out.push(x as u8);
}

/// Appends every byte of `v`, leaving earlier bytes alone.
fn push_all(out: &mut Vec<u8>, v: &Vec<u8>)
    ensures
        final(out)@.len() >= old(out)@.len(),
        forall|j: int| 0 <= j < old(out)@.len() ==> final(out)@[j] == old(out)@[j],
{
    let mut k: usize = 0;
    while k < v.len()
        invariant
            k <= v@.len(),
            out@.len() >= old(out)@.len(),
            forall|j: int| 0 <= j < old(out)@.len() ==> out@[j] == old(out)@[j],
        decreases v@.len() - k,
    {
        out.push(v[k]);
        k += 1;
    }
}

/// Length of the instruction at `p`, and whether it is a loop header.
/// `None` for a truncated stream or an encoding this pass does not know.
fn instr_len(b: &[u8], p: usize) -> (r: Option<(usize, bool)>)
    requires
        p <= b@.len(),
    ensures
        r matches Some((l, lp)) ==> 1 <= l && p + l <= b@.len(),
{
    let n: usize = b.len();
    if p >= n {
        return None;
    }
    let op: u8 = b[p];
    // block, loop, if: a block type, one signed LEB
    if op == 0x02 || op == 0x03 || op == 0x04 {
        let l: usize = match leb_len(b, p + 1) {
            Some(x) => x,
            None => {
                return None;
            },
        };
        return Some((1 + l, op == 0x03));
    }
    // no immediate
    if op == 0x00 || op == 0x01 || op == 0x05 || op == 0x0b || op == 0x0f || op == 0x1a || op
        == 0x1b || (0x45 <= op && op <= 0xc4) || op == 0xd1 {
        return Some((1, false));
    }
    // one LEB immediate
    if op == 0x0c || op == 0x0d || op == 0x10 || (0x20 <= op && op <= 0x26) || op == 0x3f || op
        == 0x40 || op == 0x41 || op == 0x42 || op == 0xd2 {
        let l: usize = match leb_len(b, p + 1) {
            Some(x) => x,
            None => {
                return None;
            },
        };
        return Some((1 + l, false));
    }
    // two LEB immediates: indirect call, memory argument
    if op == 0x11 || (0x28 <= op && op <= 0x3e) {
        let l1: usize = match leb_len(b, p + 1) {
            Some(x) => x,
            None => {
                return None;
            },
        };
        let l2: usize = match leb_len(b, p + 1 + l1) {
            Some(x) => x,
            None => {
                return None;
            },
        };
        return Some((1 + l1 + l2, false));
    }
    // branch table: a vector of labels, then the default label
    if op == 0x0e {
        let (cnt, l0): (u32, usize) = match leb_read(b, p + 1) {
            Some(x) => x,
            None => {
                return None;
            },
        };
        let mut q: usize = p + 1 + l0;
        let mut i: u32 = 0;
        while i < cnt
            invariant
                p < q <= n,
                n == b@.len(),
            decreases cnt - i,
        {
            let l: usize = match leb_len(b, q) {
                Some(x) => x,
                None => {
                    return None;
                },
            };
            q = q + l;
            i = i + 1;
        }
        let l: usize = match leb_len(b, q) {
            Some(x) => x,
            None => {
                return None;
            },
        };
        return Some((q + l - p, false));
    }
    // typed select: a vector of value types
    if op == 0x1c {
        let (cnt, l0): (u32, usize) = match leb_read(b, p + 1) {
            Some(x) => x,
            None => {
                return None;
            },
        };
        let q: usize = p + 1 + l0;
        let cnt_us: usize = cnt as usize;
        if cnt_us > n - q {
            return None;
        }
        return Some((q + cnt_us - p, false));
    }
    // 32-bit float constant
    if op == 0x43 {
        if 5 > n - p {
            return None;
        }
        return Some((5, false));
    }
    // 64-bit float constant
    if op == 0x44 {
        if 9 > n - p {
            return None;
        }
        return Some((9, false));
    }
    // null reference: a heap type byte
    if op == 0xd0 {
        if 2 > n - p {
            return None;
        }
        return Some((2, false));
    }
    // saturating truncations and bulk memory, by sub-opcode
    if op == 0xfc {
        let (sub, l0): (u32, usize) = match leb_read(b, p + 1) {
            Some(x) => x,
            None => {
                return None;
            },
        };
        let q: usize = p + 1 + l0;
        let lebs: usize = if sub <= 7 {
            0
        } else if sub == 8 || sub == 10 || sub == 12 || sub == 14 {
            2
        } else if sub == 9 || sub == 11 || sub == 13 || sub == 15 || sub == 16 || sub == 17 {
            1
        } else {
            return None;
        };
        let mut q2: usize = q;
        let mut i: usize = 0;
        while i < lebs
            invariant
                p < q2 <= n,
                n == b@.len(),
                lebs <= 2,
            decreases lebs - i,
        {
            let l: usize = match leb_len(b, q2) {
                Some(x) => x,
                None => {
                    return None;
                },
            };
            q2 = q2 + l;
            i = i + 1;
        }
        return Some((q2 - p, false));
    }
    // vector instructions, by sub-opcode
    if op == 0xfd {
        let (sub, l0): (u32, usize) = match leb_read(b, p + 1) {
            Some(x) => x,
            None => {
                return None;
            },
        };
        let q: usize = p + 1 + l0;
        if sub <= 11 || sub == 92 || sub == 93 {
            // memory argument
            let l1: usize = match leb_len(b, q) {
                Some(x) => x,
                None => {
                    return None;
                },
            };
            let l2: usize = match leb_len(b, q + l1) {
                Some(x) => x,
                None => {
                    return None;
                },
            };
            return Some((q + l1 + l2 - p, false));
        }
        if sub == 12 || sub == 13 {
            // sixteen literal bytes
            if 16 > n - q {
                return None;
            }
            return Some((q + 16 - p, false));
        }
        if 21 <= sub && sub <= 34 {
            // a lane byte
            if 1 > n - q {
                return None;
            }
            return Some((q + 1 - p, false));
        }
        if 84 <= sub && sub <= 91 {
            // memory argument, then a lane byte
            let l1: usize = match leb_len(b, q) {
                Some(x) => x,
                None => {
                    return None;
                },
            };
            let l2: usize = match leb_len(b, q + l1) {
                Some(x) => x,
                None => {
                    return None;
                },
            };
            if 1 > n - (q + l1 + l2) {
                return None;
            }
            return Some((q + l1 + l2 + 1 - p, false));
        }
        if sub <= 275 {
            return Some((q - p, false));
        }
        return None;
    }
    None
}

/// Skips the limits of a table or memory type.
fn skip_limits(b: &[u8], p: usize) -> (r: Option<usize>)
    requires
        p <= b@.len(),
    ensures
        r matches Some(q) ==> p < q <= b@.len(),
{
    let n: usize = b.len();
    if p >= n {
        return None;
    }
    let flag: u8 = b[p];
    let l1: usize = match leb_len(b, p + 1) {
        Some(x) => x,
        None => {
            return None;
        },
    };
    if flag == 0x00 {
        return Some(p + 1 + l1);
    }
    if flag == 0x01 {
        let l2: usize = match leb_len(b, p + 1 + l1) {
            Some(x) => x,
            None => {
                return None;
            },
        };
        return Some(p + 1 + l1 + l2);
    }
    None
}

/// Counts the imported functions and globals of an import section.
fn count_imports(imp: &Vec<u8>) -> (r: Option<(u32, u32)>) {
    let b: &[u8] = imp.as_slice();
    let n: usize = b.len();
    let (cnt, l0): (u32, usize) = match leb_read(b, 0) {
        Some(x) => x,
        None => {
            return None;
        },
    };
    let mut p: usize = l0;
    let mut funcs: u32 = 0;
    let mut globals: u32 = 0;
    let mut i: u32 = 0;
    while i < cnt
        invariant
            p <= n,
            n == b@.len(),
        decreases cnt - i,
    {
        // two names: module, then field
        let mut k: usize = 0;
        while k < 2
            invariant
                p <= n,
                n == b@.len(),
                k <= 2,
            decreases 2 - k,
        {
            let (name_len, l): (u32, usize) = match leb_read(b, p) {
                Some(x) => x,
                None => {
                    return None;
                },
            };
            let nl: usize = name_len as usize;
            if nl > n - (p + l) {
                return None;
            }
            p = p + l + nl;
            k += 1;
        }
        if p >= n {
            return None;
        }
        let kind: u8 = b[p];
        p = p + 1;
        if kind == 0x00 {
            let l: usize = match leb_len(b, p) {
                Some(x) => x,
                None => {
                    return None;
                },
            };
            p = p + l;
            if funcs == u32::MAX {
                return None;
            }
            funcs = funcs + 1;
        } else if kind == 0x01 {
            if p >= n {
                return None;
            }
            p = p + 1;
            p = match skip_limits(b, p) {
                Some(x) => x,
                None => {
                    return None;
                },
            };
        } else if kind == 0x02 {
            p = match skip_limits(b, p) {
                Some(x) => x,
                None => {
                    return None;
                },
            };
        } else if kind == 0x03 {
            if 2 > n - p {
                return None;
            }
            p = p + 2;
            if globals == u32::MAX {
                return None;
            }
            globals = globals + 1;
        } else {
            return None;
        }
        i = i + 1;
    }
    Some((funcs, globals))
}

/// Appends one entry to a counted section: the payload with its leading
/// count raised by one and the entry's bytes at the end.
fn append_entry(payload: &Option<Vec<u8>>, entry: &Vec<u8>) -> (r: Option<Vec<u8>>) {
    let mut out: Vec<u8> = Vec::new();
    match payload {
        Some(pl) => {
            let b: &[u8] = pl.as_slice();
            let (cnt, l): (u32, usize) = match leb_read(b, 0) {
                Some(x) => x,
                None => {
                    return None;
                },
            };
            if cnt == u32::MAX {
                return None;
            }
            push_leb(&mut out, cnt + 1);
            let mut rest: Vec<u8> = bytes_range(b, l, pl.len());
            out.append(&mut rest);
        },
        None => {
            push_leb(&mut out, 1);
        },
    }
    let mut e: Vec<u8> = Vec::new();
    let mut k: usize = 0;
    while k < entry.len()
        invariant
            k <= entry@.len(),
        decreases entry@.len() - k,
    {
        e.push(entry[k]);
        k += 1;
    }
    out.append(&mut e);
    Some(out)
}

/// Reads the leading entry count of a counted section; zero if absent.
fn section_count(payload: &Option<Vec<u8>>) -> (r: Option<u32>) {
    match payload {
        Some(pl) => {
            match leb_read(pl.as_slice(), 0) {
                Some((cnt, _l)) => Some(cnt),
                None => None,
            }
        },
        None => Some(0),
    }
}

/// Copies the instruction stream `[lo, hi)`, inserting the gas sequence
/// after every loop header.
fn instrument_expr(b: &[u8], lo: usize, hi: usize, gas: &Vec<u8>, out: &mut Vec<u8>) -> (ok: bool)
    requires
        lo <= hi <= b@.len(),
{
    let mut p: usize = lo;
    while p < hi
        invariant
            lo <= p <= hi <= b@.len(),
        decreases hi - p,
    {
        let (l, is_loop): (usize, bool) = match instr_len(b, p) {
            Some(x) => x,
            None => {
                return false;
            },
        };
        if l > hi - p {
            return false;
        }
        let mut chunk: Vec<u8> = bytes_range(b, p, p + l);
        out.append(&mut chunk);
        if is_loop {
            push_all(out, gas);
        }
        p = p + l;
    }
    true
}

/// Rewrites one function body `[lo, hi)`: the local declarations are
/// kept, the gas sequence goes in at entry, and the expression is
/// instrumented at every loop header.
fn instrument_body(b: &[u8], lo: usize, hi: usize, gas: &Vec<u8>) -> (r: Option<Vec<u8>>)
    requires
        lo <= hi <= b@.len(),
{
    let n: usize = b.len();
    let mut p: usize = lo;
    let (decls, l0): (u32, usize) = match leb_read(b, p) {
        Some(x) => x,
        None => {
            return None;
        },
    };
    p = p + l0;
    let mut i: u32 = 0;
    while i < decls
        invariant
            lo <= p <= n,
            n == b@.len(),
        decreases decls - i,
    {
        let l: usize = match leb_len(b, p) {
            Some(x) => x,
            None => {
                return None;
            },
        };
        if 1 > n - (p + l) {
            return None;
        }
        p = p + l + 1;
        i = i + 1;
    }
    if p > hi {
        return None;
    }
    let mut out: Vec<u8> = bytes_range(b, lo, p);
    push_all(&mut out, gas);
    if !instrument_expr(b, p, hi, gas, &mut out) {
        return None;
    }
    Some(out)
}

/// The rewriting itself; `None` refuses the module.
fn rewrite_inner(wasm: &Vec<u8>) -> (r: Option<Vec<u8>>)
    requires
        wasm_header_ok(wasm@),
    ensures
        r matches Some(v) ==> wasm_header_ok(v@),
{
    let b: &[u8] = wasm.as_slice();
    let n: usize = b.len();
    // split into sections; customs are dropped
    let mut sec_type: Option<Vec<u8>> = None;
    let mut sec_import: Option<Vec<u8>> = None;
    let mut sec_func: Option<Vec<u8>> = None;
    let mut sec_table: Option<Vec<u8>> = None;
    let mut sec_memory: Option<Vec<u8>> = None;
    let mut sec_global: Option<Vec<u8>> = None;
    let mut sec_export: Option<Vec<u8>> = None;
    let mut sec_start: Option<Vec<u8>> = None;
    let mut sec_elem: Option<Vec<u8>> = None;
    let mut sec_code: Option<Vec<u8>> = None;
    let mut sec_data: Option<Vec<u8>> = None;
    let mut sec_datacount: Option<Vec<u8>> = None;
    let mut p: usize = 8;
    while p < n
        invariant
            8 <= p <= n,
            n == b@.len(),
        decreases n - p,
    {
        let id: u8 = b[p];
        let (sz, l): (u32, usize) = match leb_read(b, p + 1) {
            Some(x) => x,
            None => {
                return None;
            },
        };
        let start: usize = p + 1 + l;
        let sz_us: usize = sz as usize;
        if sz_us > n - start {
            return None;
        }
        let payload: Vec<u8> = bytes_range(b, start, start + sz_us);
        if id == 0 {
        } else if id == 1 {
            if sec_type.is_some() {
                return None;
            }
            sec_type = Some(payload);
        } else if id == 2 {
            if sec_import.is_some() {
                return None;
            }
            sec_import = Some(payload);
        } else if id == 3 {
            if sec_func.is_some() {
                return None;
            }
            sec_func = Some(payload);
        } else if id == 4 {
            if sec_table.is_some() {
                return None;
            }
            sec_table = Some(payload);
        } else if id == 5 {
            if sec_memory.is_some() {
                return None;
            }
            sec_memory = Some(payload);
        } else if id == 6 {
            if sec_global.is_some() {
                return None;
            }
            sec_global = Some(payload);
        } else if id == 7 {
            if sec_export.is_some() {
                return None;
            }
            sec_export = Some(payload);
        } else if id == 8 {
            if sec_start.is_some() {
                return None;
            }
            sec_start = Some(payload);
        } else if id == 9 {
            if sec_elem.is_some() {
                return None;
            }
            sec_elem = Some(payload);
        } else if id == 10 {
            if sec_code.is_some() {
                return None;
            }
            sec_code = Some(payload);
        } else if id == 11 {
            if sec_data.is_some() {
                return None;
            }
            sec_data = Some(payload);
        } else if id == 12 {
            if sec_datacount.is_some() {
                return None;
            }
            sec_datacount = Some(payload);
        } else {
            return None;
        }
        p = start + sz_us;
    }
    // index arithmetic for the appended items
    let (import_funcs, import_globals): (u32, u32) = match &sec_import {
        Some(imp) => {
            match count_imports(imp) {
                Some(x) => x,
                None => {
                    return None;
                },
            }
        },
        None => (0, 0),
    };
    let n_types: u32 = match section_count(&sec_type) {
        Some(x) => x,
        None => {
            return None;
        },
    };
    let n_local_funcs: u32 = match section_count(&sec_func) {
        Some(x) => x,
        None => {
            return None;
        },
    };
    let n_local_globals: u32 = match section_count(&sec_global) {
        Some(x) => x,
        None => {
            return None;
        },
    };
    if import_funcs >= u32::MAX - n_local_funcs || import_globals >= u32::MAX - n_local_globals {
        return None;
    }
    let reset_type: u32 = n_types;
    let reset_func: u32 = import_funcs + n_local_funcs;
    let gas_global: u32 = import_globals + n_local_globals;
    // the gas debit sequence: debit one, trap below zero
    let mut gas: Vec<u8> = Vec::new();
    gas.push(0x23);
    push_leb(&mut gas, gas_global);
    gas.push(0x41);
    gas.push(0x01);
    gas.push(0x6b);
    gas.push(0x24);
    push_leb(&mut gas, gas_global);
    gas.push(0x23);
    push_leb(&mut gas, gas_global);
    gas.push(0x41);
    gas.push(0x00);
    gas.push(0x48);
    gas.push(0x04);
    gas.push(0x40);
    gas.push(0x00);
    gas.push(0x0b);
    // type section: append (i32) -> ()
    let reset_type_entry: Vec<u8> = vec![0x60u8, 0x01, 0x7f, 0x00];
    let new_type: Vec<u8> = match append_entry(&sec_type, &reset_type_entry) {
        Some(x) => x,
        None => {
            return None;
        },
    };
    // function section: append a function of that type
    let mut reset_func_entry: Vec<u8> = Vec::new();
    push_leb(&mut reset_func_entry, reset_type);
    let new_func: Vec<u8> = match append_entry(&sec_func, &reset_func_entry) {
        Some(x) => x,
        None => {
            return None;
        },
    };
    // global section: append the mutable gas global
    let mut gas_global_entry: Vec<u8> = Vec::new();
    gas_global_entry.push(0x7f);
    gas_global_entry.push(0x01);
    gas_global_entry.push(0x41);
    push_sleb_pos(&mut gas_global_entry, GAS_PER_TICK);
    gas_global_entry.push(0x0b);
    let new_global: Vec<u8> = match append_entry(&sec_global, &gas_global_entry) {
        Some(x) => x,
        None => {
            return None;
        },
    };
    // export section: drop any gas-reset export the guest shipped, then
    // export the appended function under that name
    let reset_name: Vec<u8> = vec![0x72u8, 0x65, 0x73, 0x65, 0x74, 0x5f, 0x67, 0x61, 0x73];
    let new_export: Vec<u8> = match rebuild_exports(&sec_export, &reset_name, reset_func) {
        Some(x) => x,
        None => {
            return None;
        },
    };
    // code section: instrument every body, append the gas-reset body
    let mut bodies: Vec<u8> = Vec::new();
    let mut n_bodies: u32 = 0;
    match &sec_code {
        Some(code) => {
            let cb: &[u8] = code.as_slice();
            let cn: usize = cb.len();
            let (cnt, l0): (u32, usize) = match leb_read(cb, 0) {
                Some(x) => x,
                None => {
                    return None;
                },
            };
            n_bodies = cnt;
            let mut q: usize = l0;
            let mut i: u32 = 0;
            while i < cnt
                invariant
                    q <= cn,
                    cn == cb@.len(),
                decreases cnt - i,
            {
                let (size, l): (u32, usize) = match leb_read(cb, q) {
                    Some(x) => x,
                    None => {
                        return None;
                    },
                };
                let body_lo: usize = q + l;
                let size_us: usize = size as usize;
                if size_us > cn - body_lo {
                    return None;
                }
                let body_hi: usize = body_lo + size_us;
                let new_body: Vec<u8> = match instrument_body(cb, body_lo, body_hi, &gas) {
                    Some(x) => x,
                    None => {
                        return None;
                    },
                };
                if new_body.len() > 0xffff_0000 {
                    return None;
                }
                push_leb(&mut bodies, new_body.len() as u32);
                push_all(&mut bodies, &new_body);
                q = body_hi;
                i = i + 1;
            }
        },
        None => {},
    }
    if n_bodies != n_local_funcs {
        return None;
    }
    let mut reset_body: Vec<u8> = Vec::new();
    reset_body.push(0x00);
    reset_body.push(0x20);
    reset_body.push(0x00);
    reset_body.push(0x24);
    push_leb(&mut reset_body, gas_global);
    reset_body.push(0x0b);
    if reset_body.len() > 0xffff_0000 {
        return None;
    }
    push_leb(&mut bodies, reset_body.len() as u32);
    push_all(&mut bodies, &reset_body);
    let mut new_code: Vec<u8> = Vec::new();
    if n_bodies == u32::MAX {
        return None;
    }
    push_leb(&mut new_code, n_bodies + 1);
    push_all(&mut new_code, &bodies);
    // reassemble, sections in canonical order
    let mut out: Vec<u8> = vec![0x00u8, 0x61, 0x73, 0x6d, 0x01, 0x00, 0x00, 0x00];
    proof {
        assert(wasm_header_ok(out@));
    }
    if !maybe_emit(&mut out, 1, &Some(new_type)) {
        return None;
    }
    if !maybe_emit(&mut out, 2, &sec_import) {
        return None;
    }
    if !maybe_emit(&mut out, 3, &Some(new_func)) {
        return None;
    }
    if !maybe_emit(&mut out, 4, &sec_table) {
        return None;
    }
    if !maybe_emit(&mut out, 5, &sec_memory) {
        return None;
    }
    if !maybe_emit(&mut out, 6, &Some(new_global)) {
        return None;
    }
    if !maybe_emit(&mut out, 7, &Some(new_export)) {
        return None;
    }
    if !maybe_emit(&mut out, 8, &sec_start) {
        return None;
    }
    if !maybe_emit(&mut out, 9, &sec_elem) {
        return None;
    }
    if !maybe_emit(&mut out, 12, &sec_datacount) {
        return None;
    }
    if !maybe_emit(&mut out, 10, &Some(new_code)) {
        return None;
    }
    if !maybe_emit(&mut out, 11, &sec_data) {
        return None;
    }
    proof {
        assert(wasm_header_ok(out@));
    }
    Some(out)
}

/// Rebuilds the export section: entries other than the gas-reset name
/// are kept as they are; the appended gas-reset function is exported.
fn rebuild_exports(payload: &Option<Vec<u8>>, reset_name: &Vec<u8>, reset_func: u32) -> (r:
    Option<Vec<u8>>)
    requires
        reset_name@.len() == 9,
{
    let mut entries: Vec<u8> = Vec::new();
    let mut kept: u32 = 0;
    match payload {
        Some(pl) => {
            let b: &[u8] = pl.as_slice();
            let n: usize = b.len();
            let (cnt, l0): (u32, usize) = match leb_read(b, 0) {
                Some(x) => x,
                None => {
                    return None;
                },
            };
            let mut p: usize = l0;
            let mut i: u32 = 0;
            while i < cnt
                invariant
                    p <= n,
                    n == b@.len(),
                    reset_name@.len() == 9,
                decreases cnt - i,
            {
                let entry_lo: usize = p;
                let (name_len, l): (u32, usize) = match leb_read(b, p) {
                    Some(x) => x,
                    None => {
                        return None;
                    },
                };
                let nl: usize = name_len as usize;
                if nl > n - (p + l) {
                    return None;
                }
                let name_lo: usize = p + l;
                p = name_lo + nl;
                if p >= n {
                    return None;
                }
                p = p + 1;
                let li: usize = match leb_len(b, p) {
                    Some(x) => x,
                    None => {
                        return None;
                    },
                };
                p = p + li;
                let mut is_reset: bool = nl == 9;
                if is_reset {
                    let mut k: usize = 0;
                    while k < 9
                        invariant
                            k <= 9,
                            n == b@.len(),
                            name_lo + 9 <= n,
                            reset_name@.len() == 9,
                        decreases 9 - k,
                    {
                        if b[name_lo + k] != reset_name[k] {
                            is_reset = false;
                        }
                        k += 1;
                    }
                }
                if !is_reset {
                    let mut entry: Vec<u8> = bytes_range(b, entry_lo, p);
                    entries.append(&mut entry);
                    if kept == u32::MAX {
                        return None;
                    }
                    kept = kept + 1;
                }
                i = i + 1;
            }
        },
        None => {},
    }
    push_leb(&mut entries, 9);
    push_all(&mut entries, reset_name);
    entries.push(0x00);
    push_leb(&mut entries, reset_func);
    if kept == u32::MAX {
        return None;
    }
    let mut out: Vec<u8> = Vec::new();
    push_leb(&mut out, kept + 1);
    push_all(&mut out, &entries);
    Some(out)
}

/// Emits one section, where present, leaving earlier bytes alone.
fn maybe_emit(out: &mut Vec<u8>, id: u8, payload: &Option<Vec<u8>>) -> (ok: bool)
    ensures
        final(out)@.len() >= old(out)@.len(),
        forall|j: int| 0 <= j < old(out)@.len() ==> final(out)@[j] == old(out)@[j],
{
    match payload {
        Some(pl) => {
            if pl.len() > 0xffff_0000 {
                return false;
            }
            out.push(id);
            push_leb(out, pl.len() as u32);
            push_all(out, pl);
            true
        },
        None => true,
    }
}

/// The limiter pass: accepts only inputs with a well-formed header whose
/// sections and instruction streams this pass can decode, and returns the
/// gas-instrumented rewriting; anything else is a `ModuleValidation`
/// error.
pub fn rewrite(wasm: &Vec<u8>) -> (r: Result<Vec<u8>, Error>)
    ensures
        r is Ok ==> wasm_header_ok(wasm@),
        !wasm_header_ok(wasm@) ==> r is Err,
        r matches Ok(b) ==> wasm_header_ok(b@),
        r matches Err(e) ==> e.kind == ErrorKind::ModuleValidation,
{
    let header_ok: bool = wasm.len() >= 8 && wasm[0] == 0x00 && wasm[1] == 0x61 && wasm[2] == 0x73
        && wasm[3] == 0x6d && wasm[4] == 0x01 && wasm[5] == 0x00 && wasm[6] == 0x00 && wasm[7]
        == 0x00;
    if !header_ok {
        return Err(
            Error {
                kind: ErrorKind::ModuleValidation,
                msg: String::from_str("not a module: bad header"),
            },
        );
    }
    match rewrite_inner(wasm) {
        Some(out) => Ok(out),
        None => Err(
            Error {
                kind: ErrorKind::ModuleValidation,
                msg: String::from_str("module rejected by the limiter"),
            },
        ),
    }
}

} // verus!
