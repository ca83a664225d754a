//! The VM wrapper: owns the engine store and the handles a tick needs —
//! the linear memory, the `SYSTEM_STATE` offset, and the three exported
//! functions of the guest ABI. One VM serves a whole team; ship
//! controllers borrow it for the duration of a call.

use vstd::prelude::*;
use vstd::bytes::{
    lemma_auto_spec_u64_to_from_le_bytes, spec_u64_from_le_bytes, spec_u64_to_le_bytes,
    u64_from_le_bytes, u64_to_le_bytes,
};
use vstd::string::StringExecFns;
use vstd::utf8::{decode_utf8, valid_utf8};

use wasmer::{Module, Store};

use crate::engine::{compile_module, instantiate_cell, new_store, serialize_module, EngineCell};
use crate::code::Code;
use crate::limiter;
use crate::state::{LocalSystemState, SYSTEM_STATE_SIZE};
use crate::text::{bytes_range, string_from_utf8};
use crate::translate::translate_error;
use crate::{Error, ErrorKind};

verus! {

/// Bytes of one `SystemState` slot in guest memory.
pub const SLOT_BYTES: usize = 8;

/// Prepares engine-serialized code: the limiter pass, compilation, and
/// the engine's own serialization of the compiled module. This build
/// does not load serialized modules back (that path would bypass the
/// engine's validation of the bytes), so the result serves hosts whose
/// engine can.
pub fn precompile(code: &Vec<u8>) -> (r: Result<Code, Error>)
    ensures
        r matches Ok(c) ==> c is Precompiled,
        !crate::limiter::wasm_header_ok(code@) ==> r is Err,
        r matches Err(e) ==> e.kind == ErrorKind::ModuleValidation,
{
    let rewritten: Vec<u8> = limiter::rewrite(code)?;
    let store: Store = new_store();
    let module: Module = translate_error(compile_module(&store, &rewritten))?;
    match serialize_module(&module) {
        Ok(b) => Ok(Code::Precompiled(b)),
        Err(m) => Err(Error { kind: ErrorKind::ModuleValidation, msg: m }),
    }
}

/// The mirror serialized for guest memory: slots in order, each as eight
/// little-endian bytes.
pub open spec fn state_bytes(s: Seq<u64>, n: int) -> Seq<u8>
    decreases n,
{
    if n <= 0 {
        Seq::empty()
    } else {
        state_bytes(s, n - 1) + spec_u64_to_le_bytes(s[n - 1])
    }
}

/// The slots parsed back out of guest-memory bytes.
pub open spec fn slots_of_bytes(b: Seq<u8>) -> Seq<u64> {
    Seq::new(
        SYSTEM_STATE_SIZE as nat,
        |i: int| spec_u64_from_le_bytes(b.subrange(i * 8, i * 8 + 8)),
    )
}

/// The serialization is eight bytes per slot.
pub proof fn lemma_state_bytes_len(s: Seq<u64>, n: int)
    requires
        0 <= n,
    ensures
        state_bytes(s, n).len() == 8 * n,
    decreases n,
{
    lemma_auto_spec_u64_to_from_le_bytes();
    if n > 0 {
        lemma_state_bytes_len(s, n - 1);
    }
}

/// Each slot's chunk of the serialization is its little-endian encoding.
pub proof fn lemma_state_bytes_index(s: Seq<u64>, n: int, i: int)
    requires
        0 <= i < n,
    ensures
        state_bytes(s, n).subrange(8 * i, 8 * i + 8) == spec_u64_to_le_bytes(s[i]),
    decreases n,
{
    lemma_auto_spec_u64_to_from_le_bytes();
    lemma_state_bytes_len(s, n - 1);
    if i == n - 1 {
        assert(state_bytes(s, n).subrange(8 * i, 8 * i + 8) =~= spec_u64_to_le_bytes(s[i]));
    } else {
        lemma_state_bytes_index(s, n - 1, i);
        assert(state_bytes(s, n).subrange(8 * i, 8 * i + 8) =~= state_bytes(s, n - 1).subrange(
            8 * i,
            8 * i + 8,
        ));
    }
}

/// Parsing the serialized mirror gives the slots back: the two byte maps
/// are exact inverses.
pub proof fn lemma_state_bytes_round_trip(s: Seq<u64>)
    requires
        s.len() == SYSTEM_STATE_SIZE,
    ensures
        slots_of_bytes(state_bytes(s, SYSTEM_STATE_SIZE as int)) =~= s,
{
    lemma_auto_spec_u64_to_from_le_bytes();
    assert forall|i: int| 0 <= i < SYSTEM_STATE_SIZE implies slots_of_bytes(
        state_bytes(s, SYSTEM_STATE_SIZE as int),
    )[i] == s[i] by {
        lemma_state_bytes_index(s, SYSTEM_STATE_SIZE as int, i);
    };
}

/// Serializes the mirror: exactly `state_bytes` of its slots.
fn state_to_bytes(state: &LocalSystemState) -> (r: Vec<u8>)
    requires
        state.wf(),
    ensures
        r@ == state_bytes(state.slots(), SYSTEM_STATE_SIZE as int),
        r@.len() == SYSTEM_STATE_SIZE * SLOT_BYTES,
{
    let mut buf: Vec<u8> = Vec::new();
    let mut i: usize = 0;
    while i < SYSTEM_STATE_SIZE
        invariant
            state.wf(),
            i <= SYSTEM_STATE_SIZE,
            buf@ == state_bytes(state.slots(), i as int),
            buf@.len() == i * SLOT_BYTES,
        decreases SYSTEM_STATE_SIZE - i,
    {
        let mut chunk: Vec<u8> = u64_to_le_bytes(state.state[i]);
        proof {
            lemma_auto_spec_u64_to_from_le_bytes();
        }
        buf.append(&mut chunk);
        proof {
            assert(buf@ =~= state_bytes(state.slots(), i + 1));
        }
        i += 1;
    }
    proof {
        lemma_state_bytes_len(state.slots(), SYSTEM_STATE_SIZE as int);
    }
    buf
}

/// Parses guest-memory bytes into the mirror: exactly `slots_of_bytes`.
fn bytes_to_state(bytes: &Vec<u8>, state: &mut LocalSystemState)
    requires
        old(state).wf(),
        bytes@.len() == SYSTEM_STATE_SIZE * SLOT_BYTES,
    ensures
        final(state).wf(),
        final(state).slots() == slots_of_bytes(bytes@),
{
    let mut i: usize = 0;
    while i < SYSTEM_STATE_SIZE
        invariant
            state.wf(),
            i <= SYSTEM_STATE_SIZE,
            bytes@.len() == SYSTEM_STATE_SIZE * SLOT_BYTES,
            forall|j: int|
                0 <= j < i ==> state.slots()[j] == spec_u64_from_le_bytes(
                    bytes@.subrange(8 * j, 8 * j + 8),
                ),
        decreases SYSTEM_STATE_SIZE - i,
    {
        let chunk: Vec<u8> = bytes_range(bytes.as_slice(), i * SLOT_BYTES, i * SLOT_BYTES + 8);
        let v: u64 = u64_from_le_bytes(chunk.as_slice());
        state.set(i, v);
        i += 1;
    }
    proof {
        assert(state.slots() =~= slots_of_bytes(bytes@));
    }
}

/// The engine state of one team: the store-and-instance cell, and the
/// `SYSTEM_STATE` offset read once at load.
pub struct WasmVm {
    cell: EngineCell,
    system_state_ptr: u32,
}

impl WasmVm {
    /// Loads a team's code: applies the limiter pass, compiles,
    /// instantiates, and caches the ABI exports. Only loadable code is
    /// accepted; absent code, raw source and serialized modules are
    /// `ModuleValidation` errors (this build does not load serialized
    /// modules, which would bypass verification of the bytes by the
    /// engine's deserializer).
    pub fn create(code: &Code) -> (r: Result<WasmVm, Error>)
        ensures
            !(code is Wasm) ==> (r matches Err(e) && e.kind == ErrorKind::ModuleValidation),
            code matches Code::Wasm(b) && !crate::limiter::wasm_header_ok(b@) ==> (r matches Err(
                e,
            ) && e.kind == ErrorKind::ModuleValidation),
            r matches Err(e) ==> (e.kind == ErrorKind::ModuleValidation || e.kind
                == ErrorKind::Instantiation || e.kind == ErrorKind::MissingExport),
    {
        let bytes: &Vec<u8> = match code {
            Code::Wasm(b) => b,
            _ => {
                return Err(
                    Error {
                        kind: ErrorKind::ModuleValidation,
                        msg: String::from_str("no loadable module in this code"),
                    },
                );
            },
        };
        let rewritten: Vec<u8> = limiter::rewrite(bytes)?;
        let store: Store = new_store();
        let module: Module = translate_error(compile_module(&store, &rewritten))?;
        let mut cell: EngineCell = match instantiate_cell(store, &module) {
            Ok(c) => c,
            Err(m) => {
                return Err(Error { kind: ErrorKind::Instantiation, msg: m });
            },
        };
        if !cell.has_memory("memory") {
            return Err(
                Error {
                    kind: ErrorKind::MissingExport,
                    msg: String::from_str("missing export: memory"),
                },
            );
        }
        let offset: i32 = match cell.global_i32("SYSTEM_STATE") {
            Some(x) => x,
            None => {
                return Err(
                    Error {
                        kind: ErrorKind::MissingExport,
                        msg: String::from_str("missing export: SYSTEM_STATE (i32 global)"),
                    },
                );
            },
        };
        #[verifier::truncate]
        let system_state_ptr: u32 = offset as u32;
        if !cell.has_function("export_tick_ship") {
            return Err(
                Error {
                    kind: ErrorKind::MissingExport,
                    msg: String::from_str("missing export: export_tick_ship"),
                },
            );
        }
        if !cell.has_function("export_delete_ship") {
            return Err(
                Error {
                    kind: ErrorKind::MissingExport,
                    msg: String::from_str("missing export: export_delete_ship"),
                },
            );
        }
        if !cell.has_function("reset_gas") {
            return Err(
                Error {
                    kind: ErrorKind::MissingExport,
                    msg: String::from_str("missing export: reset_gas"),
                },
            );
        }
        Ok(WasmVm { cell, system_state_ptr })
    }

    /// Grants the per-tick gas budget by calling the module's gas-reset
    /// export.
    pub fn reset_gas(&mut self) -> (r: Result<(), Error>)
        ensures
            r matches Err(e) ==> e.kind == ErrorKind::ShipRuntime,
    {
        match self.cell.call_function("reset_gas", limiter::GAS_PER_TICK) {
            Ok(()) => Ok(()),
            Err(m) => Err(Error { kind: ErrorKind::ShipRuntime, msg: m }),
        }
    }

    /// Runs the guest's per-ship tick entry point.
    pub fn call_tick_ship(&mut self, index: u32) -> (r: Result<(), Error>)
        ensures
            r matches Err(e) ==> e.kind == ErrorKind::ShipRuntime,
    {
        #[verifier::truncate]
        let arg: i32 = index as i32;
        match self.cell.call_function("export_tick_ship", arg) {
            Ok(()) => Ok(()),
            Err(m) => Err(Error { kind: ErrorKind::ShipRuntime, msg: m }),
        }
    }

    /// Tells the guest to release a ship's bookkeeping.
    pub fn call_delete_ship(&mut self, index: u32) -> (r: Result<(), Error>)
        ensures
            r matches Err(e) ==> e.kind == ErrorKind::ShipRuntime,
    {
        #[verifier::truncate]
        let arg: i32 = index as i32;
        match self.cell.call_function("export_delete_ship", arg) {
            Ok(()) => Ok(()),
            Err(m) => Err(Error { kind: ErrorKind::ShipRuntime, msg: m }),
        }
    }

    /// Writes the mirror into guest memory at the `SYSTEM_STATE` offset.
    /// The bytes handed to the engine are exactly `state_bytes` of the
    /// slots, by `state_to_bytes`'s contract.
    pub fn write_system_state(&self, state: &LocalSystemState) -> (r: Result<(), Error>)
        requires
            state.wf(),
        ensures
            r matches Err(e) ==> e.kind == ErrorKind::MemoryMarshal,
    {
        let buf: Vec<u8> = state_to_bytes(state);
        proof {
            assert(buf@ == state_bytes(state.slots(), SYSTEM_STATE_SIZE as int));
        }
        if self.cell.memory_write("memory", self.system_state_ptr as u64, &buf) {
            Ok(())
        } else {
            Err(
                Error {
                    kind: ErrorKind::MemoryMarshal,
                    msg: String::from_str("system state write out of bounds"),
                },
            )
        }
    }

    /// Reads the mirror back from guest memory; on success the mirror is
    /// exactly the little-endian parse of the bytes the engine returned.
    pub fn read_system_state(&self, state: &mut LocalSystemState) -> (r: Result<(), Error>)
        requires
            old(state).wf(),
        ensures
            final(state).wf(),
            r matches Err(e) ==> e.kind == ErrorKind::MemoryMarshal,
            r is Ok ==> exists|b: Seq<u8>|
                b.len() == SYSTEM_STATE_SIZE * SLOT_BYTES && final(state).slots()
                    == #[trigger] slots_of_bytes(b),
    {
        let total: u32 = (SYSTEM_STATE_SIZE * SLOT_BYTES) as u32;
        let bytes: Vec<u8> = match self.cell.memory_read(
            "memory",
            self.system_state_ptr as u64,
            total,
        ) {
            Some(b) => b,
            None => {
                return Err(
                    Error {
                        kind: ErrorKind::MemoryMarshal,
                        msg: String::from_str("system state read out of bounds"),
                    },
                );
            },
        };
        bytes_to_state(&bytes, state);
        Ok(())
    }

    /// Reads a guest-supplied string: `length` bytes at `offset`, which
    /// must decode as UTF-8; anything else is no output at all.
    pub fn read_string(&self, offset: u32, length: u32) -> (r: Option<String>)
        ensures
            r matches Some(s) ==> exists|b: Seq<u8>|
                b.len() == length && valid_utf8(b) && s@ == decode_utf8(b),
    {
        let bytes: Vec<u8> = match self.cell.memory_read("memory", offset as u64, length) {
            Some(b) => b,
            None => {
                return Option::None;
            },
        };
        let ghost bs = bytes@;
        match string_from_utf8(bytes) {
            Some(s) => {
                proof {
                    assert(bs.len() == length && valid_utf8(bs) && s@ == decode_utf8(bs));
                }
                Some(s)
            },
            None => Option::None,
        }
    }

    /// Reads a raw byte batch out of guest memory.
    pub fn read_bytes(&self, offset: u32, length: u32) -> (r: Option<Vec<u8>>)
        ensures
            r matches Some(b) ==> b@.len() == length,
    {
        self.cell.memory_read("memory", offset as u64, length)
    }
}

} // verus!
