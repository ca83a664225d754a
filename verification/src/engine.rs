//! The trusted boundary to the wasmer engine. Each item here either
//! declares a wasmer type so that verified code can carry its values, or
//! wraps one engine operation behind a contract. Nothing about a guest's
//! behaviour is promised: a guest call may do anything to its own memory,
//! so the contracts state only what the wasmer sources show for every
//! outcome.
//!
//! wasmer aborts if a handle (a memory, global or function) is used with
//! a store other than the one it came from. The store and the instance
//! whose handles the runtime uses therefore live together in one opaque
//! cell, and every operation that touches a handle is a method of that
//! cell, looking the handle up in its own instance and using it with its
//! own store: no admitted input can reach that abort.

use vstd::prelude::*;

use wasmer::sys::{BaseTunables, NativeEngineExt};
use wasmer::{Engine, Imports, Instance, Module, Pages, Store, Value};

verus! {

#[verifier::external_type_specification]
#[verifier::external_body]
pub struct ExStore(Store);

#[verifier::external_type_specification]
#[verifier::external_body]
pub struct ExModule(Module);

/// The engine half of one team's VM: the store, and the instance living
/// in it, inseparable by construction (see the module comment).
#[verifier::external_body]
pub struct EngineCell {
    store: Store,
    instance: Instance,
}

/// Relies on `wasmer::Store::new` with the default engine, configured so
/// that guest memories use the dynamic style: address space is reserved
/// as the guest grows it, not as one large up-front reservation.
#[verifier::external_body]
pub(crate) fn new_store() -> Store {
    let mut engine = Engine::default();
    let tunables = BaseTunables {
        static_memory_bound: Pages(0),
        static_memory_offset_guard_size: 0x1_0000,
        dynamic_memory_offset_guard_size: 0x1_0000,
    };
    engine.set_tunables(tunables);
    Store::new(engine)
}

/// Relies on `wasmer::Module::new`: compiles module bytes, or reports a
/// compile error. A module is tied to the engine, not to a store handle.
#[verifier::external_body]
pub(crate) fn compile_module(store: &Store, bytes: &Vec<u8>) -> Result<Module, String> {
    Module::new(store, bytes.as_slice()).map_err(|e| format!("Wasmer error: {e:?}"))
}

/// Relies on `wasmer::Module::serialize`: the engine's serialized form
/// of a compiled module, for hosts that can load it back.
#[verifier::external_body]
pub(crate) fn serialize_module(module: &Module) -> Result<Vec<u8>, String> {
    module.serialize().map(|b| b.to_vec()).map_err(|e| format!("Wasmer error: {e:?}"))
}

/// Relies on `wasmer::Instance::new` with an empty import object: links
/// the module and runs its start section; on success the instance and
/// the store it lives in become one cell.
#[verifier::external_body]
pub(crate) fn instantiate_cell(store: Store, module: &Module) -> Result<EngineCell, String> {
    let mut store = store;
    match Instance::new(&mut store, module, &Imports::new()) {
        Ok(instance) => Ok(EngineCell { store, instance }),
        Err(e) => Err(format!("Wasmer instantiation error: {e:?}")),
    }
}

impl EngineCell {
    /// Relies on `wasmer::Exports::get_function`: whether the instance
    /// exports a function of this name. A name lookup only; no store use.
    #[verifier::external_body]
    pub(crate) fn has_function(&self, name: &str) -> bool {
        self.instance.exports.get_function(name).is_ok()
    }

    /// Relies on `wasmer::Exports::get_memory`: whether the instance
    /// exports a memory of this name.
    #[verifier::external_body]
    pub(crate) fn has_memory(&self, name: &str) -> bool {
        self.instance.exports.get_memory(name).is_ok()
    }

    /// Relies on `wasmer::Exports::get_global` and `wasmer::Global::get`:
    /// the named global's value, where the export exists and holds a
    /// 32-bit integer. The global belongs to this cell's store.
    #[verifier::external_body]
    pub(crate) fn global_i32(&mut self, name: &str) -> Option<i32> {
        let global = self.instance.exports.get_global(name).ok()?.clone();
        match global.get(&mut self.store) {
            Value::I32(x) => Some(x),
            _ => Option::None,
        }
    }

    /// Relies on `wasmer::Exports::get_function` and
    /// `wasmer::Function::call` with one `i32` argument: runs the named
    /// export; a missing export or a trap (gas exhaustion among them)
    /// comes back as the error string. The function belongs to this
    /// cell's store.
    #[verifier::external_body]
    pub(crate) fn call_function(&mut self, name: &str, arg: i32) -> Result<(), String> {
        let f = self.instance.exports.get_function(name).map_err(|e| format!(
            "Wasmer error: {e:?}",
        ))?.clone();
        f.call(&mut self.store, &[Value::I32(arg)]).map(|_| ()).map_err(|e| format!(
            "Ship runtime error: {e}",
        ))
    }

    /// Relies on `wasmer::Exports::get_memory`, `wasmer::Memory::view`
    /// and `MemoryView::read`: copies `len` bytes of the named linear
    /// memory from `offset`; `None` on a missing memory or an
    /// out-of-bounds range. The guest controls its memory, so only the
    /// length of a successful read is promised.
    #[verifier::external_body]
    pub(crate) fn memory_read(&self, name: &str, offset: u64, len: u32) -> (r: Option<Vec<u8>>)
        ensures
            r matches Some(b) ==> b@.len() == len,
    {
        let memory = self.instance.exports.get_memory(name).ok()?;
        let mut buf: Vec<u8> = vec![0u8; len as usize];
        match memory.view(&self.store).read(offset, &mut buf) {
            Ok(()) => Some(buf),
            Err(_) => Option::None,
        }
    }

    /// Relies on the same path with `MemoryView::write`: copies the bytes
    /// into the named linear memory at `offset`; `false` on a missing
    /// memory or an out-of-bounds range.
    #[verifier::external_body]
    pub(crate) fn memory_write(&self, name: &str, offset: u64, data: &Vec<u8>) -> bool {
        match self.instance.exports.get_memory(name) {
            Ok(memory) => memory.view(&self.store).write(offset, data.as_slice()).is_ok(),
            Err(_) => false,
        }
    }
}

} // verus!
