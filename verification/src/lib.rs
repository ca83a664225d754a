//! Per-team WebAssembly ship-control runtime: a source sanitizer, a VM
//! wrapper around the wasmer engine, per-ship marshalling of a shared
//! `SystemState` array of IEEE-754 doubles (held here as raw bit patterns),
//! and validators that screen guest-supplied data before it reaches the
//! simulation.

use vstd::prelude::*;

pub mod code;
pub mod controller;
pub mod engine;
pub mod ieee;
pub mod limiter;
pub mod marshal;
pub mod state;
pub mod sanitizer;
pub mod seed;
pub mod translate;
pub mod validate;
pub mod text;
pub mod vm;

verus! {

/// The error taxonomy of the runtime, as data.
#[derive(Clone, Copy, Debug, PartialEq, Eq, Structural)]
pub enum ErrorKind {
    /// Source text was blocked by the sanitizer.
    SanitizerRejection,
    /// The limiter or the engine refused the module bytes.
    ModuleValidation,
    /// A required symbol was not present after instantiation.
    MissingExport,
    /// The engine failed to create the instance.
    Instantiation,
    /// A trap during a guest call.
    ShipRuntime,
    /// Failure to read or write guest memory.
    MemoryMarshal,
}

/// An error of the runtime: its kind, and a human-readable message.
#[derive(Clone, Debug)]
pub struct Error {
    pub kind: ErrorKind,
    pub msg: String,
}

impl Error {
    /// Builds an error of the given kind with the given message.
    pub fn new(kind: ErrorKind, msg: String) -> (r: Error)
        ensures
            r.kind == kind,
            r.msg == msg,
    {
        Error { kind, msg }
    }
}

/// An opaque handle identifying a ship within a simulation: an arena index
/// and its generation. Iteration order within a team goes by the raw
/// index alone.
#[derive(Clone, Copy, Debug, PartialEq, Eq, Structural, Hash)]
pub struct ShipHandle {
    pub index: u32,
    pub generation: u32,
}

} // verus!
