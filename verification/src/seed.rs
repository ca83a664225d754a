//! The per-ship deterministic seed: a hash of the simulation seed and the
//! ship handle's raw parts, presented to the guest through the seed slot.

use vstd::prelude::*;
use vstd::bytes::{spec_u32_to_le_bytes, u32_to_le_bytes};
use vstd::std_specs::hash::DefaultHasherAdditionalSpecFns;

use std::collections::hash_map::DefaultHasher;
use std::hash::Hasher;

use crate::ShipHandle;

verus! {

/// The write sequence the seed hash absorbs: the little-endian bytes of
/// the simulation seed, the handle index, and the handle generation.
pub open spec fn seed_writes(sim_seed: u32, handle: ShipHandle) -> Seq<Seq<u8>> {
    seq![
        spec_u32_to_le_bytes(sim_seed),
        spec_u32_to_le_bytes(handle.index),
        spec_u32_to_le_bytes(handle.generation),
    ]
}

/// The seed value: what the standard hasher returns for those writes,
/// reinterpreted as a signed 64-bit value.
pub open spec fn seed_spec(sim_seed: u32, handle: ShipHandle) -> i64 {
    DefaultHasher::spec_finish(seed_writes(sim_seed, handle)) as i64
}

/// Hashes the simulation seed and the handle's raw parts into the ship's
/// deterministic seed.
pub fn make_seed(sim_seed: u32, handle: ShipHandle) -> (r: i64)
    ensures
        r == seed_spec(sim_seed, handle),
{
    let mut s: DefaultHasher = DefaultHasher::new();
    let b0: Vec<u8> = u32_to_le_bytes(sim_seed);
    let b1: Vec<u8> = u32_to_le_bytes(handle.index);
    let b2: Vec<u8> = u32_to_le_bytes(handle.generation);
    s.write(b0.as_slice());
    s.write(b1.as_slice());
    s.write(b2.as_slice());
    proof {
        assert(s@ =~= seed_writes(sim_seed, handle));
    }
    let h: u64 = s.finish();
    #[verifier::truncate]
    let r: i64 = h as i64;
    r
}

/// The low 24 bits of the seed, as fed to the guest's seed slot.
pub fn seed_low24(seed: i64) -> (r: u64)
    ensures
        r == (seed as u64) & 0xffffff,
        r < 0x100_0000,
{
    #[verifier::truncate]
    let u: u64 = seed as u64;
    let r: u64 = u & 0xffffff;
    proof {
        assert((u & 0xffffff) < 0x100_0000) by (bit_vector);
    }
    r
}

} // verus!
