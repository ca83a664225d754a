//! Translation tables between simulation-side enumerations and the guest
//! ABI's numeric codes, and the error translators used around engine calls.

use vstd::prelude::*;

use crate::ieee::{f64_bits_trunc_u32, bits_trunc_u32};
use crate::{Error, ErrorKind};

verus! {

/// The simulation's ship classification, as the runtime reads it.
#[derive(Clone, Copy, Debug, PartialEq, Eq, Structural)]
pub enum ShipClass {
    Fighter,
    Frigate,
    Cruiser,
    Asteroid,
    Target,
    Missile,
    Torpedo,
    Planet,
}

/// The guest ABI's classification. `Unknown` is what a guest sees for
/// anything the ABI does not name.
#[derive(Clone, Copy, Debug, PartialEq, Eq, Structural)]
pub enum Class {
    Fighter,
    Frigate,
    Cruiser,
    Asteroid,
    Target,
    Missile,
    Torpedo,
    Unknown,
}

/// The numeric code of a class in the ABI.
pub open spec fn class_code(c: Class) -> u32 {
    match c {
        Class::Fighter => 0,
        Class::Frigate => 1,
        Class::Cruiser => 2,
        Class::Asteroid => 3,
        Class::Target => 4,
        Class::Missile => 5,
        Class::Torpedo => 6,
        Class::Unknown => 7,
    }
}

/// Executable class code.
pub fn class_code_of(c: Class) -> (r: u32)
    ensures
        r == class_code(c),
{
    match c {
        Class::Fighter => 0,
        Class::Frigate => 1,
        Class::Cruiser => 2,
        Class::Asteroid => 3,
        Class::Target => 4,
        Class::Missile => 5,
        Class::Torpedo => 6,
        Class::Unknown => 7,
    }
}

/// The total mapping from simulation classes to ABI classes: namesakes map
/// to namesakes, and a planet is `Unknown` to guests.
pub open spec fn spec_translate_class(class: ShipClass) -> Class {
    match class {
        ShipClass::Fighter => Class::Fighter,
        ShipClass::Frigate => Class::Frigate,
        ShipClass::Cruiser => Class::Cruiser,
        ShipClass::Asteroid => Class::Asteroid,
        ShipClass::Target => Class::Target,
        ShipClass::Missile => Class::Missile,
        ShipClass::Torpedo => Class::Torpedo,
        ShipClass::Planet => Class::Unknown,
    }
}

/// Translates a simulation class for the guest.
pub fn translate_class(class: ShipClass) -> (r: Class)
    ensures
        r == spec_translate_class(class),
{
    match class {
        ShipClass::Fighter => Class::Fighter,
        ShipClass::Frigate => Class::Frigate,
        ShipClass::Cruiser => Class::Cruiser,
        ShipClass::Asteroid => Class::Asteroid,
        ShipClass::Target => Class::Target,
        ShipClass::Missile => Class::Missile,
        ShipClass::Torpedo => Class::Torpedo,
        ShipClass::Planet => Class::Unknown,
    }
}

/// A ship ability a guest may activate.
#[derive(Clone, Copy, Debug, PartialEq, Eq, Structural)]
pub enum Ability {
    Idle,
    Boost,
    ShapedCharge,
    Decoy,
    Shield,
}

/// The numeric code of an ability in the ABI; `Idle` is the code of "no
/// ability".
pub open spec fn ability_code(a: Ability) -> u32 {
    match a {
        Ability::Idle => 0,
        Ability::Boost => 1,
        Ability::ShapedCharge => 2,
        Ability::Decoy => 3,
        Ability::Shield => 4,
    }
}

/// An ability slot value translates by Rust's saturating cast of the
/// double to `u32` — NaN casts to zero, the idle code — and matching a
/// code exactly; any other value is no ability at all.
pub open spec fn spec_translate_ability(bits: u64) -> Option<Ability> {
    let v = f64_bits_trunc_u32(bits);
    if v == 0 {
        Some(Ability::Idle)
    } else if v == 1 {
        Some(Ability::Boost)
    } else if v == 2 {
        Some(Ability::ShapedCharge)
    } else if v == 3 {
        Some(Ability::Decoy)
    } else if v == 4 {
        Some(Ability::Shield)
    } else {
        None
    }
}

/// Translates the ability slot (a double's bit pattern) for the host.
pub fn translate_ability(bits: u64) -> (r: Option<Ability>)
    ensures
        r == spec_translate_ability(bits),
{
    let v: u32 = bits_trunc_u32(bits);
    if v == 0 {
        Some(Ability::Idle)
    } else if v == 1 {
        Some(Ability::Boost)
    } else if v == 2 {
        Some(Ability::ShapedCharge)
    } else if v == 3 {
        Some(Ability::Decoy)
    } else if v == 4 {
        Some(Ability::Shield)
    } else {
        None
    }
}

/// Wraps an engine-setup failure as a `ModuleValidation` error, keeping
/// the message.
pub fn translate_error<T>(res: Result<T, String>) -> (r: Result<T, Error>)
    ensures
        r is Ok <==> res is Ok,
        res matches Ok(v) ==> (r matches Ok(w) && w == v),
        res matches Err(m) ==> (r matches Err(e) && e.kind == ErrorKind::ModuleValidation
            && e.msg == m),
{
    match res {
        Ok(v) => Ok(v),
        Err(m) => Err(Error { kind: ErrorKind::ModuleValidation, msg: m }),
    }
}

/// Wraps a guest-call trap as a `ShipRuntime` error, keeping the message.
pub fn translate_runtime_error<T>(res: Result<T, String>) -> (r: Result<T, Error>)
    ensures
        r is Ok <==> res is Ok,
        res matches Ok(v) ==> (r matches Ok(w) && w == v),
        res matches Err(m) ==> (r matches Err(e) && e.kind == ErrorKind::ShipRuntime && e.msg
            == m),
{
    match res {
        Ok(v) => Ok(v),
        Err(m) => Err(Error { kind: ErrorKind::ShipRuntime, msg: m }),
    }
}

} // verus!
