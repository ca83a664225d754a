//! The shared `SystemState` array: a fixed-length array of doubles at a
//! known offset in guest linear memory, the sole per-tick I/O channel
//! between host and guest. The host keeps a local mirror per ship; each
//! slot is a double's raw bit pattern. Reads are screened: a NaN or
//! infinite slot reads as zero. Writes store the pattern as given.

use vstd::prelude::*;
use vstd::pervasive::VecAdditionalExecFns;

use crate::ieee::sanitize_bits;

verus! {

// Slot indices of the guest ABI. Values crossing the boundary are indexed
// by these positions into the array of doubles.
pub const CLASS: usize = 0;

pub const SEED: usize = 1;

pub const POSITION_X: usize = 2;

pub const POSITION_Y: usize = 3;

pub const VELOCITY_X: usize = 4;

pub const VELOCITY_Y: usize = 5;

pub const HEADING: usize = 6;

pub const ANGULAR_VELOCITY: usize = 7;

pub const ACCELERATE_X: usize = 8;

pub const ACCELERATE_Y: usize = 9;

pub const TORQUE: usize = 10;

pub const AIM0: usize = 11;

pub const AIM1: usize = 12;

pub const AIM2: usize = 13;

pub const AIM3: usize = 14;

pub const FIRE0: usize = 15;

pub const FIRE1: usize = 16;

pub const FIRE2: usize = 17;

pub const FIRE3: usize = 18;

pub const EXPLODE: usize = 19;

pub const ACTIVATE_ABILITY: usize = 20;

pub const RADAR_HEADING: usize = 21;

pub const RADAR_WIDTH: usize = 22;

pub const RADAR_MIN_DISTANCE: usize = 23;

pub const RADAR_MAX_DISTANCE: usize = 24;

pub const RADAR_CONTACT_FOUND: usize = 25;

pub const RADAR_CONTACT_POSITION_X: usize = 26;

pub const RADAR_CONTACT_POSITION_Y: usize = 27;

pub const RADAR_CONTACT_VELOCITY_X: usize = 28;

pub const RADAR_CONTACT_VELOCITY_Y: usize = 29;

pub const RADAR_CONTACT_CLASS: usize = 30;

pub const CURRENT_TICK: usize = 31;

pub const MAX_FORWARD_ACCELERATION: usize = 32;

pub const MAX_BACKWARD_ACCELERATION: usize = 33;

pub const MAX_LATERAL_ACCELERATION: usize = 34;

pub const MAX_ANGULAR_ACCELERATION: usize = 35;

pub const DEBUG_TEXT_POINTER: usize = 36;

pub const DEBUG_TEXT_LENGTH: usize = 37;

pub const DEBUG_LINES_POINTER: usize = 38;

pub const DEBUG_LINES_LENGTH: usize = 39;

pub const DRAWN_TEXT_POINTER: usize = 40;

pub const DRAWN_TEXT_LENGTH: usize = 41;

/// Where the per-radio slot blocks begin.
pub const RADIO_BASE: usize = 42;

/// Slots per radio block: channel, send, receive, four data words.
pub const RADIO_STRIDE: usize = 7;

/// Radio slots supported by the ABI.
pub const NUM_RADIOS: usize = 4;

/// Total slots in the array.
pub const SYSTEM_STATE_SIZE: usize = 70;

/// The channel slot of radio `i`.
pub open spec fn radio_channel_slot(i: int) -> int {
    RADIO_BASE + RADIO_STRIDE * i
}

/// The send flag slot of radio `i`.
pub open spec fn radio_send_slot(i: int) -> int {
    RADIO_BASE + RADIO_STRIDE * i + 1
}

/// The receive flag slot of radio `i`.
pub open spec fn radio_receive_slot(i: int) -> int {
    RADIO_BASE + RADIO_STRIDE * i + 2
}

/// The `j`-th data slot of radio `i`.
pub open spec fn radio_data_slot(i: int, j: int) -> int {
    RADIO_BASE + RADIO_STRIDE * i + 3 + j
}

/// Channel slot of radio `i`, executable.
pub fn radio_channel_index(i: usize) -> (r: usize)
    requires
        i < NUM_RADIOS,
    ensures
        r == radio_channel_slot(i as int),
        r < SYSTEM_STATE_SIZE,
{
    RADIO_BASE + RADIO_STRIDE * i
}

/// Send slot of radio `i`, executable.
pub fn radio_send_index(i: usize) -> (r: usize)
    requires
        i < NUM_RADIOS,
    ensures
        r == radio_send_slot(i as int),
        r < SYSTEM_STATE_SIZE,
{
    RADIO_BASE + RADIO_STRIDE * i + 1
}

/// Receive slot of radio `i`, executable.
pub fn radio_receive_index(i: usize) -> (r: usize)
    requires
        i < NUM_RADIOS,
    ensures
        r == radio_receive_slot(i as int),
        r < SYSTEM_STATE_SIZE,
{
    RADIO_BASE + RADIO_STRIDE * i + 2
}

/// Data slot `j` of radio `i`, executable.
pub fn radio_data_index(i: usize, j: usize) -> (r: usize)
    requires
        i < NUM_RADIOS,
        j < 4,
    ensures
        r == radio_data_slot(i as int, j as int),
        r < SYSTEM_STATE_SIZE,
{
    RADIO_BASE + RADIO_STRIDE * i + 3 + j
}

/// The host's local mirror of a ship's `SystemState` array; each element
/// is a double's raw bit pattern.
pub struct LocalSystemState {
    pub state: Vec<u64>,
}

impl LocalSystemState {
    /// The mirror has exactly the ABI's number of slots.
    pub open spec fn wf(&self) -> bool {
        self.state@.len() == SYSTEM_STATE_SIZE
    }

    /// The slots as a sequence of bit patterns.
    pub open spec fn slots(&self) -> Seq<u64> {
        self.state@
    }

    /// A fresh mirror, all slots zero.
    pub fn new() -> (r: Self)
        ensures
            r.wf(),
            forall|i: int| 0 <= i < SYSTEM_STATE_SIZE ==> r.slots()[i] == 0,
    {
        let mut v: Vec<u64> = Vec::new();
        let mut i: usize = 0;
        while i < SYSTEM_STATE_SIZE
            invariant
                i <= SYSTEM_STATE_SIZE,
                v@.len() == i,
                forall|j: int| 0 <= j < i ==> v@[j] == 0,
            decreases SYSTEM_STATE_SIZE - i,
        {
            v.push(0);
            i += 1;
        }
        LocalSystemState { state: v }
    }

    /// Screened read: a slot holding a NaN or infinite pattern reads as
    /// zero, so nothing non-finite flows onward from this path.
    pub fn get(&self, index: usize) -> (r: u64)
        requires
            self.wf(),
            index < SYSTEM_STATE_SIZE,
        ensures
            r == sanitize_bits(self.slots()[index as int]),
    {
        crate::ieee::bits_sanitize(self.state[index])
    }

    /// Unscreened write: stores the pattern as given.
    pub fn set(&mut self, index: usize, value: u64)
        requires
            old(self).wf(),
            index < SYSTEM_STATE_SIZE,
        ensures
            final(self).wf(),
            final(self).slots() == old(self).slots().update(index as int, value),
    {
        self.state.set(index, value);
    }
}

} // verus!
