//! Per-tick marshalling between the simulation and the guest ABI.
//!
//! Outbound: `generate_system_state` fills the local mirror from a plain
//! snapshot of the ship's simulation state. Inbound: `apply_system_state`
//! reads the mirror back (screened, so nothing non-finite escapes) and
//! turns it into explicit commands, zeroing the command slots so that a
//! guest that never writes them does not re-issue them next tick.

use vstd::prelude::*;

use crate::ieee::{
    f64_bits_trunc_u64, f64_is_finite, f64_is_nonzero, f64_is_pos, sanitize_bits, u53_to_f64_bits,
    bits_trunc_u64, bits_nonzero, bits_pos, small_to_f64_bits,
};
use crate::state::{
    LocalSystemState, ACCELERATE_X, ACCELERATE_Y, ACTIVATE_ABILITY, AIM0, ANGULAR_VELOCITY, CLASS,
    CURRENT_TICK, EXPLODE, FIRE0, HEADING, MAX_ANGULAR_ACCELERATION,
    MAX_BACKWARD_ACCELERATION, MAX_FORWARD_ACCELERATION, MAX_LATERAL_ACCELERATION, NUM_RADIOS,
    POSITION_X, POSITION_Y, RADAR_CONTACT_CLASS, RADAR_CONTACT_FOUND, RADAR_CONTACT_POSITION_X,
    RADAR_CONTACT_POSITION_Y, RADAR_CONTACT_VELOCITY_X, RADAR_CONTACT_VELOCITY_Y, RADAR_HEADING,
    RADAR_MAX_DISTANCE, RADAR_MIN_DISTANCE, RADAR_WIDTH, RADIO_BASE, SYSTEM_STATE_SIZE, TORQUE,
    VELOCITY_X, VELOCITY_Y, radio_channel_index, radio_channel_slot, radio_data_index,
    radio_data_slot, radio_receive_index, radio_receive_slot, radio_send_index, radio_send_slot,
};
use crate::translate::{
    class_code, class_code_of, spec_translate_class, spec_translate_ability, translate_class,
    translate_ability, Ability, ShipClass,
};

verus! {

/// One radio message: four doubles, as bit patterns.
#[derive(Clone, Copy, Debug, PartialEq, Eq, Structural)]
pub struct RadioMessage {
    pub data0: u64,
    pub data1: u64,
    pub data2: u64,
    pub data3: u64,
}

/// What the host reads from one radio before a tick.
#[derive(Clone, Copy, Debug, PartialEq, Eq, Structural)]
pub struct RadioIn {
    pub channel: u32,
    pub received: Option<RadioMessage>,
}

/// A radar contact, if the scan returned one.
#[derive(Clone, Copy, Debug, PartialEq, Eq, Structural)]
pub struct ContactIn {
    pub position_x: u64,
    pub position_y: u64,
    pub velocity_x: u64,
    pub velocity_y: u64,
    pub class: ShipClass,
}

/// The ship's radar state and scan result.
#[derive(Clone, Copy, Debug, PartialEq, Eq, Structural)]
pub struct RadarIn {
    pub heading: u64,
    pub width: u64,
    pub min_distance: u64,
    pub max_distance: u64,
    pub contact: Option<ContactIn>,
}

/// A tracked target, for ships without radar (a guided missile).
#[derive(Clone, Copy, Debug, PartialEq, Eq, Structural)]
pub struct TargetIn {
    pub position_x: u64,
    pub position_y: u64,
    pub velocity_x: u64,
    pub velocity_y: u64,
}

/// The plain snapshot of everything the outbound state reads from the
/// simulation. Doubles are bit patterns.
pub struct ShipInputs {
    pub class: ShipClass,
    pub position_x: u64,
    pub position_y: u64,
    pub velocity_x: u64,
    pub velocity_y: u64,
    pub heading: u64,
    pub angular_velocity: u64,
    pub radar: Option<RadarIn>,
    pub target: Option<TargetIn>,
    pub max_forward_acceleration: u64,
    pub max_backward_acceleration: u64,
    pub max_lateral_acceleration: u64,
    pub max_angular_acceleration: u64,
    pub radios: Vec<RadioIn>,
    pub tick: u64,
}

/// A snapshot the ABI can carry: no more radios than slots, and a tick
/// number a double represents exactly.
pub open spec fn wf_inputs(inp: &ShipInputs) -> bool {
    inp.radios@.len() <= NUM_RADIOS && inp.tick < 0x20_0000_0000_0000
}

/// The class slot value for a ship class: its ABI code, as a double.
pub open spec fn class_bits(c: ShipClass) -> u64 {
    u53_to_f64_bits(class_code(spec_translate_class(c)) as u64)
}

/// The radar block of the outbound state.
pub open spec fn radar_updates(s: Seq<u64>, radar: RadarIn) -> Seq<u64> {
    let s1 = s.update(RADAR_HEADING as int, radar.heading).update(
        RADAR_WIDTH as int,
        radar.width,
    ).update(RADAR_MIN_DISTANCE as int, radar.min_distance).update(
        RADAR_MAX_DISTANCE as int,
        radar.max_distance,
    );
    match radar.contact {
        Some(c) => s1.update(RADAR_CONTACT_FOUND as int, u53_to_f64_bits(1)).update(
            RADAR_CONTACT_POSITION_X as int,
            c.position_x,
        ).update(RADAR_CONTACT_POSITION_Y as int, c.position_y).update(
            RADAR_CONTACT_VELOCITY_X as int,
            c.velocity_x,
        ).update(RADAR_CONTACT_VELOCITY_Y as int, c.velocity_y).update(
            RADAR_CONTACT_CLASS as int,
            class_bits(c.class),
        ),
        None => s1.update(RADAR_CONTACT_FOUND as int, 0),
    }
}

/// The tracked-target block: contact position and velocity only; the
/// contact-found flag is deliberately left alone, as the guest-visible
/// contract has it.
pub open spec fn target_updates(s: Seq<u64>, t: TargetIn) -> Seq<u64> {
    s.update(RADAR_CONTACT_POSITION_X as int, t.position_x).update(
        RADAR_CONTACT_POSITION_Y as int,
        t.position_y,
    ).update(RADAR_CONTACT_VELOCITY_X as int, t.velocity_x).update(
        RADAR_CONTACT_VELOCITY_Y as int,
        t.velocity_y,
    )
}

/// The slot block of radio `i`: channel, receive flag and data words,
/// and the send flag cleared.
pub open spec fn radio_updates_one(s: Seq<u64>, i: int, r: RadioIn) -> Seq<u64> {
    let s1 = s.update(radio_channel_slot(i), u53_to_f64_bits(r.channel as u64));
    let s2 = match r.received {
        Some(m) => s1.update(radio_receive_slot(i), u53_to_f64_bits(1)).update(
            radio_data_slot(i, 0),
            m.data0,
        ).update(radio_data_slot(i, 1), m.data1).update(radio_data_slot(i, 2), m.data2).update(
            radio_data_slot(i, 3),
            m.data3,
        ),
        None => s1.update(radio_receive_slot(i), 0),
    };
    s2.update(radio_send_slot(i), 0)
}

/// The radio blocks from index `i` on.
pub open spec fn radio_updates(s: Seq<u64>, radios: Seq<RadioIn>, i: int) -> Seq<u64>
    decreases radios.len() - i,
{
    if i < 0 || i >= radios.len() {
        s
    } else {
        radio_updates(radio_updates_one(s, i, radios[i]), radios, i + 1)
    }
}

/// The whole outbound state, as one update chain over the previous mirror.
pub open spec fn generate_spec(s: Seq<u64>, inp: &ShipInputs) -> Seq<u64> {
    let s1 = s.update(CLASS as int, class_bits(inp.class)).update(
        POSITION_X as int,
        inp.position_x,
    ).update(POSITION_Y as int, inp.position_y).update(VELOCITY_X as int, inp.velocity_x).update(
        VELOCITY_Y as int,
        inp.velocity_y,
    ).update(HEADING as int, inp.heading).update(ANGULAR_VELOCITY as int, inp.angular_velocity);
    let s2 = match inp.radar {
        Some(r) => radar_updates(s1, r),
        None => match inp.target {
            Some(t) => target_updates(s1, t),
            None => s1,
        },
    };
    let s3 = s2.update(MAX_FORWARD_ACCELERATION as int, inp.max_forward_acceleration).update(
        MAX_BACKWARD_ACCELERATION as int,
        inp.max_backward_acceleration,
    ).update(MAX_LATERAL_ACCELERATION as int, inp.max_lateral_acceleration).update(
        MAX_ANGULAR_ACCELERATION as int,
        inp.max_angular_acceleration,
    );
    let s4 = radio_updates(s3, inp.radios@, 0);
    s4.update(CURRENT_TICK as int, u53_to_f64_bits(inp.tick))
}

/// Radio updates preserve length.
pub proof fn lemma_radio_updates_len(s: Seq<u64>, radios: Seq<RadioIn>, i: int)
    requires
        s.len() == SYSTEM_STATE_SIZE,
        radios.len() <= NUM_RADIOS,
        0 <= i,
    ensures
        radio_updates(s, radios, i).len() == s.len(),
    decreases radios.len() - i,
{
    if i < radios.len() {
        lemma_radio_updates_len(radio_updates_one(s, i, radios[i]), radios, i + 1);
    }
}

/// Radio updates touch only the radio blocks: every slot below
/// `RADIO_BASE` keeps its value.
pub proof fn lemma_radio_updates_frame(s: Seq<u64>, radios: Seq<RadioIn>, i: int)
    requires
        s.len() == SYSTEM_STATE_SIZE,
        radios.len() <= NUM_RADIOS,
        0 <= i,
    ensures
        radio_updates(s, radios, i).len() == s.len(),
        forall|j: int|
            0 <= j < RADIO_BASE ==> (#[trigger] radio_updates(s, radios, i)[j]) == s[j],
    decreases radios.len() - i,
{
    lemma_radio_updates_len(s, radios, i);
    if i < radios.len() {
        let s1 = radio_updates_one(s, i, radios[i]);
        assert forall|j: int| 0 <= j < RADIO_BASE implies s1[j] == s[j] by {
            assert(radio_channel_slot(i) >= RADIO_BASE);
            assert(radio_receive_slot(i) >= RADIO_BASE);
            assert(radio_send_slot(i) >= RADIO_BASE);
            assert(radio_data_slot(i, 0) >= RADIO_BASE);
            assert(radio_data_slot(i, 1) >= RADIO_BASE);
            assert(radio_data_slot(i, 2) >= RADIO_BASE);
            assert(radio_data_slot(i, 3) >= RADIO_BASE);
        };
        lemma_radio_updates_frame(s1, radios, i + 1);
        assert forall|j: int| 0 <= j < RADIO_BASE implies radio_updates(s, radios, i)[j]
            == s[j] by {
            assert(radio_updates(s, radios, i) == radio_updates(s1, radios, i + 1));
            assert(radio_updates(s1, radios, i + 1)[j] == s1[j]);
        };
    }
}

/// The outbound state never touches the command slots: what the guest left
/// in them is preserved for the inbound pass.
pub proof fn lemma_generate_preserves_commands(s: Seq<u64>, inp: &ShipInputs)
    requires
        s.len() == SYSTEM_STATE_SIZE,
        wf_inputs(inp),
    ensures
        generate_spec(s, inp).len() == SYSTEM_STATE_SIZE,
        generate_spec(s, inp)[ACCELERATE_X as int] == s[ACCELERATE_X as int],
        generate_spec(s, inp)[ACCELERATE_Y as int] == s[ACCELERATE_Y as int],
        generate_spec(s, inp)[TORQUE as int] == s[TORQUE as int],
        generate_spec(s, inp)[FIRE0 as int] == s[FIRE0 as int],
        generate_spec(s, inp)[FIRE0 + 1] == s[FIRE0 + 1],
        generate_spec(s, inp)[FIRE0 + 2] == s[FIRE0 + 2],
        generate_spec(s, inp)[FIRE0 + 3] == s[FIRE0 + 3],
        generate_spec(s, inp)[AIM0 as int] == s[AIM0 as int],
        generate_spec(s, inp)[AIM0 + 1] == s[AIM0 + 1],
        generate_spec(s, inp)[AIM0 + 2] == s[AIM0 + 2],
        generate_spec(s, inp)[AIM0 + 3] == s[AIM0 + 3],
        generate_spec(s, inp)[EXPLODE as int] == s[EXPLODE as int],
        generate_spec(s, inp)[ACTIVATE_ABILITY as int] == s[ACTIVATE_ABILITY as int],
{
    let s1 = s.update(CLASS as int, class_bits(inp.class)).update(
        POSITION_X as int,
        inp.position_x,
    ).update(POSITION_Y as int, inp.position_y).update(VELOCITY_X as int, inp.velocity_x).update(
        VELOCITY_Y as int,
        inp.velocity_y,
    ).update(HEADING as int, inp.heading).update(ANGULAR_VELOCITY as int, inp.angular_velocity);
    let s2 = match inp.radar {
        Some(r) => radar_updates(s1, r),
        None => match inp.target {
            Some(t) => target_updates(s1, t),
            None => s1,
        },
    };
    let s3 = s2.update(MAX_FORWARD_ACCELERATION as int, inp.max_forward_acceleration).update(
        MAX_BACKWARD_ACCELERATION as int,
        inp.max_backward_acceleration,
    ).update(MAX_LATERAL_ACCELERATION as int, inp.max_lateral_acceleration).update(
        MAX_ANGULAR_ACCELERATION as int,
        inp.max_angular_acceleration,
    );
    lemma_radio_updates_frame(s3, inp.radios@, 0);
}

/// Fills the mirror with the outbound state for this tick. The result is
/// exactly the update chain of `generate_spec`; the command slots are left
/// as they were.
pub fn generate_system_state(inputs: &ShipInputs, state: &mut LocalSystemState)
    requires
        old(state).wf(),
        wf_inputs(inputs),
    ensures
        final(state).wf(),
        final(state).slots() == generate_spec(old(state).slots(), inputs),
        final(state).slots()[ACCELERATE_X as int] == old(state).slots()[ACCELERATE_X as int],
        final(state).slots()[ACCELERATE_Y as int] == old(state).slots()[ACCELERATE_Y as int],
        final(state).slots()[TORQUE as int] == old(state).slots()[TORQUE as int],
        final(state).slots()[FIRE0 as int] == old(state).slots()[FIRE0 as int],
        final(state).slots()[FIRE0 + 1] == old(state).slots()[FIRE0 + 1],
        final(state).slots()[FIRE0 + 2] == old(state).slots()[FIRE0 + 2],
        final(state).slots()[FIRE0 + 3] == old(state).slots()[FIRE0 + 3],
        final(state).slots()[EXPLODE as int] == old(state).slots()[EXPLODE as int],
{
    let class: u32 = class_code_of(translate_class(inputs.class));
    let cb: u64 = small_to_f64_bits(class as u64);
    state.set(CLASS, cb);
    state.set(POSITION_X, inputs.position_x);
    state.set(POSITION_Y, inputs.position_y);
    state.set(VELOCITY_X, inputs.velocity_x);
    state.set(VELOCITY_Y, inputs.velocity_y);
    state.set(HEADING, inputs.heading);
    state.set(ANGULAR_VELOCITY, inputs.angular_velocity);
    match &inputs.radar {
        Some(radar) => {
            state.set(RADAR_HEADING, radar.heading);
            state.set(RADAR_WIDTH, radar.width);
            state.set(RADAR_MIN_DISTANCE, radar.min_distance);
            state.set(RADAR_MAX_DISTANCE, radar.max_distance);
            match &radar.contact {
                Some(c) => {
                    let one: u64 = small_to_f64_bits(1);
                    state.set(RADAR_CONTACT_FOUND, one);
                    state.set(RADAR_CONTACT_POSITION_X, c.position_x);
                    state.set(RADAR_CONTACT_POSITION_Y, c.position_y);
                    state.set(RADAR_CONTACT_VELOCITY_X, c.velocity_x);
                    state.set(RADAR_CONTACT_VELOCITY_Y, c.velocity_y);
                    let ccls: u32 = class_code_of(translate_class(c.class));
                    let ccb: u64 = small_to_f64_bits(ccls as u64);
                    state.set(RADAR_CONTACT_CLASS, ccb);
                },
                None => {
                    state.set(RADAR_CONTACT_FOUND, 0);
                },
            }
        },
        None => {
            match &inputs.target {
                Some(t) => {
                    state.set(RADAR_CONTACT_POSITION_X, t.position_x);
                    state.set(RADAR_CONTACT_POSITION_Y, t.position_y);
                    state.set(RADAR_CONTACT_VELOCITY_X, t.velocity_x);
                    state.set(RADAR_CONTACT_VELOCITY_Y, t.velocity_y);
                },
                None => {},
            }
        },
    }
    state.set(MAX_FORWARD_ACCELERATION, inputs.max_forward_acceleration);
    state.set(MAX_BACKWARD_ACCELERATION, inputs.max_backward_acceleration);
    state.set(MAX_LATERAL_ACCELERATION, inputs.max_lateral_acceleration);
    state.set(MAX_ANGULAR_ACCELERATION, inputs.max_angular_acceleration);
    let ghost s3 = state.slots();
    let mut k: usize = 0;
    while k < inputs.radios.len()
        invariant
            state.wf(),
            k <= inputs.radios@.len(),
            inputs.radios@.len() <= NUM_RADIOS,
            s3.len() == SYSTEM_STATE_SIZE,
            radio_updates(s3, inputs.radios@, 0) == radio_updates(
                state.slots(),
                inputs.radios@,
                k as int,
            ),
        decreases inputs.radios@.len() - k,
    {
        let radio: RadioIn = inputs.radios[k];
        let ghost before = state.slots();
        let ci: usize = radio_channel_index(k);
        let chan_bits: u64 = small_to_f64_bits(radio.channel as u64);
        state.set(ci, chan_bits);
        match radio.received {
            Some(m) => {
                let one: u64 = small_to_f64_bits(1);
                state.set(radio_receive_index(k), one);
                state.set(radio_data_index(k, 0), m.data0);
                state.set(radio_data_index(k, 1), m.data1);
                state.set(radio_data_index(k, 2), m.data2);
                state.set(radio_data_index(k, 3), m.data3);
            },
            None => {
                state.set(radio_receive_index(k), 0);
            },
        }
        state.set(radio_send_index(k), 0);
        proof {
            assert(state.slots() =~= radio_updates_one(before, k as int, inputs.radios@[k as int]));
        }
        k += 1;
    }
    let tick_bits: u64 = small_to_f64_bits(inputs.tick);
    state.set(CURRENT_TICK, tick_bits);
    proof {
        assert(state.slots() =~= generate_spec(old(state).slots(), inputs));
        lemma_generate_preserves_commands(old(state).slots(), inputs);
    }
}

// ---------------------------------------------------------------------
// Inbound: reading commands back out of the mirror.
/// The screened read of slot `i`.
pub open spec fn slot_read(s: Seq<u64>, i: int) -> u64 {
    sanitize_bits(s[i])
}

/// One weapon-group command: the group index, and the aim angle applied
/// just before firing.
#[derive(Clone, Copy, Debug, PartialEq, Eq, Structural)]
pub struct FireCommand {
    pub group: u8,
    pub aim: u64,
}

/// The radar settings a guest wrote back.
#[derive(Clone, Copy, Debug, PartialEq, Eq, Structural)]
pub struct RadarCommand {
    pub heading: u64,
    pub width: u64,
    pub min_distance: u64,
    pub max_distance: u64,
}

/// One radio's command: the channel to select, and a message to publish
/// if the send flag was set.
#[derive(Clone, Copy, Debug, PartialEq, Eq, Structural)]
pub struct RadioCommand {
    pub channel: u64,
    pub sent: Option<RadioMessage>,
}

/// Everything the inbound pass tells the simulation to do for one ship.
pub struct ShipCommands {
    pub accelerate_x: u64,
    pub accelerate_y: u64,
    pub torque: u64,
    pub fires: Vec<FireCommand>,
    pub radar: Option<RadarCommand>,
    pub ability: Option<Ability>,
    pub explode: bool,
    pub radios: Vec<RadioCommand>,
}

/// The fire commands among groups `0..k`: group `g` fires exactly when its
/// fire slot reads positive, and its aim is the aim slot's screened value.
pub open spec fn fire_taken(s: Seq<u64>, k: int) -> Seq<FireCommand>
    decreases k,
{
    if k <= 0 {
        Seq::empty()
    } else {
        fire_taken(s, k - 1) + (if f64_is_pos(slot_read(s, FIRE0 + (k - 1))) {
            seq![(FireCommand { group: (k - 1) as u8, aim: slot_read(s, AIM0 + (k - 1)) })]
        } else {
            Seq::empty()
        })
    }
}

/// The fire slots of groups `0..k` zeroed, where they fired.
pub open spec fn fire_zero_updates(s: Seq<u64>, k: int) -> Seq<u64>
    decreases k,
{
    if k <= 0 {
        s
    } else {
        let s1 = fire_zero_updates(s, k - 1);
        if f64_is_pos(slot_read(s, FIRE0 + (k - 1))) {
            s1.update(FIRE0 + (k - 1), 0)
        } else {
            s1
        }
    }
}

/// Zeroing fire slots touches only them.
pub proof fn lemma_fire_zero_frame(s: Seq<u64>, k: int)
    requires
        s.len() == SYSTEM_STATE_SIZE,
        0 <= k <= 4,
    ensures
        fire_zero_updates(s, k).len() == s.len(),
        forall|j: int|
            0 <= j < s.len() && !(FIRE0 <= j < FIRE0 + k) ==> (#[trigger] fire_zero_updates(
                s,
                k,
            )[j]) == s[j],
    decreases k,
{
    if k > 0 {
        lemma_fire_zero_frame(s, k - 1);
    }
}

/// The ability command: the slot translated, with "no ability" meaning no
/// command at all.
pub open spec fn ability_command(s: Seq<u64>) -> Option<Ability> {
    match spec_translate_ability(slot_read(s, ACTIVATE_ABILITY as int)) {
        Some(a) => if a == Ability::Idle {
            None
        } else {
            Some(a)
        },
        None => None,
    }
}

/// The command of radio `i`.
pub open spec fn radio_cmd(s: Seq<u64>, i: int) -> RadioCommand {
    RadioCommand {
        channel: f64_bits_trunc_u64(slot_read(s, radio_channel_slot(i))),
        sent: if f64_is_nonzero(slot_read(s, radio_send_slot(i))) {
            Some(
                RadioMessage {
                    data0: slot_read(s, radio_data_slot(i, 0)),
                    data1: slot_read(s, radio_data_slot(i, 1)),
                    data2: slot_read(s, radio_data_slot(i, 2)),
                    data3: slot_read(s, radio_data_slot(i, 3)),
                },
            )
        } else {
            None
        },
    }
}

/// The commands of radios `0..n`.
pub open spec fn radio_cmd_seq(s: Seq<u64>, n: int) -> Seq<RadioCommand>
    decreases n,
{
    if n <= 0 {
        Seq::empty()
    } else {
        radio_cmd_seq(s, n - 1) + seq![(radio_cmd(s, n - 1))]
    }
}

/// There is one command per radio.
pub proof fn lemma_radio_cmd_seq_len(s: Seq<u64>, n: int)
    requires
        0 <= n,
    ensures
        radio_cmd_seq(s, n).len() == n,
    decreases n,
{
    if n > 0 {
        lemma_radio_cmd_seq_len(s, n - 1);
    }
}

/// The mirror after the inbound pass: acceleration, torque, fired groups
/// and a positive explode slot are zeroed; everything else is untouched.
pub open spec fn apply_post(s: Seq<u64>) -> Seq<u64> {
    let s1 = s.update(ACCELERATE_X as int, 0).update(ACCELERATE_Y as int, 0).update(
        TORQUE as int,
        0,
    );
    let s2 = fire_zero_updates(s1, 4);
    if f64_is_pos(slot_read(s, EXPLODE as int)) {
        s2.update(EXPLODE as int, 0)
    } else {
        s2
    }
}

/// After the inbound pass the command slots are spent: a second pass on
/// the resulting mirror commands no acceleration, no torque, no fire and
/// no explosion. This is what makes commands one-shot across ticks.
pub proof fn lemma_apply_clears_commands(s: Seq<u64>)
    requires
        s.len() == SYSTEM_STATE_SIZE,
    ensures
        apply_post(s).len() == SYSTEM_STATE_SIZE,
        slot_read(apply_post(s), ACCELERATE_X as int) == 0,
        slot_read(apply_post(s), ACCELERATE_Y as int) == 0,
        slot_read(apply_post(s), TORQUE as int) == 0,
        fire_taken(apply_post(s), 4) == Seq::<FireCommand>::empty(),
        !f64_is_pos(slot_read(apply_post(s), EXPLODE as int)),
{
    let s1 = s.update(ACCELERATE_X as int, 0u64).update(ACCELERATE_Y as int, 0u64).update(
        TORQUE as int,
        0u64,
    );
    lemma_fire_zero_frame(s1, 4);
    let s2 = fire_zero_updates(s1, 4);
    let p = apply_post(s);
    assert(p == (if f64_is_pos(slot_read(s, EXPLODE as int)) {
        s2.update(EXPLODE as int, 0u64)
    } else {
        s2
    }));
    assert(s2[ACCELERATE_X as int] == 0 && s2[ACCELERATE_Y as int] == 0 && s2[TORQUE as int]
        == 0);
    assert(p[ACCELERATE_X as int] == 0 && p[ACCELERATE_Y as int] == 0 && p[TORQUE as int] == 0);
    assert(sanitize_bits(0) == 0);
    if f64_is_pos(slot_read(s, EXPLODE as int)) {
        assert(p[EXPLODE as int] == 0);
    } else {
        assert(p[EXPLODE as int] == s2[EXPLODE as int]);
        assert(s2[EXPLODE as int] == s1[EXPLODE as int]);
        assert(s1[EXPLODE as int] == s[EXPLODE as int]);
    }
    lemma_fire_zero_value(s1, 0, 4);
    lemma_fire_zero_value(s1, 1, 4);
    lemma_fire_zero_value(s1, 2, 4);
    lemma_fire_zero_value(s1, 3, 4);
    assert(!f64_is_pos(slot_read(p, FIRE0 as int)));
    assert(!f64_is_pos(slot_read(p, FIRE0 + 1)));
    assert(!f64_is_pos(slot_read(p, FIRE0 + 2)));
    assert(!f64_is_pos(slot_read(p, FIRE0 + 3)));
    assert(fire_taken(p, 4) =~= Seq::<FireCommand>::empty()) by {
        assert(fire_taken(p, 0) =~= Seq::<FireCommand>::empty());
        assert(fire_taken(p, 1) =~= Seq::<FireCommand>::empty());
        assert(fire_taken(p, 2) =~= Seq::<FireCommand>::empty());
        assert(fire_taken(p, 3) =~= Seq::<FireCommand>::empty());
    };
}

/// A fired group's slot is zeroed by the zeroing pass; an unfired one is
/// untouched.
pub proof fn lemma_fire_zero_value(s1: Seq<u64>, k: int, m: int)
    requires
        s1.len() == SYSTEM_STATE_SIZE,
        0 <= k < m <= 4,
    ensures
        fire_zero_updates(s1, m)[FIRE0 + k] == (if f64_is_pos(slot_read(s1, FIRE0 + k)) {
            0u64
        } else {
            s1[FIRE0 + k]
        }),
    decreases m,
{
    lemma_fire_zero_frame(s1, m);
    if m == k + 1 {
        lemma_fire_zero_frame(s1, k);
    } else {
        lemma_fire_zero_value(s1, k, m - 1);
        lemma_fire_zero_frame(s1, m - 1);
    }
}

/// Reads the commands out of the mirror and spends the command slots.
/// Every numeric field of the result is a screened pattern, so it is
/// finite; fire groups appear in ascending order, each at most once.
pub fn apply_system_state(state: &mut LocalSystemState, inputs: &ShipInputs) -> (r: ShipCommands)
    requires
        old(state).wf(),
        wf_inputs(inputs),
    ensures
        final(state).wf(),
        final(state).slots() == apply_post(old(state).slots()),
        r.accelerate_x == slot_read(old(state).slots(), ACCELERATE_X as int),
        r.accelerate_y == slot_read(old(state).slots(), ACCELERATE_Y as int),
        r.torque == slot_read(old(state).slots(), TORQUE as int),
        r.fires@ == fire_taken(old(state).slots(), 4),
        r.fires@.len() <= 4,
        r.radar is Some <==> inputs.radar is Some,
        r.radar matches Some(rc) ==> rc == (RadarCommand {
            heading: slot_read(old(state).slots(), RADAR_HEADING as int),
            width: slot_read(old(state).slots(), RADAR_WIDTH as int),
            min_distance: slot_read(old(state).slots(), RADAR_MIN_DISTANCE as int),
            max_distance: slot_read(old(state).slots(), RADAR_MAX_DISTANCE as int),
        }),
        r.ability == ability_command(old(state).slots()),
        r.explode == f64_is_pos(slot_read(old(state).slots(), EXPLODE as int)),
        r.radios@ == radio_cmd_seq(old(state).slots(), inputs.radios@.len() as int),
        r.radios@.len() == inputs.radios@.len(),
        f64_is_finite(r.accelerate_x) && f64_is_finite(r.accelerate_y) && f64_is_finite(
            r.torque,
        ),
        forall|i: int| 0 <= i < r.fires@.len() ==> f64_is_finite(#[trigger] r.fires@[i].aim),
{
    let ghost s0 = state.slots();
    let accelerate_x: u64 = state.get(ACCELERATE_X);
    let accelerate_y: u64 = state.get(ACCELERATE_Y);
    state.set(ACCELERATE_X, 0);
    state.set(ACCELERATE_Y, 0);
    let torque: u64 = state.get(TORQUE);
    state.set(TORQUE, 0);
    let ghost s1 = state.slots();
    let mut fires: Vec<FireCommand> = Vec::new();
    let mut k: usize = 0;
    while k < 4
        invariant
            state.wf(),
            k <= 4,
            s0.len() == SYSTEM_STATE_SIZE,
            s1 == s0.update(ACCELERATE_X as int, 0u64).update(ACCELERATE_Y as int, 0u64).update(
                TORQUE as int,
                0u64,
            ),
            state.slots() == fire_zero_updates(s1, k as int),
            fires@ == fire_taken(s0, k as int),
        decreases 4 - k,
    {
        proof {
            lemma_fire_zero_frame(s1, k as int);
            assert(state.slots()[FIRE0 + k] == s1[FIRE0 + k]);
            assert(state.slots()[AIM0 + k] == s1[AIM0 + k]);
        }
        let fire: u64 = state.get(FIRE0 + k);
        if bits_pos(fire) {
            let aim: u64 = state.get(AIM0 + k);
            fires.push(FireCommand { group: k as u8, aim });
            state.set(FIRE0 + k, 0);
            proof {
                assert(f64_is_pos(slot_read(s1, FIRE0 + k as int)));
                assert(slot_read(s1, FIRE0 + k as int) == slot_read(s0, FIRE0 + k as int));
            }
        } else {
            proof {
                assert(!f64_is_pos(slot_read(s0, FIRE0 + k as int)));
            }
        }
        proof {
            assert(fires@ =~= fire_taken(s0, k + 1));
            assert(state.slots() =~= fire_zero_updates(s1, k + 1));
        }
        k += 1;
    }
    let radar: Option<RadarCommand> = match &inputs.radar {
        Some(_) => {
            proof {
                lemma_fire_zero_frame(s1, 4);
            }
            Some(
                RadarCommand {
                    heading: state.get(RADAR_HEADING),
                    width: state.get(RADAR_WIDTH),
                    min_distance: state.get(RADAR_MIN_DISTANCE),
                    max_distance: state.get(RADAR_MAX_DISTANCE),
                },
            )
        },
        None => None,
    };
    proof {
        lemma_fire_zero_frame(s1, 4);
    }
    let ability_slot: u64 = state.get(ACTIVATE_ABILITY);
    let ability: Option<Ability> = match translate_ability(ability_slot) {
        Some(a) => {
            if a == Ability::Idle {
                None
            } else {
                Some(a)
            }
        },
        None => None,
    };
    let explode_slot: u64 = state.get(EXPLODE);
    let explode: bool = bits_pos(explode_slot);
    if explode {
        state.set(EXPLODE, 0);
    }
    let ghost s3 = state.slots();
    proof {
        lemma_fire_zero_frame(s1, 4);
        assert forall|j: int| RADIO_BASE <= j < SYSTEM_STATE_SIZE implies s3[j] == s0[j] by {
            assert(fire_zero_updates(s1, 4)[j] == s1[j]);
            assert(s1[j] == s0[j]);
        };
    }
    let mut radios: Vec<RadioCommand> = Vec::new();
    let mut i: usize = 0;
    while i < inputs.radios.len()
        invariant
            state.wf(),
            i <= inputs.radios@.len(),
            inputs.radios@.len() <= NUM_RADIOS,
            s0.len() == SYSTEM_STATE_SIZE,
            state.slots() == s3,
            s3.len() == SYSTEM_STATE_SIZE,
            forall|j: int| RADIO_BASE <= j < SYSTEM_STATE_SIZE ==> s3[j] == s0[j],
            radios@ == radio_cmd_seq(s0, i as int),
        decreases inputs.radios@.len() - i,
    {
        let channel: u64 = bits_trunc_u64(state.get(radio_channel_index(i)));
        let send: u64 = state.get(radio_send_index(i));
        let sent: Option<RadioMessage> = if bits_nonzero(send) {
            Some(
                RadioMessage {
                    data0: state.get(radio_data_index(i, 0)),
                    data1: state.get(radio_data_index(i, 1)),
                    data2: state.get(radio_data_index(i, 2)),
                    data3: state.get(radio_data_index(i, 3)),
                },
            )
        } else {
            None
        };
        radios.push(RadioCommand { channel, sent });
        proof {
            assert(radios@ =~= radio_cmd_seq(s0, i + 1));
        }
        i += 1;
    }
    proof {
        lemma_fire_zero_frame(s1, 4);
        assert(explode == f64_is_pos(slot_read(s0, EXPLODE as int)));
        assert(state.slots() == (if explode {
            fire_zero_updates(s1, 4).update(EXPLODE as int, 0u64)
        } else {
            fire_zero_updates(s1, 4)
        }));
        assert(state.slots() =~= apply_post(s0));
        lemma_fire_taken_finite(s0, 4);
        crate::ieee::lemma_sanitize_idempotent(s0[ACCELERATE_X as int]);
        crate::ieee::lemma_sanitize_idempotent(s0[ACCELERATE_Y as int]);
        crate::ieee::lemma_sanitize_idempotent(s0[TORQUE as int]);
        lemma_radio_cmd_seq_len(s0, inputs.radios@.len() as int);
        lemma_fire_taken_len(s0, 4);
    }
    ShipCommands { accelerate_x, accelerate_y, torque, fires, radar, ability, explode, radios }
}


/// Fire commands depend only on the fire and aim slots.
proof fn lemma_fire_taken_congruence(s1: Seq<u64>, s2: Seq<u64>)
    requires
        s1[FIRE0 as int] == s2[FIRE0 as int],
        s1[FIRE0 + 1] == s2[FIRE0 + 1],
        s1[FIRE0 + 2] == s2[FIRE0 + 2],
        s1[FIRE0 + 3] == s2[FIRE0 + 3],
        s1[AIM0 as int] == s2[AIM0 as int],
        s1[AIM0 + 1] == s2[AIM0 + 1],
        s1[AIM0 + 2] == s2[AIM0 + 2],
        s1[AIM0 + 3] == s2[AIM0 + 3],
    ensures
        fire_taken(s1, 4) == fire_taken(s2, 4),
{
    assert(fire_taken(s1, 0) == fire_taken(s2, 0));
    assert(fire_taken(s1, 1) == fire_taken(s2, 1));
    assert(fire_taken(s1, 2) == fire_taken(s2, 2));
    assert(fire_taken(s1, 3) == fire_taken(s2, 3));
    assert(fire_taken(s1, 4) == fire_taken(s2, 4));
}

/// Command slots are one-shot across ticks: the inbound pass spends
/// them, and the next outbound pass leaves them spent. A guest that does
/// not write them again commands no acceleration, no torque, no fire and
/// no explosion on the following tick, whatever else the host wrote.
pub proof fn lemma_no_duplicate_commands(m: Seq<u64>, inp: &ShipInputs)
    requires
        m.len() == SYSTEM_STATE_SIZE,
        wf_inputs(inp),
    ensures
        slot_read(generate_spec(apply_post(m), inp), ACCELERATE_X as int) == 0,
        slot_read(generate_spec(apply_post(m), inp), ACCELERATE_Y as int) == 0,
        slot_read(generate_spec(apply_post(m), inp), TORQUE as int) == 0,
        fire_taken(generate_spec(apply_post(m), inp), 4) == Seq::<FireCommand>::empty(),
        !f64_is_pos(slot_read(generate_spec(apply_post(m), inp), EXPLODE as int)),
{
    lemma_apply_clears_commands(m);
    let p = apply_post(m);
    let g = generate_spec(p, inp);
    lemma_generate_preserves_commands(p, inp);
    lemma_fire_taken_congruence(g, p);
}

/// At most one fire command per group.
pub proof fn lemma_fire_taken_len(s: Seq<u64>, k: int)
    requires
        0 <= k <= 4,
    ensures
        fire_taken(s, k).len() <= k,
    decreases k,
{
    if k > 0 {
        lemma_fire_taken_len(s, k - 1);
    }
}

/// Every aim in the fire commands is a screened pattern, hence finite.
pub proof fn lemma_fire_taken_finite(s: Seq<u64>, k: int)
    requires
        0 <= k <= 4,
    ensures
        forall|i: int|
            0 <= i < fire_taken(s, k).len() ==> f64_is_finite(#[trigger] fire_taken(s, k)[i].aim),
    decreases k,
{
    if k > 0 {
        lemma_fire_taken_finite(s, k - 1);
        crate::ieee::lemma_sanitize_idempotent(s[AIM0 + (k - 1)]);
        let pre = fire_taken(s, k - 1);
        let whole = fire_taken(s, k);
        assert forall|i: int| 0 <= i < whole.len() implies f64_is_finite(
            #[trigger] whole[i].aim,
        ) by {
            if i < pre.len() {
                assert(whole[i] == pre[i]);
            } else {
                assert(whole[i].aim == slot_read(s, AIM0 + (k - 1)));
            }
        };
    }
}

} // verus!
