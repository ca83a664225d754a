use oort_vm::ieee;
use oort_vm::marshal::{
    apply_system_state, generate_system_state, RadioIn, RadioMessage, ShipInputs,
};
use oort_vm::state::{
    LocalSystemState, ACCELERATE_X, ACCELERATE_Y, AIM1, CURRENT_TICK, EXPLODE, FIRE1, FIRE2,
    HEADING, POSITION_X, POSITION_Y, RADIO_BASE, SYSTEM_STATE_SIZE, TORQUE, VELOCITY_X,
};
use oort_vm::translate::{
    translate_ability, translate_class, Ability, Class, ShipClass,
};

fn base_inputs() -> ShipInputs {
    ShipInputs {
        class: ShipClass::Fighter,
        position_x: 0,
        position_y: 0,
        velocity_x: 0,
        velocity_y: 0,
        heading: 0,
        angular_velocity: 0,
        radar: None,
        target: None,
        max_forward_acceleration: 0,
        max_backward_acceleration: 0,
        max_lateral_acceleration: 0,
        max_angular_acceleration: 0,
        radios: Vec::new(),
        tick: 0,
    }
}

// The bit-pattern model matches the hardware's doubles.
#[test]
fn finite_test_matches_hardware() {
    assert!(ieee::bits_finite(1.5f64.to_bits()));
    assert!(ieee::bits_finite(0.0f64.to_bits()));
    assert!(ieee::bits_finite((-0.0f64).to_bits()));
    assert!(!ieee::bits_finite(f64::NAN.to_bits()));
    assert!(!ieee::bits_finite(f64::INFINITY.to_bits()));
    assert!(!ieee::bits_finite(f64::NEG_INFINITY.to_bits()));
}

#[test]
fn trunc_matches_hardware_casts() {
    for v in [
        0.0f64,
        0.5,
        1.0,
        1.99,
        2.0,
        1e9,
        4294967296.0,
        1e18,
        -3.7,
        -0.0,
        f64::NAN,
        -f64::NAN,
        f64::INFINITY,
        f64::NEG_INFINITY,
    ] {
        assert_eq!(ieee::bits_trunc_u64(v.to_bits()), v as u64, "u64 cast of {v}");
        assert_eq!(ieee::bits_trunc_u32(v.to_bits()), v as u32, "u32 cast of {v}");
    }
}

#[test]
fn small_int_conversion_matches_hardware() {
    for v in [0u64, 1, 2, 7, 127, 1024, 16777215, 1 << 40, (1 << 53) - 1] {
        assert_eq!(ieee::small_to_f64_bits(v), (v as f64).to_bits(), "f64 of {v}");
    }
}

#[test]
fn positivity_tests_match_hardware() {
    assert!(ieee::bits_pos(1.0f64.to_bits()));
    assert!(!ieee::bits_pos(0.0f64.to_bits()));
    assert!(!ieee::bits_pos((-0.0f64).to_bits()));
    assert!(!ieee::bits_pos((-2.0f64).to_bits()));
    assert!(ieee::bits_nonzero((-2.0f64).to_bits()));
    assert!(!ieee::bits_nonzero((-0.0f64).to_bits()));
    assert!(!ieee::bits_nonzero(0.0f64.to_bits()));
}

// NaN/infinity hygiene: any non-finite slot reads as zero.
#[test]
fn non_finite_slots_read_as_zero() {
    let mut st = LocalSystemState::new();
    st.set(TORQUE, f64::NAN.to_bits());
    assert_eq!(st.get(TORQUE), 0);
    st.set(TORQUE, f64::INFINITY.to_bits());
    assert_eq!(st.get(TORQUE), 0);
    st.set(TORQUE, 2.5f64.to_bits());
    assert_eq!(st.get(TORQUE), 2.5f64.to_bits());
}

// Fire-and-zero: the guest set Aim1 and Fire1; the host aims group 1,
// fires group 1, and the fire slot is spent.
#[test]
fn fire_and_zero() {
    let mut st = LocalSystemState::new();
    st.set(AIM1, 1.57f64.to_bits());
    st.set(FIRE1, 1.0f64.to_bits());
    let inputs = base_inputs();
    let commands = apply_system_state(&mut st, &inputs);
    assert_eq!(commands.fires.len(), 1);
    assert_eq!(commands.fires[0].group, 1);
    assert_eq!(commands.fires[0].aim, 1.57f64.to_bits());
    assert_eq!(st.get(FIRE1), 0);
    assert_eq!(st.get(AIM1), 1.57f64.to_bits());
}

// A state with no command slots set commands nothing, and a second
// inbound pass after the first still commands nothing.
#[test]
fn command_slots_are_one_shot() {
    let mut st = LocalSystemState::new();
    st.set(ACCELERATE_X, 3.0f64.to_bits());
    st.set(ACCELERATE_Y, (-1.0f64).to_bits());
    st.set(TORQUE, 0.5f64.to_bits());
    st.set(FIRE2, 2.0f64.to_bits());
    st.set(EXPLODE, 1.0f64.to_bits());
    let inputs = base_inputs();
    let first = apply_system_state(&mut st, &inputs);
    assert_eq!(first.accelerate_x, 3.0f64.to_bits());
    assert_eq!(first.accelerate_y, (-1.0f64).to_bits());
    assert_eq!(first.torque, 0.5f64.to_bits());
    assert_eq!(first.fires.len(), 1);
    assert_eq!(first.fires[0].group, 2);
    assert!(first.explode);
    let second = apply_system_state(&mut st, &inputs);
    assert_eq!(second.accelerate_x, 0);
    assert_eq!(second.accelerate_y, 0);
    assert_eq!(second.torque, 0);
    assert_eq!(second.fires.len(), 0);
    assert!(!second.explode);
}

// The outbound pass fills the mirror and leaves command slots alone.
#[test]
fn outbound_state_generation() {
    let mut st = LocalSystemState::new();
    st.set(FIRE1, 1.0f64.to_bits());
    let mut inputs = base_inputs();
    inputs.position_x = 1.0f64.to_bits();
    inputs.position_y = 2.0f64.to_bits();
    inputs.velocity_x = 0.5f64.to_bits();
    inputs.heading = 0.3f64.to_bits();
    inputs.tick = 42;
    inputs.radios = vec![RadioIn { channel: 7, received: None }];
    generate_system_state(&inputs, &mut st);
    assert_eq!(st.get(POSITION_X), 1.0f64.to_bits());
    assert_eq!(st.get(POSITION_Y), 2.0f64.to_bits());
    assert_eq!(st.get(VELOCITY_X), 0.5f64.to_bits());
    assert_eq!(st.get(HEADING), 0.3f64.to_bits());
    assert_eq!(st.get(CURRENT_TICK), 42.0f64.to_bits());
    // radio 0: channel slot holds 7.0, send cleared
    assert_eq!(st.state[RADIO_BASE], 7.0f64.to_bits());
    assert_eq!(st.state[RADIO_BASE + 1], 0);
    // command slot untouched by the outbound pass
    assert_eq!(st.get(FIRE1), 1.0f64.to_bits());
}

// A received message is presented; an idle radio reads receive = 0.
#[test]
fn radio_receive_marshalling() {
    let mut st = LocalSystemState::new();
    let mut inputs = base_inputs();
    inputs.radios = vec![
        RadioIn {
            channel: 3,
            received: Some(RadioMessage {
                data0: 1.0f64.to_bits(),
                data1: 2.0f64.to_bits(),
                data2: 3.0f64.to_bits(),
                data3: 4.0f64.to_bits(),
            }),
        },
        RadioIn { channel: 9, received: None },
    ];
    generate_system_state(&inputs, &mut st);
    assert_eq!(st.state[RADIO_BASE + 2], 1.0f64.to_bits()); // receive = 1
    assert_eq!(st.state[RADIO_BASE + 3], 1.0f64.to_bits());
    assert_eq!(st.state[RADIO_BASE + 6], 4.0f64.to_bits());
    assert_eq!(st.state[RADIO_BASE + 7], 9.0f64.to_bits()); // radio 1 channel
    assert_eq!(st.state[RADIO_BASE + 9], 0); // radio 1 receive = 0
}

// The inbound pass publishes a message when the send flag is set.
#[test]
fn radio_send_marshalling() {
    let mut st = LocalSystemState::new();
    st.set(RADIO_BASE, 5.0f64.to_bits()); // channel
    st.set(RADIO_BASE + 1, 1.0f64.to_bits()); // send
    st.set(RADIO_BASE + 3, 8.5f64.to_bits());
    let mut inputs = base_inputs();
    inputs.radios = vec![RadioIn { channel: 5, received: None }];
    let commands = apply_system_state(&mut st, &inputs);
    assert_eq!(commands.radios.len(), 1);
    assert_eq!(commands.radios[0].channel, 5);
    let msg = commands.radios[0].sent.expect("message published");
    assert_eq!(msg.data0, 8.5f64.to_bits());
    assert_eq!(msg.data1, 0);
}

#[test]
fn class_translation_table() {
    assert_eq!(translate_class(ShipClass::Fighter), Class::Fighter);
    assert_eq!(translate_class(ShipClass::Frigate), Class::Frigate);
    assert_eq!(translate_class(ShipClass::Cruiser), Class::Cruiser);
    assert_eq!(translate_class(ShipClass::Asteroid), Class::Asteroid);
    assert_eq!(translate_class(ShipClass::Target), Class::Target);
    assert_eq!(translate_class(ShipClass::Missile), Class::Missile);
    assert_eq!(translate_class(ShipClass::Torpedo), Class::Torpedo);
    assert_eq!(translate_class(ShipClass::Planet), Class::Unknown);
}

#[test]
fn ability_translation_table() {
    assert_eq!(translate_ability(0.0f64.to_bits()), Some(Ability::Idle));
    assert_eq!(translate_ability(1.0f64.to_bits()), Some(Ability::Boost));
    assert_eq!(translate_ability(2.0f64.to_bits()), Some(Ability::ShapedCharge));
    assert_eq!(translate_ability(3.0f64.to_bits()), Some(Ability::Decoy));
    assert_eq!(translate_ability(4.0f64.to_bits()), Some(Ability::Shield));
    assert_eq!(translate_ability(5.0f64.to_bits()), None);
    assert_eq!(translate_ability(2.9f64.to_bits()), Some(Ability::ShapedCharge));
    // NaN casts to zero, the idle code, exactly as the saturating cast does
    assert_eq!(translate_ability(f64::NAN.to_bits()), Some(Ability::Idle));
    assert_eq!(translate_ability(f64::NEG_INFINITY.to_bits()), Some(Ability::Idle));
    assert_eq!(translate_ability(f64::INFINITY.to_bits()), None);
}

#[test]
fn seed_is_deterministic_per_ship() {
    let h1 = oort_vm::ShipHandle { index: 1, generation: 0 };
    let h2 = oort_vm::ShipHandle { index: 2, generation: 0 };
    assert_eq!(oort_vm::seed::make_seed(42, h1), oort_vm::seed::make_seed(42, h1));
    assert_ne!(oort_vm::seed::make_seed(42, h1), oort_vm::seed::make_seed(42, h2));
    let low = oort_vm::seed::seed_low24(oort_vm::seed::make_seed(42, h1));
    assert!(low < 1 << 24);
}

#[test]
fn mirror_has_fixed_size() {
    let st = LocalSystemState::new();
    assert_eq!(st.state.len(), SYSTEM_STATE_SIZE);
    assert!(st.state.iter().all(|&v| v == 0));
}
