use oort_vm::code::Code;
use oort_vm::controller::{new_team_controller, RadarInit, TeamController};
use oort_vm::marshal::{RadioIn, ShipInputs};
use oort_vm::state::{FIRE1, HEADING, POSITION_X, POSITION_Y, SEED, VELOCITY_X};
use oort_vm::translate::ShipClass;
use oort_vm::{ErrorKind, ShipHandle};

// ---------------------------------------------------------------
// A tiny WebAssembly module assembler: enough to build guests that
// export the ABI surface (memory, SYSTEM_STATE, the three functions).
const STATE_BASE: u32 = 1024;

fn leb(mut v: u32) -> Vec<u8> {
    let mut out = Vec::new();
    loop {
        let byte = (v & 0x7f) as u8;
        v >>= 7;
        if v == 0 {
            out.push(byte);
            return out;
        }
        out.push(byte | 0x80);
    }
}

fn sleb(v: i64) -> Vec<u8> {
    let mut v = v;
    let mut out = Vec::new();
    loop {
        let byte = (v & 0x7f) as u8;
        v >>= 7;
        let sign_clear = byte & 0x40 == 0;
        if (v == 0 && sign_clear) || (v == -1 && !sign_clear) {
            out.push(byte);
            return out;
        }
        out.push(byte | 0x80);
    }
}

fn section(id: u8, body: Vec<u8>) -> Vec<u8> {
    let mut out = vec![id];
    out.extend(leb(body.len() as u32));
    out.extend(body);
    out
}

fn export_entry(name: &str, kind: u8, index: u32) -> Vec<u8> {
    let mut out = leb(name.len() as u32);
    out.extend_from_slice(name.as_bytes());
    out.push(kind);
    out.extend(leb(index));
    out
}

fn func_body(instrs: Vec<u8>) -> Vec<u8> {
    let mut body = vec![0x00]; // no local declarations
    body.extend(instrs);
    body.push(0x0b); // end
    let mut out = leb(body.len() as u32);
    out.extend(body);
    out
}

fn i32_const(v: i64) -> Vec<u8> {
    let mut out = vec![0x41];
    out.extend(sleb(v));
    out
}

fn f64_const(v: f64) -> Vec<u8> {
    let mut out = vec![0x44];
    out.extend_from_slice(&v.to_le_bytes());
    out
}

fn f64_store() -> Vec<u8> {
    vec![0x39, 0x03, 0x00]
}

/// Stores `v` into `SystemState` slot `slot` of guest memory.
fn store_slot(slot: u32, v: f64) -> Vec<u8> {
    let mut out = i32_const((STATE_BASE + slot * 8) as i64);
    out.extend(f64_const(v));
    out.extend(f64_store());
    out
}

/// A module exporting the full guest ABI, with the given tick body and
/// an optional active data segment.
fn build_module(
    tick_instrs: Vec<u8>,
    with_reset_gas: bool,
    data: Option<(u32, Vec<u8>)>,
) -> Vec<u8> {
    build_module_full(STATE_BASE, tick_instrs, with_reset_gas, true, false, data)
}

fn build_module_at(
    state_base: u32,
    tick_instrs: Vec<u8>,
    with_reset_gas: bool,
    trapping_start: bool,
    data: Option<(u32, Vec<u8>)>,
) -> Vec<u8> {
    build_module_full(state_base, tick_instrs, with_reset_gas, true, trapping_start, data)
}

fn build_module_full(
    state_base: u32,
    tick_instrs: Vec<u8>,
    with_reset_gas: bool,
    with_state_export: bool,
    trapping_start: bool,
    data: Option<(u32, Vec<u8>)>,
) -> Vec<u8> {
    let mut m = vec![0x00, 0x61, 0x73, 0x6d, 0x01, 0x00, 0x00, 0x00];
    // two function types: (i32) -> () and () -> ()
    m.extend(section(1, vec![0x02, 0x60, 0x01, 0x7f, 0x00, 0x60, 0x00, 0x00]));
    // three ABI functions, plus a start function if asked for
    if trapping_start {
        m.extend(section(3, vec![0x04, 0x00, 0x00, 0x00, 0x01]));
    } else {
        m.extend(section(3, vec![0x03, 0x00, 0x00, 0x00]));
    }
    // one memory, one page
    m.extend(section(5, vec![0x01, 0x00, 0x01]));
    // SYSTEM_STATE: immutable i32 global
    let mut globals = vec![0x01, 0x7f, 0x00];
    globals.extend(i32_const(state_base as i64));
    globals.push(0x0b);
    m.extend(section(6, globals));
    // exports
    let mut entries: Vec<Vec<u8>> = vec![
        export_entry("memory", 0x02, 0),
        export_entry("export_tick_ship", 0x00, 0),
        export_entry("export_delete_ship", 0x00, 1),
    ];
    if with_state_export {
        entries.push(export_entry("SYSTEM_STATE", 0x03, 0));
    }
    if with_reset_gas {
        entries.push(export_entry("reset_gas", 0x00, 2));
    }
    let mut exports = leb(entries.len() as u32);
    for e in entries {
        exports.extend(e);
    }
    m.extend(section(7, exports));
    // start
    if trapping_start {
        m.extend(section(8, leb(3)));
    }
    // code
    let n_funcs: u32 = if trapping_start { 4 } else { 3 };
    let mut code = leb(n_funcs);
    code.extend(func_body(tick_instrs));
    code.extend(func_body(Vec::new()));
    code.extend(func_body(Vec::new()));
    if trapping_start {
        code.extend(func_body(vec![0x00])); // trap at once
    }
    m.extend(section(10, code));
    // data
    if let Some((at, bytes)) = data {
        let mut body = leb(1);
        body.push(0x00);
        body.extend(i32_const(at as i64));
        body.push(0x0b);
        body.extend(leb(bytes.len() as u32));
        body.extend(bytes);
        m.extend(section(11, body));
    }
    m
}

fn base_inputs() -> ShipInputs {
    ShipInputs {
        class: ShipClass::Fighter,
        position_x: 0,
        position_y: 0,
        velocity_x: 0,
        velocity_y: 0,
        heading: 0,
        angular_velocity: 0,
        radar: None,
        target: None,
        max_forward_acceleration: 0,
        max_backward_acceleration: 0,
        max_lateral_acceleration: 0,
        max_angular_acceleration: 0,
        radios: Vec::new(),
        tick: 0,
    }
}

fn handle(index: u32) -> ShipHandle {
    ShipHandle { index, generation: 0 }
}

fn expect_err(r: Result<Box<TeamController>, oort_vm::Error>) -> oort_vm::Error {
    match r {
        Ok(_) => panic!("expected an error"),
        Err(e) => e,
    }
}

// ---------------------------------------------------------------
#[test]
fn create_accepts_only_loadable_code() {
    let e = expect_err(new_team_controller(&Code::Absent));
    assert!(matches!(e.kind, ErrorKind::ModuleValidation));
    let e = expect_err(new_team_controller(&Code::Source("fn main() {}".to_string())));
    assert!(matches!(e.kind, ErrorKind::ModuleValidation));
    let e = expect_err(new_team_controller(&Code::Builtin("tutorial".to_string())));
    assert!(matches!(e.kind, ErrorKind::ModuleValidation));
    let e = expect_err(new_team_controller(&Code::Wasm(vec![1, 2, 3])));
    assert!(matches!(e.kind, ErrorKind::ModuleValidation));
    let mut garbage = vec![0x00, 0x61, 0x73, 0x6d, 0x01, 0x00, 0x00, 0x00];
    garbage.extend_from_slice(&[0xff; 16]);
    let e = expect_err(new_team_controller(&Code::Wasm(garbage)));
    assert!(matches!(e.kind, ErrorKind::ModuleValidation));
}

#[test]
fn missing_export_is_reported() {
    // no SYSTEM_STATE export: the limiter injects reset_gas, but the
    // state global has to come from the guest
    let module = build_module_full(STATE_BASE, Vec::new(), true, false, false, None);
    let e = expect_err(new_team_controller(&Code::Wasm(module)));
    assert!(matches!(e.kind, ErrorKind::MissingExport));
}

// A guest with no gas-reset export of its own still loads: the limiter
// provides it.
#[test]
fn limiter_provides_reset_gas() {
    let module = build_module(Vec::new(), false, None);
    let mut tc = new_team_controller(&Code::Wasm(module)).expect("module loads");
    tc.add_ship(handle(0), 0, None).unwrap();
    let events = tc.tick(&vec![base_inputs()]);
    assert!(events[0].result.is_ok());
}

// A guest that spins forever is trapped by the injected gas metering:
// the offending ship's tick errs, the other ship still runs, and once
// the caller removes the exploded ship the next tick runs without it.
#[test]
fn gas_exhaustion_explodes_the_ship() {
    let instrs = vec![
        0x20, 0x00, // local.get 0
        0x41, 0x01, // i32.const 1
        0x46, // i32.eq
        0x04, 0x40, // if (void)
        0x03, 0x40, // loop (void)
        0x0c, 0x00, // br 0
        0x0b, // end loop
        0x0b, // end if
    ];
    let module = build_module(instrs, true, None);
    let mut tc = new_team_controller(&Code::Wasm(module)).unwrap();
    tc.add_ship(handle(1), 0, None).unwrap();
    tc.add_ship(handle(2), 0, None).unwrap();
    let events = tc.tick(&vec![base_inputs(), base_inputs()]);
    assert_eq!(events.len(), 2);
    let e = match &events[0].result {
        Err(e) => e,
        Ok(_) => panic!("expected gas exhaustion"),
    };
    assert!(matches!(e.kind, ErrorKind::ShipRuntime));
    assert!(events[1].result.is_ok());
    tc.remove_ship(handle(1));
    let events = tc.tick(&vec![base_inputs()]);
    assert_eq!(events.len(), 1);
    assert_eq!(events[0].handle, handle(2));
    assert!(events[0].result.is_ok());
}

// A module whose start function traps fails at instantiation.
#[test]
fn instantiation_failure_is_reported() {
    let module = build_module_at(STATE_BASE, Vec::new(), true, true, None);
    let e = expect_err(new_team_controller(&Code::Wasm(module)));
    assert!(matches!(e.kind, ErrorKind::Instantiation));
}

// A state offset that runs past the memory makes state transfer fail.
#[test]
fn state_transfer_out_of_bounds() {
    let module = build_module_at(65000, Vec::new(), true, false, None);
    let vm = oort_vm::vm::WasmVm::create(&Code::Wasm(module)).expect("module loads");
    let st = oort_vm::state::LocalSystemState::new();
    let e = vm.write_system_state(&st).unwrap_err();
    assert!(matches!(e.kind, ErrorKind::MemoryMarshal));
    let mut st2 = oort_vm::state::LocalSystemState::new();
    let e = vm.read_system_state(&mut st2).unwrap_err();
    assert!(matches!(e.kind, ErrorKind::MemoryMarshal));
}

#[test]
fn noop_module_loads() {
    let module = build_module(Vec::new(), true, None);
    let tc = new_team_controller(&Code::Wasm(module)).expect("module loads");
    assert_eq!(tc.ships.len(), 0);
}

// Single-ship tick with a guest that just returns: nothing is commanded,
// the radio stays on its channel, and the state round-trips through
// guest memory bit for bit.
#[test]
fn single_ship_tick_noop_guest() {
    let module = build_module(Vec::new(), true, None);
    let mut tc: Box<TeamController> = new_team_controller(&Code::Wasm(module)).unwrap();
    tc.add_ship(handle(0), 42, None).unwrap();
    let mut inputs = base_inputs();
    inputs.position_x = 1.0f64.to_bits();
    inputs.position_y = 2.0f64.to_bits();
    inputs.velocity_x = 0.5f64.to_bits();
    inputs.heading = 0.3f64.to_bits();
    inputs.radios = vec![RadioIn { channel: 7, received: None }];
    let events = tc.tick(&vec![inputs]);
    assert_eq!(events.len(), 1);
    assert_eq!(events[0].handle, handle(0));
    let out = events[0].result.as_ref().expect("tick succeeds");
    assert_eq!(out.commands.accelerate_x, 0);
    assert_eq!(out.commands.accelerate_y, 0);
    assert_eq!(out.commands.torque, 0);
    assert_eq!(out.commands.fires.len(), 0);
    assert!(!out.commands.explode);
    assert!(out.commands.ability.is_none());
    assert!(out.commands.radar.is_none());
    assert_eq!(out.commands.radios.len(), 1);
    assert_eq!(out.commands.radios[0].channel, 7);
    assert!(out.commands.radios[0].sent.is_none());
    assert!(out.debug_text.is_none());
    assert!(out.debug_lines.is_none());
    assert!(out.drawn_texts.is_none());
    // round trip: what the host wrote is what came back
    let st = &tc.ships[0].state;
    assert_eq!(st.state[POSITION_X], 1.0f64.to_bits());
    assert_eq!(st.state[POSITION_Y], 2.0f64.to_bits());
    assert_eq!(st.state[VELOCITY_X], 0.5f64.to_bits());
    assert_eq!(st.state[HEADING], 0.3f64.to_bits());
}

// The per-ship seed survives the round trip and matches the hash.
#[test]
fn seed_reaches_the_guest() {
    let module = build_module(Vec::new(), true, None);
    let mut tc = new_team_controller(&Code::Wasm(module)).unwrap();
    tc.add_ship(handle(3), 99, None).unwrap();
    let expected =
        (oort_vm::seed::make_seed(99, handle(3)) as u64 & 0xffffff) as f64;
    assert_eq!(tc.ships[0].state.state[SEED], expected.to_bits());
    let events = tc.tick(&vec![base_inputs()]);
    assert!(events[0].result.is_ok());
    assert_eq!(tc.ships[0].state.state[SEED], expected.to_bits());
}

// The initial radar configuration is seeded into the mirror.
#[test]
fn radar_configuration_is_seeded() {
    let module = build_module(Vec::new(), true, None);
    let mut tc = new_team_controller(&Code::Wasm(module)).unwrap();
    let radar = RadarInit {
        heading: 0.1f64.to_bits(),
        width: 0.2f64.to_bits(),
        min_distance: 10.0f64.to_bits(),
        max_distance: 1000.0f64.to_bits(),
    };
    tc.add_ship(handle(0), 1, Some(radar)).unwrap();
    let st = &tc.ships[0].state;
    assert_eq!(st.state[oort_vm::state::RADAR_HEADING], 0.1f64.to_bits());
    assert_eq!(st.state[oort_vm::state::RADAR_MAX_DISTANCE], 1000.0f64.to_bits());
}

// Multi-ship ordering: handles {5, 1, 3}, two ticks, guest-call sequence
// [1, 3, 5, 1, 3, 5].
#[test]
fn multi_ship_ordering() {
    let module = build_module(Vec::new(), true, None);
    let mut tc = new_team_controller(&Code::Wasm(module)).unwrap();
    tc.add_ship(handle(5), 7, None).unwrap();
    tc.add_ship(handle(1), 7, None).unwrap();
    tc.add_ship(handle(3), 7, None).unwrap();
    let hs: Vec<ShipHandle> = tc.handles();
    let indices: Vec<u32> = hs.iter().map(|h| h.index).collect();
    assert_eq!(indices, vec![1, 3, 5]);
    let mut observed: Vec<u32> = Vec::new();
    for _ in 0..2 {
        let inputs = vec![base_inputs(), base_inputs(), base_inputs()];
        let events = tc.tick(&inputs);
        for e in &events {
            assert!(e.result.is_ok());
            observed.push(e.handle.index);
        }
    }
    assert_eq!(observed, vec![1, 3, 5, 1, 3, 5]);
}

// Removal keeps the others and their order.
#[test]
fn remove_ship_keeps_order() {
    let module = build_module(Vec::new(), true, None);
    let mut tc = new_team_controller(&Code::Wasm(module)).unwrap();
    tc.add_ship(handle(5), 7, None).unwrap();
    tc.add_ship(handle(1), 7, None).unwrap();
    tc.add_ship(handle(3), 7, None).unwrap();
    tc.remove_ship(handle(3));
    let indices: Vec<u32> = tc.handles().iter().map(|h| h.index).collect();
    assert_eq!(indices, vec![1, 5]);
}

// A guest that aims and fires group 1: the host aims, fires, and the
// fire slot is spent in the read-back mirror.
#[test]
fn fire_through_guest_memory() {
    let mut instrs = store_slot(12, 1.57); // aim slot of group 1
    instrs.extend(store_slot(16, 1.0)); // fire slot of group 1
    let module = build_module(instrs, true, None);
    let mut tc = new_team_controller(&Code::Wasm(module)).unwrap();
    tc.add_ship(handle(0), 0, None).unwrap();
    let events = tc.tick(&vec![base_inputs()]);
    let out = events[0].result.as_ref().expect("tick succeeds");
    assert_eq!(out.commands.fires.len(), 1);
    assert_eq!(out.commands.fires[0].group, 1);
    assert_eq!(out.commands.fires[0].aim, 1.57f64.to_bits());
    assert_eq!(tc.ships[0].state.state[FIRE1], 0);
}

// A guest that publishes debug text: two bytes at a known offset.
#[test]
fn debug_text_through_guest_memory() {
    let mut instrs = store_slot(36, 2048.0); // text pointer slot
    instrs.extend(store_slot(37, 2.0)); // text length slot
    let module = build_module(instrs, true, Some((2048, b"hi".to_vec())));
    let mut tc = new_team_controller(&Code::Wasm(module)).unwrap();
    tc.add_ship(handle(0), 0, None).unwrap();
    let events = tc.tick(&vec![base_inputs()]);
    let out = events[0].result.as_ref().expect("tick succeeds");
    assert_eq!(out.debug_text.as_deref(), Some("hi"));
}

// A full batch of 128 finite lines is emitted whole.
#[test]
fn full_line_batch_is_emitted() {
    let mut payload: Vec<u8> = Vec::new();
    for i in 0..128u32 {
        payload.extend_from_slice(&(i as f64).to_bits().to_le_bytes());
        payload.extend_from_slice(&0.0f64.to_bits().to_le_bytes());
        payload.extend_from_slice(&1.0f64.to_bits().to_le_bytes());
        payload.extend_from_slice(&(-1.0f64).to_bits().to_le_bytes());
        payload.extend_from_slice(&i.to_le_bytes());
        payload.extend_from_slice(&[0u8; 4]);
    }
    let mut instrs = store_slot(38, 2048.0); // lines pointer slot
    instrs.extend(store_slot(39, 128.0)); // lines length slot
    let module = build_module(instrs, true, Some((2048, payload)));
    let mut tc = new_team_controller(&Code::Wasm(module)).unwrap();
    tc.add_ship(handle(0), 0, None).unwrap();
    let events = tc.tick(&vec![base_inputs()]);
    let out = events[0].result.as_ref().expect("tick succeeds");
    let lines = out.debug_lines.as_ref().expect("batch emitted");
    assert_eq!(lines.len(), 128);
    assert_eq!(lines[0].x0, 0.0f64.to_bits());
    assert_eq!(lines[127].x0, 127.0f64.to_bits());
    assert_eq!(lines[127].color, 127);
}

// An oversized line batch is dropped whole.
#[test]
fn oversized_line_batch_is_dropped() {
    let mut instrs = store_slot(38, 2048.0); // lines pointer slot
    instrs.extend(store_slot(39, 129.0)); // lines length slot: over the bound
    let module = build_module(instrs, true, None);
    let mut tc = new_team_controller(&Code::Wasm(module)).unwrap();
    tc.add_ship(handle(0), 0, None).unwrap();
    let events = tc.tick(&vec![base_inputs()]);
    let out = events[0].result.as_ref().expect("tick succeeds");
    assert!(out.debug_lines.is_none());
}

// A trapping ship is reported and the rest of the team still runs.
#[test]
fn trap_explodes_only_the_offender() {
    // trap exactly for the ship with raw index 1
    let instrs = vec![
        0x20, 0x00, // local.get 0
        0x41, 0x01, // i32.const 1
        0x46, // i32.eq
        0x04, 0x40, // if (void)
        0x00, // trap
        0x0b, // end if
    ];
    let module = build_module(instrs, true, None);
    let mut tc = new_team_controller(&Code::Wasm(module)).unwrap();
    tc.add_ship(handle(1), 0, None).unwrap();
    tc.add_ship(handle(2), 0, None).unwrap();
    let events = tc.tick(&vec![base_inputs(), base_inputs()]);
    assert_eq!(events.len(), 2);
    let e = match &events[0].result {
        Err(e) => e,
        Ok(_) => panic!("expected a trap"),
    };
    assert!(matches!(e.kind, ErrorKind::ShipRuntime));
    assert!(events[1].result.is_ok());
}

// Serialized code can be produced, but this build does not load it back.
#[test]
fn precompile_produces_serialized_code() {
    let module = build_module(Vec::new(), true, None);
    let pre = oort_vm::vm::precompile(&module).expect("module serializes");
    match &pre {
        Code::Precompiled(b) => assert!(!b.is_empty()),
        _ => panic!("expected serialized code"),
    }
    let e = expect_err(new_team_controller(&pre));
    assert!(matches!(e.kind, ErrorKind::ModuleValidation));

    let e = match oort_vm::vm::precompile(&vec![0u8; 4]) {
        Ok(_) => panic!("expected an error"),
        Err(e) => e,
    };
    assert!(matches!(e.kind, ErrorKind::ModuleValidation));
}

// Deleting a ship calls the guest's release entry point.
#[test]
fn delete_ship_reaches_the_guest() {
    let module = build_module(Vec::new(), true, None);
    let mut tc = new_team_controller(&Code::Wasm(module)).unwrap();
    tc.add_ship(handle(0), 0, None).unwrap();
    let ship = &tc.ships[0];
    assert!(ship.delete(&mut tc.vm).is_ok());
}
