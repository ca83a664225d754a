//! The per-team and per-ship controllers. A team owns one VM and a set
//! of ship controllers, kept sorted by raw handle index so that every
//! tick runs the ships in the same deterministic order. A ship
//! controller owns its handle and its local mirror of the shared state
//! array; each tick it resets the gas budget, writes the outbound state,
//! runs the guest, reads the state back, and turns it into commands and
//! screened debug output.

use vstd::prelude::*;
use vstd::string::StringExecFns;
use vstd::utf8::{decode_utf8, valid_utf8};

use crate::code::Code;
use crate::ieee::{f64_bits_trunc_u32, f64_is_finite, f64_is_pos, u53_to_f64_bits, bits_pos, bits_trunc_u32};
use crate::marshal::{
    apply_post, apply_system_state, fire_taken, generate_system_state, ability_command,
    radio_cmd_seq, slot_read, wf_inputs, ShipCommands, ShipInputs,
};
use crate::seed::{make_seed, seed_low24, seed_spec};
use crate::state::{
    LocalSystemState, ACCELERATE_X, ACCELERATE_Y, DEBUG_LINES_LENGTH, DEBUG_LINES_POINTER,
    DEBUG_TEXT_LENGTH, DEBUG_TEXT_POINTER, DRAWN_TEXT_LENGTH, DRAWN_TEXT_POINTER, EXPLODE,
    RADAR_HEADING, RADAR_MAX_DISTANCE, RADAR_MIN_DISTANCE, RADAR_WIDTH, SEED, SYSTEM_STATE_SIZE,
    TORQUE,
};
use crate::validate::{
    decode_lines, decode_texts, lines_finite, texts_valid, validate_lines, validate_texts, Line,
    Text, LINE_BYTES, MAX_DEBUG_BATCH, TEXT_BYTES,
};
use crate::vm::WasmVm;
use crate::{Error, ErrorKind, ShipHandle};

verus! {

/// Everything one ship's tick hands back to the caller: the commands to
/// apply to the simulation, and the screened debug output to emit.
pub struct TickOutput {
    pub commands: ShipCommands,
    pub debug_text: Option<String>,
    pub debug_lines: Option<Vec<Line>>,
    pub drawn_texts: Option<Vec<Text>>,
}

/// The commands relate to an inbound state `m` as the inbound pass
/// defines them.
pub open spec fn commands_of(m: Seq<u64>, inp: &ShipInputs, c: ShipCommands) -> bool {
    &&& c.accelerate_x == slot_read(m, ACCELERATE_X as int)
    &&& c.accelerate_y == slot_read(m, ACCELERATE_Y as int)
    &&& c.torque == slot_read(m, TORQUE as int)
    &&& c.fires@ == fire_taken(m, 4)
    &&& (c.radar is Some <==> inp.radar is Some)
    &&& c.ability == ability_command(m)
    &&& c.explode == f64_is_pos(slot_read(m, EXPLODE as int))
    &&& c.radios@ == radio_cmd_seq(m, inp.radios@.len() as int)
}

/// The per-ship controller: its handle and the local state mirror.
pub struct ShipController {
    pub handle: ShipHandle,
    pub state: LocalSystemState,
}

impl ShipController {
    /// The mirror is the right size.
    pub open spec fn wf(&self) -> bool {
        self.state.wf()
    }

    /// One tick of one ship: grant gas, write the outbound state, run
    /// the guest, read the state back, apply it, screen the debug
    /// output. Whatever the guest did, every command that comes back is
    /// screened — its numeric fields are finite — and a debug batch is
    /// returned only within the batch bound and fully validated. Any
    /// trap or state-transfer failure is a `ShipRuntime` error; the
    /// caller explodes the ship and carries on.
    pub fn tick(&mut self, vm: &mut WasmVm, inputs: &ShipInputs) -> (r: Result<TickOutput, Error>)
        requires
            old(self).wf(),
            wf_inputs(inputs),
        ensures
            final(self).wf(),
            final(self).handle == old(self).handle,
            r matches Err(e) ==> e.kind == ErrorKind::ShipRuntime,
            r matches Ok(out) ==> exists|m: Seq<u64>|
                {
                    &&& m.len() == SYSTEM_STATE_SIZE
                    &&& #[trigger] commands_of(m, inputs, out.commands)
                    &&& final(self).state.slots() == apply_post(m)
                },
            r matches Ok(out) ==> {
                &&& f64_is_finite(out.commands.accelerate_x)
                &&& f64_is_finite(out.commands.accelerate_y)
                &&& f64_is_finite(out.commands.torque)
                &&& (out.commands.radar is Some <==> inputs.radar is Some)
                &&& out.commands.radios@.len() == inputs.radios@.len()
                &&& (out.debug_lines matches Some(v) ==> v@.len() <= MAX_DEBUG_BATCH
                    && lines_finite(v@))
                &&& (out.drawn_texts matches Some(v) ==> v@.len() <= MAX_DEBUG_BATCH
                    && texts_valid(v@))
                &&& (f64_bits_trunc_u32(
                    slot_read(final(self).state.slots(), DEBUG_LINES_LENGTH as int),
                ) > MAX_DEBUG_BATCH ==> out.debug_lines is None)
                &&& (f64_bits_trunc_u32(
                    slot_read(final(self).state.slots(), DRAWN_TEXT_LENGTH as int),
                ) > MAX_DEBUG_BATCH ==> out.drawn_texts is None)
                &&& (out.debug_text matches Some(s) ==> exists|b: Seq<u8>|
                    valid_utf8(b) && s@ == decode_utf8(b))
                &&& (!f64_is_pos(slot_read(final(self).state.slots(), DEBUG_TEXT_LENGTH as int))
                    ==> out.debug_text is None)
                &&& (!f64_is_pos(slot_read(final(self).state.slots(), DEBUG_LINES_LENGTH as int))
                    ==> out.debug_lines is None)
                &&& (!f64_is_pos(slot_read(final(self).state.slots(), DRAWN_TEXT_LENGTH as int))
                    ==> out.drawn_texts is None)
            },
    {
        match vm.reset_gas() {
            Ok(()) => {},
            Err(e) => {
                return Err(e);
            },
        }
        generate_system_state(inputs, &mut self.state);
        match vm.write_system_state(&self.state) {
            Ok(()) => {},
            Err(e) => {
                return Err(Error { kind: ErrorKind::ShipRuntime, msg: e.msg });
            },
        }
        match vm.call_tick_ship(self.handle.index) {
            Ok(()) => {},
            Err(e) => {
                return Err(e);
            },
        }
        match vm.read_system_state(&mut self.state) {
            Ok(()) => {},
            Err(e) => {
                return Err(Error { kind: ErrorKind::ShipRuntime, msg: e.msg });
            },
        }
        let ghost inbound = self.state.slots();
        let commands: ShipCommands = apply_system_state(&mut self.state, inputs);
        let debug_text: Option<String> = {
            let len_slot: u64 = self.state.get(DEBUG_TEXT_LENGTH);
            if bits_pos(len_slot) {
                let length: u32 = bits_trunc_u32(len_slot);
                let offset: u32 = bits_trunc_u32(self.state.get(DEBUG_TEXT_POINTER));
                vm.read_string(offset, length)
            } else {
                Option::None
            }
        };
        let debug_lines: Option<Vec<Line>> = {
            let len_slot: u64 = self.state.get(DEBUG_LINES_LENGTH);
            if bits_pos(len_slot) {
                let length: u32 = bits_trunc_u32(len_slot);
                if length as usize <= MAX_DEBUG_BATCH {
                    let offset: u32 = bits_trunc_u32(self.state.get(DEBUG_LINES_POINTER));
                    match vm.read_bytes(offset, length * (LINE_BYTES as u32)) {
                        Some(bytes) => {
                            let lines: Vec<Line> = decode_lines(&bytes, length as usize);
                            if validate_lines(&lines) {
                                Some(lines)
                            } else {
                                Option::None
                            }
                        },
                        None => Option::None,
                    }
                } else {
                    Option::None
                }
            } else {
                Option::None
            }
        };
        let drawn_texts: Option<Vec<Text>> = {
            let len_slot: u64 = self.state.get(DRAWN_TEXT_LENGTH);
            if bits_pos(len_slot) {
                let length: u32 = bits_trunc_u32(len_slot);
                if length as usize <= MAX_DEBUG_BATCH {
                    let offset: u32 = bits_trunc_u32(self.state.get(DRAWN_TEXT_POINTER));
                    match vm.read_bytes(offset, length * (TEXT_BYTES as u32)) {
                        Some(bytes) => {
                            let texts: Vec<Text> = decode_texts(&bytes, length as usize);
                            if validate_texts(&texts) {
                                Some(texts)
                            } else {
                                Option::None
                            }
                        },
                        None => Option::None,
                    }
                } else {
                    Option::None
                }
            } else {
                Option::None
            }
        };
        proof {
            assert(commands_of(inbound, inputs, commands));
        }
        Ok(TickOutput { commands, debug_text, debug_lines, drawn_texts })
    }

    /// Tells the guest to drop its bookkeeping for this ship; called
    /// before the ship leaves the team.
    pub fn delete(&self, vm: &mut WasmVm) -> (r: Result<(), Error>)
        ensures
            r matches Err(e) ==> e.kind == ErrorKind::ShipRuntime,
    {
        vm.call_delete_ship(self.handle.index)
    }
}


/// Initial radar configuration copied into a new ship's mirror.
#[derive(Clone, Copy, Debug, PartialEq, Eq, Structural)]
pub struct RadarInit {
    pub heading: u64,
    pub width: u64,
    pub min_distance: u64,
    pub max_distance: u64,
}

/// The mirror a freshly added ship starts from: all zeros, the low 24
/// bits of its deterministic seed in the seed slot, and the initial radar
/// configuration where the ship has one.
pub open spec fn seeded_slots(sim_seed: u32, handle: ShipHandle, radar: Option<RadarInit>) -> Seq<
    u64,
> {
    let z = Seq::new(SYSTEM_STATE_SIZE as nat, |i: int| 0u64);
    let s1 = z.update(
        SEED as int,
        u53_to_f64_bits((seed_spec(sim_seed, handle) as u64) & 0xffffff),
    );
    match radar {
        Some(r) => s1.update(RADAR_HEADING as int, r.heading).update(
            RADAR_WIDTH as int,
            r.width,
        ).update(RADAR_MIN_DISTANCE as int, r.min_distance).update(
            RADAR_MAX_DISTANCE as int,
            r.max_distance,
        ),
        None => s1,
    }
}

/// Ship controllers stand in strictly ascending raw-index order.
pub open spec fn ships_ordered(ships: Seq<ShipController>) -> bool {
    forall|i: int, j: int|
        0 <= i < j < ships.len() ==> ships[i].handle.index < ships[j].handle.index
}

/// Handle sequences in strictly ascending raw-index order.
pub open spec fn handles_strictly_ordered(hs: Seq<ShipHandle>) -> bool {
    forall|i: int, j: int| 0 <= i < j < hs.len() ==> hs[i].index < hs[j].index
}

/// What one ship's tick produced, or the error that will explode it.
pub struct TickEvent {
    pub handle: ShipHandle,
    pub result: Result<TickOutput, Error>,
}

/// The per-team controller: one VM, and the team's ships in iteration
/// order.
pub struct TeamController {
    pub vm: WasmVm,
    pub ships: Vec<ShipController>,
}

impl TeamController {
    /// Ships are strictly ordered by raw index and each mirror is the
    /// right size.
    pub open spec fn wf(&self) -> bool {
        ships_ordered(self.ships@) && forall|i: int|
            0 <= i < self.ships@.len() ==> (#[trigger] self.ships@[i]).wf()
    }

    /// The team's handles, in iteration order.
    pub open spec fn handle_seq(&self) -> Seq<ShipHandle> {
        seq_handles(self.ships@)
    }

    /// The team's handles as a set.
    pub open spec fn handle_set(&self) -> Set<ShipHandle> {
        self.handle_seq().to_set()
    }

    /// Builds the team's VM from its code; a fresh team has no ships.
    pub fn create(code: &Code) -> (r: Result<Box<TeamController>, Error>)
        ensures
            r matches Ok(tc) ==> tc.wf() && tc.ships@.len() == 0,
            !(code is Wasm) ==> r is Err,
            code matches Code::Wasm(b) && !crate::limiter::wasm_header_ok(b@) ==> (r matches Err(
                e,
            ) && e.kind == ErrorKind::ModuleValidation),
            r matches Err(e) ==> (e.kind == ErrorKind::ModuleValidation || e.kind
                == ErrorKind::Instantiation || e.kind == ErrorKind::MissingExport),
    {
        let vm: WasmVm = WasmVm::create(code)?;
        Ok(Box::new(TeamController { vm, ships: Vec::new() }))
    }

    /// Adds a ship: a fresh mirror seeded from the simulation seed and
    /// the handle, with the initial radar configuration, inserted at its
    /// index's place in iteration order. A ship already holding the same
    /// raw index is replaced.
    pub fn add_ship(&mut self, handle: ShipHandle, sim_seed: u32, radar: Option<RadarInit>) -> (r:
        Result<(), Error>)
        requires
            old(self).wf(),
        ensures
            final(self).wf(),
            r is Ok,
            exists|i: int|
                0 <= i < final(self).ships@.len() && (#[trigger] final(self).ships@[i]).handle
                    == handle && final(self).ships@[i].state.slots() == seeded_slots(
                    sim_seed,
                    handle,
                    radar,
                ),
            forall|h: ShipHandle|
                final(self).handle_set().contains(h) <==> (h == handle || (old(
                    self,
                ).handle_set().contains(h) && h.index != handle.index)),
    {
        let mut st: LocalSystemState = LocalSystemState::new();
        let sd: i64 = make_seed(sim_seed, handle);
        let low: u64 = seed_low24(sd);
        let seed_bits: u64 = crate::ieee::small_to_f64_bits(low);
        st.set(SEED, seed_bits);
        match radar {
            Some(rc) => {
                st.set(RADAR_HEADING, rc.heading);
                st.set(RADAR_WIDTH, rc.width);
                st.set(RADAR_MIN_DISTANCE, rc.min_distance);
                st.set(RADAR_MAX_DISTANCE, rc.max_distance);
            },
            None => {},
        }
        proof {
            assert(st.slots() =~= seeded_slots(sim_seed, handle, radar));
        }
        let ctrl = ShipController { handle, state: st };
        let n: usize = self.ships.len();
        let mut p: usize = 0;
        while p < n && self.ships[p].handle.index < handle.index
            invariant
                p <= n,
                n == self.ships@.len(),
                self.ships@ == old(self).ships@,
                forall|q: int|
                    0 <= q < p ==> (#[trigger] self.ships@[q]).handle.index < handle.index,
            decreases n - p,
        {
            p += 1;
        }
        let ghost olds = self.ships@;
        if p < n && self.ships[p].handle.index == handle.index {
            self.ships.set(p, ctrl);
            proof {
                lemma_add_ship_replace(olds, self.ships@, ctrl, p as int);
            }
        } else {
            self.ships.insert(p, ctrl);
            proof {
                if p < olds.len() {
                    assert(olds[p as int].handle.index > handle.index);
                }
                lemma_add_ship_insert(olds, self.ships@, ctrl, p as int);
            }
        }
        proof {
            assert(self.ships@[p as int] == ctrl);
            assert(self.ships@[p as int].handle == handle);
            assert(self.ships@[p as int].state.slots() == seeded_slots(sim_seed, handle, radar));
            assert forall|q: int|
                0 <= q < self.ships@.len() implies (#[trigger] self.ships@[q]).wf() by {
                if q != p {
                    if q < p {
                        assert(self.ships@[q] == olds[q]);
                    } else {
                        assert(self.ships@[q] == olds[q] || self.ships@[q] == olds[q - 1]);
                    }
                }
            };
        }
        Ok(())
    }

    /// Removes the ship with this handle, if the team has it; the others
    /// keep their order.
    pub fn remove_ship(&mut self, handle: ShipHandle)
        requires
            old(self).wf(),
        ensures
            final(self).wf(),
            forall|h: ShipHandle|
                final(self).handle_set().contains(h) <==> (old(self).handle_set().contains(h) && h
                    != handle),
            (exists|i: int|
                0 <= i < old(self).ships@.len() && (#[trigger] old(self).ships@[i]).handle
                    == handle) ==> exists|i: int|
                0 <= i < old(self).ships@.len() && (#[trigger] old(self).ships@[i]).handle
                    == handle && final(self).ships@ == old(self).ships@.remove(i),
            !(exists|i: int|
                0 <= i < old(self).ships@.len() && (#[trigger] old(self).ships@[i]).handle
                    == handle) ==> final(self).ships@ == old(self).ships@,
    {
        let n: usize = self.ships.len();
        let mut i: usize = 0;
        while i < n
            invariant
                i <= n,
                n == self.ships@.len(),
                self.ships@ == old(self).ships@,
                ships_ordered(self.ships@),
                forall|q: int| 0 <= q < n ==> (#[trigger] self.ships@[q]).wf(),
                forall|q: int| 0 <= q < i ==> (#[trigger] self.ships@[q]).handle != handle,
            decreases n - i,
        {
            if self.ships[i].handle == handle {
                let ghost olds = self.ships@;
                self.ships.remove(i);
                proof {
                    lemma_remove_ship(olds, self.ships@, handle, i as int);
                    assert forall|q: int|
                        0 <= q < self.ships@.len() implies (#[trigger] self.ships@[q]).wf() by {
                        assert(self.ships@[q] == olds[q] || self.ships@[q] == olds[q + 1]);
                    };
                }
                return;
            }
            i += 1;
        }
        proof {
            assert forall|h: ShipHandle|
                final(self).handle_set().contains(h) <==> (old(self).handle_set().contains(h) && h
                    != handle) by {
                if old(self).handle_set().contains(h) {
                    let k = choose|k: int|
                        0 <= k < old(self).handle_seq().len() && old(self).handle_seq()[k] == h;
                    assert(old(self).ships@[k].handle == h);
                    assert(h != handle);
                }
            };
        }
    }

    /// The team's handles in iteration order: strictly ascending raw
    /// index.
    pub fn handles(&self) -> (r: Vec<ShipHandle>)
        requires
            self.wf(),
        ensures
            r@ == self.handle_seq(),
            handles_strictly_ordered(r@),
    {
        let mut r: Vec<ShipHandle> = Vec::new();
        let n: usize = self.ships.len();
        let mut i: usize = 0;
        while i < n
            invariant
                i <= n,
                n == self.ships@.len(),
                r@.len() == i,
                forall|k: int| 0 <= k < i ==> r@[k] == (#[trigger] self.ships@[k]).handle,
            decreases n - i,
        {
            r.push(self.ships[i].handle);
            i += 1;
        }
        proof {
            assert(r@ =~= self.handle_seq());
        }
        r
    }

    /// One simulation tick of the whole team: every ship runs, in
    /// ascending raw-index order, each against its own snapshot. A
    /// ship's error becomes its event; the remaining ships still run.
    /// `inputs[k]` belongs to the ship at position `k` of `handles()`.
    pub fn tick(&mut self, inputs: &Vec<ShipInputs>) -> (r: Vec<TickEvent>)
        requires
            old(self).wf(),
            inputs@.len() == old(self).ships@.len(),
            forall|i: int| 0 <= i < inputs@.len() ==> wf_inputs(&inputs@[i]),
        ensures
            final(self).wf(),
            final(self).ships@.len() == old(self).ships@.len(),
            forall|i: int|
                0 <= i < final(self).ships@.len() ==> (#[trigger] final(self).ships@[i]).handle
                    == old(self).ships@[i].handle,
            r@.len() == old(self).ships@.len(),
            forall|i: int|
                0 <= i < r@.len() ==> (#[trigger] r@[i]).handle == old(self).ships@[i].handle,
            forall|i: int, j: int|
                0 <= i < j < r@.len() ==> r@[i].handle.index < r@[j].handle.index,
            forall|i: int|
                0 <= i < r@.len() ==> ((#[trigger] r@[i]).result matches Err(e) ==> e.kind
                    == ErrorKind::ShipRuntime),
            forall|i: int|
                0 <= i < r@.len() ==> ((#[trigger] r@[i]).result matches Ok(out) ==> exists|
                    m: Seq<u64>,
                |
                    {
                        &&& m.len() == SYSTEM_STATE_SIZE
                        &&& #[trigger] commands_of(m, &inputs@[i], out.commands)
                        &&& final(self).ships@[i].state.slots() == apply_post(m)
                    }),
    {
        let n: usize = self.ships.len();
        let mut events: Vec<TickEvent> = Vec::new();
        let mut i: usize = 0;
        while i < n
            invariant
                i <= n,
                n == self.ships@.len(),
                inputs@.len() == n,
                forall|k: int| 0 <= k < n ==> wf_inputs(&inputs@[k]),
                forall|k: int| 0 <= k < n ==> (#[trigger] self.ships@[k]).wf(),
                forall|k: int|
                    0 <= k < n ==> (#[trigger] self.ships@[k]).handle == old(
                        self,
                    ).ships@[k].handle,
                events@.len() == i,
                forall|k: int|
                    0 <= k < i ==> (#[trigger] events@[k]).handle == old(self).ships@[k].handle,
                forall|k: int|
                    0 <= k < i ==> ((#[trigger] events@[k]).result matches Err(e) ==> e.kind
                        == ErrorKind::ShipRuntime),
                forall|k: int|
                    0 <= k < i ==> ((#[trigger] events@[k]).result matches Ok(out) ==> exists|
                        m: Seq<u64>,
                    |
                        {
                            &&& m.len() == SYSTEM_STATE_SIZE
                            &&& #[trigger] commands_of(m, &inputs@[k], out.commands)
                            &&& self.ships@[k].state.slots() == apply_post(m)
                        }),
            decreases n - i,
        {
            let handle: ShipHandle = self.ships[i].handle;
            let inp: &ShipInputs = &inputs[i];
            let result: Result<TickOutput, Error> = self.ships[i].tick(&mut self.vm, inp);
            events.push(TickEvent { handle, result });
            i += 1;
        }
        proof {
            assert forall|a: int, b: int|
                0 <= a < b < events@.len() implies events@[a].handle.index
                < events@[b].handle.index by {
                assert(old(self).ships@[a].handle.index < old(self).ships@[b].handle.index);
            };
            assert(ships_ordered(self.ships@)) by {
                assert forall|a: int, b: int|
                    0 <= a < b < self.ships@.len() implies self.ships@[a].handle.index
                    < self.ships@[b].handle.index by {
                    assert(old(self).ships@[a].handle.index < old(self).ships@[b].handle.index);
                };
            };
        }
        events
    }
}

/// Builds a team controller from any code form: compiled modules load;
/// everything else — absent code, raw source, serialized modules, and
/// builtin names (no builtin programs are bundled with this runtime) —
/// reports a setup error rather than panicking.
pub fn new_team_controller(code: &Code) -> (r: Result<Box<TeamController>, Error>)
    ensures
        r matches Ok(tc) ==> tc.wf() && tc.ships@.len() == 0,
        !(code is Wasm) ==> r is Err,
        code matches Code::Wasm(b) && !crate::limiter::wasm_header_ok(b@) ==> (r matches Err(e)
            && e.kind == ErrorKind::ModuleValidation),
        r matches Err(e) ==> (e.kind == ErrorKind::ModuleValidation || e.kind
            == ErrorKind::Instantiation || e.kind == ErrorKind::MissingExport),
{
    match code {
        Code::Wasm(_) => TeamController::create(code),
        Code::Precompiled(_) => TeamController::create(code),
        Code::Builtin(_) => Err(
            Error {
                kind: ErrorKind::ModuleValidation,
                msg: String::from_str("no builtin programs are bundled with this runtime"),
            },
        ),
        _ => Err(
            Error {
                kind: ErrorKind::ModuleValidation,
                msg: String::from_str("no loadable module in this code"),
            },
        ),
    }
}

/// Replacing the ship at `p` (same raw index) keeps the order, and the
/// handle set gains the new handle and loses the displaced one.
proof fn lemma_add_ship_replace(
    olds: Seq<ShipController>,
    news: Seq<ShipController>,
    ctrl: ShipController,
    p: int,
)
    requires
        ships_ordered(olds),
        0 <= p < olds.len(),
        olds[p].handle.index == ctrl.handle.index,
        news == olds.update(p, ctrl),
        forall|q: int| 0 <= q < p ==> (#[trigger] olds[q]).handle.index < ctrl.handle.index,
    ensures
        ships_ordered(news),
        forall|h: ShipHandle|
            seq_handles(news).to_set().contains(h) <==> (h == ctrl.handle || (seq_handles(
                olds,
            ).to_set().contains(h) && h.index != ctrl.handle.index)),
{
    assert forall|i: int, j: int|
        0 <= i < j < news.len() implies news[i].handle.index < news[j].handle.index by {
        if i != p && j != p {
            assert(news[i] == olds[i] && news[j] == olds[j]);
        } else if i == p {
            assert(news[j] == olds[j]);
            assert(olds[p].handle.index < olds[j].handle.index);
        } else {
            assert(news[i] == olds[i]);
        }
    };
    assert forall|h: ShipHandle|
        seq_handles(news).to_set().contains(h) <==> (h == ctrl.handle || (seq_handles(
            olds,
        ).to_set().contains(h) && h.index != ctrl.handle.index)) by {
        if seq_handles(news).to_set().contains(h) {
            let k = choose|k: int| 0 <= k < news.len() && (#[trigger] seq_handles(news)[k]) == h;
            if k == p {
                assert(h == ctrl.handle);
            } else {
                assert(news[k] == olds[k]);
                assert(seq_handles(olds)[k] == h);
                assert(seq_handles(olds).to_set().contains(h));
                if k < p {
                    assert(olds[k].handle.index < ctrl.handle.index);
                } else {
                    assert(olds[p].handle.index < olds[k].handle.index);
                }
            }
        }
        if h == ctrl.handle {
            assert(seq_handles(news)[p] == h);
            assert(seq_handles(news).to_set().contains(h));
        }
        if seq_handles(olds).to_set().contains(h) && h.index != ctrl.handle.index {
            let k = choose|k: int| 0 <= k < olds.len() && (#[trigger] seq_handles(olds)[k]) == h;
            assert(k != p);
            assert(seq_handles(news)[k] == h);
            assert(seq_handles(news).to_set().contains(h));
        }
    };
}

/// Inserting a ship at the first position whose index is larger keeps
/// the order, and the handle set gains exactly the new handle.
proof fn lemma_add_ship_insert(
    olds: Seq<ShipController>,
    news: Seq<ShipController>,
    ctrl: ShipController,
    p: int,
)
    requires
        ships_ordered(olds),
        0 <= p <= olds.len(),
        news == olds.insert(p, ctrl),
        forall|q: int| 0 <= q < p ==> (#[trigger] olds[q]).handle.index < ctrl.handle.index,
        p < olds.len() ==> olds[p].handle.index > ctrl.handle.index,
    ensures
        ships_ordered(news),
        forall|h: ShipHandle|
            seq_handles(news).to_set().contains(h) <==> (h == ctrl.handle || (seq_handles(
                olds,
            ).to_set().contains(h) && h.index != ctrl.handle.index)),
{
    assert forall|i: int, j: int|
        0 <= i < j < news.len() implies news[i].handle.index < news[j].handle.index by {
        if i < p && j < p {
            assert(news[i] == olds[i] && news[j] == olds[j]);
        } else if i < p && j == p {
            assert(news[i] == olds[i]);
        } else if i < p && j > p {
            assert(news[i] == olds[i] && news[j] == olds[j - 1]);
            assert(olds[i].handle.index < ctrl.handle.index);
            assert(olds[p].handle.index <= olds[j - 1].handle.index);
        } else if i == p {
            assert(news[j] == olds[j - 1]);
            assert(olds[p].handle.index <= olds[j - 1].handle.index);
        } else {
            assert(news[i] == olds[i - 1] && news[j] == olds[j - 1]);
        }
    };
    assert forall|q: int| p <= q < olds.len() implies (#[trigger] olds[q]).handle.index
        != ctrl.handle.index by {
        if q > p {
            assert(olds[p].handle.index < olds[q].handle.index);
        }
    };
    assert forall|h: ShipHandle|
        seq_handles(news).to_set().contains(h) <==> (h == ctrl.handle || (seq_handles(
            olds,
        ).to_set().contains(h) && h.index != ctrl.handle.index)) by {
        if seq_handles(news).to_set().contains(h) {
            let k = choose|k: int| 0 <= k < news.len() && (#[trigger] seq_handles(news)[k]) == h;
            if k == p {
                assert(h == ctrl.handle);
            } else if k < p {
                assert(news[k] == olds[k]);
                assert(seq_handles(olds)[k] == h);
                assert(seq_handles(olds).to_set().contains(h));
                assert(olds[k].handle.index < ctrl.handle.index);
            } else {
                assert(news[k] == olds[k - 1]);
                assert(seq_handles(olds)[k - 1] == h);
                assert(seq_handles(olds).to_set().contains(h));
            }
        }
        if h == ctrl.handle {
            assert(seq_handles(news)[p] == h);
            assert(seq_handles(news).to_set().contains(h));
        }
        if seq_handles(olds).to_set().contains(h) && h.index != ctrl.handle.index {
            let k = choose|k: int| 0 <= k < olds.len() && (#[trigger] seq_handles(olds)[k]) == h;
            if k < p {
                assert(seq_handles(news)[k] == h);
            } else {
                assert(news[k + 1] == olds[k]);
                assert(seq_handles(news)[k + 1] == h);
            }
            assert(seq_handles(news).to_set().contains(h));
        }
    };
}

/// Removing the ship at `i` keeps the order, and the handle set loses
/// exactly that handle.
proof fn lemma_remove_ship(
    olds: Seq<ShipController>,
    news: Seq<ShipController>,
    handle: ShipHandle,
    i: int,
)
    requires
        ships_ordered(olds),
        0 <= i < olds.len(),
        olds[i].handle == handle,
        news == olds.remove(i),
        forall|q: int| 0 <= q < i ==> (#[trigger] olds[q]).handle != handle,
    ensures
        ships_ordered(news),
        forall|h: ShipHandle|
            seq_handles(news).to_set().contains(h) <==> (seq_handles(olds).to_set().contains(h)
                && h != handle),
{
    assert forall|a: int, b: int|
        0 <= a < b < news.len() implies news[a].handle.index < news[b].handle.index by {
        if a < i && b < i {
            assert(news[a] == olds[a] && news[b] == olds[b]);
        } else if a < i {
            assert(news[a] == olds[a] && news[b] == olds[b + 1]);
        } else {
            assert(news[a] == olds[a + 1] && news[b] == olds[b + 1]);
        }
    };
    assert forall|h: ShipHandle|
        seq_handles(news).to_set().contains(h) <==> (seq_handles(olds).to_set().contains(h) && h
            != handle) by {
        if seq_handles(news).to_set().contains(h) {
            let k = choose|k: int| 0 <= k < news.len() && (#[trigger] seq_handles(news)[k]) == h;
            if k < i {
                assert(news[k] == olds[k]);
                assert(seq_handles(olds)[k] == h);
                assert(olds[k].handle != handle);
            } else {
                assert(news[k] == olds[k + 1]);
                assert(seq_handles(olds)[k + 1] == h);
                if olds[k + 1].handle == handle {
                    assert(olds[i].handle.index < olds[k + 1].handle.index);
                    assert(false);
                }
            }
            assert(seq_handles(olds).to_set().contains(h));
        }
        if seq_handles(olds).to_set().contains(h) && h != handle {
            let k = choose|k: int| 0 <= k < olds.len() && (#[trigger] seq_handles(olds)[k]) == h;
            assert(k != i);
            if k < i {
                assert(seq_handles(news)[k] == h);
            } else {
                assert(news[k - 1] == olds[k]);
                assert(seq_handles(news)[k - 1] == h);
            }
            assert(seq_handles(news).to_set().contains(h));
        }
    };
}

/// The handles of a controller sequence.
pub open spec fn seq_handles(ships: Seq<ShipController>) -> Seq<ShipHandle> {
    Seq::new(ships.len(), |i: int| ships[i].handle)
}

/// Strictly ordered handle sequences carrying the same set are the same
/// sequence.
pub proof fn lemma_sorted_handles_unique(a: Seq<ShipHandle>, b: Seq<ShipHandle>)
    requires
        handles_strictly_ordered(a),
        handles_strictly_ordered(b),
        a.to_set() =~= b.to_set(),
    ensures
        a =~= b,
    decreases a.len(),
{
    if a.len() == 0 {
        if b.len() > 0 {
            assert(b.contains(b[0]));
            assert(a.to_set().contains(b[0]));
            assert(a.contains(b[0]));
        }
    } else if b.len() == 0 {
        assert(a.contains(a[0]));
        assert(b.to_set().contains(a[0]));
        assert(b.contains(a[0]));
    } else {
        assert(a.contains(a[0]));
        assert(b.to_set().contains(a[0]));
        assert(b.contains(a[0]));
        let k = choose|k: int| 0 <= k < b.len() && b[k] == a[0];
        assert(b.contains(b[0]));
        assert(a.to_set().contains(b[0]));
        assert(a.contains(b[0]));
        let l = choose|l: int| 0 <= l < a.len() && a[l] == b[0];
        assert(l > 0 ==> a[0].index < a[l].index);
        assert(k > 0 ==> b[0].index < b[k].index);
        assert(a[0].index == b[0].index);
        assert(k == 0);
        assert(a[0] == b[0]);
        let a1 = a.subrange(1, a.len() as int);
        let b1 = b.subrange(1, b.len() as int);
        assert(handles_strictly_ordered(a1)) by {
            assert forall|i: int, j: int|
                0 <= i < j < a1.len() implies a1[i].index < a1[j].index by {
                assert(a1[i] == a[i + 1] && a1[j] == a[j + 1]);
            };
        };
        assert(handles_strictly_ordered(b1)) by {
            assert forall|i: int, j: int|
                0 <= i < j < b1.len() implies b1[i].index < b1[j].index by {
                assert(b1[i] == b[i + 1] && b1[j] == b[j + 1]);
            };
        };
        assert(a1.to_set() =~= b1.to_set()) by {
            assert forall|h: ShipHandle|
                a1.to_set().contains(h) <==> b1.to_set().contains(h) by {
                if a1.to_set().contains(h) {
                    let m = choose|m: int| 0 <= m < a1.len() && a1[m] == h;
                    assert(a[m + 1] == h);
                    assert(a.contains(h));
                    assert(b.to_set().contains(h));
                    assert(b.contains(h));
                    let q = choose|q: int| 0 <= q < b.len() && b[q] == h;
                    assert(a[0].index < a[m + 1].index);
                    if q == 0 {
                        assert(b[0] == h);
                        assert(h.index == a[0].index);
                        assert(false);
                    }
                    assert(b1[q - 1] == h);
                    assert(b1.contains(h));
                }
                if b1.to_set().contains(h) {
                    let m = choose|m: int| 0 <= m < b1.len() && b1[m] == h;
                    assert(b[m + 1] == h);
                    assert(b.contains(h));
                    assert(a.to_set().contains(h));
                    assert(a.contains(h));
                    let q = choose|q: int| 0 <= q < a.len() && a[q] == h;
                    assert(b[0].index < b[m + 1].index);
                    if q == 0 {
                        assert(a[0] == h);
                        assert(h.index == b[0].index);
                        assert(false);
                    }
                    assert(a1[q - 1] == h);
                    assert(a1.contains(h));
                }
            };
        };
        lemma_sorted_handles_unique(a1, b1);
        assert forall|i: int| 0 <= i < a.len() implies a[i] == b[i] by {
            if i > 0 {
                assert(a1[i - 1] == a[i] && b1[i - 1] == b[i]);
            }
        };
    }
}

/// Deterministic ordering: two teams holding the same set of ship
/// handles iterate them in the same order — iteration order is a
/// function of the handle set alone, never of insertion order.
pub proof fn lemma_deterministic_order(a: &TeamController, b: &TeamController)
    requires
        a.wf(),
        b.wf(),
        a.handle_set() =~= b.handle_set(),
    ensures
        a.handle_seq() =~= b.handle_seq(),
{
    assert(handles_strictly_ordered(a.handle_seq())) by {
        assert forall|i: int, j: int|
            0 <= i < j < a.handle_seq().len() implies a.handle_seq()[i].index
            < a.handle_seq()[j].index by {
            assert(a.ships@[i].handle.index < a.ships@[j].handle.index);
        };
    };
    assert(handles_strictly_ordered(b.handle_seq())) by {
        assert forall|i: int, j: int|
            0 <= i < j < b.handle_seq().len() implies b.handle_seq()[i].index
            < b.handle_seq()[j].index by {
            assert(b.ships@[i].handle.index < b.ships@[j].handle.index);
        };
    };
    lemma_sorted_handles_unique(a.handle_seq(), b.handle_seq());
}

} // verus!
