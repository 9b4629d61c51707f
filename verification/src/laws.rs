//! Properties of the machine that span instructions or hold of every state.
use vstd::prelude::*;
use crate::frontend::{key_button, HostKey};
use crate::state::{
    call_effect, call_ok, ret_effect, ret_ok,
    skip_equal_taken, skip_not_equal_taken, op_kk as kk_of, add_variable_effect,
    add_variables_effect, can_step, draw_effect, draw_hits, draw_ok, execute_effect,
    first_pressed, initial_state, key_press_effect, memory_with_rom, op_group, op_kk, op_x, op_y,
    opcode_at_pc, read_up_to_variable_effect, registers_block_ok, right_shift_effect,
    shift_left_effect, step, store_bcd_representation_effect, store_bcd_representation_ok,
    store_up_to_variable_effect, subtract_variables_effect, subtract_variables_n_effect, timers_tick,
    vx, vy, MachineState,
};

verus! {

/// What every reachable machine satisfies: its storage has its sizes and the stack pointer
/// stays within the stack.
pub open spec fn machine_invariant(s: MachineState) -> bool {
    &&& s.well_formed()
    &&& s.stack_pointer <= 16
}

/// A new machine satisfies the invariant.
pub proof fn lemma_initial_invariant()
    ensures
        machine_invariant(initial_state()),
{
}

/// Every machine cycle that runs keeps the invariant, whatever byte `Cxkk` draws.
pub proof fn lemma_step_keeps_invariant(s: MachineState, random: u8)
    requires
        machine_invariant(s),
        can_step(s),
    ensures
        machine_invariant(step(s, random)),
{
}

/// Pressing or releasing a key, ticking the timers and loading a program keep the
/// invariant.
pub proof fn lemma_host_actions_keep_invariant(s: MachineState, key: int, pressed: bool, rom: Seq<u8>)
    requires
        machine_invariant(s),
        0 <= key < 16,
    ensures
        machine_invariant(key_press_effect(s, key, pressed)),
        machine_invariant(timers_tick(s)),
        machine_invariant(MachineState { memory: memory_with_rom(s.memory, rom), ..s }),
{
}

/// `RET` returns to the instruction after the `CALL` that led to it: when the instruction
/// at the program counter is `2nnn` and the instruction at `nnn` is `00EE`, two cycles
/// later the program counter is past the `CALL` and the stack is as deep as before.
pub proof fn lemma_ret_returns_after_call(s: MachineState, r1: u8, r2: u8)
    requires
        machine_invariant(s),
        can_step(s),
        op_group(opcode_at_pc(s)) == 2,
        step(s, r1).program_counter + 1 < 4096,
        opcode_at_pc(step(s, r1)) == 0x00EE,
    ensures
        can_step(step(s, r1)),
        step(step(s, r1), r2).program_counter == s.program_counter + 2,
        step(step(s, r1), r2).stack_pointer == s.stack_pointer,
        step(step(s, r1), r2).stack == step(s, r1).stack,
{
}

/// `RET` right after `CALL` undoes it: the program counter and stack pointer are back, and
/// the only trace is the return address left in the freed stack slot.
pub proof fn lemma_ret_undoes_call(s: MachineState)
    requires
        machine_invariant(s),
        call_ok(s),
    ensures
        ret_ok(call_effect(s)),
        ret_effect(call_effect(s)) == (MachineState {
            stack: s.stack.update(s.stack_pointer as int, s.program_counter),
            ..s
        }),
{
}

/// Drawing the same sprite twice leaves the screen as it was (sprites are drawn by XOR),
/// as long as neither coordinate register is `VF`, which drawing overwrites.
pub proof fn lemma_draw_twice_restores_screen(s: MachineState)
    requires
        s.well_formed(),
        draw_ok(s),
        op_x(s.opcode) != 15,
        op_y(s.opcode) != 15,
    ensures
        draw_ok(draw_effect(s)),
        draw_effect(draw_effect(s)).video == s.video,
        draw_effect(draw_effect(s)) == (MachineState {
            registers: s.registers.update(15, draw_effect(draw_effect(s)).registers[15]),
            ..s
        }),
{
    let t = draw_effect(s);
    assert forall|i: int| #[trigger] draw_hits(t, i) == draw_hits(s, i) by {}
    assert forall|v: u32| #[trigger] ((v ^ 0xFFFFFFFFu32) ^ 0xFFFFFFFFu32) == v by {
        assert((v ^ 0xFFFFFFFFu32) ^ 0xFFFFFFFFu32 == v) by (bit_vector);
    }
    assert(draw_effect(t).video =~= s.video);
    assert(draw_effect(t).registers =~= s.registers.update(15, draw_effect(t).registers[15]));
}

/// `Fx33` stores the three decimal digits of `Vx`, most significant first, and nothing else.
pub proof fn lemma_bcd_digits(s: MachineState)
    requires
        s.well_formed(),
        store_bcd_representation_ok(s),
    ensures
        ({
            let m = store_bcd_representation_effect(s).memory;
            let i = s.index as int;
            &&& m[i] < 10 && m[i + 1] < 10 && m[i + 2] < 10
            &&& m[i] * 100 + m[i + 1] * 10 + m[i + 2] == vx(s)
            &&& forall|a: int| 0 <= a < 4096 && (a < i || a > i + 2) ==> #[trigger] m[a] == s.memory[a]
        }),
{
}

/// `Fx65` after `Fx55` with the same `x` gives back the registers that were stored.
pub proof fn lemma_store_then_read(s: MachineState, read_op: u16)
    requires
        s.well_formed(),
        registers_block_ok(s),
        op_x(read_op) == op_x(s.opcode),
    ensures
        read_up_to_variable_effect(
            MachineState { opcode: read_op, ..store_up_to_variable_effect(s) },
        ).registers == s.registers,
        read_up_to_variable_effect(
            MachineState { opcode: read_op, ..store_up_to_variable_effect(s) },
        ).index == s.index,
        forall|i: int|
            0 <= i <= op_x(s.opcode) ==> #[trigger] store_up_to_variable_effect(s).memory[s.index
                + i] == s.registers[i],
{
    let t = MachineState { opcode: read_op, ..store_up_to_variable_effect(s) };
    assert(read_up_to_variable_effect(t).registers =~= s.registers);
}

/// `8xy4` keeps the whole sum: `Vx + 256 * VF` is the old `Vx + Vy` (for `x` other than
/// `F`, whose sum byte overwrites the carry).
pub proof fn lemma_add_with_carry(s: MachineState)
    requires
        s.well_formed(),
        op_x(s.opcode) != 15,
    ensures
        ({
            let r = add_variables_effect(s).registers;
            r[op_x(s.opcode)] + 256 * r[15] == vx(s) + vy(s)
        }),
{
}

/// `7xkk` wraps: `Vx` becomes `(Vx + kk) mod 256` and no other register changes.
pub proof fn lemma_add_byte_wraps(s: MachineState)
    requires
        s.well_formed(),
    ensures
        ({
            let r = add_variable_effect(s).registers;
            &&& r[op_x(s.opcode)] == (vx(s) + kk_of(s.opcode)) % 256
            &&& forall|i: int| 0 <= i < 16 && i != op_x(s.opcode) ==> #[trigger] r[i] == s.registers[i]
        }),
{
}

/// `8xy5` and `8xy7` wrap: for `x` and `y` other than `F` (the operands are read after the
/// flag is written), `Vx` becomes `(Vx - Vy) mod 256` (respectively `(Vy - Vx) mod 256`)
/// and `VF` is 1 exactly when the subtraction does not borrow.
pub proof fn lemma_subtract_wraps(s: MachineState)
    requires
        s.well_formed(),
        op_x(s.opcode) != 15,
        op_y(s.opcode) != 15,
    ensures
        ({
            let r = subtract_variables_effect(s).registers;
            &&& r[op_x(s.opcode)] == (vx(s) - vy(s) + 256) % 256
            &&& r[15] == (if vx(s) > vy(s) { 1u8 } else { 0u8 })
        }),
        ({
            let r = subtract_variables_n_effect(s).registers;
            &&& r[op_x(s.opcode)] == (vy(s) - vx(s) + 256) % 256
            &&& r[15] == (if vy(s) > vx(s) { 1u8 } else { 0u8 })
        }),
{
}

/// `8xy6` and `8xyE` lose no bit: the bit shifted out lands in `VF` (for `x` other than
/// `F`).
pub proof fn lemma_shifts_keep_bits(s: MachineState)
    requires
        s.well_formed(),
        op_x(s.opcode) != 15,
    ensures
        ({
            let r = right_shift_effect(s).registers;
            2 * r[op_x(s.opcode)] + r[15] == vx(s)
        }),
        ({
            let r = shift_left_effect(s).registers;
            r[op_x(s.opcode)] + 256 * r[15] == 2 * vx(s)
        }),
{
}

/// `Fx0A` with no key held repeats: the cycle ends where it started, with nothing but the
/// current opcode changed.
pub proof fn lemma_wait_repeats(s: MachineState, random: u8)
    requires
        s.well_formed(),
        s.program_counter + 1 < 4096,
        op_group(opcode_at_pc(s)) == 0xF,
        op_kk(opcode_at_pc(s)) == 0x0A,
        first_pressed(s.keypad, 0) == 16,
    ensures
        can_step(s),
        step(s, random) == (MachineState { opcode: opcode_at_pc(s), ..s }),
{
}

/// Whether some host key maps to button `b`.
pub open spec fn is_button_of_some_key(b: u8) -> bool {
    exists|k: HostKey| #[trigger] key_button(k) == Some(b)
}

/// The front end's key map is one to one between the sixteen mapped host keys and the
/// sixteen CHIP-8 buttons.
pub proof fn lemma_key_map_one_to_one()
    ensures
        forall|k: HostKey| #[trigger] key_button(k) matches Some(b) ==> b < 16,
        forall|k1: HostKey, k2: HostKey|
            #![trigger key_button(k1), key_button(k2)]
            key_button(k1) is Some && key_button(k1) == key_button(k2) ==> k1 == k2,
        forall|b: u8| b < 16 ==> #[trigger] is_button_of_some_key(b),
{
    assert forall|b: u8| b < 16 implies #[trigger] is_button_of_some_key(b) by {
        if b == 0 {
            assert(key_button(HostKey::X) == Some(b));
        } else if b == 1 {
            assert(key_button(HostKey::Num1) == Some(b));
        } else if b == 2 {
            assert(key_button(HostKey::Num2) == Some(b));
        } else if b == 3 {
            assert(key_button(HostKey::Num3) == Some(b));
        } else if b == 4 {
            assert(key_button(HostKey::Q) == Some(b));
        } else if b == 5 {
            assert(key_button(HostKey::W) == Some(b));
        } else if b == 6 {
            assert(key_button(HostKey::E) == Some(b));
        } else if b == 7 {
            assert(key_button(HostKey::A) == Some(b));
        } else if b == 8 {
            assert(key_button(HostKey::S) == Some(b));
        } else if b == 9 {
            assert(key_button(HostKey::D) == Some(b));
        } else if b == 10 {
            assert(key_button(HostKey::Z) == Some(b));
        } else if b == 11 {
            assert(key_button(HostKey::C) == Some(b));
        } else if b == 12 {
            assert(key_button(HostKey::Num4) == Some(b));
        } else if b == 13 {
            assert(key_button(HostKey::R) == Some(b));
        } else if b == 14 {
            assert(key_button(HostKey::F) == Some(b));
        } else {
            assert(key_button(HostKey::V) == Some(b));
        }
    }
}

/// Every pixel is off (0) or fully on (`0xFFFFFFFF`).
pub open spec fn pixels_binary(video: Seq<u32>) -> bool {
    forall|i: int| 0 <= i < video.len() ==> #[trigger] video[i] == 0u32 || video[i] == 0xFFFFFFFFu32
}

/// Drawing keeps every pixel either off or fully on.
pub proof fn lemma_draw_keeps_pixels_binary(s: MachineState)
    requires
        s.well_formed(),
        pixels_binary(s.video),
    ensures
        pixels_binary(draw_effect(s).video),
{
    assert(0u32 ^ 0xFFFFFFFFu32 == 0xFFFFFFFFu32) by (bit_vector);
    assert(0xFFFFFFFFu32 ^ 0xFFFFFFFFu32 == 0u32) by (bit_vector);
    let v = draw_effect(s).video;
    assert forall|i: int| 0 <= i < v.len() implies #[trigger] v[i] == 0u32 || v[i] == 0xFFFFFFFFu32 by {
        assert(s.video[i] == 0u32 || s.video[i] == 0xFFFFFFFFu32);
    }
}

/// Every machine cycle keeps every pixel either off or fully on.
pub proof fn lemma_step_keeps_pixels_binary(s: MachineState, random: u8)
    requires
        machine_invariant(s),
        can_step(s),
        pixels_binary(s.video),
    ensures
        pixels_binary(step(s, random).video),
{
    let t = crate::state::fetch(s);
    if op_group(t.opcode) == 0xD && t.opcode != 0x00E0 && t.opcode != 0x00EE {
        lemma_draw_keeps_pixels_binary(t);
    }
}

/// `3xkk` and `4xkk` with the same `x` and `kk` skip in complement: exactly one of them
/// moves the program counter past the next instruction, the other leaves it.
pub proof fn lemma_skip_equal_complements_skip_not_equal(s: MachineState, k: u16, random: u8)
    requires
        s.well_formed(),
        k < 0x1000,
        s.program_counter + 2 <= 0xFFFF,
    ensures
        ({
            let s1 = MachineState { opcode: (0x3000 + k) as u16, ..s };
            let s2 = MachineState { opcode: (0x4000 + k) as u16, ..s };
            let pc = s.program_counter;
            let p1 = execute_effect(s1, random).program_counter;
            let p2 = execute_effect(s2, random).program_counter;
            &&& skip_equal_taken(s1) == !skip_not_equal_taken(s2)
            &&& p2 == (if s.registers[(k / 0x100) as int] != k % 0x100 { pc + 2 } else { pc as int })
            &&& (p1 == pc + 2 && p2 == pc) || (p1 == pc && p2 == pc + 2)
            &&& execute_effect(s2, random) == (MachineState { program_counter: p2, ..s2 })
        }),
{
}

} // verus!
