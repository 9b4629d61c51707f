//! What one machine cycle does, instruction by instruction, stated over the two bytes at
//! the program counter and the machine's registers, memory, keypad and screen.
//!
//! Each law names the instruction by its two bytes `hi lo` (big-endian, at `PC` and
//! `PC + 1`): the group is the high nibble of `hi`, `x` its low nibble, `y` the high nibble
//! of `lo`, `n` its low nibble, `kk` all of `lo` and `nnn` is `x * 256 + lo`.
use vstd::prelude::*;
use crate::state::{
    initial_state, key_press_effect, memory_with_rom, timers_tick,
    draw_collides, draw_effect, draw_hits, draw_x, draw_y,
    can_step, fetch, op_group, op_kk, op_n, op_nnn, op_x, op_y, opcode_at_pc, step,
    MachineState,
};

verus! {

/// The first byte of the instruction at the program counter.
pub open spec fn hi(s: MachineState) -> int {
    s.memory[s.program_counter as int] as int
}

/// The second byte of the instruction at the program counter.
pub open spec fn lo(s: MachineState) -> int {
    s.memory[s.program_counter + 1] as int
}

/// The register named by bits 8 to 11 of the instruction.
pub open spec fn reg_x(s: MachineState) -> int {
    hi(s) % 16
}

/// The register named by bits 4 to 7 of the instruction.
pub open spec fn reg_y(s: MachineState) -> int {
    lo(s) / 16
}

/// The machine is sound and an instruction lies at the program counter.
pub open spec fn fetchable(s: MachineState) -> bool {
    &&& s.well_formed()
    &&& s.program_counter + 1 < 4096
}

/// The fields of the fetched opcode are the nibbles and bytes of the two instruction bytes.
pub proof fn lemma_fetch_fields(s: MachineState)
    requires
        fetchable(s),
    ensures
        fetch(s).opcode == hi(s) * 256 + lo(s),
        op_group(fetch(s).opcode) == hi(s) / 16,
        op_x(fetch(s).opcode) == hi(s) % 16,
        op_y(fetch(s).opcode) == lo(s) / 16,
        op_n(fetch(s).opcode) == lo(s) % 16,
        op_kk(fetch(s).opcode) == lo(s),
        op_nnn(fetch(s).opcode) == (hi(s) % 16) * 256 + lo(s),
        fetch(s).program_counter == s.program_counter + 2,
{
    let h = s.memory[s.program_counter as int] as u16;
    let l = s.memory[s.program_counter + 1] as u16;
    assert(opcode_at_pc(s) == h * 256 + l);
    let op = opcode_at_pc(s);
    assert(op / 0x1000 == h / 16 && (op / 0x100) % 0x10 == h % 16 && (op / 0x10) % 0x10 == l / 16
        && op % 0x10 == l % 16 && op % 0x100 == l && op % 0x1000 == (h % 16) * 256 + l) by (bit_vector)
        requires
            h < 256,
            l < 256,
            op == h * 256 + l,
    ;
}


/// The machine once the instruction is fetched: the program counter moved past it and the
/// opcode recorded, nothing else changed.
pub open spec fn past(s: MachineState) -> MachineState {
    MachineState {
        program_counter: (s.program_counter + 2) as u16,
        opcode: (hi(s) * 256 + lo(s)) as u16,
        ..s
    }
}

/// The program counter after a conditional skip.
pub open spec fn pc_after_skip(s: MachineState, taken: bool) -> u16 {
    if taken { (s.program_counter + 4) as u16 } else { (s.program_counter + 2) as u16 }
}

/// `00E0` turns every pixel off.
pub proof fn law_cls(s: MachineState, random: u8)
    requires
        fetchable(s),
        hi(s) == 0x00,
        lo(s) == 0xE0,
    ensures
        can_step(s),
        step(s, random) == (MachineState { video: Seq::new(2048, |i: int| 0u32), ..past(s) }),
{
    lemma_fetch_fields(s);
}

/// `00EE` pops the return address into the program counter.
pub proof fn law_ret(s: MachineState, random: u8)
    requires
        fetchable(s),
        hi(s) == 0x00,
        lo(s) == 0xEE,
        1 <= s.stack_pointer <= 16,
    ensures
        can_step(s),
        step(s, random) == (MachineState {
            program_counter: s.stack[s.stack_pointer - 1],
            stack_pointer: (s.stack_pointer - 1) as u8,
            ..past(s)
        }),
{
    lemma_fetch_fields(s);
}

/// `1nnn` jumps to `nnn`.
pub proof fn law_jp(s: MachineState, random: u8)
    requires
        fetchable(s),
        hi(s) / 16 == 1,
    ensures
        can_step(s),
        step(s, random) == (MachineState {
            program_counter: (reg_x(s) * 256 + lo(s)) as u16,
            ..past(s)
        }),
{
    lemma_fetch_fields(s);
}

/// `2nnn` pushes the address of the next instruction and jumps to `nnn`.
pub proof fn law_call(s: MachineState, random: u8)
    requires
        fetchable(s),
        hi(s) / 16 == 2,
        s.stack_pointer < 16,
    ensures
        can_step(s),
        step(s, random) == (MachineState {
            stack: s.stack.update(s.stack_pointer as int, (s.program_counter + 2) as u16),
            stack_pointer: (s.stack_pointer + 1) as u8,
            program_counter: (reg_x(s) * 256 + lo(s)) as u16,
            ..past(s)
        }),
{
    lemma_fetch_fields(s);
}

/// `3xkk` skips the next instruction when `Vx == kk`.
pub proof fn law_skip_equal(s: MachineState, random: u8)
    requires
        fetchable(s),
        hi(s) / 16 == 3,
    ensures
        can_step(s),
        step(s, random) == (MachineState {
            program_counter: pc_after_skip(s, s.registers[reg_x(s)] == lo(s)),
            ..past(s)
        }),
{
    lemma_fetch_fields(s);
}

/// `4xkk` skips the next instruction when `Vx != kk`.
pub proof fn law_skip_not_equal(s: MachineState, random: u8)
    requires
        fetchable(s),
        hi(s) / 16 == 4,
    ensures
        can_step(s),
        step(s, random) == (MachineState {
            program_counter: pc_after_skip(s, s.registers[reg_x(s)] != lo(s)),
            ..past(s)
        }),
{
    lemma_fetch_fields(s);
}

/// `5xy0` skips the next instruction when `Vx == Vy`.
pub proof fn law_skip_if_variables_equal(s: MachineState, random: u8)
    requires
        fetchable(s),
        hi(s) / 16 == 5,
        lo(s) % 16 == 0,
    ensures
        can_step(s),
        step(s, random) == (MachineState {
            program_counter: pc_after_skip(s, s.registers[reg_x(s)] == s.registers[reg_y(s)]),
            ..past(s)
        }),
{
    lemma_fetch_fields(s);
}

/// `9xy0` skips the next instruction when `Vx != Vy`.
pub proof fn law_skip_next_instruction_ne(s: MachineState, random: u8)
    requires
        fetchable(s),
        hi(s) / 16 == 9,
        lo(s) % 16 == 0,
    ensures
        can_step(s),
        step(s, random) == (MachineState {
            program_counter: pc_after_skip(s, s.registers[reg_x(s)] != s.registers[reg_y(s)]),
            ..past(s)
        }),
{
    lemma_fetch_fields(s);
}

/// `6xkk` sets `Vx` to `kk`.
pub proof fn law_load_variable(s: MachineState, random: u8)
    requires
        fetchable(s),
        hi(s) / 16 == 6,
    ensures
        can_step(s),
        step(s, random) == (MachineState {
            registers: s.registers.update(reg_x(s), lo(s) as u8),
            ..past(s)
        }),
{
    lemma_fetch_fields(s);
}

/// `7xkk` adds `kk` to `Vx`, wrapping; `VF` is untouched.
pub proof fn law_add_variable(s: MachineState, random: u8)
    requires
        fetchable(s),
        hi(s) / 16 == 7,
    ensures
        can_step(s),
        step(s, random) == (MachineState {
            registers: s.registers.update(
                reg_x(s),
                ((s.registers[reg_x(s)] + lo(s)) % 256) as u8,
            ),
            ..past(s)
        }),
{
    lemma_fetch_fields(s);
}

/// The `8xy_` instructions that write no flag: `0` copies, `1` ORs, `2` ANDs, `3` XORs `Vy`
/// into `Vx`.
pub proof fn law_register_logic(s: MachineState, random: u8)
    requires
        fetchable(s),
        hi(s) / 16 == 8,
        lo(s) % 16 <= 3,
    ensures
        can_step(s),
        ({
            let a = s.registers[reg_x(s)];
            let b = s.registers[reg_y(s)];
            let v = if lo(s) % 16 == 0 {
                b
            } else if lo(s) % 16 == 1 {
                a | b
            } else if lo(s) % 16 == 2 {
                a & b
            } else {
                a ^ b
            };
            step(s, random) == (MachineState {
                registers: s.registers.update(reg_x(s), v),
                ..past(s)
            })
        }),
{
    lemma_fetch_fields(s);
}

/// The registers after `VF` is set to `flag` and then `Vx` to `v`.
pub open spec fn flag_then_x(s: MachineState, flag: u8, v: u8) -> Seq<u8> {
    s.registers.update(15, flag).update(reg_x(s), v)
}

/// The registers after `VF` is set to `flag`.
pub open spec fn with_flag(s: MachineState, flag: u8) -> Seq<u8> {
    s.registers.update(15, flag)
}

/// `8xy4`: `VF` is the carry of `Vx + Vy`, then `Vx` is the sum modulo 256.
pub proof fn law_add_variables(s: MachineState, random: u8)
    requires
        fetchable(s),
        hi(s) / 16 == 8,
        lo(s) % 16 == 4,
    ensures
        can_step(s),
        ({
            let sum = s.registers[reg_x(s)] + s.registers[reg_y(s)];
            step(s, random) == (MachineState {
                registers: flag_then_x(s, if sum >= 256 { 1u8 } else { 0u8 }, (sum % 256) as u8),
                ..past(s)
            })
        }),
{
    lemma_fetch_fields(s);
}

/// `8xy5`: `VF` is 1 when `Vx > Vy`; then `Vx` becomes `Vx - Vy` modulo 256, both read
/// after the flag is written.
pub proof fn law_subtract_variables(s: MachineState, random: u8)
    requires
        fetchable(s),
        hi(s) / 16 == 8,
        lo(s) % 16 == 5,
    ensures
        can_step(s),
        ({
            let f = if s.registers[reg_x(s)] > s.registers[reg_y(s)] { 1u8 } else { 0u8 };
            let r = with_flag(s, f);
            step(s, random) == (MachineState {
                registers: flag_then_x(s, f, ((r[reg_x(s)] - r[reg_y(s)] + 256) % 256) as u8),
                ..past(s)
            })
        }),
{
    lemma_fetch_fields(s);
}

/// `8xy6`: `VF` is the low bit of `Vx`; then `Vx` is halved (read after the flag).
pub proof fn law_right_shift(s: MachineState, random: u8)
    requires
        fetchable(s),
        hi(s) / 16 == 8,
        lo(s) % 16 == 6,
    ensures
        can_step(s),
        ({
            let f = (s.registers[reg_x(s)] % 2) as u8;
            step(s, random) == (MachineState {
                registers: flag_then_x(s, f, (with_flag(s, f)[reg_x(s)] / 2) as u8),
                ..past(s)
            })
        }),
{
    lemma_fetch_fields(s);
}

/// `8xy7`: `VF` is 1 when `Vy > Vx`; then `Vx` becomes `Vy - Vx` modulo 256, both read
/// after the flag is written.
pub proof fn law_subtract_variables_n(s: MachineState, random: u8)
    requires
        fetchable(s),
        hi(s) / 16 == 8,
        lo(s) % 16 == 7,
    ensures
        can_step(s),
        ({
            let f = if s.registers[reg_y(s)] > s.registers[reg_x(s)] { 1u8 } else { 0u8 };
            let r = with_flag(s, f);
            step(s, random) == (MachineState {
                registers: flag_then_x(s, f, ((r[reg_y(s)] - r[reg_x(s)] + 256) % 256) as u8),
                ..past(s)
            })
        }),
{
    lemma_fetch_fields(s);
}

/// `8xyE`: `VF` is the high bit of `Vx`; then `Vx` is doubled modulo 256 (read after the
/// flag).
pub proof fn law_shift_left(s: MachineState, random: u8)
    requires
        fetchable(s),
        hi(s) / 16 == 8,
        lo(s) % 16 == 0xE,
    ensures
        can_step(s),
        ({
            let f = (s.registers[reg_x(s)] / 128) as u8;
            step(s, random) == (MachineState {
                registers: flag_then_x(s, f, ((with_flag(s, f)[reg_x(s)] * 2) % 256) as u8),
                ..past(s)
            })
        }),
{
    lemma_fetch_fields(s);
}

/// `Annn` sets `I` to `nnn`.
pub proof fn law_load_index(s: MachineState, random: u8)
    requires
        fetchable(s),
        hi(s) / 16 == 0xA,
    ensures
        can_step(s),
        step(s, random) == (MachineState { index: (reg_x(s) * 256 + lo(s)) as u16, ..past(s) }),
{
    lemma_fetch_fields(s);
}

/// `Bnnn` jumps to `V0 + nnn`.
pub proof fn law_jump_to_location(s: MachineState, random: u8)
    requires
        fetchable(s),
        hi(s) / 16 == 0xB,
    ensures
        can_step(s),
        step(s, random) == (MachineState {
            program_counter: (s.registers[0] + reg_x(s) * 256 + lo(s)) as u16,
            ..past(s)
        }),
{
    lemma_fetch_fields(s);
}

/// `Cxkk` sets `Vx` to the drawn byte masked with `kk`.
pub proof fn law_random_byte(s: MachineState, random: u8)
    requires
        fetchable(s),
        hi(s) / 16 == 0xC,
    ensures
        can_step(s),
        step(s, random) == (MachineState {
            registers: s.registers.update(reg_x(s), random & (lo(s) as u8)),
            ..past(s)
        }),
{
    lemma_fetch_fields(s);
}

/// `Ex9E` skips the next instruction when key `Vx` is held; `ExA1` when it is not.
pub proof fn law_skip_on_key(s: MachineState, random: u8)
    requires
        fetchable(s),
        hi(s) / 16 == 0xE,
        lo(s) == 0x9E || lo(s) == 0xA1,
        s.registers[reg_x(s)] < 16,
    ensures
        can_step(s),
        ({
            let held = s.keypad[s.registers[reg_x(s)] as int] > 0;
            step(s, random) == (MachineState {
                program_counter: pc_after_skip(s, if lo(s) == 0x9E { held } else { !held }),
                ..past(s)
            })
        }),
{
    lemma_fetch_fields(s);
}

/// `Fx0A` with key `k` the lowest held key sets `Vx` to `k` and moves on.
pub proof fn law_wait_for_keypress_held(s: MachineState, random: u8, k: int)
    requires
        fetchable(s),
        hi(s) / 16 == 0xF,
        lo(s) == 0x0A,
        0 <= k < 16,
        s.keypad[k] > 0,
        forall|j: int| 0 <= j < k ==> s.keypad[j] == 0,
    ensures
        can_step(s),
        step(s, random) == (MachineState {
            registers: s.registers.update(reg_x(s), k as u8),
            ..past(s)
        }),
{
    lemma_fetch_fields(s);
    lemma_first_pressed_is_lowest(s.keypad, k, 0);
}

/// `Fx0A` with no key held changes nothing but the opcode: the instruction runs again.
pub proof fn law_wait_for_keypress_none(s: MachineState, random: u8)
    requires
        fetchable(s),
        hi(s) / 16 == 0xF,
        lo(s) == 0x0A,
        forall|j: int| 0 <= j < 16 ==> s.keypad[j] == 0,
    ensures
        can_step(s),
        step(s, random) == (MachineState { program_counter: s.program_counter, ..past(s) }),
{
    lemma_fetch_fields(s);
    lemma_first_pressed_none(s.keypad, 0);
}

/// The lowest held key from `from` on is `k` when `k` is held and none between is.
proof fn lemma_first_pressed_is_lowest(keypad: Seq<u8>, k: int, from: int)
    requires
        0 <= from <= k < 16,
        keypad[k] > 0,
        forall|j: int| from <= j < k ==> keypad[j] == 0,
    ensures
        crate::state::first_pressed(keypad, from) == k,
    decreases k - from,
{
    if from < k {
        lemma_first_pressed_is_lowest(keypad, k, from + 1);
    }
}

/// With no key held from `from` on, there is no lowest held key.
proof fn lemma_first_pressed_none(keypad: Seq<u8>, from: int)
    requires
        0 <= from <= 16,
        forall|j: int| from <= j < 16 ==> keypad[j] == 0,
    ensures
        crate::state::first_pressed(keypad, from) == 16,
    decreases 16 - from,
{
    if from < 16 {
        lemma_first_pressed_none(keypad, from + 1);
    }
}

/// `Fx15` sets the delay timer and `Fx18` the sound timer to `Vx`.
pub proof fn law_set_timers(s: MachineState, random: u8)
    requires
        fetchable(s),
        hi(s) / 16 == 0xF,
        lo(s) == 0x15 || lo(s) == 0x18,
    ensures
        can_step(s),
        lo(s) == 0x15 ==> step(s, random) == (MachineState {
            delay_timer: s.registers[reg_x(s)],
            ..past(s)
        }),
        lo(s) == 0x18 ==> step(s, random) == (MachineState {
            sound_timer: s.registers[reg_x(s)],
            ..past(s)
        }),
{
    lemma_fetch_fields(s);
}

/// `Fx1E` adds `Vx` to `I`.
pub proof fn law_add_to_index(s: MachineState, random: u8)
    requires
        fetchable(s),
        hi(s) / 16 == 0xF,
        lo(s) == 0x1E,
        s.index + s.registers[reg_x(s)] <= 0xFFFF,
    ensures
        can_step(s),
        step(s, random) == (MachineState {
            index: (s.index + s.registers[reg_x(s)]) as u16,
            ..past(s)
        }),
{
    lemma_fetch_fields(s);
}

/// `Fx29` points `I` at the five-byte glyph of digit `Vx` in the font at `0x50`.
pub proof fn law_load_font(s: MachineState, random: u8)
    requires
        fetchable(s),
        hi(s) / 16 == 0xF,
        lo(s) == 0x29,
    ensures
        can_step(s),
        step(s, random) == (MachineState {
            index: (0x50 + 5 * s.registers[reg_x(s)]) as u16,
            ..past(s)
        }),
{
    lemma_fetch_fields(s);
}

/// `Fx33` writes the hundreds, tens and units of `Vx` at `I`, `I + 1`, `I + 2`.
pub proof fn law_store_bcd(s: MachineState, random: u8)
    requires
        fetchable(s),
        hi(s) / 16 == 0xF,
        lo(s) == 0x33,
        s.index + 2 < 4096,
    ensures
        can_step(s),
        ({
            let v = s.registers[reg_x(s)];
            step(s, random) == (MachineState {
                memory: s.memory.update(s.index as int, v / 100).update(s.index + 1, (v / 10) % 10)
                    .update(s.index + 2, v % 10),
                ..past(s)
            })
        }),
{
    lemma_fetch_fields(s);
    let v = s.registers[reg_x(s)];
    let m1 = s.memory.update(s.index + 2, v % 10).update(s.index + 1, (v / 10) % 10).update(
        s.index as int,
        v / 100,
    );
    let m2 = s.memory.update(s.index as int, v / 100).update(s.index + 1, (v / 10) % 10).update(
        s.index + 2,
        v % 10,
    );
    assert(m1 =~= m2);
}

/// `Fx55` stores `V0` to `Vx` at `I` onwards; the rest of memory is unchanged.
pub proof fn law_store_up_to_variable(s: MachineState, random: u8)
    requires
        fetchable(s),
        hi(s) / 16 == 0xF,
        lo(s) == 0x55,
        s.index + reg_x(s) < 4096,
    ensures
        can_step(s),
        ({
            let t = step(s, random);
            &&& t == (MachineState { memory: t.memory, ..past(s) })
            &&& t.memory.len() == 4096
            &&& forall|i: int| 0 <= i <= reg_x(s) ==> #[trigger] t.memory[s.index + i] == s.registers[i]
            &&& forall|a: int|
                0 <= a < 4096 && !(s.index <= a <= s.index + reg_x(s)) ==> #[trigger] t.memory[a]
                    == s.memory[a]
        }),
{
    lemma_fetch_fields(s);
}

/// `Fx65` reads `V0` to `Vx` from `I` onwards; the other registers are unchanged.
pub proof fn law_read_up_to_variable(s: MachineState, random: u8)
    requires
        fetchable(s),
        hi(s) / 16 == 0xF,
        lo(s) == 0x65,
        s.index + reg_x(s) < 4096,
    ensures
        can_step(s),
        ({
            let t = step(s, random);
            &&& t == (MachineState { registers: t.registers, ..past(s) })
            &&& t.registers.len() == 16
            &&& forall|i: int| 0 <= i <= reg_x(s) ==> #[trigger] t.registers[i] == s.memory[s.index + i]
            &&& forall|i: int| reg_x(s) < i < 16 ==> #[trigger] t.registers[i] == s.registers[i]
        }),
{
    lemma_fetch_fields(s);
}


/// Column of the top left corner of the sprite of `Dxyn`: `Vx` modulo 64.
pub open spec fn sprite_x(s: MachineState) -> int {
    s.registers[reg_x(s)] as int % 64
}

/// Row of the top left corner of the sprite of `Dxyn`: `Vy` modulo 32.
pub open spec fn sprite_y(s: MachineState) -> int {
    s.registers[reg_y(s)] as int % 32
}

/// Number of sprite rows of `Dxyn`.
pub open spec fn sprite_rows(s: MachineState) -> int {
    lo(s) % 16
}

/// Whether bit `col` (from the most significant) of sprite row `row`, the byte at `I + row`,
/// is set.
pub open spec fn sprite_on(s: MachineState, row: int, col: int) -> bool {
    s.memory[s.index + row] & (0x80u8 >> (col as u8)) != 0u8
}

/// The pixel under sprite cell (`row`, `col`).
pub open spec fn cell(s: MachineState, row: int, col: int) -> int {
    (sprite_y(s) + row) * 64 + sprite_x(s) + col
}

/// The sprite rows lie in memory and its last pixel on the screen.
pub open spec fn sprite_fits(s: MachineState) -> bool {
    sprite_rows(s) >= 1 ==> {
        &&& s.index + sprite_rows(s) - 1 < 4096
        &&& cell(s, sprite_rows(s) - 1, 7) < 2048
    }
}

/// Whether sprite cell (`row`, `col`) is set and lies on a lit pixel.
pub open spec fn cell_collides(s: MachineState, row: int, col: int) -> bool {
    &&& 0 <= row < sprite_rows(s)
    &&& 0 <= col < 8
    &&& sprite_on(s, row, col)
    &&& s.video[cell(s, row, col)] == 0xFFFFFFFFu32
}

/// A pixel offset from the sprite's corner decomposes into its sprite row and column.
proof fn lemma_cell_offset(s: MachineState, i: int)
    ensures
        ({
            let d = i - (sprite_y(s) * 64 + sprite_x(s));
            i == cell(s, d / 64, d % 64) && 0 <= d % 64 < 64
        }),
{
    let d = i - (sprite_y(s) * 64 + sprite_x(s));
    vstd::arithmetic::div_mod::lemma_fundamental_div_mod(d, 64);
}

/// The sprite cell of pixel `cell(row, col)` is (`row`, `col`).
proof fn lemma_cell_unique(s: MachineState, row: int, col: int)
    requires
        0 <= col < 8,
    ensures
        ({
            let d = cell(s, row, col) - (sprite_y(s) * 64 + sprite_x(s));
            d / 64 == row && d % 64 == col
        }),
{
    vstd::arithmetic::div_mod::lemma_fundamental_div_mod_converse(row * 64 + col, 64, row, col);
}

/// `Dxyn` XORs the sprite onto the screen: the pixel under every set sprite bit flips, the
/// pixel under every clear bit stays, every pixel outside the sprite stays, and nothing
/// but the screen and `VF` changes.
pub proof fn law_draw_pixels(s: MachineState, random: u8)
    requires
        fetchable(s),
        hi(s) / 16 == 0xD,
        sprite_fits(s),
    ensures
        can_step(s),
        step(s, random).video.len() == 2048,
        forall|row: int, col: int|
            0 <= row < sprite_rows(s) && 0 <= col < 8 ==> #[trigger] step(s, random).video[cell(
                s,
                row,
                col,
            )] == s.video[cell(s, row, col)] ^ (if sprite_on(s, row, col) {
                0xFFFFFFFFu32
            } else {
                0u32
            }),
        forall|i: int|
            0 <= i < 2048 && (forall|row: int, col: int|
                0 <= row < sprite_rows(s) && 0 <= col < 8 ==> i != #[trigger] cell(s, row, col))
                ==> #[trigger] step(s, random).video[i] == s.video[i],
        step(s, random) == (MachineState {
            video: step(s, random).video,
            registers: s.registers.update(15, step(s, random).registers[15]),
            ..past(s)
        }),
{
    lemma_fetch_fields(s);
    let t = fetch(s);
    assert(draw_x(t) == sprite_x(s) && draw_y(t) == sprite_y(s));
    assert(step(s, random) == draw_effect(t));
    assert forall|v: u32| #[trigger] (v ^ 0u32) == v by {
        assert(v ^ 0u32 == v) by (bit_vector);
    }
    assert forall|row: int, col: int|
        0 <= row < sprite_rows(s) && 0 <= col < 8 implies #[trigger] step(s, random).video[cell(
            s,
            row,
            col,
        )] == s.video[cell(s, row, col)] ^ (if sprite_on(s, row, col) {
            0xFFFFFFFFu32
        } else {
            0u32
        }) by {
        lemma_cell_unique(s, row, col);
        assert(draw_hits(t, cell(s, row, col)) == sprite_on(s, row, col));
    }
    assert forall|i: int|
        0 <= i < 2048 && (forall|row: int, col: int|
            0 <= row < sprite_rows(s) && 0 <= col < 8 ==> i != #[trigger] cell(s, row, col))
            implies #[trigger] step(s, random).video[i] == s.video[i] by {
        lemma_cell_offset(s, i);
        let d = i - (sprite_y(s) * 64 + sprite_x(s));
        assert(i == cell(s, d / 64, d % 64));
        assert(!draw_hits(t, i));
    }
    assert(step(s, random).registers =~= s.registers.update(15, step(s, random).registers[15]));
}

/// `Dxyn` sets `VF` to 1 exactly when some set bit of the sprite, in any of its rows, lies
/// on a lit pixel, and to 0 otherwise.
pub proof fn law_draw_collision(s: MachineState, random: u8)
    requires
        fetchable(s),
        hi(s) / 16 == 0xD,
        sprite_fits(s),
    ensures
        can_step(s),
        step(s, random).registers[15] == (if exists|row: int, col: int|
            #[trigger] cell_collides(s, row, col) {
            1u8
        } else {
            0u8
        }),
{
    lemma_fetch_fields(s);
    let t = fetch(s);
    assert(draw_x(t) == sprite_x(s) && draw_y(t) == sprite_y(s));
    assert(step(s, random) == draw_effect(t));
    if exists|row: int, col: int| #[trigger] cell_collides(s, row, col) {
        let (row, col) = choose|row: int, col: int| #[trigger] cell_collides(s, row, col);
        lemma_cell_unique(s, row, col);
        let i = cell(s, row, col);
        assert(0 <= i < 2048) by {
            assert(cell(s, row, col) <= cell(s, sprite_rows(s) - 1, 7));
        }
        assert(draw_hits(t, i));
        assert(draw_collides(t));
    }
    if draw_collides(t) {
        let i = choose|i: int| 0 <= i < 2048 && #[trigger] draw_hits(t, i) && t.video[i] == 0xFFFFFFFFu32;
        lemma_cell_offset(s, i);
        let d = i - (sprite_y(s) * 64 + sprite_x(s));
        assert(cell_collides(s, d / 64, d % 64));
    }
}


/// A timer tick lowers each non-zero timer by one, leaves a zero timer at zero, and changes
/// nothing else.
pub proof fn law_timers_tick(s: MachineState)
    ensures
        timers_tick(s).delay_timer == (if s.delay_timer == 0 { 0 } else { s.delay_timer - 1 }),
        timers_tick(s).sound_timer == (if s.sound_timer == 0 { 0 } else { s.sound_timer - 1 }),
        timers_tick(s) == (MachineState {
            delay_timer: timers_tick(s).delay_timer,
            sound_timer: timers_tick(s).sound_timer,
            ..s
        }),
{
}

/// Pressing key `k` marks it held (1), releasing marks it free (0); no other key and
/// nothing else changes.
pub proof fn law_key_press(s: MachineState, k: int, pressed: bool)
    requires
        s.well_formed(),
        0 <= k < 16,
    ensures
        key_press_effect(s, k, pressed).keypad[k] == (if pressed { 1u8 } else { 0u8 }),
        forall|j: int| 0 <= j < 16 && j != k ==> #[trigger] key_press_effect(s, k, pressed).keypad[j]
            == s.keypad[j],
        key_press_effect(s, k, pressed) == (MachineState {
            keypad: key_press_effect(s, k, pressed).keypad,
            ..s
        }),
{
}

/// Loading a program puts its byte `i` at `0x200 + i` and leaves every other byte.
pub proof fn law_load_rom(memory: Seq<u8>, rom: Seq<u8>)
    requires
        memory.len() == 4096,
        rom.len() <= 3584,
    ensures
        memory_with_rom(memory, rom).len() == 4096,
        forall|i: int| 0 <= i < rom.len() ==> #[trigger] memory_with_rom(memory, rom)[0x200 + i] == rom[i],
        forall|a: int|
            0 <= a < 4096 && !(0x200 <= a < 0x200 + rom.len()) ==> #[trigger] memory_with_rom(memory, rom)[a]
                == memory[a],
{
}

/// A new machine runs from `0x200` with clear registers, timers, stack, keys and screen, and
/// glyph `d` of the font as the five bytes at `0x50 + 5 * d`: the glyph of 0 is
/// `F0 90 90 90 F0`, and every byte outside the font is zero.
pub proof fn law_initial_state()
    ensures
        initial_state().program_counter == 0x200,
        initial_state().index == 0,
        initial_state().stack_pointer == 0,
        initial_state().delay_timer == 0,
        initial_state().sound_timer == 0,
        forall|r: int| 0 <= r < 16 ==> #[trigger] initial_state().registers[r] == 0,
        forall|k: int| 0 <= k < 16 ==> #[trigger] initial_state().keypad[k] == 0,
        forall|i: int| 0 <= i < 2048 ==> #[trigger] initial_state().video[i] == 0,
        initial_state().memory[0x50] == 0xF0 && initial_state().memory[0x51] == 0x90
            && initial_state().memory[0x52] == 0x90 && initial_state().memory[0x53] == 0x90
            && initial_state().memory[0x54] == 0xF0,
        initial_state().memory[0x9B] == 0xF0 && initial_state().memory[0x9F] == 0x80,
        forall|a: int| 0 <= a < 4096 && !(0x50 <= a < 0xA0) ==> #[trigger] initial_state().memory[a] == 0,
{
}

} // verus!
