//! The mathematical model of a CHIP-8 machine and the effect of each instruction on it.
use vstd::prelude::*;

verus! {

/// Where programs are loaded and where execution starts.
pub const START_ADDRESS: u16 = 0x200;

/// Where the built-in hexadecimal font lives in memory.
pub const FONT_SET_START_ADDRESS: u16 = 0x50;

/// Number of bytes of the built-in font (sixteen glyphs of five bytes).
pub const FONT_SET_SIZE: usize = 80;

/// Height of the screen in pixels.
pub const VIDEO_HEIGHT: u8 = 32;

/// Width of the screen in pixels.
pub const VIDEO_WIDTH: u8 = 64;

/// Number of pixels of the screen.
pub const VIDEO_SIZE: usize = 2048;

/// Number of bytes of memory.
pub const MEMORY_SIZE: usize = 4096;

/// Longest program that fits between `START_ADDRESS` and the end of memory.
pub const MAX_ROM_SIZE: usize = 3584;

/// Value of a lit pixel; drawing a sprite bit flips a pixel between this and zero.
pub const PIXEL_ON: u32 = 0xFFFFFFFF;

/// The built-in font: glyphs `0` to `F`, five rows of four pixels each.
pub const FONT_SET: [u8; 80] = [
    0xF0, 0x90, 0x90, 0x90, 0xF0, // 0
    0x20, 0x60, 0x20, 0x20, 0x70, // 1
    0xF0, 0x10, 0xF0, 0x80, 0xF0, // 2
    0xF0, 0x10, 0xF0, 0x10, 0xF0, // 3
    0x90, 0x90, 0xF0, 0x10, 0x10, // 4
    0xF0, 0x80, 0xF0, 0x10, 0xF0, // 5
    0xF0, 0x80, 0xF0, 0x90, 0xF0, // 6
    0xF0, 0x10, 0x20, 0x40, 0x40, // 7
    0xF0, 0x90, 0xF0, 0x90, 0xF0, // 8
    0xF0, 0x90, 0xF0, 0x10, 0xF0, // 9
    0xF0, 0x90, 0xF0, 0x90, 0x90, // A
    0xE0, 0x90, 0xE0, 0x90, 0xE0, // B
    0xF0, 0x80, 0x80, 0x80, 0xF0, // C
    0xE0, 0x90, 0x90, 0x90, 0xE0, // D
    0xF0, 0x80, 0xF0, 0x80, 0xF0, // E
    0xF0, 0x80, 0xF0, 0x80, 0x80,  // F
];

/// The font as a sequence, for contracts.
pub open spec fn font_set() -> Seq<u8> {
    seq![
        0xF0u8, 0x90u8, 0x90u8, 0x90u8, 0xF0u8,
        0x20u8, 0x60u8, 0x20u8, 0x20u8, 0x70u8,
        0xF0u8, 0x10u8, 0xF0u8, 0x80u8, 0xF0u8,
        0xF0u8, 0x10u8, 0xF0u8, 0x10u8, 0xF0u8,
        0x90u8, 0x90u8, 0xF0u8, 0x10u8, 0x10u8,
        0xF0u8, 0x80u8, 0xF0u8, 0x10u8, 0xF0u8,
        0xF0u8, 0x80u8, 0xF0u8, 0x90u8, 0xF0u8,
        0xF0u8, 0x10u8, 0x20u8, 0x40u8, 0x40u8,
        0xF0u8, 0x90u8, 0xF0u8, 0x90u8, 0xF0u8,
        0xF0u8, 0x90u8, 0xF0u8, 0x10u8, 0xF0u8,
        0xF0u8, 0x90u8, 0xF0u8, 0x90u8, 0x90u8,
        0xE0u8, 0x90u8, 0xE0u8, 0x90u8, 0xE0u8,
        0xF0u8, 0x80u8, 0x80u8, 0x80u8, 0xF0u8,
        0xE0u8, 0x90u8, 0x90u8, 0x90u8, 0xE0u8,
        0xF0u8, 0x80u8, 0xF0u8, 0x80u8, 0xF0u8,
        0xF0u8, 0x80u8, 0xF0u8, 0x80u8, 0x80u8,
    ]
}

/// Everything a CHIP-8 machine holds, as mathematical values.
#[verifier::ext_equal]
pub struct MachineState {
    /// `V0` to `VF`.
    pub registers: Seq<u8>,
    pub memory: Seq<u8>,
    /// The `I` register.
    pub index: u16,
    pub program_counter: u16,
    pub stack: Seq<u16>,
    pub stack_pointer: u8,
    pub delay_timer: u8,
    pub sound_timer: u8,
    /// Non-zero where a key is held.
    pub keypad: Seq<u8>,
    /// Row-major pixels, `VIDEO_WIDTH` per row.
    pub video: Seq<u32>,
    /// The instruction being executed.
    pub opcode: u16,
}

impl MachineState {
    /// Every sequence has the length of the storage it models.
    pub open spec fn well_formed(self) -> bool {
        &&& self.registers.len() == 16
        &&& self.memory.len() == 4096
        &&& self.stack.len() == 16
        &&& self.keypad.len() == 16
        &&& self.video.len() == 2048
    }
}

/// A freshly built machine: the font at `FONT_SET_START_ADDRESS`, the program counter at
/// `START_ADDRESS`, everything else zero.
pub open spec fn initial_state() -> MachineState {
    MachineState {
        registers: Seq::new(16, |i: int| 0u8),
        memory: Seq::new(
            4096,
            |a: int| if 0x50 <= a < 0xA0 { font_set()[a - 0x50] } else { 0u8 },
        ),
        index: 0,
        program_counter: 0x200,
        stack: Seq::new(16, |i: int| 0u16),
        stack_pointer: 0,
        delay_timer: 0,
        sound_timer: 0,
        keypad: Seq::new(16, |i: int| 0u8),
        video: Seq::new(2048, |i: int| 0u32),
        opcode: 0,
    }
}

/// Memory after a program is copied to `START_ADDRESS`.
pub open spec fn memory_with_rom(memory: Seq<u8>, rom: Seq<u8>) -> Seq<u8> {
    Seq::new(
        memory.len(),
        |a: int| if 0x200 <= a < 0x200 + rom.len() { rom[a - 0x200] } else { memory[a] },
    )
}

// ---------------------------------------------------------------------------------------
// Fields of an opcode
// ---------------------------------------------------------------------------------------

/// The `x` nibble of `_x__`.
pub open spec fn op_x(op: u16) -> int {
    (op as int / 0x100) % 0x10
}

/// The `y` nibble of `__y_`.
pub open spec fn op_y(op: u16) -> int {
    (op as int / 0x10) % 0x10
}

/// The `n` nibble of `___n`.
pub open spec fn op_n(op: u16) -> int {
    op as int % 0x10
}

/// The byte `kk` of `__kk`.
pub open spec fn op_kk(op: u16) -> int {
    op as int % 0x100
}

/// The address `nnn` of `_nnn`.
pub open spec fn op_nnn(op: u16) -> int {
    op as int % 0x1000
}

/// The leading nibble, which selects the instruction group.
pub open spec fn op_group(op: u16) -> int {
    op as int / 0x1000
}

/// `Vx` of the current instruction.
pub open spec fn vx(s: MachineState) -> u8 {
    s.registers[op_x(s.opcode)]
}

/// `Vy` of the current instruction.
pub open spec fn vy(s: MachineState) -> u8 {
    s.registers[op_y(s.opcode)]
}

/// The program counter moved past the next instruction.
pub open spec fn skipped(s: MachineState) -> MachineState {
    MachineState { program_counter: (s.program_counter + 2) as u16, ..s }
}

/// `Vx` set to `v`.
pub open spec fn set_vx(s: MachineState, v: u8) -> MachineState {
    MachineState { registers: s.registers.update(op_x(s.opcode), v), ..s }
}

/// `VF` set to `flag`, then `Vx` set to `v`.
pub open spec fn flag_then_vx(s: MachineState, flag: u8, v: u8) -> MachineState {
    let r1 = s.registers.update(15, flag);
    MachineState { registers: r1.update(op_x(s.opcode), v), ..s }
}

/// The registers after `VF` was set to `flag`.
pub open spec fn flagged(s: MachineState, flag: u8) -> Seq<u8> {
    s.registers.update(15, flag)
}

// ---------------------------------------------------------------------------------------
// The instructions
// ---------------------------------------------------------------------------------------

/// `00E0` CLS: every pixel off.
pub open spec fn cls_effect(s: MachineState) -> MachineState {
    MachineState { video: Seq::new(2048, |i: int| 0u32), ..s }
}

/// `00EE` RET needs a return address on the stack.
pub open spec fn ret_ok(s: MachineState) -> bool {
    1 <= s.stack_pointer <= 16
}

/// `00EE` RET: pop the return address into the program counter.
pub open spec fn ret_effect(s: MachineState) -> MachineState {
    MachineState {
        stack_pointer: (s.stack_pointer - 1) as u8,
        program_counter: s.stack[s.stack_pointer - 1],
        ..s
    }
}

/// `1nnn` JP addr.
pub open spec fn jp_effect(s: MachineState) -> MachineState {
    MachineState { program_counter: op_nnn(s.opcode) as u16, ..s }
}

/// `2nnn` CALL needs a free stack slot.
pub open spec fn call_ok(s: MachineState) -> bool {
    s.stack_pointer < 16
}

/// `2nnn` CALL addr: push the program counter, jump to `nnn`.
pub open spec fn call_effect(s: MachineState) -> MachineState {
    MachineState {
        stack: s.stack.update(s.stack_pointer as int, s.program_counter),
        stack_pointer: (s.stack_pointer + 1) as u8,
        program_counter: op_nnn(s.opcode) as u16,
        ..s
    }
}

/// A conditional skip stays within the 16-bit program counter.
pub open spec fn skip_ok(s: MachineState, taken: bool) -> bool {
    taken ==> s.program_counter + 2 <= u16::MAX
}

/// `3xkk` SE Vx, byte: whether the next instruction is skipped.
pub open spec fn skip_equal_taken(s: MachineState) -> bool {
    vx(s) == op_kk(s.opcode)
}

/// `4xkk` SNE Vx, byte.
pub open spec fn skip_not_equal_taken(s: MachineState) -> bool {
    vx(s) != op_kk(s.opcode)
}

/// `5xy0` SE Vx, Vy.
pub open spec fn skip_if_variables_equal_taken(s: MachineState) -> bool {
    vx(s) == vy(s)
}

/// `9xy0` SNE Vx, Vy.
pub open spec fn skip_next_instruction_ne_taken(s: MachineState) -> bool {
    vy(s) != vx(s)
}

/// `Ex9E` SKP Vx needs `Vx` to name a key.
pub open spec fn key_ok(s: MachineState) -> bool {
    vx(s) < 16
}

/// `Ex9E` SKP Vx: skip when key `Vx` is held.
pub open spec fn skip_if_key_taken(s: MachineState) -> bool {
    s.keypad[vx(s) as int] > 0
}

/// `ExA1` SKNP Vx: skip when key `Vx` is not held.
pub open spec fn skip_if_not_key_taken(s: MachineState) -> bool {
    s.keypad[vx(s) as int] == 0
}

/// The effect of a conditional skip.
pub open spec fn skip_effect(s: MachineState, taken: bool) -> MachineState {
    if taken { skipped(s) } else { s }
}

/// `6xkk` LD Vx, byte.
pub open spec fn load_variable_effect(s: MachineState) -> MachineState {
    set_vx(s, op_kk(s.opcode) as u8)
}

/// `7xkk` ADD Vx, byte: the sum wraps to a byte; `VF` is not touched.
pub open spec fn add_variable_effect(s: MachineState) -> MachineState {
    set_vx(s, ((vx(s) + op_kk(s.opcode)) % 256) as u8)
}

/// `8xy0` LD Vx, Vy.
pub open spec fn load_variable_from_variable_effect(s: MachineState) -> MachineState {
    set_vx(s, vy(s))
}

/// `8xy1` OR Vx, Vy.
pub open spec fn or_variables_effect(s: MachineState) -> MachineState {
    set_vx(s, vx(s) | vy(s))
}

/// `8xy2` AND Vx, Vy.
pub open spec fn and_variables_effect(s: MachineState) -> MachineState {
    set_vx(s, vx(s) & vy(s))
}

/// `8xy3` XOR Vx, Vy.
pub open spec fn xor_variables_effect(s: MachineState) -> MachineState {
    set_vx(s, vx(s) ^ vy(s))
}

/// `8xy4` ADD Vx, Vy: `VF` is the carry, `Vx` the low byte of the sum.
pub open spec fn add_variables_effect(s: MachineState) -> MachineState {
    let sum = vx(s) + vy(s);
    flag_then_vx(s, if sum > 255 { 1u8 } else { 0u8 }, (sum % 256) as u8)
}

/// `8xy5` SUB Vx, Vy: `VF` is 1 when `Vx > Vy` (no borrow); then `Vx` becomes `Vx - Vy`
/// wrapped to a byte, both read as they stand after the flag was written.
pub open spec fn subtract_variables_effect(s: MachineState) -> MachineState {
    let f = if vx(s) > vy(s) { 1u8 } else { 0u8 };
    let r = flagged(s, f);
    flag_then_vx(s, f, ((r[op_x(s.opcode)] - r[op_y(s.opcode)] + 256) % 256) as u8)
}

/// `8xy6` SHR Vx: `VF` is the low bit of `Vx`; then `Vx` is halved (as it stands after the
/// flag was written).
pub open spec fn right_shift_effect(s: MachineState) -> MachineState {
    let f = (vx(s) % 2) as u8;
    flag_then_vx(s, f, (flagged(s, f)[op_x(s.opcode)] / 2) as u8)
}

/// `8xy7` SUBN Vx, Vy: `VF` is 1 when `Vy > Vx` (no borrow); then `Vx` becomes `Vy - Vx`
/// wrapped to a byte, both read as they stand after the flag was written.
pub open spec fn subtract_variables_n_effect(s: MachineState) -> MachineState {
    let f = if vy(s) > vx(s) { 1u8 } else { 0u8 };
    let r = flagged(s, f);
    flag_then_vx(s, f, ((r[op_y(s.opcode)] - r[op_x(s.opcode)] + 256) % 256) as u8)
}

/// `8xyE` SHL Vx: `VF` is the high bit of `Vx`; then `Vx` is doubled, dropping the carry
/// (as it stands after the flag was written).
pub open spec fn shift_left_effect(s: MachineState) -> MachineState {
    let f = (vx(s) / 128) as u8;
    flag_then_vx(s, f, ((flagged(s, f)[op_x(s.opcode)] * 2) % 256) as u8)
}

/// `Annn` LD I, addr.
pub open spec fn load_index_effect(s: MachineState) -> MachineState {
    MachineState { index: op_nnn(s.opcode) as u16, ..s }
}

/// `Bnnn` JP V0, addr.
pub open spec fn jump_to_location_effect(s: MachineState) -> MachineState {
    MachineState { program_counter: (s.registers[0] + op_nnn(s.opcode)) as u16, ..s }
}

/// `Cxkk` RND Vx, byte, given the random byte that was drawn.
pub open spec fn random_byte_effect(s: MachineState, random: u8) -> MachineState {
    set_vx(s, random & (op_kk(s.opcode) as u8))
}

/// Whether bit `col` (counted from the most significant) of a sprite row is set.
pub open spec fn sprite_bit(row: u8, col: int) -> bool {
    row & (0x80u8 >> (col as u8)) != 0
}

/// Column of the top left corner of a sprite of `DRW`.
pub open spec fn draw_x(s: MachineState) -> int {
    (vx(s) % 64) as int
}

/// Row of the top left corner of a sprite of `DRW`.
pub open spec fn draw_y(s: MachineState) -> int {
    (vy(s) % 32) as int
}

/// `Dxyn` DRW: the sprite rows are read at `I` onwards and must lie in memory; the last
/// pixel of the sprite, at offset `(y + n - 1) * 64 + x + 7`, must lie on the screen.
pub open spec fn draw_ok(s: MachineState) -> bool {
    let n = op_n(s.opcode);
    n >= 1 ==> {
        &&& s.index + n - 1 < 4096
        &&& (draw_y(s) + n - 1) * 64 + draw_x(s) + 7 < 2048
    }
}

/// Whether `DRW` flips pixel `i`: the pixel lies at row `d / 64`, column `d % 64` of the
/// sprite (with `d` its offset from the corner) and that sprite bit is set.
pub open spec fn draw_hits(s: MachineState, i: int) -> bool {
    let d = i - (draw_y(s) * 64 + draw_x(s));
    &&& 0 <= d
    &&& d / 64 < op_n(s.opcode)
    &&& d % 64 < 8
    &&& sprite_bit(s.memory[s.index + d / 64], d % 64)
}

/// Whether `DRW` turns off a lit pixel.
pub open spec fn draw_collides(s: MachineState) -> bool {
    exists|i: int| 0 <= i < 2048 && #[trigger] draw_hits(s, i) && s.video[i] == 0xFFFFFFFFu32
}

/// `Dxyn` DRW Vx, Vy, nibble: XOR an `n`-row sprite from `I` onto the screen at
/// (`Vx mod 64`, `Vy mod 32`); `VF` says whether a lit pixel was turned off.
pub open spec fn draw_effect(s: MachineState) -> MachineState {
    MachineState {
        video: Seq::new(
            2048,
            |i: int| if draw_hits(s, i) { s.video[i] ^ 0xFFFFFFFFu32 } else { s.video[i] },
        ),
        registers: s.registers.update(15, if draw_collides(s) { 1u8 } else { 0u8 }),
        ..s
    }
}

/// The lowest key from `from` on that is held, or 16 when none is.
pub open spec fn first_pressed(keypad: Seq<u8>, from: int) -> int
    decreases 16 - from,
{
    if from >= 16 {
        16
    } else if keypad[from] > 0 {
        from
    } else {
        first_pressed(keypad, from + 1)
    }
}

/// `Fx0A` LD Vx, K: when no key is held, the program counter steps back onto this
/// instruction, which needs it to be at least 2.
pub open spec fn wait_for_keypress_ok(s: MachineState) -> bool {
    first_pressed(s.keypad, 0) < 16 || s.program_counter >= 2
}

/// `Fx0A` LD Vx, K: `Vx` becomes the lowest held key; with none held the instruction
/// repeats.
pub open spec fn wait_for_keypress_effect(s: MachineState) -> MachineState {
    let k = first_pressed(s.keypad, 0);
    if k < 16 {
        set_vx(s, k as u8)
    } else {
        MachineState { program_counter: (s.program_counter - 2) as u16, ..s }
    }
}

/// `Fx15` LD DT, Vx.
pub open spec fn delay_timer_effect(s: MachineState) -> MachineState {
    MachineState { delay_timer: vx(s), ..s }
}

/// `Fx18` LD ST, Vx.
pub open spec fn sound_timer_effect(s: MachineState) -> MachineState {
    MachineState { sound_timer: vx(s), ..s }
}

/// `Fx1E` ADD I, Vx: `I` must stay within 16 bits.
pub open spec fn add_to_index_ok(s: MachineState) -> bool {
    s.index + vx(s) <= u16::MAX
}

/// `Fx1E` ADD I, Vx.
pub open spec fn add_to_index_effect(s: MachineState) -> MachineState {
    MachineState { index: (s.index + vx(s)) as u16, ..s }
}

/// `Fx29` LD F, Vx: `I` points at the glyph of digit `Vx`.
pub open spec fn load_font_effect(s: MachineState) -> MachineState {
    MachineState { index: (0x50 + 5 * vx(s)) as u16, ..s }
}

/// `Fx33` LD B, Vx: the three bytes at `I` must lie in memory.
pub open spec fn store_bcd_representation_ok(s: MachineState) -> bool {
    s.index + 2 < 4096
}

/// `Fx33` LD B, Vx: hundreds, tens and units of `Vx` at `I`, `I + 1`, `I + 2`.
pub open spec fn store_bcd_representation_effect(s: MachineState) -> MachineState {
    let v = vx(s);
    MachineState {
        memory: s.memory.update(s.index + 2, v % 10).update(s.index + 1, (v / 10) % 10).update(
            s.index as int,
            v / 100,
        ),
        ..s
    }
}

/// `Fx55` / `Fx65`: `I` to `I + x` must lie in memory.
pub open spec fn registers_block_ok(s: MachineState) -> bool {
    s.index + op_x(s.opcode) < 4096
}

/// `Fx55` LD [I], Vx: `V0` to `Vx` stored at `I` onwards.
pub open spec fn store_up_to_variable_effect(s: MachineState) -> MachineState {
    MachineState {
        memory: Seq::new(
            s.memory.len(),
            |a: int|
                if s.index <= a <= s.index + op_x(s.opcode) {
                    s.registers[a - s.index]
                } else {
                    s.memory[a]
                },
        ),
        ..s
    }
}

/// `Fx65` LD Vx, [I]: `V0` to `Vx` read from `I` onwards.
pub open spec fn read_up_to_variable_effect(s: MachineState) -> MachineState {
    MachineState {
        registers: Seq::new(
            16,
            |r: int| if r <= op_x(s.opcode) { s.memory[s.index + r] } else { s.registers[r] },
        ),
        ..s
    }
}

// ---------------------------------------------------------------------------------------
// Decoding and the machine cycle
// ---------------------------------------------------------------------------------------

/// Whether the instruction in `s.opcode` runs without fault.
pub open spec fn execute_ok(s: MachineState) -> bool {
    let op = s.opcode;
    let g = op_group(op);
    let n = op_n(op);
    let kk = op_kk(op);
    if op == 0x00EE {
        ret_ok(s)
    } else if g == 2 {
        call_ok(s)
    } else if g == 3 {
        skip_ok(s, skip_equal_taken(s))
    } else if g == 4 {
        skip_ok(s, skip_not_equal_taken(s))
    } else if g == 5 && n == 0 {
        skip_ok(s, skip_if_variables_equal_taken(s))
    } else if g == 9 && n == 0 {
        skip_ok(s, skip_next_instruction_ne_taken(s))
    } else if g == 0xD {
        draw_ok(s)
    } else if g == 0xE && kk == 0x9E {
        key_ok(s) && skip_ok(s, skip_if_key_taken(s))
    } else if g == 0xE && kk == 0xA1 {
        key_ok(s) && skip_ok(s, skip_if_not_key_taken(s))
    } else if g == 0xF && kk == 0x0A {
        wait_for_keypress_ok(s)
    } else if g == 0xF && kk == 0x1E {
        add_to_index_ok(s)
    } else if g == 0xF && kk == 0x33 {
        store_bcd_representation_ok(s)
    } else if g == 0xF && (kk == 0x55 || kk == 0x65) {
        registers_block_ok(s)
    } else {
        true
    }
}

/// The effect of the instruction in `s.opcode`, with `random` the byte that `Cxkk` draws.
/// An opcode that names no instruction changes nothing.
pub open spec fn execute_effect(s: MachineState, random: u8) -> MachineState {
    let op = s.opcode;
    let g = op_group(op);
    let n = op_n(op);
    let kk = op_kk(op);
    if op == 0x00E0 {
        cls_effect(s)
    } else if op == 0x00EE {
        ret_effect(s)
    } else if g == 1 {
        jp_effect(s)
    } else if g == 2 {
        call_effect(s)
    } else if g == 3 {
        skip_effect(s, skip_equal_taken(s))
    } else if g == 4 {
        skip_effect(s, skip_not_equal_taken(s))
    } else if g == 5 && n == 0 {
        skip_effect(s, skip_if_variables_equal_taken(s))
    } else if g == 6 {
        load_variable_effect(s)
    } else if g == 7 {
        add_variable_effect(s)
    } else if g == 8 && n == 0 {
        load_variable_from_variable_effect(s)
    } else if g == 8 && n == 1 {
        or_variables_effect(s)
    } else if g == 8 && n == 2 {
        and_variables_effect(s)
    } else if g == 8 && n == 3 {
        xor_variables_effect(s)
    } else if g == 8 && n == 4 {
        add_variables_effect(s)
    } else if g == 8 && n == 5 {
        subtract_variables_effect(s)
    } else if g == 8 && n == 6 {
        right_shift_effect(s)
    } else if g == 8 && n == 7 {
        subtract_variables_n_effect(s)
    } else if g == 8 && n == 0xE {
        shift_left_effect(s)
    } else if g == 9 && n == 0 {
        skip_effect(s, skip_next_instruction_ne_taken(s))
    } else if g == 0xA {
        load_index_effect(s)
    } else if g == 0xB {
        jump_to_location_effect(s)
    } else if g == 0xC {
        random_byte_effect(s, random)
    } else if g == 0xD {
        draw_effect(s)
    } else if g == 0xE && kk == 0x9E {
        skip_effect(s, skip_if_key_taken(s))
    } else if g == 0xE && kk == 0xA1 {
        skip_effect(s, skip_if_not_key_taken(s))
    } else if g == 0xF && kk == 0x0A {
        wait_for_keypress_effect(s)
    } else if g == 0xF && kk == 0x15 {
        delay_timer_effect(s)
    } else if g == 0xF && kk == 0x18 {
        sound_timer_effect(s)
    } else if g == 0xF && kk == 0x1E {
        add_to_index_effect(s)
    } else if g == 0xF && kk == 0x29 {
        load_font_effect(s)
    } else if g == 0xF && kk == 0x33 {
        store_bcd_representation_effect(s)
    } else if g == 0xF && kk == 0x55 {
        store_up_to_variable_effect(s)
    } else if g == 0xF && kk == 0x65 {
        read_up_to_variable_effect(s)
    } else {
        s
    }
}

/// The opcode stored big-endian at the program counter.
pub open spec fn opcode_at_pc(s: MachineState) -> u16 {
    (s.memory[s.program_counter as int] * 256 + s.memory[s.program_counter + 1]) as u16
}

/// Fetch: the opcode at the program counter becomes current, and the program counter
/// moves past it.
pub open spec fn fetch(s: MachineState) -> MachineState {
    MachineState {
        opcode: opcode_at_pc(s),
        program_counter: (s.program_counter + 2) as u16,
        ..s
    }
}

/// Whether one machine cycle runs without fault: the opcode lies in memory and its
/// instruction runs without fault.
pub open spec fn can_step(s: MachineState) -> bool {
    &&& s.program_counter + 1 < 4096
    &&& execute_ok(fetch(s))
}

/// One machine cycle: fetch, then execute, with `random` the byte that `Cxkk` draws.
pub open spec fn step(s: MachineState, random: u8) -> MachineState {
    execute_effect(fetch(s), random)
}

/// The timers after one tick: each counts down to zero.
pub open spec fn timers_tick(s: MachineState) -> MachineState {
    MachineState {
        delay_timer: if s.delay_timer > 0 { (s.delay_timer - 1) as u8 } else { 0u8 },
        sound_timer: if s.sound_timer > 0 { (s.sound_timer - 1) as u8 } else { 0u8 },
        ..s
    }
}

/// Key `key` held (`pressed`) or released.
pub open spec fn key_press_effect(s: MachineState, key: int, pressed: bool) -> MachineState {
    MachineState { keypad: s.keypad.update(key, if pressed { 1u8 } else { 0u8 }), ..s }
}

} // verus!
