//! The CHIP-8 machine and its instructions.
use vstd::prelude::*;
use rand::rngs::ThreadRng;
use crate::rng::{clone_thread_rng, new_thread_rng, random_in_range};
use crate::laws::{lemma_bcd_digits, lemma_draw_keeps_pixels_binary, pixels_binary};
use crate::semantics::lemma_fetch_fields;
use crate::state::{op_group, opcode_at_pc, START_ADDRESS, FONT_SET_START_ADDRESS, FONT_SET_SIZE, VIDEO_HEIGHT,
    VIDEO_WIDTH, MEMORY_SIZE, MAX_ROM_SIZE, FONT_SET, font_set, MachineState, initial_state,
    memory_with_rom, op_x, op_n, vx, vy, cls_effect, ret_ok, ret_effect, jp_effect, call_ok,
    call_effect, skip_ok, skip_equal_taken, skip_not_equal_taken,
    skip_if_variables_equal_taken, skip_next_instruction_ne_taken, key_ok, skip_if_key_taken,
    skip_if_not_key_taken, skip_effect, load_variable_effect,
    add_variable_effect, load_variable_from_variable_effect, or_variables_effect,
    and_variables_effect, xor_variables_effect, add_variables_effect,
    subtract_variables_effect, right_shift_effect,
    subtract_variables_n_effect, shift_left_effect, load_index_effect, jump_to_location_effect,
    random_byte_effect, draw_x, draw_y, draw_ok, draw_hits, draw_collides, draw_effect,
    first_pressed, wait_for_keypress_ok, wait_for_keypress_effect, delay_timer_effect,
    sound_timer_effect, add_to_index_ok, add_to_index_effect, load_font_effect,
    store_bcd_representation_ok, store_bcd_representation_effect, registers_block_ok,
    store_up_to_variable_effect, read_up_to_variable_effect, execute_ok, execute_effect,
    can_step, step, timers_tick, key_press_effect};

verus! {

/// A CHIP-8 machine.
pub struct Chip8 {
    registers: [u8; 16],
    memory: [u8; 4096],
    index: u16,
    program_counter: u16,
    stack: [u16; 16],
    stack_pointer: u8,
    delay_timer: u8,
    sound_timer: u8,
    keypad: [u8; 16],
    video: [u32; 2048],
    opcode: u16,
    random_gen: ThreadRng,
    /// The bytes drawn from the generator so far, oldest first.
    draws: Ghost<Seq<u8>>,
}

impl View for Chip8 {
    type V = MachineState;

    closed spec fn view(&self) -> MachineState {
        MachineState {
            registers: self.registers@,
            memory: self.memory@,
            index: self.index,
            program_counter: self.program_counter,
            stack: self.stack@,
            stack_pointer: self.stack_pointer,
            delay_timer: self.delay_timer,
            sound_timer: self.sound_timer,
            keypad: self.keypad@,
            video: self.video@,
            opcode: self.opcode,
        }
    }
}

/// The fields of an opcode, as the instructions extract them with masks and shifts.
proof fn lemma_decode(op: u16)
    ensures
        (op & 0x0F00) >> 8 == op / 0x100 % 0x10,
        (op & 0x00F0) >> 4 == op / 0x10 % 0x10,
        op & 0x000F == op % 0x10,
        op & 0x00FF == op % 0x100,
        op & 0x0FFF == op % 0x1000,
        (op & 0xF000) >> 12 == op / 0x1000,
        (op & 0x0F00) >> 8 < 16,
        (op & 0x00F0) >> 4 < 16,
{
    assert((op & 0x0F00) >> 8 == op / 0x100 % 0x10) by (bit_vector);
    assert((op & 0x00F0) >> 4 == op / 0x10 % 0x10) by (bit_vector);
    assert(op & 0x000F == op % 0x10) by (bit_vector);
    assert(op & 0x00FF == op % 0x100) by (bit_vector);
    assert(op & 0x0FFF == op % 0x1000) by (bit_vector);
    assert((op & 0xF000) >> 12 == op / 0x1000) by (bit_vector);
}

/// Flags and results of the shift instructions, as bit operations on a byte.
proof fn lemma_byte_bits(v: u8)
    ensures
        v & 1 == v % 2,
        v >> 1 == v / 2,
        (v & 0x80) >> 7 == v / 128,
        (v << 1) as int == (v * 2) % 256,
{
    assert(v & 1 == v % 2) by (bit_vector);
    assert(v >> 1 == v / 2) by (bit_vector);
    assert((v & 0x80) >> 7 == v / 128) by (bit_vector);
    assert((v << 1) as int == (v * 2) % 256) by (bit_vector);
}

/// Two bytes joined big-endian.
proof fn lemma_join_bytes(high: u16, low: u16)
    requires
        high < 256,
        low < 256,
    ensures
        (high << 8) | low == high * 256 + low,
{
    assert((high << 8) | low == high * 256 + low) by (bit_vector)
        requires
            high < 256,
            low < 256,
    ;
}

/// Whether `DRW` has already processed pixel `i` once it reached row `row`, column `col` of
/// the sprite: the pixel is flipped by the sprite and its sprite cell comes earlier.
spec fn drawn_before(s: MachineState, i: int, row: int, col: int) -> bool {
    let d = i - (draw_y(s) * 64 + draw_x(s));
    &&& draw_hits(s, i)
    &&& (d / 64 < row || (d / 64 == row && d % 64 < col))
}

/// Whether a lit pixel among those processed so far was hit.
spec fn collided_before(s: MachineState, row: int, col: int) -> bool {
    exists|j: int| 0 <= j < 2048 && #[trigger] drawn_before(s, j, row, col) && s.video[j] == 0xFFFFFFFFu32
}

/// Sprite cell (`row`, `col`) lies at pixel `(y + row) * 64 + x + col`, and it is the only
/// pixel that moves into the processed set when that cell is handled.
proof fn lemma_draw_cell(s: MachineState, row: int, col: int)
    requires
        0 <= row,
        0 <= col < 8,
    ensures
        ({
            let d = (draw_y(s) + row) * 64 + draw_x(s) + col - (draw_y(s) * 64 + draw_x(s));
            d / 64 == row && d % 64 == col
        }),
        forall|j: int|
            j != (draw_y(s) + row) * 64 + draw_x(s) + col ==> #[trigger] drawn_before(s, j, row, col + 1)
                == drawn_before(s, j, row, col),
        !drawn_before(s, (draw_y(s) + row) * 64 + draw_x(s) + col, row, col),
{
    let base = draw_y(s) * 64 + draw_x(s);
    vstd::arithmetic::div_mod::lemma_fundamental_div_mod_converse(row * 64 + col, 64, row, col);
    assert forall|j: int|
        j != (draw_y(s) + row) * 64 + draw_x(s) + col implies #[trigger] drawn_before(s, j, row, col + 1)
            == drawn_before(s, j, row, col) by {
        let d = j - base;
        vstd::arithmetic::div_mod::lemma_fundamental_div_mod(d, 64);
    }
}

/// Handling sprite cell (`row`, `col`) adds a collision exactly when that cell flips a lit
/// pixel.
proof fn lemma_collided_step(s: MachineState, row: int, col: int)
    requires
        0 <= row,
        0 <= col < 8,
        s.well_formed(),
        0 <= (draw_y(s) + row) * 64 + draw_x(s) + col < 2048,
    ensures
        ({
            let cell = (draw_y(s) + row) * 64 + draw_x(s) + col;
            collided_before(s, row, col + 1) == (collided_before(s, row, col) || (draw_hits(s, cell)
                && s.video[cell] == 0xFFFFFFFFu32))
        }),
{
    let cell = (draw_y(s) + row) * 64 + draw_x(s) + col;
    lemma_draw_cell(s, row, col);
    if collided_before(s, row, col + 1) {
        let j = choose|j: int| 0 <= j < 2048 && #[trigger] drawn_before(s, j, row, col + 1) && s.video[j] == 0xFFFFFFFFu32;
        if j != cell {
            assert(drawn_before(s, j, row, col));
        }
    }
    if collided_before(s, row, col) {
        let j = choose|j: int| 0 <= j < 2048 && #[trigger] drawn_before(s, j, row, col) && s.video[j] == 0xFFFFFFFFu32;
        assert(drawn_before(s, j, row, col + 1));
    }
    if draw_hits(s, cell) && s.video[cell] == 0xFFFFFFFFu32 {
        assert(drawn_before(s, cell, row, col + 1));
    }
}

/// Finishing a sprite row is the same as starting the next one.
proof fn lemma_row_done(s: MachineState, row: int)
    ensures
        forall|j: int| #[trigger] drawn_before(s, j, row, 8) == drawn_before(s, j, row + 1, 0),
        collided_before(s, row, 8) == collided_before(s, row + 1, 0),
{
    assert forall|j: int| #[trigger] drawn_before(s, j, row, 8) == drawn_before(s, j, row + 1, 0) by {}
    if collided_before(s, row, 8) {
        let j = choose|j: int| 0 <= j < 2048 && #[trigger] drawn_before(s, j, row, 8) && s.video[j] == 0xFFFFFFFFu32;
        assert(drawn_before(s, j, row + 1, 0));
    }
    if collided_before(s, row + 1, 0) {
        let j = choose|j: int| 0 <= j < 2048 && #[trigger] drawn_before(s, j, row + 1, 0) && s.video[j] == 0xFFFFFFFFu32;
        assert(drawn_before(s, j, row, 8));
    }
}

/// Once every row is processed, the processed pixels are exactly those the sprite flips.
proof fn lemma_draw_complete(s: MachineState)
    ensures
        forall|j: int| #[trigger] drawn_before(s, j, op_n(s.opcode), 0) == draw_hits(s, j),
        collided_before(s, op_n(s.opcode), 0) == draw_collides(s),
{
    assert forall|j: int| #[trigger] drawn_before(s, j, op_n(s.opcode), 0) == draw_hits(s, j) by {}
    if collided_before(s, op_n(s.opcode), 0) {
        let j = choose|j: int| 0 <= j < 2048 && #[trigger] drawn_before(s, j, op_n(s.opcode), 0) && s.video[j] == 0xFFFFFFFFu32;
        assert(draw_hits(s, j));
    }
    if draw_collides(s) {
        let j = choose|j: int| 0 <= j < 2048 && #[trigger] draw_hits(s, j) && s.video[j] == 0xFFFFFFFFu32;
        assert(drawn_before(s, j, op_n(s.opcode), 0));
    }
}

impl Chip8 {
    /// The bytes this machine has drawn from its random generator, oldest first.
    pub closed spec fn drawn(&self) -> Seq<u8> {
        self.draws@
    }

    /// The view always has the lengths of the machine's storage.
    pub proof fn lemma_view_well_formed(&self)
        ensures
            self@.well_formed(),
    {
    }

    /// A machine with the font loaded at `FONT_SET_START_ADDRESS`, the program counter at
    /// `START_ADDRESS` and everything else zero.
    pub fn new() -> (emulator: Chip8)
        ensures
            emulator@ == initial_state(),
            emulator.drawn() == Seq::<u8>::empty(),
    {
        let mut emulator_data = Chip8 {
            registers: [0; 16],
            memory: [0; 4096],
            index: 0,
            program_counter: START_ADDRESS,
            stack: [0; 16],
            stack_pointer: 0,
            delay_timer: 0,
            sound_timer: 0,
            keypad: [0; 16],
            video: [0; 2048],
            opcode: 0,
            random_gen: new_thread_rng(),
            draws: Ghost(Seq::empty()),
        };
        let font: [u8; 80] = FONT_SET;
        assert(font@ == font_set());
        let mut i: usize = 0;
        while i < FONT_SET_SIZE
            invariant
                i <= 80,
                emulator_data.drawn() == Seq::<u8>::empty(),
                font@ == font_set(),
                emulator_data@ == (MachineState {
                    memory: Seq::new(
                        4096,
                        |a: int| if 0x50 <= a < 0x50 + i { font_set()[a - 0x50] } else { 0u8 },
                    ),
                    ..initial_state()
                }),
            decreases 80 - i,
        {
            let address = FONT_SET_START_ADDRESS + i as u16;
            emulator_data.memory[address as usize] = font[i];
            i = i + 1;
        }
        emulator_data
    }

    /// Copies a program to memory at `START_ADDRESS`; the rest of memory is unchanged.
    pub fn load_rom(&mut self, rom: &[u8])
        requires
            rom@.len() <= MAX_ROM_SIZE,
        ensures
            final(self).drawn() == old(self).drawn(),
            final(self)@ == (MachineState {
                memory: memory_with_rom(old(self)@.memory, rom@),
                ..old(self)@
            }),
    {
        let mut i: usize = 0;
        while i < rom.len()
            invariant
                i <= rom@.len() <= 3584,
                self.drawn() == old(self).drawn(),
                self@ == (MachineState {
                    memory: memory_with_rom(old(self)@.memory, rom@.take(i as int)),
                    ..old(self)@
                }),
            decreases rom@.len() - i,
        {
            self.memory[0x200 + i] = rom[i];
            i = i + 1;
            assert(rom@.take(i as int) == rom@.take(i - 1).push(rom@[i - 1]));
        }
        assert(rom@.take(i as int) == rom@);
    }

    /// A random byte below 255.
    fn rand_byte(&mut self) -> (byte: u8)
        ensures
            byte < 255,
            final(self)@ == old(self)@,
            final(self).drawn() == old(self).drawn().push(byte),
    {
        let byte = random_in_range(&mut self.random_gen, 0, 255);
        self.draws = Ghost(self.draws@.push(byte));
        byte
    }

    // CLS
    fn cls(&mut self)
        ensures
            final(self).drawn() == old(self).drawn(),
            final(self)@ == cls_effect(old(self)@),
    {
        self.video = [0; 2048];
    }

    // RET
    fn ret(&mut self)
        requires
            ret_ok(old(self)@),
        ensures
            final(self).drawn() == old(self).drawn(),
            final(self)@ == ret_effect(old(self)@),
    {
        self.stack_pointer = self.stack_pointer - 1;
        self.program_counter = self.stack[self.stack_pointer as usize];
    }

    // JP
    fn jp(&mut self)
        ensures
            final(self).drawn() == old(self).drawn(),
            final(self)@ == jp_effect(old(self)@),
    {
        proof { lemma_decode(self.opcode); }
        let address = self.opcode & 0x0FFF;
        self.program_counter = address;
    }

    // CALL
    fn call(&mut self)
        requires
            call_ok(old(self)@),
        ensures
            final(self).drawn() == old(self).drawn(),
            final(self)@ == call_effect(old(self)@),
    {
        proof { lemma_decode(self.opcode); }
        let address = self.opcode & 0x0FFF;
        self.stack[self.stack_pointer as usize] = self.program_counter;
        self.stack_pointer = self.stack_pointer + 1;
        self.program_counter = address;
    }

    // Dxyn - DRW Vx, Vy, nibble
    fn draw(&mut self)
        requires
            draw_ok(old(self)@),
        ensures
            final(self).drawn() == old(self).drawn(),
            final(self)@ == draw_effect(old(self)@),
            pixels_binary(old(self)@.video) ==> pixels_binary(final(self)@.video),
    {
        proof { lemma_decode(self.opcode); }
        let ghost s0 = self@;
        let variable_x = (self.opcode & 0x0F00) >> 8;
        let variable_y = (self.opcode & 0x00F0) >> 4;
        let height = self.opcode & 0x000F;

        let position_x = self.registers[variable_x as usize] % VIDEO_WIDTH;
        let position_y = self.registers[variable_y as usize] % VIDEO_HEIGHT;

        self.registers[0xF] = 0;
        assert(!collided_before(s0, 0, 0));

        let mut row: u16 = 0;
        while row < height
            invariant
                row <= height,
                self.drawn() == old(self).drawn(),
                height == op_n(s0.opcode),
                position_x == draw_x(s0),
                position_y == draw_y(s0),
                draw_ok(s0),
                s0.well_formed(),
                self@.memory == s0.memory,
                self.index == s0.index,
                self.opcode == s0.opcode,
                self@ == (MachineState { video: self@.video, registers: self@.registers, ..s0 }),
                self@.registers == s0.registers.update(
                    15,
                    if collided_before(s0, row as int, 0) { 1u8 } else { 0u8 },
                ),
                forall|j: int|
                    0 <= j < 2048 ==> #[trigger] self@.video[j] == (if drawn_before(s0, j, row as int, 0) {
                        s0.video[j] ^ 0xFFFFFFFFu32
                    } else {
                        s0.video[j]
                    }),
            decreases height - row,
        {
            let sprite_byte = self.memory[(self.index + row) as usize];
            let mut col: u8 = 0;
            while col < 8
                invariant
                    row < height,
                    self.drawn() == old(self).drawn(),
                    col <= 8,
                    height == op_n(s0.opcode),
                    position_x == draw_x(s0),
                    position_y == draw_y(s0),
                    draw_ok(s0),
                    s0.well_formed(),
                    sprite_byte == s0.memory[s0.index + row],
                    self@ == (MachineState { video: self@.video, registers: self@.registers, ..s0 }),
                    self@.registers == s0.registers.update(
                        15,
                        if collided_before(s0, row as int, col as int) { 1u8 } else { 0u8 },
                    ),
                    forall|j: int|
                        0 <= j < 2048 ==> #[trigger] self@.video[j] == (if drawn_before(s0, j, row as int, col as int) {
                            s0.video[j] ^ 0xFFFFFFFFu32
                        } else {
                            s0.video[j]
                        }),
                decreases 8 - col,
            {
                let ghost cell = (draw_y(s0) + row) * 64 + draw_x(s0) + col;
                proof {
                    lemma_draw_cell(s0, row as int, col as int);
                    lemma_collided_step(s0, row as int, col as int);
                }
                let sprite_pixel = sprite_byte & (0x80 >> col);
                let pixel_index = (position_y as usize + row as usize) * (VIDEO_WIDTH as usize)
                    + (position_x as usize + col as usize);
                assert(pixel_index == cell);
                assert(draw_hits(s0, cell) == (sprite_pixel > 0));
                let screen_pixel = self.video[pixel_index];
                if sprite_pixel > 0 {
                    if screen_pixel == 0xFFFFFFFF {
                        self.registers[0xF] = 1;
                        assert(drawn_before(s0, cell, row as int, col + 1));
                    }
                    self.video[pixel_index] = screen_pixel ^ 0xFFFFFFFF;
                }
                col = col + 1;
            }
            proof { lemma_row_done(s0, row as int); }
            row = row + 1;
        }
        proof { lemma_draw_complete(s0); }
        assert(self@.video =~= draw_effect(s0).video);
        proof {
            if pixels_binary(s0.video) {
                lemma_draw_keeps_pixels_binary(s0);
            }
        }
    }

    // 3xkk - SE Vx, byte
    fn skip_equal(&mut self)
        requires
            skip_ok(old(self)@, skip_equal_taken(old(self)@)),
        ensures
            final(self).drawn() == old(self).drawn(),
            final(self)@ == skip_effect(old(self)@, skip_equal_taken(old(self)@)),
    {
        proof { lemma_decode(self.opcode); }
        let variable_x = (self.opcode & 0x0F00) >> 8;
        let byte = self.opcode & 0x00FF;

        if self.registers[variable_x as usize] == byte as u8 {
            self.program_counter = self.program_counter + 2;
        }
    }

    // 4xkk - SNE Vx, byte
    fn skip_not_equal(&mut self)
        requires
            skip_ok(old(self)@, skip_not_equal_taken(old(self)@)),
        ensures
            final(self).drawn() == old(self).drawn(),
            final(self)@ == skip_effect(old(self)@, skip_not_equal_taken(old(self)@)),
    {
        proof { lemma_decode(self.opcode); }
        let variable_x = (self.opcode & 0x0F00) >> 8;
        let byte = self.opcode & 0x00FF;

        if self.registers[variable_x as usize] != byte as u8 {
            self.program_counter = self.program_counter + 2;
        }
    }

    // 5xy0 - SE Vx, Vy
    fn skip_if_variables_equal(&mut self)
        requires
            skip_ok(old(self)@, skip_if_variables_equal_taken(old(self)@)),
        ensures
            final(self).drawn() == old(self).drawn(),
            final(self)@ == skip_effect(old(self)@, skip_if_variables_equal_taken(old(self)@)),
    {
        proof { lemma_decode(self.opcode); }
        let variable_x = (self.opcode & 0x0F00) >> 8;
        let variable_y = (self.opcode & 0x00F0) >> 4;

        if self.registers[variable_x as usize] == self.registers[variable_y as usize] {
            self.program_counter = self.program_counter + 2;
        }
    }

    // 6xkk - LD Vx, byte
    fn load_variable(&mut self)
        ensures
            final(self).drawn() == old(self).drawn(),
            final(self)@ == load_variable_effect(old(self)@),
    {
        proof { lemma_decode(self.opcode); }
        let variable_x = (self.opcode & 0x0F00) >> 8;
        let byte = self.opcode & 0x00FF;

        self.registers[variable_x as usize] = byte as u8;
    }

    // 7xkk - ADD Vx, byte
    fn add_variable(&mut self)
        ensures
            final(self).drawn() == old(self).drawn(),
            final(self)@ == add_variable_effect(old(self)@),
    {
        proof { lemma_decode(self.opcode); }
        let variable_x = (self.opcode & 0x0F00) >> 8;
        let byte = self.opcode & 0x00FF;

        self.registers[variable_x as usize] = self.registers[variable_x as usize].wrapping_add(
            byte as u8,
        );
    }

    // 8xy0 - LD Vx, Vy
    fn load_variable_from_variable(&mut self)
        ensures
            final(self).drawn() == old(self).drawn(),
            final(self)@ == load_variable_from_variable_effect(old(self)@),
    {
        proof { lemma_decode(self.opcode); }
        let variable_x = (self.opcode & 0x0F00) >> 8;
        let variable_y = (self.opcode & 0x00F0) >> 4;

        self.registers[variable_x as usize] = self.registers[variable_y as usize];
    }

    // 8xy1 - OR Vx, Vy
    fn or_variables(&mut self)
        ensures
            final(self).drawn() == old(self).drawn(),
            final(self)@ == or_variables_effect(old(self)@),
    {
        proof { lemma_decode(self.opcode); }
        let variable_x = (self.opcode & 0x0F00) >> 8;
        let variable_y = (self.opcode & 0x00F0) >> 4;

        self.registers[variable_x as usize] = self.registers[variable_x as usize]
            | self.registers[variable_y as usize];
    }

    // 8xy2 - AND Vx, Vy
    fn and_variables(&mut self)
        ensures
            final(self).drawn() == old(self).drawn(),
            final(self)@ == and_variables_effect(old(self)@),
    {
        proof { lemma_decode(self.opcode); }
        let variable_x = (self.opcode & 0x0F00) >> 8;
        let variable_y = (self.opcode & 0x00F0) >> 4;
        self.registers[variable_x as usize] = self.registers[variable_x as usize]
            & self.registers[variable_y as usize];
    }

    // 8xy3 - XOR Vx, Vy
    fn xor_variables(&mut self)
        ensures
            final(self).drawn() == old(self).drawn(),
            final(self)@ == xor_variables_effect(old(self)@),
    {
        proof { lemma_decode(self.opcode); }
        let variable_x = (self.opcode & 0x0F00) >> 8;
        let variable_y = (self.opcode & 0x00F0) >> 4;
        self.registers[variable_x as usize] = self.registers[variable_x as usize]
            ^ self.registers[variable_y as usize];
    }

    // 8xy4 - ADD Vx, Vy
    fn add_variables(&mut self)
        ensures
            final(self).drawn() == old(self).drawn(),
            final(self)@ == add_variables_effect(old(self)@),
    {
        proof { lemma_decode(self.opcode); }
        let variable_x = (self.opcode & 0x0F00) >> 8;
        let variable_y = (self.opcode & 0x00F0) >> 4;

        let sum = (self.registers[variable_y as usize] as u16) + (self.registers[variable_x as usize] as u16);

        if sum > 255 {
            self.registers[0xF] = 1;
        } else {
            self.registers[0xF] = 0;
        }

        proof { assert((sum & 0xFF) == sum % 256) by (bit_vector); }
        self.registers[variable_x as usize] = (sum & 0xFF) as u8;
    }

    // 8xy5 - SUB Vx, Vy
    fn subtract_variables(&mut self)
        ensures
            final(self).drawn() == old(self).drawn(),
            final(self)@ == subtract_variables_effect(old(self)@),
    {
        proof { lemma_decode(self.opcode); }
        let variable_x = (self.opcode & 0x0F00) >> 8;
        let variable_y = (self.opcode & 0x00F0) >> 4;

        if self.registers[variable_x as usize] > self.registers[variable_y as usize] {
            self.registers[0xF] = 1;
        } else {
            self.registers[0xF] = 0;
        }

        self.registers[variable_x as usize] = self.registers[variable_x as usize].wrapping_sub(
            self.registers[variable_y as usize],
        );
    }

    // 8xy6 - SHR Vx
    fn right_shift(&mut self)
        ensures
            final(self).drawn() == old(self).drawn(),
            final(self)@ == right_shift_effect(old(self)@),
    {
        proof { lemma_decode(self.opcode); }
        let variable_x = (self.opcode & 0x0F00) >> 8;
        proof { lemma_byte_bits(self.registers[variable_x as int]); }

        self.registers[0xF] = self.registers[variable_x as usize] & 0x1;

        proof { lemma_byte_bits(self.registers[variable_x as int]); }
        self.registers[variable_x as usize] = self.registers[variable_x as usize] >> 1;
    }

    // 8xy7 - SUBN Vx, Vy
    fn subtract_variables_n(&mut self)
        ensures
            final(self).drawn() == old(self).drawn(),
            final(self)@ == subtract_variables_n_effect(old(self)@),
    {
        proof { lemma_decode(self.opcode); }
        let variable_x = (self.opcode & 0x0F00) >> 8;
        let variable_y = (self.opcode & 0x00F0) >> 4;

        if self.registers[variable_y as usize] > self.registers[variable_x as usize] {
            self.registers[0xF] = 1;
        } else {
            self.registers[0xF] = 0;
        }

        self.registers[variable_x as usize] = self.registers[variable_y as usize].wrapping_sub(
            self.registers[variable_x as usize],
        );
    }

    // 8xyE - SHL Vx {, Vy}
    fn shift_left(&mut self)
        ensures
            final(self).drawn() == old(self).drawn(),
            final(self)@ == shift_left_effect(old(self)@),
    {
        proof { lemma_decode(self.opcode); }
        let variable_x = (self.opcode & 0x0F00) >> 8;
        proof { lemma_byte_bits(self.registers[variable_x as int]); }

        self.registers[0xF] = (self.registers[variable_x as usize] & 0x80) >> 7;

        proof { lemma_byte_bits(self.registers[variable_x as int]); }
        self.registers[variable_x as usize] = self.registers[variable_x as usize] << 1;
    }

    // 9xy0 - SNE Vx, Vy
    fn skip_next_instruction_ne(&mut self)
        requires
            skip_ok(old(self)@, skip_next_instruction_ne_taken(old(self)@)),
        ensures
            final(self).drawn() == old(self).drawn(),
            final(self)@ == skip_effect(old(self)@, skip_next_instruction_ne_taken(old(self)@)),
    {
        proof { lemma_decode(self.opcode); }
        let variable_x = (self.opcode & 0x0F00) >> 8;
        let variable_y = (self.opcode & 0x00F0) >> 4;

        if self.registers[variable_y as usize] != self.registers[variable_x as usize] {
            self.program_counter = self.program_counter + 2;
        }
    }

    // Annn - LD I, addr
    fn load_index(&mut self)
        ensures
            final(self).drawn() == old(self).drawn(),
            final(self)@ == load_index_effect(old(self)@),
    {
        proof { lemma_decode(self.opcode); }
        let address = self.opcode & 0x0FFF;

        self.index = address;
    }

    // Bnnn - JP V0, addr
    fn jump_to_location(&mut self)
        ensures
            final(self).drawn() == old(self).drawn(),
            final(self)@ == jump_to_location_effect(old(self)@),
    {
        proof { lemma_decode(self.opcode); }
        let address = self.opcode & 0x0FFF;

        self.program_counter = (self.registers[0] as u16) + address;
    }

    // Cxkk - RND Vx, byte, with `random` the byte drawn from the generator
    fn random_byte(&mut self, random: u8)
        ensures
            final(self).drawn() == old(self).drawn(),
            final(self)@ == random_byte_effect(old(self)@, random),
    {
        proof { lemma_decode(self.opcode); }
        let variable_x = (self.opcode & 0x0F00) >> 8;
        let byte = self.opcode & 0x00FF;

        self.registers[variable_x as usize] = random & byte as u8;
    }

    // Ex9E - SKP Vx
    fn skip_next_instruction_if_key(&mut self)
        requires
            key_ok(old(self)@),
            skip_ok(old(self)@, skip_if_key_taken(old(self)@)),
        ensures
            final(self).drawn() == old(self).drawn(),
            final(self)@ == skip_effect(old(self)@, skip_if_key_taken(old(self)@)),
    {
        proof { lemma_decode(self.opcode); }
        let variable_x = (self.opcode & 0x0F00) >> 8;
        let key = self.registers[variable_x as usize];

        if self.keypad[key as usize] > 0 {
            self.program_counter = self.program_counter + 2;
        }
    }

    // ExA1 - SKNP Vx
    fn skip_next_instruction_if_not_key(&mut self)
        requires
            key_ok(old(self)@),
            skip_ok(old(self)@, skip_if_not_key_taken(old(self)@)),
        ensures
            final(self).drawn() == old(self).drawn(),
            final(self)@ == skip_effect(old(self)@, skip_if_not_key_taken(old(self)@)),
    {
        proof { lemma_decode(self.opcode); }
        let variable_x = (self.opcode & 0x0F00) >> 8;

        let key = self.registers[variable_x as usize];

        if self.keypad[key as usize] == 0 {
            self.program_counter = self.program_counter + 2;
        }
    }

    // Fx0A - LD Vx, K
    fn wait_for_keypress(&mut self)
        requires
            wait_for_keypress_ok(old(self)@),
        ensures
            final(self).drawn() == old(self).drawn(),
            final(self)@ == wait_for_keypress_effect(old(self)@),
    {
        proof { lemma_decode(self.opcode); }
        let variable_x = (self.opcode & 0x0F00) >> 8;
        let ghost s0 = self@;

        let mut key: usize = 0;
        while key < 16
            invariant
                key <= 16,
                self@ == s0,
                s0 == old(self)@,
                self.drawn() == old(self).drawn(),
                first_pressed(s0.keypad, 0) == first_pressed(s0.keypad, key as int),
                variable_x == op_x(s0.opcode),
            decreases 16 - key,
        {
            if self.keypad[key] > 0 {
                assert(first_pressed(s0.keypad, key as int) == key as int);
                self.registers[variable_x as usize] = key as u8;
                return;
            }
            key = key + 1;
        }
        self.program_counter = self.program_counter - 2;
    }

    // Fx15 - LD DT, Vx
    fn delay_timer(&mut self)
        ensures
            final(self).drawn() == old(self).drawn(),
            final(self)@ == delay_timer_effect(old(self)@),
    {
        proof { lemma_decode(self.opcode); }
        let variable_x = (self.opcode & 0x0F00) >> 8;
        self.delay_timer = self.registers[variable_x as usize];
    }

    // Fx18 - LD ST, Vx
    fn sound_timer(&mut self)
        ensures
            final(self).drawn() == old(self).drawn(),
            final(self)@ == sound_timer_effect(old(self)@),
    {
        proof { lemma_decode(self.opcode); }
        let variable_x = (self.opcode & 0x0F00) >> 8;
        self.sound_timer = self.registers[variable_x as usize];
    }

    // Fx1E - ADD I, Vx
    fn add_to_index(&mut self)
        requires
            add_to_index_ok(old(self)@),
        ensures
            final(self).drawn() == old(self).drawn(),
            final(self)@ == add_to_index_effect(old(self)@),
    {
        proof { lemma_decode(self.opcode); }
        let variable_x = (self.opcode & 0x0F00) >> 8;
        self.index = self.index + self.registers[variable_x as usize] as u16;
    }

    // Fx29 - LD F, Vx
    fn load_font(&mut self)
        ensures
            final(self).drawn() == old(self).drawn(),
            final(self)@ == load_font_effect(old(self)@),
    {
        proof { lemma_decode(self.opcode); }
        let variable_x = (self.opcode & 0x0F00) >> 8;
        let digit = self.registers[variable_x as usize];

        self.index = FONT_SET_START_ADDRESS + (5 * (digit as u16));
    }

    // Fx33 - LD B, Vx
    fn store_bcd_representation(&mut self)
        requires
            store_bcd_representation_ok(old(self)@),
        ensures
            final(self).drawn() == old(self).drawn(),
            final(self)@ == store_bcd_representation_effect(old(self)@),
            ({
                let m = final(self)@.memory;
                let i = old(self)@.index as int;
                &&& m[i] < 10 && m[i + 1] < 10 && m[i + 2] < 10
                &&& m[i] * 100 + m[i + 1] * 10 + m[i + 2] == vx(old(self)@)
            }),
    {
        proof { lemma_bcd_digits(self@); }
        proof { lemma_decode(self.opcode); }
        let variable_x = (self.opcode & 0x0F00) >> 8;
        let mut value = self.registers[variable_x as usize];

        self.memory[(self.index + 2) as usize] = value % 10;
        value = value / 10;

        self.memory[(self.index + 1) as usize] = value % 10;
        value = value / 10;

        self.memory[self.index as usize] = value % 10;
    }

    // Fx55 - LD [I], Vx
    fn store_up_to_variable(&mut self)
        requires
            registers_block_ok(old(self)@),
        ensures
            final(self).drawn() == old(self).drawn(),
            final(self)@ == store_up_to_variable_effect(old(self)@),
    {
        proof { lemma_decode(self.opcode); }
        let variable_x = (self.opcode & 0x0F00) >> 8;
        let ghost s0 = self@;

        let mut i: u16 = 0;
        while i <= variable_x
            invariant
                variable_x == op_x(s0.opcode),
                i <= variable_x + 1,
                self.drawn() == old(self).drawn(),
                s0.index + variable_x < 4096,
                self@ == (MachineState {
                    memory: Seq::new(
                        4096,
                        |a: int|
                            if s0.index <= a < s0.index + i {
                                s0.registers[a - s0.index]
                            } else {
                                s0.memory[a]
                            },
                    ),
                    ..s0
                }),
            decreases variable_x + 1 - i,
        {
            self.memory[(self.index + i) as usize] = self.registers[i as usize];
            i = i + 1;
        }
    }

    // Fx65 - LD Vx, [I]
    fn read_up_to_variable(&mut self)
        requires
            registers_block_ok(old(self)@),
        ensures
            final(self).drawn() == old(self).drawn(),
            final(self)@ == read_up_to_variable_effect(old(self)@),
    {
        proof { lemma_decode(self.opcode); }
        let variable_x = (self.opcode & 0x0F00) >> 8;
        let ghost s0 = self@;

        let mut i: u16 = 0;
        while i <= variable_x
            invariant
                variable_x == op_x(s0.opcode),
                i <= variable_x + 1,
                self.drawn() == old(self).drawn(),
                s0.index + variable_x < 4096,
                self@ == (MachineState {
                    registers: Seq::new(
                        16,
                        |r: int| if r < i { s0.memory[s0.index + r] } else { s0.registers[r] },
                    ),
                    ..s0
                }),
            decreases variable_x + 1 - i,
        {
            self.registers[i as usize] = self.memory[(self.index + i) as usize];
            i = i + 1;
        }
    }

    /// Runs the instruction in the current opcode, with `random` the byte that `Cxkk` uses.
    /// An opcode that names no instruction changes nothing.
    fn execute(&mut self, random: u8)
        requires
            execute_ok(old(self)@),
        ensures
            final(self).drawn() == old(self).drawn(),
            final(self)@ == execute_effect(old(self)@, random),
    {
        proof { lemma_decode(self.opcode); }
        let op = self.opcode;
        let group = (op & 0xF000) >> 12;
        let n = op & 0x000F;
        let kk = op & 0x00FF;
        if op == 0x00E0 {
            self.cls();
        } else if op == 0x00EE {
            self.ret();
        } else if group == 1 {
            self.jp();
        } else if group == 2 {
            self.call();
        } else if group == 3 {
            self.skip_equal();
        } else if group == 4 {
            self.skip_not_equal();
        } else if group == 5 && n == 0 {
            self.skip_if_variables_equal();
        } else if group == 6 {
            self.load_variable();
        } else if group == 7 {
            self.add_variable();
        } else if group == 8 && n == 0 {
            self.load_variable_from_variable();
        } else if group == 8 && n == 1 {
            self.or_variables();
        } else if group == 8 && n == 2 {
            self.and_variables();
        } else if group == 8 && n == 3 {
            self.xor_variables();
        } else if group == 8 && n == 4 {
            self.add_variables();
        } else if group == 8 && n == 5 {
            self.subtract_variables();
        } else if group == 8 && n == 6 {
            self.right_shift();
        } else if group == 8 && n == 7 {
            self.subtract_variables_n();
        } else if group == 8 && n == 0xE {
            self.shift_left();
        } else if group == 9 && n == 0 {
            self.skip_next_instruction_ne();
        } else if group == 0xA {
            self.load_index();
        } else if group == 0xB {
            self.jump_to_location();
        } else if group == 0xC {
            self.random_byte(random);
        } else if group == 0xD {
            self.draw();
        } else if group == 0xE && kk == 0x9E {
            self.skip_next_instruction_if_key();
        } else if group == 0xE && kk == 0xA1 {
            self.skip_next_instruction_if_not_key();
        } else if group == 0xF && kk == 0x0A {
            self.wait_for_keypress();
        } else if group == 0xF && kk == 0x15 {
            self.delay_timer();
        } else if group == 0xF && kk == 0x18 {
            self.sound_timer();
        } else if group == 0xF && kk == 0x1E {
            self.add_to_index();
        } else if group == 0xF && kk == 0x29 {
            self.load_font();
        } else if group == 0xF && kk == 0x33 {
            self.store_bcd_representation();
        } else if group == 0xF && kk == 0x55 {
            self.store_up_to_variable();
        } else if group == 0xF && kk == 0x65 {
            self.read_up_to_variable();
        }
    }

    /// Whether some key is held.
    fn any_key_pressed(&self) -> (pressed: bool)
        ensures
            pressed == (first_pressed(self@.keypad, 0) < 16),
    {
        let mut key: usize = 0;
        while key < 16
            invariant
                key <= 16,
                first_pressed(self@.keypad, 0) == first_pressed(self@.keypad, key as int),
            decreases 16 - key,
        {
            if self.keypad[key] > 0 {
                assert(first_pressed(self@.keypad, key as int) == key as int);
                return true;
            }
            key = key + 1;
        }
        false
    }

    /// Whether instruction `op` runs without fault on this machine with the program counter
    /// at `pc`.
    fn instruction_ok(&self, op: u16, pc: u16) -> (ok: bool)
        ensures
            ok == execute_ok(MachineState { opcode: op, program_counter: pc, ..self@ }),
    {
        proof { lemma_decode(op); }
        let ghost s = MachineState { opcode: op, program_counter: pc, ..self@ };
        let group = (op & 0xF000) >> 12;
        let variable_x = (op & 0x0F00) >> 8;
        let variable_y = (op & 0x00F0) >> 4;
        let n = op & 0x000F;
        let kk = op & 0x00FF;
        let vx = self.registers[variable_x as usize];
        let vy = self.registers[variable_y as usize];
        let skip_fits = (pc as u32) + 2 <= 0xFFFF;
        if op == 0x00EE {
            1 <= self.stack_pointer && self.stack_pointer <= 16
        } else if group == 2 {
            self.stack_pointer < 16
        } else if group == 3 {
            vx != kk as u8 || skip_fits
        } else if group == 4 {
            vx == kk as u8 || skip_fits
        } else if group == 5 && n == 0 {
            vx != vy || skip_fits
        } else if group == 9 && n == 0 {
            vy == vx || skip_fits
        } else if group == 0xD {
            let position_x = (vx % VIDEO_WIDTH) as u32;
            let position_y = (vy % VIDEO_HEIGHT) as u32;
            n == 0 || ((self.index as u32) + (n as u32) - 1 < 4096 && (position_y + (n as u32) - 1)
                * 64 + position_x + 7 < 2048)
        } else if group == 0xE && (kk == 0x9E || kk == 0xA1) {
            if vx < 16 {
                let held = self.keypad[vx as usize] > 0;
                if kk == 0x9E {
                    !held || skip_fits
                } else {
                    held || skip_fits
                }
            } else {
                false
            }
        } else if group == 0xF && kk == 0x0A {
            self.any_key_pressed() || pc >= 2
        } else if group == 0xF && kk == 0x1E {
            (self.index as u32) + (vx as u32) <= 0xFFFF
        } else if group == 0xF && kk == 0x33 {
            (self.index as u32) + 2 < 4096
        } else if group == 0xF && (kk == 0x55 || kk == 0x65) {
            (self.index as u32) + (variable_x as u32) < 4096
        } else {
            true
        }
    }

    /// Whether the next machine cycle runs without fault.
    pub fn can_cycle(&self) -> (ok: bool)
        ensures
            ok == can_step(self@),
    {
        let pc = self.program_counter;
        if pc as usize + 1 >= MEMORY_SIZE {
            return false;
        }
        let high = self.memory[pc as usize] as u16;
        let low = self.memory[pc as usize + 1] as u16;
        proof { lemma_join_bytes(high, low); }
        let op = (high << 8) | low;
        self.instruction_ok(op, pc + 2)
    }

    /// One machine cycle with `random` as the byte that `Cxkk` draws: the opcode at the
    /// program counter is fetched, the program counter moves past it, and the instruction
    /// runs.
    pub fn cycle_with_random(&mut self, random: u8)
        requires
            can_step(old(self)@),
        ensures
            final(self).drawn() == old(self).drawn(),
            final(self)@ == step(old(self)@, random),
    {
        let pc = self.program_counter as usize;
        let high = self.memory[pc] as u16;
        let low = self.memory[pc + 1] as u16;
        proof { lemma_join_bytes(high, low); }
        self.opcode = (high << 8) | low;
        self.program_counter = self.program_counter + 2;
        self.execute(random);
    }

    /// One machine cycle; `Cxkk` draws its byte from the thread-local generator, and the
    /// result is the cycle for some byte below 255.
    pub fn cycle(&mut self)
        requires
            can_step(old(self)@),
        ensures
            exists|random: u8| random < 255 && final(self)@ == #[trigger] step(old(self)@, random),
            op_group(opcode_at_pc(old(self)@)) == 0xC ==> {
                &&& final(self).drawn().len() == old(self).drawn().len() + 1
                &&& final(self).drawn().drop_last() == old(self).drawn()
                &&& final(self).drawn().last() < 255
                &&& final(self)@ == step(old(self)@, final(self).drawn().last())
            },
            op_group(opcode_at_pc(old(self)@)) != 0xC ==> {
                &&& final(self).drawn() == old(self).drawn()
                &&& final(self)@ == step(old(self)@, 0)
            },
    {
        proof {
            lemma_fetch_fields(self@);
            let b = self@.memory[self@.program_counter as int];
            assert((b & 0xF0 == 0xC0) == (b / 16 == 12)) by (bit_vector);
        }
        let pc = self.program_counter as usize;
        let random = if self.memory[pc] & 0xF0 == 0xC0 {
            self.rand_byte()
        } else {
            0
        };
        self.cycle_with_random(random);
        assert(random < 255 && self@ == step(old(self)@, random));
    }

    /// One tick of the delay and sound timers: each counts down to zero.
    pub fn cycle_timers(&mut self)
        ensures
            final(self).drawn() == old(self).drawn(),
            final(self)@ == timers_tick(old(self)@),
    {
        if self.delay_timer > 0 {
            self.delay_timer = self.delay_timer - 1;
        }
        if self.sound_timer > 0 {
            self.sound_timer = self.sound_timer - 1;
        }
    }

    /// Key `key` (0 to 15) held or released.
    pub fn key_press(&mut self, key: u8, pressed: bool)
        requires
            key < 16,
        ensures
            final(self).drawn() == old(self).drawn(),
            final(self)@ == key_press_effect(old(self)@, key as int, pressed),
    {
        self.keypad[key as usize] = if pressed { 1 } else { 0 };
    }

    /// The screen, row-major, `VIDEO_WIDTH` pixels per row.
    pub fn get_display(&self) -> (display: &[u32; 2048])
        ensures
            display@ == self@.video,
    {
        &self.video
    }

    /// A copy of the machine, sharing its random generator.
    pub fn get_current_state(&self) -> (state: Chip8)
        ensures
            state@ == self@,
            state.drawn() == self.drawn(),
    {
        Chip8 {
            registers: self.registers,
            memory: self.memory,
            index: self.index,
            program_counter: self.program_counter,
            stack: self.stack,
            stack_pointer: self.stack_pointer,
            delay_timer: self.delay_timer,
            sound_timer: self.sound_timer,
            keypad: self.keypad,
            video: self.video,
            opcode: self.opcode,
            random_gen: clone_thread_rng(&self.random_gen),
            draws: Ghost(self.draws@),
        }
    }

    /// Puts the machine back into a saved state (the random generator is kept).
    pub fn load_emulator_state(&mut self, state: &Chip8)
        ensures
            final(self).drawn() == old(self).drawn(),
            final(self)@ == state@,
    {
        self.registers = state.registers;
        self.memory = state.memory;
        self.index = state.index;
        self.program_counter = state.program_counter;
        self.stack = state.stack;
        self.stack_pointer = state.stack_pointer;
        self.delay_timer = state.delay_timer;
        self.sound_timer = state.sound_timer;
        self.keypad = state.keypad;
        self.video = state.video;
        self.opcode = state.opcode;
    }

    /// Register `V{register}`.
    pub fn get_register(&self, register: u8) -> (value: u8)
        requires
            register < 16,
        ensures
            value == self@.registers[register as int],
    {
        self.registers[register as usize]
    }

    /// The byte at `address`.
    pub fn get_memory(&self, address: u16) -> (value: u8)
        requires
            address < 4096,
        ensures
            value == self@.memory[address as int],
    {
        self.memory[address as usize]
    }

    /// The `I` register.
    pub fn get_index(&self) -> (value: u16)
        ensures
            value == self@.index,
    {
        self.index
    }

    /// The program counter.
    pub fn get_program_counter(&self) -> (value: u16)
        ensures
            value == self@.program_counter,
    {
        self.program_counter
    }

    /// The number of return addresses on the stack.
    pub fn get_stack_pointer(&self) -> (value: u8)
        ensures
            value == self@.stack_pointer,
    {
        self.stack_pointer
    }

    /// The delay timer.
    pub fn get_delay_timer(&self) -> (value: u8)
        ensures
            value == self@.delay_timer,
    {
        self.delay_timer
    }

    /// The sound timer.
    pub fn get_sound_timer(&self) -> (value: u8)
        ensures
            value == self@.sound_timer,
    {
        self.sound_timer
    }

    /// The last opcode fetched.
    pub fn get_opcode(&self) -> (value: u16)
        ensures
            value == self@.opcode,
    {
        self.opcode
    }
}

impl Default for Chip8 {
    fn default() -> (emulator: Self)
        ensures
            emulator@ == initial_state(),
    {
        Self::new()
    }
}

} // verus!
