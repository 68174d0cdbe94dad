//! The interpreter's state and the operations on it.

use crate::grid::{grid_filled_with, grid_get, grid_rows, grid_set};
use crate::keypad::{key_event, keypad_index, HostKey};
use crate::opcode::{family, split};
use crate::rng::random_byte;
use crate::semantics::{
    alu, alu_faults, copy_into, draw_faults, draw_row, draw_rows, draw_sprite, faults, font_glyphs,
    initial_state, key_skip, last_pressed, load_registers, misc, misc_faults, pixel_after,
    rows_drawn, skip_faults, skip_if, sprite_bit, state_wf, step,
    store_registers, tick, with_memory, with_pc, with_v, Action, Chip8State, CPU_FREQUENCY,
    DISPLAY_HEIGHT, DISPLAY_WIDTH, FONT_START, GLYPH_SIZE, MEMORY_SIZE, PROGRAM_START,
    SCREEN_SCALE, TIMER_HZ, NANOS_PER_SECOND, ticks_due,
};
use array2d::Array2D;
use vstd::prelude::*;

verus! {

/// A CHIP-8 machine: registers, timers, memory, call stack, frame buffer,
/// keypad and display configuration.
#[allow(non_snake_case)]
pub struct Chip8 {
    cpu_frequency: u32,
    _PC: u16,
    v_registers: [u8; 16],
    index_register: u16,
    _delay_timer: u8,
    _sound_timer: u8,
    memory: [u8; 4096],
    stack: Vec<u16>,
    frame_buffer: Array2D<u8>,
    display_size_x: u16,
    display_size_y: u16,
    screen_scale: u16,
    input_array: [bool; 16],
    font_starting_memory_addr: u16,
}

impl View for Chip8 {
    type V = Chip8State;

    closed spec fn view(&self) -> Chip8State {
        Chip8State {
            cpu_frequency: self.cpu_frequency,
            pc: self._PC,
            v: self.v_registers@,
            index: self.index_register,
            delay_timer: self._delay_timer,
            sound_timer: self._sound_timer,
            memory: self.memory@,
            stack: self.stack@,
            frame: grid_rows(self.frame_buffer),
            display_size_x: self.display_size_x,
            display_size_y: self.display_size_y,
            screen_scale: self.screen_scale,
            keys: self.input_array@,
            font_addr: self.font_starting_memory_addr,
        }
    }
}

impl Chip8 {
    /// The machine has the shape and configuration that every machine has.
    pub open spec fn wf(&self) -> bool {
        state_wf(self@)
    }

    /// Every machine is well formed: its fields are private, the constructor
    /// establishes this and every operation keeps it.
    #[verifier::type_invariant]
    spec fn well_formed(&self) -> bool {
        self.wf()
    }
}

impl Default for Chip8 {
    /// A fresh machine: zeroed registers, memory and frame buffer, an empty
    /// stack, and the program counter at `0x200`.
    fn default() -> (chip8: Self)
        ensures
            chip8@ == initial_state(),
            chip8.wf(),
    {
        let chip8 = Chip8 {
            cpu_frequency: CPU_FREQUENCY,
            _PC: PROGRAM_START,
            v_registers: [0; 16],
            index_register: 0,
            _delay_timer: 0,
            _sound_timer: 0,
            memory: [0; 4096],
            stack: Vec::new(),
            display_size_x: DISPLAY_WIDTH,
            display_size_y: DISPLAY_HEIGHT,
            screen_scale: SCREEN_SCALE,
            frame_buffer: grid_filled_with(0, 64, 32),
            input_array: [false; 16],
            font_starting_memory_addr: FONT_START,
        };
        assert(chip8@.v =~= initial_state().v);
        assert(chip8@.memory =~= initial_state().memory);
        assert(chip8@.keys =~= initial_state().keys);
        assert(chip8@.stack =~= initial_state().stack);
        assert(chip8@.frame =~= initial_state().frame);
        chip8
    }
}

/// Whether `fetch` can read the two bytes at the program counter.
pub open spec fn fetch_in_bounds(s: Chip8State) -> bool {
    s.pc + 1 < MEMORY_SIZE
}

/// Reads the big-endian instruction word at the program counter and moves
/// the program counter past it.
pub fn fetch(chip8: &mut Chip8) -> (op_code: u16)
    requires
        fetch_in_bounds(old(chip8)@),
    ensures
        op_code == old(chip8)@.memory[old(chip8)@.pc as int] * 256 + old(chip8)@.memory[old(chip8)@.pc + 1],
        final(chip8)@ == with_pc(old(chip8)@, old(chip8)@.pc + 2),
        final(chip8).wf(),
{
    proof {
        use_type_invariant(&*chip8);
    }
    let instruct1: u16 = (chip8.memory[chip8._PC as usize] as u16) << 8;
    let instruct2: u16 = chip8.memory[(chip8._PC + 1) as usize] as u16;
    let high: u8 = chip8.memory[chip8._PC as usize];
    assert(instruct1 == high as u16 * 256) by (bit_vector)
        requires instruct1 == (high as u16) << 8;
    let full_instruct: u16 = instruct1 + instruct2;
    chip8._PC += 2;
    full_instruct
}

impl Chip8 {
    /// Whether the next `fetch` reads inside memory.
    pub fn can_fetch(&self) -> (ok: bool)
        ensures
            ok == fetch_in_bounds(self@),
    {
        (self._PC as usize) + 1 < MEMORY_SIZE
    }
}

impl Chip8 {
    /// Skips the next instruction when `cond` holds.
    fn skip_next(&mut self, cond: bool)
        requires
            old(self).wf(),
            !skip_faults(old(self)@, cond),
        ensures
            final(self)@ == skip_if(old(self)@, cond),
    {
        if cond {
            self._PC += 2;
        }
    }

    /// `8XYN`.
    fn exec_alu(&mut self, x: usize, y: usize, n: u16)
        requires
            old(self).wf(),
            x < 16,
            y < 16,
            !alu_faults(old(self)@.v, x as int, y as int, n as int),
        ensures
            final(self)@ == with_v(old(self)@, alu(old(self)@.v, x as int, y as int, n as int)),
    {
        if n == 0x0 {
            let vy = self.v_registers[y];
            self.v_registers[x] = vy;
        } else if n == 0x1 {
            let vx = self.v_registers[x];
            let vy = self.v_registers[y];
            self.v_registers[x] = vx | vy;
        } else if n == 0x2 {
            let vx = self.v_registers[x];
            let vy = self.v_registers[y];
            self.v_registers[x] = vx & vy;
        } else if n == 0x3 {
            let vx = self.v_registers[x];
            let vy = self.v_registers[y];
            self.v_registers[x] = vx ^ vy;
        } else if n == 0x4 {
            let new_val: u16 = self.v_registers[x] as u16 + self.v_registers[y] as u16;
            if new_val > 255 {
                self.v_registers[0xF] = 1;
            }
            let low: u8 = (new_val & 0b1111_1111) as u8;
            assert(low == new_val % 256) by (bit_vector)
                requires
                    low == (new_val & 0b1111_1111) as u8,
            ;
            self.v_registers[x] = low;
        } else if n == 0x5 {
            if self.v_registers[x] > self.v_registers[y] {
                self.v_registers[0xF] = 1;
                let vx = self.v_registers[x];
                let vy = self.v_registers[y];
                self.v_registers[x] = vx - vy;
            } else {
                self.v_registers[0xF] = 0;
                let vx = self.v_registers[x];
                let vy = self.v_registers[y];
                self.v_registers[x] = vx.wrapping_sub(vy);
            }
        } else if n == 0x6 {
            let vx = self.v_registers[x];
            if vx & 0x1 == 1 {
                self.v_registers[0xF] = 1;
            } else {
                self.v_registers[0xF] = 0;
            }
            assert((vx & 0x1 == 1) == (vx % 2 == 1)) by (bit_vector);
            let shifted = self.v_registers[x];
            assert(shifted >> 1 == shifted / 2) by (bit_vector);
            self.v_registers[x] = shifted >> 1;
        } else if n == 0x7 {
            if self.v_registers[y] > self.v_registers[x] {
                self.v_registers[0xF] = 1;
                let vx = self.v_registers[x];
                let vy = self.v_registers[y];
                self.v_registers[x] = vy - vx;
            } else {
                self.v_registers[0xF] = 0;
                let vx = self.v_registers[x];
                let vy = self.v_registers[y];
                self.v_registers[x] = vy.wrapping_sub(vx);
            }
        } else if n == 0xE {
            let vx = self.v_registers[x];
            let top: u8 = vx >> 7;
            assert(top == vx / 128) by (bit_vector)
                requires
                    top == vx >> 7,
            ;
            self.v_registers[0xF] = top;
            let v2 = self.v_registers[x];
            let shifted: u8 = v2 << 1;
            assert(shifted == (v2 * 2) % 256) by (bit_vector)
                requires
                    shifted == v2 << 1,
            ;
            self.v_registers[x] = shifted;
        }
        assert(self@ =~= with_v(old(self)@, alu(old(self)@.v, x as int, y as int, n as int)));
    }

}

impl Chip8 {
    /// Draws one sprite row at line `y_coord`, from column `x_coord`
    /// rightwards, setting `VF` on each collision.
    fn draw_sprite_row(&mut self, sprite_data: u8, x_coord: u8, y_coord: u8)
        requires
            old(self).wf(),
            x_coord < DISPLAY_WIDTH,
            y_coord < DISPLAY_HEIGHT,
        ensures
            final(self).wf(),
            ({
                let row = draw_row(old(self)@.frame, sprite_data, x_coord as int, y_coord as int, 0);
                final(self)@ == (Chip8State {
                    frame: row.0,
                    v: if row.1 { old(self)@.v.update(15, 1u8) } else { old(self)@.v },
                    ..old(self)@
                })
            }),
    {
        let ghost s0 = self@;
        let ghost target = draw_row(s0.frame, sprite_data, x_coord as int, y_coord as int, 0);
        let ghost mut hit = false;
        let mut column: u8 = x_coord;
        let mut k: u8 = 0;
        while k < 8 && column < self.display_size_x as u8
            invariant
                self.wf(),
                state_wf(s0),
                k <= 8,
                column == x_coord + k,
                column <= DISPLAY_WIDTH,
                y_coord < DISPLAY_HEIGHT,
                draw_row(self@.frame, sprite_data, x_coord as int, y_coord as int, k as int).0 == target.0,
                (hit || draw_row(self@.frame, sprite_data, x_coord as int, y_coord as int, k as int).1) == target.1,
                self@ == (Chip8State {
                    frame: self@.frame,
                    v: if hit { s0.v.update(15, 1u8) } else { s0.v },
                    ..s0
                }),
            decreases 8 - k,
        {
            let bit = (sprite_data >> (7 - k)) & 1;
            proof {
                assert(sprite_bit(sprite_data, k as int) == (bit == 1));
            }
            let col = column as usize;
            let line = y_coord as usize;
            let ghost fb = self@.frame;
            let ghost old_cell = fb[col as int][line as int];
            if bit == 1 {
                if grid_get(&self.frame_buffer, col, line) == 1 {
                    grid_set(&mut self.frame_buffer, col, line, 0);
                    self.v_registers[0xF] = 1;
                    proof {
                        hit = true;
                    }
                } else {
                    grid_set(&mut self.frame_buffer, col, line, 1);
                }
            } else {
                grid_set(&mut self.frame_buffer, col, line, 0);
            }
            proof {
                assert(self@.frame == fb.update(
                    col as int,
                    fb[col as int].update(line as int, pixel_after(old_cell, bit == 1)),
                ));
                assert forall|c: int| 0 <= c < DISPLAY_WIDTH implies #[trigger] self@.frame[c].len()
                    == DISPLAY_HEIGHT by {
                    assert(fb[c].len() == DISPLAY_HEIGHT);
                }
                assert(self@.v =~= if hit { s0.v.update(15, 1u8) } else { s0.v });
            }
            column = column + 1;
            k = k + 1;
        }
    }

    /// `DXYN`: clears `VF` and draws an `N`-row sprite from `memory[I]` at
    /// (`VX % 64`, `VY % 32`).
    fn exec_draw(&mut self, x: usize, y: usize, n: u16)
        requires
            old(self).wf(),
            x < 16,
            y < 16,
            n < 16,
            !draw_faults(old(self)@, y as int, n as int),
        ensures
            final(self).wf(),
            final(self)@ == draw_sprite(old(self)@, x as int, y as int, n as int),
    {
        let ghost s0 = self@;
        let mut x_coord: u8 = self.v_registers[x] % (self.display_size_x as u8);
        let mut y_coord: u8 = self.v_registers[y] % (self.display_size_y as u8);
        let ghost y0 = y_coord as int;
        self.v_registers[0xF] = 0;
        let ghost target = draw_rows(
            s0.frame,
            self@.v,
            s0.memory,
            s0.index as int,
            x as int,
            x_coord as int,
            y_coord as int,
            n as int,
            0,
        );
        let mut r: u16 = 0;
        while r < n && y_coord < self.display_size_y as u8
            invariant
                self.wf(),
                x < 16,
                r <= n,
                n < 16,
                y_coord == y0 + r,
                0 <= y0 < DISPLAY_HEIGHT,
                x_coord < DISPLAY_WIDTH,
                !draw_faults(s0, y as int, n as int),
                rows_drawn(y0, n as int) == rows_drawn(s0.v[y as int] as int % 32, n as int),
                draw_rows(
                    self@.frame,
                    self@.v,
                    s0.memory,
                    s0.index as int,
                    x as int,
                    x_coord as int,
                    y_coord as int,
                    n as int,
                    r as int,
                ) == target,
                self@ == (Chip8State { frame: self@.frame, v: self@.v, ..s0 }),
            decreases n - r,
        {
            let sprite_data = self.memory[(self.index_register + r) as usize];
            self.draw_sprite_row(sprite_data, x_coord, y_coord);
            y_coord = y_coord + 1;
            x_coord = self.v_registers[x] % 64;
            r = r + 1;
        }
    }
}

impl Chip8 {
    /// `EX9E`/`EXA1`: skips on key `VX` being held down or not.
    fn exec_key_skip(&mut self, x: usize, n: u16)
        requires
            old(self).wf(),
            x < 16,
            (n == 0xE || n == 0x1) ==> old(self)@.v[x as int] < 16 && !skip_faults(
                old(self)@,
                if n == 0xE {
                    old(self)@.keys[old(self)@.v[x as int] as int]
                } else {
                    !old(self)@.keys[old(self)@.v[x as int] as int]
                },
            ),
        ensures
            final(self)@ == key_skip(old(self)@, x as int, n as int),
    {
        if n == 0xE {
            let pressed = self.input_array[self.v_registers[x] as usize];
            self.skip_next(pressed);
        } else if n == 0x1 {
            let pressed = self.input_array[self.v_registers[x] as usize];
            self.skip_next(!pressed);
        }
    }

    /// Whether some key is pressed.
    fn any_key_pressed(&self) -> (pressed: bool)
        requires
            self.wf(),
        ensures
            pressed == (last_pressed(self@.keys, 16) is Some),
    {
        let mut pressed = false;
        let mut i: usize = 0;
        while i < 16
            invariant
                self.wf(),
                i <= 16,
                pressed == (last_pressed(self@.keys, i as int) is Some),
            decreases 16 - i,
        {
            if self.input_array[i] {
                pressed = true;
            }
            i = i + 1;
        }
        pressed
    }

    /// `FX0A`: records the highest pressed key in `memory[X]`, or, with no key
    /// pressed, runs this instruction again.
    fn exec_wait_key(&mut self, x: usize)
        requires
            old(self).wf(),
            x < 16,
            !misc_faults(old(self)@, x as int, 0x0A),
        ensures
            final(self)@ == misc(old(self)@, x as int, 0x0A),
    {
        let ghost s0 = self@;
        let mut key_pressed = false;
        let mut i: usize = 0;
        while i < 16
            invariant
                self.wf(),
                state_wf(s0),
                x < 16,
                i <= 16,
                key_pressed == (last_pressed(s0.keys, i as int) is Some),
                self@ == with_memory(
                    s0,
                    match last_pressed(s0.keys, i as int) {
                        Some(k) => s0.memory.update(x as int, k as u8),
                        None => s0.memory,
                    },
                ),
            decreases 16 - i,
        {
            if self.input_array[i] {
                self.memory[x] = i as u8;
                key_pressed = true;
            }
            i = i + 1;
            proof {
                let m = match last_pressed(s0.keys, i as int) {
                    Some(k) => s0.memory.update(x as int, k as u8),
                    None => s0.memory,
                };
                assert(self@.memory =~= m);
            }
        }
        if !key_pressed {
            self._PC -= 2;
        }
    }

    /// `FX55`: stores `V0..=VX` at `memory[I..]`.
    fn exec_store_registers(&mut self, x: usize)
        requires
            old(self).wf(),
            x < 16,
            old(self)@.index + x < MEMORY_SIZE,
        ensures
            final(self)@ == with_memory(
                old(self)@,
                store_registers(old(self)@.memory, old(self)@.v, old(self)@.index as int, x as int),
            ),
    {
        let ghost s0 = self@;
        let mut i: u16 = 0;
        while i <= x as u16
            invariant
                self.wf(),
                state_wf(s0),
                x < 16,
                i <= x + 1,
                s0.index + x < MEMORY_SIZE,
                self@ == with_memory(
                    s0,
                    store_registers(s0.memory, s0.v, s0.index as int, i - 1),
                ),
            decreases x + 1 - i,
        {
            let value = self.v_registers[i as usize];
            self.memory[(self.index_register + i) as usize] = value;
            i = i + 1;
            proof {
                assert(self@.memory =~= store_registers(s0.memory, s0.v, s0.index as int, i - 1));
            }
        }
    }

    /// `FX65`: loads `V0..=VX` from `memory[I..]`.
    fn exec_load_registers(&mut self, x: usize)
        requires
            old(self).wf(),
            x < 16,
            old(self)@.index + x < MEMORY_SIZE,
        ensures
            final(self)@ == with_v(
                old(self)@,
                load_registers(old(self)@.v, old(self)@.memory, old(self)@.index as int, x as int),
            ),
    {
        let ghost s0 = self@;
        let mut i: u16 = 0;
        while i <= x as u16
            invariant
                self.wf(),
                state_wf(s0),
                x < 16,
                i <= x + 1,
                s0.index + x < MEMORY_SIZE,
                self@ == with_v(s0, load_registers(s0.v, s0.memory, s0.index as int, i - 1)),
            decreases x + 1 - i,
        {
            let value = self.memory[(self.index_register + i) as usize];
            self.v_registers[i as usize] = value;
            i = i + 1;
            proof {
                assert(self@.v =~= load_registers(s0.v, s0.memory, s0.index as int, i - 1));
            }
        }
    }

    /// The instructions of family `F`.
    fn exec_misc(&mut self, x: usize, nn: u8)
        requires
            old(self).wf(),
            x < 16,
            !misc_faults(old(self)@, x as int, nn as int),
        ensures
            final(self)@ == misc(old(self)@, x as int, nn as int),
    {
        let ghost s0 = self@;
        if nn == 0x07 {
            self.v_registers[x] = self._delay_timer;
        } else if nn == 0x15 {
            self._delay_timer = self.v_registers[x];
        } else if nn == 0x18 {
            self._sound_timer = self.v_registers[x];
        } else if nn == 0x1E {
            self.index_register += self.v_registers[x] as u16;
        } else if nn == 0x0A {
            self.exec_wait_key(x);
        } else if nn == 0x29 {
            let digit = self.v_registers[x];
            if digit < 16 {
                self.index_register = self.font_starting_memory_addr + GLYPH_SIZE * (digit as u16);
            }
        } else if nn == 0x33 {
            let number = self.v_registers[x];
            let first_digit = number / 100;
            let second_digit = (number % 100) / 10;
            let third_digit = number % 10;
            self.memory[self.index_register as usize] = first_digit;
            self.memory[(self.index_register + 1) as usize] = second_digit;
            self.memory[(self.index_register + 2) as usize] = third_digit;
        } else if nn == 0x55 {
            self.exec_store_registers(x);
        } else if nn == 0x65 {
            self.exec_load_registers(x);
        }
        assert(self@ =~= misc(s0, x as int, nn as int));
    }
}

impl Chip8 {
    /// Whether executing `op_code` now would panic in the interpreter; see
    /// `faults`. `decode` and `execute` may be called exactly when this is
    /// false.
    pub fn would_fault(&self, op_code: u16) -> (fault: bool)
        ensures
            fault == faults(self@, op_code),
    {
        proof {
            use_type_invariant(self);
        }
        let f = split(op_code);
        let x = f.x as usize;
        let y = f.y as usize;
        let pc = self._PC as u32;
        let index = self.index_register as u32;
        if op_code == 0x00EE {
            self.stack.len() == 0
        } else if f.first == 0x3 {
            self.v_registers[x] == f.nn && pc + 2 > 0xFFFF
        } else if f.first == 0x4 {
            self.v_registers[x] != f.nn && pc + 2 > 0xFFFF
        } else if f.first == 0x5 {
            self.v_registers[x] == self.v_registers[y] && pc + 2 > 0xFFFF
        } else if f.first == 0x8 {
            let vx = self.v_registers[x];
            let vy = self.v_registers[y];
            let vx1 = if x == 0xF { 1 } else { vx };
            let vy1 = if y == 0xF { 1 } else { vy };
            if f.n == 0x5 {
                vx > vy && vx1 < vy1
            } else if f.n == 0x7 {
                vy > vx && vy1 < vx1
            } else {
                false
            }
        } else if f.first == 0x9 {
            self.v_registers[x] != self.v_registers[y] && pc + 2 > 0xFFFF
        } else if f.first == 0xD {
            let y0 = (self.v_registers[y] % 32) as u32;
            let n = f.n as u32;
            let rows = if n < 32 - y0 { n } else { 32 - y0 };
            rows > 0 && index + rows - 1 >= MEMORY_SIZE as u32
        } else if f.first == 0xE {
            if f.n == 0xE || f.n == 0x1 {
                let key = self.v_registers[x];
                if key >= 16 {
                    true
                } else {
                    let pressed = self.input_array[key as usize];
                    let cond = if f.n == 0xE { pressed } else { !pressed };
                    cond && pc + 2 > 0xFFFF
                }
            } else {
                false
            }
        } else if f.first == 0xF {
            if f.nn == 0x1E {
                index + self.v_registers[x] as u32 > 0xFFFF
            } else if f.nn == 0x0A {
                !self.any_key_pressed() && pc < 2
            } else if f.nn == 0x33 {
                index + 2 >= MEMORY_SIZE as u32
            } else if f.nn == 0x55 || f.nn == 0x65 {
                index + x as u32 >= MEMORY_SIZE as u32
            } else {
                false
            }
        } else {
            false
        }
    }
}

impl Chip8 {
    /// Whether a program of `len` bytes fits in memory from the program
    /// counter on.
    pub fn program_fits(&self, len: usize) -> (fits: bool)
        ensures
            fits == (self@.pc + len <= MEMORY_SIZE),
    {
        len <= MEMORY_SIZE && (self._PC as usize) <= MEMORY_SIZE - len
    }

    /// Copies a program image into memory at the program counter.
    pub fn load_program(&mut self, program: &[u8])
        requires
            old(self)@.pc + program@.len() <= MEMORY_SIZE,
        ensures
            final(self).wf(),
            final(self)@ == with_memory(
                old(self)@,
                copy_into(old(self)@.memory, old(self)@.pc as int, program@),
            ),
    {
        proof {
            use_type_invariant(&*self);
        }
        let ghost s0 = self@;
        let mem_idx = self._PC as usize;
        let mut idx: usize = 0;
        while idx < program.len()
            invariant
                self.wf(),
                state_wf(s0),
                mem_idx == s0.pc,
                idx <= program@.len(),
                mem_idx + program@.len() <= MEMORY_SIZE,
                self@ == with_memory(
                    s0,
                    copy_into(s0.memory, mem_idx as int, program@.take(idx as int)),
                ),
            decreases program@.len() - idx,
        {
            self.memory[mem_idx + idx] = program[idx];
            idx = idx + 1;
            proof {
                assert(self@.memory =~= copy_into(
                    s0.memory,
                    mem_idx as int,
                    program@.take(idx as int),
                ));
            }
        }
        assert(program@.take(idx as int) =~= program@);
    }

    /// Stores the built-in font at its address.
    pub fn load_font(&mut self)
        ensures
            final(self).wf(),
            final(self)@ == with_memory(
                old(self)@,
                copy_into(old(self)@.memory, FONT_START as int, font_glyphs()),
            ),
    {
        proof {
            use_type_invariant(&*self);
        }
        let font: [u8; 80] = [
            0xF0, 0x90, 0x90, 0x90, 0xF0,  // 0
            0x20, 0x60, 0x20, 0x20, 0x70,  // 1
            0xF0, 0x10, 0xF0, 0x80, 0xF0,  // 2
            0xF0, 0x10, 0xF0, 0x10, 0xF0,  // 3
            0x90, 0x90, 0xF0, 0x10, 0x10,  // 4
            0xF0, 0x80, 0xF0, 0x10, 0xF0,  // 5
            0xF0, 0x80, 0xF0, 0x90, 0xF0,  // 6
            0xF0, 0x10, 0x20, 0x40, 0x40,  // 7
            0xF0, 0x90, 0xF0, 0x90, 0xF0,  // 8
            0xF0, 0x90, 0xF0, 0x10, 0xF0,  // 9
            0xF0, 0x90, 0xF0, 0x90, 0x90,  // A
            0xE0, 0x90, 0xE0, 0x90, 0xE0,  // B
            0xF0, 0x80, 0x80, 0x80, 0xF0,  // C
            0xE0, 0x90, 0x90, 0x90, 0xE0,  // D
            0xF0, 0x80, 0xF0, 0x80, 0xF0,  // E
            0xF0, 0x80, 0xF0, 0x80, 0x80,  // F
        ];
        assert(font@ =~= font_glyphs());
        let ghost s0 = self@;
        let start = self.font_starting_memory_addr as usize;
        let mut i: usize = 0;
        while i < 80
            invariant
                self.wf(),
                state_wf(s0),
                start == FONT_START,
                i <= 80,
                font@ == font_glyphs(),
                self@ == with_memory(s0, copy_into(s0.memory, start as int, font_glyphs().take(i as int))),
            decreases 80 - i,
        {
            self.memory[start + i] = font[i];
            i = i + 1;
            proof {
                assert(self@.memory =~= copy_into(
                    s0.memory,
                    start as int,
                    font_glyphs().take(i as int),
                ));
            }
        }
        assert(font_glyphs().take(80) =~= font_glyphs());
    }

    /// Counts both timers down by `ticks` ticks, stopping at zero.
    pub fn tick_timers(&mut self, ticks: u128)
        ensures
            final(self).wf(),
            final(self)@ == tick(old(self)@, ticks as int),
    {
        proof {
            use_type_invariant(&*self);
        }
        if ticks >= self._delay_timer as u128 {
            self._delay_timer = 0;
        } else {
            self._delay_timer = self._delay_timer - ticks as u8;
        }
        if ticks >= self._sound_timer as u128 {
            self._sound_timer = 0;
        } else {
            self._sound_timer = self._sound_timer - ticks as u8;
        }
    }

    /// Applies a host key going down (`pressed`) or up to the keypad, and
    /// says whether the session ends.
    pub fn handle_key(&mut self, key: HostKey, pressed: bool) -> (quit: bool)
        ensures
            final(self).wf(),
            final(self)@ == (Chip8State { keys: key_event(old(self)@.keys, key, pressed).0, ..old(self)@ }),
            quit == key_event(old(self)@.keys, key, pressed).1,
    {
        proof {
            use_type_invariant(&*self);
        }
        match keypad_index(key) {
            Some(i) => {
                self.input_array[i] = pressed;
                false
            },
            None => pressed,
        }
    }

    /// Nanoseconds to wait between two instructions at the CPU frequency.
    pub fn cycle_delay_nanos(&self) -> (nanos: u32)
        ensures
            nanos == 1_000_000_000int / (self@.cpu_frequency as int),
    {
        proof {
            use_type_invariant(self);
        }
        1_000_000_000 / self.cpu_frequency
    }

    /// The window's width in screen pixels.
    pub fn window_width(&self) -> (width: u32)
        ensures
            width == self@.display_size_x * self@.screen_scale,
    {
        proof {
            use_type_invariant(self);
        }
        (self.display_size_x * self.screen_scale) as u32
    }

    /// The window's height in screen pixels.
    pub fn window_height(&self) -> (height: u32)
        ensures
            height == self@.display_size_y * self@.screen_scale,
    {
        proof {
            use_type_invariant(self);
        }
        (self.display_size_y * self.screen_scale) as u32
    }
}

impl Chip8 {
    /// The frame-buffer pixel in column `x` and line `y`.
    pub fn pixel(&self, x: usize, y: usize) -> (cell: u8)
        requires
            x < DISPLAY_WIDTH,
            y < DISPLAY_HEIGHT,
        ensures
            cell == self@.frame[x as int][y as int],
    {
        proof {
            use_type_invariant(self);
        }
        grid_get(&self.frame_buffer, x, y)
    }

    /// Screen pixels per machine pixel.
    pub fn screen_scale(&self) -> (scale: u16)
        ensures
            scale == self@.screen_scale,
            scale == SCREEN_SCALE,
    {
        proof {
            use_type_invariant(self);
        }
        self.screen_scale
    }

    /// The program counter.
    pub fn pc(&self) -> (pc: u16)
        ensures
            pc == self@.pc,
    {
        self._PC
    }

    /// Register `V{i}`.
    pub fn register(&self, i: usize) -> (value: u8)
        requires
            i < 16,
        ensures
            value == self@.v[i as int],
    {
        self.v_registers[i]
    }

    /// The index register `I`.
    pub fn index_register(&self) -> (index: u16)
        ensures
            index == self@.index,
    {
        self.index_register
    }

    /// The delay timer.
    pub fn delay_timer(&self) -> (t: u8)
        ensures
            t == self@.delay_timer,
    {
        self._delay_timer
    }

    /// The sound timer; a tone plays while it is above zero.
    pub fn sound_timer(&self) -> (t: u8)
        ensures
            t == self@.sound_timer,
    {
        self._sound_timer
    }

    /// The byte at `address`.
    pub fn memory_byte(&self, address: usize) -> (byte: u8)
        requires
            address < MEMORY_SIZE,
        ensures
            byte == self@.memory[address as int],
    {
        self.memory[address]
    }

    /// The number of return addresses on the call stack.
    pub fn stack_depth(&self) -> (depth: usize)
        ensures
            depth == self@.stack.len(),
    {
        self.stack.len()
    }

    /// Whether keypad key `i` is held down.
    pub fn key_down(&self, i: usize) -> (down: bool)
        requires
            i < 16,
        ensures
            down == self@.keys[i as int],
    {
        self.input_array[i]
    }

    /// The CPU frequency in instructions per second.
    pub fn cpu_frequency(&self) -> (hz: u32)
        ensures
            hz == self@.cpu_frequency,
    {
        self.cpu_frequency
    }
}

/// How many timer ticks fall due in `elapsed_nanos` nanoseconds: the timers
/// count down at 60 Hz whatever the CPU speed.
pub fn timer_ticks_due(elapsed_nanos: u128) -> (ticks: u128)
    ensures
        ticks == ticks_due(elapsed_nanos as int),
{
    let seconds = elapsed_nanos / NANOS_PER_SECOND;
    let rest = elapsed_nanos % NANOS_PER_SECOND;
    proof {
        let e = elapsed_nanos as int;
        let q = seconds as int;
        let r = rest as int;
        assert(e == q * 1_000_000_000 + r && 0 <= r < 1_000_000_000) by (nonlinear_arith)
            requires
                q == e / 1_000_000_000,
                r == e % 1_000_000_000,
        ;
        assert((e * 60) / 1_000_000_000 == q * 60 + (r * 60) / 1_000_000_000) by (nonlinear_arith)
            requires
                e == q * 1_000_000_000 + r,
                0 <= r < 1_000_000_000,
                q >= 0,
        ;
        assert(q * 60 <= u128::MAX) by (nonlinear_arith)
            requires
                q == e / 1_000_000_000,
                0 <= e <= u128::MAX,
        ;
    }
    seconds * TIMER_HZ + rest * TIMER_HZ / NANOS_PER_SECOND
}

/// Executes one instruction, with `random` as the byte that `CXNN` masks,
/// and says what the screen must do.
pub fn execute(op_code: u16, chip8: &mut Chip8, random: u8) -> (action: Action)
    requires
        !faults(old(chip8)@, op_code),
    ensures
        final(chip8).wf(),
        (final(chip8)@, action) == step(old(chip8)@, op_code, random),
{
    proof {
        use_type_invariant(&*chip8);
    }
    let ghost s0 = chip8@;
    let f = split(op_code);
    let x = f.x as usize;
    let y = f.y as usize;
    if op_code == 0x00E0 {
        chip8.frame_buffer = grid_filled_with(0, 64, 32);
        assert(chip8@ =~= step(s0, op_code, random).0);
        return Action::ClearScreen;
    }
    if op_code == 0x00EE {
        let mut stack: Vec<u16> = Vec::new();
        std::mem::swap(&mut stack, &mut chip8.stack);
        let top = stack.pop().unwrap();
        std::mem::swap(&mut stack, &mut chip8.stack);
        chip8._PC = top;
        assert(chip8@ =~= step(s0, op_code, random).0);
        return Action::Nothing;
    }
    let mut action = Action::Nothing;
    if f.first == 0x1 {
        chip8._PC = f.nnn;
    } else if f.first == 0x2 {
        let mut stack: Vec<u16> = Vec::new();
        std::mem::swap(&mut stack, &mut chip8.stack);
        stack.push(chip8._PC);
        std::mem::swap(&mut stack, &mut chip8.stack);
        chip8._PC = f.nnn;
    } else if f.first == 0x3 {
        let cond = chip8.v_registers[x] == f.nn;
        chip8.skip_next(cond);
    } else if f.first == 0x4 {
        let cond = chip8.v_registers[x] != f.nn;
        chip8.skip_next(cond);
    } else if f.first == 0x5 {
        let cond = chip8.v_registers[x] == chip8.v_registers[y];
        chip8.skip_next(cond);
    } else if f.first == 0x6 {
        chip8.v_registers[x] = f.nn;
    } else if f.first == 0x7 {
        let new_val = chip8.v_registers[x] as u16 + f.nn as u16;
        let low: u8 = (new_val & 0b1111_1111) as u8;
        assert(low == new_val % 256) by (bit_vector)
            requires
                low == (new_val & 0b1111_1111) as u8,
        ;
        chip8.v_registers[x] = low;
    } else if f.first == 0x8 {
        chip8.exec_alu(x, y, f.n);
    } else if f.first == 0x9 {
        let cond = chip8.v_registers[x] != chip8.v_registers[y];
        chip8.skip_next(cond);
    } else if f.first == 0xA {
        chip8.index_register = f.nnn;
    } else if f.first == 0xB {
        chip8._PC = f.nnn + chip8.v_registers[0x0] as u16;
    } else if f.first == 0xC {
        let random_num = random & f.nn;
        chip8.v_registers[x] = random_num;
    } else if f.first == 0xD {
        chip8.exec_draw(x, y, f.n);
        action = Action::Draw;
    } else if f.first == 0xE {
        chip8.exec_key_skip(x, f.n);
    } else if f.first == 0xF {
        chip8.exec_misc(x, f.nn);
    }
    assert(chip8@ =~= step(s0, op_code, random).0);
    action
}

/// Executes one instruction as the interpreter does, drawing the random
/// byte of `CXNN` from the thread-local generator.
pub fn decode(op_code: u16, chip8: &mut Chip8) -> (action: Action)
    requires
        !faults(old(chip8)@, op_code),
    ensures
        final(chip8).wf(),
        exists|random: u8| (final(chip8)@, action) == step(old(chip8)@, op_code, random),
        family(op_code) != 0xC ==> (final(chip8)@, action) == step(old(chip8)@, op_code, 0),
{
    proof {
        use_type_invariant(&*chip8);
    }
    let f = split(op_code);
    let random = if f.first == 0xC {
        random_byte()
    } else {
        0
    };
    execute(op_code, chip8, random)
}

} // verus!
