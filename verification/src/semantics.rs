//! What one instruction does to the machine, stated over the machine's model.

use crate::opcode::{address, family, low_byte, low_nibble, reg_x, reg_y};
use vstd::prelude::*;

verus! {

/// Width of the display in pixels; the frame buffer has one row per column
/// of the screen, so this is also its number of rows.
pub const DISPLAY_WIDTH: u16 = 64;

/// Height of the display in pixels; the number of cells in each row of the
/// frame buffer.
pub const DISPLAY_HEIGHT: u16 = 32;

/// Bytes of addressable memory.
pub const MEMORY_SIZE: usize = 4096;

/// Where programs are loaded and where execution starts.
pub const PROGRAM_START: u16 = 0x200;

/// Where the built-in hexadecimal font is stored.
pub const FONT_START: u16 = 0x50;

/// Bytes per font glyph.
pub const GLYPH_SIZE: u16 = 5;

/// Instructions per second.
pub const CPU_FREQUENCY: u32 = 500;

/// Screen pixels per machine pixel, in each direction.
pub const SCREEN_SCALE: u16 = 20;

/// What the front end must do on the screen after an instruction.
#[derive(Clone, Copy, Debug, PartialEq, Eq, Structural)]
pub enum Action {
    Nothing,
    ClearScreen,
    Draw,
}

/// A frame buffer of 64 columns of 32 pixels each.
pub open spec fn frame_shape(fb: Seq<Seq<u8>>) -> bool {
    &&& fb.len() == DISPLAY_WIDTH
    &&& forall|c: int| 0 <= c < DISPLAY_WIDTH ==> #[trigger] fb[c].len() == DISPLAY_HEIGHT
}

/// The mathematical model of a machine: every field of the interpreter's
/// state, with arrays and vectors seen as sequences.
#[verifier::ext_equal]
pub struct Chip8State {
    pub cpu_frequency: u32,
    pub pc: u16,
    pub v: Seq<u8>,
    pub index: u16,
    pub delay_timer: u8,
    pub sound_timer: u8,
    pub memory: Seq<u8>,
    pub stack: Seq<u16>,
    /// `frame[x][y]` is the pixel in column `x` and line `y`.
    pub frame: Seq<Seq<u8>>,
    pub display_size_x: u16,
    pub display_size_y: u16,
    pub screen_scale: u16,
    pub keys: Seq<bool>,
    pub font_addr: u16,
}

/// The shape every machine has: sixteen registers and keys, 4 KiB of memory,
/// a 64 by 32 frame buffer, and the fixed configuration.
pub open spec fn state_wf(s: Chip8State) -> bool {
    &&& s.v.len() == 16
    &&& s.keys.len() == 16
    &&& s.memory.len() == MEMORY_SIZE
    &&& frame_shape(s.frame)
    &&& s.cpu_frequency == CPU_FREQUENCY
    &&& s.display_size_x == DISPLAY_WIDTH
    &&& s.display_size_y == DISPLAY_HEIGHT
    &&& s.screen_scale == SCREEN_SCALE
    &&& s.font_addr == FONT_START
}

/// A frame buffer with every pixel off.
pub open spec fn blank_frame() -> Seq<Seq<u8>> {
    Seq::new(DISPLAY_WIDTH as nat, |c: int| Seq::new(DISPLAY_HEIGHT as nat, |r: int| 0u8))
}

/// The machine as it is created: everything zero, nothing pressed, an empty
/// stack, and execution at the program start.
pub open spec fn initial_state() -> Chip8State {
    Chip8State {
        cpu_frequency: CPU_FREQUENCY,
        pc: PROGRAM_START,
        v: Seq::new(16, |i: int| 0u8),
        index: 0,
        delay_timer: 0,
        sound_timer: 0,
        memory: Seq::new(MEMORY_SIZE as nat, |i: int| 0u8),
        stack: Seq::empty(),
        frame: blank_frame(),
        display_size_x: DISPLAY_WIDTH,
        display_size_y: DISPLAY_HEIGHT,
        screen_scale: SCREEN_SCALE,
        keys: Seq::new(16, |i: int| false),
        font_addr: FONT_START,
    }
}

pub open spec fn with_pc(s: Chip8State, pc: int) -> Chip8State {
    Chip8State { pc: pc as u16, ..s }
}

pub open spec fn with_v(s: Chip8State, v: Seq<u8>) -> Chip8State {
    Chip8State { v, ..s }
}

pub open spec fn with_memory(s: Chip8State, memory: Seq<u8>) -> Chip8State {
    Chip8State { memory, ..s }
}

pub open spec fn with_index(s: Chip8State, index: int) -> Chip8State {
    Chip8State { index: index as u16, ..s }
}

/// Skips the next instruction when `cond` holds.
pub open spec fn skip_if(s: Chip8State, cond: bool) -> Chip8State {
    if cond {
        with_pc(s, s.pc + 2)
    } else {
        s
    }
}

/// `a - b` wrapped to a byte.
pub open spec fn wrapping_sub_u8(a: u8, b: u8) -> u8 {
    ((a - b) % 256) as u8
}

/// The arithmetic and logic instructions `8XYN`, applied to the registers.
/// Each writes the flag register `VF` before `VX`, and reads its operands
/// again after writing the flag, as the interpreter does.
pub open spec fn alu(v: Seq<u8>, x: int, y: int, n: int) -> Seq<u8> {
    if n == 0x0 {
        v.update(x, v[y])
    } else if n == 0x1 {
        v.update(x, v[x] | v[y])
    } else if n == 0x2 {
        v.update(x, v[x] & v[y])
    } else if n == 0x3 {
        v.update(x, v[x] ^ v[y])
    } else if n == 0x4 {
        let sum = v[x] + v[y];
        let v1 = if sum > 255 { v.update(15, 1u8) } else { v };
        v1.update(x, (sum % 256) as u8)
    } else if n == 0x5 {
        if v[x] > v[y] {
            let v1 = v.update(15, 1u8);
            v1.update(x, (v1[x] - v1[y]) as u8)
        } else {
            let v1 = v.update(15, 0u8);
            v1.update(x, wrapping_sub_u8(v1[x], v1[y]))
        }
    } else if n == 0x6 {
        let v1 = v.update(15, (v[x] % 2) as u8);
        v1.update(x, v1[x] / 2)
    } else if n == 0x7 {
        if v[y] > v[x] {
            let v1 = v.update(15, 1u8);
            v1.update(x, (v1[y] - v1[x]) as u8)
        } else {
            let v1 = v.update(15, 0u8);
            v1.update(x, wrapping_sub_u8(v1[y], v1[x]))
        }
    } else if n == 0xE {
        let v1 = v.update(15, v[x] / 128);
        v1.update(x, ((v1[x] * 2) % 256) as u8)
    } else {
        v
    }
}

/// Whether `8XYN` underflows: with `N` = 5 or 7, when the flag written
/// first is one of the operands, the unwrapped subtraction can go below zero.
pub open spec fn alu_faults(v: Seq<u8>, x: int, y: int, n: int) -> bool {
    let v1 = v.update(15, 1u8);
    if n == 0x5 {
        v[x] > v[y] && v1[x] < v1[y]
    } else if n == 0x7 {
        v[y] > v[x] && v1[y] < v1[x]
    } else {
        false
    }
}

/// Bit `7 - k` of a sprite byte: the `k`-th pixel from the left.
pub open spec fn sprite_bit(sprite: u8, k: int) -> bool {
    (sprite >> ((7 - k) as u8)) & 1u8 == 1u8
}

/// A pixel after a sprite bit is drawn over it: a set bit flips a lit pixel
/// off and anything else on; a clear bit turns the pixel off.
pub open spec fn pixel_after(old: u8, bit: bool) -> u8 {
    if bit {
        if old == 1 {
            0
        } else {
            1
        }
    } else {
        0
    }
}

/// Draws pixels `k..` of one sprite row at line `yc`, starting from column
/// `xc`, up to eight pixels and no further than the right edge. Returns the
/// frame and whether a lit pixel was turned off.
pub open spec fn draw_row(fb: Seq<Seq<u8>>, sprite: u8, xc: int, yc: int, k: int) -> (Seq<Seq<u8>>, bool)
    decreases 8 - k,
{
    if k < 8 && xc + k < DISPLAY_WIDTH {
        let col = xc + k;
        let old = fb[col][yc];
        let bit = sprite_bit(sprite, k);
        let fb1 = fb.update(col, fb[col].update(yc, pixel_after(old, bit)));
        let rest = draw_row(fb1, sprite, xc, yc, k + 1);
        (rest.0, rest.1 || (bit && old == 1))
    } else {
        (fb, false)
    }
}

/// Draws rows `r..n` of a sprite read from `memory[index..]`, row `r` at
/// line `yc` from column `xc`, stopping at the bottom edge. A collision sets
/// `VF`; each later row starts again at column `VX % 64`, with `VX` read
/// after the flag was written.
pub open spec fn draw_rows(
    fb: Seq<Seq<u8>>,
    v: Seq<u8>,
    memory: Seq<u8>,
    index: int,
    x: int,
    xc: int,
    yc: int,
    n: int,
    r: int,
) -> (Seq<Seq<u8>>, Seq<u8>)
    decreases n - r,
{
    if r < n && yc < DISPLAY_HEIGHT {
        let row = draw_row(fb, memory[index + r], xc, yc, 0);
        let v1 = if row.1 { v.update(15, 1u8) } else { v };
        draw_rows(row.0, v1, memory, index, x, v1[x] as int % 64, yc + 1, n, r + 1)
    } else {
        (fb, v)
    }
}

/// How many sprite rows `DXYN` draws from line `y0`: `N`, cut at the bottom
/// edge.
pub open spec fn rows_drawn(y0: int, n: int) -> int {
    if n < DISPLAY_HEIGHT - y0 {
        n
    } else {
        DISPLAY_HEIGHT - y0
    }
}

/// `DXYN`: clear `VF`, then draw an `N`-row sprite from `memory[I]` at
/// (`VX % 64`, `VY % 32`).
pub open spec fn draw_sprite(s: Chip8State, x: int, y: int, n: int) -> Chip8State {
    let x0 = s.v[x] as int % 64;
    let y0 = s.v[y] as int % 32;
    let v1 = s.v.update(15, 0u8);
    let drawn = draw_rows(s.frame, v1, s.memory, s.index as int, x, x0, y0, n, 0);
    Chip8State { frame: drawn.0, v: drawn.1, ..s }
}

/// `DXYN` reads past the end of memory when a row it draws lies there.
pub open spec fn draw_faults(s: Chip8State, y: int, n: int) -> bool {
    let rows = rows_drawn(s.v[y] as int % 32, n);
    rows > 0 && s.index + rows - 1 >= MEMORY_SIZE
}

/// The highest key below `upto` that is pressed, if any.
pub open spec fn last_pressed(keys: Seq<bool>, upto: int) -> Option<int>
    decreases upto,
{
    if upto <= 0 {
        None
    } else if keys[upto - 1] {
        Some(upto - 1)
    } else {
        last_pressed(keys, upto - 1)
    }
}

/// `FX55`: registers `V0..=VX` stored at `memory[I..]`.
pub open spec fn store_registers(memory: Seq<u8>, v: Seq<u8>, index: int, x: int) -> Seq<u8> {
    Seq::new(
        memory.len(),
        |a: int|
            if index <= a <= index + x {
                v[a - index]
            } else {
                memory[a]
            },
    )
}

/// `FX65`: registers `V0..=VX` loaded from `memory[I..]`.
pub open spec fn load_registers(v: Seq<u8>, memory: Seq<u8>, index: int, x: int) -> Seq<u8> {
    Seq::new(
        v.len(),
        |j: int|
            if j <= x {
                memory[index + j]
            } else {
                v[j]
            },
    )
}

/// `FX33`: the decimal digits of `VX` at `memory[I]`, `memory[I + 1]` and
/// `memory[I + 2]`.
pub open spec fn store_bcd(memory: Seq<u8>, value: u8, index: int) -> Seq<u8> {
    memory.update(index, value / 100).update(index + 1, (value % 100) / 10).update(
        index + 2,
        value % 10,
    )
}

/// The instructions of family `F`, selected by their low byte.
pub open spec fn misc(s: Chip8State, x: int, nn: int) -> Chip8State {
    if nn == 0x07 {
        with_v(s, s.v.update(x, s.delay_timer))
    } else if nn == 0x15 {
        Chip8State { delay_timer: s.v[x], ..s }
    } else if nn == 0x18 {
        Chip8State { sound_timer: s.v[x], ..s }
    } else if nn == 0x1E {
        with_index(s, s.index + s.v[x])
    } else if nn == 0x0A {
        match last_pressed(s.keys, 16) {
            Some(k) => with_memory(s, s.memory.update(x, k as u8)),
            None => with_pc(s, s.pc - 2),
        }
    } else if nn == 0x29 {
        let d = s.v[x];
        if d < 16 {
            with_index(s, s.font_addr + GLYPH_SIZE * d)
        } else {
            s
        }
    } else if nn == 0x33 {
        with_memory(s, store_bcd(s.memory, s.v[x], s.index as int))
    } else if nn == 0x55 {
        with_memory(s, store_registers(s.memory, s.v, s.index as int, x))
    } else if nn == 0x65 {
        with_v(s, load_registers(s.v, s.memory, s.index as int, x))
    } else {
        s
    }
}

/// Whether a family-`F` instruction panics: an index register past 16 bits,
/// a program counter below zero, or a memory access past the end.
pub open spec fn misc_faults(s: Chip8State, x: int, nn: int) -> bool {
    if nn == 0x1E {
        s.index + s.v[x] > u16::MAX
    } else if nn == 0x0A {
        last_pressed(s.keys, 16) is None && s.pc < 2
    } else if nn == 0x33 {
        s.index + 2 >= MEMORY_SIZE
    } else if nn == 0x55 || nn == 0x65 {
        s.index + x >= MEMORY_SIZE
    } else {
        false
    }
}

/// `EX9E`/`EXA1`: skip when key `VX` is (`E`) or is not (`1`) held down;
/// only the low nibble of the opcode selects the test.
pub open spec fn key_skip(s: Chip8State, x: int, n: int) -> Chip8State {
    if n == 0xE {
        skip_if(s, s.keys[s.v[x] as int])
    } else if n == 0x1 {
        skip_if(s, !s.keys[s.v[x] as int])
    } else {
        s
    }
}

/// A skip that would carry the program counter past 16 bits.
pub open spec fn skip_faults(s: Chip8State, cond: bool) -> bool {
    cond && s.pc + 2 > u16::MAX
}

/// The built-in hexadecimal font: sixteen glyphs of five bytes, `0` to `F`.
pub open spec fn font_glyphs() -> Seq<u8> {
    seq![
        0xF0u8, 0x90, 0x90, 0x90, 0xF0, // 0
        0x20, 0x60, 0x20, 0x20, 0x70, // 1
        0xF0, 0x10, 0xF0, 0x80, 0xF0, // 2
        0xF0, 0x10, 0xF0, 0x10, 0xF0, // 3
        0x90, 0x90, 0xF0, 0x10, 0x10, // 4
        0xF0, 0x80, 0xF0, 0x10, 0xF0, // 5
        0xF0, 0x80, 0xF0, 0x90, 0xF0, // 6
        0xF0, 0x10, 0x20, 0x40, 0x40, // 7
        0xF0, 0x90, 0xF0, 0x90, 0xF0, // 8
        0xF0, 0x90, 0xF0, 0x10, 0xF0, // 9
        0xF0, 0x90, 0xF0, 0x90, 0x90, // A
        0xE0, 0x90, 0xE0, 0x90, 0xE0, // B
        0xF0, 0x80, 0x80, 0x80, 0xF0, // C
        0xE0, 0x90, 0x90, 0x90, 0xE0, // D
        0xF0, 0x80, 0xF0, 0x80, 0xF0, // E
        0xF0, 0x80, 0xF0, 0x80, 0x80, // F
    ]
}

/// `bytes` copied into `memory` from address `start` on.
pub open spec fn copy_into(memory: Seq<u8>, start: int, bytes: Seq<u8>) -> Seq<u8> {
    Seq::new(
        memory.len(),
        |a: int|
            if start <= a < start + bytes.len() {
                bytes[a - start]
            } else {
                memory[a]
            },
    )
}

/// Timer ticks per second.
pub const TIMER_HZ: u128 = 60;

/// Nanoseconds per second.
pub const NANOS_PER_SECOND: u128 = 1_000_000_000;

/// How many timer ticks fall due in `elapsed_nanos` nanoseconds at 60 Hz.
pub open spec fn ticks_due(elapsed_nanos: int) -> int {
    elapsed_nanos * TIMER_HZ / NANOS_PER_SECOND as int
}

/// A timer after `ticks` ticks: that much less, but never below zero.
pub open spec fn timer_after_ticks(t: u8, ticks: int) -> u8 {
    if ticks >= t {
        0
    } else {
        (t - ticks) as u8
    }
}

/// The machine after `ticks` timer ticks: both timers count down.
pub open spec fn tick(s: Chip8State, ticks: int) -> Chip8State {
    Chip8State {
        delay_timer: timer_after_ticks(s.delay_timer, ticks),
        sound_timer: timer_after_ticks(s.sound_timer, ticks),
        ..s
    }
}

/// The machine after executing `op`, with `rnd` as the random byte that
/// `CXNN` draws, and what the screen must do.
pub open spec fn step(s: Chip8State, op: u16, rnd: u8) -> (Chip8State, Action) {
    let x = reg_x(op);
    let y = reg_y(op);
    let n = low_nibble(op);
    let nn = low_byte(op);
    let nnn = address(op);
    let f = family(op);
    if op == 0x00E0 {
        (Chip8State { frame: blank_frame(), ..s }, Action::ClearScreen)
    } else if op == 0x00EE {
        (Chip8State { pc: s.stack.last(), stack: s.stack.drop_last(), ..s }, Action::Nothing)
    } else if f == 0x1 {
        (with_pc(s, nnn), Action::Nothing)
    } else if f == 0x2 {
        (Chip8State { pc: nnn as u16, stack: s.stack.push(s.pc), ..s }, Action::Nothing)
    } else if f == 0x3 {
        (skip_if(s, s.v[x] == nn), Action::Nothing)
    } else if f == 0x4 {
        (skip_if(s, s.v[x] != nn), Action::Nothing)
    } else if f == 0x5 {
        (skip_if(s, s.v[x] == s.v[y]), Action::Nothing)
    } else if f == 0x6 {
        (with_v(s, s.v.update(x, nn as u8)), Action::Nothing)
    } else if f == 0x7 {
        (with_v(s, s.v.update(x, ((s.v[x] + nn) % 256) as u8)), Action::Nothing)
    } else if f == 0x8 {
        (with_v(s, alu(s.v, x, y, n)), Action::Nothing)
    } else if f == 0x9 {
        (skip_if(s, s.v[x] != s.v[y]), Action::Nothing)
    } else if f == 0xA {
        (with_index(s, nnn), Action::Nothing)
    } else if f == 0xB {
        (with_pc(s, nnn + s.v[0]), Action::Nothing)
    } else if f == 0xC {
        (with_v(s, s.v.update(x, rnd & (nn as u8))), Action::Nothing)
    } else if f == 0xD {
        (draw_sprite(s, x, y, n), Action::Draw)
    } else if f == 0xE {
        (key_skip(s, x, n), Action::Nothing)
    } else if f == 0xF {
        (misc(s, x, nn), Action::Nothing)
    } else {
        (s, Action::Nothing)
    }
}

/// The opcodes on which the interpreter panics in the state `s`: returning
/// with an empty stack, a skip past the 16-bit program counter, an
/// underflowing subtraction, a key number of 16 or more in `VX`, or a memory access
/// past the end.
pub open spec fn faults(s: Chip8State, op: u16) -> bool {
    let x = reg_x(op);
    let y = reg_y(op);
    let n = low_nibble(op);
    let nn = low_byte(op);
    let f = family(op);
    if op == 0x00EE {
        s.stack.len() == 0
    } else if f == 0x3 {
        skip_faults(s, s.v[x] == nn)
    } else if f == 0x4 {
        skip_faults(s, s.v[x] != nn)
    } else if f == 0x5 {
        skip_faults(s, s.v[x] == s.v[y])
    } else if f == 0x8 {
        alu_faults(s.v, x, y, n)
    } else if f == 0x9 {
        skip_faults(s, s.v[x] != s.v[y])
    } else if f == 0xD {
        draw_faults(s, y, n)
    } else if f == 0xE {
        (n == 0xE || n == 0x1) && (s.v[x] >= 16 || skip_faults(
            s,
            if n == 0xE {
                s.keys[s.v[x] as int]
            } else {
                !s.keys[s.v[x] as int]
            },
        ))
    } else if f == 0xF {
        misc_faults(s, x, nn)
    } else {
        false
    }
}

} // verus!
