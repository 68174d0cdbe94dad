//! Properties of the instruction set that hold across instructions and
//! states.

use crate::keypad::{key_event, keypad_slot, HostKey};
use crate::opcode::{address, family, lemma_address_fields, low_byte, low_nibble, reg_x, reg_y};
use crate::semantics::{
    draw_row, draw_rows, faults, frame_shape, initial_state, pixel_after, sprite_bit, state_wf,
    step, tick, ticks_due, blank_frame, Action, Chip8State, DISPLAY_HEIGHT, DISPLAY_WIDTH,
};
use crate::display::display_list;
use crate::semantics::copy_into;
use vstd::prelude::*;

verus! {

/// Every pixel of the frame is 0 or 1.
pub open spec fn frame_binary(fb: Seq<Seq<u8>>) -> bool {
    forall|c: int, r: int|
        0 <= c < DISPLAY_WIDTH && 0 <= r < DISPLAY_HEIGHT ==> #[trigger] fb[c][r] <= 1
}

/// Drawing one sprite row keeps the frame's shape, and keeps its pixels 0 or
/// 1 when they were.
pub proof fn lemma_draw_row_frame(fb: Seq<Seq<u8>>, sprite: u8, xc: int, yc: int, k: int)
    requires
        frame_shape(fb),
        0 <= xc,
        0 <= yc < DISPLAY_HEIGHT,
        0 <= k,
    ensures
        frame_shape(draw_row(fb, sprite, xc, yc, k).0),
        frame_binary(fb) ==> frame_binary(draw_row(fb, sprite, xc, yc, k).0),
    decreases 8 - k,
{
    if k < 8 && xc + k < DISPLAY_WIDTH {
        let col = xc + k;
        let old = fb[col][yc];
        let bit = sprite_bit(sprite, k);
        let fb1 = fb.update(col, fb[col].update(yc, pixel_after(old, bit)));
        assert(frame_shape(fb1)) by {
            assert forall|c: int| 0 <= c < DISPLAY_WIDTH implies #[trigger] fb1[c].len()
                == DISPLAY_HEIGHT by {
                assert(fb[c].len() == DISPLAY_HEIGHT);
            }
        }
        if frame_binary(fb) {
            assert forall|c: int, r: int|
                0 <= c < DISPLAY_WIDTH && 0 <= r < DISPLAY_HEIGHT implies #[trigger] fb1[c][r]
                <= 1 by {
                if c == col && r == yc {
                } else {
                    assert(fb[c][r] <= 1);
                }
            }
        }
        lemma_draw_row_frame(fb1, sprite, xc, yc, k + 1);
    }
}

/// Drawing sprite rows keeps the frame's shape, and keeps its pixels 0 or 1
/// when they were.
pub proof fn lemma_draw_rows_frame(
    fb: Seq<Seq<u8>>,
    v: Seq<u8>,
    memory: Seq<u8>,
    index: int,
    x: int,
    xc: int,
    yc: int,
    n: int,
    r: int,
)
    requires
        frame_shape(fb),
        v.len() == 16,
        0 <= xc,
        0 <= yc,
    ensures
        frame_shape(draw_rows(fb, v, memory, index, x, xc, yc, n, r).0),
        frame_binary(fb) ==> frame_binary(draw_rows(fb, v, memory, index, x, xc, yc, n, r).0),
        draw_rows(fb, v, memory, index, x, xc, yc, n, r).1.len() == v.len(),
    decreases n - r,
{
    if r < n && yc < DISPLAY_HEIGHT {
        let row = draw_row(fb, memory[index + r], xc, yc, 0);
        lemma_draw_row_frame(fb, memory[index + r], xc, yc, 0);
        let v1 = if row.1 {
            v.update(15, 1u8)
        } else {
            v
        };
        lemma_draw_rows_frame(row.0, v1, memory, index, x, v1[x] as int % 64, yc + 1, n, r + 1);
    }
}

/// A fresh machine is well formed and its frame is blank.
pub proof fn law_initial_state()
    ensures
        state_wf(initial_state()),
        frame_binary(initial_state().frame),
        forall|c: int, r: int|
            0 <= c < DISPLAY_WIDTH && 0 <= r < DISPLAY_HEIGHT ==> #[trigger] initial_state().frame[c][r]
                == 0,
{
}

/// Executing an instruction keeps a machine well formed, and keeps every
/// pixel 0 or 1 when all were.
pub proof fn law_step_preserves_invariants(s: Chip8State, op: u16, rnd: u8)
    requires
        state_wf(s),
        !faults(s, op),
    ensures
        state_wf(step(s, op, rnd).0),
        frame_binary(s.frame) ==> frame_binary(step(s, op, rnd).0.frame),
{
    let x = reg_x(op);
    let y = reg_y(op);
    let n = low_nibble(op);
    if op == 0x00E0 {
        assert(frame_shape(blank_frame()));
        assert(frame_binary(blank_frame()));
    }
    if family(op) == 0xD && op != 0x00E0 && op != 0x00EE {
        let x0 = s.v[x] as int % 64;
        let y0 = s.v[y] as int % 32;
        let v1 = s.v.update(15, 0u8);
        lemma_draw_rows_frame(s.frame, v1, s.memory, s.index as int, x, x0, y0, n, 0);
    }
}

/// Only `00E0` and `DXYN` change the frame buffer. `00E0` turns every pixel
/// off, changes nothing else, and is the only instruction that asks for the
/// screen to be cleared; only `DXYN` asks for it to be drawn.
pub proof fn law_screen_effects(s: Chip8State, op: u16, rnd: u8)
    requires
        state_wf(s),
    ensures
        family(op) != 0xD && op != 0x00E0 ==> step(s, op, rnd).0.frame == s.frame,
        (step(s, op, rnd).1 == Action::ClearScreen) <==> op == 0x00E0,
        op == 0x00E0 ==> step(s, op, rnd).0 == (Chip8State { frame: blank_frame(), ..s }),
        op == 0x00E0 ==> forall|c: int, r: int|
            0 <= c < DISPLAY_WIDTH && 0 <= r < DISPLAY_HEIGHT ==> #[trigger] step(
                s,
                op,
                rnd,
            ).0.frame[c][r] == 0,
        (step(s, op, rnd).1 == Action::Draw) <==> family(op) == 0xD,
{
}

/// A subroutine call followed by a return comes back to the instruction
/// after the call, with the machine exactly as before the call.
pub proof fn law_call_then_return(s: Chip8State, call: u16, rnd1: u8, rnd2: u8)
    requires
        state_wf(s),
        family(call) == 0x2,
    ensures
        !faults(step(s, call, rnd1).0, 0x00EE),
        step(step(s, call, rnd1).0, 0x00EE, rnd2).0 == s,
{
    let s1 = step(s, call, rnd1).0;
    assert(s1.stack.drop_last() =~= s.stack);
    assert(step(s1, 0x00EE, rnd2).0 =~= s);
}

/// `3XNN` and `4XNN` on the same register and byte: exactly one of them
/// skips the next instruction.
pub proof fn law_skips_complement(s: Chip8State, eq_op: u16, ne_op: u16, rnd: u8)
    requires
        state_wf(s),
        family(eq_op) == 0x3,
        family(ne_op) == 0x4,
        address(eq_op) == address(ne_op),
        !faults(s, eq_op),
        !faults(s, ne_op),
    ensures
        step(s, eq_op, rnd).0.pc + step(s, ne_op, rnd).0.pc == 2 * s.pc + 2,
{
    lemma_address_fields(eq_op);
    lemma_address_fields(ne_op);
}

/// `FX55` then `FX65` with the same `X` and `I`: loading back what was just
/// stored changes nothing.
pub proof fn law_store_then_load(s: Chip8State, store: u16, load: u16, rnd1: u8, rnd2: u8)
    requires
        state_wf(s),
        family(store) == 0xF,
        low_byte(store) == 0x55,
        family(load) == 0xF,
        low_byte(load) == 0x65,
        reg_x(store) == reg_x(load),
        !faults(s, store),
    ensures
        !faults(step(s, store, rnd1).0, load),
        step(step(s, store, rnd1).0, load, rnd2).0 == step(s, store, rnd1).0,
{
    let s1 = step(s, store, rnd1).0;
    let s2 = step(s1, load, rnd2).0;
    assert(s2.v =~= s1.v);
    assert(s2 =~= s1);
}

/// `FX33` stores the decimal digits of `VX`: they are digits, and read as a
/// number they give `VX` back.
pub proof fn law_bcd_digits(s: Chip8State, op: u16, rnd: u8)
    requires
        state_wf(s),
        family(op) == 0xF,
        low_byte(op) == 0x33,
        !faults(s, op),
    ensures
        ({
            let m = step(s, op, rnd).0.memory;
            let i = s.index as int;
            &&& m[i] <= 2
            &&& m[i + 1] < 10
            &&& m[i + 2] < 10
            &&& m[i] * 100 + m[i + 1] * 10 + m[i + 2] == s.v[reg_x(op)]
        }),
{
}

/// `8XY4` with `X` other than the flag register: `VX` becomes the sum
/// modulo 256, and a carry sets `VF`.
pub proof fn law_add_carry(s: Chip8State, op: u16, rnd: u8)
    requires
        state_wf(s),
        family(op) == 0x8,
        low_nibble(op) == 0x4,
        reg_x(op) != 0xF,
    ensures
        ({
            let x = reg_x(op);
            let y = reg_y(op);
            let v = step(s, op, rnd).0.v;
            &&& v[x] == (s.v[x] + s.v[y]) % 256
            &&& s.v[x] + s.v[y] > 255 ==> v[15] == 1
            &&& s.v[x] + s.v[y] <= 255 ==> v[15] == s.v[15]
        }),
{
}

/// `8XY5` with neither `X` nor `Y` the flag register never panics: `VX`
/// becomes the difference modulo 256, and `VF` says whether `VX` was larger.
pub proof fn law_sub_borrow(s: Chip8State, op: u16, rnd: u8)
    requires
        state_wf(s),
        family(op) == 0x8,
        low_nibble(op) == 0x5,
        reg_x(op) != 0xF,
        reg_y(op) != 0xF,
    ensures
        !faults(s, op),
        ({
            let x = reg_x(op);
            let y = reg_y(op);
            let v = step(s, op, rnd).0.v;
            &&& v[x] == (s.v[x] - s.v[y]) % 256
            &&& v[15] == if s.v[x] > s.v[y] { 1u8 } else { 0u8 }
        }),
{
}

/// `CXNN` leaves in `VX` only bits that are set in `NN`, whatever the random
/// byte.
pub proof fn law_random_masked(s: Chip8State, op: u16, rnd: u8)
    requires
        state_wf(s),
        family(op) == 0xC,
    ensures
        step(s, op, rnd).0.v[reg_x(op)] & (low_byte(op) as u8) == step(s, op, rnd).0.v[reg_x(op)],
{
    let nn = low_byte(op) as u8;
    assert((rnd & nn) & nn == rnd & nn) by (bit_vector);
}

/// Ticking the timers `a` times and then `b` times is ticking them `a + b`
/// times; after 255 ticks both have stopped at zero.
pub proof fn law_ticks_compose(s: Chip8State, a: int, b: int)
    requires
        a >= 0,
        b >= 0,
    ensures
        tick(tick(s, a), b) == tick(s, a + b),
        a >= 255 ==> tick(s, a).delay_timer == 0 && tick(s, a).sound_timer == 0,
{
}

/// After `k` ticks each timer has gone down by `k`, or stopped at zero.
pub proof fn law_ticks_count_down(s: Chip8State, k: int)
    requires
        k >= 0,
    ensures
        tick(s, k).delay_timer == if s.delay_timer >= k {
            s.delay_timer - k
        } else {
            0
        },
        tick(s, k).sound_timer == if s.sound_timer >= k {
            s.sound_timer - k
        } else {
            0
        },
        tick(s, k) == (Chip8State {
            delay_timer: tick(s, k).delay_timer,
            sound_timer: tick(s, k).sound_timer,
            ..s
        }),
{
}

/// The ticks due after `e` nanoseconds are the whole sixtieths of a second
/// in `e`.
pub proof fn law_ticks_due_bounds(e: int)
    requires
        e >= 0,
    ensures
        ticks_due(e) >= 0,
        ticks_due(e) * 1_000_000_000 <= e * 60 < (ticks_due(e) + 1) * 1_000_000_000,
{
    let t = ticks_due(e);
    assert(t * 1_000_000_000 <= e * 60 < (t + 1) * 1_000_000_000 && t >= 0) by (nonlinear_arith)
        requires
            t == e * 60 / 1_000_000_000,
            e >= 0,
    ;
}

/// Copying bytes into memory puts byte `i` at `start + i` and leaves every
/// other address alone.
pub proof fn law_copy_into(memory: Seq<u8>, start: int, bytes: Seq<u8>)
    ensures
        copy_into(memory, start, bytes).len() == memory.len(),
        forall|i: int|
            0 <= i < bytes.len() && 0 <= start + i < memory.len() ==> #[trigger] copy_into(
                memory,
                start,
                bytes,
            )[start + i] == bytes[i],
        forall|a: int|
            0 <= a < memory.len() && !(start <= a < start + bytes.len()) ==> #[trigger] copy_into(
                memory,
                start,
                bytes,
            )[a] == memory[a],
{
}

/// The display list paints pixel (`x`, `y`) at position `64 * y + x`: a
/// square of side 20 filled in blue, centred on (`20x`, `20y`), when the
/// pixel is lit, and a black outline of side 10 there otherwise.
pub proof fn law_display_list(s: Chip8State)
    requires
        state_wf(s),
    ensures
        display_list(s).len() == 2048,
        forall|x: int, y: int|
            0 <= x < 64 && 0 <= y < 32 ==> {
                let d = #[trigger] display_list(s)[64 * y + x];
                let lit = s.frame[x][y] == 1;
                &&& d.center_x == 20 * x
                &&& d.center_y == 20 * y
                &&& d.width == if lit { 20u32 } else { 10u32 }
                &&& d.height == d.width
                &&& d.red == 0
                &&& d.green == 0
                &&& d.blue == if lit { 255u8 } else { 0u8 }
                &&& d.filled == lit
            },
{
    assert forall|x: int, y: int| 0 <= x < 64 && 0 <= y < 32 implies {
        let d = #[trigger] display_list(s)[64 * y + x];
        let lit = s.frame[x][y] == 1;
        &&& d.center_x == 20 * x
        &&& d.center_y == 20 * y
        &&& d.width == if lit { 20u32 } else { 10u32 }
        &&& d.height == d.width
        &&& d.red == 0
        &&& d.green == 0
        &&& d.blue == if lit { 255u8 } else { 0u8 }
        &&& d.filled == lit
    } by {
        let k = 64 * y + x;
        assert(k % 64 == x && k / 64 == y) by (nonlinear_arith)
            requires
                k == 64 * y + x,
                0 <= x < 64,
        ;
        assert(0 <= k < 2048) by (nonlinear_arith)
            requires
                k == 64 * y + x,
                0 <= x < 64,
                0 <= y < 32,
        ;
    }
}

/// At 60 Hz, more time never means fewer ticks, and each second brings
/// exactly sixty.
pub proof fn law_ticks_due(e1: int, e2: int)
    requires
        0 <= e1 <= e2,
    ensures
        ticks_due(e1) <= ticks_due(e2),
        ticks_due(e1 + 1_000_000_000) == ticks_due(e1) + 60,
{
    assert(e1 * 60 / 1_000_000_000 <= e2 * 60 / 1_000_000_000) by (nonlinear_arith)
        requires
            0 <= e1 <= e2,
    ;
    assert((e1 + 1_000_000_000) * 60 / 1_000_000_000 == e1 * 60 / 1_000_000_000 + 60)
        by (nonlinear_arith)
        requires
            0 <= e1,
    ;
}

/// Pressing a host key and releasing it leaves its keypad key released and
/// every other key as it was.
pub proof fn law_press_then_release(keys: Seq<bool>, key: HostKey)
    requires
        keys.len() == 16,
        keypad_slot(key) is Some,
    ensures
        key_event(key_event(keys, key, true).0, key, false).0 == keys.update(
            keypad_slot(key)->0,
            false,
        ),
        !key_event(keys, key, true).1,
{
}

/// Distinct host keys stand for distinct keypad keys, all below 16.
pub proof fn law_keypad_injective(a: HostKey, b: HostKey)
    ensures
        keypad_slot(a) matches Some(i) ==> 0 <= i < 16,
        a != b && keypad_slot(a) is Some && keypad_slot(b) is Some ==> keypad_slot(a)
            != keypad_slot(b),
{
}

} // verus!
