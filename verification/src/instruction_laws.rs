//! What each instruction does, stated over the opcode's bits and the
//! machine's fields.

use crate::keypad::{key_event, HostKey};
use crate::semantics::{faults, last_pressed, state_wf, step, Action, Chip8State};
use vstd::prelude::*;

verus! {

/// The arithmetic and logic instructions `8XYN` with `X` other than `F`:
/// `VX` becomes `VY`, `VX | VY`, `VX & VY`, `VX ^ VY`, the sum, the
/// difference either way round modulo 256, `VX / 2` or `2 * VX` modulo 256;
/// `VF` gets the carry, the no-borrow bit or the bit shifted out, and only
/// `VX` and `VF` change. Undefined `N` change nothing.
pub proof fn law_alu(s: Chip8State, op: u16, rnd: u8)
    requires
        state_wf(s),
        op as int / 4096 == 0x8,
        (op as int / 256) % 16 != 0xF,
    ensures
        ({
            let x = (op as int / 256) % 16;
            let y = (op as int / 16) % 16;
            let n = op as int % 16;
            let a = s.v[x] as int;
            let b = s.v[y] as int;
            let t = step(s, op, rnd).0;
            &&& step(s, op, rnd).1 == Action::Nothing
            &&& t == (Chip8State { v: t.v, ..s })
            &&& t.v.len() == 16
            &&& forall|i: int| 0 <= i < 15 && i != x ==> #[trigger] t.v[i] == s.v[i]
            &&& n == 0x0 ==> t.v[x] == b && t.v[15] == s.v[15]
            &&& n == 0x1 ==> t.v[x] == s.v[x] | s.v[y] && t.v[15] == s.v[15]
            &&& n == 0x2 ==> t.v[x] == s.v[x] & s.v[y] && t.v[15] == s.v[15]
            &&& n == 0x3 ==> t.v[x] == s.v[x] ^ s.v[y] && t.v[15] == s.v[15]
            &&& n == 0x4 ==> t.v[x] == (a + b) % 256 && t.v[15] == if a + b > 255 {
                1
            } else {
                s.v[15] as int
            }
            &&& n == 0x5 && y != 0xF ==> t.v[x] == (a - b) % 256 && t.v[15] == if a > b {
                1int
            } else {
                0
            }
            &&& n == 0x6 ==> t.v[x] == a / 2 && t.v[x] < 128 && t.v[15] == a % 2
            &&& n == 0x7 && y != 0xF ==> t.v[x] == (b - a) % 256 && t.v[15] == if b > a {
                1int
            } else {
                0
            }
            &&& n == 0xE ==> t.v[x] == (a * 2) % 256 && t.v[15] == if a >= 128 {
                1int
            } else {
                0
            }
            &&& (0x8 <= n <= 0xD || n == 0xF) ==> t == s
        }),
{
    let t = step(s, op, rnd).0;
    assert(t == (Chip8State { v: t.v, ..s }));
}

/// The skips: `3XNN` when `VX == NN`, `4XNN` when `VX != NN`, `5XY_` when
/// `VX == VY`, `9XY_` when `VX != VY`, `EX_E` when key `VX` is down and
/// `EX_1` when it is up add 2 to the program counter; otherwise it stays,
/// and nothing else changes.
pub proof fn law_skips(s: Chip8State, op: u16, rnd: u8)
    requires
        state_wf(s),
        s.pc + 2 <= 0xFFFF,
        op as int / 4096 == 0x3 || op as int / 4096 == 0x4 || op as int / 4096 == 0x5 || op as int
            / 4096 == 0x9 || op as int / 4096 == 0xE,
        op as int / 4096 == 0xE ==> s.v[(op as int / 256) % 16] < 16,
    ensures
        ({
            let f = op as int / 4096;
            let x = (op as int / 256) % 16;
            let y = (op as int / 16) % 16;
            let n = op as int % 16;
            let nn = op as int % 256;
            let a = s.v[x] as int;
            let b = s.v[y] as int;
            let skip = if f == 0x3 {
                a == nn
            } else if f == 0x4 {
                a != nn
            } else if f == 0x5 {
                a == b
            } else if f == 0x9 {
                a != b
            } else if n == 0xE {
                s.keys[a]
            } else if n == 0x1 {
                !s.keys[a]
            } else {
                false
            };
            let t = step(s, op, rnd).0;
            &&& step(s, op, rnd).1 == Action::Nothing
            &&& t == (Chip8State { pc: t.pc, ..s })
            &&& t.pc == if skip {
                s.pc + 2
            } else {
                s.pc as int
            }
        }),
{
    let t = step(s, op, rnd).0;
    assert(t == (Chip8State { pc: t.pc, ..s }));
}

/// Jumps, calls, returns and the register and index loads:
/// `00EE` pops the return address into the program counter, `1NNN` jumps,
/// `2NNN` pushes the program counter and jumps, `6XNN` sets `VX`, `7XNN`
/// adds to `VX` modulo 256 without touching `VF`, `ANNN` sets `I`, `BNNN`
/// jumps to `NNN + V0`, and `CXNN` sets `VX` to the random byte masked by
/// `NN`. Nothing else changes.
pub proof fn law_moves(s: Chip8State, op: u16, rnd: u8)
    requires
        state_wf(s),
    ensures
        ({
            let f = op as int / 4096;
            let x = (op as int / 256) % 16;
            let nn = op as int % 256;
            let nnn = op as int % 4096;
            let t = step(s, op, rnd).0;
            &&& op == 0x00EE ==> t == (Chip8State {
                pc: s.stack.last(),
                stack: s.stack.drop_last(),
                ..s
            })
            &&& f == 0x1 ==> t == (Chip8State { pc: nnn as u16, ..s })
            &&& f == 0x2 ==> t == (Chip8State { pc: nnn as u16, stack: s.stack.push(s.pc), ..s })
            &&& f == 0x6 ==> t == (Chip8State { v: s.v.update(x, nn as u8), ..s })
            &&& f == 0x7 ==> t == (Chip8State {
                v: s.v.update(x, ((s.v[x] + nn) % 256) as u8),
                ..s
            })
            &&& f == 0xA ==> t == (Chip8State { index: nnn as u16, ..s })
            &&& f == 0xB ==> t == (Chip8State { pc: (nnn + s.v[0]) as u16, ..s })
            &&& f == 0xC ==> t == (Chip8State { v: s.v.update(x, rnd & (nn as u8)), ..s })
            &&& (f == 0x1 || f == 0x2 || f == 0x6 || f == 0x7 || f == 0xA || f == 0xB || f == 0xC
                || op == 0x00EE) ==> step(s, op, rnd).1 == Action::Nothing
        }),
{
}

/// The keypad keys that are held down.
pub open spec fn some_key_down(keys: Seq<bool>) -> bool {
    exists|k: int| 0 <= k < 16 && #[trigger] keys[k]
}

proof fn lemma_last_pressed(keys: Seq<bool>, upto: int)
    requires
        0 <= upto <= keys.len(),
    ensures
        match last_pressed(keys, upto) {
            Some(k) => 0 <= k < upto && keys[k] && forall|j: int| k < j < upto ==> !#[trigger] keys[j],
            None => forall|j: int| 0 <= j < upto ==> !#[trigger] keys[j],
        },
    decreases upto,
{
    if upto > 0 {
        lemma_last_pressed(keys, upto - 1);
    }
}

/// `FX0A` with some keypad key down (key 0 included) stores the highest one
/// in `memory[X]` and moves on; with none down it moves the program counter
/// back to run itself again. Nothing else changes.
pub proof fn law_wait_key(s: Chip8State, op: u16, rnd: u8)
    requires
        state_wf(s),
        op as int / 4096 == 0xF,
        op as int % 256 == 0x0A,
        s.pc >= 2,
    ensures
        ({
            let x = (op as int / 256) % 16;
            let t = step(s, op, rnd).0;
            &&& step(s, op, rnd).1 == Action::Nothing
            &&& some_key_down(s.keys) ==> {
                &&& t == (Chip8State { memory: s.memory.update(x, t.memory[x]), ..s })
                &&& t.memory[x] < 16
                &&& s.keys[t.memory[x] as int]
                &&& forall|j: int| t.memory[x] < j < 16 ==> !#[trigger] s.keys[j]
            }
            &&& !some_key_down(s.keys) ==> t == (Chip8State { pc: (s.pc - 2) as u16, ..s })
        }),
{
    lemma_last_pressed(s.keys, 16);
    let x = (op as int / 256) % 16;
    let t = step(s, op, rnd).0;
    match last_pressed(s.keys, 16) {
        Some(k) => {
            assert(t.memory[x] == k);
            assert(s.memory.update(x, k as u8) =~= s.memory.update(x, t.memory[x]));
        },
        None => {
            if some_key_down(s.keys) {
                let k = choose|k: int| 0 <= k < 16 && #[trigger] s.keys[k];
                assert(!s.keys[k]);
            }
        },
    }
}

/// The remaining `FXNN` instructions: `FX07` reads the delay timer into
/// `VX`, `FX15` and `FX18` set the delay and sound timers from `VX`, `FX1E`
/// adds `VX` to `I`, `FX29` points `I` at the glyph of digit `VX`, `FX33`
/// stores the decimal digits of `VX` at `I`, `FX55` stores `V0..=VX` at `I`,
/// and `FX65` loads them from there.
pub proof fn law_misc(s: Chip8State, op: u16, rnd: u8)
    requires
        state_wf(s),
        op as int / 4096 == 0xF,
    ensures
        ({
            let x = (op as int / 256) % 16;
            let nn = op as int % 256;
            let a = s.v[x];
            let i = s.index as int;
            let t = step(s, op, rnd).0;
            &&& step(s, op, rnd).1 == Action::Nothing
            &&& nn == 0x07 ==> t == (Chip8State { v: s.v.update(x, s.delay_timer), ..s })
            &&& nn == 0x15 ==> t == (Chip8State { delay_timer: a, ..s })
            &&& nn == 0x18 ==> t == (Chip8State { sound_timer: a, ..s })
            &&& nn == 0x1E ==> t == (Chip8State { index: (i + a) as u16, ..s })
            &&& nn == 0x29 ==> t == (Chip8State {
                index: if a < 16 {
                    (0x50 + 5 * a) as u16
                } else {
                    s.index
                },
                ..s
            })
            &&& nn == 0x33 && i + 2 < 4096 ==> t == (Chip8State {
                memory: s.memory.update(i, a / 100).update(i + 1, (a / 10) % 10).update(
                    i + 2,
                    a % 10,
                ),
                ..s
            })
            &&& nn == 0x55 && i + x < 4096 ==> t == (Chip8State { memory: t.memory, ..s })
                && t.memory.len() == 4096 && forall|m: int|
                0 <= m < 4096 ==> #[trigger] t.memory[m] == if i <= m <= i + x {
                    s.v[m - i]
                } else {
                    s.memory[m]
                }
            &&& nn == 0x65 && i + x < 4096 ==> t == (Chip8State { v: t.v, ..s }) && t.v.len() == 16
                && forall|j: int|
                0 <= j < 16 ==> #[trigger] t.v[j] == if j <= x {
                    s.memory[i + j]
                } else {
                    s.v[j]
                }
        }),
{
    let nn = op as int % 256;
    let t = step(s, op, rnd).0;
    if nn == 0x33 {
        let a = s.v[(op as int / 256) % 16];
        assert((a % 100) / 10 == (a / 10) % 10);
    }
    if nn == 0x55 || nn == 0x65 {
        assert(t == (Chip8State { memory: t.memory, v: t.v, ..s }));
    }
}

/// When an instruction cannot be executed: a return with an empty stack, a
/// skip past a 16-bit program counter, an `8XY5`/`8XY7` whose unwrapped
/// subtraction underflows once `VF` is set first, a draw, store, load or
/// digit conversion past the end of memory, a key test on a `VX` of 16 or
/// more, an `I` past 16 bits, or a wait for a key with no key down and the
/// program counter below 2. Every other instruction can always run.
pub proof fn law_faults(s: Chip8State, op: u16)
    requires
        state_wf(s),
    ensures
        ({
            let f = op as int / 4096;
            let x = (op as int / 256) % 16;
            let y = (op as int / 16) % 16;
            let n = op as int % 16;
            let nn = op as int % 256;
            let a = s.v[x] as int;
            let b = s.v[y] as int;
            let a1 = if x == 15 {
                1
            } else {
                a
            };
            let b1 = if y == 15 {
                1
            } else {
                b
            };
            let pc_full = s.pc + 2 > 0xFFFF;
            let y0 = b % 32;
            let count = if n < 32 - y0 {
                n
            } else {
                32 - y0
            };
            let i = s.index as int;
            faults(s, op) <==> if op == 0x00EE {
                s.stack.len() == 0
            } else if f == 0x3 {
                a == nn && pc_full
            } else if f == 0x4 {
                a != nn && pc_full
            } else if f == 0x5 {
                a == b && pc_full
            } else if f == 0x9 {
                a != b && pc_full
            } else if f == 0x8 {
                (n == 0x5 && a > b && a1 < b1) || (n == 0x7 && b > a && b1 < a1)
            } else if f == 0xD {
                count > 0 && i + count - 1 >= 4096
            } else if f == 0xE {
                (n == 0xE && (a >= 16 || (s.keys[a] && pc_full))) || (n == 0x1 && (a >= 16 || (
                !s.keys[a] && pc_full)))
            } else if f == 0xF {
                (nn == 0x1E && i + a > 0xFFFF) || (nn == 0x0A && !some_key_down(s.keys) && s.pc
                    < 2) || (nn == 0x33 && i + 2 >= 4096) || ((nn == 0x55 || nn == 0x65) && i + x
                    >= 4096)
            } else {
                false
            }
        }),
{
    lemma_last_pressed(s.keys, 16);
    if some_key_down(s.keys) {
        let k = choose|k: int| 0 <= k < 16 && #[trigger] s.keys[k];
        assert(last_pressed(s.keys, 16) is Some);
    }
}

/// The keyboard layout: each host key stands for one fixed keypad key —
/// 1→1, 2→2, 3→3, 4→C, Q→4, W→5, E→6, R→D, A→7, S→8, D→9, Z→A, X→0, C→B,
/// V→F — and sets or clears exactly that key; Escape ends the session when
/// it goes down and touches no key.
pub proof fn law_keypad_layout(keys: Seq<bool>, pressed: bool)
    requires
        keys.len() == 16,
    ensures
        key_event(keys, HostKey::Num1, pressed) == (keys.update(0x1, pressed), false),
        key_event(keys, HostKey::Num2, pressed) == (keys.update(0x2, pressed), false),
        key_event(keys, HostKey::Num3, pressed) == (keys.update(0x3, pressed), false),
        key_event(keys, HostKey::Num4, pressed) == (keys.update(0xC, pressed), false),
        key_event(keys, HostKey::Q, pressed) == (keys.update(0x4, pressed), false),
        key_event(keys, HostKey::W, pressed) == (keys.update(0x5, pressed), false),
        key_event(keys, HostKey::E, pressed) == (keys.update(0x6, pressed), false),
        key_event(keys, HostKey::R, pressed) == (keys.update(0xD, pressed), false),
        key_event(keys, HostKey::A, pressed) == (keys.update(0x7, pressed), false),
        key_event(keys, HostKey::S, pressed) == (keys.update(0x8, pressed), false),
        key_event(keys, HostKey::D, pressed) == (keys.update(0x9, pressed), false),
        key_event(keys, HostKey::Z, pressed) == (keys.update(0xA, pressed), false),
        key_event(keys, HostKey::X, pressed) == (keys.update(0x0, pressed), false),
        key_event(keys, HostKey::C, pressed) == (keys.update(0xB, pressed), false),
        key_event(keys, HostKey::V, pressed) == (keys.update(0xF, pressed), false),
        key_event(keys, HostKey::Escape, pressed) == (keys, pressed),
{
}

} // verus!
