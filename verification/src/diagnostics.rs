//! The interpreter's console notes: which instructions it reports on before
//! executing them.

use crate::machine::Chip8;
use crate::opcode::{family, low_byte, low_nibble, reg_x, split};
use crate::semantics::Chip8State;
use vstd::prelude::*;

verus! {

/// What the interpreter reports about an instruction.
#[derive(Clone, Copy, Debug, PartialEq, Eq, Structural)]
pub enum Diagnostic {
    /// `8XY6`: the interpreter traces the shifted register and the flag.
    ShiftRight,
    /// An `8XYN` with no meaning.
    Unrecognised8,
    /// An `EXNN` with no meaning.
    UnrecognisedE,
    /// An `FXNN` with no meaning.
    UnrecognisedF,
    /// `FX29` with `VX` not a hexadecimal digit.
    InvalidDigit,
}

/// The report, if any, on executing `op` in the state `s`.
pub open spec fn diagnostic_of(s: Chip8State, op: u16) -> Option<Diagnostic> {
    let n = low_nibble(op);
    let nn = low_byte(op);
    let f = family(op);
    if f == 0x8 {
        if n == 0x6 {
            Some(Diagnostic::ShiftRight)
        } else if n <= 0x7 || n == 0xE {
            None
        } else {
            Some(Diagnostic::Unrecognised8)
        }
    } else if f == 0xE {
        if n == 0xE || n == 0x1 {
            None
        } else {
            Some(Diagnostic::UnrecognisedE)
        }
    } else if f == 0xF {
        if nn == 0x29 {
            if s.v[reg_x(op)] >= 16 {
                Some(Diagnostic::InvalidDigit)
            } else {
                None
            }
        } else if nn == 0x07 || nn == 0x15 || nn == 0x18 || nn == 0x1E || nn == 0x0A || nn == 0x33
            || nn == 0x55 || nn == 0x65 {
            None
        } else {
            Some(Diagnostic::UnrecognisedF)
        }
    } else {
        None
    }
}

/// The report, if any, on executing `op_code` now.
pub fn diagnostic(chip8: &Chip8, op_code: u16) -> (d: Option<Diagnostic>)
    ensures
        d == diagnostic_of(chip8@, op_code),
{
    let f = split(op_code);
    if f.first == 0x8 {
        if f.n == 0x6 {
            Some(Diagnostic::ShiftRight)
        } else if f.n <= 0x7 || f.n == 0xE {
            None
        } else {
            Some(Diagnostic::Unrecognised8)
        }
    } else if f.first == 0xE {
        if f.n == 0xE || f.n == 0x1 {
            None
        } else {
            Some(Diagnostic::UnrecognisedE)
        }
    } else if f.first == 0xF {
        if f.nn == 0x29 {
            if chip8.register(f.x as usize) >= 16 {
                Some(Diagnostic::InvalidDigit)
            } else {
                None
            }
        } else if f.nn == 0x07 || f.nn == 0x15 || f.nn == 0x18 || f.nn == 0x1E || f.nn == 0x0A
            || f.nn == 0x33 || f.nn == 0x55 || f.nn == 0x65 {
            None
        } else {
            Some(Diagnostic::UnrecognisedF)
        }
    } else {
        None
    }
}

} // verus!
