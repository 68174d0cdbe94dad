//! The host keyboard and the CHIP-8 keypad it stands for.
//!
//! The left of a QWERTY keyboard is laid out as the 4 by 4 hex keypad:
//!
//! ```text
//! 1 2 3 4        1 2 3 C
//! Q W E R   ->   4 5 6 D
//! A S D .        7 8 9 .
//! Z X C V        A 0 B F
//! ```
//!
//! No host key stands for `E`, and Escape ends the session.

use vstd::prelude::*;

verus! {

/// The host keys that the interpreter listens to.
#[derive(Clone, Copy, Debug, PartialEq, Eq, Structural)]
pub enum HostKey {
    Num1,
    Num2,
    Num3,
    Num4,
    Q,
    W,
    E,
    R,
    A,
    S,
    D,
    Z,
    X,
    C,
    V,
    Escape,
}

/// The keypad key that a host key stands for, if any.
pub open spec fn keypad_slot(key: HostKey) -> Option<int> {
    match key {
        HostKey::Num1 => Some(0x1),
        HostKey::Num2 => Some(0x2),
        HostKey::Num3 => Some(0x3),
        HostKey::Num4 => Some(0xC),
        HostKey::Q => Some(0x4),
        HostKey::W => Some(0x5),
        HostKey::E => Some(0x6),
        HostKey::R => Some(0xD),
        HostKey::A => Some(0x7),
        HostKey::S => Some(0x8),
        HostKey::D => Some(0x9),
        HostKey::Z => Some(0xA),
        HostKey::X => Some(0x0),
        HostKey::C => Some(0xB),
        HostKey::V => Some(0xF),
        HostKey::Escape => None,
    }
}

/// The keypad key that a host key stands for, if any.
pub fn keypad_index(key: HostKey) -> (slot: Option<usize>)
    ensures
        match slot {
            Some(i) => keypad_slot(key) == Some(i as int),
            None => keypad_slot(key) is None,
        },
{
    match key {
        HostKey::Num1 => Some(0x1),
        HostKey::Num2 => Some(0x2),
        HostKey::Num3 => Some(0x3),
        HostKey::Num4 => Some(0xC),
        HostKey::Q => Some(0x4),
        HostKey::W => Some(0x5),
        HostKey::E => Some(0x6),
        HostKey::R => Some(0xD),
        HostKey::A => Some(0x7),
        HostKey::S => Some(0x8),
        HostKey::D => Some(0x9),
        HostKey::Z => Some(0xA),
        HostKey::X => Some(0x0),
        HostKey::C => Some(0xB),
        HostKey::V => Some(0xF),
        HostKey::Escape => None,
    }
}

/// The keypad after a host key goes down (`pressed`) or up, and whether the
/// session ends: Escape going down ends it; a mapped key sets or clears its
/// keypad key.
pub open spec fn key_event(keys: Seq<bool>, key: HostKey, pressed: bool) -> (Seq<bool>, bool) {
    match keypad_slot(key) {
        Some(i) => (keys.update(i, pressed), false),
        None => (keys, pressed),
    }
}

} // verus!
