//! A CHIP-8 interpreter core: machine state, instruction fetch and
//! execution, timers, keypad and the display list that a front end renders.

pub mod grid;
pub mod rng;
pub mod opcode;
pub mod semantics;
pub mod keypad;
pub mod machine;
pub mod display;
pub mod laws;
pub mod sprite_laws;
pub mod instruction_laws;
pub mod diagnostics;
