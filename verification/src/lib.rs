//! A CHIP-8 virtual machine: memory, keypad, display state and the
//! instruction interpreter, with their behaviour stated as contracts.

pub mod cpu;
pub mod emu;
pub mod keypad;
pub mod laws;
pub mod machine;
pub mod memory;
pub mod screen;
