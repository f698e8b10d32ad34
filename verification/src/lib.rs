//! A CHIP-8 virtual machine: registers, call stack, memory, timers, keypad
//! and a 64x32 monochrome display, with an instruction interpreter whose
//! behaviour is stated over a mathematical model of the machine.

pub mod stack;
pub mod display;
pub mod memory;
pub mod keyboard;
pub mod timer;
pub mod cpu;
pub mod sprite;
pub mod opcode;
pub mod semantics;
pub mod random;
pub mod chip8;
pub mod laws;
pub mod frame;
