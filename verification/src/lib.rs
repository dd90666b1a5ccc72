//! A verified CHIP-8 virtual machine core.
//!
//! The library owns the full machine state (memory, registers, stack,
//! timers, keypad, framebuffer) and advances it one instruction at a time.
//! Every state transition is specified by a mathematical step function and
//! the executable engine is proved to follow it.

use vstd::prelude::*;

pub mod decode;
pub mod laws;
pub mod machine;
pub mod state;
pub mod step;

verus! {

pub const SCREEN_WIDTH: usize = 64;
pub const SCREEN_HEIGHT: usize = 32;
pub const RAM_SIZE: usize = 4096;
pub const NUM_REGS: usize = 16;
pub const STACK_SIZE: usize = 16;
pub const NUM_KEYS: usize = 16;
pub const START_ADDR: u16 = 0x200;
pub const FONTSET_SIZE: usize = 80;

} // verus!
