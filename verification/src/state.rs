//! The mathematical model of the machine: a ghost view of the full state,
//! its well-formedness condition, and the canonical reset state.

use vstd::prelude::*;
use crate::{RAM_SIZE, SCREEN_WIDTH, SCREEN_HEIGHT, NUM_REGS, STACK_SIZE, NUM_KEYS, START_ADDR, FONTSET_SIZE};

verus! {

/// Ghost view of the whole machine. Every contract in the crate is stated
/// over this view.
#[verifier::ext_equal]
pub ghost struct MachineView {
    /// Program counter: address of the next instruction to fetch.
    pub pc: u16,
    /// 4096 bytes of addressable memory; the first 80 hold the font.
    pub ram: Seq<u8>,
    /// Monochrome framebuffer, 64 x 32, row-major.
    pub screen: Seq<bool>,
    /// The 16 general-purpose 8-bit registers; register 15 doubles as the
    /// carry/borrow/collision flag.
    pub regs: Seq<u8>,
    /// Index register, base address for memory-indexed instructions.
    pub i_reg: u16,
    /// Number of return addresses currently on the stack.
    pub sp: u16,
    /// Return-address stack, capacity 16.
    pub stack: Seq<u16>,
    /// Pressed/released state of the 16 logical keys.
    pub keys: Seq<bool>,
    /// Delay timer, decremented externally, floored at zero.
    pub dt: u8,
    /// Sound timer, decremented externally, floored at zero.
    pub st: u8,
}

impl MachineView {
    /// Well-formedness: every array has its architectural size and the stack
    /// pointer stays within the stack's capacity.
    pub open spec fn wf(self) -> bool {
        &&& self.ram.len() == RAM_SIZE
        &&& self.screen.len() == SCREEN_WIDTH * SCREEN_HEIGHT
        &&& self.regs.len() == NUM_REGS
        &&& self.stack.len() == STACK_SIZE
        &&& self.keys.len() == NUM_KEYS
        &&& self.sp <= STACK_SIZE
    }
}

/// The built-in sprite font: 16 glyphs (hexadecimal digits 0-F), 5 bytes each.
pub open spec fn font_seq() -> Seq<u8> {
    seq![
        0xF0u8, 0x90, 0x90, 0x90, 0xF0, // 0
        0x20, 0x60, 0x20, 0x20, 0x70, // 1
        0xF0, 0x10, 0xF0, 0x80, 0xF0, // 2
        0xF0, 0x10, 0xF0, 0x10, 0xF0, // 3
        0x90, 0x90, 0xF0, 0x10, 0x10, // 4
        0xF0, 0x80, 0xF0, 0x10, 0xF0, // 5
        0xF0, 0x80, 0xF0, 0x90, 0xF0, // 6
        0xF0, 0x10, 0x20, 0x40, 0x40, // 7
        0xF0, 0x90, 0xF0, 0x90, 0xF0, // 8
        0xF0, 0x90, 0xF0, 0x10, 0xF0, // 9
        0xF0, 0x90, 0xF0, 0x90, 0x90, // A
        0xE0, 0x90, 0xE0, 0x90, 0xE0, // B
        0xF0, 0x80, 0x80, 0x80, 0xF0, // C
        0xE0, 0x90, 0x90, 0x90, 0xE0, // D
        0xF0, 0x80, 0xF0, 0x80, 0xF0, // E
        0xF0, 0x80, 0xF0, 0x80, 0x80, // F
    ]
}

/// Memory contents at reset: the font in the first 80 bytes, zeroes after.
pub open spec fn initial_ram() -> Seq<u8> {
    Seq::new(RAM_SIZE as nat, |i: int| if i < FONTSET_SIZE { font_seq()[i] } else { 0u8 })
}

/// An all-off framebuffer.
pub open spec fn all_off() -> Seq<bool> {
    Seq::new((SCREEN_WIDTH * SCREEN_HEIGHT) as nat, |i: int| false)
}

/// Memory with a program image copied in at the fixed program offset,
/// everything else untouched.
pub open spec fn loaded_ram(ram: Seq<u8>, data: Seq<u8>) -> Seq<u8> {
    Seq::new(ram.len(), |i: int| if START_ADDR <= i < START_ADDR + data.len() { data[i - START_ADDR] } else { ram[i] })
}

/// The canonical reset state: program counter at the program start offset,
/// font pre-loaded, everything else zeroed.
pub open spec fn initial_view() -> MachineView {
    MachineView {
        pc: START_ADDR,
        ram: initial_ram(),
        screen: all_off(),
        regs: Seq::new(NUM_REGS as nat, |i: int| 0u8),
        i_reg: 0,
        sp: 0,
        stack: Seq::new(STACK_SIZE as nat, |i: int| 0u16),
        keys: Seq::new(NUM_KEYS as nat, |i: int| false),
        dt: 0,
        st: 0,
    }
}

} // verus!
