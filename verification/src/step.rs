//! The instruction semantics: a mathematical step function from machine
//! state and instruction word to the next machine state or a fault.
//!
//! Dispatch is by the four nibble fields with wildcards, exactly as the
//! execution engine does it. An instruction word that matches no pattern is
//! a fault, never silently ignored.

use vstd::prelude::*;
use crate::state::{MachineView, all_off};
use crate::decode::{nib_op, nib_x, nib_y, nib_n, imm_byte, imm_addr};
use crate::{RAM_SIZE, STACK_SIZE, NUM_KEYS, SCREEN_WIDTH, SCREEN_HEIGHT};

verus! {

/// The conditions an instruction cycle reports instead of completing:
/// an instruction word with no defined semantics, a return with an empty
/// stack, a call with a full stack, or a memory access past the end of
/// addressable memory.
#[derive(Clone, Copy, Debug, PartialEq, Eq, Structural)]
pub enum Fault {
    InvalidInstruction,
    StackUnderflow,
    StackOverflow,
    OutOfRange,
}

/// 16-bit wraparound increment of the program counter by one instruction.
pub open spec fn pc_plus2(pc: u16) -> u16 {
    if pc + 2 < 0x10000 {
        (pc + 2) as u16
    } else {
        (pc + 2 - 0x10000) as u16
    }
}

/// 16-bit wraparound rewind of the program counter by one instruction.
pub open spec fn pc_minus2(pc: u16) -> u16 {
    if pc >= 2 {
        (pc - 2) as u16
    } else {
        (pc - 2 + 0x10000) as u16
    }
}

/// 8-bit wraparound addition.
pub open spec fn wrap_add8(a: u8, b: u8) -> u8 {
    if a + b < 256 {
        (a + b) as u8
    } else {
        (a + b - 256) as u8
    }
}

/// 8-bit wraparound subtraction.
pub open spec fn wrap_sub8(a: u8, b: u8) -> u8 {
    if a >= b {
        (a - b) as u8
    } else {
        (a - b + 256) as u8
    }
}

/// 16-bit wraparound addition.
pub open spec fn wrap_add16(a: u16, b: u16) -> u16 {
    if a + b < 0x10000 {
        (a + b) as u16
    } else {
        (a + b - 0x10000) as u16
    }
}

/// The state with one register replaced.
pub open spec fn set_reg(pre: MachineView, x: int, v: u8) -> MachineView {
    MachineView { regs: pre.regs.update(x, v), ..pre }
}

/// The state with the flag register (register 15) replaced. Applied after
/// the result register, so on instructions that set both, the flag wins
/// when the result register is register 15 itself.
pub open spec fn set_flag(pre: MachineView, v: u8) -> MachineView {
    set_reg(pre, 15, v)
}

/// The state with the next instruction skipped.
pub open spec fn skip(pre: MachineView) -> MachineView {
    MachineView { pc: pc_plus2(pre.pc), ..pre }
}

/// Pushing a return address: fails when the stack is full.
pub open spec fn push_spec(pre: MachineView, val: u16) -> Result<MachineView, Fault> {
    if pre.sp >= STACK_SIZE {
        Err(Fault::StackOverflow)
    } else {
        Ok(MachineView {
            stack: pre.stack.update(pre.sp as int, val),
            sp: (pre.sp + 1) as u16,
            ..pre
        })
    }
}

/// Popping a return address: fails when the stack is empty.
pub open spec fn pop_spec(pre: MachineView) -> Result<(MachineView, u16), Fault> {
    if pre.sp == 0 {
        Err(Fault::StackUnderflow)
    } else {
        Ok((MachineView { sp: (pre.sp - 1) as u16, ..pre }, pre.stack[pre.sp - 1]))
    }
}

/// Fetch: combine the two bytes at the program counter big-endian into an
/// instruction word and advance the program counter by 2. Fails when the
/// program counter does not reference two valid memory bytes.
pub open spec fn fetch_spec(pre: MachineView) -> Result<(MachineView, u16), Fault> {
    if pre.pc + 1 >= RAM_SIZE {
        Err(Fault::OutOfRange)
    } else {
        Ok((
            MachineView { pc: (pre.pc + 2) as u16, ..pre },
            ((pre.ram[pre.pc as int] as u16) << 8) | (pre.ram[pre.pc as int + 1] as u16),
        ))
    }
}

/// Whether sprite byte `pixels` has its bit for column `col` set
/// (most-significant bit first).
pub open spec fn bit_set(pixels: u8, col: int) -> bool {
    pixels & (0x80u8 >> (col as u8)) != 0
}

/// The framebuffer cell for raw coordinates (x, y): coordinates wrap
/// around the display edges (toroidal addressing).
pub open spec fn cell_at(x: int, y: int) -> int {
    (x % SCREEN_WIDTH as int) + (SCREEN_WIDTH as int) * (y % SCREEN_HEIGHT as int)
}

/// XOR-blit of the 8 sprite bits of one row, from column `col` on, onto the
/// framebuffer; also accumulates whether any set cell was unset (collision).
pub open spec fn draw_cols(screen: Seq<bool>, flipped: bool, pixels: u8, x: int, y: int, col: int) -> (Seq<bool>, bool)
    decreases 8 - col,
{
    if col < 0 || col >= 8 {
        (screen, flipped)
    } else if bit_set(pixels, col) {
        let idx = cell_at(x + col, y);
        draw_cols(screen.update(idx, !screen[idx]), flipped || screen[idx], pixels, x, y, col + 1)
    } else {
        draw_cols(screen, flipped, pixels, x, y, col + 1)
    }
}

/// XOR-blit of sprite rows `row..n`, each read from memory at
/// `base + row`, onto the framebuffer.
pub open spec fn draw_rows(screen: Seq<bool>, flipped: bool, ram: Seq<u8>, base: int, x: int, y: int, row: int, n: int) -> (Seq<bool>, bool)
    decreases n - row,
{
    if row < 0 || row >= n {
        (screen, flipped)
    } else {
        let r = draw_cols(screen, flipped, ram[base + row], x, y + row, 0);
        draw_rows(r.0, r.1, ram, base, x, y, row + 1, n)
    }
}

/// The draw instruction: blit an n-row sprite read from memory at the index
/// register to the coordinates held in registers x and y, then set the flag
/// register to 1 exactly when a set cell was unset. Fails when a sprite row
/// would be read past the end of memory.
pub open spec fn step_draw(pre: MachineView, op: u16) -> Result<MachineView, Fault> {
    let xv = pre.regs[nib_x(op) as int] as int;
    let yv = pre.regs[nib_y(op) as int] as int;
    let n = nib_n(op) as int;
    let base = pre.i_reg as int;
    if n > 0 && base + n > RAM_SIZE {
        Err(Fault::OutOfRange)
    } else {
        let r = draw_rows(pre.screen, false, pre.ram, base, xv, yv, 0, n);
        Ok(set_flag(MachineView { screen: r.0, ..pre }, if r.1 { 1u8 } else { 0u8 }))
    }
}

/// The arithmetic/logic family (operation class 8), selected by the last
/// nibble. The flag register is written after the result register.
pub open spec fn step_alu(pre: MachineView, op: u16) -> Result<MachineView, Fault> {
    let x = nib_x(op) as int;
    let y = nib_y(op) as int;
    let n = nib_n(op);
    let a = pre.regs[x];
    let b = pre.regs[y];
    if n == 0 {
        Ok(set_reg(pre, x, b))
    } else if n == 1 {
        Ok(set_reg(pre, x, a | b))
    } else if n == 2 {
        Ok(set_reg(pre, x, a & b))
    } else if n == 3 {
        Ok(set_reg(pre, x, a ^ b))
    } else if n == 4 {
        Ok(set_flag(set_reg(pre, x, wrap_add8(a, b)), if a + b > 255 { 1u8 } else { 0u8 }))
    } else if n == 5 {
        Ok(set_flag(set_reg(pre, x, wrap_sub8(a, b)), if a >= b { 1u8 } else { 0u8 }))
    } else if n == 6 {
        Ok(set_flag(set_reg(pre, x, a >> 1), a & 1))
    } else if n == 7 {
        Ok(set_flag(set_reg(pre, x, wrap_sub8(b, a)), if b >= a { 1u8 } else { 0u8 }))
    } else if n == 0xE {
        Ok(set_flag(set_reg(pre, x, (a << 1) as u8), (a >> 7) & 1))
    } else {
        Err(Fault::InvalidInstruction)
    }
}

/// Skip when the key indexed by register x's value is pressed (`want` true)
/// or released (`want` false). A register value outside the 16 keys is an
/// out-of-range access.
pub open spec fn step_skip_key(pre: MachineView, op: u16, want: bool) -> Result<MachineView, Fault> {
    let vx = pre.regs[nib_x(op) as int];
    if vx >= NUM_KEYS {
        Err(Fault::OutOfRange)
    } else if pre.keys[vx as int] == want {
        Ok(skip(pre))
    } else {
        Ok(pre)
    }
}

/// The lowest-index pressed key from index `i` on, if any.
pub open spec fn first_key_from(keys: Seq<bool>, i: int) -> Option<u8>
    decreases NUM_KEYS - i,
{
    if i < 0 || i >= NUM_KEYS {
        None
    } else if keys[i] {
        Some(i as u8)
    } else {
        first_key_from(keys, i + 1)
    }
}

/// What `first_key_from` returns: the key it names is pressed and no key
/// below it is, and it returns nothing exactly when no key is pressed.
pub proof fn lemma_first_key(keys: Seq<bool>, i: int)
    requires
        keys.len() == NUM_KEYS,
        0 <= i <= NUM_KEYS,
    ensures
        match first_key_from(keys, i) {
            Some(k) => i <= k < NUM_KEYS && keys[k as int] && (forall|j: int| i <= j < k ==> !keys[j]),
            None => forall|j: int| i <= j < NUM_KEYS ==> !keys[j],
        },
    decreases NUM_KEYS - i,
{
    if i < NUM_KEYS {
        if !keys[i] {
            lemma_first_key(keys, i + 1);
        }
    }
}

/// Memory with registers 0..=x stored at `base`.
pub open spec fn store_regs(ram: Seq<u8>, regs: Seq<u8>, base: int, x: int) -> Seq<u8> {
    Seq::new(ram.len(), |j: int| if base <= j <= base + x { regs[j - base] } else { ram[j] })
}

/// Registers with 0..=x loaded from memory at `base`.
pub open spec fn load_regs(ram: Seq<u8>, regs: Seq<u8>, base: int, x: int) -> Seq<u8> {
    Seq::new(regs.len(), |j: int| if 0 <= j <= x { ram[base + j] } else { regs[j] })
}

/// The miscellaneous family (operation class F), selected by the low byte's
/// two nibbles: timer transfers, key wait, index arithmetic, font lookup,
/// decimal decomposition, and register block store/load.
pub open spec fn step_misc(pre: MachineView, op: u16) -> Result<MachineView, Fault> {
    let x = nib_x(op) as int;
    let y = nib_y(op);
    let n = nib_n(op);
    let vx = pre.regs[x];
    let base = pre.i_reg as int;
    if y == 0 && n == 7 {
        Ok(set_reg(pre, x, pre.dt))
    } else if y == 0 && n == 0xA {
        match first_key_from(pre.keys, 0) {
            Some(k) => Ok(set_reg(pre, x, k)),
            None => Ok(MachineView { pc: pc_minus2(pre.pc), ..pre }),
        }
    } else if y == 1 && n == 5 {
        Ok(MachineView { dt: vx, ..pre })
    } else if y == 1 && n == 8 {
        Ok(MachineView { st: vx, ..pre })
    } else if y == 1 && n == 0xE {
        Ok(MachineView { i_reg: wrap_add16(pre.i_reg, vx as u16), ..pre })
    } else if y == 2 && n == 9 {
        Ok(MachineView { i_reg: (vx * 5) as u16, ..pre })
    } else if y == 3 && n == 3 {
        if base + 2 >= RAM_SIZE {
            Err(Fault::OutOfRange)
        } else {
            Ok(MachineView {
                ram: pre.ram.update(base, vx / 100).update(base + 1, (vx / 10) % 10).update(base + 2, vx % 10),
                ..pre
            })
        }
    } else if y == 5 && n == 5 {
        if base + x >= RAM_SIZE {
            Err(Fault::OutOfRange)
        } else {
            Ok(MachineView { ram: store_regs(pre.ram, pre.regs, base, x), ..pre })
        }
    } else if y == 6 && n == 5 {
        if base + x >= RAM_SIZE {
            Err(Fault::OutOfRange)
        } else {
            Ok(MachineView { regs: load_regs(pre.ram, pre.regs, base, x), ..pre })
        }
    } else {
        Err(Fault::InvalidInstruction)
    }
}

/// One instruction execution on a fetched instruction word: the full
/// per-opcode semantics table. `rnd` is the random byte consumed by the
/// random-immediate instruction and ignored by every other one.
pub open spec fn step_spec(pre: MachineView, op: u16, rnd: u8) -> Result<MachineView, Fault> {
    let o = nib_op(op);
    let x = nib_x(op) as int;
    let y = nib_y(op);
    let n = nib_n(op);
    let nn = imm_byte(op);
    let nnn = imm_addr(op);
    if o == 0 && x == 0 && y == 0 && n == 0 {
        // No operation.
        Ok(pre)
    } else if o == 0 && x == 0 && y == 0xE && n == 0 {
        // Clear display.
        Ok(MachineView { screen: all_off(), ..pre })
    } else if o == 0 && x == 0 && y == 0xE && n == 0xE {
        // Return.
        match pop_spec(pre) {
            Ok(r) => Ok(MachineView { pc: r.1, ..r.0 }),
            Err(f) => Err(f),
        }
    } else if o == 1 {
        // Jump.
        Ok(MachineView { pc: nnn, ..pre })
    } else if o == 2 {
        // Call.
        match push_spec(pre, pre.pc) {
            Ok(v) => Ok(MachineView { pc: nnn, ..v }),
            Err(f) => Err(f),
        }
    } else if o == 3 {
        Ok(if pre.regs[x] == nn { skip(pre) } else { pre })
    } else if o == 4 {
        // Deliberately the same equality test as operation class 3. The
        // conventional architecture description reads "skip if not equal"
        // here; this machine keeps the equality test so that its observable
        // behaviour stays exactly as documented in the semantics table.
        Ok(if pre.regs[x] == nn { skip(pre) } else { pre })
    } else if o == 5 && n == 0 {
        Ok(if pre.regs[x] == pre.regs[y as int] { skip(pre) } else { pre })
    } else if o == 6 {
        Ok(set_reg(pre, x, nn))
    } else if o == 7 {
        Ok(set_reg(pre, x, wrap_add8(pre.regs[x], nn)))
    } else if o == 8 {
        step_alu(pre, op)
    } else if o == 9 && n == 0 {
        Ok(if pre.regs[x] != pre.regs[y as int] { skip(pre) } else { pre })
    } else if o == 0xA {
        Ok(MachineView { i_reg: nnn, ..pre })
    } else if o == 0xB {
        // Jump to register 0 plus the address immediate; the sum stays
        // within the 16-bit address space.
        Ok(MachineView { pc: (pre.regs[0] + nnn) as u16, ..pre })
    } else if o == 0xC {
        Ok(set_reg(pre, x, rnd & nn))
    } else if o == 0xD {
        step_draw(pre, op)
    } else if o == 0xE && y == 9 && n == 0xE {
        step_skip_key(pre, op, true)
    } else if o == 0xE && y == 0xA && n == 1 {
        step_skip_key(pre, op, false)
    } else if o == 0xF {
        step_misc(pre, op)
    } else {
        Err(Fault::InvalidInstruction)
    }
}

/// How one call of the execution engine relates its result and the state
/// change to the step function: on success the new state is the step
/// function's, on a fault the state is unchanged and the fault is reported.
pub open spec fn step_obs(pre: MachineView, post: MachineView, op: u16, r: Result<(), Fault>, rnd: u8) -> bool {
    match step_spec(pre, op, rnd) {
        Ok(v) => r == Ok::<(), Fault>(()) && post == v,
        Err(f) => r == Err::<(), Fault>(f) && post == pre,
    }
}

} // verus!
