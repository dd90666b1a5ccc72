//! The executable machine: the owned state and the fetch-decode-execute
//! engine, each operation proved to follow the step function in `step`.

use vstd::prelude::*;
use crate::state::{MachineView, font_seq, initial_ram, all_off, initial_view};
use crate::decode::{nib_x, nib_y, nib_n, decode, decode_imm_byte, decode_imm_addr};
use crate::step::{
    Fault, set_flag, push_spec, pop_spec, fetch_spec, cell_at, draw_cols, draw_rows,
    step_draw, step_alu, first_key_from, lemma_first_key, store_regs, load_regs,
    step_misc, step_obs,
};
use crate::{RAM_SIZE, SCREEN_WIDTH, SCREEN_HEIGHT, NUM_REGS, STACK_SIZE, NUM_KEYS, START_ADDR, FONTSET_SIZE};

verus! {

/// The full mutable state of the virtual computer.
pub struct Chip8 {
    pc: u16,
    ram: Vec<u8>,
    screen: Vec<bool>,
    v_reg: Vec<u8>,
    i_reg: u16,
    sp: u16,
    stack: Vec<u16>,
    keys: Vec<bool>,
    dt: u8,
    st: u8,
}

impl View for Chip8 {
    type V = MachineView;

    closed spec fn view(&self) -> MachineView {
        MachineView {
            pc: self.pc,
            ram: self.ram@,
            screen: self.screen@,
            regs: self.v_reg@,
            i_reg: self.i_reg,
            sp: self.sp,
            stack: self.stack@,
            keys: self.keys@,
            dt: self.dt,
            st: self.st,
        }
    }
}

/// A vector holding `n` copies of `t`.
fn repeat_elem<T: Copy>(n: usize, t: T) -> (r: Vec<T>)
    ensures
        r@ == Seq::new(n as nat, |i: int| t),
{
    let mut v: Vec<T> = Vec::new();
    let mut k: usize = 0;
    while k < n
        invariant
            k <= n,
            v@.len() == k,
            forall|i: int| 0 <= i < k ==> v@[i] == t,
        decreases n - k,
    {
        v.push(t);
        k = k + 1;
    }
    proof {
        assert(v@ =~= Seq::new(n as nat, |i: int| t));
    }
    v
}

/// The built-in font, one 5-byte glyph per hexadecimal digit.
fn font_bytes() -> (r: Vec<u8>)
    ensures
        r@ == font_seq(),
{
    let f: Vec<u8> = vec![
        0xF0, 0x90, 0x90, 0x90, 0xF0, // 0
        0x20, 0x60, 0x20, 0x20, 0x70, // 1
        0xF0, 0x10, 0xF0, 0x80, 0xF0, // 2
        0xF0, 0x10, 0xF0, 0x10, 0xF0, // 3
        0x90, 0x90, 0xF0, 0x10, 0x10, // 4
        0xF0, 0x80, 0xF0, 0x10, 0xF0, // 5
        0xF0, 0x80, 0xF0, 0x90, 0xF0, // 6
        0xF0, 0x10, 0x20, 0x40, 0x40, // 7
        0xF0, 0x90, 0xF0, 0x90, 0xF0, // 8
        0xF0, 0x90, 0xF0, 0x10, 0xF0, // 9
        0xF0, 0x90, 0xF0, 0x90, 0x90, // A
        0xE0, 0x90, 0xE0, 0x90, 0xE0, // B
        0xF0, 0x80, 0x80, 0x80, 0xF0, // C
        0xE0, 0x90, 0x90, 0x90, 0xE0, // D
        0xF0, 0x80, 0xF0, 0x80, 0xF0, // E
        0xF0, 0x80, 0xF0, 0x80, 0x80, // F
    ];
    proof {
        assert(f@ =~= font_seq());
    }
    f
}

/// Relies on rand::random::<u8>: a byte from the thread-local generator;
/// nothing is promised of its value.
#[verifier::external_body]
fn random_byte() -> u8 {
    rand::random()
}

impl Chip8 {
    /// Well-formedness of the machine: see `MachineView::wf`.
    pub open spec fn wf(&self) -> bool {
        self@.wf()
    }

    /// A machine in the canonical reset state.
    pub fn new() -> (r: Self)
        ensures
            r.wf(),
            r@ == initial_view(),
    {
        let mut ram = font_bytes();
        while ram.len() < RAM_SIZE
            invariant
                FONTSET_SIZE <= ram@.len() <= RAM_SIZE,
                forall|i: int| 0 <= i < ram@.len() ==> ram@[i] == initial_ram()[i],
            decreases RAM_SIZE - ram@.len(),
        {
            ram.push(0);
        }
        proof {
            assert(ram@ =~= initial_ram());
        }
        let r = Chip8 {
            pc: START_ADDR,
            ram,
            screen: repeat_elem(SCREEN_WIDTH * SCREEN_HEIGHT, false),
            v_reg: repeat_elem(NUM_REGS, 0u8),
            i_reg: 0,
            sp: 0,
            stack: repeat_elem(STACK_SIZE, 0u16),
            keys: repeat_elem(NUM_KEYS, false),
            dt: 0,
            st: 0,
        };
        proof {
            assert(r@ =~= initial_view());
        }
        r
    }

    /// Re-initializes unconditionally, discarding all prior state.
    pub fn reset(&mut self)
        ensures
            final(self).wf(),
            final(self)@ == initial_view(),
    {
        *self = Self::new();
    }

    /// Copies a program image into memory at the fixed program offset.
    /// The caller must ensure it fits between that offset and the end of
    /// memory.
    pub fn load(&mut self, data: &[u8])
        requires
            old(self).wf(),
            data@.len() <= RAM_SIZE - START_ADDR as usize,
        ensures
            final(self).wf(),
            final(self)@ == (MachineView {
                ram: crate::state::loaded_ram(old(self)@.ram, data@),
                ..old(self)@
            }),
    {
        let n = data.len();
        let mut i: usize = 0;
        while i < n
            invariant
                i <= n,
                n == data@.len(),
                n <= RAM_SIZE - START_ADDR as usize,
                self@.ram.len() == RAM_SIZE,
                forall|j: int| 0 <= j < RAM_SIZE ==> self@.ram[j] == (
                    if START_ADDR <= j < START_ADDR + i { data@[j - START_ADDR] } else { old(self)@.ram[j] }
                ),
                self@ == (MachineView { ram: self@.ram, ..old(self)@ }),
            decreases n - i,
        {
            let b = data[i];
            self.ram[START_ADDR as usize + i] = b;
            i = i + 1;
        }
        proof {
            assert(self@.ram =~= crate::state::loaded_ram(old(self)@.ram, data@));
        }
    }

    /// Records pressed/released for one of the 16 logical keys.
    pub fn keypress(&mut self, idx: usize, pressed: bool)
        requires
            old(self).wf(),
            idx < NUM_KEYS,
        ensures
            final(self).wf(),
            final(self)@ == (MachineView {
                keys: old(self)@.keys.update(idx as int, pressed),
                ..old(self)@
            }),
    {
        self.keys[idx] = pressed;
    }

    /// The current framebuffer as a read-only row-major grid,
    /// 64 x 32 cells.
    pub fn get_display(&self) -> (r: &[bool])
        ensures
            r@ == self@.screen,
    {
        self.screen.as_slice()
    }

    /// Decrements both timers by one, floored at zero.
    pub fn tick_timers(&mut self)
        requires
            old(self).wf(),
        ensures
            final(self).wf(),
            final(self)@ == (MachineView {
                dt: if old(self)@.dt == 0 { 0u8 } else { (old(self)@.dt - 1) as u8 },
                st: if old(self)@.st == 0 { 0u8 } else { (old(self)@.st - 1) as u8 },
                ..old(self)@
            }),
    {
        self.dt = self.dt.saturating_sub(1);
        self.st = self.st.saturating_sub(1);
    }

    /// The value of one general-purpose register.
    pub fn get_register(&self, idx: usize) -> (r: u8)
        requires
            self.wf(),
            idx < NUM_REGS,
        ensures
            r == self@.regs[idx as int],
    {
        self.v_reg[idx]
    }

    /// The current program counter.
    pub fn get_pc(&self) -> (r: u16)
        ensures
            r == self@.pc,
    {
        self.pc
    }

    /// The current index register.
    pub fn get_index(&self) -> (r: u16)
        ensures
            r == self@.i_reg,
    {
        self.i_reg
    }

    /// The number of return addresses currently on the stack.
    pub fn get_stack_pointer(&self) -> (r: u16)
        ensures
            r == self@.sp,
    {
        self.sp
    }

    /// The current delay timer value.
    pub fn get_delay_timer(&self) -> (r: u8)
        ensures
            r == self@.dt,
    {
        self.dt
    }

    /// The current sound timer value, for an external audio driver to
    /// sample.
    pub fn get_sound_timer(&self) -> (r: u8)
        ensures
            r == self@.st,
    {
        self.st
    }

    /// One byte of memory.
    pub fn read_byte(&self, addr: usize) -> (r: u8)
        requires
            self.wf(),
            addr < RAM_SIZE,
        ensures
            r == self@.ram[addr as int],
    {
        self.ram[addr]
    }

    /// Appends a return address; reports overflow on a full stack.
    pub fn push(&mut self, val: u16) -> (r: Result<(), Fault>)
        requires
            old(self).wf(),
        ensures
            final(self).wf(),
            (match push_spec(old(self)@, val) {
                Ok(v) => r == Ok::<(), Fault>(()) && final(self)@ == v,
                Err(f) => r == Err::<(), Fault>(f) && final(self)@ == old(self)@,
            }),
    {
        if self.sp >= STACK_SIZE as u16 {
            return Err(Fault::StackOverflow);
        }
        let sp = self.sp as usize;
        self.stack[sp] = val;
        self.sp = self.sp + 1;
        Ok(())
    }

    /// Removes and returns the most recent return address; reports
    /// underflow on an empty stack.
    pub fn pop(&mut self) -> (r: Result<u16, Fault>)
        requires
            old(self).wf(),
        ensures
            final(self).wf(),
            (match pop_spec(old(self)@) {
                Ok(p) => r == Ok::<u16, Fault>(p.1) && final(self)@ == p.0,
                Err(f) => r == Err::<u16, Fault>(f) && final(self)@ == old(self)@,
            }),
    {
        if self.sp == 0 {
            return Err(Fault::StackUnderflow);
        }
        self.sp = self.sp - 1;
        let val = self.stack[self.sp as usize];
        Ok(val)
    }

    /// Reads the two bytes at the program counter, combines them
    /// big-endian into an instruction word and advances the program
    /// counter by 2. Reports an out-of-range program counter.
    pub fn fetch(&mut self) -> (r: Result<u16, Fault>)
        requires
            old(self).wf(),
        ensures
            final(self).wf(),
            (match fetch_spec(old(self)@) {
                Ok(p) => r == Ok::<u16, Fault>(p.1) && final(self)@ == p.0,
                Err(f) => r == Err::<u16, Fault>(f) && final(self)@ == old(self)@,
            }),
    {
        if self.pc as usize + 1 >= RAM_SIZE {
            return Err(Fault::OutOfRange);
        }
        let hi = self.ram[self.pc as usize] as u16;
        let lo = self.ram[self.pc as usize + 1] as u16;
        self.pc = self.pc + 2;
        Ok((hi << 8) | lo)
    }

    /// The arithmetic/logic family (operation class 8).
    fn exec_alu(&mut self, op: u16) -> (r: Result<(), Fault>)
        requires
            old(self).wf(),
        ensures
            final(self).wf(),
            (match step_alu(old(self)@, op) {
                Ok(v) => r == Ok::<(), Fault>(()) && final(self)@ == v,
                Err(f) => r == Err::<(), Fault>(f) && final(self)@ == old(self)@,
            }),
    {
        let (_, x16, y16, n) = decode(op);
        let x = x16 as usize;
        let y = y16 as usize;
        let a = self.v_reg[x];
        let b = self.v_reg[y];
        match n {
            0 => {
                self.v_reg[x] = b;
                Ok(())
            }
            1 => {
                self.v_reg[x] = a | b;
                Ok(())
            }
            2 => {
                self.v_reg[x] = a & b;
                Ok(())
            }
            3 => {
                self.v_reg[x] = a ^ b;
                Ok(())
            }
            4 => {
                let carry: u8 = if (a as u16) + (b as u16) > 255 { 1 } else { 0 };
                self.v_reg[x] = a.wrapping_add(b);
                self.v_reg[15] = carry;
                Ok(())
            }
            5 => {
                let flag: u8 = if a >= b { 1 } else { 0 };
                self.v_reg[x] = a.wrapping_sub(b);
                self.v_reg[15] = flag;
                Ok(())
            }
            6 => {
                let lsb = a & 1;
                self.v_reg[x] = a >> 1;
                self.v_reg[15] = lsb;
                Ok(())
            }
            7 => {
                let flag: u8 = if b >= a { 1 } else { 0 };
                self.v_reg[x] = b.wrapping_sub(a);
                self.v_reg[15] = flag;
                Ok(())
            }
            0xE => {
                let msb = (a >> 7) & 1;
                self.v_reg[x] = a << 1;
                self.v_reg[15] = msb;
                Ok(())
            }
            _ => Err(Fault::InvalidInstruction),
        }
    }

    /// The miscellaneous family (operation class F).
    fn exec_misc(&mut self, op: u16) -> (r: Result<(), Fault>)
        requires
            old(self).wf(),
        ensures
            final(self).wf(),
            (match step_misc(old(self)@, op) {
                Ok(v) => r == Ok::<(), Fault>(()) && final(self)@ == v,
                Err(f) => r == Err::<(), Fault>(f) && final(self)@ == old(self)@,
            }),
    {
        let (_, x16, y, n) = decode(op);
        let x = x16 as usize;
        if y == 0 && n == 7 {
            self.v_reg[x] = self.dt;
            Ok(())
        } else if y == 0 && n == 0xA {
            // Key wait: take the lowest pressed key, or rewind the program
            // counter so the same instruction is fetched again.
            let mut found = false;
            let mut key: u8 = 0;
            let mut i: usize = 0;
            while i < NUM_KEYS
                invariant
                    old(self).wf(),
                    i <= NUM_KEYS,
                    *self == *old(self),
                    !found ==> forall|j: int| 0 <= j < i ==> !self@.keys[j],
                    found ==> key < 16 && self@.keys[key as int]
                        && (forall|j: int| 0 <= j < key ==> !self@.keys[j]),
                decreases NUM_KEYS - i,
            {
                if !found && self.keys[i] {
                    found = true;
                    key = i as u8;
                }
                i = i + 1;
            }
            proof {
                lemma_first_key(self@.keys, 0);
                if found {
                    assert(first_key_from(self@.keys, 0) == Some(key));
                } else {
                    assert(first_key_from(self@.keys, 0) is None);
                }
            }
            if found {
                self.v_reg[x] = key;
            } else {
                self.pc = self.pc.wrapping_sub(2);
            }
            Ok(())
        } else if y == 1 && n == 5 {
            self.dt = self.v_reg[x];
            Ok(())
        } else if y == 1 && n == 8 {
            self.st = self.v_reg[x];
            Ok(())
        } else if y == 1 && n == 0xE {
            self.i_reg = self.i_reg.wrapping_add(self.v_reg[x] as u16);
            Ok(())
        } else if y == 2 && n == 9 {
            self.i_reg = (self.v_reg[x] as u16) * 5;
            Ok(())
        } else if y == 3 && n == 3 {
            // Decimal decomposition of register x into hundreds, tens and
            // ones at the index register.
            let base = self.i_reg as usize;
            if base + 2 >= RAM_SIZE {
                return Err(Fault::OutOfRange);
            }
            let vx = self.v_reg[x];
            self.ram[base] = vx / 100;
            self.ram[base + 1] = (vx / 10) % 10;
            self.ram[base + 2] = vx % 10;
            Ok(())
        } else if y == 5 && n == 5 {
            let base = self.i_reg as usize;
            if base + x >= RAM_SIZE {
                return Err(Fault::OutOfRange);
            }
            let mut idx: usize = 0;
            while idx <= x
                invariant
                    old(self).wf(),
                    idx <= x + 1,
                    x < 16,
                    base + x < RAM_SIZE,
                    base == old(self)@.i_reg,
                    self@.ram.len() == RAM_SIZE,
                    forall|j: int| 0 <= j < RAM_SIZE ==> self@.ram[j] == (
                        if base <= j < base + idx { old(self)@.regs[j - base] } else { old(self)@.ram[j] }
                    ),
                    self@ == (MachineView { ram: self@.ram, ..old(self)@ }),
                decreases x + 1 - idx,
            {
                let v = self.v_reg[idx];
                self.ram[base + idx] = v;
                idx = idx + 1;
            }
            proof {
                assert(self@.ram =~= store_regs(old(self)@.ram, old(self)@.regs, base as int, x as int));
            }
            Ok(())
        } else if y == 6 && n == 5 {
            let base = self.i_reg as usize;
            if base + x >= RAM_SIZE {
                return Err(Fault::OutOfRange);
            }
            let mut idx: usize = 0;
            while idx <= x
                invariant
                    old(self).wf(),
                    idx <= x + 1,
                    x < 16,
                    base + x < RAM_SIZE,
                    base == old(self)@.i_reg,
                    self@.regs.len() == NUM_REGS,
                    forall|j: int| 0 <= j < NUM_REGS ==> self@.regs[j] == (
                        if 0 <= j < idx { old(self)@.ram[base + j] } else { old(self)@.regs[j] }
                    ),
                    self@ == (MachineView { regs: self@.regs, ..old(self)@ }),
                decreases x + 1 - idx,
            {
                let v = self.ram[base + idx];
                self.v_reg[idx] = v;
                idx = idx + 1;
            }
            proof {
                assert(self@.regs =~= load_regs(old(self)@.ram, old(self)@.regs, base as int, x as int));
            }
            Ok(())
        } else {
            Err(Fault::InvalidInstruction)
        }
    }

    /// The draw instruction (operation class D): XOR-blit of an n-row
    /// sprite with toroidal coordinate wraparound, collision reported in
    /// the flag register.
    fn exec_draw(&mut self, op: u16) -> (r: Result<(), Fault>)
        requires
            old(self).wf(),
        ensures
            final(self).wf(),
            (match step_draw(old(self)@, op) {
                Ok(v) => r == Ok::<(), Fault>(()) && final(self)@ == v,
                Err(f) => r == Err::<(), Fault>(f) && final(self)@ == old(self)@,
            }),
    {
        let (_, x16, y16, n16) = decode(op);
        let xv = self.v_reg[x16 as usize] as usize;
        let yv = self.v_reg[y16 as usize] as usize;
        let n = n16 as usize;
        let base = self.i_reg as usize;
        if n > 0 && base + n > RAM_SIZE {
            return Err(Fault::OutOfRange);
        }
        let ghost screen0 = self@.screen;
        let ghost ram0 = self@.ram;
        let mut flipped = false;
        let mut row: usize = 0;
        while row < n
            invariant
                old(self).wf(),
                row <= n,
                n < 16,
                n > 0 ==> base + n <= RAM_SIZE,
                base == old(self)@.i_reg,
                xv == old(self)@.regs[nib_x(op) as int],
                yv == old(self)@.regs[nib_y(op) as int],
                n == nib_n(op),
                screen0 == old(self)@.screen,
                ram0 == old(self)@.ram,
                self@.screen.len() == SCREEN_WIDTH * SCREEN_HEIGHT,
                self@ == (MachineView { screen: self@.screen, ..old(self)@ }),
                draw_rows(self@.screen, flipped, ram0, base as int, xv as int, yv as int, row as int, n as int)
                    == draw_rows(screen0, false, ram0, base as int, xv as int, yv as int, 0, n as int),
            decreases n - row,
        {
            let pixels = self.ram[base + row];
            let ghost srow = self@.screen;
            let ghost frow = flipped;
            let mut col: usize = 0;
            while col < 8
                invariant
                    old(self).wf(),
                    col <= 8,
                    row < n,
                    n < 16,
                    base + n <= RAM_SIZE,
                    xv < 256,
                    yv < 256,
                    pixels == ram0[base + row],
                    self@.screen.len() == SCREEN_WIDTH * SCREEN_HEIGHT,
                    self@ == (MachineView { screen: self@.screen, ..old(self)@ }),
                    draw_cols(self@.screen, flipped, pixels, xv as int, yv as int + row as int, col as int)
                        == draw_cols(srow, frow, pixels, xv as int, yv as int + row as int, 0),
                decreases 8 - col,
            {
                if pixels & (0x80u8 >> (col as u8)) != 0 {
                    let xi = (xv + col) % SCREEN_WIDTH;
                    let yi = (yv + row) % SCREEN_HEIGHT;
                    let idx = xi + SCREEN_WIDTH * yi;
                    proof {
                        assert(idx == cell_at(xv as int + col as int, yv as int + row as int));
                    }
                    let cur = self.screen[idx];
                    flipped = flipped || cur;
                    self.screen[idx] = !cur;
                }
                col = col + 1;
            }
            row = row + 1;
        }
        self.v_reg[15] = if flipped { 1 } else { 0 };
        proof {
            let r = draw_rows(screen0, false, ram0, base as int, xv as int, yv as int, 0, n as int);
            assert(self@ =~= set_flag(MachineView { screen: r.0, ..old(self)@ }, if r.1 { 1u8 } else { 0u8 }));
        }
        Ok(())
    }

    /// Decodes and executes one instruction word against the semantics
    /// table, drawing the random-immediate instruction's byte from `rnd`.
    /// On a fault the machine is left unchanged.
    pub fn execute_with(&mut self, op: u16, rnd: u8) -> (r: Result<(), Fault>)
        requires
            old(self).wf(),
        ensures
            final(self).wf(),
            step_obs(old(self)@, final(self)@, op, r, rnd),
    {
        let (d1, d2, d3, d4) = decode(op);
        let x = d2 as usize;
        let y = d3 as usize;
        match (d1, d2, d3, d4) {
            (0, 0, 0, 0) => {
                // No operation.
                Ok(())
            }
            (0, 0, 0xE, 0) => {
                // Clear display.
                self.screen = repeat_elem(SCREEN_WIDTH * SCREEN_HEIGHT, false);
                proof {
                    assert(self@.screen =~= all_off());
                }
                Ok(())
            }
            (0, 0, 0xE, 0xE) => {
                // Return.
                match self.pop() {
                    Ok(addr) => {
                        self.pc = addr;
                        Ok(())
                    }
                    Err(f) => Err(f),
                }
            }
            (1, _, _, _) => {
                // Jump.
                self.pc = decode_imm_addr(op);
                Ok(())
            }
            (2, _, _, _) => {
                // Call.
                let nnn = decode_imm_addr(op);
                let cur = self.pc;
                match self.push(cur) {
                    Ok(()) => {
                        self.pc = nnn;
                        Ok(())
                    }
                    Err(f) => Err(f),
                }
            }
            (3, _, _, _) => {
                let nn = decode_imm_byte(op);
                if self.v_reg[x] == nn {
                    self.pc = self.pc.wrapping_add(2);
                }
                Ok(())
            }
            (4, _, _, _) => {
                // Same equality test as operation class 3, on purpose: see
                // the note in the semantics table.
                let nn = decode_imm_byte(op);
                if self.v_reg[x] == nn {
                    self.pc = self.pc.wrapping_add(2);
                }
                Ok(())
            }
            (5, _, _, 0) => {
                if self.v_reg[x] == self.v_reg[y] {
                    self.pc = self.pc.wrapping_add(2);
                }
                Ok(())
            }
            (6, _, _, _) => {
                self.v_reg[x] = decode_imm_byte(op);
                Ok(())
            }
            (7, _, _, _) => {
                let nn = decode_imm_byte(op);
                let a = self.v_reg[x];
                self.v_reg[x] = a.wrapping_add(nn);
                Ok(())
            }
            (8, _, _, _) => self.exec_alu(op),
            (9, _, _, 0) => {
                if self.v_reg[x] != self.v_reg[y] {
                    self.pc = self.pc.wrapping_add(2);
                }
                Ok(())
            }
            (0xA, _, _, _) => {
                self.i_reg = decode_imm_addr(op);
                Ok(())
            }
            (0xB, _, _, _) => {
                // Jump to register 0 plus the address immediate; the sum
                // stays within the 16-bit address space.
                let nnn = decode_imm_addr(op);
                self.pc = self.v_reg[0] as u16 + nnn;
                Ok(())
            }
            (0xC, _, _, _) => {
                let nn = decode_imm_byte(op);
                self.v_reg[x] = rnd & nn;
                Ok(())
            }
            (0xD, _, _, _) => self.exec_draw(op),
            (0xE, _, 9, 0xE) => {
                let vx = self.v_reg[x];
                if vx >= NUM_KEYS as u8 {
                    return Err(Fault::OutOfRange);
                }
                if self.keys[vx as usize] {
                    self.pc = self.pc.wrapping_add(2);
                }
                Ok(())
            }
            (0xE, _, 0xA, 1) => {
                let vx = self.v_reg[x];
                if vx >= NUM_KEYS as u8 {
                    return Err(Fault::OutOfRange);
                }
                if !self.keys[vx as usize] {
                    self.pc = self.pc.wrapping_add(2);
                }
                Ok(())
            }
            (0xF, _, _, _) => self.exec_misc(op),
            _ => Err(Fault::InvalidInstruction),
        }
    }

    /// Decodes and executes one instruction word, drawing the
    /// random-immediate instruction's byte from the machine's random
    /// source.
    pub fn execute(&mut self, op: u16) -> (r: Result<(), Fault>)
        requires
            old(self).wf(),
        ensures
            final(self).wf(),
            exists|rnd: u8| #[trigger] step_obs(old(self)@, final(self)@, op, r, rnd),
    {
        let rnd = random_byte();
        let r = self.execute_with(op, rnd);
        proof {
            assert(step_obs(old(self)@, self@, op, r, rnd));
        }
        r
    }

    /// Advances the machine by exactly one instruction: fetch, then
    /// decode and execute. On a fetch fault the machine is unchanged; on
    /// an execute fault the program counter has advanced past the
    /// faulting instruction and nothing else changed.
    pub fn tick(&mut self) -> (r: Result<(), Fault>)
        requires
            old(self).wf(),
        ensures
            final(self).wf(),
            (match fetch_spec(old(self)@) {
                Ok(p) => exists|rnd: u8| #[trigger] step_obs(p.0, final(self)@, p.1, r, rnd),
                Err(f) => r == Err::<(), Fault>(f) && final(self)@ == old(self)@,
            }),
    {
        let op = match self.fetch() {
            Ok(op) => op,
            Err(f) => {
                return Err(f);
            }
        };
        self.execute(op)
    }
}

} // verus!
