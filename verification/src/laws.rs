//! Laws of the instruction set, proved from the step function: flag
//! semantics of the arithmetic instructions, the clear/draw behaviour of
//! the framebuffer, and the stack discipline of call and return.

use vstd::prelude::*;
use vstd::arithmetic::div_mod::lemma_fundamental_div_mod;
use crate::state::MachineView;
use crate::decode::{nib_op, nib_x, nib_y, nib_n, lemma_decode_bounds};
use crate::step::{
    Fault, push_spec, pop_spec, bit_set, cell_at, draw_cols, draw_rows, step_spec,
};
use crate::{SCREEN_WIDTH, SCREEN_HEIGHT, STACK_SIZE, RAM_SIZE};

verus! {

/// The add-with-carry instruction (class 8, selector 4) leaves register 15
/// at 1 exactly when the 8-bit addition overflowed, and the result register
/// holds the sum modulo 256. The result register must not be register 15
/// itself: there the flag overwrites the sum.
pub proof fn lemma_add_with_carry(pre: MachineView, op: u16, rnd: u8)
    requires
        pre.wf(),
        nib_op(op) == 8,
        nib_n(op) == 4,
        nib_x(op) != 15,
    ensures
        ({
            let a = pre.regs[nib_x(op) as int];
            let b = pre.regs[nib_y(op) as int];
            match step_spec(pre, op, rnd) {
                Ok(post) => post.regs[15] == (if a + b > 255 { 1u8 } else { 0u8 })
                    && post.regs[nib_x(op) as int] == (a + b) % 256,
                Err(_) => false,
            }
        }),
{
    lemma_decode_bounds(op);
    let a = pre.regs[nib_x(op) as int];
    let b = pre.regs[nib_y(op) as int];
    if a + b < 256 {
        assert((a + b) % 256 == a + b) by (nonlinear_arith)
            requires 0 <= a + b < 256;
    } else {
        assert((a + b) % 256 == a + b - 256) by (nonlinear_arith)
            requires 256 <= a + b < 512;
    }
}

/// The subtract instruction (class 8, selector 5) leaves register 15 at 1
/// exactly when no borrow occurred (minuend at least subtrahend), and the
/// result register holds the difference modulo 256. The result register
/// must not be register 15 itself: there the flag overwrites the
/// difference.
pub proof fn lemma_subtract_no_borrow(pre: MachineView, op: u16, rnd: u8)
    requires
        pre.wf(),
        nib_op(op) == 8,
        nib_n(op) == 5,
        nib_x(op) != 15,
    ensures
        ({
            let a = pre.regs[nib_x(op) as int];
            let b = pre.regs[nib_y(op) as int];
            match step_spec(pre, op, rnd) {
                Ok(post) => post.regs[15] == (if a >= b { 1u8 } else { 0u8 })
                    && post.regs[nib_x(op) as int] == (a - b + 256) % 256,
                Err(_) => false,
            }
        }),
{
    lemma_decode_bounds(op);
    let a = pre.regs[nib_x(op) as int];
    let b = pre.regs[nib_y(op) as int];
    if a >= b {
        assert((a - b + 256) % 256 == a - b) by (nonlinear_arith)
            requires 0 <= a - b < 256, a - b + 256 >= 256;
    } else {
        assert((a - b + 256) % 256 == a - b + 256) by (nonlinear_arith)
            requires 0 <= a - b + 256 < 256;
    }
}

/// Clearing the display yields an all-off framebuffer from any prior
/// state, in particular after any sequence of draws; nothing else changes.
pub proof fn lemma_clear_display(pre: MachineView, rnd: u8)
    requires
        pre.wf(),
    ensures
        match step_spec(pre, 0x00E0, rnd) {
            Ok(post) => post.screen.len() == SCREEN_WIDTH * SCREEN_HEIGHT
                && (forall|i: int| 0 <= i < post.screen.len() ==> !post.screen[i])
                && post == (MachineView { screen: post.screen, ..pre }),
            Err(_) => false,
        },
{
    assert(((0x00E0u16 >> 12) & 0xF) == 0 && ((0x00E0u16 >> 8) & 0xF) == 0
        && ((0x00E0u16 >> 4) & 0xF) == 0xE && (0x00E0u16 & 0xF) == 0) by (bit_vector);
}

/// Push then pop hands back the pushed value and returns the stack pointer
/// and program counter to their prior values.
pub proof fn lemma_push_then_pop(pre: MachineView, val: u16)
    requires
        pre.wf(),
        pre.sp < STACK_SIZE,
    ensures
        match push_spec(pre, val) {
            Ok(mid) => match pop_spec(mid) {
                Ok(p) => p.1 == val && p.0.sp == pre.sp && p.0.pc == pre.pc,
                Err(_) => false,
            },
            Err(_) => false,
        },
{
}

/// Whether the blit of sprite byte `pixels` at raw coordinates (x, y),
/// starting at column `col`, flips cell `i`.
pub open spec fn col_flips(pixels: u8, x: int, y: int, col: int, i: int) -> bool {
    exists|c: int| col <= c < 8 && #[trigger] bit_set(pixels, c) && i == cell_at(x + c, y)
}

/// Whether the blit of sprite rows `row..n`, read from memory at `base`,
/// at raw coordinates (x, y), flips cell `i`.
pub open spec fn rows_flips(ram: Seq<u8>, base: int, x: int, y: int, row: int, n: int, i: int) -> bool {
    exists|rr: int| row <= rr < n && #[trigger] col_flips(ram[base + rr], x, y + rr, 0, i)
}

/// Two distinct offsets below the modulus land on distinct remainders.
proof fn lemma_mod_distinct(x: int, c1: int, c2: int, m: int)
    requires
        x >= 0,
        0 <= c1 < m,
        0 <= c2 < m,
        c1 != c2,
        m > 0,
    ensures
        (x + c1) % m != (x + c2) % m,
{
    lemma_fundamental_div_mod(x + c1, m);
    lemma_fundamental_div_mod(x + c2, m);
    if (x + c1) % m == (x + c2) % m {
        let q1 = (x + c1) / m;
        let q2 = (x + c2) / m;
        let q = q1 - q2;
        assert(m * q1 - m * q2 == m * (q1 - q2)) by (nonlinear_arith);
        assert(c1 - c2 == m * q);
        if q >= 1 {
            assert(m * q >= m) by (nonlinear_arith)
                requires q >= 1, m > 0;
        } else if q <= -1 {
            assert(m * q <= -m) by (nonlinear_arith)
                requires q <= -1, m > 0;
        }
        assert(false);
    }
}

/// Distinct columns of one sprite row hit distinct framebuffer cells.
proof fn lemma_cell_cols_distinct(x: int, y: int, c1: int, c2: int)
    requires
        x >= 0,
        y >= 0,
        0 <= c1 < 8,
        0 <= c2 < 8,
        c1 != c2,
    ensures
        cell_at(x + c1, y) != cell_at(x + c2, y),
{
    lemma_mod_distinct(x, c1, c2, SCREEN_WIDTH as int);
}

/// Cells of distinct sprite rows (fewer than 32 apart) are distinct,
/// whatever their columns.
proof fn lemma_cell_rows_distinct(x1: int, x2: int, y: int, r1: int, r2: int)
    requires
        x1 >= 0,
        x2 >= 0,
        y >= 0,
        0 <= r1 < 32,
        0 <= r2 < 32,
        r1 != r2,
    ensures
        cell_at(x1, y + r1) != cell_at(x2, y + r2),
{
    lemma_mod_distinct(y, r1, r2, SCREEN_HEIGHT as int);
}

/// Pointwise characterization of one row's blit: each cell is XORed with
/// its flip bit, and a collision is reported exactly when some flipped
/// cell was on.
proof fn lemma_draw_cols_char(s: Seq<bool>, f: bool, p: u8, x: int, y: int, col: int)
    requires
        s.len() == SCREEN_WIDTH * SCREEN_HEIGHT,
        x >= 0,
        y >= 0,
        0 <= col <= 8,
    ensures
        ({
            let r = draw_cols(s, f, p, x, y, col);
            &&& r.0.len() == s.len()
            &&& (forall|i: int| 0 <= i < s.len() ==> r.0[i] == (s[i] != col_flips(p, x, y, col, i)))
            &&& r.1 == (f || exists|i: int| 0 <= i < s.len() && #[trigger] col_flips(p, x, y, col, i) && s[i])
        }),
    decreases 8 - col,
{
    let len = s.len() as int;
    if col == 8 {
        assert(forall|i: int| 0 <= i < len ==> !col_flips(p, x, y, col, i));
        assert(!(exists|i: int| 0 <= i < len && #[trigger] col_flips(p, x, y, col, i) && s[i]));
        assert(draw_cols(s, f, p, x, y, col) == (s, f));
    } else if bit_set(p, col) {
        let idx = cell_at(x + col, y);
        assert(0 <= idx < len);
        let s2 = s.update(idx, !s[idx]);
        let f2 = f || s[idx];
        lemma_draw_cols_char(s2, f2, p, x, y, col + 1);
        let r = draw_cols(s2, f2, p, x, y, col + 1);
        assert(draw_cols(s, f, p, x, y, col) == r);
        // The columns after this one never touch this cell again.
        assert(!col_flips(p, x, y, col + 1, idx)) by {
            if col_flips(p, x, y, col + 1, idx) {
                let c = choose|c: int| (col + 1) <= c < 8 && #[trigger] bit_set(p, c) && idx == cell_at(x + c, y);
                lemma_cell_cols_distinct(x, y, col, c);
                assert(false);
            }
        };
        assert(col_flips(p, x, y, col, idx));
        // Away from this cell, the flip sets agree.
        assert forall|i: int| 0 <= i < len && i != idx implies
            col_flips(p, x, y, col, i) == col_flips(p, x, y, col + 1, i) by {
            if col_flips(p, x, y, col, i) {
                let c = choose|c: int| col <= c < 8 && #[trigger] bit_set(p, c) && i == cell_at(x + c, y);
                assert(c != col);
                assert(col_flips(p, x, y, col + 1, i));
            }
            if col_flips(p, x, y, col + 1, i) {
                let c = choose|c: int| (col + 1) <= c < 8 && #[trigger] bit_set(p, c) && i == cell_at(x + c, y);
                assert(col_flips(p, x, y, col, i));
            }
        };
        assert forall|i: int| 0 <= i < len implies r.0[i] == (s[i] != col_flips(p, x, y, col, i)) by {
            assert(r.0[i] == (s2[i] != col_flips(p, x, y, col + 1, i)));
            if i == idx {
                assert(s2[i] == !s[i]);
                assert(!col_flips(p, x, y, col + 1, i));
                assert(col_flips(p, x, y, col, i));
            } else {
                assert(s2[i] == s[i]);
            }
        };
        // Collision accumulation.
        assert((exists|i: int| 0 <= i < len && #[trigger] col_flips(p, x, y, col + 1, i) && s2[i])
            == (exists|i: int| 0 <= i < len && #[trigger] col_flips(p, x, y, col + 1, i) && s[i])) by {
            if exists|i: int| 0 <= i < len && #[trigger] col_flips(p, x, y, col + 1, i) && s2[i] {
                let i = choose|i: int| 0 <= i < len && #[trigger] col_flips(p, x, y, col + 1, i) && s2[i];
                assert(i != idx);
                assert(col_flips(p, x, y, col + 1, i) && s[i]);
            }
            if exists|i: int| 0 <= i < len && #[trigger] col_flips(p, x, y, col + 1, i) && s[i] {
                let i = choose|i: int| 0 <= i < len && #[trigger] col_flips(p, x, y, col + 1, i) && s[i];
                assert(i != idx);
                assert(col_flips(p, x, y, col + 1, i) && s2[i]);
            }
        };
        assert((exists|i: int| 0 <= i < len && #[trigger] col_flips(p, x, y, col, i) && s[i])
            == (s[idx] || exists|i: int| 0 <= i < len && #[trigger] col_flips(p, x, y, col + 1, i) && s[i])) by {
            if exists|i: int| 0 <= i < len && #[trigger] col_flips(p, x, y, col, i) && s[i] {
                let i = choose|i: int| 0 <= i < len && #[trigger] col_flips(p, x, y, col, i) && s[i];
                if i != idx {
                    assert(col_flips(p, x, y, col + 1, i) && s[i]);
                }
            }
            if s[idx] {
                assert(col_flips(p, x, y, col, idx) && s[idx]);
            }
            if exists|i: int| 0 <= i < len && #[trigger] col_flips(p, x, y, col + 1, i) && s[i] {
                let i = choose|i: int| 0 <= i < len && #[trigger] col_flips(p, x, y, col + 1, i) && s[i];
                assert(col_flips(p, x, y, col, i) && s[i]);
            }
        };
        assert(r.1 == (f || exists|i: int| 0 <= i < len && #[trigger] col_flips(p, x, y, col, i) && s[i]));
    } else {
        lemma_draw_cols_char(s, f, p, x, y, col + 1);
        assert forall|i: int| 0 <= i < len implies
            col_flips(p, x, y, col, i) == col_flips(p, x, y, col + 1, i) by {
            if col_flips(p, x, y, col, i) {
                let c = choose|c: int| col <= c < 8 && #[trigger] bit_set(p, c) && i == cell_at(x + c, y);
                assert(c != col);
                assert(col_flips(p, x, y, col + 1, i));
            }
            if col_flips(p, x, y, col + 1, i) {
                let c = choose|c: int| (col + 1) <= c < 8 && #[trigger] bit_set(p, c) && i == cell_at(x + c, y);
                assert(col_flips(p, x, y, col, i));
            }
        };
        assert((exists|i: int| 0 <= i < len && #[trigger] col_flips(p, x, y, col, i) && s[i])
            == (exists|i: int| 0 <= i < len && #[trigger] col_flips(p, x, y, col + 1, i) && s[i])) by {
            if exists|i: int| 0 <= i < len && #[trigger] col_flips(p, x, y, col, i) && s[i] {
                let i = choose|i: int| 0 <= i < len && #[trigger] col_flips(p, x, y, col, i) && s[i];
                assert(col_flips(p, x, y, col + 1, i) && s[i]);
            }
            if exists|i: int| 0 <= i < len && #[trigger] col_flips(p, x, y, col + 1, i) && s[i] {
                let i = choose|i: int| 0 <= i < len && #[trigger] col_flips(p, x, y, col + 1, i) && s[i];
                assert(col_flips(p, x, y, col, i) && s[i]);
            }
        };
    }
}

/// Pointwise characterization of a whole sprite blit: each cell is XORed
/// with its flip bit, and a collision is reported exactly when some
/// flipped cell was on.
proof fn lemma_draw_rows_char(s: Seq<bool>, f: bool, ram: Seq<u8>, base: int, x: int, y: int, row: int, n: int)
    requires
        s.len() == SCREEN_WIDTH * SCREEN_HEIGHT,
        x >= 0,
        y >= 0,
        base >= 0,
        0 <= row <= n <= 15,
    ensures
        ({
            let r = draw_rows(s, f, ram, base, x, y, row, n);
            &&& r.0.len() == s.len()
            &&& (forall|i: int| 0 <= i < s.len() ==> r.0[i] == (s[i] != rows_flips(ram, base, x, y, row, n, i)))
            &&& r.1 == (f || exists|i: int| 0 <= i < s.len() && #[trigger] rows_flips(ram, base, x, y, row, n, i) && s[i])
        }),
    decreases n - row,
{
    let len = s.len() as int;
    if row >= n {
        assert(forall|i: int| 0 <= i < len ==> !rows_flips(ram, base, x, y, row, n, i));
    } else {
        let p = ram[base + row];
        lemma_draw_cols_char(s, f, p, x, y + row, 0);
        let c = draw_cols(s, f, p, x, y + row, 0);
        lemma_draw_rows_char(c.0, c.1, ram, base, x, y, row + 1, n);
        let r = draw_rows(c.0, c.1, ram, base, x, y, row + 1, n);
        assert(draw_rows(s, f, ram, base, x, y, row, n) == r);
        // A cell this row flips is never flipped by a later row, and vice
        // versa: the row remainders differ.
        assert forall|i: int| 0 <= i < len && #[trigger] col_flips(p, x, y + row, 0, i) implies
            !rows_flips(ram, base, x, y, row + 1, n, i) by {
            if rows_flips(ram, base, x, y, row + 1, n, i) {
                let rr = choose|rr: int| (row + 1) <= rr < n && #[trigger] col_flips(ram[base + rr], x, y + rr, 0, i);
                let c1 = choose|c1: int| 0 <= c1 < 8 && #[trigger] bit_set(p, c1) && i == cell_at(x + c1, y + row);
                let c2 = choose|c2: int| 0 <= c2 < 8 && #[trigger] bit_set(ram[base + rr], c2) && i == cell_at(x + c2, y + rr);
                lemma_cell_rows_distinct(x + c1, x + c2, y, row, rr);
                assert(false);
            }
        };
        // Splitting the flip set row by row.
        assert forall|i: int| 0 <= i < len implies
            rows_flips(ram, base, x, y, row, n, i)
                == (col_flips(p, x, y + row, 0, i) || rows_flips(ram, base, x, y, row + 1, n, i)) by {
            if rows_flips(ram, base, x, y, row, n, i) {
                let rr = choose|rr: int| row <= rr < n && #[trigger] col_flips(ram[base + rr], x, y + rr, 0, i);
                if rr == row {
                    assert(col_flips(p, x, y + row, 0, i));
                } else {
                    assert(rows_flips(ram, base, x, y, row + 1, n, i));
                }
            }
            if col_flips(p, x, y + row, 0, i) {
                assert(rows_flips(ram, base, x, y, row, n, i));
            }
            if rows_flips(ram, base, x, y, row + 1, n, i) {
                let rr = choose|rr: int| (row + 1) <= rr < n && #[trigger] col_flips(ram[base + rr], x, y + rr, 0, i);
                assert(rows_flips(ram, base, x, y, row, n, i));
            }
        };
        assert(forall|i: int| 0 <= i < len ==> r.0[i] == (s[i] != rows_flips(ram, base, x, y, row, n, i)));
        // Collision accumulation: later rows see this row's cells
        // untouched.
        assert((exists|i: int| 0 <= i < len && #[trigger] rows_flips(ram, base, x, y, row + 1, n, i) && c.0[i])
            == (exists|i: int| 0 <= i < len && #[trigger] rows_flips(ram, base, x, y, row + 1, n, i) && s[i])) by {
            if exists|i: int| 0 <= i < len && #[trigger] rows_flips(ram, base, x, y, row + 1, n, i) && c.0[i] {
                let i = choose|i: int| 0 <= i < len && #[trigger] rows_flips(ram, base, x, y, row + 1, n, i) && c.0[i];
                assert(!col_flips(p, x, y + row, 0, i));
                assert(rows_flips(ram, base, x, y, row + 1, n, i) && s[i]);
            }
            if exists|i: int| 0 <= i < len && #[trigger] rows_flips(ram, base, x, y, row + 1, n, i) && s[i] {
                let i = choose|i: int| 0 <= i < len && #[trigger] rows_flips(ram, base, x, y, row + 1, n, i) && s[i];
                assert(!col_flips(p, x, y + row, 0, i));
                assert(rows_flips(ram, base, x, y, row + 1, n, i) && c.0[i]);
            }
        };
        if f {
            assert(r.1);
        } else {
            if exists|i: int| 0 <= i < len && #[trigger] col_flips(p, x, y + row, 0, i) && s[i] {
                let i = choose|i: int| 0 <= i < len && #[trigger] col_flips(p, x, y + row, 0, i) && s[i];
                assert(rows_flips(ram, base, x, y, row, n, i) && s[i]);
                assert(r.1);
            }
            if exists|i: int| 0 <= i < len && #[trigger] rows_flips(ram, base, x, y, row, n, i) && s[i] {
                let i = choose|i: int| 0 <= i < len && #[trigger] rows_flips(ram, base, x, y, row, n, i) && s[i];
                assert(col_flips(p, x, y + row, 0, i) || rows_flips(ram, base, x, y, row + 1, n, i));
                assert(r.1);
            }
        }
    }
}

/// Drawing the same sprite twice at the same coordinates returns the
/// framebuffer to its prior state (the XOR blit is self-inverse), and the
/// second draw reports a collision whenever the first draw turned any
/// cell on. The coordinate registers must not be register 15: the first
/// draw's flag would change the coordinates.
pub proof fn lemma_draw_twice(pre: MachineView, op: u16, rnd1: u8, rnd2: u8)
    requires
        pre.wf(),
        nib_op(op) == 0xD,
        nib_x(op) != 15,
        nib_y(op) != 15,
    ensures
        match step_spec(pre, op, rnd1) {
            Ok(mid) => match step_spec(mid, op, rnd2) {
                Ok(post) => post.screen == pre.screen
                    && ((exists|i: int| 0 <= i < pre.screen.len() && !pre.screen[i] && #[trigger] mid.screen[i])
                        ==> post.regs[15] == 1),
                Err(_) => false,
            },
            Err(f) => f == Fault::OutOfRange
                && nib_n(op) > 0 && pre.i_reg + nib_n(op) > RAM_SIZE,
        },
{
    lemma_decode_bounds(op);
    let x = nib_x(op) as int;
    let y = nib_y(op) as int;
    let n = nib_n(op) as int;
    let base = pre.i_reg as int;
    let xv = pre.regs[x] as int;
    let yv = pre.regs[y] as int;
    if !(n > 0 && base + n > RAM_SIZE) {
        let r1 = draw_rows(pre.screen, false, pre.ram, base, xv, yv, 0, n);
        lemma_draw_rows_char(pre.screen, false, pre.ram, base, xv, yv, 0, n);
        let mid = step_spec(pre, op, rnd1)->Ok_0;
        assert(mid.screen == r1.0);
        assert(mid.ram == pre.ram && mid.i_reg == pre.i_reg);
        assert(mid.regs[x] == pre.regs[x] && mid.regs[y] == pre.regs[y]);
        let r2 = draw_rows(mid.screen, false, mid.ram, base, xv, yv, 0, n);
        lemma_draw_rows_char(mid.screen, false, mid.ram, base, xv, yv, 0, n);
        let post = step_spec(mid, op, rnd2)->Ok_0;
        assert(post.screen == r2.0);
        // XOR with the same flip set twice restores every cell.
        assert forall|i: int| 0 <= i < pre.screen.len() implies post.screen[i] == pre.screen[i] by {
            assert(mid.screen[i] == (pre.screen[i] != rows_flips(pre.ram, base, xv, yv, 0, n, i)));
            assert(post.screen[i] == (mid.screen[i] != rows_flips(pre.ram, base, xv, yv, 0, n, i)));
        };
        assert(post.screen =~= pre.screen);
        // A cell the first draw turned on collides on the second draw.
        if exists|i: int| 0 <= i < pre.screen.len() && !pre.screen[i] && #[trigger] mid.screen[i] {
            let i = choose|i: int| 0 <= i < pre.screen.len() && !pre.screen[i] && #[trigger] mid.screen[i];
            assert(rows_flips(pre.ram, base, xv, yv, 0, n, i));
            assert(rows_flips(pre.ram, base, xv, yv, 0, n, i) && mid.screen[i]);
            assert(r2.1);
            assert(post.regs[15] == 1);
        }
    }
}

/// A call instruction followed by a return is a net no-op on the program
/// counter and the stack pointer: the return restores the program counter
/// value immediately prior to the call.
pub proof fn lemma_call_then_return(pre: MachineView, op: u16, rnd1: u8, rnd2: u8)
    requires
        pre.wf(),
        nib_op(op) == 2,
        pre.sp < STACK_SIZE,
    ensures
        match step_spec(pre, op, rnd1) {
            Ok(mid) => match step_spec(mid, 0x00EE, rnd2) {
                Ok(post) => post.pc == pre.pc && post.sp == pre.sp,
                Err(_) => false,
            },
            Err(_) => false,
        },
{
    lemma_decode_bounds(op);
    assert(((0x00EEu16 >> 12) & 0xF) == 0 && ((0x00EEu16 >> 8) & 0xF) == 0
        && ((0x00EEu16 >> 4) & 0xF) == 0xE && (0x00EEu16 & 0xF) == 0xE) by (bit_vector);
}

} // verus!
