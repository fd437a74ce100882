//! The general laws of the instruction semantics, each proved once and for
//! all over the machine model: arithmetic flag conventions, the register
//! dump/restore round trip, the blocked key wait, the stack underflow
//! fault, and the XOR drawing laws — what a sprite draw does to every
//! surface cell, and that drawing the same sprite twice restores the
//! surface.

use vstd::prelude::*;
use crate::machine::MachineModel;
use crate::machine::Fault;
use crate::decode::Instr;
use crate::draw::{draw_row, draw_rows, pixel_index, sprite_bit};
use crate::exec::{
    exec_model, cycle_model, fetch_op, blocks, has_pressed_key, highest_pressed_below,
    lemma_highest_pressed, loaded_regs, dumped_memory, tick_model,
};

verus! {

/// After 6XNN (set VX to NN) followed by 7X00 (add zero to VX), register X
/// holds exactly NN: adding zero is the identity.
pub proof fn lemma_set_then_add_zero(m: MachineModel, x: u8, nn: u8, r1: u8, r2: u8)
    requires
        m.wf(),
        x < 16,
    ensures
        exec_model(m, Instr::SetImm { x, nn }, r1) matches Ok(m1)
            && exec_model(m1, Instr::AddImm { x, nn: 0 }, r2) matches Ok(m2)
            && m2.v[x as int] == nn,
{
}

/// 8XY4 leaves VX holding (a + b) mod 256 and, when X is not the flag
/// register itself, sets VF to 1 exactly when a + b exceeds 255.
pub proof fn lemma_add_reg_flags(m: MachineModel, x: u8, y: u8, rand: u8)
    requires
        m.wf(),
        x < 16,
        y < 16,
    ensures
        ({
            let a = m.v[x as int];
            let b = m.v[y as int];
            exec_model(m, Instr::AddReg { x, y }, rand) matches Ok(mm)
                && mm.v[x as int] == (a + b) % 256
                && (x != 15 ==> mm.v[15] == (if a + b > 255 { 1u8 } else { 0u8 }))
        }),
{
}

/// 8XY5 leaves VX holding (a - b) mod 256 and, when X is not the flag
/// register itself, sets VF to 0 exactly when a < b (a borrow occurred).
pub proof fn lemma_sub_reg_flags(m: MachineModel, x: u8, y: u8, rand: u8)
    requires
        m.wf(),
        x < 16,
        y < 16,
    ensures
        ({
            let a = m.v[x as int];
            let b = m.v[y as int];
            exec_model(m, Instr::SubReg { x, y }, rand) matches Ok(mm)
                && mm.v[x as int] == (a + 256 - b) % 256
                && (x != 15 ==> mm.v[15] == (if a < b { 0u8 } else { 1u8 }))
        }),
{
}

/// FX55 then FX65 with the same X and the same I restores V0..VX exactly,
/// and each of the two leaves I at its original value plus X plus 1.
pub proof fn lemma_dump_then_load(m: MachineModel, x: u8, r1: u8, r2: u8)
    requires
        m.wf(),
        x < 16,
        m.i + x <= 4095,
    ensures
        exec_model(m, Instr::DumpRegs { x }, r1) matches Ok(m1) && ({
            &&& m1.i == m.i + x + 1
            &&& (exec_model(MachineModel { i: m.i, ..m1 }, Instr::LoadRegs { x }, r2)
                matches Ok(m2) && m2.v == m.v && m2.i == m.i + x + 1)
        }),
{
    let m1 = exec_model(m, Instr::DumpRegs { x }, r1).unwrap();
    let mr = MachineModel { i: m.i, ..m1 };
    let m2 = exec_model(mr, Instr::LoadRegs { x }, r2).unwrap();
    assert forall|j: int| 0 <= j < 16 implies loaded_regs(mr, x)[j] == m.v[j] by {
        if j <= x {
            assert(mr.memory[mr.i + j] == dumped_memory(m, x)[m.i + j]);
        }
    }
    assert(m2.v =~= m.v);
}

/// A return with an empty call stack is the stack-underflow fault, on any
/// machine and whatever the randomness source supplied.
pub proof fn lemma_return_underflow(m: MachineModel, rand: u8)
    requires
        m.sp == 0,
    ensures
        exec_model(m, Instr::Ret, rand) == Err::<MachineModel, Fault>(Fault::StackUnderflow),
{
}

/// FX0A with no key pressed leaves the instruction's effect empty: the
/// same machine comes back, so the program counter stays put and the
/// instruction re-executes on the next step.
pub proof fn lemma_wait_key_blocks(m: MachineModel, x: u8, rand: u8)
    requires
        m.wf(),
        x < 16,
        forall|k: int| 0 <= k < 16 ==> m.key[k] == 0,
    ensures
        exec_model(m, Instr::WaitKey { x }, rand) == Ok::<MachineModel, Fault>(m),
        blocks(m, Instr::WaitKey { x }),
{
}

/// A whole engine step on a blocked FX0A holds everything but the
/// timers: when the opcode at the program counter decodes to FX0A and no
/// key is pressed, the step succeeds, the program counter, registers,
/// memory, stack and surface are exactly as before — so the instruction
/// re-executes on the next step — and the timers tick once, as they do on
/// every step.
pub proof fn lemma_wait_key_blocks_cycle(m: MachineModel, rand: u8)
    requires
        m.wf(),
        m.pc <= 4094,
        crate::decode::decode_spec(fetch_op(m)) matches Some(instr)
            && instr matches Instr::WaitKey { .. },
        forall|k: int| 0 <= k < 16 ==> m.key[k] == 0,
    ensures
        cycle_model(m, rand) == Ok::<MachineModel, Fault>(tick_model(m)),
        tick_model(m).pc == m.pc,
        tick_model(m).v == m.v,
        tick_model(m).memory == m.memory,
        tick_model(m).gfx == m.gfx,
        tick_model(m).stack == m.stack && tick_model(m).sp == m.sp,
{
}

/// FX0A with some key pressed advances the program counter by 2 and puts
/// into VX the index of a pressed key — the highest-indexed one.
pub proof fn lemma_wait_key_press(m: MachineModel, x: u8, rand: u8)
    requires
        m.wf(),
        x < 16,
        m.pc <= 4094,
        has_pressed_key(m.key),
    ensures
        exec_model(m, Instr::WaitKey { x }, rand) matches Ok(mm) && {
            let h = highest_pressed_below(m.key, 16);
            &&& mm.pc == m.pc + 2
            &&& mm.v[x as int] == h
            &&& 0 <= h < 16
            &&& m.key[h] != 0
            &&& forall|k: int| h < k < 16 ==> m.key[k] == 0
        },
{
    lemma_highest_pressed(m.key, 16);
    let h = highest_pressed_below(m.key, 16);
    assert(h >= 0);
    assert(0 <= h < 16);
    assert((h as u8) as int == h);
}


/// Some column in `c0..8` of the row byte, drawn at (`vx`, `ry`), is set
/// and lands on surface cell `j`.
pub open spec fn row_covers(byte: u8, vx: int, ry: int, c0: int, j: int) -> bool {
    exists|c: int|
        c0 <= c < 8 && sprite_bit(byte, c as u8) && pixel_index(vx, ry, c) == j && 0 <= j < 2048
}

/// Some set pixel of the sprite rows `r0..n` lands on surface cell `j`.
pub open spec fn sprite_covers(mem: Seq<u8>, i: int, vx: int, vy: int, r0: int, n: int, j: int) -> bool {
    exists|r: int| r0 <= r < n && #[trigger] row_covers(mem[i + r], vx, vy + r, 0, j)
}

/// Toggling a pixel twice restores it.
pub proof fn lemma_xor1_twice()
    by (bit_vector)
    ensures
        forall|b: u8| #[trigger] ((b ^ 1) ^ 1) == b,
{
}

/// What one sprite row does to the surface, cell by cell: a covered cell
/// is toggled, every other cell is untouched, and the collision flag is
/// set exactly when some covered cell was set. Distinct columns land on
/// distinct cells, so each covered cell is toggled exactly once.
pub proof fn lemma_draw_row_char(gfx: Seq<u8>, byte: u8, vx: int, ry: int, c0: int)
    requires
        gfx.len() == 2048,
        0 <= vx,
        0 <= ry,
        0 <= c0,
    ensures
        draw_row(gfx, byte, vx, ry, c0).0.len() == 2048,
        forall|j: int| 0 <= j < 2048 ==> draw_row(gfx, byte, vx, ry, c0).0[j] == (
            if row_covers(byte, vx, ry, c0, j) { gfx[j] ^ 1 } else { gfx[j] }),
        draw_row(gfx, byte, vx, ry, c0).1 == (exists|j: int|
            0 <= j < 2048 && #[trigger] row_covers(byte, vx, ry, c0, j) && gfx[j] == 1),
    decreases 8 - c0,
{
    if c0 >= 8 {
        assert(forall|j: int| !row_covers(byte, vx, ry, c0, j));
    } else {
        let idx = pixel_index(vx, ry, c0);
        let on = sprite_bit(byte, c0 as u8) && 0 <= idx < 2048;
        let g1 = if on { gfx.update(idx, gfx[idx] ^ 1) } else { gfx };
        lemma_draw_row_char(g1, byte, vx, ry, c0 + 1);
        let rest = draw_row(g1, byte, vx, ry, c0 + 1);
        let hit_here = on && gfx[idx] == 1;
        assert(draw_row(gfx, byte, vx, ry, c0) == (rest.0, hit_here || rest.1));
        assert(forall|c: int| c0 + 1 <= c < 8 ==> pixel_index(vx, ry, c) != idx);
        assert(!row_covers(byte, vx, ry, c0 + 1, idx));

        // coverage of c0.. splits into column c0 and coverage of (c0+1)..
        assert forall|j: int| 0 <= j < 2048 implies row_covers(byte, vx, ry, c0, j) == ((on && j
            == idx) || row_covers(byte, vx, ry, c0 + 1, j)) by {
            if row_covers(byte, vx, ry, c0, j) {
                let c = choose|c: int|
                    c0 <= c < 8 && sprite_bit(byte, c as u8) && pixel_index(vx, ry, c) == j && 0
                        <= j < 2048;
                if c == c0 {
                    assert(on && j == idx);
                } else {
                    assert(c0 + 1 <= c < 8 && sprite_bit(byte, c as u8) && pixel_index(vx, ry, c)
                        == j && 0 <= j < 2048);
                    assert(row_covers(byte, vx, ry, c0 + 1, j));
                }
            }
            if on && j == idx {
                assert(c0 <= c0 < 8 && sprite_bit(byte, c0 as u8) && pixel_index(vx, ry, c0) == j
                    && 0 <= j < 2048);
                assert(row_covers(byte, vx, ry, c0, j));
            }
            if row_covers(byte, vx, ry, c0 + 1, j) {
                let c = choose|c: int|
                    c0 + 1 <= c < 8 && sprite_bit(byte, c as u8) && pixel_index(vx, ry, c) == j
                        && 0 <= j < 2048;
                assert(c0 <= c < 8 && sprite_bit(byte, c as u8) && pixel_index(vx, ry, c) == j && 0
                    <= j < 2048);
                assert(row_covers(byte, vx, ry, c0, j));
            }
        }

        // cell by cell: toggled where covered, untouched elsewhere
        assert forall|j: int| 0 <= j < 2048 implies draw_row(gfx, byte, vx, ry, c0).0[j] == (
            if row_covers(byte, vx, ry, c0, j) { gfx[j] ^ 1 } else { gfx[j] }) by {
            if on && j == idx {
                assert(rest.0[j] == g1[j]);
                assert(g1[j] == gfx[j] ^ 1);
            } else {
                assert(g1[j] == gfx[j]);
            }
        }

        // the collision flag: set exactly when a covered cell held a 1
        let hit_rhs = exists|j: int|
            0 <= j < 2048 && #[trigger] row_covers(byte, vx, ry, c0, j) && gfx[j] == 1;
        if rest.1 {
            let j = choose|j: int|
                0 <= j < 2048 && #[trigger] row_covers(byte, vx, ry, c0 + 1, j) && g1[j] == 1;
            assert(j != idx);
            assert(g1[j] == gfx[j]);
            assert(row_covers(byte, vx, ry, c0, j));
            assert(0 <= j < 2048 && row_covers(byte, vx, ry, c0, j) && gfx[j] == 1);
            assert(hit_rhs);
        }
        if hit_here {
            assert(row_covers(byte, vx, ry, c0, idx));
            assert(0 <= idx < 2048 && row_covers(byte, vx, ry, c0, idx) && gfx[idx] == 1);
            assert(hit_rhs);
        }
        if hit_rhs {
            let j = choose|j: int|
                0 <= j < 2048 && #[trigger] row_covers(byte, vx, ry, c0, j) && gfx[j] == 1;
            if on && j == idx {
                assert(hit_here);
            } else {
                assert(row_covers(byte, vx, ry, c0 + 1, j));
                assert(g1[j] == gfx[j]);
                assert(0 <= j < 2048 && row_covers(byte, vx, ry, c0 + 1, j) && g1[j] == 1);
                assert(rest.1);
            }
        }
        assert((hit_here || rest.1) == hit_rhs);
    }
}


/// What a whole sprite does to the surface, cell by cell: a covered cell
/// is toggled, every other cell is untouched, and the collision flag is
/// set exactly when some covered cell was set. Distinct rows land on
/// disjoint cells, so each covered cell is toggled exactly once.
pub proof fn lemma_draw_rows_char(gfx: Seq<u8>, mem: Seq<u8>, i: int, vx: int, vy: int, r0: int, n: int)
    requires
        gfx.len() == 2048,
        0 <= vx,
        0 <= vy,
        0 <= r0,
    ensures
        draw_rows(gfx, mem, i, vx, vy, r0, n).0.len() == 2048,
        forall|j: int| 0 <= j < 2048 ==> draw_rows(gfx, mem, i, vx, vy, r0, n).0[j] == (
            if sprite_covers(mem, i, vx, vy, r0, n, j) { gfx[j] ^ 1 } else { gfx[j] }),
        draw_rows(gfx, mem, i, vx, vy, r0, n).1 == (exists|j: int|
            0 <= j < 2048 && #[trigger] sprite_covers(mem, i, vx, vy, r0, n, j) && gfx[j] == 1),
    decreases n - r0,
{
    if r0 >= n {
        assert(forall|j: int| !sprite_covers(mem, i, vx, vy, r0, n, j));
    } else {
        let byte = mem[i + r0];
        let ry = vy + r0;
        lemma_draw_row_char(gfx, byte, vx, ry, 0);
        let first = draw_row(gfx, byte, vx, ry, 0);
        lemma_draw_rows_char(first.0, mem, i, vx, vy, r0 + 1, n);
        let rest = draw_rows(first.0, mem, i, vx, vy, r0 + 1, n);
        assert(draw_rows(gfx, mem, i, vx, vy, r0, n) == (rest.0, first.1 || rest.1));

        // rows land on disjoint cells: a cell of row r0 is covered by no
        // later row, because row indices differ by at least one full
        // 64-cell screen row while columns differ by less than 8
        assert forall|j: int| row_covers(byte, vx, ry, 0, j) implies !sprite_covers(
            mem, i, vx, vy, r0 + 1, n, j) by {
            if sprite_covers(mem, i, vx, vy, r0 + 1, n, j) {
                let r = choose|r: int|
                    r0 + 1 <= r < n && #[trigger] row_covers(mem[i + r], vx, vy + r, 0, j);
                let c1 = choose|c: int|
                    0 <= c < 8 && sprite_bit(byte, c as u8) && pixel_index(vx, ry, c) == j && 0
                        <= j < 2048;
                let c2 = choose|c: int|
                    0 <= c < 8 && #[trigger] sprite_bit(mem[i + r], c as u8)
                        && pixel_index(vx, vy + r, c) == j && 0 <= j < 2048;
                assert(vx + c1 + ry * 64 == vx + c2 + (vy + r) * 64);
                assert(c1 - c2 == (r - r0) * 64);
                assert(false);
            }
        }

        // coverage splits into the first row and the remaining rows
        assert forall|j: int| 0 <= j < 2048 implies sprite_covers(mem, i, vx, vy, r0, n, j) == (
            row_covers(byte, vx, ry, 0, j) || sprite_covers(mem, i, vx, vy, r0 + 1, n, j)) by {
            if sprite_covers(mem, i, vx, vy, r0, n, j) {
                let r = choose|r: int|
                    r0 <= r < n && #[trigger] row_covers(mem[i + r], vx, vy + r, 0, j);
                if r != r0 {
                    assert(r0 + 1 <= r < n && row_covers(mem[i + r], vx, vy + r, 0, j));
                    assert(sprite_covers(mem, i, vx, vy, r0 + 1, n, j));
                }
            }
            if row_covers(byte, vx, ry, 0, j) {
                assert(r0 <= r0 < n && row_covers(mem[i + r0], vx, vy + r0, 0, j));
                assert(sprite_covers(mem, i, vx, vy, r0, n, j));
            }
            if sprite_covers(mem, i, vx, vy, r0 + 1, n, j) {
                let r = choose|r: int|
                    r0 + 1 <= r < n && #[trigger] row_covers(mem[i + r], vx, vy + r, 0, j);
                assert(r0 <= r < n && row_covers(mem[i + r], vx, vy + r, 0, j));
                assert(sprite_covers(mem, i, vx, vy, r0, n, j));
            }
        }

        // cell by cell: toggled where covered, untouched elsewhere
        assert forall|j: int| 0 <= j < 2048 implies draw_rows(gfx, mem, i, vx, vy, r0, n).0[j]
            == (if sprite_covers(mem, i, vx, vy, r0, n, j) { gfx[j] ^ 1 } else { gfx[j] }) by {
            if row_covers(byte, vx, ry, 0, j) {
                assert(first.0[j] == gfx[j] ^ 1);
                assert(!sprite_covers(mem, i, vx, vy, r0 + 1, n, j));
                assert(rest.0[j] == first.0[j]);
            } else {
                assert(first.0[j] == gfx[j]);
            }
        }

        // the collision flag: set exactly when a covered cell held a 1
        let hit_rhs = exists|j: int|
            0 <= j < 2048 && #[trigger] sprite_covers(mem, i, vx, vy, r0, n, j) && gfx[j] == 1;
        if first.1 {
            let j = choose|j: int|
                0 <= j < 2048 && #[trigger] row_covers(byte, vx, ry, 0, j) && gfx[j] == 1;
            assert(sprite_covers(mem, i, vx, vy, r0, n, j));
            assert(hit_rhs);
        }
        if rest.1 {
            let j = choose|j: int|
                0 <= j < 2048 && #[trigger] sprite_covers(mem, i, vx, vy, r0 + 1, n, j)
                    && first.0[j] == 1;
            assert(!row_covers(byte, vx, ry, 0, j));
            assert(first.0[j] == gfx[j]);
            assert(sprite_covers(mem, i, vx, vy, r0, n, j));
            assert(hit_rhs);
        }
        if hit_rhs {
            let j = choose|j: int|
                0 <= j < 2048 && #[trigger] sprite_covers(mem, i, vx, vy, r0, n, j) && gfx[j]
                    == 1;
            if row_covers(byte, vx, ry, 0, j) {
                assert(0 <= j < 2048 && row_covers(byte, vx, ry, 0, j) && gfx[j] == 1);
                assert(first.1);
            } else {
                assert(sprite_covers(mem, i, vx, vy, r0 + 1, n, j));
                assert(first.0[j] == gfx[j]);
                assert(0 <= j < 2048 && sprite_covers(mem, i, vx, vy, r0 + 1, n, j) && first.0[j]
                    == 1);
                assert(rest.1);
            }
        }
        assert((first.1 || rest.1) == hit_rhs);
    }
}

/// Drawing the same sprite at the same position twice restores every
/// pixel of the surface: XOR is its own inverse, and each covered cell is
/// toggled exactly once per draw.
pub proof fn lemma_draw_involution(gfx: Seq<u8>, mem: Seq<u8>, i: int, vx: int, vy: int, n: int)
    requires
        gfx.len() == 2048,
        0 <= vx,
        0 <= vy,
    ensures
        draw_rows(draw_rows(gfx, mem, i, vx, vy, 0, n).0, mem, i, vx, vy, 0, n).0 == gfx,
{
    lemma_xor1_twice();
    let d1 = draw_rows(gfx, mem, i, vx, vy, 0, n);
    lemma_draw_rows_char(gfx, mem, i, vx, vy, 0, n);
    lemma_draw_rows_char(d1.0, mem, i, vx, vy, 0, n);
    let d2 = draw_rows(d1.0, mem, i, vx, vy, 0, n);
    assert forall|j: int| 0 <= j < 2048 implies d2.0[j] == gfx[j] by {
        if sprite_covers(mem, i, vx, vy, 0, n, j) {
            assert(d1.0[j] == gfx[j] ^ 1);
            assert(d2.0[j] == (gfx[j] ^ 1) ^ 1);
        }
    }
    assert(d2.0 =~= gfx);
}


/// Clearing the screen (00E0), drawing any sprite (DXYN), then drawing
/// the identical sprite at the identical position again restores every
/// pixel to 0. The first draw reports no collision (VF = 0); the second
/// collides exactly when the sprite puts some set pixel on the surface.
/// X and Y must not name the flag register, which the first draw
/// overwrites.
pub proof fn lemma_clear_draw_draw(m: MachineModel, x: u8, y: u8, n: u8, r1: u8, r2: u8, r3: u8)
    requires
        m.wf(),
        x < 16,
        y < 16,
        n < 16,
        x != 15,
        y != 15,
        n > 0 ==> m.i + n <= 4096,
    ensures
        exec_model(m, Instr::Cls, r1) matches Ok(m1) && ({
            &&& (exec_model(m1, Instr::Draw { x, y, n }, r2) matches Ok(m2) && ({
                &&& m2.v[15] == 0
                &&& (exec_model(m2, Instr::Draw { x, y, n }, r3) matches Ok(m3) && ({
                    &&& m3.gfx == m1.gfx
                    &&& m3.v[15] == (if exists|j: int|
                        0 <= j < 2048 && #[trigger] sprite_covers(m.memory, m.i as int,
                            m.v[x as int] as int, m.v[y as int] as int, 0, n as int, j) {
                        1u8
                    } else {
                        0u8
                    })
                }))
            }))
        }),
{
    assert((0u8 ^ 1u8) == 1u8) by (bit_vector);
    let m1 = exec_model(m, Instr::Cls, r1).unwrap();
    let blank = crate::exec::blank_gfx();
    assert(m1.gfx == blank);
    let vx = m.v[x as int] as int;
    let vy = m.v[y as int] as int;
    let ii = m.i as int;
    let nn = n as int;
    lemma_draw_rows_char(blank, m.memory, ii, vx, vy, 0, nn);
    let d1 = draw_rows(blank, m.memory, ii, vx, vy, 0, nn);
    // the cleared surface holds no set pixel, so the first draw collides
    // with nothing
    assert forall|j: int| 0 <= j < 2048 implies blank[j] == 0 by {}
    assert(!d1.1);
    let m2 = exec_model(m1, Instr::Draw { x, y, n }, r2).unwrap();
    assert(m2.v[15] == 0);
    assert(m2.v[x as int] == m.v[x as int]);
    assert(m2.v[y as int] == m.v[y as int]);
    assert(m2.gfx == d1.0);
    lemma_draw_rows_char(d1.0, m.memory, ii, vx, vy, 0, nn);
    let d2 = draw_rows(d1.0, m.memory, ii, vx, vy, 0, nn);
    lemma_draw_involution(blank, m.memory, ii, vx, vy, nn);
    assert(d2.0 == blank);
    let m3 = exec_model(m2, Instr::Draw { x, y, n }, r3).unwrap();
    assert(m3.gfx == m1.gfx);
    // after the first draw every covered cell is set, so the second draw
    // collides exactly when the sprite covers some cell
    let visible = exists|j: int|
        0 <= j < 2048 && #[trigger] sprite_covers(m.memory, ii, vx, vy, 0, nn, j);
    if visible {
        let j = choose|j: int|
            0 <= j < 2048 && #[trigger] sprite_covers(m.memory, ii, vx, vy, 0, nn, j);
        assert(d1.0[j] == (blank[j] ^ 1));
        assert(d1.0[j] == 1);
        assert(0 <= j < 2048 && sprite_covers(m.memory, ii, vx, vy, 0, nn, j) && d1.0[j] == 1);
        assert(d2.1);
    }
    if d2.1 {
        let j = choose|j: int|
            0 <= j < 2048 && #[trigger] sprite_covers(m.memory, ii, vx, vy, 0, nn, j) && d1.0[j]
                == 1;
        assert(visible);
    }
    assert(d2.1 == visible);
}


/// Every successful engine step runs the timer tick exactly once, after
/// dispatch. When the instruction is neither FX15 nor FX18 (the two that
/// write a timer themselves), each timer ends one below its old value,
/// floored at zero — also on a blocked FX0A.
pub proof fn lemma_step_ticks_timers(m: MachineModel, rand: u8)
    requires
        m.pc <= 4094,
        crate::decode::decode_spec(fetch_op(m)) matches Some(instr)
            && !(instr matches Instr::SetDelay { .. })
            && !(instr matches Instr::SetSound { .. }),
        cycle_model(m, rand) matches Ok(post),
    ensures
        cycle_model(m, rand) matches Ok(post) && {
            &&& post.delay == (if m.delay > 0 { (m.delay - 1) as u8 } else { 0u8 })
            &&& post.sound == (if m.sound > 0 { (m.sound - 1) as u8 } else { 0u8 })
        },
{
}

} // verus!
