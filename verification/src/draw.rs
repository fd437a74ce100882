//! Sprite drawing: the DXYN instruction XORs an N-row sprite onto the
//! pixel surface and reports a collision when any pixel goes from set to
//! unset. Pixels are addressed row-major without coordinate wrap; an index
//! beyond the surface is silently dropped rather than wrapped.

use vstd::prelude::*;
use crate::machine::{Chip8, Fault, MachineModel};

verus! {

/// Whether column `col` (0 = leftmost) of a sprite row byte is set.
pub open spec fn sprite_bit(byte: u8, col: u8) -> bool {
    byte & (0x80u8 >> col) != 0
}

/// The surface cell targeted by sprite column `col` of the row at screen
/// row `ry`, for a sprite at horizontal position `vx`. Row-major, 64 cells
/// per row; no wrap, so an index at or beyond 2048 is dropped.
pub open spec fn pixel_index(vx: int, ry: int, col: int) -> int {
    vx + col + ry * 64
}

/// One sprite row XOR-ed onto the surface, columns `col..8`, together with
/// whether any touched pixel was set before the XOR (a collision).
pub open spec fn draw_row(gfx: Seq<u8>, byte: u8, vx: int, ry: int, col: int) -> (Seq<u8>, bool)
    decreases 8 - col,
{
    if col < 0 || col >= 8 {
        (gfx, false)
    } else {
        let idx = pixel_index(vx, ry, col);
        let on = sprite_bit(byte, col as u8) && 0 <= idx < 2048;
        let hit_here = on && gfx[idx] == 1;
        let g1 = if on {
            gfx.update(idx, gfx[idx] ^ 1)
        } else {
            gfx
        };
        let rest = draw_row(g1, byte, vx, ry, col + 1);
        (rest.0, hit_here || rest.1)
    }
}

/// A whole sprite XOR-ed onto the surface: rows `row..n`, read from
/// `mem[i + row]` onward, drawn at screen rows `vy + row` onward; the flag
/// is the collision over all touched pixels.
pub open spec fn draw_rows(
    gfx: Seq<u8>,
    mem: Seq<u8>,
    i: int,
    vx: int,
    vy: int,
    row: int,
    n: int,
) -> (Seq<u8>, bool)
    decreases n - row,
{
    if row < 0 || row >= n {
        (gfx, false)
    } else {
        let first = draw_row(gfx, mem[i + row], vx, vy + row, 0);
        let rest = draw_rows(first.0, mem, i, vx, vy, row + 1, n);
        (rest.0, first.1 || rest.1)
    }
}

impl Chip8 {
    /// The DXYN semantics: draws the sprite of `n` rows at memory I onto
    /// the surface at position (VX, VY), sets VF to 1 exactly on a
    /// collision, marks the display changed, and advances the program
    /// counter; a sprite row outside memory is a fault that leaves the
    /// machine untouched.
    #[verifier::loop_isolation(false)]
    pub(crate) fn exec_draw(&mut self, x: u8, y: u8, n: u8) -> (r: Result<(), Fault>)
        requires
            old(self)@.wf(),
            x < 16,
            y < 16,
            n < 16,
            old(self).pc <= 4094,
        ensures
            final(self)@.wf(),
            ({
                let m = old(self)@;
                if n > 0 && m.i + n > 4096 {
                    r == Err::<(), Fault>(Fault::MemOutOfBounds) && *final(self) == *old(self)
                } else {
                    let dr = draw_rows(
                        m.gfx,
                        m.memory,
                        m.i as int,
                        m.v[x as int] as int,
                        m.v[y as int] as int,
                        0,
                        n as int,
                    );
                    r == Ok::<(), Fault>(()) && final(self)@ == (MachineModel {
                        gfx: dr.0,
                        v: m.v.update(15, if dr.1 { 1u8 } else { 0u8 }),
                        draw: true,
                        pc: (m.pc + 2) as u16,
                        ..m
                    })
                }
            }),
    {
        if n > 0 && self.i as usize + n as usize > 4096 {
            return Err(Fault::MemOutOfBounds);
        }
        let vx = self.v[x as usize];
        let vy = self.v[y as usize];
        let mut hit: bool = false;
        let mut row: usize = 0;
        while row < n as usize
            invariant
                old(self)@.wf(),
                x < 16,
                y < 16,
                n < 16,
                vx == old(self)@.v[x as int],
                vy == old(self)@.v[y as int],
                row <= n as int,
                n > 0 ==> old(self).i + n <= 4096,
                self.memory == old(self).memory,
                self.v == old(self).v,
                self.i == old(self).i,
                self.pc == old(self).pc,
                self.stack == old(self).stack,
                self.sp == old(self).sp,
                self.delay_timer == old(self).delay_timer,
                self.sound_timer == old(self).sound_timer,
                self.key == old(self).key,
                self.draw_flag == old(self).draw_flag,
                self.gfx@.len() == 2048,
                forall|j: int| 0 <= j < 2048 ==> self.gfx@[j] == 0 || self.gfx@[j] == 1,
                ({
                    let total = draw_rows(old(self)@.gfx, old(self)@.memory, old(self).i as int,
                        vx as int, vy as int, 0, n as int);
                    let rem = draw_rows(self.gfx@, old(self)@.memory, old(self).i as int,
                        vx as int, vy as int, row as int, n as int);
                    rem.0 == total.0 && (hit || rem.1) == total.1
                }),
            decreases n as int - row,
        {
            let byte = self.memory[self.i as usize + row];
            let ghost g_enter: Seq<u8> = self.gfx@;
            let ghost ry: int = vy as int + row;
            let mut row_hit: bool = false;
            let mut col: usize = 0;
            while col < 8
                invariant
                    old(self)@.wf(),
                    col <= 8,
                    n < 16,
                    row < n as int,
                    old(self).i + n <= 4096,
                    vx == old(self)@.v[x as int],
                    byte == old(self)@.memory[old(self).i as int + row],
                    self.memory == old(self).memory,
                    self.v == old(self).v,
                    self.i == old(self).i,
                    self.pc == old(self).pc,
                    self.stack == old(self).stack,
                    self.sp == old(self).sp,
                    self.delay_timer == old(self).delay_timer,
                    self.sound_timer == old(self).sound_timer,
                    self.key == old(self).key,
                    self.draw_flag == old(self).draw_flag,
                    self.gfx@.len() == 2048,
                    forall|j: int| 0 <= j < 2048 ==> self.gfx@[j] == 0 || self.gfx@[j] == 1,
                    ({
                        let row_total = draw_row(g_enter, byte, vx as int, ry, 0);
                        let row_rem = draw_row(self.gfx@, byte, vx as int, ry, col as int);
                        row_rem.0 == row_total.0 && (row_hit || row_rem.1) == row_total.1
                    }),
                decreases 8 - col,
            {
                let ghost g_iter: Seq<u8> = self.gfx@;
                if (byte & (0x80u8 >> (col as u8))) != 0 {
                    let idx: usize = vx as usize + col + (vy as usize + row) * 64;
                    if idx < 2048 {
                        let px = self.gfx[idx];
                        if px == 1 {
                            row_hit = true;
                        }
                        proof {
                            // toggling keeps a pixel in {0, 1}
                            assert((0u8 ^ 1u8) == 1u8) by (bit_vector);
                            assert((1u8 ^ 1u8) == 0u8) by (bit_vector);
                        }
                        self.gfx.set(idx, px ^ 1);
                    }
                }
                proof {
                    // one unfolding of draw_row at the column just handled
                    let c = col as int;
                    let idxs = pixel_index(vx as int, ry, c);
                    let on = sprite_bit(byte, c as u8) && 0 <= idxs < 2048;
                    let hit_here = on && g_iter[idxs] == 1;
                    let g1 = if on {
                        g_iter.update(idxs, g_iter[idxs] ^ 1)
                    } else {
                        g_iter
                    };
                    let rest = draw_row(g1, byte, vx as int, ry, c + 1);
                    assert(draw_row(g_iter, byte, vx as int, ry, c) == (rest.0, hit_here || rest.1));
                }
                col = col + 1;
            }
            hit = hit || row_hit;
            row = row + 1;
        }
        self.v.set(15, if hit { 1 } else { 0 });
        self.draw_flag = true;
        self.pc = self.pc + 2;
        Ok(())
    }
}

} // verus!
