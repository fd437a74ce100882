//! The fetch-decode-execute engine: the complete instruction semantics as
//! a function on the machine model, the verified step operation
//! (`emulate_cycle`), and the timer tick that ends every step. The one
//! source of nondeterminism, the random byte of CXNN, enters through a
//! trusted wrapper; the semantics are verified for every value it may
//! return.

use vstd::prelude::*;
use crate::machine::{Chip8, Fault, MachineModel};
use crate::decode::{decode, decode_spec, Instr};
use crate::draw::draw_rows;

verus! {

/// An all-zero pixel surface.
pub open spec fn blank_gfx() -> Seq<u8> {
    Seq::new(2048, |j: int| 0u8)
}

/// Both timers decremented by one, floored at zero.
pub open spec fn tick_model(m: MachineModel) -> MachineModel {
    MachineModel {
        delay: if m.delay > 0 { (m.delay - 1) as u8 } else { 0 },
        sound: if m.sound > 0 { (m.sound - 1) as u8 } else { 0 },
        ..m
    }
}

/// The program counter advanced past the current instruction.
pub open spec fn adv2(m: MachineModel) -> u16 {
    (m.pc + 2) as u16
}

/// The program counter after a conditional skip: past the next instruction
/// when the condition holds, past the current one otherwise.
pub open spec fn skip_pc(m: MachineModel, cond: bool) -> u16 {
    if cond {
        (m.pc + 4) as u16
    } else {
        (m.pc + 2) as u16
    }
}

/// Whether any of the sixteen keys is pressed.
pub open spec fn has_pressed_key(key: Seq<u8>) -> bool {
    exists|k: int| 0 <= k < 16 && key[k] != 0
}

/// The highest pressed key index below `k`, or -1 when none is pressed
/// there: what a scan of the key matrix in ascending order leaves behind.
pub open spec fn highest_pressed_below(key: Seq<u8>, k: int) -> int
    decreases k,
{
    if k <= 0 {
        -1
    } else if key[k - 1] != 0 {
        k - 1
    } else {
        highest_pressed_below(key, k - 1)
    }
}

/// The scan result is the maximal pressed index, and it exists exactly
/// when some key below `k` is pressed.
pub proof fn lemma_highest_pressed(key: Seq<u8>, k: int)
    requires
        0 <= k <= key.len(),
    ensures
        (highest_pressed_below(key, k) >= 0) == (exists|j: int| 0 <= j < k && key[j] != 0),
        highest_pressed_below(key, k) >= 0 ==> {
            let h = highest_pressed_below(key, k);
            &&& 0 <= h < k
            &&& key[h] != 0
            &&& forall|j: int| h < j < k ==> key[j] == 0
        },
    decreases k,
{
    if k > 0 {
        lemma_highest_pressed(key, k - 1);
        if key[k - 1] != 0 {
            assert(key[k - 1] != 0 && 0 <= k - 1 < k);
        }
    }
}

/// Whether the instruction blocks on this state: FX0A with no key pressed
/// holds the program counter still, so it re-executes on the next step.
pub open spec fn blocks(m: MachineModel, instr: Instr) -> bool {
    (instr matches Instr::WaitKey { .. }) && !has_pressed_key(m.key)
}

/// Memory after FX55: registers V0..VX written at I..I+X, the rest as it was.
pub open spec fn dumped_memory(m: MachineModel, x: u8) -> Seq<u8> {
    Seq::new(4096, |j: int| if m.i <= j <= m.i + x { m.v[j - m.i] } else { m.memory[j] })
}

/// Registers after FX65: V0..VX read from memory at I..I+X, the rest as they were.
pub open spec fn loaded_regs(m: MachineModel, x: u8) -> Seq<u8> {
    Seq::new(16, |j: int| if 0 <= j <= x { m.memory[m.i + j] } else { m.v[j] })
}

/// The complete instruction semantics: the machine after executing one
/// decoded instruction on `m`, or the fault that halts emulation. `rand`
/// is the byte the randomness source supplied; only CXNN reads it. The
/// blocked FX0A case returns the machine unchanged (the step's timer tick
/// is applied on top of this, as after every instruction). A fault leaves
/// the machine exactly as it was.
pub open spec fn exec_model(m: MachineModel, instr: Instr, rand: u8) -> Result<MachineModel, Fault> {
    match instr {
        Instr::Cls => Ok(MachineModel { gfx: blank_gfx(), draw: true, pc: adv2(m), ..m }),
        Instr::Ret => {
            if m.sp == 0 {
                Err(Fault::StackUnderflow)
            } else {
                Ok(MachineModel {
                    sp: (m.sp - 1) as u16,
                    pc: (m.stack[m.sp - 1] + 2) as u16,
                    ..m
                })
            }
        },
        Instr::Jump { nnn } => Ok(MachineModel { pc: nnn, ..m }),
        Instr::Call { nnn } => {
            if m.sp >= 16 {
                Err(Fault::StackOverflow)
            } else {
                Ok(MachineModel {
                    stack: m.stack.update(m.sp as int, m.pc),
                    sp: (m.sp + 1) as u16,
                    pc: nnn,
                    ..m
                })
            }
        },
        Instr::SkipEqImm { x, nn } => Ok(MachineModel {
            pc: skip_pc(m, m.v[x as int] == nn),
            ..m
        }),
        Instr::SkipNeImm { x, nn } => Ok(MachineModel {
            pc: skip_pc(m, m.v[x as int] != nn),
            ..m
        }),
        Instr::SkipEqReg { x, y } => Ok(MachineModel {
            pc: skip_pc(m, m.v[x as int] == m.v[y as int]),
            ..m
        }),
        Instr::SetImm { x, nn } => Ok(MachineModel {
            v: m.v.update(x as int, nn),
            pc: adv2(m),
            ..m
        }),
        Instr::AddImm { x, nn } => Ok(MachineModel {
            v: m.v.update(x as int, ((m.v[x as int] + nn) % 256) as u8),
            pc: adv2(m),
            ..m
        }),
        Instr::MovReg { x, y } => Ok(MachineModel {
            v: m.v.update(x as int, m.v[y as int]),
            pc: adv2(m),
            ..m
        }),
        Instr::OrReg { x, y } => Ok(MachineModel {
            v: m.v.update(x as int, m.v[x as int] | m.v[y as int]),
            pc: adv2(m),
            ..m
        }),
        Instr::AndReg { x, y } => Ok(MachineModel {
            v: m.v.update(x as int, m.v[x as int] & m.v[y as int]),
            pc: adv2(m),
            ..m
        }),
        Instr::XorReg { x, y } => Ok(MachineModel {
            v: m.v.update(x as int, m.v[x as int] ^ m.v[y as int]),
            pc: adv2(m),
            ..m
        }),
        Instr::AddReg { x, y } => {
            let s = m.v[x as int] + m.v[y as int];
            Ok(MachineModel {
                v: m.v.update(15, if s > 255 { 1u8 } else { 0u8 }).update(x as int, (s % 256) as u8),
                pc: adv2(m),
                ..m
            })
        },
        Instr::SubReg { x, y } => {
            let a = m.v[x as int];
            let b = m.v[y as int];
            Ok(MachineModel {
                v: m.v.update(15, if a >= b { 1u8 } else { 0u8 })
                    .update(x as int, ((a + 256 - b) % 256) as u8),
                pc: adv2(m),
                ..m
            })
        },
        Instr::ShrReg { x } => {
            let v1 = m.v.update(15, m.v[x as int] & 1);
            Ok(MachineModel {
                v: v1.update(x as int, v1[x as int] >> 1u8),
                pc: adv2(m),
                ..m
            })
        },
        Instr::SubnReg { x, y } => {
            let a = m.v[x as int];
            let b = m.v[y as int];
            Ok(MachineModel {
                v: m.v.update(15, if b >= a { 1u8 } else { 0u8 })
                    .update(x as int, ((b + 256 - a) % 256) as u8),
                pc: adv2(m),
                ..m
            })
        },
        Instr::ShlReg { x } => {
            let v1 = m.v.update(15, (m.v[x as int] >> 7u8) & 1);
            Ok(MachineModel {
                v: v1.update(x as int, v1[x as int] << 1u8),
                pc: adv2(m),
                ..m
            })
        },
        Instr::SkipNeReg { x, y } => Ok(MachineModel {
            pc: skip_pc(m, m.v[x as int] != m.v[y as int]),
            ..m
        }),
        Instr::SetIndex { nnn } => Ok(MachineModel { i: nnn, pc: adv2(m), ..m }),
        Instr::JumpV0 { nnn } => Ok(MachineModel { pc: (nnn + m.v[0]) as u16, ..m }),
        Instr::RandMask { x, nn } => Ok(MachineModel {
            v: m.v.update(x as int, rand & nn),
            pc: adv2(m),
            ..m
        }),
        Instr::Draw { x, y, n } => {
            if n > 0 && m.i + n > 4096 {
                Err(Fault::MemOutOfBounds)
            } else {
                let dr = draw_rows(
                    m.gfx,
                    m.memory,
                    m.i as int,
                    m.v[x as int] as int,
                    m.v[y as int] as int,
                    0,
                    n as int,
                );
                Ok(MachineModel {
                    gfx: dr.0,
                    v: m.v.update(15, if dr.1 { 1u8 } else { 0u8 }),
                    draw: true,
                    pc: adv2(m),
                    ..m
                })
            }
        },
        Instr::SkipKey { x } => {
            let kidx = m.v[x as int];
            if kidx >= 16 {
                Err(Fault::KeyOutOfBounds)
            } else {
                Ok(MachineModel { pc: skip_pc(m, m.key[kidx as int] != 0), ..m })
            }
        },
        Instr::SkipNoKey { x } => {
            let kidx = m.v[x as int];
            if kidx >= 16 {
                Err(Fault::KeyOutOfBounds)
            } else {
                Ok(MachineModel { pc: skip_pc(m, m.key[kidx as int] == 0), ..m })
            }
        },
        Instr::GetDelay { x } => Ok(MachineModel {
            v: m.v.update(x as int, m.delay),
            pc: adv2(m),
            ..m
        }),
        Instr::WaitKey { x } => {
            if has_pressed_key(m.key) {
                Ok(MachineModel {
                    v: m.v.update(x as int, highest_pressed_below(m.key, 16) as u8),
                    pc: adv2(m),
                    ..m
                })
            } else {
                Ok(m)
            }
        },
        Instr::SetDelay { x } => Ok(MachineModel { delay: m.v[x as int], pc: adv2(m), ..m }),
        Instr::SetSound { x } => Ok(MachineModel { sound: m.v[x as int], pc: adv2(m), ..m }),
        Instr::AddIndex { x } => {
            let s = m.i + m.v[x as int];
            Ok(MachineModel {
                v: m.v.update(15, if s > 0xFFF { 1u8 } else { 0u8 }),
                i: (s % 0x10000) as u16,
                pc: adv2(m),
                ..m
            })
        },
        Instr::FontChar { x } => Ok(MachineModel {
            i: (m.v[x as int] * 5) as u16,
            pc: adv2(m),
            ..m
        }),
        Instr::Bcd { x } => {
            if m.i + 2 > 4095 {
                Err(Fault::MemOutOfBounds)
            } else {
                let d = m.v[x as int];
                Ok(MachineModel {
                    memory: m.memory.update(m.i as int, (d / 100) as u8)
                        .update(m.i as int + 1, ((d / 10) % 10) as u8)
                        .update(m.i as int + 2, (d % 10) as u8),
                    pc: adv2(m),
                    ..m
                })
            }
        },
        Instr::DumpRegs { x } => {
            if m.i + x > 4095 {
                Err(Fault::MemOutOfBounds)
            } else {
                Ok(MachineModel {
                    memory: dumped_memory(m, x),
                    i: (m.i + x + 1) as u16,
                    pc: adv2(m),
                    ..m
                })
            }
        },
        Instr::LoadRegs { x } => {
            if m.i + x > 4095 {
                Err(Fault::MemOutOfBounds)
            } else {
                Ok(MachineModel {
                    v: loaded_regs(m, x),
                    i: (m.i + x + 1) as u16,
                    pc: adv2(m),
                    ..m
                })
            }
        },
    }
}

/// The opcode at the program counter: two consecutive memory bytes,
/// big-endian.
pub open spec fn fetch_op(m: MachineModel) -> u16 {
    (m.memory[m.pc as int] * 256 + m.memory[m.pc as int + 1]) as u16
}

/// One whole engine step on the model: fetch, decode, execute, then tick
/// the timers. The tick runs once on every successful step — a blocked
/// FX0A holds the program counter still, but its step decrements the
/// timers like any other. A fault leaves the machine exactly as it was.
pub open spec fn cycle_model(m: MachineModel, rand: u8) -> Result<MachineModel, Fault> {
    if m.pc > 4094 {
        Err(Fault::PcOutOfBounds)
    } else {
        match decode_spec(fetch_op(m)) {
            Option::None => Err(Fault::UnknownOpcode(fetch_op(m))),
            Option::Some(instr) => match exec_model(m, instr, rand) {
                Err(f) => Err(f),
                Ok(mm) => Ok(tick_model(mm)),
            },
        }
    }
}

/// How one call of `emulate_cycle` relates the machine before and after:
/// the step succeeded and left the machine as `cycle_model` says, or it
/// reported the fault that `cycle_model` names and changed nothing.
pub open spec fn cycle_rel(pre: MachineModel, post: MachineModel, rand: u8, r: Result<(), Fault>) -> bool {
    match cycle_model(pre, rand) {
        Ok(mm) => r == Ok::<(), Fault>(()) && post == mm,
        Err(f) => r == Err::<(), Fault>(f) && post == pre,
    }
}

/// Relies on rand::random: one byte drawn from the thread-local generator,
/// uniformly distributed. Any 8-bit value may come back, so nothing is
/// promised of the result.
#[verifier::external_body]
fn random_byte() -> u8 {
    rand::random()
}

impl Chip8 {
    /// Decrements the delay and sound timers toward zero.
    fn tick_timers(&mut self)
        ensures
            final(self)@ == tick_model(old(self)@),
    {
        if self.delay_timer > 0 {
            self.delay_timer = self.delay_timer - 1;
        }
        if self.sound_timer > 0 {
            self.sound_timer = self.sound_timer - 1;
        }
    }

    /// The FX0A semantics: scans the sixteen keys in ascending order; with
    /// none pressed the machine is left untouched and `false` comes back
    /// (the instruction re-executes next step); otherwise VX receives the
    /// highest pressed key index and the program counter advances.
    #[verifier::loop_isolation(false)]
    fn exec_wait(&mut self, x: u8) -> (advanced: bool)
        requires
            old(self)@.wf(),
            x < 16,
            old(self).pc <= 4094,
        ensures
            final(self)@.wf(),
            advanced == has_pressed_key(old(self)@.key),
            has_pressed_key(old(self)@.key) ==> final(self)@ == (MachineModel {
                v: old(self)@.v.update(x as int, highest_pressed_below(old(self)@.key, 16) as u8),
                pc: (old(self)@.pc + 2) as u16,
                ..old(self)@
            }),
            !has_pressed_key(old(self)@.key) ==> *final(self) == *old(self),
    {
        let mut found: bool = false;
        let mut best: u8 = 0;
        let mut k: usize = 0;
        while k < 16
            invariant
                k <= 16,
                found == (highest_pressed_below(self.key@, k as int) >= 0),
                found ==> best as int == highest_pressed_below(self.key@, k as int),
            decreases 16 - k,
        {
            if self.key[k] != 0 {
                found = true;
                best = k as u8;
            }
            k = k + 1;
        }
        proof {
            lemma_highest_pressed(self.key@, 16);
        }
        if found {
            self.v.set(x as usize, best);
            self.pc = self.pc + 2;
            true
        } else {
            false
        }
    }

    /// The FX55 semantics: copies V0..VX into memory at I..I+X and then
    /// moves I past the block; a block ending beyond memory is a fault
    /// that leaves the machine untouched.
    #[verifier::loop_isolation(false)]
    fn exec_dump(&mut self, x: u8) -> (r: Result<(), Fault>)
        requires
            old(self)@.wf(),
            x < 16,
            old(self).pc <= 4094,
        ensures
            final(self)@.wf(),
            old(self)@.i + x > 4095 ==> r == Err::<(), Fault>(Fault::MemOutOfBounds)
                && *final(self) == *old(self),
            old(self)@.i + x <= 4095 ==> r == Ok::<(), Fault>(()) && final(self)@
                == (MachineModel {
                memory: dumped_memory(old(self)@, x),
                i: (old(self)@.i + x + 1) as u16,
                pc: (old(self)@.pc + 2) as u16,
                ..old(self)@
            }),
    {
        if self.i > 4095 - x as u16 {
            return Err(Fault::MemOutOfBounds);
        }
        let iu = self.i as usize;
        let mut k: usize = 0;
        while k < x as usize + 1
            invariant
                k <= x as int + 1,
                self.memory@.len() == 4096,
                forall|j: int| 0 <= j < 4096 && !(iu <= j < iu + k) ==> self.memory@[j]
                    == old(self)@.memory[j],
                forall|j: int| iu <= j < iu + k ==> self.memory@[j] == old(self)@.v[j - iu],
                self.v == old(self).v,
                self.i == old(self).i,
                self.pc == old(self).pc,
                self.stack == old(self).stack,
                self.sp == old(self).sp,
                self.delay_timer == old(self).delay_timer,
                self.sound_timer == old(self).sound_timer,
                self.gfx == old(self).gfx,
                self.key == old(self).key,
                self.draw_flag == old(self).draw_flag,
            decreases x as int + 1 - k,
        {
            let b = self.v[k];
            self.memory.set(iu + k, b);
            k = k + 1;
        }
        self.i = self.i + x as u16 + 1;
        self.pc = self.pc + 2;
        proof {
            assert(self.memory@ =~= dumped_memory(old(self)@, x));
        }
        Ok(())
    }

    /// The FX65 semantics: fills V0..VX from memory at I..I+X and then
    /// moves I past the block; a block ending beyond memory is a fault
    /// that leaves the machine untouched.
    #[verifier::loop_isolation(false)]
    fn exec_load(&mut self, x: u8) -> (r: Result<(), Fault>)
        requires
            old(self)@.wf(),
            x < 16,
            old(self).pc <= 4094,
        ensures
            final(self)@.wf(),
            old(self)@.i + x > 4095 ==> r == Err::<(), Fault>(Fault::MemOutOfBounds)
                && *final(self) == *old(self),
            old(self)@.i + x <= 4095 ==> r == Ok::<(), Fault>(()) && final(self)@
                == (MachineModel {
                v: loaded_regs(old(self)@, x),
                i: (old(self)@.i + x + 1) as u16,
                pc: (old(self)@.pc + 2) as u16,
                ..old(self)@
            }),
    {
        if self.i > 4095 - x as u16 {
            return Err(Fault::MemOutOfBounds);
        }
        let iu = self.i as usize;
        let mut k: usize = 0;
        while k < x as usize + 1
            invariant
                k <= x as int + 1,
                self.v@.len() == 16,
                forall|j: int| 0 <= j < 16 && !(j < k) ==> self.v@[j] == old(self)@.v[j],
                forall|j: int| 0 <= j < k ==> self.v@[j] == old(self)@.memory[iu + j],
                self.memory == old(self).memory,
                self.i == old(self).i,
                self.pc == old(self).pc,
                self.stack == old(self).stack,
                self.sp == old(self).sp,
                self.delay_timer == old(self).delay_timer,
                self.sound_timer == old(self).sound_timer,
                self.gfx == old(self).gfx,
                self.key == old(self).key,
                self.draw_flag == old(self).draw_flag,
            decreases x as int + 1 - k,
        {
            let b = self.memory[iu + k];
            self.v.set(k, b);
            k = k + 1;
        }
        self.i = self.i + x as u16 + 1;
        self.pc = self.pc + 2;
        proof {
            assert(self.v@ =~= loaded_regs(old(self)@, x));
        }
        Ok(())
    }

    /// Executes one decoded instruction with `rand` as the byte the
    /// randomness source supplied: the machine ends exactly as
    /// `exec_model` says, a fault changes nothing, and the returned flag
    /// tells whether the instruction completed (`false` only for a
    /// blocked FX0A). The caller must have fetched the instruction, so
    /// the program counter still addresses it.
    pub fn execute(&mut self, instr: Instr, rand: u8) -> (r: Result<bool, Fault>)
        requires
            old(self)@.wf(),
            instr.wf(),
            old(self).pc <= 4094,
        ensures
            final(self)@.wf(),
            match exec_model(old(self)@, instr, rand) {
                Ok(mm) => r == Ok::<bool, Fault>(!blocks(old(self)@, instr)) && final(self)@ == mm,
                Err(f) => r == Err::<bool, Fault>(f) && *final(self) == *old(self),
            },
    {
        match instr {
            Instr::Cls => {
                self.gfx = crate::machine::zero_bytes(2048);
                self.draw_flag = true;
                self.pc = self.pc + 2;
                proof {
                    assert(self.gfx@ =~= blank_gfx());
                }
                Ok(true)
            },
            Instr::Ret => {
                if self.sp == 0 {
                    return Err(Fault::StackUnderflow);
                }
                self.sp = self.sp - 1;
                let ret = self.stack[self.sp as usize];
                self.pc = ret + 2;
                Ok(true)
            },
            Instr::Jump { nnn } => {
                self.pc = nnn;
                Ok(true)
            },
            Instr::Call { nnn } => {
                if self.sp >= 16 {
                    return Err(Fault::StackOverflow);
                }
                self.stack.set(self.sp as usize, self.pc);
                self.sp = self.sp + 1;
                self.pc = nnn;
                Ok(true)
            },
            Instr::SkipEqImm { x, nn } => {
                if self.v[x as usize] == nn {
                    self.pc = self.pc + 4;
                } else {
                    self.pc = self.pc + 2;
                }
                Ok(true)
            },
            Instr::SkipNeImm { x, nn } => {
                if self.v[x as usize] != nn {
                    self.pc = self.pc + 4;
                } else {
                    self.pc = self.pc + 2;
                }
                Ok(true)
            },
            Instr::SkipEqReg { x, y } => {
                if self.v[x as usize] == self.v[y as usize] {
                    self.pc = self.pc + 4;
                } else {
                    self.pc = self.pc + 2;
                }
                Ok(true)
            },
            Instr::SetImm { x, nn } => {
                self.v.set(x as usize, nn);
                self.pc = self.pc + 2;
                Ok(true)
            },
            Instr::AddImm { x, nn } => {
                let s: u16 = self.v[x as usize] as u16 + nn as u16;
                self.v.set(x as usize, (s % 256) as u8);
                self.pc = self.pc + 2;
                Ok(true)
            },
            Instr::MovReg { x, y } => {
                let b = self.v[y as usize];
                self.v.set(x as usize, b);
                self.pc = self.pc + 2;
                Ok(true)
            },
            Instr::OrReg { x, y } => {
                let b = self.v[x as usize] | self.v[y as usize];
                self.v.set(x as usize, b);
                self.pc = self.pc + 2;
                Ok(true)
            },
            Instr::AndReg { x, y } => {
                let b = self.v[x as usize] & self.v[y as usize];
                self.v.set(x as usize, b);
                self.pc = self.pc + 2;
                Ok(true)
            },
            Instr::XorReg { x, y } => {
                let b = self.v[x as usize] ^ self.v[y as usize];
                self.v.set(x as usize, b);
                self.pc = self.pc + 2;
                Ok(true)
            },
            Instr::AddReg { x, y } => {
                let s: u16 = self.v[x as usize] as u16 + self.v[y as usize] as u16;
                self.v.set(15, if s > 255 { 1 } else { 0 });
                self.v.set(x as usize, (s % 256) as u8);
                self.pc = self.pc + 2;
                Ok(true)
            },
            Instr::SubReg { x, y } => {
                let a = self.v[x as usize];
                let b = self.v[y as usize];
                self.v.set(15, if a >= b { 1 } else { 0 });
                self.v.set(x as usize, ((a as u16 + 256 - b as u16) % 256) as u8);
                self.pc = self.pc + 2;
                Ok(true)
            },
            Instr::ShrReg { x } => {
                let flag = self.v[x as usize] & 1;
                self.v.set(15, flag);
                let val = self.v[x as usize];
                self.v.set(x as usize, val >> 1u8);
                self.pc = self.pc + 2;
                Ok(true)
            },
            Instr::SubnReg { x, y } => {
                let a = self.v[x as usize];
                let b = self.v[y as usize];
                self.v.set(15, if b >= a { 1 } else { 0 });
                self.v.set(x as usize, ((b as u16 + 256 - a as u16) % 256) as u8);
                self.pc = self.pc + 2;
                Ok(true)
            },
            Instr::ShlReg { x } => {
                let flag = (self.v[x as usize] >> 7u8) & 1;
                self.v.set(15, flag);
                let val = self.v[x as usize];
                self.v.set(x as usize, val << 1u8);
                self.pc = self.pc + 2;
                Ok(true)
            },
            Instr::SkipNeReg { x, y } => {
                if self.v[x as usize] != self.v[y as usize] {
                    self.pc = self.pc + 4;
                } else {
                    self.pc = self.pc + 2;
                }
                Ok(true)
            },
            Instr::SetIndex { nnn } => {
                self.i = nnn;
                self.pc = self.pc + 2;
                Ok(true)
            },
            Instr::JumpV0 { nnn } => {
                self.pc = nnn + self.v[0] as u16;
                Ok(true)
            },
            Instr::RandMask { x, nn } => {
                self.v.set(x as usize, rand & nn);
                self.pc = self.pc + 2;
                Ok(true)
            },
            Instr::Draw { x, y, n } => {
                match self.exec_draw(x, y, n) {
                    Ok(()) => Ok(true),
                    Err(f) => Err(f),
                }
            },
            Instr::SkipKey { x } => {
                let kidx = self.v[x as usize];
                if kidx >= 16 {
                    return Err(Fault::KeyOutOfBounds);
                }
                if self.key[kidx as usize] != 0 {
                    self.pc = self.pc + 4;
                } else {
                    self.pc = self.pc + 2;
                }
                Ok(true)
            },
            Instr::SkipNoKey { x } => {
                let kidx = self.v[x as usize];
                if kidx >= 16 {
                    return Err(Fault::KeyOutOfBounds);
                }
                if self.key[kidx as usize] == 0 {
                    self.pc = self.pc + 4;
                } else {
                    self.pc = self.pc + 2;
                }
                Ok(true)
            },
            Instr::GetDelay { x } => {
                let d = self.delay_timer;
                self.v.set(x as usize, d);
                self.pc = self.pc + 2;
                Ok(true)
            },
            Instr::WaitKey { x } => {
                let advanced = self.exec_wait(x);
                Ok(advanced)
            },
            Instr::SetDelay { x } => {
                self.delay_timer = self.v[x as usize];
                self.pc = self.pc + 2;
                Ok(true)
            },
            Instr::SetSound { x } => {
                self.sound_timer = self.v[x as usize];
                self.pc = self.pc + 2;
                Ok(true)
            },
            Instr::AddIndex { x } => {
                let s: u32 = self.i as u32 + self.v[x as usize] as u32;
                self.v.set(15, if s > 0xFFF { 1 } else { 0 });
                self.i = (s % 0x10000) as u16;
                self.pc = self.pc + 2;
                Ok(true)
            },
            Instr::FontChar { x } => {
                self.i = self.v[x as usize] as u16 * 5;
                self.pc = self.pc + 2;
                Ok(true)
            },
            Instr::Bcd { x } => {
                if self.i > 4093 {
                    return Err(Fault::MemOutOfBounds);
                }
                let d = self.v[x as usize];
                let iu = self.i as usize;
                self.memory.set(iu, d / 100);
                self.memory.set(iu + 1, (d / 10) % 10);
                self.memory.set(iu + 2, d % 10);
                self.pc = self.pc + 2;
                Ok(true)
            },
            Instr::DumpRegs { x } => {
                match self.exec_dump(x) {
                    Ok(()) => Ok(true),
                    Err(f) => Err(f),
                }
            },
            Instr::LoadRegs { x } => {
                match self.exec_load(x) {
                    Ok(()) => Ok(true),
                    Err(f) => Err(f),
                }
            },
        }
    }

    /// One engine step: fetches the opcode at the program counter, decodes
    /// it, executes it, and ticks both timers — also on a blocked FX0A,
    /// which holds only the program counter still. There is some byte the
    /// randomness source supplied for which the machine before and after
    /// relate by `cycle_rel`; every instruction but CXNN ignores that
    /// byte. A fault is reported with the machine left exactly as it was.
    pub fn emulate_cycle(&mut self) -> (r: Result<(), Fault>)
        requires
            old(self)@.wf(),
        ensures
            final(self)@.wf(),
            exists|rb: u8| #[trigger] cycle_rel(old(self)@, final(self)@, rb, r),
    {
        if self.pc > 4094 {
            proof {
                assert(cycle_rel(old(self)@, self@, 0u8, Err::<(), Fault>(Fault::PcOutOfBounds)));
            }
            return Err(Fault::PcOutOfBounds);
        }
        let pcu = self.pc as usize;
        let op: u16 = (self.memory[pcu] as u16) * 256 + (self.memory[pcu + 1] as u16);
        proof {
            assert(op == fetch_op(old(self)@));
        }
        let instr = match decode(op) {
            Some(ins) => ins,
            None => {
                proof {
                    assert(cycle_rel(old(self)@, self@, 0u8, Err::<(), Fault>(
                        Fault::UnknownOpcode(op),
                    )));
                }
                return Err(Fault::UnknownOpcode(op));
            },
        };
        let rand: u8 = match instr {
            Instr::RandMask { .. } => random_byte(),
            _ => 0,
        };
        match self.execute(instr, rand) {
            Ok(_) => {
                self.tick_timers();
                proof {
                    assert(cycle_rel(old(self)@, self@, rand, Ok::<(), Fault>(())));
                }
                Ok(())
            },
            Err(f) => {
                proof {
                    assert(cycle_rel(old(self)@, self@, rand, Err::<(), Fault>(f)));
                }
                Err(f)
            },
        }
    }
}

} // verus!
