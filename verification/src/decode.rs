//! The instruction decoder: classification of a 16-bit opcode by its
//! leading nibble (and, for the 0x0, 0x8, 0xE and 0xF families, by its
//! trailing nibble or byte) into one of the instruction variants, with the
//! operand fields extracted. An opcode matching no pattern decodes to
//! nothing, which the engine reports as a fatal `UnknownOpcode`.

use vstd::prelude::*;

verus! {

/// One decoded instruction. `x` and `y` are register indices (below 16),
/// `nn` an immediate byte, `nnn` a 12-bit address, `n` a nibble.
#[derive(Clone, Copy, Debug, PartialEq, Eq, Structural)]
pub enum Instr {
    /// 00E0: clear the pixel surface.
    Cls,
    /// 00EE: return from a subroutine.
    Ret,
    /// 1NNN: jump to NNN.
    Jump { nnn: u16 },
    /// 2NNN: call the subroutine at NNN.
    Call { nnn: u16 },
    /// 3XNN: skip the next instruction if VX == NN.
    SkipEqImm { x: u8, nn: u8 },
    /// 4XNN: skip the next instruction if VX != NN.
    SkipNeImm { x: u8, nn: u8 },
    /// 5XY0: skip the next instruction if VX == VY.
    SkipEqReg { x: u8, y: u8 },
    /// 6XNN: VX = NN.
    SetImm { x: u8, nn: u8 },
    /// 7XNN: VX = VX + NN, wrapping, no flag.
    AddImm { x: u8, nn: u8 },
    /// 8XY0: VX = VY.
    MovReg { x: u8, y: u8 },
    /// 8XY1: VX |= VY.
    OrReg { x: u8, y: u8 },
    /// 8XY2: VX &= VY.
    AndReg { x: u8, y: u8 },
    /// 8XY3: VX ^= VY.
    XorReg { x: u8, y: u8 },
    /// 8XY4: VX += VY; VF = carry.
    AddReg { x: u8, y: u8 },
    /// 8XY5: VX -= VY; VF = 0 on borrow, else 1.
    SubReg { x: u8, y: u8 },
    /// 8XY6: VF = VX & 1; VX >>= 1.
    ShrReg { x: u8 },
    /// 8XY7: VX = VY - VX; VF = 0 on borrow, else 1.
    SubnReg { x: u8, y: u8 },
    /// 8XYE: VF = high bit of VX; VX <<= 1, wrapping.
    ShlReg { x: u8 },
    /// 9XY0: skip the next instruction if VX != VY.
    SkipNeReg { x: u8, y: u8 },
    /// ANNN: I = NNN.
    SetIndex { nnn: u16 },
    /// BNNN: jump to NNN + V0.
    JumpV0 { nnn: u16 },
    /// CXNN: VX = random byte & NN.
    RandMask { x: u8, nn: u8 },
    /// DXYN: draw the N-row sprite at memory I at position (VX, VY) by XOR;
    /// VF = 1 on any collision.
    Draw { x: u8, y: u8, n: u8 },
    /// EX9E: skip the next instruction if key VX is pressed.
    SkipKey { x: u8 },
    /// EXA1: skip the next instruction if key VX is not pressed.
    SkipNoKey { x: u8 },
    /// FX07: VX = delay timer.
    GetDelay { x: u8 },
    /// FX0A: block until a key is pressed; VX = the highest pressed key.
    WaitKey { x: u8 },
    /// FX15: delay timer = VX.
    SetDelay { x: u8 },
    /// FX18: sound timer = VX.
    SetSound { x: u8 },
    /// FX1E: VF = 1 if I + VX exceeds 0xFFF, else 0; I += VX.
    AddIndex { x: u8 },
    /// FX29: I = VX * 5, the font glyph address.
    FontChar { x: u8 },
    /// FX33: memory[I..I+3] = the decimal digits of VX.
    Bcd { x: u8 },
    /// FX55: memory[I..I+X+1] = V0..VX; I += X + 1.
    DumpRegs { x: u8 },
    /// FX65: V0..VX = memory[I..I+X+1]; I += X + 1.
    LoadRegs { x: u8 },
}

/// The X field of an opcode: bits 8..12, a register index.
pub open spec fn op_x(op: u16) -> u8 {
    (((op / 0x100) % 0x10) as u8)
}

/// The Y field of an opcode: bits 4..8, a register index.
pub open spec fn op_y(op: u16) -> u8 {
    (((op / 0x10) % 0x10) as u8)
}

/// The trailing nibble of an opcode: bits 0..4.
pub open spec fn op_n(op: u16) -> u8 {
    ((op % 0x10) as u8)
}

/// The immediate byte of an opcode: bits 0..8.
pub open spec fn op_nn(op: u16) -> u8 {
    ((op % 0x100) as u8)
}

/// The address field of an opcode: bits 0..12.
pub open spec fn op_nnn(op: u16) -> u16 {
    op % 0x1000
}

/// Classification of an opcode, following the opcode table: by the leading
/// nibble, and within the 0x0, 0x8, 0xE and 0xF families by the trailing
/// nibble or byte. `None` is the unknown-opcode case.
pub open spec fn decode_spec(op: u16) -> Option<Instr> {
    let fam = op / 0x1000;
    if fam == 0x0 {
        if op_n(op) == 0x0 {
            Some(Instr::Cls)
        } else if op_n(op) == 0xE {
            Some(Instr::Ret)
        } else {
            None
        }
    } else if fam == 0x1 {
        Some(Instr::Jump { nnn: op_nnn(op) })
    } else if fam == 0x2 {
        Some(Instr::Call { nnn: op_nnn(op) })
    } else if fam == 0x3 {
        Some(Instr::SkipEqImm { x: op_x(op), nn: op_nn(op) })
    } else if fam == 0x4 {
        Some(Instr::SkipNeImm { x: op_x(op), nn: op_nn(op) })
    } else if fam == 0x5 {
        Some(Instr::SkipEqReg { x: op_x(op), y: op_y(op) })
    } else if fam == 0x6 {
        Some(Instr::SetImm { x: op_x(op), nn: op_nn(op) })
    } else if fam == 0x7 {
        Some(Instr::AddImm { x: op_x(op), nn: op_nn(op) })
    } else if fam == 0x8 {
        if op_n(op) == 0x0 {
            Some(Instr::MovReg { x: op_x(op), y: op_y(op) })
        } else if op_n(op) == 0x1 {
            Some(Instr::OrReg { x: op_x(op), y: op_y(op) })
        } else if op_n(op) == 0x2 {
            Some(Instr::AndReg { x: op_x(op), y: op_y(op) })
        } else if op_n(op) == 0x3 {
            Some(Instr::XorReg { x: op_x(op), y: op_y(op) })
        } else if op_n(op) == 0x4 {
            Some(Instr::AddReg { x: op_x(op), y: op_y(op) })
        } else if op_n(op) == 0x5 {
            Some(Instr::SubReg { x: op_x(op), y: op_y(op) })
        } else if op_n(op) == 0x6 {
            Some(Instr::ShrReg { x: op_x(op) })
        } else if op_n(op) == 0x7 {
            Some(Instr::SubnReg { x: op_x(op), y: op_y(op) })
        } else if op_n(op) == 0xE {
            Some(Instr::ShlReg { x: op_x(op) })
        } else {
            None
        }
    } else if fam == 0x9 {
        Some(Instr::SkipNeReg { x: op_x(op), y: op_y(op) })
    } else if fam == 0xA {
        Some(Instr::SetIndex { nnn: op_nnn(op) })
    } else if fam == 0xB {
        Some(Instr::JumpV0 { nnn: op_nnn(op) })
    } else if fam == 0xC {
        Some(Instr::RandMask { x: op_x(op), nn: op_nn(op) })
    } else if fam == 0xD {
        Some(Instr::Draw { x: op_x(op), y: op_y(op), n: op_n(op) })
    } else if fam == 0xE {
        if op_nn(op) == 0x9E {
            Some(Instr::SkipKey { x: op_x(op) })
        } else if op_nn(op) == 0xA1 {
            Some(Instr::SkipNoKey { x: op_x(op) })
        } else {
            None
        }
    } else {
        if op_nn(op) == 0x07 {
            Some(Instr::GetDelay { x: op_x(op) })
        } else if op_nn(op) == 0x0A {
            Some(Instr::WaitKey { x: op_x(op) })
        } else if op_nn(op) == 0x15 {
            Some(Instr::SetDelay { x: op_x(op) })
        } else if op_nn(op) == 0x18 {
            Some(Instr::SetSound { x: op_x(op) })
        } else if op_nn(op) == 0x1E {
            Some(Instr::AddIndex { x: op_x(op) })
        } else if op_nn(op) == 0x29 {
            Some(Instr::FontChar { x: op_x(op) })
        } else if op_nn(op) == 0x33 {
            Some(Instr::Bcd { x: op_x(op) })
        } else if op_nn(op) == 0x55 {
            Some(Instr::DumpRegs { x: op_x(op) })
        } else if op_nn(op) == 0x65 {
            Some(Instr::LoadRegs { x: op_x(op) })
        } else {
            None
        }
    }
}

impl Instr {
    /// Every register index below 16, every nibble below 16, every address
    /// below 0x1000: what decoding guarantees of the operand fields.
    pub open spec fn wf(self) -> bool {
        match self {
            Instr::Cls => true,
            Instr::Ret => true,
            Instr::Jump { nnn } => nnn < 0x1000,
            Instr::Call { nnn } => nnn < 0x1000,
            Instr::SkipEqImm { x, nn } => x < 16,
            Instr::SkipNeImm { x, nn } => x < 16,
            Instr::SkipEqReg { x, y } => x < 16 && y < 16,
            Instr::SetImm { x, nn } => x < 16,
            Instr::AddImm { x, nn } => x < 16,
            Instr::MovReg { x, y } => x < 16 && y < 16,
            Instr::OrReg { x, y } => x < 16 && y < 16,
            Instr::AndReg { x, y } => x < 16 && y < 16,
            Instr::XorReg { x, y } => x < 16 && y < 16,
            Instr::AddReg { x, y } => x < 16 && y < 16,
            Instr::SubReg { x, y } => x < 16 && y < 16,
            Instr::ShrReg { x } => x < 16,
            Instr::SubnReg { x, y } => x < 16 && y < 16,
            Instr::ShlReg { x } => x < 16,
            Instr::SkipNeReg { x, y } => x < 16 && y < 16,
            Instr::SetIndex { nnn } => nnn < 0x1000,
            Instr::JumpV0 { nnn } => nnn < 0x1000,
            Instr::RandMask { x, nn } => x < 16,
            Instr::Draw { x, y, n } => x < 16 && y < 16 && n < 16,
            Instr::SkipKey { x } => x < 16,
            Instr::SkipNoKey { x } => x < 16,
            Instr::GetDelay { x } => x < 16,
            Instr::WaitKey { x } => x < 16,
            Instr::SetDelay { x } => x < 16,
            Instr::SetSound { x } => x < 16,
            Instr::AddIndex { x } => x < 16,
            Instr::FontChar { x } => x < 16,
            Instr::Bcd { x } => x < 16,
            Instr::DumpRegs { x } => x < 16,
            Instr::LoadRegs { x } => x < 16,
        }
    }
}

/// Decodes one opcode, exactly as `decode_spec` classifies it; a decoded
/// instruction always has well-formed operand fields.
pub fn decode(op: u16) -> (r: Option<Instr>)
    ensures
        r == decode_spec(op),
        r matches Some(instr) ==> instr.wf(),
{
    let fam: u16 = op / 0x1000;
    let x: u8 = ((op / 0x100) % 0x10) as u8;
    let y: u8 = ((op / 0x10) % 0x10) as u8;
    let n: u8 = (op % 0x10) as u8;
    let nn: u8 = (op % 0x100) as u8;
    let nnn: u16 = op % 0x1000;
    match fam {
        0x0 => {
            match n {
                0x0 => Some(Instr::Cls),
                0xE => Some(Instr::Ret),
                _ => None,
            }
        },
        0x1 => Some(Instr::Jump { nnn }),
        0x2 => Some(Instr::Call { nnn }),
        0x3 => Some(Instr::SkipEqImm { x, nn }),
        0x4 => Some(Instr::SkipNeImm { x, nn }),
        0x5 => Some(Instr::SkipEqReg { x, y }),
        0x6 => Some(Instr::SetImm { x, nn }),
        0x7 => Some(Instr::AddImm { x, nn }),
        0x8 => {
            match n {
                0x0 => Some(Instr::MovReg { x, y }),
                0x1 => Some(Instr::OrReg { x, y }),
                0x2 => Some(Instr::AndReg { x, y }),
                0x3 => Some(Instr::XorReg { x, y }),
                0x4 => Some(Instr::AddReg { x, y }),
                0x5 => Some(Instr::SubReg { x, y }),
                0x6 => Some(Instr::ShrReg { x }),
                0x7 => Some(Instr::SubnReg { x, y }),
                0xE => Some(Instr::ShlReg { x }),
                _ => None,
            }
        },
        0x9 => Some(Instr::SkipNeReg { x, y }),
        0xA => Some(Instr::SetIndex { nnn }),
        0xB => Some(Instr::JumpV0 { nnn }),
        0xC => Some(Instr::RandMask { x, nn }),
        0xD => Some(Instr::Draw { x, y, n }),
        0xE => {
            match nn {
                0x9E => Some(Instr::SkipKey { x }),
                0xA1 => Some(Instr::SkipNoKey { x }),
                _ => None,
            }
        },
        _ => {
            match nn {
                0x07 => Some(Instr::GetDelay { x }),
                0x0A => Some(Instr::WaitKey { x }),
                0x15 => Some(Instr::SetDelay { x }),
                0x18 => Some(Instr::SetSound { x }),
                0x1E => Some(Instr::AddIndex { x }),
                0x29 => Some(Instr::FontChar { x }),
                0x33 => Some(Instr::Bcd { x }),
                0x55 => Some(Instr::DumpRegs { x }),
                0x65 => Some(Instr::LoadRegs { x }),
                _ => None,
            }
        },
    }
}

} // verus!
