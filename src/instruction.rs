use vstd::prelude::*;

use crate::fault::Fault;

verus! {

/// One decoded instruction. `x` and `y` name registers `V0` to `VF`,
/// `nn` is an 8-bit immediate and `nnn` a 12-bit address.
#[derive(Clone, Copy, Debug, PartialEq, Eq, Structural)]
pub enum Instruction {
    /// `00E0`: clears the screen.
    ClearScreen,
    /// `00EE`: returns from a subroutine.
    Return,
    /// `1NNN`: jumps to `nnn`.
    Jump { nnn: u16 },
    /// `2NNN`: calls the subroutine at `nnn`.
    Call { nnn: u16 },
    /// `3XNN`: skips the next instruction if `VX == nn`.
    SkipEqImm { x: u8, nn: u8 },
    /// `4XNN`: skips the next instruction if `VX != nn`.
    SkipNeImm { x: u8, nn: u8 },
    /// `5XY0`: skips the next instruction if `VX == VY`.
    SkipEqReg { x: u8, y: u8 },
    /// `6XNN`: `VX = nn`.
    LoadImm { x: u8, nn: u8 },
    /// `7XNN`: `VX = VX + nn`, wrapping, `VF` untouched.
    AddImm { x: u8, nn: u8 },
    /// `8XY0`: `VX = VY`.
    Move { x: u8, y: u8 },
    /// `8XY1`: `VX = VX | VY`.
    Or { x: u8, y: u8 },
    /// `8XY2`: `VX = VX & VY`.
    And { x: u8, y: u8 },
    /// `8XY3`: `VX = VX ^ VY`.
    Xor { x: u8, y: u8 },
    /// `8XY4`: `VX = VX + VY`, then `VF` = carry.
    AddReg { x: u8, y: u8 },
    /// `8XY5`: `VX = VX - VY`, then `VF` = no borrow.
    SubReg { x: u8, y: u8 },
    /// `8XY6`: `VX = VX >> 1`, then `VF` = the bit shifted out.
    ShiftRight { x: u8, y: u8 },
    /// `8XY7`: `VX = VY - VX`, then `VF` = no borrow.
    SubRev { x: u8, y: u8 },
    /// `8XYE`: `VX = VX << 1`, then `VF` = the bit shifted out.
    ShiftLeft { x: u8, y: u8 },
    /// `9XY0`: skips the next instruction if `VX != VY`.
    SkipNeReg { x: u8, y: u8 },
    /// `ANNN`: `I = nnn`.
    LoadIndex { nnn: u16 },
    /// `BNNN`: jumps to `nnn + V0`.
    JumpOffset { nnn: u16 },
    /// `CXNN`: `VX` = a random byte masked with `nn`.
    Random { x: u8, nn: u8 },
    /// `DXYN`: draws the `n`-row sprite at `I` at position (`VX`, `VY`).
    Draw { x: u8, y: u8, n: u8 },
    /// `EX9E`: skips the next instruction if the key `VX` is down.
    SkipKeyDown { x: u8 },
    /// `EXA1`: skips the next instruction if the key `VX` is up.
    SkipKeyUp { x: u8 },
    /// `FX07`: `VX` = delay timer.
    LoadDelay { x: u8 },
    /// `FX0A`: waits for a key press and stores the key in `VX`.
    WaitKey { x: u8 },
    /// `FX15`: delay timer = `VX`.
    SetDelay { x: u8 },
    /// `FX18`: sound timer = `VX`.
    SetSound { x: u8 },
    /// `FX1E`: `I = I + VX`, then `VF` = carry out of 16 bits.
    AddIndex { x: u8 },
    /// `FX29`: `I` = address of the font glyph for `VX`.
    FontGlyph { x: u8 },
    /// `FX33`: stores the decimal digits of `VX` at `I`, `I + 1`, `I + 2`.
    StoreBcd { x: u8 },
    /// `FX55`: stores `V0` to `VX` at `I` onwards.
    StoreRegs { x: u8 },
    /// `FX65`: loads `V0` to `VX` from `I` onwards.
    LoadRegs { x: u8 },
}

/// The four 4-bit fields of an instruction word, most significant first.
pub open spec fn nibble(w: u16, k: int) -> u16 {
    if k == 0 {
        w / 0x1000
    } else if k == 1 {
        (w / 0x100) % 0x10
    } else if k == 2 {
        (w / 0x10) % 0x10
    } else {
        w % 0x10
    }
}

/// What an instruction word means.
pub open spec fn decode_spec(w: u16) -> Result<Instruction, Fault> {
    let op = nibble(w, 0);
    let x = nibble(w, 1) as u8;
    let y = nibble(w, 2) as u8;
    let n = nibble(w, 3);
    let nn = (w % 0x100) as u8;
    let nnn = w % 0x1000;
    if op == 0x0 {
        if w == 0x00E0 {
            Ok(Instruction::ClearScreen)
        } else if w == 0x00EE {
            Ok(Instruction::Return)
        } else {
            Err(Fault::MachineCodeCall(nnn))
        }
    } else if op == 0x1 {
        Ok(Instruction::Jump { nnn })
    } else if op == 0x2 {
        Ok(Instruction::Call { nnn })
    } else if op == 0x3 {
        Ok(Instruction::SkipEqImm { x, nn })
    } else if op == 0x4 {
        Ok(Instruction::SkipNeImm { x, nn })
    } else if op == 0x5 && n == 0x0 {
        Ok(Instruction::SkipEqReg { x, y })
    } else if op == 0x6 {
        Ok(Instruction::LoadImm { x, nn })
    } else if op == 0x7 {
        Ok(Instruction::AddImm { x, nn })
    } else if op == 0x8 && n == 0x0 {
        Ok(Instruction::Move { x, y })
    } else if op == 0x8 && n == 0x1 {
        Ok(Instruction::Or { x, y })
    } else if op == 0x8 && n == 0x2 {
        Ok(Instruction::And { x, y })
    } else if op == 0x8 && n == 0x3 {
        Ok(Instruction::Xor { x, y })
    } else if op == 0x8 && n == 0x4 {
        Ok(Instruction::AddReg { x, y })
    } else if op == 0x8 && n == 0x5 {
        Ok(Instruction::SubReg { x, y })
    } else if op == 0x8 && n == 0x6 {
        Ok(Instruction::ShiftRight { x, y })
    } else if op == 0x8 && n == 0x7 {
        Ok(Instruction::SubRev { x, y })
    } else if op == 0x8 && n == 0xE {
        Ok(Instruction::ShiftLeft { x, y })
    } else if op == 0x9 && n == 0x0 {
        Ok(Instruction::SkipNeReg { x, y })
    } else if op == 0xA {
        Ok(Instruction::LoadIndex { nnn })
    } else if op == 0xB {
        Ok(Instruction::JumpOffset { nnn })
    } else if op == 0xC {
        Ok(Instruction::Random { x, nn })
    } else if op == 0xD {
        Ok(Instruction::Draw { x, y, n: n as u8 })
    } else if op == 0xE && nn == 0x9E {
        Ok(Instruction::SkipKeyDown { x })
    } else if op == 0xE && nn == 0xA1 {
        Ok(Instruction::SkipKeyUp { x })
    } else if op == 0xF && nn == 0x07 {
        Ok(Instruction::LoadDelay { x })
    } else if op == 0xF && nn == 0x0A {
        Ok(Instruction::WaitKey { x })
    } else if op == 0xF && nn == 0x15 {
        Ok(Instruction::SetDelay { x })
    } else if op == 0xF && nn == 0x18 {
        Ok(Instruction::SetSound { x })
    } else if op == 0xF && nn == 0x1E {
        Ok(Instruction::AddIndex { x })
    } else if op == 0xF && nn == 0x29 {
        Ok(Instruction::FontGlyph { x })
    } else if op == 0xF && nn == 0x33 {
        Ok(Instruction::StoreBcd { x })
    } else if op == 0xF && nn == 0x55 {
        Ok(Instruction::StoreRegs { x })
    } else if op == 0xF && nn == 0x65 {
        Ok(Instruction::LoadRegs { x })
    } else {
        Err(Fault::UnknownInstruction(w))
    }
}

impl Instruction {
    /// Every register named is one of `V0` to `VF`, every address has 12 bits,
    /// and a sprite has at most 15 rows.
    pub open spec fn wf(self) -> bool {
        match self {
            Instruction::ClearScreen | Instruction::Return => true,
            Instruction::Jump { nnn } | Instruction::Call { nnn } => nnn < 0x1000,
            Instruction::LoadIndex { nnn } | Instruction::JumpOffset { nnn } => nnn < 0x1000,
            Instruction::SkipEqImm { x, .. } | Instruction::SkipNeImm { x, .. } => x < 16,
            Instruction::LoadImm { x, .. } | Instruction::AddImm { x, .. } => x < 16,
            Instruction::Random { x, .. } => x < 16,
            Instruction::SkipEqReg { x, y } | Instruction::SkipNeReg { x, y } => x < 16 && y < 16,
            Instruction::Move { x, y } | Instruction::Or { x, y } | Instruction::And { x, y }
            | Instruction::Xor { x, y } | Instruction::AddReg { x, y } | Instruction::SubReg { x, y }
            | Instruction::ShiftRight { x, y } | Instruction::SubRev { x, y }
            | Instruction::ShiftLeft { x, y } => x < 16 && y < 16,
            Instruction::Draw { x, y, n } => x < 16 && y < 16 && n < 16,
            Instruction::SkipKeyDown { x } | Instruction::SkipKeyUp { x } | Instruction::LoadDelay { x }
            | Instruction::WaitKey { x } | Instruction::SetDelay { x } | Instruction::SetSound { x }
            | Instruction::AddIndex { x } | Instruction::FontGlyph { x } | Instruction::StoreBcd { x }
            | Instruction::StoreRegs { x } | Instruction::LoadRegs { x } => x < 16,
        }
    }
}

proof fn lemma_fields(w: u16)
    ensures
        (w & 0xF000) >> 12u16 == w / 0x1000,
        (w & 0x0F00) >> 8u16 == (w / 0x100) % 0x10,
        (w & 0x00F0) >> 4u16 == (w / 0x10) % 0x10,
        w & 0x000F == w % 0x10,
        w & 0x00FF == w % 0x100,
        w & 0x0FFF == w % 0x1000,
        w / 0x1000 < 0x10,
{
    assert((w & 0xF000) >> 12u16 == w / 0x1000) by (bit_vector);
    assert((w & 0x0F00) >> 8u16 == (w / 0x100) % 0x10) by (bit_vector);
    assert((w & 0x00F0) >> 4u16 == (w / 0x10) % 0x10) by (bit_vector);
    assert(w & 0x000F == w % 0x10) by (bit_vector);
    assert(w & 0x00FF == w % 0x100) by (bit_vector);
    assert(w & 0x0FFF == w % 0x1000) by (bit_vector);
}

/// Decodes an instruction word. The legacy `0NNN` machine-code call and
/// words that encode nothing are faults.
pub fn decode(w: u16) -> (r: Result<Instruction, Fault>)
    ensures
        r == decode_spec(w),
        r matches Ok(ins) ==> ins.wf(),
{
    proof {
        lemma_fields(w);
    }
    let op = (w & 0xF000) >> 12;
    let x = ((w & 0x0F00) >> 8) as u8;
    let y = ((w & 0x00F0) >> 4) as u8;
    let n = w & 0x000F;
    let nn = (w & 0x00FF) as u8;
    let nnn = w & 0x0FFF;
    match (op, n) {
        (0x0, _) => {
            if w == 0x00E0 {
                Ok(Instruction::ClearScreen)
            } else if w == 0x00EE {
                Ok(Instruction::Return)
            } else {
                Err(Fault::MachineCodeCall(nnn))
            }
        },
        (0x1, _) => Ok(Instruction::Jump { nnn }),
        (0x2, _) => Ok(Instruction::Call { nnn }),
        (0x3, _) => Ok(Instruction::SkipEqImm { x, nn }),
        (0x4, _) => Ok(Instruction::SkipNeImm { x, nn }),
        (0x5, 0x0) => Ok(Instruction::SkipEqReg { x, y }),
        (0x6, _) => Ok(Instruction::LoadImm { x, nn }),
        (0x7, _) => Ok(Instruction::AddImm { x, nn }),
        (0x8, 0x0) => Ok(Instruction::Move { x, y }),
        (0x8, 0x1) => Ok(Instruction::Or { x, y }),
        (0x8, 0x2) => Ok(Instruction::And { x, y }),
        (0x8, 0x3) => Ok(Instruction::Xor { x, y }),
        (0x8, 0x4) => Ok(Instruction::AddReg { x, y }),
        (0x8, 0x5) => Ok(Instruction::SubReg { x, y }),
        (0x8, 0x6) => Ok(Instruction::ShiftRight { x, y }),
        (0x8, 0x7) => Ok(Instruction::SubRev { x, y }),
        (0x8, 0xE) => Ok(Instruction::ShiftLeft { x, y }),
        (0x9, 0x0) => Ok(Instruction::SkipNeReg { x, y }),
        (0xA, _) => Ok(Instruction::LoadIndex { nnn }),
        (0xB, _) => Ok(Instruction::JumpOffset { nnn }),
        (0xC, _) => Ok(Instruction::Random { x, nn }),
        (0xD, _) => Ok(Instruction::Draw { x, y, n: n as u8 }),
        (0xE, _) if nn == 0x9E => Ok(Instruction::SkipKeyDown { x }),
        (0xE, _) if nn == 0xA1 => Ok(Instruction::SkipKeyUp { x }),
        (0xF, _) if nn == 0x07 => Ok(Instruction::LoadDelay { x }),
        (0xF, _) if nn == 0x0A => Ok(Instruction::WaitKey { x }),
        (0xF, _) if nn == 0x15 => Ok(Instruction::SetDelay { x }),
        (0xF, _) if nn == 0x18 => Ok(Instruction::SetSound { x }),
        (0xF, _) if nn == 0x1E => Ok(Instruction::AddIndex { x }),
        (0xF, _) if nn == 0x29 => Ok(Instruction::FontGlyph { x }),
        (0xF, _) if nn == 0x33 => Ok(Instruction::StoreBcd { x }),
        (0xF, _) if nn == 0x55 => Ok(Instruction::StoreRegs { x }),
        (0xF, _) if nn == 0x65 => Ok(Instruction::LoadRegs { x }),
        _ => Err(Fault::UnknownInstruction(w)),
    }
}

} // verus!
