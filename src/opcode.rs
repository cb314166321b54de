use vstd::prelude::*;

verus! {

/// One decoded CHIP-8 instruction. `x` and `y` name registers, `kk` is an
/// 8-bit immediate, `nnn` a 12-bit address and `n` a 4-bit row count.
#[derive(Clone, Copy, PartialEq, Eq, Structural, Debug)]
pub enum Instr {
    /// `00E0`
    Clear,
    /// `00EE`
    Return,
    /// `1nnn`
    Jump(u16),
    /// `2nnn`
    Call(u16),
    /// `3xkk`
    SkipEqImm(u8, u8),
    /// `4xkk`
    SkipNeImm(u8, u8),
    /// `5xy0`
    SkipEqReg(u8, u8),
    /// `6xkk`
    LoadImm(u8, u8),
    /// `7xkk`
    AddImm(u8, u8),
    /// `8xy0`
    Move(u8, u8),
    /// `8xy1`
    Or(u8, u8),
    /// `8xy2`
    And(u8, u8),
    /// `8xy3`
    Xor(u8, u8),
    /// `8xy4`
    Add(u8, u8),
    /// `8xy5`
    Sub(u8, u8),
    /// `8xy6`
    ShiftRight(u8, u8),
    /// `8xy7`
    SubReversed(u8, u8),
    /// `8xyE`
    ShiftLeft(u8, u8),
    /// `9xy0`
    SkipNeReg(u8, u8),
    /// `Annn`
    SetIndex(u16),
    /// `Bnnn`
    JumpOffset(u16),
    /// `Cxkk`
    Random(u8, u8),
    /// `Dxyn`
    Draw(u8, u8, u8),
    /// `Ex9E`
    SkipKeyDown(u8),
    /// `ExA1`
    SkipKeyUp(u8),
    /// `Fx07`
    ReadDelay(u8),
    /// `Fx0A`
    WaitKey(u8),
    /// `Fx15`
    SetDelay(u8),
    /// `Fx18`
    SetSound(u8),
    /// `Fx1E`
    AddIndex(u8),
    /// `Fx29`
    FontGlyph(u8),
    /// `Fx33`
    StoreBcd(u8),
    /// `Fx55`
    StoreRegs(u8),
    /// `Fx65`
    LoadRegs(u8),
}

/// Bits 12 to 15: the instruction class.
pub open spec fn class_of(w: u16) -> int {
    w as int / 4096
}

/// Bits 8 to 11: the first register.
pub open spec fn x_of(w: u16) -> u8 {
    (w as int / 256 % 16) as u8
}

/// Bits 4 to 7: the second register.
pub open spec fn y_of(w: u16) -> u8 {
    (w as int / 16 % 16) as u8
}

/// Bits 0 to 3.
pub open spec fn n_of(w: u16) -> u8 {
    (w as int % 16) as u8
}

/// Bits 0 to 7.
pub open spec fn kk_of(w: u16) -> u8 {
    (w as int % 256) as u8
}

/// Bits 0 to 11.
pub open spec fn nnn_of(w: u16) -> u16 {
    (w as int % 4096) as u16
}

/// The instruction an opcode word stands for, if any.
pub open spec fn decode_spec(w: u16) -> Option<Instr> {
    let x = x_of(w);
    let y = y_of(w);
    let n = n_of(w);
    let kk = kk_of(w);
    let nnn = nnn_of(w);
    let c = class_of(w);
    if c == 0 {
        if w == 0x00E0 {
            Some(Instr::Clear)
        } else if w == 0x00EE {
            Some(Instr::Return)
        } else {
            None
        }
    } else if c == 1 {
        Some(Instr::Jump(nnn))
    } else if c == 2 {
        Some(Instr::Call(nnn))
    } else if c == 3 {
        Some(Instr::SkipEqImm(x, kk))
    } else if c == 4 {
        Some(Instr::SkipNeImm(x, kk))
    } else if c == 5 {
        if n == 0 {
            Some(Instr::SkipEqReg(x, y))
        } else {
            None
        }
    } else if c == 6 {
        Some(Instr::LoadImm(x, kk))
    } else if c == 7 {
        Some(Instr::AddImm(x, kk))
    } else if c == 8 {
        if n == 0x0 {
            Some(Instr::Move(x, y))
        } else if n == 0x1 {
            Some(Instr::Or(x, y))
        } else if n == 0x2 {
            Some(Instr::And(x, y))
        } else if n == 0x3 {
            Some(Instr::Xor(x, y))
        } else if n == 0x4 {
            Some(Instr::Add(x, y))
        } else if n == 0x5 {
            Some(Instr::Sub(x, y))
        } else if n == 0x6 {
            Some(Instr::ShiftRight(x, y))
        } else if n == 0x7 {
            Some(Instr::SubReversed(x, y))
        } else if n == 0xE {
            Some(Instr::ShiftLeft(x, y))
        } else {
            None
        }
    } else if c == 9 {
        if n == 0 {
            Some(Instr::SkipNeReg(x, y))
        } else {
            None
        }
    } else if c == 0xA {
        Some(Instr::SetIndex(nnn))
    } else if c == 0xB {
        Some(Instr::JumpOffset(nnn))
    } else if c == 0xC {
        Some(Instr::Random(x, kk))
    } else if c == 0xD {
        Some(Instr::Draw(x, y, n))
    } else if c == 0xE {
        if kk == 0x9E {
            Some(Instr::SkipKeyDown(x))
        } else if kk == 0xA1 {
            Some(Instr::SkipKeyUp(x))
        } else {
            None
        }
    } else {
        if kk == 0x07 {
            Some(Instr::ReadDelay(x))
        } else if kk == 0x0A {
            Some(Instr::WaitKey(x))
        } else if kk == 0x15 {
            Some(Instr::SetDelay(x))
        } else if kk == 0x18 {
            Some(Instr::SetSound(x))
        } else if kk == 0x1E {
            Some(Instr::AddIndex(x))
        } else if kk == 0x29 {
            Some(Instr::FontGlyph(x))
        } else if kk == 0x33 {
            Some(Instr::StoreBcd(x))
        } else if kk == 0x55 {
            Some(Instr::StoreRegs(x))
        } else if kk == 0x65 {
            Some(Instr::LoadRegs(x))
        } else {
            None
        }
    }
}

impl Instr {
    /// Register operands name one of the sixteen registers, addresses fit in
    /// twelve bits and row counts in four.
    pub open spec fn wf(self) -> bool {
        match self {
            Instr::Clear | Instr::Return => true,
            Instr::Jump(a) | Instr::Call(a) | Instr::SetIndex(a) | Instr::JumpOffset(a) => a < 4096,
            Instr::SkipEqImm(x, _) | Instr::SkipNeImm(x, _) | Instr::LoadImm(x, _) | Instr::AddImm(
                x,
                _,
            ) | Instr::Random(x, _) => x < 16,
            Instr::SkipEqReg(x, y) | Instr::SkipNeReg(x, y) | Instr::Move(x, y) | Instr::Or(x, y)
            | Instr::And(x, y) | Instr::Xor(x, y) | Instr::Add(x, y) | Instr::Sub(x, y)
            | Instr::ShiftRight(x, y) | Instr::SubReversed(x, y) | Instr::ShiftLeft(x, y) => x < 16
                && y < 16,
            Instr::Draw(x, y, n) => x < 16 && y < 16 && n < 16,
            Instr::SkipKeyDown(x) | Instr::SkipKeyUp(x) | Instr::ReadDelay(x) | Instr::WaitKey(x)
            | Instr::SetDelay(x) | Instr::SetSound(x) | Instr::AddIndex(x) | Instr::FontGlyph(x)
            | Instr::StoreBcd(x) | Instr::StoreRegs(x) | Instr::LoadRegs(x) => x < 16,
        }
    }
}

/// Decodes a big-endian opcode word: the class nibble selects the
/// instruction, and classes `0`, `8`, `E` and `F` dispatch further on the low
/// byte or the low nibble. `None` when the word is no instruction.
pub fn decode(w: u16) -> (r: Option<Instr>)
    ensures
        r == decode_spec(w),
        r matches Some(i) ==> i.wf(),
{
    let c: u16 = w / 4096;
    let x: u8 = (w / 256 % 16) as u8;
    let y: u8 = (w / 16 % 16) as u8;
    let n: u8 = (w % 16) as u8;
    let kk: u8 = (w % 256) as u8;
    let nnn: u16 = w % 4096;
    if c == 0 {
        if w == 0x00E0 {
            Some(Instr::Clear)
        } else if w == 0x00EE {
            Some(Instr::Return)
        } else {
            None
        }
    } else if c == 1 {
        Some(Instr::Jump(nnn))
    } else if c == 2 {
        Some(Instr::Call(nnn))
    } else if c == 3 {
        Some(Instr::SkipEqImm(x, kk))
    } else if c == 4 {
        Some(Instr::SkipNeImm(x, kk))
    } else if c == 5 {
        if n == 0 {
            Some(Instr::SkipEqReg(x, y))
        } else {
            None
        }
    } else if c == 6 {
        Some(Instr::LoadImm(x, kk))
    } else if c == 7 {
        Some(Instr::AddImm(x, kk))
    } else if c == 8 {
        match n {
            0x0 => Some(Instr::Move(x, y)),
            0x1 => Some(Instr::Or(x, y)),
            0x2 => Some(Instr::And(x, y)),
            0x3 => Some(Instr::Xor(x, y)),
            0x4 => Some(Instr::Add(x, y)),
            0x5 => Some(Instr::Sub(x, y)),
            0x6 => Some(Instr::ShiftRight(x, y)),
            0x7 => Some(Instr::SubReversed(x, y)),
            0xE => Some(Instr::ShiftLeft(x, y)),
            _ => None,
        }
    } else if c == 9 {
        if n == 0 {
            Some(Instr::SkipNeReg(x, y))
        } else {
            None
        }
    } else if c == 0xA {
        Some(Instr::SetIndex(nnn))
    } else if c == 0xB {
        Some(Instr::JumpOffset(nnn))
    } else if c == 0xC {
        Some(Instr::Random(x, kk))
    } else if c == 0xD {
        Some(Instr::Draw(x, y, n))
    } else if c == 0xE {
        match kk {
            0x9E => Some(Instr::SkipKeyDown(x)),
            0xA1 => Some(Instr::SkipKeyUp(x)),
            _ => None,
        }
    } else {
        match kk {
            0x07 => Some(Instr::ReadDelay(x)),
            0x0A => Some(Instr::WaitKey(x)),
            0x15 => Some(Instr::SetDelay(x)),
            0x18 => Some(Instr::SetSound(x)),
            0x1E => Some(Instr::AddIndex(x)),
            0x29 => Some(Instr::FontGlyph(x)),
            0x33 => Some(Instr::StoreBcd(x)),
            0x55 => Some(Instr::StoreRegs(x)),
            0x65 => Some(Instr::LoadRegs(x)),
            _ => None,
        }
    }
}

} // verus!
