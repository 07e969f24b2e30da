//! The instruction set: one variant per mnemonic, with its operands, and
//! the decoder from 16-bit words.
//!
//! A word is read as four nibbles. The first selects the class of the
//! instruction; the others hold, by class, a register number `x`, a
//! register number `y`, a nibble `n`, a byte `kk` (the low two nibbles)
//! or an address `nnn` (the low three nibbles).

use vstd::prelude::*;

verus! {

/// A decoded instruction.
#[derive(Clone, Copy, Debug, PartialEq, Eq, Structural)]
pub enum Instruction {
    /// `00E0`: clear the screen.
    Cls,
    /// `00EE`: return from a subroutine.
    Ret,
    /// `1nnn`: jump to `addr`.
    Jp { addr: u16 },
    /// `2nnn`: call the subroutine at `addr`.
    Call { addr: u16 },
    /// `3xkk`: skip the next instruction if `Vx == kk`.
    SeByte { x: u8, kk: u8 },
    /// `4xkk`: skip the next instruction if `Vx != kk`.
    SneByte { x: u8, kk: u8 },
    /// `5xy0`: skip the next instruction if `Vx == Vy`.
    SeReg { x: u8, y: u8 },
    /// `6xkk`: set `Vx` to `kk`.
    LdByte { x: u8, kk: u8 },
    /// `7xkk`: add `kk` to `Vx`, without a carry flag.
    AddByte { x: u8, kk: u8 },
    /// `8xy0`: set `Vx` to `Vy`.
    LdReg { x: u8, y: u8 },
    /// `9xy0`: skip the next instruction if `Vx != Vy`.
    SneReg { x: u8, y: u8 },
    /// `Annn`: set `I` to `addr`.
    LdI { addr: u16 },
    /// `Dxyn`: draw the `n`-row sprite at `I` at `(Vx, Vy)`.
    Drw { x: u8, y: u8, n: u8 },
    /// `ExA1`: skip the next instruction if key `Vx` is up.
    Sknp { x: u8 },
    /// `Fx07`: set `Vx` to the delay timer.
    LdVxDt { x: u8 },
    /// `Fx15`: set the delay timer to `Vx`.
    LdDtVx { x: u8 },
    /// `Fx1E`: add `Vx` to `I`.
    AddI { x: u8 },
    /// `Fx29`: set `I` to the address of the glyph of digit `Vx`.
    LdF { x: u8 },
    /// `Fx33`: store the decimal digits of `Vx` at `I`, `I + 1`, `I + 2`.
    LdB { x: u8 },
    /// `Fx65`: load `V0` to `Vx` from memory at `I`.
    LdVxI { x: u8 },
}

/// The first nibble of a word: the class of the instruction.
pub open spec fn class_of(word: u16) -> int {
    word as int / 0x1000
}

/// The second nibble of a word.
pub open spec fn x_of(word: u16) -> u8 {
    ((word as int / 0x100) % 0x10) as u8
}

/// The third nibble of a word.
pub open spec fn y_of(word: u16) -> u8 {
    ((word as int / 0x10) % 0x10) as u8
}

/// The last nibble of a word.
pub open spec fn n_of(word: u16) -> u8 {
    (word as int % 0x10) as u8
}

/// The low byte of a word.
pub open spec fn kk_of(word: u16) -> u8 {
    (word as int % 0x100) as u8
}

/// The low twelve bits of a word.
pub open spec fn nnn_of(word: u16) -> u16 {
    (word as int % 0x1000) as u16
}

/// The instruction that a word stands for, if it stands for one.
pub open spec fn decode_spec(word: u16) -> Option<Instruction> {
    let x = x_of(word);
    let y = y_of(word);
    let n = n_of(word);
    let kk = kk_of(word);
    let addr = nnn_of(word);
    let class = class_of(word);
    if word == 0x00E0 {
        Some(Instruction::Cls)
    } else if word == 0x00EE {
        Some(Instruction::Ret)
    } else if class == 0x1 {
        Some(Instruction::Jp { addr })
    } else if class == 0x2 {
        Some(Instruction::Call { addr })
    } else if class == 0x3 {
        Some(Instruction::SeByte { x, kk })
    } else if class == 0x4 {
        Some(Instruction::SneByte { x, kk })
    } else if class == 0x5 && n == 0 {
        Some(Instruction::SeReg { x, y })
    } else if class == 0x6 {
        Some(Instruction::LdByte { x, kk })
    } else if class == 0x7 {
        Some(Instruction::AddByte { x, kk })
    } else if class == 0x8 && n == 0 {
        Some(Instruction::LdReg { x, y })
    } else if class == 0x9 && n == 0 {
        Some(Instruction::SneReg { x, y })
    } else if class == 0xA {
        Some(Instruction::LdI { addr })
    } else if class == 0xD {
        Some(Instruction::Drw { x, y, n })
    } else if class == 0xE && kk == 0xA1 {
        Some(Instruction::Sknp { x })
    } else if class == 0xF && kk == 0x07 {
        Some(Instruction::LdVxDt { x })
    } else if class == 0xF && kk == 0x15 {
        Some(Instruction::LdDtVx { x })
    } else if class == 0xF && kk == 0x1E {
        Some(Instruction::AddI { x })
    } else if class == 0xF && kk == 0x29 {
        Some(Instruction::LdF { x })
    } else if class == 0xF && kk == 0x33 {
        Some(Instruction::LdB { x })
    } else if class == 0xF && kk == 0x65 {
        Some(Instruction::LdVxI { x })
    } else {
        None
    }
}

impl Instruction {
    /// Register numbers and the sprite height are nibbles, addresses
    /// have twelve bits.
    pub open spec fn wf(self) -> bool {
        match self {
            Instruction::Cls | Instruction::Ret => true,
            Instruction::Jp { addr } | Instruction::Call { addr } | Instruction::LdI { addr } => addr
                < 0x1000,
            Instruction::SeByte { x, .. }
            | Instruction::SneByte { x, .. }
            | Instruction::LdByte { x, .. }
            | Instruction::AddByte { x, .. }
            | Instruction::Sknp { x }
            | Instruction::LdVxDt { x }
            | Instruction::LdDtVx { x }
            | Instruction::AddI { x }
            | Instruction::LdF { x }
            | Instruction::LdB { x }
            | Instruction::LdVxI { x } => x < 16,
            Instruction::SeReg { x, y } | Instruction::LdReg { x, y } | Instruction::SneReg {
                x,
                y,
            } => x < 16 && y < 16,
            Instruction::Drw { x, y, n } => x < 16 && y < 16 && n < 16,
        }
    }
}

/// The class, the three nibbles, the low byte and the address of a word.
fn fields(word: u16) -> (f: (u8, u8, u8, u8, u8, u16))
    ensures
        f.0 == class_of(word),
        f.1 == x_of(word),
        f.2 == y_of(word),
        f.3 == n_of(word),
        f.4 == kk_of(word),
        f.5 == nnn_of(word),
        f.0 < 16,
        f.1 < 16,
        f.2 < 16,
        f.3 < 16,
        f.5 < 0x1000,
{
    assert(word >> 12 == word / 0x1000 && word >> 12 < 16) by (bit_vector);
    assert((word & 0x0F00) >> 8 == (word / 0x100) % 0x10 && (word & 0x0F00) >> 8 < 16)
        by (bit_vector);
    assert((word & 0x00F0) >> 4 == (word / 0x10) % 0x10 && (word & 0x00F0) >> 4 < 16)
        by (bit_vector);
    assert(word & 0x000F == word % 0x10 && word & 0x000F < 16) by (bit_vector);
    assert(word & 0x00FF == word % 0x100 && word & 0x00FF < 256) by (bit_vector);
    assert(word & 0x0FFF == word % 0x1000 && word & 0x0FFF < 0x1000) by (bit_vector);
    (
        (word >> 12) as u8,
        ((word & 0x0F00) >> 8) as u8,
        ((word & 0x00F0) >> 4) as u8,
        (word & 0x000F) as u8,
        (word & 0x00FF) as u8,
        word & 0x0FFF,
    )
}

/// Decodes a word. `None` means that the word is no instruction of the
/// machine.
pub fn decode(word: u16) -> (ins: Option<Instruction>)
    ensures
        ins == decode_spec(word),
        ins matches Some(i) ==> i.wf(),
{
    let (class, x, y, n, kk, addr) = fields(word);
    if word == 0x00E0 {
        Some(Instruction::Cls)
    } else if word == 0x00EE {
        Some(Instruction::Ret)
    } else if class == 0x1 {
        Some(Instruction::Jp { addr })
    } else if class == 0x2 {
        Some(Instruction::Call { addr })
    } else if class == 0x3 {
        Some(Instruction::SeByte { x, kk })
    } else if class == 0x4 {
        Some(Instruction::SneByte { x, kk })
    } else if class == 0x5 && n == 0 {
        Some(Instruction::SeReg { x, y })
    } else if class == 0x6 {
        Some(Instruction::LdByte { x, kk })
    } else if class == 0x7 {
        Some(Instruction::AddByte { x, kk })
    } else if class == 0x8 && n == 0 {
        Some(Instruction::LdReg { x, y })
    } else if class == 0x9 && n == 0 {
        Some(Instruction::SneReg { x, y })
    } else if class == 0xA {
        Some(Instruction::LdI { addr })
    } else if class == 0xD {
        Some(Instruction::Drw { x, y, n })
    } else if class == 0xE && kk == 0xA1 {
        Some(Instruction::Sknp { x })
    } else if class == 0xF && kk == 0x07 {
        Some(Instruction::LdVxDt { x })
    } else if class == 0xF && kk == 0x15 {
        Some(Instruction::LdDtVx { x })
    } else if class == 0xF && kk == 0x1E {
        Some(Instruction::AddI { x })
    } else if class == 0xF && kk == 0x29 {
        Some(Instruction::LdF { x })
    } else if class == 0xF && kk == 0x33 {
        Some(Instruction::LdB { x })
    } else if class == 0xF && kk == 0x65 {
        Some(Instruction::LdVxI { x })
    } else {
        None
    }
}

/// Every word that decodes gives an instruction whose operands are in
/// range.
pub proof fn lemma_decode_wf(word: u16)
    ensures
        decode_spec(word) matches Some(i) ==> i.wf(),
{
}

} // verus!
