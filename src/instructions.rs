use vstd::prelude::*;

use crate::chip8::{Address, Register};

verus! {

/// The CHIP-8 instruction set, with the exception of `0nnn` (machine-code
/// call), which this interpreter ignores like other modern ones do.
#[derive(Debug, Clone, Copy, PartialEq, Eq, Structural)]
pub enum Instructions {
    /// `00E0`: clear the display.
    ClearDisplay,
    /// `00EE`: return from a subroutine.
    Return,
    /// `1nnn`: jump to `nnn`.
    Jump(Address),
    /// `2nnn`: call the subroutine at `nnn`.
    Call(Address),
    /// `3xkk`: skip the next instruction if `Vx == kk`.
    SkipIfEqualsByte(Register, u8),
    /// `4xkk`: skip the next instruction if `Vx != kk`.
    SkipIfNotEqualsByte(Register, u8),
    /// `5xy0`: skip the next instruction if `Vx == Vy`.
    SkipIfEquals(Register, Register),
    /// `6xkk`: `Vx = kk`.
    SetRegisterByte(Register, u8),
    /// `7xkk`: `Vx = Vx + kk`, wrapping, VF untouched.
    AddByte(Register, u8),
    /// `8xy0`: `Vx = Vy`.
    SetRegister(Register, Register),
    /// `8xy1`: `Vx = Vx | Vy`.
    Or(Register, Register),
    /// `8xy2`: `Vx = Vx & Vy`.
    And(Register, Register),
    /// `8xy3`: `Vx = Vx ^ Vy`.
    Xor(Register, Register),
    /// `8xy4`: `Vx = Vx + Vy`, VF = carry.
    Add(Register, Register),
    /// `8xy5`: `Vx = Vx - Vy`, VF = no borrow.
    Sub(Register, Register),
    /// `8xy6`: shift `Vx` right by one, VF = the bit shifted out.
    ShiftRight(Register),
    /// `8xy7`: `Vx = Vy - Vx`, VF = no borrow.
    ReverseSub(Register, Register),
    /// `8xyE`: shift `Vx` left by one, VF = the bit shifted out.
    ShiftLeft(Register),
    /// `9xy0`: skip the next instruction if `Vx != Vy`.
    SkipIfNotEquals(Register, Register),
    /// `Annn`: `I = nnn`.
    SetI(Address),
    /// `Bnnn`: jump to `nnn + V0`.
    JumpPlusV0(Address),
    /// `Cxkk`: `Vx = random byte & kk`.
    SetRandAnd(Register, u8),
    /// `Dxyn`: draw the `n`-row sprite at `I` at position `(Vx, Vy)`.
    Draw(Register, Register, u8),
    /// `Ex9E`: skip the next instruction if the key `Vx` is pressed.
    SkipIfKeyPressed(Register),
    /// `ExA1`: skip the next instruction if the key `Vx` is not pressed.
    SkipIfKeyNotPressed(Register),
    /// `Fx07`: `Vx = DT`.
    SetToDelayTimer(Register),
    /// `Fx0A`: wait for a key press and store it in `Vx`.
    WaitKeyPress(Register),
    /// `Fx15`: `DT = Vx`.
    SetDelayTimer(Register),
    /// `Fx18`: `ST = Vx`.
    SetSoundTimer(Register),
    /// `Fx1E`: `I = I + Vx`, modulo 4096.
    AddRegisterI(Register),
    /// `Fx29`: `I` = address of the font glyph of the digit in `Vx`.
    SetSpriteI(Register),
    /// `Fx33`: store the decimal digits of `Vx` at `I`, `I+1`, `I+2`.
    BCDRepresentation(Register),
    /// `Fx55`: store `V0..=Vx` in memory starting at `I`.
    CopyRegistersMemory(Register),
    /// `Fx65`: load `V0..=Vx` from memory starting at `I`.
    SetRegistersMemory(Register),
}

/// First nibble of an opcode: the instruction family.
pub open spec fn op_family(raw: u16) -> int {
    raw as int / 0x1000
}

/// `x`: second nibble.
pub open spec fn op_x(raw: u16) -> u8 {
    ((raw as int / 0x100) % 0x10) as u8
}

/// `y`: third nibble.
pub open spec fn op_y(raw: u16) -> u8 {
    ((raw as int / 0x10) % 0x10) as u8
}

/// `n`: low nibble.
pub open spec fn op_n(raw: u16) -> u8 {
    (raw as int % 0x10) as u8
}

/// `kk`: low byte.
pub open spec fn op_kk(raw: u16) -> u8 {
    (raw as int % 0x100) as u8
}

/// `nnn`: low twelve bits.
pub open spec fn op_nnn(raw: u16) -> u16 {
    (raw as int % 0x1000) as u16
}

/// The opcode table: what each 16-bit word decodes to, `None` for a word
/// outside the documented instruction set.
pub open spec fn decode(raw: u16) -> Option<Instructions> {
    let x = op_x(raw);
    let y = op_y(raw);
    let n = op_n(raw);
    let kk = op_kk(raw);
    let nnn = op_nnn(raw);
    let f = op_family(raw);
    if f == 0x0 {
        if raw == 0x00E0 {
            Some(Instructions::ClearDisplay)
        } else if raw == 0x00EE {
            Some(Instructions::Return)
        } else {
            None
        }
    } else if f == 0x1 {
        Some(Instructions::Jump(nnn))
    } else if f == 0x2 {
        Some(Instructions::Call(nnn))
    } else if f == 0x3 {
        Some(Instructions::SkipIfEqualsByte(x, kk))
    } else if f == 0x4 {
        Some(Instructions::SkipIfNotEqualsByte(x, kk))
    } else if f == 0x5 {
        if n == 0 { Some(Instructions::SkipIfEquals(x, y)) } else { None }
    } else if f == 0x6 {
        Some(Instructions::SetRegisterByte(x, kk))
    } else if f == 0x7 {
        Some(Instructions::AddByte(x, kk))
    } else if f == 0x8 {
        if n == 0x0 {
            Some(Instructions::SetRegister(x, y))
        } else if n == 0x1 {
            Some(Instructions::Or(x, y))
        } else if n == 0x2 {
            Some(Instructions::And(x, y))
        } else if n == 0x3 {
            Some(Instructions::Xor(x, y))
        } else if n == 0x4 {
            Some(Instructions::Add(x, y))
        } else if n == 0x5 {
            Some(Instructions::Sub(x, y))
        } else if n == 0x6 {
            Some(Instructions::ShiftRight(x))
        } else if n == 0x7 {
            Some(Instructions::ReverseSub(x, y))
        } else if n == 0xE {
            Some(Instructions::ShiftLeft(x))
        } else {
            None
        }
    } else if f == 0x9 {
        if n == 0 { Some(Instructions::SkipIfNotEquals(x, y)) } else { None }
    } else if f == 0xA {
        Some(Instructions::SetI(nnn))
    } else if f == 0xB {
        Some(Instructions::JumpPlusV0(nnn))
    } else if f == 0xC {
        Some(Instructions::SetRandAnd(x, kk))
    } else if f == 0xD {
        Some(Instructions::Draw(x, y, n))
    } else if f == 0xE {
        if kk == 0x9E {
            Some(Instructions::SkipIfKeyPressed(x))
        } else if kk == 0xA1 {
            Some(Instructions::SkipIfKeyNotPressed(x))
        } else {
            None
        }
    } else {
        if kk == 0x07 {
            Some(Instructions::SetToDelayTimer(x))
        } else if kk == 0x0A {
            Some(Instructions::WaitKeyPress(x))
        } else if kk == 0x15 {
            Some(Instructions::SetDelayTimer(x))
        } else if kk == 0x18 {
            Some(Instructions::SetSoundTimer(x))
        } else if kk == 0x1E {
            Some(Instructions::AddRegisterI(x))
        } else if kk == 0x29 {
            Some(Instructions::SetSpriteI(x))
        } else if kk == 0x33 {
            Some(Instructions::BCDRepresentation(x))
        } else if kk == 0x55 {
            Some(Instructions::CopyRegistersMemory(x))
        } else if kk == 0x65 {
            Some(Instructions::SetRegistersMemory(x))
        } else {
            None
        }
    }
}

impl Instructions {
    /// Every register operand names one of V0..VF, every address lies in the
    /// 4 KiB space, and a sprite height fits in a nibble.
    pub open spec fn wf(self) -> bool {
        match self {
            Instructions::ClearDisplay | Instructions::Return => true,
            Instructions::Jump(a) | Instructions::Call(a) | Instructions::SetI(a)
            | Instructions::JumpPlusV0(a) => a < 0x1000,
            Instructions::SkipIfEqualsByte(x, _) | Instructions::SkipIfNotEqualsByte(x, _)
            | Instructions::SetRegisterByte(x, _) | Instructions::AddByte(x, _)
            | Instructions::SetRandAnd(x, _) => x < 0x10,
            Instructions::SkipIfEquals(x, y) | Instructions::SetRegister(x, y)
            | Instructions::Or(x, y) | Instructions::And(x, y) | Instructions::Xor(x, y)
            | Instructions::Add(x, y) | Instructions::Sub(x, y)
            | Instructions::ReverseSub(x, y) | Instructions::SkipIfNotEquals(x, y) => x < 0x10
                && y < 0x10,
            Instructions::Draw(x, y, n) => x < 0x10 && y < 0x10 && n < 0x10,
            Instructions::ShiftRight(x) | Instructions::ShiftLeft(x)
            | Instructions::SkipIfKeyPressed(x) | Instructions::SkipIfKeyNotPressed(x)
            | Instructions::SetToDelayTimer(x) | Instructions::WaitKeyPress(x)
            | Instructions::SetDelayTimer(x) | Instructions::SetSoundTimer(x)
            | Instructions::AddRegisterI(x) | Instructions::SetSpriteI(x)
            | Instructions::BCDRepresentation(x) | Instructions::CopyRegistersMemory(x)
            | Instructions::SetRegistersMemory(x) => x < 0x10,
        }
    }

    /// Decodes one 16-bit opcode word. Total: every word gives either the
    /// instruction of the opcode table or `None`.
    pub fn new(raw: u16) -> (inst: Option<Instructions>)
        ensures
            inst == decode(raw),
            inst matches Some(i) ==> i.wf(),
    {
        let first_digit: u8 = ((raw >> 12) & 0xF) as u8;
        let last_digit: u8 = (raw & 0xF) as u8;
        // Least significant byte (last two digits)
        let ls_byte: u8 = (raw & 0xFF) as u8;
        // Last three digits: always an address
        let nnn: u16 = raw & 0xFFF;
        let x: u8 = ((raw >> 8) & 0xF) as u8;
        let y: u8 = ((raw >> 4) & 0xF) as u8;
        proof {
            assert(first_digit as int == op_family(raw)) by (bit_vector)
                requires
                    first_digit == ((raw >> 12) & 0xF) as u8,
            ;
            assert(last_digit == op_n(raw)) by (bit_vector)
                requires
                    last_digit == (raw & 0xF) as u8,
            ;
            assert(ls_byte == op_kk(raw)) by (bit_vector)
                requires
                    ls_byte == (raw & 0xFF) as u8,
            ;
            assert(nnn == op_nnn(raw)) by (bit_vector)
                requires
                    nnn == raw & 0xFFF,
            ;
            assert(x == op_x(raw)) by (bit_vector)
                requires
                    x == ((raw >> 8) & 0xF) as u8,
            ;
            assert(y == op_y(raw)) by (bit_vector)
                requires
                    y == ((raw >> 4) & 0xF) as u8,
            ;
            assert(first_digit == 0 && x == 0 ==> raw == ls_byte as u16) by (bit_vector)
                requires
                    first_digit == ((raw >> 12) & 0xF) as u8,
                    x == ((raw >> 8) & 0xF) as u8,
                    ls_byte == (raw & 0xFF) as u8,
            ;
        }
        match first_digit {
            0x0 if x == 0x0 => match ls_byte {
                0xE0 => Some(Instructions::ClearDisplay),
                0xEE => Some(Instructions::Return),
                _ => None,
            },
            0x1 => Some(Instructions::Jump(nnn)),
            0x2 => Some(Instructions::Call(nnn)),
            0x3 => Some(Instructions::SkipIfEqualsByte(x, ls_byte)),
            0x4 => Some(Instructions::SkipIfNotEqualsByte(x, ls_byte)),
            0x5 => match last_digit {
                0x0 => Some(Instructions::SkipIfEquals(x, y)),
                _ => None,
            },
            0x6 => Some(Instructions::SetRegisterByte(x, ls_byte)),
            0x7 => Some(Instructions::AddByte(x, ls_byte)),
            0x8 => match last_digit {
                0x0 => Some(Instructions::SetRegister(x, y)),
                0x1 => Some(Instructions::Or(x, y)),
                0x2 => Some(Instructions::And(x, y)),
                0x3 => Some(Instructions::Xor(x, y)),
                0x4 => Some(Instructions::Add(x, y)),
                0x5 => Some(Instructions::Sub(x, y)),
                0x6 => Some(Instructions::ShiftRight(x)),
                0x7 => Some(Instructions::ReverseSub(x, y)),
                0xE => Some(Instructions::ShiftLeft(x)),
                _ => None,
            },
            0x9 => match last_digit {
                0x0 => Some(Instructions::SkipIfNotEquals(x, y)),
                _ => None,
            },
            0xA => Some(Instructions::SetI(nnn)),
            0xB => Some(Instructions::JumpPlusV0(nnn)),
            0xC => Some(Instructions::SetRandAnd(x, ls_byte)),
            0xD => Some(Instructions::Draw(x, y, last_digit)),
            0xE => match ls_byte {
                0x9E => Some(Instructions::SkipIfKeyPressed(x)),
                0xA1 => Some(Instructions::SkipIfKeyNotPressed(x)),
                _ => None,
            },
            0xF => match ls_byte {
                0x07 => Some(Instructions::SetToDelayTimer(x)),
                0x0A => Some(Instructions::WaitKeyPress(x)),
                0x15 => Some(Instructions::SetDelayTimer(x)),
                0x18 => Some(Instructions::SetSoundTimer(x)),
                0x1E => Some(Instructions::AddRegisterI(x)),
                0x29 => Some(Instructions::SetSpriteI(x)),
                0x33 => Some(Instructions::BCDRepresentation(x)),
                0x55 => Some(Instructions::CopyRegistersMemory(x)),
                0x65 => Some(Instructions::SetRegistersMemory(x)),
                _ => None,
            },
            _ => None,
        }
    }
}

} // verus!
