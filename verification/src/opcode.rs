//! Instruction words: operand fields and the instruction table.

use vstd::prelude::*;

verus! {

/// The operand fields carried by a 16-bit instruction word.
#[derive(Clone, Copy, Debug, PartialEq, Eq, Structural)]
pub struct Opcode {
    /// Bits 8-11: a register index.
    pub x: u8,
    /// Bits 4-7: a register index.
    pub y: u8,
    /// Bits 0-3: a 4-bit immediate.
    pub n: u8,
    /// Bits 0-7: an 8-bit immediate.
    pub kk: u8,
    /// Bits 0-11: a 12-bit address.
    pub addr: u16,
}

/// The top nibble of an instruction word, which selects its family.
pub open spec fn family_of(word: u16) -> int {
    word as int / 4096
}

impl Opcode {
    /// The operand fields of `word`, each read from its own bit positions.
    pub open spec fn of_word(word: u16) -> Opcode {
        Opcode {
            x: ((word as int / 256) % 16) as u8,
            y: ((word as int / 16) % 16) as u8,
            n: (word as int % 16) as u8,
            kk: (word as int % 256) as u8,
            addr: (word as int % 4096) as u16,
        }
    }

    /// Every field lies within the width of its bit positions.
    pub open spec fn well_formed(self) -> bool {
        &&& self.x < 16
        &&& self.y < 16
        &&& self.n < 16
        &&& self.addr < 4096
    }

    /// Extracts the operand fields of an instruction word.
    pub fn from_word(word: u16) -> (op: Opcode)
        ensures
            op == Opcode::of_word(word),
            op.well_formed(),
    {
        assert((word & 0x0F00) >> 8 == (word / 256) % 16) by (bit_vector);
        assert((word & 0x00F0) >> 4 == (word / 16) % 16) by (bit_vector);
        assert(word & 0x000F == word % 16) by (bit_vector);
        assert(word & 0x00FF == word % 256) by (bit_vector);
        assert(word & 0x0FFF == word % 4096) by (bit_vector);
        Opcode {
            x: ((word & 0x0F00) >> 8) as u8,
            y: ((word & 0x00F0) >> 4) as u8,
            n: (word & 0x000F) as u8,
            kk: (word & 0x00FF) as u8,
            addr: word & 0x0FFF,
        }
    }
}

/// Splitting a word into its family and operand fields loses nothing: the
/// nibbles put back at their positions give the word again, and the wider
/// fields are made of the narrower ones.
pub proof fn lemma_operand_fields_lossless(word: u16)
    ensures
        Opcode::of_word(word).well_formed(),
        0 <= family_of(word) < 16,
        word == family_of(word) * 4096 + Opcode::of_word(word).x * 256 + Opcode::of_word(word).y
            * 16 + Opcode::of_word(word).n,
        Opcode::of_word(word).kk == Opcode::of_word(word).y * 16 + Opcode::of_word(word).n,
        Opcode::of_word(word).addr == Opcode::of_word(word).x * 256 + Opcode::of_word(word).kk,
        Opcode::of_word(word).addr == Opcode::of_word(word).x * 256 + Opcode::of_word(word).y * 16
            + Opcode::of_word(word).n,
{
    assert(word == (word / 4096) * 4096 + ((word / 256) % 16) * 256 + ((word / 16) % 16) * 16 + word
        % 16) by (bit_vector);
    assert(word % 256 == ((word / 16) % 16) * 16 + word % 16) by (bit_vector);
    assert(word % 4096 == ((word / 256) % 16) * 256 + word % 256) by (bit_vector);
}

/// The same fact over bit operations: shifting each field back to its place
/// and joining them reproduces the operand bits of the word.
pub proof fn lemma_operand_bits_lossless(word: u16)
    ensures
        ({
            let op = Opcode::of_word(word);
            &&& ((op.x as u16) << 8) | ((op.y as u16) << 4) | (op.n as u16) == word & 0x0FFF
            &&& ((op.y as u16) << 4) | (op.n as u16) == op.kk as u16
            &&& ((op.x as u16) << 8) | (op.kk as u16) == op.addr
            &&& (word & 0xF000) | op.addr == word
        }),
{
    let x = ((word as int / 256) % 16) as u8;
    let y = ((word as int / 16) % 16) as u8;
    let n = (word as int % 16) as u8;
    let kk = (word as int % 256) as u8;
    let addr = (word as int % 4096) as u16;
    assert(x == (word & 0x0F00) >> 8) by (bit_vector)
        requires
            x == (word / 256) % 16,
    ;
    assert(y == (word & 0x00F0) >> 4) by (bit_vector)
        requires
            y == (word / 16) % 16,
    ;
    assert(n == word & 0x000F) by (bit_vector)
        requires
            n == word % 16,
    ;
    assert(kk == word & 0x00FF) by (bit_vector)
        requires
            kk == word % 256,
    ;
    assert(addr == word & 0x0FFF) by (bit_vector)
        requires
            addr == word % 4096,
    ;
    assert({
        &&& ((x as u16) << 8) | ((y as u16) << 4) | (n as u16) == word & 0x0FFF
        &&& ((y as u16) << 4) | (n as u16) == kk as u16
        &&& ((x as u16) << 8) | (kk as u16) == addr
        &&& (word & 0xF000) | addr == word
    }) by (bit_vector)
        requires
            x == (word & 0x0F00) >> 8,
            y == (word & 0x00F0) >> 4,
            n == word & 0x000F,
            kk == word & 0x00FF,
            addr == word & 0x0FFF,
    ;
}

/// Reported by [`decode`] for a word that matches no instruction.
#[derive(Clone, Copy, Debug, PartialEq, Eq, Structural)]
pub struct UnknownInstruction {
    /// The word that could not be decoded.
    pub word: u16,
}

/// One decoded instruction together with the operands it uses.
#[derive(Clone, Copy, Debug, PartialEq, Eq, Structural)]
pub enum Instruction {
    /// `00E0`: turn every pixel off.
    ClearDisplay,
    /// `00EE`: return from a subroutine.
    Return,
    /// `1nnn`: jump to `addr`.
    Jump { addr: u16 },
    /// `2nnn`: call the subroutine at `addr`.
    Call { addr: u16 },
    /// `3xkk`: skip the next instruction if `Vx == kk`.
    SkipIfEqual { x: u8, kk: u8 },
    /// `4xkk`: skip the next instruction if `Vx != kk`.
    SkipIfNotEqual { x: u8, kk: u8 },
    /// `5xy_`: skip the next instruction if `Vx == Vy`.
    SkipIfRegistersEqual { x: u8, y: u8 },
    /// `6xkk`: `Vx = kk`.
    LoadImmediate { x: u8, kk: u8 },
    /// `7xkk`: `Vx = Vx + kk`, wrapping, without touching `VF`.
    AddImmediate { x: u8, kk: u8 },
    /// `8xy0`: `Vx = Vy`.
    Copy { x: u8, y: u8 },
    /// `8xy1`: `Vx = Vx | Vy`.
    Or { x: u8, y: u8 },
    /// `8xy2`: `Vx = Vx & Vy`.
    And { x: u8, y: u8 },
    /// `8xy3`: `Vx = Vx ^ Vy`.
    Xor { x: u8, y: u8 },
    /// `8xy4`: `Vx = Vx + Vy`, `VF` = carry.
    AddRegisters { x: u8, y: u8 },
    /// `8xy5`: `Vx = Vx - Vy`, `VF` = no borrow.
    Subtract { x: u8, y: u8 },
    /// `8xy6`: shift right by one, `VF` = the bit shifted out.
    ShiftRight { x: u8, y: u8 },
    /// `8xy7`: `Vx = Vy - Vx`, `VF` = no borrow.
    SubtractReversed { x: u8, y: u8 },
    /// `8xyE`: shift left by one, `VF` = the bit shifted out.
    ShiftLeft { x: u8, y: u8 },
    /// `9xy_`: skip the next instruction if `Vx != Vy`.
    SkipIfRegistersNotEqual { x: u8, y: u8 },
    /// `Annn`: `I = addr`.
    LoadIndex { addr: u16 },
    /// `Bnnn`: jump to `addr` plus a register (`V0`, or `Vx` in the other lineage).
    JumpWithOffset { x: u8, addr: u16 },
    /// `Cxkk`: `Vx = random byte & kk`.
    Random { x: u8, kk: u8 },
    /// `Dxyn`: draw an `n`-row sprite at `(Vx, Vy)`, `VF` = collision.
    Draw { x: u8, y: u8, n: u8 },
    /// `Ex9E`: skip the next instruction if key `Vx` is pressed.
    SkipIfKeyPressed { x: u8 },
    /// `ExA1`: skip the next instruction if key `Vx` is not pressed.
    SkipIfKeyNotPressed { x: u8 },
    /// `Fx07`: `Vx = delay timer`.
    LoadDelayTimer { x: u8 },
    /// `Fx0A`: wait for a key press and store the key in `Vx`.
    AwaitKey { x: u8 },
    /// `Fx15`: `delay timer = Vx`.
    SetDelayTimer { x: u8 },
    /// `Fx18`: `sound timer = Vx`.
    SetSoundTimer { x: u8 },
    /// `Fx1E`: `I = I + Vx`.
    AddToIndex { x: u8 },
    /// `Fx29`: `I` = address of the font glyph for `Vx`.
    LoadFontAddress { x: u8 },
    /// `Fx33`: store the three decimal digits of `Vx` at `I`, `I+1`, `I+2`.
    StoreBcd { x: u8 },
    /// `Fx55`: store `V0..=Vx` to memory at `I`.
    StoreRegisters { x: u8 },
    /// `Fx65`: load `V0..=Vx` from memory at `I`.
    LoadRegisters { x: u8 },
}

impl Instruction {
    /// Every operand lies within the width of its field.
    pub open spec fn well_formed(self) -> bool {
        match self {
            Instruction::ClearDisplay | Instruction::Return => true,
            Instruction::Jump { addr } | Instruction::Call { addr } | Instruction::LoadIndex {
                addr,
            } => addr < 4096,
            Instruction::JumpWithOffset { x, addr } => x < 16 && addr < 4096 && addr / 256 == x,
            Instruction::SkipIfEqual { x, kk }
            | Instruction::SkipIfNotEqual { x, kk }
            | Instruction::LoadImmediate { x, kk }
            | Instruction::AddImmediate { x, kk }
            | Instruction::Random { x, kk } => x < 16,
            Instruction::SkipIfRegistersEqual { x, y }
            | Instruction::Copy { x, y }
            | Instruction::Or { x, y }
            | Instruction::And { x, y }
            | Instruction::Xor { x, y }
            | Instruction::AddRegisters { x, y }
            | Instruction::Subtract { x, y }
            | Instruction::ShiftRight { x, y }
            | Instruction::SubtractReversed { x, y }
            | Instruction::ShiftLeft { x, y }
            | Instruction::SkipIfRegistersNotEqual { x, y } => x < 16 && y < 16,
            Instruction::Draw { x, y, n } => x < 16 && y < 16 && n < 16,
            Instruction::SkipIfKeyPressed { x }
            | Instruction::SkipIfKeyNotPressed { x }
            | Instruction::LoadDelayTimer { x }
            | Instruction::AwaitKey { x }
            | Instruction::SetDelayTimer { x }
            | Instruction::SetSoundTimer { x }
            | Instruction::AddToIndex { x }
            | Instruction::LoadFontAddress { x }
            | Instruction::StoreBcd { x }
            | Instruction::StoreRegisters { x }
            | Instruction::LoadRegisters { x } => x < 16,
        }
    }

    /// A word that decodes to this instruction: the family nibble, the
    /// operands at their positions, and zero in every position that the
    /// instruction does not read.
    pub open spec fn encoding(self) -> int {
        match self {
            Instruction::ClearDisplay => 0x00E0,
            Instruction::Return => 0x00EE,
            Instruction::Jump { addr } => 0x1000 + addr,
            Instruction::Call { addr } => 0x2000 + addr,
            Instruction::SkipIfEqual { x, kk } => 0x3000 + x * 256 + kk,
            Instruction::SkipIfNotEqual { x, kk } => 0x4000 + x * 256 + kk,
            Instruction::SkipIfRegistersEqual { x, y } => 0x5000 + x * 256 + y * 16,
            Instruction::LoadImmediate { x, kk } => 0x6000 + x * 256 + kk,
            Instruction::AddImmediate { x, kk } => 0x7000 + x * 256 + kk,
            Instruction::Copy { x, y } => 0x8000 + x * 256 + y * 16,
            Instruction::Or { x, y } => 0x8001 + x * 256 + y * 16,
            Instruction::And { x, y } => 0x8002 + x * 256 + y * 16,
            Instruction::Xor { x, y } => 0x8003 + x * 256 + y * 16,
            Instruction::AddRegisters { x, y } => 0x8004 + x * 256 + y * 16,
            Instruction::Subtract { x, y } => 0x8005 + x * 256 + y * 16,
            Instruction::ShiftRight { x, y } => 0x8006 + x * 256 + y * 16,
            Instruction::SubtractReversed { x, y } => 0x8007 + x * 256 + y * 16,
            Instruction::ShiftLeft { x, y } => 0x800E + x * 256 + y * 16,
            Instruction::SkipIfRegistersNotEqual { x, y } => 0x9000 + x * 256 + y * 16,
            Instruction::LoadIndex { addr } => 0xA000 + addr,
            Instruction::JumpWithOffset { x, addr } => 0xB000 + addr,
            Instruction::Random { x, kk } => 0xC000 + x * 256 + kk,
            Instruction::Draw { x, y, n } => 0xD000 + x * 256 + y * 16 + n,
            Instruction::SkipIfKeyPressed { x } => 0xE09E + x * 256,
            Instruction::SkipIfKeyNotPressed { x } => 0xE0A1 + x * 256,
            Instruction::LoadDelayTimer { x } => 0xF007 + x * 256,
            Instruction::AwaitKey { x } => 0xF00A + x * 256,
            Instruction::SetDelayTimer { x } => 0xF015 + x * 256,
            Instruction::SetSoundTimer { x } => 0xF018 + x * 256,
            Instruction::AddToIndex { x } => 0xF01E + x * 256,
            Instruction::LoadFontAddress { x } => 0xF029 + x * 256,
            Instruction::StoreBcd { x } => 0xF033 + x * 256,
            Instruction::StoreRegisters { x } => 0xF055 + x * 256,
            Instruction::LoadRegisters { x } => 0xF065 + x * 256,
        }
    }
}

/// The instruction that `word` stands for, if any. The family is chosen by
/// the top nibble; families 0, E and F are told apart by the low byte and
/// family 8 by the low nibble.
pub open spec fn decoded(word: u16) -> Option<Instruction> {
    let Opcode { x, y, n, kk, addr } = Opcode::of_word(word);
    let family = family_of(word);
    if family == 0x0 {
        if kk == 0xE0 {
            Some(Instruction::ClearDisplay)
        } else if kk == 0xEE {
            Some(Instruction::Return)
        } else {
            None
        }
    } else if family == 0x1 {
        Some(Instruction::Jump { addr })
    } else if family == 0x2 {
        Some(Instruction::Call { addr })
    } else if family == 0x3 {
        Some(Instruction::SkipIfEqual { x, kk })
    } else if family == 0x4 {
        Some(Instruction::SkipIfNotEqual { x, kk })
    } else if family == 0x5 {
        Some(Instruction::SkipIfRegistersEqual { x, y })
    } else if family == 0x6 {
        Some(Instruction::LoadImmediate { x, kk })
    } else if family == 0x7 {
        Some(Instruction::AddImmediate { x, kk })
    } else if family == 0x8 {
        if n == 0x0 {
            Some(Instruction::Copy { x, y })
        } else if n == 0x1 {
            Some(Instruction::Or { x, y })
        } else if n == 0x2 {
            Some(Instruction::And { x, y })
        } else if n == 0x3 {
            Some(Instruction::Xor { x, y })
        } else if n == 0x4 {
            Some(Instruction::AddRegisters { x, y })
        } else if n == 0x5 {
            Some(Instruction::Subtract { x, y })
        } else if n == 0x6 {
            Some(Instruction::ShiftRight { x, y })
        } else if n == 0x7 {
            Some(Instruction::SubtractReversed { x, y })
        } else if n == 0xE {
            Some(Instruction::ShiftLeft { x, y })
        } else {
            None
        }
    } else if family == 0x9 {
        Some(Instruction::SkipIfRegistersNotEqual { x, y })
    } else if family == 0xA {
        Some(Instruction::LoadIndex { addr })
    } else if family == 0xB {
        Some(Instruction::JumpWithOffset { x, addr })
    } else if family == 0xC {
        Some(Instruction::Random { x, kk })
    } else if family == 0xD {
        Some(Instruction::Draw { x, y, n })
    } else if family == 0xE {
        if kk == 0x9E {
            Some(Instruction::SkipIfKeyPressed { x })
        } else if kk == 0xA1 {
            Some(Instruction::SkipIfKeyNotPressed { x })
        } else {
            None
        }
    } else {
        if kk == 0x07 {
            Some(Instruction::LoadDelayTimer { x })
        } else if kk == 0x0A {
            Some(Instruction::AwaitKey { x })
        } else if kk == 0x15 {
            Some(Instruction::SetDelayTimer { x })
        } else if kk == 0x18 {
            Some(Instruction::SetSoundTimer { x })
        } else if kk == 0x1E {
            Some(Instruction::AddToIndex { x })
        } else if kk == 0x29 {
            Some(Instruction::LoadFontAddress { x })
        } else if kk == 0x33 {
            Some(Instruction::StoreBcd { x })
        } else if kk == 0x55 {
            Some(Instruction::StoreRegisters { x })
        } else if kk == 0x65 {
            Some(Instruction::LoadRegisters { x })
        } else {
            None
        }
    }
}

/// Decodes an instruction word. The word is unknown exactly when the table
/// [`decoded`] has no entry for it.
pub fn decode(word: u16) -> (r: Result<Instruction, UnknownInstruction>)
    ensures
        match decoded(word) {
            Some(instruction) => r == Ok::<Instruction, UnknownInstruction>(instruction),
            None => r == Err::<Instruction, UnknownInstruction>(UnknownInstruction { word }),
        },
        r matches Ok(instruction) ==> instruction.well_formed(),
{
    let Opcode { x, y, n, kk, addr } = Opcode::from_word(word);
    assert(word >> 12 == word / 4096) by (bit_vector);
    assert((word % 4096) / 256 == (word / 256) % 16) by (bit_vector);
    let family: u16 = word >> 12;
    let unknown = Err(UnknownInstruction { word });
    match family {
        0x0 => match kk {
            0xE0 => Ok(Instruction::ClearDisplay),
            0xEE => Ok(Instruction::Return),
            _ => unknown,
        },
        0x1 => Ok(Instruction::Jump { addr }),
        0x2 => Ok(Instruction::Call { addr }),
        0x3 => Ok(Instruction::SkipIfEqual { x, kk }),
        0x4 => Ok(Instruction::SkipIfNotEqual { x, kk }),
        0x5 => Ok(Instruction::SkipIfRegistersEqual { x, y }),
        0x6 => Ok(Instruction::LoadImmediate { x, kk }),
        0x7 => Ok(Instruction::AddImmediate { x, kk }),
        0x8 => match n {
            0x0 => Ok(Instruction::Copy { x, y }),
            0x1 => Ok(Instruction::Or { x, y }),
            0x2 => Ok(Instruction::And { x, y }),
            0x3 => Ok(Instruction::Xor { x, y }),
            0x4 => Ok(Instruction::AddRegisters { x, y }),
            0x5 => Ok(Instruction::Subtract { x, y }),
            0x6 => Ok(Instruction::ShiftRight { x, y }),
            0x7 => Ok(Instruction::SubtractReversed { x, y }),
            0xE => Ok(Instruction::ShiftLeft { x, y }),
            _ => unknown,
        },
        0x9 => Ok(Instruction::SkipIfRegistersNotEqual { x, y }),
        0xA => Ok(Instruction::LoadIndex { addr }),
        0xB => Ok(Instruction::JumpWithOffset { x, addr }),
        0xC => Ok(Instruction::Random { x, kk }),
        0xD => Ok(Instruction::Draw { x, y, n }),
        0xE => match kk {
            0x9E => Ok(Instruction::SkipIfKeyPressed { x }),
            0xA1 => Ok(Instruction::SkipIfKeyNotPressed { x }),
            _ => unknown,
        },
        _ => match kk {
            0x07 => Ok(Instruction::LoadDelayTimer { x }),
            0x0A => Ok(Instruction::AwaitKey { x }),
            0x15 => Ok(Instruction::SetDelayTimer { x }),
            0x18 => Ok(Instruction::SetSoundTimer { x }),
            0x1E => Ok(Instruction::AddToIndex { x }),
            0x29 => Ok(Instruction::LoadFontAddress { x }),
            0x33 => Ok(Instruction::StoreBcd { x }),
            0x55 => Ok(Instruction::StoreRegisters { x }),
            0x65 => Ok(Instruction::LoadRegisters { x }),
            _ => unknown,
        },
    }
}

/// A word made of a family nibble and a 12-bit address splits back into them.
proof fn lemma_address_form(word: u16, family: u16, addr: u16)
    by (bit_vector)
    requires
        family < 16,
        addr < 4096,
        word == family * 4096 + addr,
    ensures
        word / 4096 == family,
        word % 4096 == addr,
        (word / 256) % 16 == addr / 256,
{
}

/// A word made of a family nibble, a register nibble and a byte splits back
/// into them.
proof fn lemma_byte_form(word: u16, family: u16, x: u16, kk: u16)
    by (bit_vector)
    requires
        family < 16,
        x < 16,
        kk < 256,
        word == family * 4096 + x * 256 + kk,
    ensures
        word / 4096 == family,
        (word / 256) % 16 == x,
        word % 256 == kk,
{
}

/// A word made of four nibbles splits back into them.
proof fn lemma_nibble_form(word: u16, family: u16, x: u16, y: u16, n: u16)
    by (bit_vector)
    requires
        family < 16,
        x < 16,
        y < 16,
        n < 16,
        word == family * 4096 + x * 256 + y * 16 + n,
    ensures
        word / 4096 == family,
        (word / 256) % 16 == x,
        (word / 16) % 16 == y,
        word % 16 == n,
        word % 256 == y * 16 + n,
{
}

/// Decoding undoes encoding: the word built from an instruction's family and
/// operands decodes to that very instruction.
pub proof fn lemma_decode_inverts_encoding(instruction: Instruction)
    requires
        instruction.well_formed(),
    ensures
        0 <= instruction.encoding() < 0x10000,
        decoded(instruction.encoding() as u16) == Some(instruction),
{
    let word = instruction.encoding() as u16;
    match instruction {
        Instruction::ClearDisplay => lemma_byte_form(word, 0x0, 0, 0xE0),
        Instruction::Return => lemma_byte_form(word, 0x0, 0, 0xEE),
        Instruction::Jump { addr } => lemma_address_form(word, 0x1, addr),
        Instruction::Call { addr } => lemma_address_form(word, 0x2, addr),
        Instruction::SkipIfEqual { x, kk } => lemma_byte_form(word, 0x3, x as u16, kk as u16),
        Instruction::SkipIfNotEqual { x, kk } => lemma_byte_form(word, 0x4, x as u16, kk as u16),
        Instruction::SkipIfRegistersEqual { x, y } => lemma_nibble_form(
            word,
            0x5,
            x as u16,
            y as u16,
            0,
        ),
        Instruction::LoadImmediate { x, kk } => lemma_byte_form(word, 0x6, x as u16, kk as u16),
        Instruction::AddImmediate { x, kk } => lemma_byte_form(word, 0x7, x as u16, kk as u16),
        Instruction::Copy { x, y } => lemma_nibble_form(word, 0x8, x as u16, y as u16, 0x0),
        Instruction::Or { x, y } => lemma_nibble_form(word, 0x8, x as u16, y as u16, 0x1),
        Instruction::And { x, y } => lemma_nibble_form(word, 0x8, x as u16, y as u16, 0x2),
        Instruction::Xor { x, y } => lemma_nibble_form(word, 0x8, x as u16, y as u16, 0x3),
        Instruction::AddRegisters { x, y } => lemma_nibble_form(
            word,
            0x8,
            x as u16,
            y as u16,
            0x4,
        ),
        Instruction::Subtract { x, y } => lemma_nibble_form(word, 0x8, x as u16, y as u16, 0x5),
        Instruction::ShiftRight { x, y } => lemma_nibble_form(word, 0x8, x as u16, y as u16, 0x6),
        Instruction::SubtractReversed { x, y } => lemma_nibble_form(
            word,
            0x8,
            x as u16,
            y as u16,
            0x7,
        ),
        Instruction::ShiftLeft { x, y } => lemma_nibble_form(word, 0x8, x as u16, y as u16, 0xE),
        Instruction::SkipIfRegistersNotEqual { x, y } => lemma_nibble_form(
            word,
            0x9,
            x as u16,
            y as u16,
            0,
        ),
        Instruction::LoadIndex { addr } => lemma_address_form(word, 0xA, addr),
        Instruction::JumpWithOffset { x, addr } => lemma_address_form(word, 0xB, addr),
        Instruction::Random { x, kk } => lemma_byte_form(word, 0xC, x as u16, kk as u16),
        Instruction::Draw { x, y, n } => lemma_nibble_form(
            word,
            0xD,
            x as u16,
            y as u16,
            n as u16,
        ),
        Instruction::SkipIfKeyPressed { x } => lemma_byte_form(word, 0xE, x as u16, 0x9E),
        Instruction::SkipIfKeyNotPressed { x } => lemma_byte_form(word, 0xE, x as u16, 0xA1),
        Instruction::LoadDelayTimer { x } => lemma_byte_form(word, 0xF, x as u16, 0x07),
        Instruction::AwaitKey { x } => lemma_byte_form(word, 0xF, x as u16, 0x0A),
        Instruction::SetDelayTimer { x } => lemma_byte_form(word, 0xF, x as u16, 0x15),
        Instruction::SetSoundTimer { x } => lemma_byte_form(word, 0xF, x as u16, 0x18),
        Instruction::AddToIndex { x } => lemma_byte_form(word, 0xF, x as u16, 0x1E),
        Instruction::LoadFontAddress { x } => lemma_byte_form(word, 0xF, x as u16, 0x29),
        Instruction::StoreBcd { x } => lemma_byte_form(word, 0xF, x as u16, 0x33),
        Instruction::StoreRegisters { x } => lemma_byte_form(word, 0xF, x as u16, 0x55),
        Instruction::LoadRegisters { x } => lemma_byte_form(word, 0xF, x as u16, 0x65),
    }
}

/// Every decoded instruction carries exactly the operand fields of its word,
/// so its operands are within the width of their fields.
pub proof fn lemma_decoded_well_formed(word: u16)
    ensures
        decoded(word) matches Some(instruction) ==> instruction.well_formed(),
{
    assert((word % 4096) / 256 == (word / 256) % 16) by (bit_vector);
}

/// Decoding keeps all that an instruction reads of its word: the decoded
/// instruction, encoded again, decodes to itself.
pub proof fn lemma_decoding_is_stable(word: u16)
    ensures
        decoded(word) matches Some(instruction) ==> decoded(instruction.encoding() as u16) == Some(
            instruction,
        ),
{
    lemma_decoded_well_formed(word);
    if let Some(instruction) = decoded(word) {
        lemma_decode_inverts_encoding(instruction);
    }
}

} // verus!
