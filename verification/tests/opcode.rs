use chip8::opcode::{decode, Instruction, Opcode, UnknownInstruction};

#[test]
fn operand_fields_come_from_their_bit_positions() {
    let op = Opcode::from_word(0xD3A7);
    assert_eq!(op, Opcode { x: 0x3, y: 0xA, n: 0x7, kk: 0xA7, addr: 0x3A7 });
}

#[test]
fn operand_fields_reassemble_into_the_word() {
    for word in 0..=u16::MAX {
        let op = Opcode::from_word(word);
        let operands = ((op.x as u16) << 8) | ((op.y as u16) << 4) | op.n as u16;
        assert_eq!(operands, word & 0x0FFF);
        assert_eq!(op.kk as u16, ((op.y as u16) << 4) | op.n as u16);
        assert_eq!(op.addr, ((op.x as u16) << 8) | op.kk as u16);
        assert_eq!((word & 0xF000) | op.addr, word);
    }
}

#[test]
fn decodes_every_family() {
    let table = [
        (0x00E0, Instruction::ClearDisplay),
        (0x00EE, Instruction::Return),
        (0x1ABC, Instruction::Jump { addr: 0xABC }),
        (0x2ABC, Instruction::Call { addr: 0xABC }),
        (0x3A12, Instruction::SkipIfEqual { x: 0xA, kk: 0x12 }),
        (0x4A12, Instruction::SkipIfNotEqual { x: 0xA, kk: 0x12 }),
        (0x5AB0, Instruction::SkipIfRegistersEqual { x: 0xA, y: 0xB }),
        (0x6A12, Instruction::LoadImmediate { x: 0xA, kk: 0x12 }),
        (0x7A12, Instruction::AddImmediate { x: 0xA, kk: 0x12 }),
        (0x8AB0, Instruction::Copy { x: 0xA, y: 0xB }),
        (0x8AB1, Instruction::Or { x: 0xA, y: 0xB }),
        (0x8AB2, Instruction::And { x: 0xA, y: 0xB }),
        (0x8AB3, Instruction::Xor { x: 0xA, y: 0xB }),
        (0x8AB4, Instruction::AddRegisters { x: 0xA, y: 0xB }),
        (0x8AB5, Instruction::Subtract { x: 0xA, y: 0xB }),
        (0x8AB6, Instruction::ShiftRight { x: 0xA, y: 0xB }),
        (0x8AB7, Instruction::SubtractReversed { x: 0xA, y: 0xB }),
        (0x8ABE, Instruction::ShiftLeft { x: 0xA, y: 0xB }),
        (0x9AB0, Instruction::SkipIfRegistersNotEqual { x: 0xA, y: 0xB }),
        (0xAABC, Instruction::LoadIndex { addr: 0xABC }),
        (0xBABC, Instruction::JumpWithOffset { x: 0xA, addr: 0xABC }),
        (0xCA12, Instruction::Random { x: 0xA, kk: 0x12 }),
        (0xDAB7, Instruction::Draw { x: 0xA, y: 0xB, n: 0x7 }),
        (0xEA9E, Instruction::SkipIfKeyPressed { x: 0xA }),
        (0xEAA1, Instruction::SkipIfKeyNotPressed { x: 0xA }),
        (0xFA07, Instruction::LoadDelayTimer { x: 0xA }),
        (0xFA0A, Instruction::AwaitKey { x: 0xA }),
        (0xFA15, Instruction::SetDelayTimer { x: 0xA }),
        (0xFA18, Instruction::SetSoundTimer { x: 0xA }),
        (0xFA1E, Instruction::AddToIndex { x: 0xA }),
        (0xFA29, Instruction::LoadFontAddress { x: 0xA }),
        (0xFA33, Instruction::StoreBcd { x: 0xA }),
        (0xFA55, Instruction::StoreRegisters { x: 0xA }),
        (0xFA65, Instruction::LoadRegisters { x: 0xA }),
    ];
    for (word, instruction) in table {
        assert_eq!(decode(word), Ok(instruction));
    }
}

#[test]
fn unknown_words_are_reported() {
    for word in [0x0000, 0x00E1, 0x0123, 0x8AB8, 0x8ABF, 0xEA9F, 0xE000, 0xFA00, 0xFAFF, 0xF066] {
        assert_eq!(decode(word), Err(UnknownInstruction { word }));
    }
}

#[test]
fn families_chosen_by_the_top_nibble_ignore_unused_bits() {
    assert_eq!(decode(0x5AB7), Ok(Instruction::SkipIfRegistersEqual { x: 0xA, y: 0xB }));
    assert_eq!(decode(0x9AB7), Ok(Instruction::SkipIfRegistersNotEqual { x: 0xA, y: 0xB }));
    assert_eq!(decode(0x03E0), Ok(Instruction::ClearDisplay));
    assert_eq!(decode(0x03EE), Ok(Instruction::Return));
}

#[test]
fn every_word_decodes_or_is_unknown() {
    let mut known = 0u32;
    for word in 0..=u16::MAX {
        match decode(word) {
            Ok(_) => known += 1,
            Err(unknown) => assert_eq!(unknown.word, word),
        }
    }
    // Families 1-7, 9-D: 12 * 4096; family 0: 2 * 16; family 8: 9 * 256;
    // family E: 2 * 16; family F: 9 * 16.
    assert_eq!(known, 12 * 4096 + 32 + 9 * 256 + 32 + 144);
}
