use chip8::{decode, decompose_opcode, logical_key, Instruction, KeyCode};

#[test]
fn nibbles_come_most_significant_first() {
    assert_eq!(decompose_opcode(0x0000), (0, 0, 0, 0));
    assert_eq!(decompose_opcode(0x8014), (0x8, 0x0, 0x1, 0x4));
    assert_eq!(decompose_opcode(0xD12F), (0xD, 0x1, 0x2, 0xF));
    assert_eq!(decompose_opcode(0xFFFF), (0xF, 0xF, 0xF, 0xF));
    assert_eq!(decompose_opcode(0x1234), (0x1, 0x2, 0x3, 0x4));
}

#[test]
fn every_pattern_decodes() {
    let table = [
        (0x0000u16, Instruction::Halt),
        (0x00E0, Instruction::ClearDisplay),
        (0x00EE, Instruction::Return),
        (0x1ABC, Instruction::Jump { address: 0xABC }),
        (0x2FFF, Instruction::Call { address: 0xFFF }),
        (0x3A12, Instruction::SkipIfEqual { x: 0xA, kk: 0x12 }),
        (0x4B34, Instruction::SkipIfDifferent { x: 0xB, kk: 0x34 }),
        (0x5C10, Instruction::SkipIfEqualRegisters { x: 0xC, y: 0x1 }),
        (0x6DFF, Instruction::Load { x: 0xD, kk: 0xFF }),
        (0x7E01, Instruction::AddConstant { x: 0xE, kk: 0x01 }),
        (0x8120, Instruction::Copy { x: 1, y: 2 }),
        (0x8121, Instruction::Or { x: 1, y: 2 }),
        (0x8122, Instruction::And { x: 1, y: 2 }),
        (0x8123, Instruction::Xor { x: 1, y: 2 }),
        (0x8124, Instruction::AddRegisters { x: 1, y: 2 }),
        (0x8125, Instruction::SubRegisters { x: 1, y: 2 }),
        (0x8126, Instruction::ShiftRight { x: 1 }),
        (0x8127, Instruction::SubRegistersSwapped { x: 1, y: 2 }),
        (0x812E, Instruction::ShiftLeft { x: 1 }),
        (0x9120, Instruction::SkipIfDifferentRegisters { x: 1, y: 2 }),
        (0xA123, Instruction::SetPointer { address: 0x123 }),
        (0xB123, Instruction::OffsetJump { address: 0x123 }),
        (0xC1F0, Instruction::Random { x: 1, kk: 0xF0 }),
        (0xD125, Instruction::Draw { x: 1, y: 2, rows: 5 }),
        (0xF10A, Instruction::WaitForKey { x: 1 }),
        (0xF11E, Instruction::AddToPointer { x: 1 }),
        (0xF129, Instruction::PointToFontChar { x: 1 }),
        (0xF133, Instruction::StoreBcd { x: 1 }),
        (0xF155, Instruction::StoreRegisters { x: 1 }),
        (0xF165, Instruction::LoadRegisters { x: 1 }),
    ];
    for (word, instruction) in table {
        assert_eq!(decode(word), Some(instruction), "{:04x}", word);
    }
}

#[test]
fn words_outside_the_table_decode_to_nothing() {
    for word in [
        0x0001u16, 0x00E1, 0x00EF, 0x0100, 0x0FFF, 0x5001, 0x512F, 0x8008, 0x812D, 0x812F, 0x9121,
        0xE09E, 0xE0A1, 0xEFFF, 0xF007, 0xF015, 0xF018, 0xF00B, 0xF1FF, 0xF100,
    ] {
        assert_eq!(decode(word), None, "{:04x}", word);
    }
}

#[test]
fn the_count_of_words_that_decode() {
    let known = (0..=0xFFFFu16).filter(|word| decode(*word).is_some()).count();
    // 3 words with a leading 0; the ten leading nibbles 1, 2, 3, 4, 6, 7, A,
    // B, C and D, which take any operands; 5xy0 and 9xy0; the 9 patterns with
    // a leading 8; the 6 patterns with a leading F.
    assert_eq!(known, 3 + 10 * 0x1000 + 2 * 0x100 + 9 * 0x100 + 6 * 0x10);
}

#[test]
fn the_keypad_on_the_keyboard() {
    let keys = [
        KeyCode::X,
        KeyCode::Key1,
        KeyCode::Key2,
        KeyCode::Key3,
        KeyCode::Q,
        KeyCode::W,
        KeyCode::E,
        KeyCode::A,
        KeyCode::S,
        KeyCode::D,
        KeyCode::Z,
        KeyCode::C,
        KeyCode::Key4,
        KeyCode::R,
        KeyCode::F,
        KeyCode::V,
    ];
    for (value, key) in keys.iter().enumerate() {
        assert_eq!(logical_key(*key), Some(value as u8));
    }
    assert_eq!(logical_key(KeyCode::Other), None);
}
