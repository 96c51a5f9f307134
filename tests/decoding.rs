use chip8::instructions::Instructions;

#[test]
fn decodes_every_family() {
    let cases: Vec<(u16, Instructions)> = vec![
        (0x00E0, Instructions::ClearDisplay),
        (0x00EE, Instructions::Return),
        (0x1ABC, Instructions::Jump(0xABC)),
        (0x2ABC, Instructions::Call(0xABC)),
        (0x3A42, Instructions::SkipIfEqualsByte(0xA, 0x42)),
        (0x4A42, Instructions::SkipIfNotEqualsByte(0xA, 0x42)),
        (0x5AB0, Instructions::SkipIfEquals(0xA, 0xB)),
        (0x6A42, Instructions::SetRegisterByte(0xA, 0x42)),
        (0x7A42, Instructions::AddByte(0xA, 0x42)),
        (0x8AB0, Instructions::SetRegister(0xA, 0xB)),
        (0x8AB1, Instructions::Or(0xA, 0xB)),
        (0x8AB2, Instructions::And(0xA, 0xB)),
        (0x8AB3, Instructions::Xor(0xA, 0xB)),
        (0x8AB4, Instructions::Add(0xA, 0xB)),
        (0x8AB5, Instructions::Sub(0xA, 0xB)),
        (0x8AB6, Instructions::ShiftRight(0xA)),
        (0x8AB7, Instructions::ReverseSub(0xA, 0xB)),
        (0x8ABE, Instructions::ShiftLeft(0xA)),
        (0x9AB0, Instructions::SkipIfNotEquals(0xA, 0xB)),
        (0xA123, Instructions::SetI(0x123)),
        (0xB123, Instructions::JumpPlusV0(0x123)),
        (0xCA0F, Instructions::SetRandAnd(0xA, 0x0F)),
        (0xDAB5, Instructions::Draw(0xA, 0xB, 5)),
        (0xEA9E, Instructions::SkipIfKeyPressed(0xA)),
        (0xEAA1, Instructions::SkipIfKeyNotPressed(0xA)),
        (0xFA07, Instructions::SetToDelayTimer(0xA)),
        (0xFA0A, Instructions::WaitKeyPress(0xA)),
        (0xFA15, Instructions::SetDelayTimer(0xA)),
        (0xFA18, Instructions::SetSoundTimer(0xA)),
        (0xFA1E, Instructions::AddRegisterI(0xA)),
        (0xFA29, Instructions::SetSpriteI(0xA)),
        (0xFA33, Instructions::BCDRepresentation(0xA)),
        (0xFA55, Instructions::CopyRegistersMemory(0xA)),
        (0xFA65, Instructions::SetRegistersMemory(0xA)),
    ];
    for (raw, inst) in cases {
        assert_eq!(Instructions::new(raw), Some(inst), "opcode {:04X}", raw);
    }
}

#[test]
fn undocumented_opcodes_decode_to_none() {
    for raw in [0x0000u16, 0x0123, 0x01E0, 0x00E1, 0x5AB1, 0x8AB8, 0x8ABF, 0x9AB1, 0xEA9F, 0xFA00, 0xFAFF]
    {
        assert_eq!(Instructions::new(raw), None, "opcode {:04X}", raw);
    }
}

#[test]
fn decoding_is_total() {
    let mut decoded = 0u32;
    for raw in 0..=u16::MAX {
        if Instructions::new(raw).is_some() {
            decoded += 1;
        }
    }
    // 1nnn 2nnn Annn Bnnn: 4 * 4096; 3xkk 4xkk 6xkk 7xkk Cxkk: 5 * 4096;
    // Dxyn: 4096; 5xy0 9xy0: 2 * 256; 8xy_: 9 * 256; Ex__: 2 * 16;
    // Fx__: 9 * 16; 00E0 00EE: 2.
    assert_eq!(decoded, 10 * 4096 + 11 * 256 + 11 * 16 + 2);
}
