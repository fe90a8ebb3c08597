use chip_8::instruction::{decode, Instruction};
use chip_8::io::map_key;
use chip_8::Fault;

#[test]
fn decodes_each_family() {
    assert_eq!(decode(0x00E0), Ok(Instruction::ClearScreen));
    assert_eq!(decode(0x00EE), Ok(Instruction::Return));
    assert_eq!(decode(0x1ABC), Ok(Instruction::Jump { nnn: 0xABC }));
    assert_eq!(decode(0x2123), Ok(Instruction::Call { nnn: 0x123 }));
    assert_eq!(decode(0x3A42), Ok(Instruction::SkipEqImm { x: 0xA, nn: 0x42 }));
    assert_eq!(decode(0x4A42), Ok(Instruction::SkipNeImm { x: 0xA, nn: 0x42 }));
    assert_eq!(decode(0x5120), Ok(Instruction::SkipEqReg { x: 1, y: 2 }));
    assert_eq!(decode(0x6F07), Ok(Instruction::LoadImm { x: 0xF, nn: 7 }));
    assert_eq!(decode(0x7301), Ok(Instruction::AddImm { x: 3, nn: 1 }));
    assert_eq!(decode(0x8120), Ok(Instruction::Move { x: 1, y: 2 }));
    assert_eq!(decode(0x8121), Ok(Instruction::Or { x: 1, y: 2 }));
    assert_eq!(decode(0x8122), Ok(Instruction::And { x: 1, y: 2 }));
    assert_eq!(decode(0x8123), Ok(Instruction::Xor { x: 1, y: 2 }));
    assert_eq!(decode(0x8124), Ok(Instruction::AddReg { x: 1, y: 2 }));
    assert_eq!(decode(0x8125), Ok(Instruction::SubReg { x: 1, y: 2 }));
    assert_eq!(decode(0x8126), Ok(Instruction::ShiftRight { x: 1, y: 2 }));
    assert_eq!(decode(0x8127), Ok(Instruction::SubRev { x: 1, y: 2 }));
    assert_eq!(decode(0x812E), Ok(Instruction::ShiftLeft { x: 1, y: 2 }));
    assert_eq!(decode(0x9120), Ok(Instruction::SkipNeReg { x: 1, y: 2 }));
    assert_eq!(decode(0xA300), Ok(Instruction::LoadIndex { nnn: 0x300 }));
    assert_eq!(decode(0xB210), Ok(Instruction::JumpOffset { nnn: 0x210 }));
    assert_eq!(decode(0xC50F), Ok(Instruction::Random { x: 5, nn: 0x0F }));
    assert_eq!(decode(0xD125), Ok(Instruction::Draw { x: 1, y: 2, n: 5 }));
    assert_eq!(decode(0xE49E), Ok(Instruction::SkipKeyDown { x: 4 }));
    assert_eq!(decode(0xE4A1), Ok(Instruction::SkipKeyUp { x: 4 }));
    assert_eq!(decode(0xF207), Ok(Instruction::LoadDelay { x: 2 }));
    assert_eq!(decode(0xF20A), Ok(Instruction::WaitKey { x: 2 }));
    assert_eq!(decode(0xF215), Ok(Instruction::SetDelay { x: 2 }));
    assert_eq!(decode(0xF218), Ok(Instruction::SetSound { x: 2 }));
    assert_eq!(decode(0xF21E), Ok(Instruction::AddIndex { x: 2 }));
    assert_eq!(decode(0xF229), Ok(Instruction::FontGlyph { x: 2 }));
    assert_eq!(decode(0xF233), Ok(Instruction::StoreBcd { x: 2 }));
    assert_eq!(decode(0xF255), Ok(Instruction::StoreRegs { x: 2 }));
    assert_eq!(decode(0xF265), Ok(Instruction::LoadRegs { x: 2 }));
}

#[test]
fn decode_rejects_machine_code_calls() {
    assert_eq!(decode(0x0000), Err(Fault::MachineCodeCall(0x000)));
    assert_eq!(decode(0x0123), Err(Fault::MachineCodeCall(0x123)));
    assert_eq!(decode(0x00E1), Err(Fault::MachineCodeCall(0x0E1)));
}

#[test]
fn decode_rejects_unknown_words() {
    for w in [0x5121u16, 0x8128, 0x812F, 0x9121, 0xE19F, 0xE1A2, 0xF100, 0xF166, 0xFFFF] {
        assert_eq!(decode(w), Err(Fault::UnknownInstruction(w)));
    }
}

#[test]
fn keyboard_layout_maps_sixteen_keys() {
    let codes = b"1234qwerasdfzxcv";
    for (k, &c) in codes.iter().enumerate() {
        assert_eq!(map_key(c as i32), Some(k as u8));
    }
    assert_eq!(map_key(b'5' as i32), None);
    assert_eq!(map_key(b'Q' as i32), None);
    assert_eq!(map_key(-1), None);
}
