use chip8::{decode, Chip8, Fault, Instruction};

#[test]
fn decode_every_instruction() {
    assert_eq!(decode(0x00E0), Some(Instruction::ClearScreen));
    assert_eq!(decode(0x00EE), Some(Instruction::Return));
    assert_eq!(decode(0x1ABC), Some(Instruction::Jump { addr: 0xABC }));
    assert_eq!(decode(0x2FFF), Some(Instruction::Call { addr: 0xFFF }));
    assert_eq!(decode(0x3A12), Some(Instruction::SkipEqImm { x: 0xA, nn: 0x12 }));
    assert_eq!(decode(0x4B34), Some(Instruction::SkipNeImm { x: 0xB, nn: 0x34 }));
    assert_eq!(decode(0x5120), Some(Instruction::SkipEqReg { x: 1, y: 2 }));
    assert_eq!(decode(0x6CFF), Some(Instruction::LoadImm { x: 0xC, nn: 0xFF }));
    assert_eq!(decode(0x7D00), Some(Instruction::AddImm { x: 0xD, nn: 0 }));
    assert_eq!(decode(0x8120), Some(Instruction::Move { x: 1, y: 2 }));
    assert_eq!(decode(0x8121), Some(Instruction::Or { x: 1, y: 2 }));
    assert_eq!(decode(0x8122), Some(Instruction::And { x: 1, y: 2 }));
    assert_eq!(decode(0x8123), Some(Instruction::Xor { x: 1, y: 2 }));
    assert_eq!(decode(0x8124), Some(Instruction::AddReg { x: 1, y: 2 }));
    assert_eq!(decode(0x8125), Some(Instruction::SubReg { x: 1, y: 2 }));
    assert_eq!(decode(0x8126), Some(Instruction::ShiftRight { x: 1, y: 2 }));
    assert_eq!(decode(0x8127), Some(Instruction::SubFrom { x: 1, y: 2 }));
    assert_eq!(decode(0x812E), Some(Instruction::ShiftLeft { x: 1, y: 2 }));
    assert_eq!(decode(0x9EF0), Some(Instruction::SkipNeReg { x: 0xE, y: 0xF }));
    assert_eq!(decode(0xA123), Some(Instruction::LoadIndex { addr: 0x123 }));
    assert_eq!(decode(0xB000), Some(Instruction::JumpOffset { addr: 0 }));
    assert_eq!(decode(0xC5F0), Some(Instruction::Random { x: 5, nn: 0xF0 }));
    assert_eq!(decode(0xD12F), Some(Instruction::Draw { x: 1, y: 2, n: 15 }));
    assert_eq!(decode(0xE79E), Some(Instruction::SkipKey { x: 7 }));
    assert_eq!(decode(0xE7A1), Some(Instruction::SkipNoKey { x: 7 }));
    assert_eq!(decode(0xF807), Some(Instruction::ReadDelay { x: 8 }));
    assert_eq!(decode(0xF80A), Some(Instruction::WaitKey { x: 8 }));
    assert_eq!(decode(0xF815), Some(Instruction::SetDelay { x: 8 }));
    assert_eq!(decode(0xF818), Some(Instruction::SetSound { x: 8 }));
    assert_eq!(decode(0xF81E), Some(Instruction::AddIndex { x: 8 }));
    assert_eq!(decode(0xF829), Some(Instruction::FontAddr { x: 8 }));
    assert_eq!(decode(0xF833), Some(Instruction::StoreBcd { x: 8 }));
    assert_eq!(decode(0xF855), Some(Instruction::StoreRegs { x: 8 }));
    assert_eq!(decode(0xF865), Some(Instruction::LoadRegs { x: 8 }));
}

#[test]
fn decode_refuses_words_outside_the_table() {
    for word in [
        0x0000u16, 0x00E1, 0x00EF, 0x0123, 0x0FFF, 0x5121, 0x512F, 0x8128, 0x8129, 0x812A, 0x812B,
        0x812C, 0x812D, 0x812F, 0x9121, 0xE19F, 0xE1A0, 0xE000, 0xF100, 0xF108, 0xF1FF, 0xF166,
    ] {
        assert_eq!(decode(word), None, "{:04X}", word);
    }
}

#[test]
fn decode_counts_the_instruction_words() {
    let known = (0..=0xFFFFu16).filter(|w| decode(*w).is_some()).count();
    // two words of family 0, ten families of 4096 words, the two register
    // skips with 256 each, nine arithmetic instructions with 256 each, two
    // key and nine timer and memory instructions with 16 each
    assert_eq!(known, 2 + 10 * 4096 + 2 * 256 + 9 * 256 + 2 * 16 + 9 * 16);
}

#[test]
fn execute_refuses_what_decode_refuses() {
    let mut m = Chip8::new();
    m.init();
    let before = m.clone();
    assert_eq!(m.execute(0x5121, 0), Err(Fault::Decode { opcode: 0x5121, pc: 0x200 }));
    assert_eq!(m.execute(0x0123, 0), Err(Fault::Decode { opcode: 0x0123, pc: 0x200 }));
    assert_eq!(m.execute(0xE1FF, 0), Err(Fault::Decode { opcode: 0xE1FF, pc: 0x200 }));
    assert_eq!(m.execute(0xFFFF, 0), Err(Fault::Decode { opcode: 0xFFFF, pc: 0x200 }));
    assert_eq!(m, before);
}

#[test]
fn every_word_either_runs_or_faults_without_touching_the_machine() {
    for word in 0..=0xFFFFu16 {
        let mut m = Chip8::new();
        m.init();
        m.index = 0x300;
        let before = m.clone();
        match m.execute(word, 0x5A) {
            Ok(()) => {
                assert!(decode(word).is_some());
                assert_eq!(m.opcode, word);
            }
            Err(_) => assert_eq!(m, before),
        }
    }
}
