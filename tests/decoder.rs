use chip::{chip_table, decode, decode_instruction, decoder_match, Fault, Instruction, OpcodeMetadata};

fn meta(x: usize, y: usize, n: u16) -> OpcodeMetadata {
    OpcodeMetadata { x, y, n }
}

#[test]
fn literal_pattern_matches_only_itself() {
    assert_eq!(decoder_match(0x00E0, "00E0"), Some(meta(0, 0, 0)));
    assert_eq!(decoder_match(0x00E1, "00E0"), None);
    assert_eq!(decoder_match(0x10E0, "00E0"), None);
}

#[test]
fn wildcards_extract_fields() {
    assert_eq!(decoder_match(0x3A12, "3XNN"), Some(meta(0xA, 0, 0x12)));
    assert_eq!(decoder_match(0xD123, "DXYN"), Some(meta(1, 2, 3)));
    assert_eq!(decoder_match(0x1ABC, "1NNN"), Some(meta(0, 0, 0xABC)));
    assert_eq!(decoder_match(0x8AB4, "8XY4"), Some(meta(0xA, 0xB, 0)));
}

#[test]
fn mask_groups_concatenate_left_to_right() {
    // N under the first two positions and X under the last: "NNX"-style.
    assert_eq!(decoder_match(0xC12F, "CNNX"), Some(meta(0xF, 0, 0x12)));
    assert_eq!(decoder_match(0xD5E7, "DNXY"), Some(meta(0xE, 7, 5)));
    assert_eq!(decoder_match(0xFFFF, "NNNN"), Some(meta(0, 0, 0xFFFF)));
    assert_eq!(decoder_match(0xBEEF, "XXXX"), Some(meta(0xBEEF, 0, 0)));
}

#[test]
fn other_mask_letters_match_but_extract_nothing() {
    assert_eq!(decoder_match(0x1234, "1ZZZ"), Some(meta(0, 0, 0)));
    assert_eq!(decoder_match(0x1234, "1nnn"), Some(meta(0, 0, 0)));
}

#[test]
fn literals_match_in_either_case() {
    assert_eq!(decoder_match(0xA000, "A000"), Some(meta(0, 0, 0)));
    assert_eq!(decoder_match(0xA000, "a000"), Some(meta(0, 0, 0)));
    assert_eq!(decoder_match(0xA123, "aXNN"), Some(meta(1, 0, 0x23)));
    assert_eq!(decoder_match(0xF0E5, "fXe5"), Some(meta(0, 0, 0)));
    assert_eq!(decoder_match(0xB000, "a000"), None);
}

#[test]
fn every_nibble_round_trips() {
    for a in 0u16..16 {
        for b in 0u16..16 {
            let inst = 0x5000 | (a << 8) | (b << 4);
            assert_eq!(decoder_match(inst, "5XY0"), Some(meta(a as usize, b as usize, 0)));
            let inst = 0x7000 | (a << 8) | (b << 4) | a;
            assert_eq!(decoder_match(inst, "7XNN"), Some(meta(a as usize, 0, (b << 4) | a)));
        }
    }
}

#[test]
fn first_match_wins() {
    let table = ["8XY1", "8XYN", "8XY1"];
    assert_eq!(decode(0x8121, &table), Ok((0, meta(1, 2, 0))));
    assert_eq!(decode(0x8125, &table), Ok((1, meta(1, 2, 5))));
}

#[test]
fn decoding_twice_gives_the_same_result() {
    let table = chip_table();
    for inst in [0x00E0u16, 0x2345, 0x8AB4, 0xF065, 0x00FF] {
        assert_eq!(decode(inst, &table), decode(inst, &table));
    }
}

#[test]
fn unmatched_word_is_unsupported() {
    let table = ["00E0", "00EE", "1NNN"];
    assert_eq!(decode(0x00FF, &table), Err(Fault::UnsupportedInstruction(0x00FF)));
    assert_eq!(decode(0x00FF, &[]), Err(Fault::UnsupportedInstruction(0x00FF)));
}

#[test]
fn chip_table_lacks_00ff() {
    let table = chip_table();
    assert_eq!(table.len(), 32);
    assert_eq!(decode(0x00FF, &table), Err(Fault::UnsupportedInstruction(0x00FF)));
    assert_eq!(decode_instruction(0x00FF), Err(Fault::UnsupportedInstruction(0x00FF)));
    assert_eq!(decode_instruction(0x5121), Err(Fault::UnsupportedInstruction(0x5121)));
    assert_eq!(decode_instruction(0xE000), Err(Fault::UnsupportedInstruction(0xE000)));
}

#[test]
fn chip_instructions_decode() {
    assert_eq!(decode_instruction(0x00E0), Ok(Instruction::Clear));
    assert_eq!(decode_instruction(0x00EE), Ok(Instruction::Return));
    assert_eq!(decode_instruction(0x1234), Ok(Instruction::Jump(0x234)));
    assert_eq!(decode_instruction(0x2ABC), Ok(Instruction::Call(0xABC)));
    assert_eq!(decode_instruction(0x3A12), Ok(Instruction::SkipEqImm(0xA, 0x12)));
    assert_eq!(decode_instruction(0x8AB4), Ok(Instruction::Add(0xA, 0xB)));
    assert_eq!(decode_instruction(0x8ABE), Ok(Instruction::ShiftLeft(0xA, 0xB)));
    assert_eq!(decode_instruction(0xB300), Ok(Instruction::JumpOffset(0x300)));
    assert_eq!(decode_instruction(0xC3F0), Ok(Instruction::Random(3, 0xF0)));
    assert_eq!(decode_instruction(0xD12F), Ok(Instruction::Draw(1, 2, 15)));
    assert_eq!(decode_instruction(0xE59E), Ok(Instruction::SkipKeyDown(5)));
    assert_eq!(decode_instruction(0xE5A1), Ok(Instruction::SkipKeyUp(5)));
    assert_eq!(decode_instruction(0xF30A), Ok(Instruction::WaitKey(3)));
    assert_eq!(decode_instruction(0xF765), Ok(Instruction::LoadRegs(7)));
    // 0NNN machine calls are not in the table.
    assert_eq!(decode_instruction(0x0123), Err(Fault::UnsupportedInstruction(0x0123)));
}
