//! The instruction set: the pattern table that the chip decodes with, and
//! what each pattern stands for.

use crate::decoder::{decode, metadata, nibble, pattern_matches, well_formed_table, OpcodeMetadata};
use crate::fault::Fault;
use vstd::prelude::*;

verus! {

/// A decoded instruction. `x` and `y` name registers, the other operands
/// are immediates; the comment gives each one's pattern.
#[derive(Clone, Copy, Debug, PartialEq, Eq, Structural)]
pub enum Instruction {
    /// `00E0`
    Clear,
    /// `00EE`
    Return,
    /// `1NNN`
    Jump(u16),
    /// `2NNN`
    Call(u16),
    /// `3XNN`
    SkipEqImm(usize, u8),
    /// `4XNN`
    SkipNeImm(usize, u8),
    /// `5XY0`
    SkipEqReg(usize, usize),
    /// `6XNN`
    LoadImm(usize, u8),
    /// `7XNN`
    AddImm(usize, u8),
    /// `8XY0`
    Assign(usize, usize),
    /// `8XY1`
    Or(usize, usize),
    /// `8XY2`
    And(usize, usize),
    /// `8XY3`
    Xor(usize, usize),
    /// `8XY4`
    Add(usize, usize),
    /// `8XY5`
    Sub(usize, usize),
    /// `8XY6`
    ShiftRight(usize, usize),
    /// `8XY7`
    SubReversed(usize, usize),
    /// `8XYE`
    ShiftLeft(usize, usize),
    /// `9XY0`
    SkipNeReg(usize, usize),
    /// `ANNN`
    LoadIndex(u16),
    /// `BNNN`
    JumpOffset(u16),
    /// `CXNN`
    Random(usize, u8),
    /// `DXYN`
    Draw(usize, usize, u8),
    /// `EX9E`
    SkipKeyDown(usize),
    /// `EXA1`
    SkipKeyUp(usize),
    /// `FX07`
    ReadDelay(usize),
    /// `FX0A`
    WaitKey(usize),
    /// `FX15`
    SetDelay(usize),
    /// `FX18`
    SetSound(usize),
    /// `FX1E`
    AddIndex(usize),
    /// `FX55`
    StoreRegs(usize),
    /// `FX65`
    LoadRegs(usize),
}

/// The number of patterns in the chip's table.
pub const TABLE_LEN: usize = 32;

/// Pattern `k` of the chip's table, in the order in which they are tried.
pub open spec fn chip_pattern(k: int) -> Seq<char> {
    if k == 0 {
        seq!['0', '0', 'E', '0']
    } else if k == 1 {
        seq!['0', '0', 'E', 'E']
    } else if k == 2 {
        seq!['1', 'N', 'N', 'N']
    } else if k == 3 {
        seq!['2', 'N', 'N', 'N']
    } else if k == 4 {
        seq!['3', 'X', 'N', 'N']
    } else if k == 5 {
        seq!['4', 'X', 'N', 'N']
    } else if k == 6 {
        seq!['5', 'X', 'Y', '0']
    } else if k == 7 {
        seq!['6', 'X', 'N', 'N']
    } else if k == 8 {
        seq!['7', 'X', 'N', 'N']
    } else if k == 9 {
        seq!['8', 'X', 'Y', '0']
    } else if k == 10 {
        seq!['8', 'X', 'Y', '1']
    } else if k == 11 {
        seq!['8', 'X', 'Y', '2']
    } else if k == 12 {
        seq!['8', 'X', 'Y', '3']
    } else if k == 13 {
        seq!['8', 'X', 'Y', '4']
    } else if k == 14 {
        seq!['8', 'X', 'Y', '5']
    } else if k == 15 {
        seq!['8', 'X', 'Y', '6']
    } else if k == 16 {
        seq!['8', 'X', 'Y', '7']
    } else if k == 17 {
        seq!['8', 'X', 'Y', 'E']
    } else if k == 18 {
        seq!['9', 'X', 'Y', '0']
    } else if k == 19 {
        seq!['A', 'N', 'N', 'N']
    } else if k == 20 {
        seq!['B', 'N', 'N', 'N']
    } else if k == 21 {
        seq!['C', 'X', 'N', 'N']
    } else if k == 22 {
        seq!['D', 'X', 'Y', 'N']
    } else if k == 23 {
        seq!['E', 'X', '9', 'E']
    } else if k == 24 {
        seq!['E', 'X', 'A', '1']
    } else if k == 25 {
        seq!['F', 'X', '0', '7']
    } else if k == 26 {
        seq!['F', 'X', '0', 'A']
    } else if k == 27 {
        seq!['F', 'X', '1', '5']
    } else if k == 28 {
        seq!['F', 'X', '1', '8']
    } else if k == 29 {
        seq!['F', 'X', '1', 'E']
    } else if k == 30 {
        seq!['F', 'X', '5', '5']
    } else {
        seq!['F', 'X', '6', '5']
    }
}

/// The instruction that pattern `k` stands for, with the fields `m` that it
/// extracted.
pub open spec fn pattern_instruction(k: int, m: OpcodeMetadata) -> Instruction {
    if k == 0 {
        Instruction::Clear
    } else if k == 1 {
        Instruction::Return
    } else if k == 2 {
        Instruction::Jump(m.n)
    } else if k == 3 {
        Instruction::Call(m.n)
    } else if k == 4 {
        Instruction::SkipEqImm(m.x, m.n as u8)
    } else if k == 5 {
        Instruction::SkipNeImm(m.x, m.n as u8)
    } else if k == 6 {
        Instruction::SkipEqReg(m.x, m.y)
    } else if k == 7 {
        Instruction::LoadImm(m.x, m.n as u8)
    } else if k == 8 {
        Instruction::AddImm(m.x, m.n as u8)
    } else if k == 9 {
        Instruction::Assign(m.x, m.y)
    } else if k == 10 {
        Instruction::Or(m.x, m.y)
    } else if k == 11 {
        Instruction::And(m.x, m.y)
    } else if k == 12 {
        Instruction::Xor(m.x, m.y)
    } else if k == 13 {
        Instruction::Add(m.x, m.y)
    } else if k == 14 {
        Instruction::Sub(m.x, m.y)
    } else if k == 15 {
        Instruction::ShiftRight(m.x, m.y)
    } else if k == 16 {
        Instruction::SubReversed(m.x, m.y)
    } else if k == 17 {
        Instruction::ShiftLeft(m.x, m.y)
    } else if k == 18 {
        Instruction::SkipNeReg(m.x, m.y)
    } else if k == 19 {
        Instruction::LoadIndex(m.n)
    } else if k == 20 {
        Instruction::JumpOffset(m.n)
    } else if k == 21 {
        Instruction::Random(m.x, m.n as u8)
    } else if k == 22 {
        Instruction::Draw(m.x, m.y, m.n as u8)
    } else if k == 23 {
        Instruction::SkipKeyDown(m.x)
    } else if k == 24 {
        Instruction::SkipKeyUp(m.x)
    } else if k == 25 {
        Instruction::ReadDelay(m.x)
    } else if k == 26 {
        Instruction::WaitKey(m.x)
    } else if k == 27 {
        Instruction::SetDelay(m.x)
    } else if k == 28 {
        Instruction::SetSound(m.x)
    } else if k == 29 {
        Instruction::AddIndex(m.x)
    } else if k == 30 {
        Instruction::StoreRegs(m.x)
    } else {
        Instruction::LoadRegs(m.x)
    }
}

/// The first pattern of the chip's table, from `k` on, that `inst` matches.
pub open spec fn chip_first_match(inst: u16, k: int) -> Option<int>
    decreases TABLE_LEN - k,
{
    if k < 0 || k >= TABLE_LEN {
        None
    } else if pattern_matches(inst, chip_pattern(k)) {
        Some(k)
    } else {
        chip_first_match(inst, k + 1)
    }
}

/// The instruction that the word `inst` decodes to, if any pattern of the
/// chip's table matches it.
pub open spec fn decoded(inst: u16) -> Option<Instruction> {
    match chip_first_match(inst, 0) {
        Some(k) => Some(pattern_instruction(k, metadata(inst, chip_pattern(k)))),
        None => None,
    }
}

/// Register operands name one of the sixteen registers; a sprite is at
/// most fifteen rows high.
pub open spec fn operands_valid(op: Instruction) -> bool {
    match op {
        Instruction::SkipEqImm(x, _) => x < 16,
        Instruction::SkipNeImm(x, _) => x < 16,
        Instruction::SkipEqReg(x, y) => x < 16 && y < 16,
        Instruction::LoadImm(x, _) => x < 16,
        Instruction::AddImm(x, _) => x < 16,
        Instruction::Assign(x, y) => x < 16 && y < 16,
        Instruction::Or(x, y) => x < 16 && y < 16,
        Instruction::And(x, y) => x < 16 && y < 16,
        Instruction::Xor(x, y) => x < 16 && y < 16,
        Instruction::Add(x, y) => x < 16 && y < 16,
        Instruction::Sub(x, y) => x < 16 && y < 16,
        Instruction::ShiftRight(x, y) => x < 16 && y < 16,
        Instruction::SubReversed(x, y) => x < 16 && y < 16,
        Instruction::ShiftLeft(x, y) => x < 16 && y < 16,
        Instruction::SkipNeReg(x, y) => x < 16 && y < 16,
        Instruction::Random(x, _) => x < 16,
        Instruction::Draw(x, y, n) => x < 16 && y < 16 && n < 16,
        Instruction::SkipKeyDown(x) => x < 16,
        Instruction::SkipKeyUp(x) => x < 16,
        Instruction::ReadDelay(x) => x < 16,
        Instruction::WaitKey(x) => x < 16,
        Instruction::SetDelay(x) => x < 16,
        Instruction::SetSound(x) => x < 16,
        Instruction::AddIndex(x) => x < 16,
        Instruction::StoreRegs(x) => x < 16,
        Instruction::LoadRegs(x) => x < 16,
        _ => true,
    }
}

/// Pattern `k` of the chip's table as text.
fn pattern_text(k: usize) -> (r: &'static str)
    requires
        k < TABLE_LEN,
    ensures
        r@ == chip_pattern(k as int),
{
    if k == 0 {
        proof { reveal_strlit("00E0"); }
        "00E0"
    } else if k == 1 {
        proof { reveal_strlit("00EE"); }
        "00EE"
    } else if k == 2 {
        proof { reveal_strlit("1NNN"); }
        "1NNN"
    } else if k == 3 {
        proof { reveal_strlit("2NNN"); }
        "2NNN"
    } else if k == 4 {
        proof { reveal_strlit("3XNN"); }
        "3XNN"
    } else if k == 5 {
        proof { reveal_strlit("4XNN"); }
        "4XNN"
    } else if k == 6 {
        proof { reveal_strlit("5XY0"); }
        "5XY0"
    } else if k == 7 {
        proof { reveal_strlit("6XNN"); }
        "6XNN"
    } else if k == 8 {
        proof { reveal_strlit("7XNN"); }
        "7XNN"
    } else if k == 9 {
        proof { reveal_strlit("8XY0"); }
        "8XY0"
    } else if k == 10 {
        proof { reveal_strlit("8XY1"); }
        "8XY1"
    } else if k == 11 {
        proof { reveal_strlit("8XY2"); }
        "8XY2"
    } else if k == 12 {
        proof { reveal_strlit("8XY3"); }
        "8XY3"
    } else if k == 13 {
        proof { reveal_strlit("8XY4"); }
        "8XY4"
    } else if k == 14 {
        proof { reveal_strlit("8XY5"); }
        "8XY5"
    } else if k == 15 {
        proof { reveal_strlit("8XY6"); }
        "8XY6"
    } else if k == 16 {
        proof { reveal_strlit("8XY7"); }
        "8XY7"
    } else if k == 17 {
        proof { reveal_strlit("8XYE"); }
        "8XYE"
    } else if k == 18 {
        proof { reveal_strlit("9XY0"); }
        "9XY0"
    } else if k == 19 {
        proof { reveal_strlit("ANNN"); }
        "ANNN"
    } else if k == 20 {
        proof { reveal_strlit("BNNN"); }
        "BNNN"
    } else if k == 21 {
        proof { reveal_strlit("CXNN"); }
        "CXNN"
    } else if k == 22 {
        proof { reveal_strlit("DXYN"); }
        "DXYN"
    } else if k == 23 {
        proof { reveal_strlit("EX9E"); }
        "EX9E"
    } else if k == 24 {
        proof { reveal_strlit("EXA1"); }
        "EXA1"
    } else if k == 25 {
        proof { reveal_strlit("FX07"); }
        "FX07"
    } else if k == 26 {
        proof { reveal_strlit("FX0A"); }
        "FX0A"
    } else if k == 27 {
        proof { reveal_strlit("FX15"); }
        "FX15"
    } else if k == 28 {
        proof { reveal_strlit("FX18"); }
        "FX18"
    } else if k == 29 {
        proof { reveal_strlit("FX1E"); }
        "FX1E"
    } else if k == 30 {
        proof { reveal_strlit("FX55"); }
        "FX55"
    } else {
        proof { reveal_strlit("FX65"); }
        "FX65"
    }
}

/// The chip's pattern table, in the order in which patterns are tried.
pub fn chip_table() -> (t: Vec<&'static str>)
    ensures
        t@.len() == TABLE_LEN,
        forall|k: int| 0 <= k < TABLE_LEN ==> (#[trigger] t@[k])@ == chip_pattern(k),
        well_formed_table(t@),
{
    let mut t: Vec<&'static str> = Vec::new();
    let mut k: usize = 0;
    while k < TABLE_LEN
        invariant
            k <= TABLE_LEN,
            t@.len() == k,
            forall|j: int| 0 <= j < k ==> (#[trigger] t@[j])@ == chip_pattern(j),
        decreases TABLE_LEN - k,
    {
        t.push(pattern_text(k));
        k = k + 1;
    }
    assert forall|j: int| 0 <= j < t@.len() implies (#[trigger] t@[j])@.len() == 4 by {
        assert(t@[j]@ == chip_pattern(j));
    }
    t
}

pub(crate) proof fn lemma_first_match_at(inst: u16, from: int, k: int)
    requires
        0 <= from <= k < TABLE_LEN,
        pattern_matches(inst, chip_pattern(k)),
        forall|j: int| from <= j < k ==> !pattern_matches(inst, #[trigger] chip_pattern(j)),
    ensures
        chip_first_match(inst, from) == Some(k),
    decreases k - from,
{
    if from < k {
        lemma_first_match_at(inst, from + 1, k);
    }
}

proof fn lemma_no_match(inst: u16, from: int)
    requires
        0 <= from <= TABLE_LEN,
        forall|j: int| from <= j < TABLE_LEN ==> !pattern_matches(inst, #[trigger] chip_pattern(j)),
    ensures
        chip_first_match(inst, from) == None::<int>,
    decreases TABLE_LEN - from,
{
    if from < TABLE_LEN {
        lemma_no_match(inst, from + 1);
    }
}

/// What pattern `k` stands for, given the fields it extracted from `inst`.
fn instruction_at(k: usize, m: OpcodeMetadata, Ghost(inst): Ghost<u16>) -> (r: Instruction)
    requires
        k < TABLE_LEN,
        m == metadata(inst, chip_pattern(k as int)),
    ensures
        r == pattern_instruction(k as int, m),
        operands_valid(r),
{
    assert(nibble(inst, 1) < 16 && nibble(inst, 2) < 16 && nibble(inst, 3) < 16);
    if k == 0 {
        Instruction::Clear
    } else if k == 1 {
        Instruction::Return
    } else if k == 2 {
        Instruction::Jump(m.n)
    } else if k == 3 {
        Instruction::Call(m.n)
    } else if k == 4 {
        Instruction::SkipEqImm(m.x, m.n as u8)
    } else if k == 5 {
        Instruction::SkipNeImm(m.x, m.n as u8)
    } else if k == 6 {
        Instruction::SkipEqReg(m.x, m.y)
    } else if k == 7 {
        Instruction::LoadImm(m.x, m.n as u8)
    } else if k == 8 {
        Instruction::AddImm(m.x, m.n as u8)
    } else if k == 9 {
        Instruction::Assign(m.x, m.y)
    } else if k == 10 {
        Instruction::Or(m.x, m.y)
    } else if k == 11 {
        Instruction::And(m.x, m.y)
    } else if k == 12 {
        Instruction::Xor(m.x, m.y)
    } else if k == 13 {
        Instruction::Add(m.x, m.y)
    } else if k == 14 {
        Instruction::Sub(m.x, m.y)
    } else if k == 15 {
        Instruction::ShiftRight(m.x, m.y)
    } else if k == 16 {
        Instruction::SubReversed(m.x, m.y)
    } else if k == 17 {
        Instruction::ShiftLeft(m.x, m.y)
    } else if k == 18 {
        Instruction::SkipNeReg(m.x, m.y)
    } else if k == 19 {
        Instruction::LoadIndex(m.n)
    } else if k == 20 {
        Instruction::JumpOffset(m.n)
    } else if k == 21 {
        Instruction::Random(m.x, m.n as u8)
    } else if k == 22 {
        Instruction::Draw(m.x, m.y, m.n as u8)
    } else if k == 23 {
        Instruction::SkipKeyDown(m.x)
    } else if k == 24 {
        Instruction::SkipKeyUp(m.x)
    } else if k == 25 {
        Instruction::ReadDelay(m.x)
    } else if k == 26 {
        Instruction::WaitKey(m.x)
    } else if k == 27 {
        Instruction::SetDelay(m.x)
    } else if k == 28 {
        Instruction::SetSound(m.x)
    } else if k == 29 {
        Instruction::AddIndex(m.x)
    } else if k == 30 {
        Instruction::StoreRegs(m.x)
    } else {
        Instruction::LoadRegs(m.x)
    }
}

/// Decodes an instruction word with the chip's pattern table; a word that
/// no pattern matches is an unsupported instruction.
pub fn decode_instruction(inst: u16) -> (r: Result<Instruction, Fault>)
    ensures
        match decoded(inst) {
            Some(op) => r == Ok::<Instruction, Fault>(op),
            None => r == Err::<Instruction, Fault>(Fault::UnsupportedInstruction(inst)),
        },
        r matches Ok(op) ==> operands_valid(op),
{
    let table = chip_table();
    match decode(inst, table.as_slice()) {
        Ok((k, m)) => {
            proof {
                assert forall|j: int| 0 <= j < k implies !pattern_matches(
                    inst,
                    #[trigger] chip_pattern(j),
                ) by {
                    assert(table@[j]@ == chip_pattern(j));
                }
                assert(table@[k as int]@ == chip_pattern(k as int));
                lemma_first_match_at(inst, 0, k as int);
            }
            Ok(instruction_at(k, m, Ghost(inst)))
        },
        Err(f) => {
            proof {
                assert forall|j: int| 0 <= j < TABLE_LEN implies !pattern_matches(
                    inst,
                    #[trigger] chip_pattern(j),
                ) by {
                    assert(table@[j]@ == chip_pattern(j));
                }
                lemma_no_match(inst, 0);
            }
            Err(f)
        },
    }
}

} // verus!
