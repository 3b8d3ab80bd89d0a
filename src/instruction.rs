//! Instruction words and their decoding into an explicit instruction type.

use vstd::prelude::*;

verus! {

/// The high nibble of an instruction word: the instruction family.
pub open spec fn family(op: u16) -> u16 {
    (op >> 12u16) & 0xFu16
}

/// The second nibble (`x`): the first operand register.
pub open spec fn field_x(op: u16) -> u16 {
    (op >> 8u16) & 0xFu16
}

/// The third nibble (`y`): the second operand register.
pub open spec fn field_y(op: u16) -> u16 {
    (op >> 4u16) & 0xFu16
}

/// The low nibble (`n`): a 4-bit immediate or a sprite height.
pub open spec fn field_n(op: u16) -> u16 {
    op & 0xFu16
}

/// The low byte (`nn`): an 8-bit immediate.
pub open spec fn field_nn(op: u16) -> u16 {
    op & 0xFFu16
}

/// The low twelve bits (`nnn`): an address.
pub open spec fn field_nnn(op: u16) -> u16 {
    op & 0xFFFu16
}

/// The instruction word formed by two bytes, the first one high.
pub open spec fn word_of(hi: u8, lo: u8) -> u16 {
    ((hi as u16) << 8u16) | (lo as u16)
}

/// The fields of a word all stay within their widths.
pub proof fn lemma_fields_bounded(op: u16)
    ensures
        family(op) < 16,
        field_x(op) < 16,
        field_y(op) < 16,
        field_n(op) < 16,
        field_nn(op) < 256,
        field_nnn(op) < 4096,
{
    assert(((op >> 12u16) & 0xFu16) < 16) by (bit_vector);
    assert(((op >> 8u16) & 0xFu16) < 16) by (bit_vector);
    assert(((op >> 4u16) & 0xFu16) < 16) by (bit_vector);
    assert((op & 0xFu16) < 16) by (bit_vector);
    assert((op & 0xFFu16) < 256) by (bit_vector);
    assert((op & 0xFFFu16) < 4096) by (bit_vector);
}

/// One decoded instruction. Register operands are indices below 16.
#[derive(Clone, Copy, Debug, PartialEq, Eq, Structural)]
pub enum Instruction {
    /// `00E0`: clear the display.
    ClearScreen,
    /// `00EE`: return from a subroutine.
    Return,
    /// `1nnn`: jump to `nnn`.
    Jump { addr: u16 },
    /// `2nnn`: call the subroutine at `nnn`.
    Call { addr: u16 },
    /// `3xnn`: skip the next instruction if `Vx == nn`.
    SkipEqImm { x: usize, nn: u8 },
    /// `4xnn`: skip the next instruction if `Vx != nn`.
    SkipNeImm { x: usize, nn: u8 },
    /// `5xy_`: skip the next instruction if `Vx == Vy`.
    SkipEqReg { x: usize, y: usize },
    /// `6xnn`: `Vx = nn`.
    LoadImm { x: usize, nn: u8 },
    /// `7xnn`: `Vx += nn`, wrapping, flag untouched.
    AddImm { x: usize, nn: u8 },
    /// `8xy0`: `Vx = Vy`.
    Copy { x: usize, y: usize },
    /// `8xy1`: `Vx |= Vy`.
    Or { x: usize, y: usize },
    /// `8xy2`: `Vx &= Vy`.
    And { x: usize, y: usize },
    /// `8xy3`: `Vx ^= Vy`.
    Xor { x: usize, y: usize },
    /// `8xy4`: `Vx += Vy`, flag set on carry.
    AddReg { x: usize, y: usize },
    /// `8xy5`: `Vx -= Vy`, flag set when there is no borrow.
    SubReg { x: usize, y: usize },
    /// `8xy6`: `Vx >>= 1`, flag takes the bit shifted out.
    ShiftRight { x: usize },
    /// `8xy7`: `Vx = Vy - Vx`, flag set when there is no borrow.
    SubRev { x: usize, y: usize },
    /// `8xyE`: `Vx <<= 1`, flag takes the masked top bit.
    ShiftLeft { x: usize },
    /// `9xy_`: skip the next instruction if `Vx != Vy`.
    SkipNeReg { x: usize, y: usize },
    /// `Annn`: `I = nnn`.
    SetIndex { addr: u16 },
    /// `Bnnn`: jump to `nnn + V0`.
    JumpOffset { addr: u16 },
    /// `Cxnn`: `Vx = random byte & nn`.
    Random { x: usize, nn: u8 },
    /// `Dxyn`: draw an `n`-row sprite from `I` at `(Vx, Vy)`.
    Draw { x: usize, y: usize, n: u8 },
    /// `Ex9E`: skip the next instruction if the key `Vx & 0xF` is down.
    SkipKey { x: usize },
    /// `ExA1`: skip the next instruction if the key `Vx & 0xF` is up.
    SkipNoKey { x: usize },
    /// `Fx07`: `Vx = delay timer`.
    GetDelay { x: usize },
    /// `Fx0A`: wait for a key press and store its index in `Vx`.
    WaitKey { x: usize },
    /// `Fx15`: `delay timer = Vx`.
    SetDelay { x: usize },
    /// `Fx18`: `sound timer = Vx`.
    SetSound { x: usize },
    /// `Fx1E`: `I += Vx` modulo the memory size, flag set on wrap; also
    /// `sound timer = Vx`.
    AddIndex { x: usize },
    /// `Fx29`: `I` = address of the glyph for the low nibble of `Vx`.
    FontGlyph { x: usize },
    /// `Fx33`: store the decimal digits of `Vx` at `I`, `I+1`, `I+2`.
    StoreBcd { x: usize },
    /// `Fx55`: store `V0..=Vx` at `I..`.
    StoreRegs { x: usize },
    /// `Fx65`: load `V0..=Vx` from `I..`.
    LoadRegs { x: usize },
}

/// The instruction that a word encodes, if it encodes one.
pub open spec fn decoded(op: u16) -> Option<Instruction> {
    let x = field_x(op) as usize;
    let y = field_y(op) as usize;
    let n = field_n(op);
    let nn = field_nn(op) as u8;
    let nnn = field_nnn(op);
    match (family(op), field_x(op), field_y(op), n) {
        (0x0, 0x0, 0xE, 0x0) => Some(Instruction::ClearScreen),
        (0x0, 0x0, 0xE, 0xE) => Some(Instruction::Return),
        (0x1, _, _, _) => Some(Instruction::Jump { addr: nnn }),
        (0x2, _, _, _) => Some(Instruction::Call { addr: nnn }),
        (0x3, _, _, _) => Some(Instruction::SkipEqImm { x, nn }),
        (0x4, _, _, _) => Some(Instruction::SkipNeImm { x, nn }),
        (0x5, _, _, _) => Some(Instruction::SkipEqReg { x, y }),
        (0x6, _, _, _) => Some(Instruction::LoadImm { x, nn }),
        (0x7, _, _, _) => Some(Instruction::AddImm { x, nn }),
        (0x8, _, _, 0x0) => Some(Instruction::Copy { x, y }),
        (0x8, _, _, 0x1) => Some(Instruction::Or { x, y }),
        (0x8, _, _, 0x2) => Some(Instruction::And { x, y }),
        (0x8, _, _, 0x3) => Some(Instruction::Xor { x, y }),
        (0x8, _, _, 0x4) => Some(Instruction::AddReg { x, y }),
        (0x8, _, _, 0x5) => Some(Instruction::SubReg { x, y }),
        (0x8, _, _, 0x6) => Some(Instruction::ShiftRight { x }),
        (0x8, _, _, 0x7) => Some(Instruction::SubRev { x, y }),
        (0x8, _, _, 0xE) => Some(Instruction::ShiftLeft { x }),
        (0x9, _, _, _) => Some(Instruction::SkipNeReg { x, y }),
        (0xA, _, _, _) => Some(Instruction::SetIndex { addr: nnn }),
        (0xB, _, _, _) => Some(Instruction::JumpOffset { addr: nnn }),
        (0xC, _, _, _) => Some(Instruction::Random { x, nn }),
        (0xD, _, _, _) => Some(Instruction::Draw { x, y, n: n as u8 }),
        (0xE, _, 0x9, 0xE) => Some(Instruction::SkipKey { x }),
        (0xE, _, 0xA, 0x1) => Some(Instruction::SkipNoKey { x }),
        (0xF, _, 0x0, 0x7) => Some(Instruction::GetDelay { x }),
        (0xF, _, 0x0, 0xA) => Some(Instruction::WaitKey { x }),
        (0xF, _, 0x1, 0x5) => Some(Instruction::SetDelay { x }),
        (0xF, _, 0x1, 0x8) => Some(Instruction::SetSound { x }),
        (0xF, _, 0x1, 0xE) => Some(Instruction::AddIndex { x }),
        (0xF, _, 0x2, 0x9) => Some(Instruction::FontGlyph { x }),
        (0xF, _, 0x3, 0x3) => Some(Instruction::StoreBcd { x }),
        (0xF, _, 0x5, 0x5) => Some(Instruction::StoreRegs { x }),
        (0xF, _, 0x6, 0x5) => Some(Instruction::LoadRegs { x }),
        _ => None,
    }
}

/// Every register operand of a decoded instruction is below 16, and every
/// sprite height is below 16.
pub open spec fn operands_in_range(ins: Instruction) -> bool {
    match ins {
        Instruction::SkipEqImm { x, .. } | Instruction::SkipNeImm { x, .. }
        | Instruction::LoadImm { x, .. } | Instruction::AddImm { x, .. }
        | Instruction::ShiftRight { x } | Instruction::ShiftLeft { x }
        | Instruction::Random { x, .. } | Instruction::SkipKey { x }
        | Instruction::SkipNoKey { x } | Instruction::GetDelay { x }
        | Instruction::WaitKey { x } | Instruction::SetDelay { x }
        | Instruction::SetSound { x } | Instruction::AddIndex { x }
        | Instruction::FontGlyph { x } | Instruction::StoreBcd { x }
        | Instruction::StoreRegs { x } | Instruction::LoadRegs { x } => x < 16,
        Instruction::SkipEqReg { x, y } | Instruction::Copy { x, y }
        | Instruction::Or { x, y } | Instruction::And { x, y }
        | Instruction::Xor { x, y } | Instruction::AddReg { x, y }
        | Instruction::SubReg { x, y } | Instruction::SubRev { x, y }
        | Instruction::SkipNeReg { x, y } => x < 16 && y < 16,
        Instruction::Draw { x, y, n } => x < 16 && y < 16 && n < 16,
        Instruction::Jump { addr } | Instruction::Call { addr }
        | Instruction::SetIndex { addr } | Instruction::JumpOffset { addr } => addr < 4096,
        _ => true,
    }
}

/// Forms the instruction word from the byte at an address and the byte after
/// it, the first one high.
pub fn word(hi: u8, lo: u8) -> (r: u16)
    ensures
        r == word_of(hi, lo),
{
    ((hi as u16) << 8u16) | (lo as u16)
}

/// Decodes an instruction word; `None` for a word that encodes no instruction.
pub fn decode(op: u16) -> (r: Option<Instruction>)
    ensures
        r == decoded(op),
        r matches Some(ins) ==> operands_in_range(ins),
{
    proof {
        lemma_fields_bounded(op);
    }
    let x = ((op >> 8u16) & 0xFu16) as usize;
    let y = ((op >> 4u16) & 0xFu16) as usize;
    let n = op & 0xFu16;
    let nn = (op & 0xFFu16) as u8;
    let nnn = op & 0xFFFu16;
    match ((op >> 12u16) & 0xFu16, (op >> 8u16) & 0xFu16, (op >> 4u16) & 0xFu16, n) {
        (0x0, 0x0, 0xE, 0x0) => Some(Instruction::ClearScreen),
        (0x0, 0x0, 0xE, 0xE) => Some(Instruction::Return),
        (0x1, _, _, _) => Some(Instruction::Jump { addr: nnn }),
        (0x2, _, _, _) => Some(Instruction::Call { addr: nnn }),
        (0x3, _, _, _) => Some(Instruction::SkipEqImm { x, nn }),
        (0x4, _, _, _) => Some(Instruction::SkipNeImm { x, nn }),
        (0x5, _, _, _) => Some(Instruction::SkipEqReg { x, y }),
        (0x6, _, _, _) => Some(Instruction::LoadImm { x, nn }),
        (0x7, _, _, _) => Some(Instruction::AddImm { x, nn }),
        (0x8, _, _, 0x0) => Some(Instruction::Copy { x, y }),
        (0x8, _, _, 0x1) => Some(Instruction::Or { x, y }),
        (0x8, _, _, 0x2) => Some(Instruction::And { x, y }),
        (0x8, _, _, 0x3) => Some(Instruction::Xor { x, y }),
        (0x8, _, _, 0x4) => Some(Instruction::AddReg { x, y }),
        (0x8, _, _, 0x5) => Some(Instruction::SubReg { x, y }),
        (0x8, _, _, 0x6) => Some(Instruction::ShiftRight { x }),
        (0x8, _, _, 0x7) => Some(Instruction::SubRev { x, y }),
        (0x8, _, _, 0xE) => Some(Instruction::ShiftLeft { x }),
        (0x9, _, _, _) => Some(Instruction::SkipNeReg { x, y }),
        (0xA, _, _, _) => Some(Instruction::SetIndex { addr: nnn }),
        (0xB, _, _, _) => Some(Instruction::JumpOffset { addr: nnn }),
        (0xC, _, _, _) => Some(Instruction::Random { x, nn }),
        (0xD, _, _, _) => Some(Instruction::Draw { x, y, n: n as u8 }),
        (0xE, _, 0x9, 0xE) => Some(Instruction::SkipKey { x }),
        (0xE, _, 0xA, 0x1) => Some(Instruction::SkipNoKey { x }),
        (0xF, _, 0x0, 0x7) => Some(Instruction::GetDelay { x }),
        (0xF, _, 0x0, 0xA) => Some(Instruction::WaitKey { x }),
        (0xF, _, 0x1, 0x5) => Some(Instruction::SetDelay { x }),
        (0xF, _, 0x1, 0x8) => Some(Instruction::SetSound { x }),
        (0xF, _, 0x1, 0xE) => Some(Instruction::AddIndex { x }),
        (0xF, _, 0x2, 0x9) => Some(Instruction::FontGlyph { x }),
        (0xF, _, 0x3, 0x3) => Some(Instruction::StoreBcd { x }),
        (0xF, _, 0x5, 0x5) => Some(Instruction::StoreRegs { x }),
        (0xF, _, 0x6, 0x5) => Some(Instruction::LoadRegs { x }),
        _ => None,
    }
}

/// Decoding depends on the two bytes of the word alone: two memories that
/// agree on the bytes at `pc` and `pc + 1` yield the same word, the same
/// fields and the same instruction there.
pub proof fn lemma_decode_stable(m1: Seq<u8>, m2: Seq<u8>, pc: int)
    requires
        0 <= pc,
        pc + 1 < m1.len(),
        pc + 1 < m2.len(),
        m1[pc] == m2[pc],
        m1[pc + 1] == m2[pc + 1],
    ensures
        ({
            let w1 = word_of(m1[pc], m1[pc + 1]);
            let w2 = word_of(m2[pc], m2[pc + 1]);
            &&& w1 == w2
            &&& field_x(w1) == field_x(w2)
            &&& field_y(w1) == field_y(w2)
            &&& field_n(w1) == field_n(w2)
            &&& field_nn(w1) == field_nn(w2)
            &&& field_nnn(w1) == field_nnn(w2)
            &&& decoded(w1) == decoded(w2)
        }),
{
}

} // verus!
