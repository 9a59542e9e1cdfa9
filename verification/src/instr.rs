//! Decoding of 16-bit instruction words into an explicit instruction type.
//!
//! A word is split into four 4-bit fields; `x` and `y` name registers, and
//! `nnn` / `nn` / `n` are the embedded 12-, 8- and 4-bit literals. A word that
//! matches no pattern of the opcode table decodes to `Unknown`, which executes
//! as a typed error rather than a silent no-op.

use vstd::prelude::*;

verus! {

#[derive(Clone, Copy, Debug, PartialEq, Eq, Structural)]
pub enum Instruction {
    /// `00E0`: clear the framebuffer.
    ClearScreen,
    /// `00EE`: pop the return address into the program counter.
    Return,
    /// `1NNN`: jump.
    Jump { nnn: u16 },
    /// `2NNN`: call a subroutine.
    Call { nnn: u16 },
    /// `3XNN`: skip the next instruction if `Vx == NN`.
    SkipEqByte { x: u8, nn: u8 },
    /// `4XNN`: skip the next instruction if `Vx != NN`.
    SkipNeByte { x: u8, nn: u8 },
    /// `5XY0`: skip the next instruction if `Vx == Vy`.
    SkipEqReg { x: u8, y: u8 },
    /// `6XNN`: `Vx = NN`.
    LoadByte { x: u8, nn: u8 },
    /// `7XNN`: `Vx += NN`, wrapping, no flag.
    AddByte { x: u8, nn: u8 },
    /// `8XY0`: `Vx = Vy`.
    MoveReg { x: u8, y: u8 },
    /// `8XY1`: `Vx |= Vy`.
    OrReg { x: u8, y: u8 },
    /// `8XY2`: `Vx &= Vy`.
    AndReg { x: u8, y: u8 },
    /// `8XY3`: `Vx ^= Vy`.
    XorReg { x: u8, y: u8 },
    /// `8XY4`: `Vx += Vy`, wrapping; `VF` = carry.
    AddReg { x: u8, y: u8 },
    /// `8XY5`: `Vx -= Vy`, wrapping; `VF` = 1 iff no borrow.
    SubReg { x: u8, y: u8 },
    /// `8XY6`: `VF` = low bit of `Vx`; `Vx >>= 1`.
    ShiftRight { x: u8 },
    /// `8XY7`: `Vx = Vy - Vx`, wrapping; `VF` = 1 iff no borrow.
    SubFrom { x: u8, y: u8 },
    /// `8XYE`: `VF` = high bit of `Vx`; `Vx <<= 1`, wrapping.
    ShiftLeft { x: u8 },
    /// `9XY0`: skip the next instruction if `Vx != Vy`.
    SkipNeReg { x: u8, y: u8 },
    /// `ANNN`: `Index = NNN`.
    LoadIndex { nnn: u16 },
    /// `BNNN`: `Index = NNN + V0`.
    IndexOffset { nnn: u16 },
    /// `CXNN`: `Vx` = random byte AND `NN`.
    Random { x: u8, nn: u8 },
    /// `DXYN`: blit the `N`-byte sprite at `memory[Index..]` to `(Vx, Vy)`.
    Draw { x: u8, y: u8, n: u8 },
    /// `EX9E`: skip if the key named by `Vx` is pressed.
    SkipKey { x: u8 },
    /// `EXA1`: skip if the key named by `Vx` is not pressed.
    SkipNoKey { x: u8 },
    /// `FX07`: `Vx` = delay timer.
    ReadDelay { x: u8 },
    /// `FX0A`: spin until a key is pressed, then latch it into `Vx`.
    WaitKey { x: u8 },
    /// `FX15`: delay timer = `Vx`.
    SetDelay { x: u8 },
    /// `FX18`: sound timer = `Vx`.
    SetSound { x: u8 },
    /// `FX1E`: `Index += Vx`, wrapping.
    AddIndex { x: u8 },
    /// `FX29`: `Index` = address of the built-in glyph for `Vx`.
    FontIndex { x: u8 },
    /// `FX33`: store `Vx` as three decimal digits at `memory[Index..]`.
    StoreDigits { x: u8 },
    /// `FX55`: store `V0..=Vx` at `memory[Index..]`.
    StoreRegs { x: u8 },
    /// `FX65`: load `V0..=Vx` from `memory[Index..]`.
    LoadRegs { x: u8 },
    /// No entry of the opcode table matches.
    Unknown,
}

/// Register fields fit in `0..16`, `n` in `0..16`, `nnn` in `0..4096`.
pub open spec fn instr_fields_valid(instr: Instruction) -> bool {
    match instr {
        Instruction::Jump { nnn } => nnn < 4096,
        Instruction::Call { nnn } => nnn < 4096,
        Instruction::SkipEqByte { x, nn } => x < 16,
        Instruction::SkipNeByte { x, nn } => x < 16,
        Instruction::SkipEqReg { x, y } => x < 16 && y < 16,
        Instruction::LoadByte { x, nn } => x < 16,
        Instruction::AddByte { x, nn } => x < 16,
        Instruction::MoveReg { x, y } => x < 16 && y < 16,
        Instruction::OrReg { x, y } => x < 16 && y < 16,
        Instruction::AndReg { x, y } => x < 16 && y < 16,
        Instruction::XorReg { x, y } => x < 16 && y < 16,
        Instruction::AddReg { x, y } => x < 16 && y < 16,
        Instruction::SubReg { x, y } => x < 16 && y < 16,
        Instruction::ShiftRight { x } => x < 16,
        Instruction::SubFrom { x, y } => x < 16 && y < 16,
        Instruction::ShiftLeft { x } => x < 16,
        Instruction::SkipNeReg { x, y } => x < 16 && y < 16,
        Instruction::LoadIndex { nnn } => nnn < 4096,
        Instruction::IndexOffset { nnn } => nnn < 4096,
        Instruction::Random { x, nn } => x < 16,
        Instruction::Draw { x, y, n } => x < 16 && y < 16 && n < 16,
        Instruction::SkipKey { x } => x < 16,
        Instruction::SkipNoKey { x } => x < 16,
        Instruction::ReadDelay { x } => x < 16,
        Instruction::WaitKey { x } => x < 16,
        Instruction::SetDelay { x } => x < 16,
        Instruction::SetSound { x } => x < 16,
        Instruction::AddIndex { x } => x < 16,
        Instruction::FontIndex { x } => x < 16,
        Instruction::StoreDigits { x } => x < 16,
        Instruction::StoreRegs { x } => x < 16,
        Instruction::LoadRegs { x } => x < 16,
        _ => true,
    }
}

/// The opcode table as a function of the instruction word.
pub open spec fn spec_decode(op: u16) -> Instruction {
    let h = op >> 12;
    let x = ((op >> 8) & 0xF) as u8;
    let y = ((op >> 4) & 0xF) as u8;
    let n = (op & 0xF) as u8;
    let nn = (op & 0xFF) as u8;
    let nnn = op & 0xFFF;
    if op == 0x00E0 {
        Instruction::ClearScreen
    } else if op == 0x00EE {
        Instruction::Return
    } else if h == 0x1 {
        Instruction::Jump { nnn }
    } else if h == 0x2 {
        Instruction::Call { nnn }
    } else if h == 0x3 {
        Instruction::SkipEqByte { x, nn }
    } else if h == 0x4 {
        Instruction::SkipNeByte { x, nn }
    } else if h == 0x5 && n == 0x0 {
        Instruction::SkipEqReg { x, y }
    } else if h == 0x6 {
        Instruction::LoadByte { x, nn }
    } else if h == 0x7 {
        Instruction::AddByte { x, nn }
    } else if h == 0x8 && n == 0x0 {
        Instruction::MoveReg { x, y }
    } else if h == 0x8 && n == 0x1 {
        Instruction::OrReg { x, y }
    } else if h == 0x8 && n == 0x2 {
        Instruction::AndReg { x, y }
    } else if h == 0x8 && n == 0x3 {
        Instruction::XorReg { x, y }
    } else if h == 0x8 && n == 0x4 {
        Instruction::AddReg { x, y }
    } else if h == 0x8 && n == 0x5 {
        Instruction::SubReg { x, y }
    } else if h == 0x8 && n == 0x6 {
        Instruction::ShiftRight { x }
    } else if h == 0x8 && n == 0x7 {
        Instruction::SubFrom { x, y }
    } else if h == 0x8 && n == 0xE {
        Instruction::ShiftLeft { x }
    } else if h == 0x9 && n == 0x0 {
        Instruction::SkipNeReg { x, y }
    } else if h == 0xA {
        Instruction::LoadIndex { nnn }
    } else if h == 0xB {
        Instruction::IndexOffset { nnn }
    } else if h == 0xC {
        Instruction::Random { x, nn }
    } else if h == 0xD {
        Instruction::Draw { x, y, n }
    } else if h == 0xE && nn == 0x9E {
        Instruction::SkipKey { x }
    } else if h == 0xE && nn == 0xA1 {
        Instruction::SkipNoKey { x }
    } else if h == 0xF && nn == 0x07 {
        Instruction::ReadDelay { x }
    } else if h == 0xF && nn == 0x0A {
        Instruction::WaitKey { x }
    } else if h == 0xF && nn == 0x15 {
        Instruction::SetDelay { x }
    } else if h == 0xF && nn == 0x18 {
        Instruction::SetSound { x }
    } else if h == 0xF && nn == 0x1E {
        Instruction::AddIndex { x }
    } else if h == 0xF && nn == 0x29 {
        Instruction::FontIndex { x }
    } else if h == 0xF && nn == 0x33 {
        Instruction::StoreDigits { x }
    } else if h == 0xF && nn == 0x55 {
        Instruction::StoreRegs { x }
    } else if h == 0xF && nn == 0x65 {
        Instruction::LoadRegs { x }
    } else {
        Instruction::Unknown
    }
}

pub proof fn lemma_field_bounds(op: u16)
    by (bit_vector)
    ensures
        ((op >> 8) & 0xF) < 16,
        ((op >> 4) & 0xF) < 16,
        (op & 0xF) < 16,
        (op & 0xFFF) < 4096,
{
}

/// Every decoded instruction has in-range fields.
pub proof fn lemma_decode_valid(op: u16)
    ensures
        instr_fields_valid(spec_decode(op)),
{
    lemma_field_bounds(op);
}

/// Split an instruction word into the decoded instruction.
pub fn decode(op: u16) -> (instr: Instruction)
    ensures
        instr == spec_decode(op),
        instr_fields_valid(instr),
{
    proof {
        lemma_decode_valid(op);
    }
    let h = op >> 12;
    let x = ((op >> 8) & 0xF) as u8;
    let y = ((op >> 4) & 0xF) as u8;
    let n = (op & 0xF) as u8;
    let nn = (op & 0xFF) as u8;
    let nnn = op & 0xFFF;
    if op == 0x00E0 {
        Instruction::ClearScreen
    } else if op == 0x00EE {
        Instruction::Return
    } else if h == 0x1 {
        Instruction::Jump { nnn }
    } else if h == 0x2 {
        Instruction::Call { nnn }
    } else if h == 0x3 {
        Instruction::SkipEqByte { x, nn }
    } else if h == 0x4 {
        Instruction::SkipNeByte { x, nn }
    } else if h == 0x5 && n == 0x0 {
        Instruction::SkipEqReg { x, y }
    } else if h == 0x6 {
        Instruction::LoadByte { x, nn }
    } else if h == 0x7 {
        Instruction::AddByte { x, nn }
    } else if h == 0x8 && n == 0x0 {
        Instruction::MoveReg { x, y }
    } else if h == 0x8 && n == 0x1 {
        Instruction::OrReg { x, y }
    } else if h == 0x8 && n == 0x2 {
        Instruction::AndReg { x, y }
    } else if h == 0x8 && n == 0x3 {
        Instruction::XorReg { x, y }
    } else if h == 0x8 && n == 0x4 {
        Instruction::AddReg { x, y }
    } else if h == 0x8 && n == 0x5 {
        Instruction::SubReg { x, y }
    } else if h == 0x8 && n == 0x6 {
        Instruction::ShiftRight { x }
    } else if h == 0x8 && n == 0x7 {
        Instruction::SubFrom { x, y }
    } else if h == 0x8 && n == 0xE {
        Instruction::ShiftLeft { x }
    } else if h == 0x9 && n == 0x0 {
        Instruction::SkipNeReg { x, y }
    } else if h == 0xA {
        Instruction::LoadIndex { nnn }
    } else if h == 0xB {
        Instruction::IndexOffset { nnn }
    } else if h == 0xC {
        Instruction::Random { x, nn }
    } else if h == 0xD {
        Instruction::Draw { x, y, n }
    } else if h == 0xE && nn == 0x9E {
        Instruction::SkipKey { x }
    } else if h == 0xE && nn == 0xA1 {
        Instruction::SkipNoKey { x }
    } else if h == 0xF && nn == 0x07 {
        Instruction::ReadDelay { x }
    } else if h == 0xF && nn == 0x0A {
        Instruction::WaitKey { x }
    } else if h == 0xF && nn == 0x15 {
        Instruction::SetDelay { x }
    } else if h == 0xF && nn == 0x18 {
        Instruction::SetSound { x }
    } else if h == 0xF && nn == 0x1E {
        Instruction::AddIndex { x }
    } else if h == 0xF && nn == 0x29 {
        Instruction::FontIndex { x }
    } else if h == 0xF && nn == 0x33 {
        Instruction::StoreDigits { x }
    } else if h == 0xF && nn == 0x55 {
        Instruction::StoreRegs { x }
    } else if h == 0xF && nn == 0x65 {
        Instruction::LoadRegs { x }
    } else {
        Instruction::Unknown
    }
}

} // verus!
