//! The instruction set: a tagged operation for each of the 35 recognized
//! two-byte instruction words, the faults the interpreter can report, and a
//! verified decoder from a fetched word to an operation.

use vstd::prelude::*;

verus! {

/// Every fault the interpreter reports, at construction or from a cycle.
#[derive(Clone, Copy, PartialEq, Eq, Structural, Debug)]
pub enum Chip8Error {
    /// The program image does not fit between the load address and the end
    /// of memory.
    ProgramTooLarge,
    /// The fetched instruction word matches no pattern of the instruction
    /// set.
    UnknownOpcode,
    /// A subroutine call was issued while the call stack already held 16
    /// return addresses.
    StackOverflow,
    /// A subroutine return was issued while the call stack was empty.
    StackUnderflow,
    /// A computed memory offset would read or write past the end of the
    /// 4096-byte memory, or the program counter points past it.
    OutOfBoundsAccess,
}

/// A decoded instruction. Field `x` and `y` name registers (always below 16),
/// `n` is a 4-bit immediate, `nn` an 8-bit immediate, and `nnn` a 12-bit
/// address.
#[derive(Clone, Copy, PartialEq, Eq, Structural, Debug)]
pub enum Instr {
    /// `00E0`: clear the framebuffer.
    ClearScreen,
    /// `00EE`: pop the stack into the program counter.
    Return,
    /// `1nnn`: jump to `nnn`.
    Jump { nnn: u16 },
    /// `2nnn`: push the program counter, jump to `nnn`.
    Call { nnn: u16 },
    /// `3xnn`: skip the next instruction if `Vx == nn`.
    SkipEqImm { x: u8, nn: u8 },
    /// `4xnn`: skip the next instruction if `Vx != nn`.
    SkipNeImm { x: u8, nn: u8 },
    /// `5xy0`: skip the next instruction if `Vx == Vy`.
    SkipEqReg { x: u8, y: u8 },
    /// `6xnn`: `Vx = nn`.
    LoadImm { x: u8, nn: u8 },
    /// `7xnn`: `Vx += nn`, wrapping, no flag.
    AddImm { x: u8, nn: u8 },
    /// `8xy0`: `Vx = Vy`.
    Assign { x: u8, y: u8 },
    /// `8xy1`: `Vx |= Vy`.
    Or { x: u8, y: u8 },
    /// `8xy2`: `Vx &= Vy`.
    And { x: u8, y: u8 },
    /// `8xy3`: `Vx ^= Vy`.
    Xor { x: u8, y: u8 },
    /// `8xy4`: `Vx += Vy`, `VF` = carry.
    AddReg { x: u8, y: u8 },
    /// `8xy5`: `Vx -= Vy`, `VF` = 1 exactly when the subtraction borrows.
    SubReg { x: u8, y: u8 },
    /// `8xy6`: `VF = Vx & 1`, `Vx >>= 1`.
    ShiftRight { x: u8 },
    /// `8xy7`: `Vx = Vy - Vx`, `VF` = 1 exactly when the subtraction borrows.
    SubRev { x: u8, y: u8 },
    /// `8xyE`: `VF = Vx >> 7`, `Vx <<= 1`.
    ShiftLeft { x: u8 },
    /// `9xy0`: skip the next instruction if `Vx != Vy`.
    SkipNeReg { x: u8, y: u8 },
    /// `Annn`: `I = nnn`.
    SetIndex { nnn: u16 },
    /// `Bnnn`: jump to `nnn + V0`.
    JumpOffset { nnn: u16 },
    /// `Cxnn`: `Vx` = a random byte masked with `nn`.
    Random { x: u8, nn: u8 },
    /// `Dxyn`: draw the `n`-row sprite at address `I` at `(Vx, Vy)`.
    Draw { x: u8, y: u8, n: u8 },
    /// `Ex9E`: skip the next instruction if key `Vx` is pressed.
    SkipKeyPressed { x: u8 },
    /// `ExA1`: skip the next instruction if key `Vx` is released.
    SkipKeyReleased { x: u8 },
    /// `Fx07`: `Vx = delay_timer`.
    ReadDelay { x: u8 },
    /// `Fx0A`: halt until a key is pressed, store it in `Vx`.
    WaitKey { x: u8 },
    /// `Fx15`: `delay_timer = Vx`.
    SetDelay { x: u8 },
    /// `Fx18`: `sound_timer = Vx`.
    SetSound { x: u8 },
    /// `Fx1E`: `I += Vx`, `VF` = carry of the 16-bit addition.
    AddIndex { x: u8 },
    /// `Fx29`: `I` = address of the font glyph for the digit `Vx`.
    FontAddr { x: u8 },
    /// `Fx33`: store the decimal digits of `Vx` at `I`, `I+1`, `I+2`.
    StoreBcd { x: u8 },
    /// `Fx55`: copy `V0..=Vx` into memory at `I`.
    StoreRegs { x: u8 },
    /// `Fx65`: load `V0..=Vx` from memory at `I`.
    LoadRegs { x: u8 },
}

/// What a two-byte instruction word decodes to; `None` for every word that
/// matches no pattern of the instruction set.
pub open spec fn spec_decode(w: u16) -> Option<Instr> {
    let op = w / 0x1000;
    let x = ((w / 0x100) % 0x10) as u8;
    let y = ((w / 0x10) % 0x10) as u8;
    let n = (w % 0x10) as u8;
    let nn = (w % 0x100) as u8;
    let nnn = (w % 0x1000) as u16;
    if w == 0x00E0 {
        Some(Instr::ClearScreen)
    } else if w == 0x00EE {
        Some(Instr::Return)
    } else if op == 0x1 {
        Some(Instr::Jump { nnn })
    } else if op == 0x2 {
        Some(Instr::Call { nnn })
    } else if op == 0x3 {
        Some(Instr::SkipEqImm { x, nn })
    } else if op == 0x4 {
        Some(Instr::SkipNeImm { x, nn })
    } else if op == 0x5 && n == 0x0 {
        Some(Instr::SkipEqReg { x, y })
    } else if op == 0x6 {
        Some(Instr::LoadImm { x, nn })
    } else if op == 0x7 {
        Some(Instr::AddImm { x, nn })
    } else if op == 0x8 && n == 0x0 {
        Some(Instr::Assign { x, y })
    } else if op == 0x8 && n == 0x1 {
        Some(Instr::Or { x, y })
    } else if op == 0x8 && n == 0x2 {
        Some(Instr::And { x, y })
    } else if op == 0x8 && n == 0x3 {
        Some(Instr::Xor { x, y })
    } else if op == 0x8 && n == 0x4 {
        Some(Instr::AddReg { x, y })
    } else if op == 0x8 && n == 0x5 {
        Some(Instr::SubReg { x, y })
    } else if op == 0x8 && n == 0x6 {
        Some(Instr::ShiftRight { x })
    } else if op == 0x8 && n == 0x7 {
        Some(Instr::SubRev { x, y })
    } else if op == 0x8 && n == 0xE {
        Some(Instr::ShiftLeft { x })
    } else if op == 0x9 && n == 0x0 {
        Some(Instr::SkipNeReg { x, y })
    } else if op == 0xA {
        Some(Instr::SetIndex { nnn })
    } else if op == 0xB {
        Some(Instr::JumpOffset { nnn })
    } else if op == 0xC {
        Some(Instr::Random { x, nn })
    } else if op == 0xD {
        Some(Instr::Draw { x, y, n })
    } else if op == 0xE && nn == 0x9E {
        Some(Instr::SkipKeyPressed { x })
    } else if op == 0xE && nn == 0xA1 {
        Some(Instr::SkipKeyReleased { x })
    } else if op == 0xF && nn == 0x07 {
        Some(Instr::ReadDelay { x })
    } else if op == 0xF && nn == 0x0A {
        Some(Instr::WaitKey { x })
    } else if op == 0xF && nn == 0x15 {
        Some(Instr::SetDelay { x })
    } else if op == 0xF && nn == 0x18 {
        Some(Instr::SetSound { x })
    } else if op == 0xF && nn == 0x1E {
        Some(Instr::AddIndex { x })
    } else if op == 0xF && nn == 0x29 {
        Some(Instr::FontAddr { x })
    } else if op == 0xF && nn == 0x33 {
        Some(Instr::StoreBcd { x })
    } else if op == 0xF && nn == 0x55 {
        Some(Instr::StoreRegs { x })
    } else if op == 0xF && nn == 0x65 {
        Some(Instr::LoadRegs { x })
    } else {
        None
    }
}

/// Register operands of a decoded instruction are 4-bit fields, so they
/// always index within the 16-entry register file.
pub open spec fn instr_regs_in_range(i: Instr) -> bool {
    match i {
        Instr::ClearScreen => true,
        Instr::Return => true,
        Instr::Jump { nnn } => nnn < 0x1000,
        Instr::Call { nnn } => nnn < 0x1000,
        Instr::SkipEqImm { x, .. } => x < 16,
        Instr::SkipNeImm { x, .. } => x < 16,
        Instr::SkipEqReg { x, y } => x < 16 && y < 16,
        Instr::LoadImm { x, .. } => x < 16,
        Instr::AddImm { x, .. } => x < 16,
        Instr::Assign { x, y } => x < 16 && y < 16,
        Instr::Or { x, y } => x < 16 && y < 16,
        Instr::And { x, y } => x < 16 && y < 16,
        Instr::Xor { x, y } => x < 16 && y < 16,
        Instr::AddReg { x, y } => x < 16 && y < 16,
        Instr::SubReg { x, y } => x < 16 && y < 16,
        Instr::ShiftRight { x } => x < 16,
        Instr::SubRev { x, y } => x < 16 && y < 16,
        Instr::ShiftLeft { x } => x < 16,
        Instr::SkipNeReg { x, y } => x < 16 && y < 16,
        Instr::SetIndex { nnn } => nnn < 0x1000,
        Instr::JumpOffset { nnn } => nnn < 0x1000,
        Instr::Random { x, .. } => x < 16,
        Instr::Draw { x, y, n } => x < 16 && y < 16 && n < 16,
        Instr::SkipKeyPressed { x } => x < 16,
        Instr::SkipKeyReleased { x } => x < 16,
        Instr::ReadDelay { x } => x < 16,
        Instr::WaitKey { x } => x < 16,
        Instr::SetDelay { x } => x < 16,
        Instr::SetSound { x } => x < 16,
        Instr::AddIndex { x } => x < 16,
        Instr::FontAddr { x } => x < 16,
        Instr::StoreBcd { x } => x < 16,
        Instr::StoreRegs { x } => x < 16,
        Instr::LoadRegs { x } => x < 16,
    }
}

/// Every instruction a word decodes to carries register fields below 16 and
/// addresses below 0x1000.
pub proof fn lemma_decode_in_range(w: u16)
    ensures
        spec_decode(w) matches Some(i) ==> instr_regs_in_range(i),
{
}

/// Turns a fetched instruction word into its tagged operation, `None` for a
/// word outside the instruction set.
pub fn decode(w: u16) -> (r: Option<Instr>)
    ensures
        r == spec_decode(w),
{
    let op = w / 0x1000;
    let x = ((w / 0x100) % 0x10) as u8;
    let y = ((w / 0x10) % 0x10) as u8;
    let n = (w % 0x10) as u8;
    let nn = (w % 0x100) as u8;
    let nnn = w % 0x1000;
    if w == 0x00E0 {
        Some(Instr::ClearScreen)
    } else if w == 0x00EE {
        Some(Instr::Return)
    } else if op == 0x1 {
        Some(Instr::Jump { nnn })
    } else if op == 0x2 {
        Some(Instr::Call { nnn })
    } else if op == 0x3 {
        Some(Instr::SkipEqImm { x, nn })
    } else if op == 0x4 {
        Some(Instr::SkipNeImm { x, nn })
    } else if op == 0x5 && n == 0x0 {
        Some(Instr::SkipEqReg { x, y })
    } else if op == 0x6 {
        Some(Instr::LoadImm { x, nn })
    } else if op == 0x7 {
        Some(Instr::AddImm { x, nn })
    } else if op == 0x8 && n == 0x0 {
        Some(Instr::Assign { x, y })
    } else if op == 0x8 && n == 0x1 {
        Some(Instr::Or { x, y })
    } else if op == 0x8 && n == 0x2 {
        Some(Instr::And { x, y })
    } else if op == 0x8 && n == 0x3 {
        Some(Instr::Xor { x, y })
    } else if op == 0x8 && n == 0x4 {
        Some(Instr::AddReg { x, y })
    } else if op == 0x8 && n == 0x5 {
        Some(Instr::SubReg { x, y })
    } else if op == 0x8 && n == 0x6 {
        Some(Instr::ShiftRight { x })
    } else if op == 0x8 && n == 0x7 {
        Some(Instr::SubRev { x, y })
    } else if op == 0x8 && n == 0xE {
        Some(Instr::ShiftLeft { x })
    } else if op == 0x9 && n == 0x0 {
        Some(Instr::SkipNeReg { x, y })
    } else if op == 0xA {
        Some(Instr::SetIndex { nnn })
    } else if op == 0xB {
        Some(Instr::JumpOffset { nnn })
    } else if op == 0xC {
        Some(Instr::Random { x, nn })
    } else if op == 0xD {
        Some(Instr::Draw { x, y, n })
    } else if op == 0xE && nn == 0x9E {
        Some(Instr::SkipKeyPressed { x })
    } else if op == 0xE && nn == 0xA1 {
        Some(Instr::SkipKeyReleased { x })
    } else if op == 0xF && nn == 0x07 {
        Some(Instr::ReadDelay { x })
    } else if op == 0xF && nn == 0x0A {
        Some(Instr::WaitKey { x })
    } else if op == 0xF && nn == 0x15 {
        Some(Instr::SetDelay { x })
    } else if op == 0xF && nn == 0x18 {
        Some(Instr::SetSound { x })
    } else if op == 0xF && nn == 0x1E {
        Some(Instr::AddIndex { x })
    } else if op == 0xF && nn == 0x29 {
        Some(Instr::FontAddr { x })
    } else if op == 0xF && nn == 0x33 {
        Some(Instr::StoreBcd { x })
    } else if op == 0xF && nn == 0x55 {
        Some(Instr::StoreRegs { x })
    } else if op == 0xF && nn == 0x65 {
        Some(Instr::LoadRegs { x })
    } else {
        None
    }
}

} // verus!
