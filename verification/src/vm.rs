//! The mathematical model of the machine: a ghost state record [`Vm`], the
//! built-in font, and the meaning of every instruction as a spec-level
//! transition. The executable interpreter in [`crate::machine`] is proved to
//! follow [`vm_step`] cycle by cycle.

use vstd::prelude::*;
use crate::isa::{Chip8Error, Instr, spec_decode};

verus! {

/// Number of bytes of addressable memory.
pub const RAM_SIZE: usize = 4096;

/// Address at which the program image is loaded and execution starts.
pub const PROGRAM_START_PC: usize = 0x200;

/// Width of the framebuffer in pixels.
pub const DISPLAY_WIDTH: usize = 64;

/// Height of the framebuffer in pixels.
pub const DISPLAY_HEIGHT: usize = 32;

/// Number of pixels in the framebuffer.
pub const DISPLAY_PIXELS: usize = 2048;

/// Number of return addresses the call stack can hold.
pub const STACK_DEPTH: usize = 16;

/// Number of bytes of built-in font data: 16 glyphs of 5 rows each.
pub const FONT_BYTES: usize = 80;

/// The machine state as mathematics. `true` in `fb` and `keys` means a lit
/// pixel and a pressed key.
#[verifier::ext_equal]
pub ghost struct Vm {
    /// The 16 general registers `V0..=VF`; `VF` doubles as the flag register.
    pub regs: Seq<u8>,
    /// The index register `I`.
    pub i: u16,
    /// The 4096 bytes of memory.
    pub ram: Seq<u8>,
    /// The 64x32 framebuffer, row-major: the pixel at row `r`, column `c`
    /// is `fb[r * 64 + c]`.
    pub fb: Seq<bool>,
    /// The program counter.
    pub pc: usize,
    /// The call stack, oldest return address first.
    pub stack: Seq<usize>,
    /// The delay timer.
    pub delay: u8,
    /// The sound timer.
    pub sound: u8,
    /// The register a blocking key wait will resolve into, while one is
    /// pending; the cycle clock is halted while this is set.
    pub waiting: Option<u8>,
    /// The 16 key latch flags.
    pub keys: Seq<bool>,
}

/// Well-formedness: every fixed-size part has its size, and indices held in
/// the state stay in range.
pub open spec fn wf(v: Vm) -> bool {
    &&& v.regs.len() == 16
    &&& v.ram.len() == RAM_SIZE
    &&& v.fb.len() == DISPLAY_PIXELS
    &&& v.stack.len() <= STACK_DEPTH
    &&& v.keys.len() == 16
    &&& (v.waiting matches Some(x) ==> x < 16)
}

/// The five rows of the built-in glyph for hex digit `d`.
pub open spec fn font_glyph(d: int) -> (u8, u8, u8, u8, u8) {
    if d == 0x0 {
        (0xF0, 0x90, 0x90, 0x90, 0xF0)
    } else if d == 0x1 {
        (0x20, 0x60, 0x20, 0x20, 0x70)
    } else if d == 0x2 {
        (0xF0, 0x10, 0xF0, 0x80, 0xF0)
    } else if d == 0x3 {
        (0xF0, 0x10, 0xF0, 0x10, 0xF0)
    } else if d == 0x4 {
        (0x90, 0x90, 0xF0, 0x10, 0x10)
    } else if d == 0x5 {
        (0xF0, 0x80, 0xF0, 0x10, 0xF0)
    } else if d == 0x6 {
        (0xF0, 0x80, 0xF0, 0x90, 0xF0)
    } else if d == 0x7 {
        (0xF0, 0x10, 0x20, 0x40, 0x40)
    } else if d == 0x8 {
        (0xF0, 0x90, 0xF0, 0x90, 0xF0)
    } else if d == 0x9 {
        (0xF0, 0x90, 0xF0, 0x10, 0xF0)
    } else if d == 0xA {
        (0xF0, 0x90, 0xF0, 0x90, 0x90)
    } else if d == 0xB {
        (0xE0, 0x90, 0xE0, 0x90, 0xE0)
    } else if d == 0xC {
        (0xF0, 0x80, 0x80, 0x80, 0xF0)
    } else if d == 0xD {
        (0xE0, 0x90, 0x90, 0x90, 0xE0)
    } else if d == 0xE {
        (0xF0, 0x80, 0xF0, 0x80, 0xF0)
    } else {
        (0xF0, 0x80, 0xF0, 0x80, 0x80)
    }
}

/// Byte `a` of the font area: row `a % 5` of glyph `a / 5`.
pub open spec fn font_byte(a: int) -> u8 {
    let g = font_glyph(a / 5);
    let r = a % 5;
    if r == 0 {
        g.0
    } else if r == 1 {
        g.1
    } else if r == 2 {
        g.2
    } else if r == 3 {
        g.3
    } else {
        g.4
    }
}

/// Memory as construction leaves it: the font at the base, the program image
/// verbatim at the load address, zero elsewhere.
pub open spec fn boot_ram(prog: Seq<u8>) -> Seq<u8> {
    Seq::new(
        RAM_SIZE as nat,
        |a: int|
            if a < FONT_BYTES {
                font_byte(a)
            } else if PROGRAM_START_PC <= a < PROGRAM_START_PC + prog.len() {
                prog[a - PROGRAM_START_PC]
            } else {
                0u8
            },
    )
}

/// The whole machine as construction leaves it: cleared registers, timers,
/// framebuffer, stack and key latch, the program counter at the load address.
pub open spec fn boot_vm(prog: Seq<u8>) -> Vm {
    Vm {
        regs: Seq::new(16, |r: int| 0u8),
        i: 0,
        ram: boot_ram(prog),
        fb: Seq::new(DISPLAY_PIXELS as nat, |p: int| false),
        pc: PROGRAM_START_PC,
        stack: Seq::empty(),
        delay: 0,
        sound: 0,
        waiting: None,
        keys: Seq::new(16, |k: int| false),
    }
}

/// `00E0`: every pixel unset.
pub open spec fn spec_clear(s: Vm) -> Vm {
    Vm { fb: Seq::new(DISPLAY_PIXELS as nat, |p: int| false), ..s }
}

/// `00EE`: pop the stack into the program counter; underflow faults.
pub open spec fn spec_ret(s: Vm) -> Result<Vm, Chip8Error> {
    if s.stack.len() == 0 {
        Err(Chip8Error::StackUnderflow)
    } else {
        Ok(Vm { pc: s.stack.last(), stack: s.stack.drop_last(), ..s })
    }
}

/// `1nnn`.
pub open spec fn spec_jump(s: Vm, nnn: u16) -> Vm {
    Vm { pc: nnn as usize, ..s }
}

/// `2nnn`: push the (already advanced) program counter; overflow faults.
pub open spec fn spec_call(s: Vm, nnn: u16) -> Result<Vm, Chip8Error> {
    if s.stack.len() >= STACK_DEPTH {
        Err(Chip8Error::StackOverflow)
    } else {
        Ok(Vm { stack: s.stack.push(s.pc), pc: nnn as usize, ..s })
    }
}

/// A program counter two bytes further on, past the next instruction.
pub open spec fn spec_skip(s: Vm, cond: bool) -> Vm {
    Vm { pc: if cond { (s.pc + 2) as usize } else { s.pc }, ..s }
}

/// `6xnn`.
pub open spec fn spec_load(s: Vm, x: u8, nn: u8) -> Vm {
    Vm { regs: s.regs.update(x as int, nn), ..s }
}

/// `7xnn`: wrapping 8-bit addition, no flag.
pub open spec fn spec_add_nn(s: Vm, x: u8, nn: u8) -> Vm {
    Vm { regs: s.regs.update(x as int, ((s.regs[x as int] + nn) % 256) as u8), ..s }
}

/// `8xy0`.
pub open spec fn spec_assign(s: Vm, x: u8, y: u8) -> Vm {
    Vm { regs: s.regs.update(x as int, s.regs[y as int]), ..s }
}

/// `8xy1`.
pub open spec fn spec_or(s: Vm, x: u8, y: u8) -> Vm {
    Vm { regs: s.regs.update(x as int, s.regs[x as int] | s.regs[y as int]), ..s }
}

/// `8xy2`.
pub open spec fn spec_and(s: Vm, x: u8, y: u8) -> Vm {
    Vm { regs: s.regs.update(x as int, s.regs[x as int] & s.regs[y as int]), ..s }
}

/// `8xy3`.
pub open spec fn spec_xor(s: Vm, x: u8, y: u8) -> Vm {
    Vm { regs: s.regs.update(x as int, s.regs[x as int] ^ s.regs[y as int]), ..s }
}

/// `8xy4`: `Vx + Vy` modulo 256, then `VF` = 1 exactly when the sum
/// overflows 8 bits.
pub open spec fn spec_add_rr(s: Vm, x: u8, y: u8) -> Vm {
    let sum = s.regs[x as int] + s.regs[y as int];
    Vm {
        regs: s.regs.update(x as int, (sum % 256) as u8).update(
            15,
            if sum > 255 { 1u8 } else { 0u8 },
        ),
        ..s
    }
}

/// `Vx - Vy` wrapped to 8 bits, as `8xy5` leaves it in `Vx`.
pub open spec fn wrap_sub(a: u8, b: u8) -> u8 {
    if a >= b {
        (a - b) as u8
    } else {
        (a + 256 - b) as u8
    }
}

/// `8xy5`: `Vx - Vy`, then `VF` = 1 exactly when no borrow occurred.
pub open spec fn spec_sub_rr(s: Vm, x: u8, y: u8) -> Vm {
    let a = s.regs[x as int];
    let b = s.regs[y as int];
    Vm {
        regs: s.regs.update(x as int, wrap_sub(a, b)).update(
            15,
            if a < b { 1u8 } else { 0u8 },
        ),
        ..s
    }
}

/// `8xy7`: `Vy - Vx` into `Vx`, flag from the mirrored subtraction.
pub open spec fn spec_sub_rr_inv(s: Vm, x: u8, y: u8) -> Vm {
    let a = s.regs[x as int];
    let b = s.regs[y as int];
    Vm {
        regs: s.regs.update(x as int, wrap_sub(b, a)).update(
            15,
            if b < a { 1u8 } else { 0u8 },
        ),
        ..s
    }
}

/// `8xy6`: `VF` takes the bit shifted out, then `Vx` is halved; the flag
/// write comes first, so `x = 15` shifts the flag itself.
pub open spec fn spec_shiftr(s: Vm, x: u8) -> Vm {
    let r1 = s.regs.update(15, s.regs[x as int] & 1);
    Vm { regs: r1.update(x as int, r1[x as int] / 2), ..s }
}

/// `8xyE`: `VF` takes the bit shifted out, then `Vx` is doubled modulo 256.
pub open spec fn spec_shiftl(s: Vm, x: u8) -> Vm {
    let r1 = s.regs.update(15, s.regs[x as int] / 128);
    Vm { regs: r1.update(x as int, ((r1[x as int] * 2) % 256) as u8), ..s }
}

/// `Annn`.
pub open spec fn spec_set_i(s: Vm, nnn: u16) -> Vm {
    Vm { i: nnn, ..s }
}

/// `Bnnn`: jump to `nnn + V0`.
pub open spec fn spec_jump_off(s: Vm, nnn: u16) -> Vm {
    Vm { pc: (nnn + s.regs[0]) as usize, ..s }
}

/// `Cxnn`: the injected random byte masked with `nn`.
pub open spec fn spec_random(s: Vm, x: u8, nn: u8, rand_byte: u8) -> Vm {
    Vm { regs: s.regs.update(x as int, rand_byte & nn), ..s }
}

/// `Fx07`.
pub open spec fn spec_store_delay(s: Vm, x: u8) -> Vm {
    Vm { regs: s.regs.update(x as int, s.delay), ..s }
}

/// `Fx0A`: halt the cycle clock until a key press resolves into `Vx`.
pub open spec fn spec_wait_key(s: Vm, x: u8) -> Vm {
    Vm { waiting: Some(x), ..s }
}

/// `Fx15`.
pub open spec fn spec_set_delay(s: Vm, x: u8) -> Vm {
    Vm { delay: s.regs[x as int], ..s }
}

/// `Fx18`.
pub open spec fn spec_set_sound(s: Vm, x: u8) -> Vm {
    Vm { sound: s.regs[x as int], ..s }
}

/// `Fx1E`: 16-bit wrapping `I + Vx`, `VF` = 1 exactly on 16-bit overflow.
pub open spec fn spec_add_i(s: Vm, x: u8) -> Vm {
    let sum = s.i + s.regs[x as int];
    Vm {
        i: (sum % 0x10000) as u16,
        regs: s.regs.update(15, if sum > 0xFFFF { 1u8 } else { 0u8 }),
        ..s
    }
}

/// `Fx29`: base address of the font glyph for digit `Vx`, 5 bytes a glyph.
pub open spec fn spec_font_addr(s: Vm, x: u8) -> Vm {
    Vm { i: (s.regs[x as int] * 5) as u16, ..s }
}

/// `Fx33`: the three decimal digits of `Vx` at `I`, `I+1`, `I+2`; faults
/// without writing when the last byte would fall past the end of memory.
pub open spec fn spec_bcd(s: Vm, x: u8) -> Result<Vm, Chip8Error> {
    if s.i + 2 >= RAM_SIZE {
        Err(Chip8Error::OutOfBoundsAccess)
    } else {
        let v = s.regs[x as int];
        Ok(Vm {
            ram: s.ram.update(s.i as int, (v / 100) as u8).update(
                s.i as int + 1,
                ((v / 10) % 10) as u8,
            ).update(s.i as int + 2, (v % 10) as u8),
            ..s
        })
    }
}

/// `Fx55`: `V0..=Vx` into memory at `I`; faults without writing when the
/// last byte would fall past the end of memory.
pub open spec fn spec_dump_regs(s: Vm, x: u8) -> Result<Vm, Chip8Error> {
    if s.i + x >= RAM_SIZE {
        Err(Chip8Error::OutOfBoundsAccess)
    } else {
        Ok(Vm {
            ram: Seq::new(
                RAM_SIZE as nat,
                |a: int|
                    if s.i <= a <= s.i + x {
                        s.regs[a - s.i]
                    } else {
                        s.ram[a]
                    },
            ),
            ..s
        })
    }
}

/// `Fx65`: memory at `I` into `V0..=Vx`; faults without reading when the
/// last byte would fall past the end of memory.
pub open spec fn spec_load_regs(s: Vm, x: u8) -> Result<Vm, Chip8Error> {
    if s.i + x >= RAM_SIZE {
        Err(Chip8Error::OutOfBoundsAccess)
    } else {
        Ok(Vm {
            regs: Seq::new(
                16,
                |r: int|
                    if r <= x {
                        s.ram[s.i + r]
                    } else {
                        s.regs[r]
                    },
            ),
            ..s
        })
    }
}

/// Whether keys are read through a register whose value exceeds the 16-key
/// latch; such a read is reported as a fault instead of indexing past it.
pub open spec fn spec_key_skip(s: Vm, x: u8, want_pressed: bool) -> Result<Vm, Chip8Error> {
    let k = s.regs[x as int];
    if k >= 16 {
        Err(Chip8Error::OutOfBoundsAccess)
    } else {
        Ok(spec_skip(s, s.keys[k as int] == want_pressed))
    }
}

/// Bit `b` of a sprite row byte, bit 0 being the leftmost pixel.
pub open spec fn sprite_bit(row: u8, b: int) -> bool {
    (row >> ((7 - b) as u8)) & 1 == 1
}

/// Whether a draw of the `n`-row sprite at memory address `base` with origin
/// `(x0, y0)` inverts the pixel at flat framebuffer index `idx`. Sprites
/// clip: a pixel outside the framebuffer is simply never reached, and a
/// sprite row past the end of memory is never read.
pub open spec fn draw_flips(
    ram: Seq<u8>,
    x0: int,
    y0: int,
    base: int,
    n: int,
    idx: int,
) -> bool {
    let r = idx / 64;
    let c = idx % 64;
    &&& y0 <= r < y0 + n
    &&& x0 <= c < x0 + 8
    &&& base + (r - y0) < RAM_SIZE
    &&& sprite_bit(ram[base + (r - y0)], c - x0)
}

/// The framebuffer after the draw: each flipped pixel inverted, every other
/// pixel untouched.
pub open spec fn draw_fb(
    fb: Seq<bool>,
    ram: Seq<u8>,
    x0: int,
    y0: int,
    base: int,
    n: int,
) -> Seq<bool> {
    Seq::new(fb.len(), |idx: int| fb[idx] != draw_flips(ram, x0, y0, base, n, idx))
}

/// Whether the draw clears some previously lit pixel.
pub open spec fn draw_collision(
    fb: Seq<bool>,
    ram: Seq<u8>,
    x0: int,
    y0: int,
    base: int,
    n: int,
) -> bool {
    exists|idx: int|
        0 <= idx < fb.len() && draw_flips(ram, x0, y0, base, n, idx) && fb[idx]
}

/// `Dxyn`: XOR-blit the sprite at `I` to `(Vx, Vy)` with clipping, and set
/// `VF` to 1 exactly when some lit pixel was cleared.
pub open spec fn spec_draw(s: Vm, x: u8, y: u8, n: u8) -> Vm {
    let x0 = s.regs[x as int] as int;
    let y0 = s.regs[y as int] as int;
    let base = s.i as int;
    Vm {
        fb: draw_fb(s.fb, s.ram, x0, y0, base, n as int),
        regs: s.regs.update(
            15,
            if draw_collision(s.fb, s.ram, x0, y0, base, n as int) { 1u8 } else { 0u8 },
        ),
        ..s
    }
}

/// The effect of one decoded instruction on a machine whose program counter
/// has already moved past it. `rand_byte` is the byte the entropy source
/// hands the one instruction that asks for one; every other instruction
/// ignores it. A fault carries no new state: the caller keeps the machine
/// untouched.
pub open spec fn exec_instr(s: Vm, i: Instr, rand_byte: u8) -> Result<Vm, Chip8Error> {
    match i {
        Instr::ClearScreen => Ok(spec_clear(s)),
        Instr::Return => spec_ret(s),
        Instr::Jump { nnn } => Ok(spec_jump(s, nnn)),
        Instr::Call { nnn } => spec_call(s, nnn),
        Instr::SkipEqImm { x, nn } => Ok(spec_skip(s, s.regs[x as int] == nn)),
        Instr::SkipNeImm { x, nn } => Ok(spec_skip(s, s.regs[x as int] != nn)),
        Instr::SkipEqReg { x, y } => Ok(spec_skip(s, s.regs[x as int] == s.regs[y as int])),
        Instr::LoadImm { x, nn } => Ok(spec_load(s, x, nn)),
        Instr::AddImm { x, nn } => Ok(spec_add_nn(s, x, nn)),
        Instr::Assign { x, y } => Ok(spec_assign(s, x, y)),
        Instr::Or { x, y } => Ok(spec_or(s, x, y)),
        Instr::And { x, y } => Ok(spec_and(s, x, y)),
        Instr::Xor { x, y } => Ok(spec_xor(s, x, y)),
        Instr::AddReg { x, y } => Ok(spec_add_rr(s, x, y)),
        Instr::SubReg { x, y } => Ok(spec_sub_rr(s, x, y)),
        Instr::ShiftRight { x } => Ok(spec_shiftr(s, x)),
        Instr::SubRev { x, y } => Ok(spec_sub_rr_inv(s, x, y)),
        Instr::ShiftLeft { x } => Ok(spec_shiftl(s, x)),
        Instr::SkipNeReg { x, y } => Ok(spec_skip(s, s.regs[x as int] != s.regs[y as int])),
        Instr::SetIndex { nnn } => Ok(spec_set_i(s, nnn)),
        Instr::JumpOffset { nnn } => Ok(spec_jump_off(s, nnn)),
        Instr::Random { x, nn } => Ok(spec_random(s, x, nn, rand_byte)),
        Instr::Draw { x, y, n } => Ok(spec_draw(s, x, y, n)),
        Instr::SkipKeyPressed { x } => spec_key_skip(s, x, true),
        Instr::SkipKeyReleased { x } => spec_key_skip(s, x, false),
        Instr::ReadDelay { x } => Ok(spec_store_delay(s, x)),
        Instr::WaitKey { x } => Ok(spec_wait_key(s, x)),
        Instr::SetDelay { x } => Ok(spec_set_delay(s, x)),
        Instr::SetSound { x } => Ok(spec_set_sound(s, x)),
        Instr::AddIndex { x } => Ok(spec_add_i(s, x)),
        Instr::FontAddr { x } => Ok(spec_font_addr(s, x)),
        Instr::StoreBcd { x } => spec_bcd(s, x),
        Instr::StoreRegs { x } => spec_dump_regs(s, x),
        Instr::LoadRegs { x } => spec_load_regs(s, x),
    }
}

/// The instruction word at the program counter, composed big-endian.
pub open spec fn spec_fetch(s: Vm) -> u16 {
    (s.ram[s.pc as int] * 256 + s.ram[s.pc as int + 1]) as u16
}

/// One whole cycle as a mathematical transition. A pending key wait freezes
/// the machine; otherwise the word at `pc` is fetched, `pc` moves past it,
/// and the decoded instruction executes. A fault carries no new state: a
/// faulted cycle leaves the machine exactly as it was, the fetch advance
/// included.
pub open spec fn vm_step(s: Vm, rand_byte: u8) -> Result<Vm, Chip8Error> {
    if s.waiting is Some {
        Ok(s)
    } else if s.pc + 1 >= RAM_SIZE {
        Err(Chip8Error::OutOfBoundsAccess)
    } else {
        match spec_decode(spec_fetch(s)) {
            None => Err(Chip8Error::UnknownOpcode),
            Some(i) => exec_instr(Vm { pc: (s.pc + 2) as usize, ..s }, i, rand_byte),
        }
    }
}

} // verus!
