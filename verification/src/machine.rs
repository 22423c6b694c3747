//! The executable interpreter. [`Chip8`] is the machine state as a value;
//! its view is the ghost model [`crate::vm::Vm`], and every mutation is
//! specified against the spec transitions of that module.

use vstd::prelude::*;
use crate::entropy::Entropy;
use crate::isa::{Chip8Error, Instr, decode, lemma_decode_in_range};
use crate::vm::{
    Vm, wf, boot_ram, boot_vm, font_byte, font_glyph, spec_fetch, vm_step,
    spec_clear, spec_ret, spec_jump, spec_call, spec_skip, spec_load, spec_add_nn, spec_assign,
    spec_or, spec_and, spec_xor, spec_add_rr, spec_sub_rr, spec_sub_rr_inv, spec_shiftr,
    spec_shiftl, spec_set_i, spec_jump_off, spec_random, spec_store_delay, spec_wait_key,
    spec_set_delay, spec_set_sound, spec_add_i, spec_font_addr, spec_bcd, spec_dump_regs,
    spec_load_regs, spec_key_skip, spec_draw, draw_fb, draw_flips, draw_collision, sprite_bit,
    RAM_SIZE, PROGRAM_START_PC, DISPLAY_WIDTH, DISPLAY_HEIGHT, DISPLAY_PIXELS,
    STACK_DEPTH, FONT_BYTES,
};

verus! {

/// Flips contributed by the first `bmax` columns of the sprite row at
/// memory address `base_i`, whose pixels land on framebuffer row `y0i`.
spec fn row_flip_upto(
    ram: Seq<u8>,
    x0: int,
    y0i: int,
    base_i: int,
    bmax: int,
    idx: int,
) -> bool {
    &&& idx / 64 == y0i
    &&& x0 <= idx % 64 < x0 + bmax
    &&& base_i < RAM_SIZE
    &&& sprite_bit(ram[base_i], idx % 64 - x0)
}

/// The interpreter: the whole machine state in one value, plus the injected
/// entropy source. It is created from a program image by [`Chip8::with_program`]
/// and mutated only by [`Chip8::emulate_cycle`], [`Chip8::decrease_timers`],
/// [`Chip8::keypress`] and [`Chip8::keyrelease`].
pub struct Chip8 {
    registers: Vec<u8>,
    i_reg: u16,
    ram: Vec<u8>,
    vram: Vec<bool>,
    pc: usize,
    stack: Vec<usize>,
    delay_timer: u8,
    sound_timer: u8,
    waiting_keypress_reg: Option<u8>,
    keyboard: Vec<bool>,
    entropy: Entropy,
}

impl View for Chip8 {
    type V = Vm;

    closed spec fn view(&self) -> Vm {
        Vm {
            regs: self.registers@,
            i: self.i_reg,
            ram: self.ram@,
            fb: self.vram@,
            pc: self.pc,
            stack: self.stack@,
            delay: self.delay_timer,
            sound: self.sound_timer,
            waiting: self.waiting_keypress_reg,
            keys: self.keyboard@,
        }
    }
}

/// Fills a fresh vector with `len` copies of `val`.
fn filled<T: Copy>(len: usize, val: T) -> (v: Vec<T>)
    ensures
        v@ == Seq::new(len as nat, |i: int| val),
{
    let mut v: Vec<T> = Vec::new();
    let mut k: usize = 0;
    while k < len
        invariant
            k <= len,
            v@.len() == k,
            forall|i: int| 0 <= i < k ==> v@[i] == val,
        decreases len - k,
    {
        v.push(val);
        k = k + 1;
    }
    proof {
        assert(v@ =~= Seq::new(len as nat, |i: int| val));
    }
    v
}

/// Row `r` of the built-in glyph for hex digit `d`.
fn font_row(d: u8, r: u8) -> (b: u8)
    requires
        d < 16,
        r < 5,
    ensures
        b == font_byte(d as int * 5 + r as int),
{
    assert((d as int * 5 + r as int) / 5 == d as int) by (nonlinear_arith)
        requires d < 16, r < 5;
    assert((d as int * 5 + r as int) % 5 == r as int) by (nonlinear_arith)
        requires d < 16, r < 5;
    let rows: (u8, u8, u8, u8, u8) = if d == 0x0 {
        (0xF0, 0x90, 0x90, 0x90, 0xF0)
    } else if d == 0x1 {
        (0x20, 0x60, 0x20, 0x20, 0x70)
    } else if d == 0x2 {
        (0xF0, 0x10, 0xF0, 0x80, 0xF0)
    } else if d == 0x3 {
        (0xF0, 0x10, 0xF0, 0x10, 0xF0)
    } else if d == 0x4 {
        (0x90, 0x90, 0xF0, 0x10, 0x10)
    } else if d == 0x5 {
        (0xF0, 0x80, 0xF0, 0x10, 0xF0)
    } else if d == 0x6 {
        (0xF0, 0x80, 0xF0, 0x90, 0xF0)
    } else if d == 0x7 {
        (0xF0, 0x10, 0x20, 0x40, 0x40)
    } else if d == 0x8 {
        (0xF0, 0x90, 0xF0, 0x90, 0xF0)
    } else if d == 0x9 {
        (0xF0, 0x90, 0xF0, 0x10, 0xF0)
    } else if d == 0xA {
        (0xF0, 0x90, 0xF0, 0x90, 0x90)
    } else if d == 0xB {
        (0xE0, 0x90, 0xE0, 0x90, 0xE0)
    } else if d == 0xC {
        (0xF0, 0x80, 0x80, 0x80, 0xF0)
    } else if d == 0xD {
        (0xE0, 0x90, 0x90, 0x90, 0xE0)
    } else if d == 0xE {
        (0xF0, 0x80, 0xF0, 0x80, 0xF0)
    } else {
        (0xF0, 0x80, 0xF0, 0x80, 0x80)
    };
    assert(rows == font_glyph(d as int));
    if r == 0 {
        rows.0
    } else if r == 1 {
        rows.1
    } else if r == 2 {
        rows.2
    } else if r == 3 {
        rows.3
    } else {
        rows.4
    }
}

impl Chip8 {
    /// The machine is well-formed: the model is, and the entropy source is.
    pub closed spec fn inv(self) -> bool {
        wf(self@) && self.entropy.wf()
    }

    /// A well-formed machine has a well-formed model.
    pub proof fn lemma_inv_wf(self)
        requires
            self.inv(),
        ensures
            wf(self@),
    {
    }

    /// Builds the machine from an entropy source and a program image, which
    /// is loaded verbatim at the load address; everything else starts
    /// cleared. An image longer than the memory past the load address is
    /// rejected, if and only if it is longer.
    pub fn with_program(entropy: Entropy, program: &[u8]) -> (r: Result<Chip8, Chip8Error>)
        requires
            entropy.wf(),
        ensures
            match r {
                Ok(c) => {
                    &&& program@.len() <= RAM_SIZE - PROGRAM_START_PC
                    &&& c.inv()
                    &&& c@ == boot_vm(program@)
                },
                Err(e) => {
                    &&& e == Chip8Error::ProgramTooLarge
                    &&& program@.len() > RAM_SIZE - PROGRAM_START_PC
                },
            },
    {
        if program.len() > RAM_SIZE - PROGRAM_START_PC {
            return Err(Chip8Error::ProgramTooLarge);
        }

        let mut ram: Vec<u8> = filled(RAM_SIZE, 0u8);

        let mut a: usize = 0;
        while a < FONT_BYTES
            invariant
                a <= FONT_BYTES,
                ram@.len() == RAM_SIZE,
                forall|j: int| 0 <= j < a ==> ram@[j] == font_byte(j),
                forall|j: int| a <= j < RAM_SIZE ==> ram@[j] == 0u8,
            decreases FONT_BYTES - a,
        {
            let b = font_row((a / 5) as u8, (a % 5) as u8);
            proof {
                assert((a / 5) * 5 + a % 5 == a) by (nonlinear_arith);
            }
            ram[a] = b;
            a = a + 1;
        }

        let mut j: usize = 0;
        while j < program.len()
            invariant
                j <= program@.len(),
                program@.len() <= RAM_SIZE - PROGRAM_START_PC,
                ram@.len() == RAM_SIZE,
                forall|k: int| 0 <= k < FONT_BYTES ==> ram@[k] == font_byte(k),
                forall|k: int|
                    PROGRAM_START_PC <= k < PROGRAM_START_PC + j ==> ram@[k] == program@[
                        k - PROGRAM_START_PC
                    ],
                forall|k: int|
                    FONT_BYTES <= k < RAM_SIZE && !(PROGRAM_START_PC <= k < PROGRAM_START_PC
                        + j) ==> ram@[k] == 0u8,
            decreases program@.len() - j,
        {
            ram[PROGRAM_START_PC + j] = program[j];
            j = j + 1;
        }

        let c = Chip8 {
            registers: filled(16, 0u8),
            i_reg: 0,
            ram,
            vram: filled(DISPLAY_PIXELS, false),
            pc: PROGRAM_START_PC,
            stack: Vec::new(),
            delay_timer: 0,
            sound_timer: 0,
            waiting_keypress_reg: None,
            keyboard: filled(16, false),
            entropy,
        };
        proof {
            assert(c@.ram =~= boot_ram(program@));
            assert(c@ == boot_vm(program@));
        }
        Ok(c)
    }

    /// Moves both timers one tick towards zero; each stops there instead of
    /// wrapping.
    pub fn decrease_timers(&mut self)
        requires
            old(self).inv(),
        ensures
            final(self).inv(),
            final(self)@ == (Vm {
                delay: if old(self)@.delay > 0 { (old(self)@.delay - 1) as u8 } else { 0u8 },
                sound: if old(self)@.sound > 0 { (old(self)@.sound - 1) as u8 } else { 0u8 },
                ..old(self)@
            }),
    {
        if self.delay_timer > 0 {
            self.delay_timer = self.delay_timer - 1;
        }
        if self.sound_timer > 0 {
            self.sound_timer = self.sound_timer - 1;
        }
    }

    /// Whether the host should be sounding its tone right now.
    pub fn sound_active(&self) -> (r: bool)
        ensures
            r == (self@.sound > 0),
    {
        self.sound_timer > 0
    }

    /// Presses latch key `hex_key`; a pending blocking wait resolves, writing
    /// the key's value into its target register exactly once.
    pub fn keypress(&mut self, hex_key: u8)
        requires
            old(self).inv(),
            hex_key < 16,
        ensures
            final(self).inv(),
            final(self)@ == (Vm {
                keys: old(self)@.keys.update(hex_key as int, true),
                regs: match old(self)@.waiting {
                    Some(x) => old(self)@.regs.update(x as int, hex_key),
                    None => old(self)@.regs,
                },
                waiting: None,
                ..old(self)@
            }),
    {
        self.keyboard[hex_key as usize] = true;

        if let Some(x) = self.waiting_keypress_reg {
            self.registers[x as usize] = hex_key;
        }

        self.waiting_keypress_reg = None;
    }

    /// Releases latch key `hex_key`; a pending blocking wait stays pending.
    pub fn keyrelease(&mut self, hex_key: u8)
        requires
            old(self).inv(),
            hex_key < 16,
        ensures
            final(self).inv(),
            final(self)@ == (Vm {
                keys: old(self)@.keys.update(hex_key as int, false),
                ..old(self)@
            }),
    {
        self.keyboard[hex_key as usize] = false;
    }

    /// The framebuffer as one finite sequence of `(row, column, lit)`
    /// triples, row-major; re-enumerable every frame without mutating state.
    pub fn pixels(&self) -> (r: Vec<(usize, usize, bool)>)
        requires
            self.inv(),
        ensures
            r@.len() == DISPLAY_PIXELS,
            forall|p: int|
                0 <= p < DISPLAY_PIXELS ==> r@[p] == (
                    (p / 64) as usize,
                    (p % 64) as usize,
                    self@.fb[p],
                ),
    {
        let mut r: Vec<(usize, usize, bool)> = Vec::new();
        let mut p: usize = 0;
        while p < DISPLAY_PIXELS
            invariant
                p <= DISPLAY_PIXELS,
                self.inv(),
                r@.len() == p,
                forall|q: int|
                    0 <= q < p ==> r@[q] == ((q / 64) as usize, (q % 64) as usize, self@.fb[q]),
            decreases DISPLAY_PIXELS - p,
        {
            r.push((p / 64, p % 64, self.vram[p]));
            p = p + 1;
        }
        r
    }

    /// The value of register `Vx`.
    pub fn register(&self, x: u8) -> (r: u8)
        requires
            self.inv(),
            x < 16,
        ensures
            r == self@.regs[x as int],
    {
        self.registers[x as usize]
    }

    /// The value of the index register `I`.
    pub fn index_reg(&self) -> (r: u16)
        ensures
            r == self@.i,
    {
        self.i_reg
    }

    /// The current program counter.
    pub fn program_counter(&self) -> (r: usize)
        ensures
            r == self@.pc,
    {
        self.pc
    }

    /// The byte at memory address `addr`.
    pub fn mem(&self, addr: usize) -> (r: u8)
        requires
            self.inv(),
            addr < RAM_SIZE,
        ensures
            r == self@.ram[addr as int],
    {
        self.ram[addr]
    }

    /// The value of the delay timer.
    pub fn delay(&self) -> (r: u8)
        ensures
            r == self@.delay,
    {
        self.delay_timer
    }

    /// The value of the sound timer.
    pub fn sound(&self) -> (r: u8)
        ensures
            r == self@.sound,
    {
        self.sound_timer
    }

    /// The pixel at `(row, col)`; `true` is lit.
    pub fn pixel(&self, row: usize, col: usize) -> (r: bool)
        requires
            self.inv(),
            row < DISPLAY_HEIGHT,
            col < DISPLAY_WIDTH,
        ensures
            r == self@.fb[row * 64 + col],
    {
        proof {
            assert(row * 64 + col < DISPLAY_PIXELS) by (nonlinear_arith)
                requires row < 32, col < 64;
        }
        self.vram[row * DISPLAY_WIDTH + col]
    }

    /// The register a pending blocking key wait targets, if one is pending.
    pub fn waiting_key(&self) -> (r: Option<u8>)
        ensures
            r == self@.waiting,
    {
        self.waiting_keypress_reg
    }

    /// Whether latch key `k` is currently pressed.
    pub fn key(&self, k: u8) -> (r: bool)
        requires
            self.inv(),
            k < 16,
        ensures
            r == self@.keys[k as int],
    {
        self.keyboard[k as usize]
    }

    fn clear_vram(&mut self)
        requires
            old(self).inv(),
        ensures
            final(self).inv(),
            final(self)@ == spec_clear(old(self)@),
    {
        self.vram = filled(DISPLAY_PIXELS, false);
        proof {
            assert(self@.fb =~= spec_clear(old(self)@).fb);
            assert(self@ =~= spec_clear(old(self)@));
        }
    }

    fn ret(&mut self) -> (r: Result<(), Chip8Error>)
        requires
            old(self).inv(),
        ensures
            final(self).inv(),
            match spec_ret(old(self)@) {
                Ok(v) => r is Ok && final(self)@ == v,
                Err(e) => r == Err::<(), Chip8Error>(e) && final(self)@ == old(self)@,
            },
    {
        match self.stack.pop() {
            Some(p) => {
                self.pc = p;
                Ok(())
            },
            None => Err(Chip8Error::StackUnderflow),
        }
    }

    fn call(&mut self, nnn: u16) -> (r: Result<(), Chip8Error>)
        requires
            old(self).inv(),
        ensures
            final(self).inv(),
            match spec_call(old(self)@, nnn) {
                Ok(v) => r is Ok && final(self)@ == v,
                Err(e) => r == Err::<(), Chip8Error>(e) && final(self)@ == old(self)@,
            },
    {
        if self.stack.len() >= STACK_DEPTH {
            return Err(Chip8Error::StackOverflow);
        }
        self.stack.push(self.pc);
        self.pc = nnn as usize;
        Ok(())
    }

    fn goto(&mut self, nnn: u16)
        requires
            old(self).inv(),
        ensures
            final(self).inv(),
            final(self)@ == spec_jump(old(self)@, nnn),
    {
        self.pc = nnn as usize;
    }

    fn goto_off(&mut self, nnn: u16)
        requires
            old(self).inv(),
        ensures
            final(self).inv(),
            final(self)@ == spec_jump_off(old(self)@, nnn),
    {
        self.pc = nnn as usize + self.registers[0] as usize;
    }

    fn skip(&mut self, cond: bool)
        requires
            old(self).inv(),
            old(self)@.pc <= RAM_SIZE,
        ensures
            final(self).inv(),
            final(self)@ == spec_skip(old(self)@, cond),
    {
        if cond {
            self.pc = self.pc + 2;
        }
    }

    fn load(&mut self, x: u8, nn: u8)
        requires
            old(self).inv(),
            x < 16,
        ensures
            final(self).inv(),
            final(self)@ == spec_load(old(self)@, x, nn),
    {
        self.registers[x as usize] = nn;
    }

    fn assign(&mut self, x: u8, y: u8)
        requires
            old(self).inv(),
            x < 16,
            y < 16,
        ensures
            final(self).inv(),
            final(self)@ == spec_assign(old(self)@, x, y),
    {
        let v = self.registers[y as usize];
        self.registers[x as usize] = v;
    }

    fn add_nn(&mut self, x: u8, nn: u8)
        requires
            old(self).inv(),
            x < 16,
        ensures
            final(self).inv(),
            final(self)@ == spec_add_nn(old(self)@, x, nn),
    {
        let sum = self.registers[x as usize] as u16 + nn as u16;
        self.registers[x as usize] = (sum % 256) as u8;
    }

    fn or(&mut self, x: u8, y: u8)
        requires
            old(self).inv(),
            x < 16,
            y < 16,
        ensures
            final(self).inv(),
            final(self)@ == spec_or(old(self)@, x, y),
    {
        let v = self.registers[x as usize] | self.registers[y as usize];
        self.registers[x as usize] = v;
    }

    fn and(&mut self, x: u8, y: u8)
        requires
            old(self).inv(),
            x < 16,
            y < 16,
        ensures
            final(self).inv(),
            final(self)@ == spec_and(old(self)@, x, y),
    {
        let v = self.registers[x as usize] & self.registers[y as usize];
        self.registers[x as usize] = v;
    }

    fn xor(&mut self, x: u8, y: u8)
        requires
            old(self).inv(),
            x < 16,
            y < 16,
        ensures
            final(self).inv(),
            final(self)@ == spec_xor(old(self)@, x, y),
    {
        let v = self.registers[x as usize] ^ self.registers[y as usize];
        self.registers[x as usize] = v;
    }

    fn add_rr(&mut self, x: u8, y: u8)
        requires
            old(self).inv(),
            x < 16,
            y < 16,
        ensures
            final(self).inv(),
            final(self)@ == spec_add_rr(old(self)@, x, y),
    {
        let sum = self.registers[x as usize] as u16 + self.registers[y as usize] as u16;
        self.registers[x as usize] = (sum % 256) as u8;
        self.registers[15] = if sum > 255 { 1 } else { 0 };
    }

    fn sub_rr(&mut self, x: u8, y: u8)
        requires
            old(self).inv(),
            x < 16,
            y < 16,
        ensures
            final(self).inv(),
            final(self)@ == spec_sub_rr(old(self)@, x, y),
    {
        let a = self.registers[x as usize];
        let b = self.registers[y as usize];
        self.registers[x as usize] = if a >= b {
            a - b
        } else {
            (a as u16 + 256 - b as u16) as u8
        };
        self.registers[15] = if a < b { 1 } else { 0 };
    }

    fn sub_rr_inv(&mut self, x: u8, y: u8)
        requires
            old(self).inv(),
            x < 16,
            y < 16,
        ensures
            final(self).inv(),
            final(self)@ == spec_sub_rr_inv(old(self)@, x, y),
    {
        let a = self.registers[x as usize];
        let b = self.registers[y as usize];
        self.registers[x as usize] = if b >= a {
            b - a
        } else {
            (b as u16 + 256 - a as u16) as u8
        };
        self.registers[15] = if b < a { 1 } else { 0 };
    }

    fn shiftr(&mut self, x: u8)
        requires
            old(self).inv(),
            x < 16,
        ensures
            final(self).inv(),
            final(self)@ == spec_shiftr(old(self)@, x),
    {
        let flag = self.registers[x as usize] & 1;
        self.registers[15] = flag;
        let v = self.registers[x as usize];
        self.registers[x as usize] = v / 2;
    }

    fn shiftl(&mut self, x: u8)
        requires
            old(self).inv(),
            x < 16,
        ensures
            final(self).inv(),
            final(self)@ == spec_shiftl(old(self)@, x),
    {
        let flag = self.registers[x as usize] / 128;
        self.registers[15] = flag;
        let v = self.registers[x as usize];
        self.registers[x as usize] = ((v as u16 * 2) % 256) as u8;
    }

    fn set_i(&mut self, nnn: u16)
        requires
            old(self).inv(),
        ensures
            final(self).inv(),
            final(self)@ == spec_set_i(old(self)@, nnn),
    {
        self.i_reg = nnn;
    }

    fn add_i(&mut self, x: u8)
        requires
            old(self).inv(),
            x < 16,
        ensures
            final(self).inv(),
            final(self)@ == spec_add_i(old(self)@, x),
    {
        let sum = self.i_reg as u32 + self.registers[x as usize] as u32;
        self.i_reg = (sum % 0x10000) as u16;
        self.registers[15] = if sum > 0xFFFF { 1 } else { 0 };
    }

    fn font_sprite_addr(&mut self, x: u8)
        requires
            old(self).inv(),
            x < 16,
        ensures
            final(self).inv(),
            final(self)@ == spec_font_addr(old(self)@, x),
    {
        self.i_reg = self.registers[x as usize] as u16 * 5;
    }

    fn store_delay(&mut self, x: u8)
        requires
            old(self).inv(),
            x < 16,
        ensures
            final(self).inv(),
            final(self)@ == spec_store_delay(old(self)@, x),
    {
        let v = self.delay_timer;
        self.registers[x as usize] = v;
    }

    fn set_delay_timer(&mut self, x: u8)
        requires
            old(self).inv(),
            x < 16,
        ensures
            final(self).inv(),
            final(self)@ == spec_set_delay(old(self)@, x),
    {
        self.delay_timer = self.registers[x as usize];
    }

    fn set_sound_timer(&mut self, x: u8)
        requires
            old(self).inv(),
            x < 16,
        ensures
            final(self).inv(),
            final(self)@ == spec_set_sound(old(self)@, x),
    {
        self.sound_timer = self.registers[x as usize];
    }

    fn key_skip(&mut self, x: u8, want_pressed: bool) -> (r: Result<(), Chip8Error>)
        requires
            old(self).inv(),
            x < 16,
            old(self)@.pc <= RAM_SIZE,
        ensures
            final(self).inv(),
            match spec_key_skip(old(self)@, x, want_pressed) {
                Ok(v) => r is Ok && final(self)@ == v,
                Err(e) => r == Err::<(), Chip8Error>(e) && final(self)@ == old(self)@,
            },
    {
        let k = self.registers[x as usize];
        if k >= 16 {
            return Err(Chip8Error::OutOfBoundsAccess);
        }
        let pressed = self.keyboard[k as usize];
        self.skip(pressed == want_pressed);
        Ok(())
    }

    fn wait_keypress(&mut self, x: u8)
        requires
            old(self).inv(),
            x < 16,
        ensures
            final(self).inv(),
            final(self)@ == spec_wait_key(old(self)@, x),
    {
        self.waiting_keypress_reg = Some(x);
    }

    fn bcd(&mut self, x: u8) -> (r: Result<(), Chip8Error>)
        requires
            old(self).inv(),
            x < 16,
        ensures
            final(self).inv(),
            match spec_bcd(old(self)@, x) {
                Ok(v) => r is Ok && final(self)@ == v,
                Err(e) => r == Err::<(), Chip8Error>(e) && final(self)@ == old(self)@,
            },
    {
        let i = self.i_reg as usize;
        if i + 2 >= RAM_SIZE {
            return Err(Chip8Error::OutOfBoundsAccess);
        }
        let v = self.registers[x as usize];
        self.ram[i] = v / 100;
        self.ram[i + 1] = (v / 10) % 10;
        self.ram[i + 2] = v % 10;
        Ok(())
    }

    fn load_random(&mut self, x: u8, nn: u8)
        requires
            old(self).inv(),
            x < 16,
        ensures
            final(self).inv(),
            exists|b: u8| final(self)@ == spec_random(old(self)@, x, nn, b),
    {
        let b = self.entropy.next_byte();
        self.registers[x as usize] = b & nn;
        proof {
            assert(self@ == spec_random(old(self)@, x, nn, b));
        }
    }

    fn dump_regs(&mut self, x: u8) -> (r: Result<(), Chip8Error>)
        requires
            old(self).inv(),
            x < 16,
        ensures
            final(self).inv(),
            match spec_dump_regs(old(self)@, x) {
                Ok(v) => r is Ok && final(self)@ == v,
                Err(e) => r == Err::<(), Chip8Error>(e) && final(self)@ == old(self)@,
            },
    {
        let i = self.i_reg as usize;
        if i + x as usize >= RAM_SIZE {
            return Err(Chip8Error::OutOfBoundsAccess);
        }
        let ghost pre = self@;
        let mut k: usize = 0;
        while k < x as usize + 1
            invariant
                k <= x as usize + 1,
                x < 16,
                i == pre.i,
                i + x < RAM_SIZE,
                self.inv(),
                self@.ram.len() == RAM_SIZE,
                self@ == (Vm { ram: self@.ram, ..pre }),
                forall|a: int|
                    0 <= a < RAM_SIZE ==> self@.ram[a] == (
                        if i <= a < i + k {
                            pre.regs[a - i]
                        } else {
                            pre.ram[a]
                        }
                    ),
            decreases x as usize + 1 - k,
        {
            let v = self.registers[k];
            self.ram[i + k] = v;
            k = k + 1;
        }
        proof {
            assert(self@.ram =~= spec_dump_regs(pre, x).unwrap().ram);
            assert(self@ =~= spec_dump_regs(pre, x).unwrap());
        }
        Ok(())
    }

    fn load_regs(&mut self, x: u8) -> (r: Result<(), Chip8Error>)
        requires
            old(self).inv(),
            x < 16,
        ensures
            final(self).inv(),
            match spec_load_regs(old(self)@, x) {
                Ok(v) => r is Ok && final(self)@ == v,
                Err(e) => r == Err::<(), Chip8Error>(e) && final(self)@ == old(self)@,
            },
    {
        let i = self.i_reg as usize;
        if i + x as usize >= RAM_SIZE {
            return Err(Chip8Error::OutOfBoundsAccess);
        }
        let ghost pre = self@;
        let mut k: usize = 0;
        while k < x as usize + 1
            invariant
                k <= x as usize + 1,
                x < 16,
                i == pre.i,
                i + x < RAM_SIZE,
                self.inv(),
                self@ == (Vm { regs: self@.regs, ..pre }),
                self@.regs.len() == 16,
                forall|a: int|
                    0 <= a < 16 ==> self@.regs[a] == (
                        if 0 <= a < k {
                            pre.ram[i + a]
                        } else {
                            pre.regs[a]
                        }
                    ),
            decreases x as usize + 1 - k,
        {
            let v = self.ram[i + k];
            self.registers[k] = v;
            k = k + 1;
        }
        proof {
            assert(self@.regs =~= spec_load_regs(pre, x).unwrap().regs);
            assert(self@ =~= spec_load_regs(pre, x).unwrap());
        }
        Ok(())
    }

    fn draw(&mut self, x: u8, y: u8, n: u8)
        requires
            old(self).inv(),
            x < 16,
            y < 16,
            n < 16,
        ensures
            final(self).inv(),
            final(self)@ == spec_draw(old(self)@, x, y, n),
    {
        let x0 = self.registers[x as usize] as usize;
        let y0 = self.registers[y as usize] as usize;
        let base = self.i_reg as usize;
        let ghost pre = self@;
        let mut vf: u8 = 0;
        let mut i: usize = 0;
        while i < n as usize
            invariant
                i <= n,
                x < 16,
                y < 16,
                n < 16,
                self.inv(),
                x0 == pre.regs[x as int],
                y0 == pre.regs[y as int],
                base == pre.i,
                self@ == (Vm { fb: self@.fb, ..pre }),
                self@.fb.len() == DISPLAY_PIXELS,
                vf == 0 || vf == 1,
                forall|idx: int|
                    0 <= idx < DISPLAY_PIXELS ==> self@.fb[idx] == (pre.fb[idx]
                        != draw_flips(pre.ram, x0 as int, y0 as int, base as int, i as int, idx)),
                (vf == 1) <==> (exists|idx: int|
                    0 <= idx < DISPLAY_PIXELS && draw_flips(
                        pre.ram,
                        x0 as int,
                        y0 as int,
                        base as int,
                        i as int,
                        idx,
                    ) && pre.fb[idx]),
            decreases n - i,
        {
            if base + i < RAM_SIZE && y0 + i < DISPLAY_HEIGHT {
                let row = self.ram[base + i];
                let mut b: usize = 0;
                while b < 8
                    invariant
                        b <= 8,
                        i < n,
                        n < 16,
                        x < 16,
                        y < 16,
                        base + i < RAM_SIZE,
                        y0 + i < DISPLAY_HEIGHT,
                        self.inv(),
                        x0 == pre.regs[x as int],
                        y0 == pre.regs[y as int],
                        base == pre.i,
                        row == pre.ram[base + i],
                        self@ == (Vm { fb: self@.fb, ..pre }),
                        self@.fb.len() == DISPLAY_PIXELS,
                        vf == 0 || vf == 1,
                        forall|idx: int|
                            0 <= idx < DISPLAY_PIXELS ==> self@.fb[idx] == (pre.fb[idx] != (
                            draw_flips(pre.ram, x0 as int, y0 as int, base as int, i as int, idx)
                                || row_flip_upto(
                                pre.ram,
                                x0 as int,
                                y0 + i,
                                base + i,
                                b as int,
                                idx,
                            ))),
                        (vf == 1) <==> (exists|idx: int|
                            0 <= idx < DISPLAY_PIXELS && (draw_flips(
                                pre.ram,
                                x0 as int,
                                y0 as int,
                                base as int,
                                i as int,
                                idx,
                            ) || row_flip_upto(
                                pre.ram,
                                x0 as int,
                                y0 + i,
                                base + i,
                                b as int,
                                idx,
                            )) && pre.fb[idx]),
                    decreases 8 - b,
                {
                    if x0 + b < DISPLAY_WIDTH {
                        let idx = (y0 + i) * DISPLAY_WIDTH + (x0 + b);
                        proof {
                            assert(idx < DISPLAY_PIXELS && idx as int / 64 == y0 + i && idx as int
                                % 64 == x0 + b) by (nonlinear_arith)
                                requires
                                    y0 + i < 32,
                                    x0 + b < 64,
                                    idx == (y0 + i) * 64 + (x0 + b),
                            ;
                        }
                        let bit = ((row >> ((7 - b) as u8)) & 1) == 1;
                        proof {
                            assert(bit == sprite_bit(pre.ram[base + i], b as int));
                        }
                        let cur = self.vram[idx];
                        proof {
                            assert(!draw_flips(
                                pre.ram,
                                x0 as int,
                                y0 as int,
                                base as int,
                                i as int,
                                idx as int,
                            ));
                            assert(!row_flip_upto(
                                pre.ram,
                                x0 as int,
                                y0 + i,
                                base + i,
                                b as int,
                                idx as int,
                            ));
                            assert(cur == pre.fb[idx as int]);
                        }
                        if cur && bit {
                            vf = 1;
                        }
                        self.vram[idx] = cur != bit;
                        proof {
                            assert(row_flip_upto(
                                pre.ram,
                                x0 as int,
                                y0 + i,
                                base + i,
                                b + 1,
                                idx as int,
                            ) == bit);
                            assert forall|j: int|
                                #![trigger row_flip_upto(pre.ram, x0 as int, y0 + i, base + i, b + 1, j)]
                                0 <= j < DISPLAY_PIXELS && j != idx implies row_flip_upto(
                                pre.ram,
                                x0 as int,
                                y0 + i,
                                base + i,
                                b + 1,
                                j,
                            ) == row_flip_upto(pre.ram, x0 as int, y0 + i, base + i, b as int, j)
                            by {
                                vstd::arithmetic::div_mod::lemma_fundamental_div_mod(j, 64);
                            }
                        }
                    } else {
                        proof {
                            assert forall|j: int|
                                #![trigger row_flip_upto(pre.ram, x0 as int, y0 + i, base + i, b + 1, j)]
                                0 <= j < DISPLAY_PIXELS implies row_flip_upto(
                                pre.ram,
                                x0 as int,
                                y0 + i,
                                base + i,
                                b + 1,
                                j,
                            ) == row_flip_upto(pre.ram, x0 as int, y0 + i, base + i, b as int, j)
                            by {
                                assert(j % 64 < 64);
                            }
                        }
                    }
                    b = b + 1;
                }
                proof {
                    assert forall|j: int|
                        #![trigger draw_flips(pre.ram, x0 as int, y0 as int, base as int, i + 1, j)]
                        0 <= j < DISPLAY_PIXELS implies draw_flips(
                        pre.ram,
                        x0 as int,
                        y0 as int,
                        base as int,
                        i + 1,
                        j,
                    ) == (draw_flips(pre.ram, x0 as int, y0 as int, base as int, i as int, j)
                        || row_flip_upto(pre.ram, x0 as int, y0 + i, base + i, 8, j)) by {
                        vstd::arithmetic::div_mod::lemma_fundamental_div_mod(j, 64);
                    }
                }
            } else {
                proof {
                    assert forall|j: int|
                        #![trigger draw_flips(pre.ram, x0 as int, y0 as int, base as int, i + 1, j)]
                        0 <= j < DISPLAY_PIXELS implies draw_flips(
                        pre.ram,
                        x0 as int,
                        y0 as int,
                        base as int,
                        i + 1,
                        j,
                    ) == draw_flips(pre.ram, x0 as int, y0 as int, base as int, i as int, j) by {
                        assert(j / 64 < 32) by (nonlinear_arith)
                            requires 0 <= j < 2048;
                    }
                }
            }
            i = i + 1;
        }
        self.registers[15] = vf;
        proof {
            assert(self@.fb =~= draw_fb(pre.fb, pre.ram, x0 as int, y0 as int, base as int,
                n as int));
            assert(self@.regs =~= pre.regs.update(
                15,
                if draw_collision(pre.fb, pre.ram, x0 as int, y0 as int, base as int, n as int) {
                    1u8
                } else {
                    0u8
                },
            ));
            assert(self@ =~= spec_draw(pre, x, y, n));
        }
    }

    /// Runs one virtual cycle: a no-op while a blocking key wait is pending;
    /// otherwise the word at the program counter is fetched, the counter
    /// moves past it, and the instruction executes, exactly as
    /// [`vm_step`] describes for some byte of the entropy source. A fault
    /// never depends on that byte; it is reported to the caller and the
    /// machine is left exactly as it was: no partial mutation survives, the
    /// fetch advance included.
    pub fn emulate_cycle(&mut self) -> (r: Result<(), Chip8Error>)
        requires
            old(self).inv(),
        ensures
            final(self).inv(),
            match r {
                Ok(_) => exists|b: u8|
                    vm_step(old(self)@, b) == Ok::<Vm, Chip8Error>(final(self)@),
                Err(e) => (forall|b: u8| vm_step(old(self)@, b) == Err::<Vm, Chip8Error>(e))
                    && final(self)@ == old(self)@,
            },
    {
        if self.waiting_keypress_reg.is_some() {
            proof {
                assert(vm_step(self@, 0) == Ok::<Vm, Chip8Error>(self@));
            }
            return Ok(());
        }
        if self.pc >= RAM_SIZE - 1 {
            return Err(Chip8Error::OutOfBoundsAccess);
        }
        let w = (self.ram[self.pc] as u16) * 256 + (self.ram[self.pc + 1] as u16);
        proof {
            assert(w == spec_fetch(self@));
        }
        let inst = match decode(w) {
            Some(inst) => inst,
            None => {
                return Err(Chip8Error::UnknownOpcode);
            },
        };
        proof {
            lemma_decode_in_range(w);
        }
        self.pc = self.pc + 2;
        let ghost mid = self@;
        let res: Result<(), Chip8Error> = match inst {
            Instr::ClearScreen => {
                self.clear_vram();
                Ok(())
            },
            Instr::Return => self.ret(),
            Instr::Jump { nnn } => {
                self.goto(nnn);
                Ok(())
            },
            Instr::Call { nnn } => self.call(nnn),
            Instr::SkipEqImm { x, nn } => {
                let c = self.registers[x as usize] == nn;
                self.skip(c);
                Ok(())
            },
            Instr::SkipNeImm { x, nn } => {
                let c = self.registers[x as usize] != nn;
                self.skip(c);
                Ok(())
            },
            Instr::SkipEqReg { x, y } => {
                let c = self.registers[x as usize] == self.registers[y as usize];
                self.skip(c);
                Ok(())
            },
            Instr::LoadImm { x, nn } => {
                self.load(x, nn);
                Ok(())
            },
            Instr::AddImm { x, nn } => {
                self.add_nn(x, nn);
                Ok(())
            },
            Instr::Assign { x, y } => {
                self.assign(x, y);
                Ok(())
            },
            Instr::Or { x, y } => {
                self.or(x, y);
                Ok(())
            },
            Instr::And { x, y } => {
                self.and(x, y);
                Ok(())
            },
            Instr::Xor { x, y } => {
                self.xor(x, y);
                Ok(())
            },
            Instr::AddReg { x, y } => {
                self.add_rr(x, y);
                Ok(())
            },
            Instr::SubReg { x, y } => {
                self.sub_rr(x, y);
                Ok(())
            },
            Instr::ShiftRight { x } => {
                self.shiftr(x);
                Ok(())
            },
            Instr::SubRev { x, y } => {
                self.sub_rr_inv(x, y);
                Ok(())
            },
            Instr::ShiftLeft { x } => {
                self.shiftl(x);
                Ok(())
            },
            Instr::SkipNeReg { x, y } => {
                let c = self.registers[x as usize] != self.registers[y as usize];
                self.skip(c);
                Ok(())
            },
            Instr::SetIndex { nnn } => {
                self.set_i(nnn);
                Ok(())
            },
            Instr::JumpOffset { nnn } => {
                self.goto_off(nnn);
                Ok(())
            },
            Instr::Random { x, nn } => {
                self.load_random(x, nn);
                Ok(())
            },
            Instr::Draw { x, y, n } => {
                self.draw(x, y, n);
                Ok(())
            },
            Instr::SkipKeyPressed { x } => self.key_skip(x, true),
            Instr::SkipKeyReleased { x } => self.key_skip(x, false),
            Instr::ReadDelay { x } => {
                self.store_delay(x);
                Ok(())
            },
            Instr::WaitKey { x } => {
                self.wait_keypress(x);
                Ok(())
            },
            Instr::SetDelay { x } => {
                self.set_delay_timer(x);
                Ok(())
            },
            Instr::SetSound { x } => {
                self.set_sound_timer(x);
                Ok(())
            },
            Instr::AddIndex { x } => {
                self.add_i(x);
                Ok(())
            },
            Instr::FontAddr { x } => {
                self.font_sprite_addr(x);
                Ok(())
            },
            Instr::StoreBcd { x } => self.bcd(x),
            Instr::StoreRegs { x } => self.dump_regs(x),
            Instr::LoadRegs { x } => self.load_regs(x),
        };
        match res {
            Ok(_) => {
                proof {
                    if let Instr::Random { x, nn } = inst {
                        let b = choose|b: u8| self@ == spec_random(mid, x, nn, b);
                        assert(vm_step(old(self)@, b) == Ok::<Vm, Chip8Error>(self@));
                    } else {
                        assert(vm_step(old(self)@, 0) == Ok::<Vm, Chip8Error>(self@));
                    }
                }
                Ok(())
            },
            Err(e) => {
                self.pc = self.pc - 2;
                proof {
                    assert(self@ =~= old(self)@);
                    assert(vm_step(old(self)@, 0) == Err::<Vm, Chip8Error>(e));
                }
                Err(e)
            },
        }
    }
}

} // verus!
