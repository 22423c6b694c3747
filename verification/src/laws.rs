//! General laws of the instruction semantics, stated and proved over the
//! mathematical model of [`crate::vm`].

use vstd::prelude::*;
use crate::isa::{Chip8Error, Instr};
use crate::vm::{
    Vm, wf, spec_add_rr, spec_sub_rr, spec_sub_rr_inv, spec_dump_regs, spec_load_regs,
    spec_draw, spec_wait_key, draw_flips, exec_instr, vm_step, RAM_SIZE, DISPLAY_PIXELS,
};

verus! {

/// The arithmetic flags, for all 8-bit operands: `8xy4` sets `VF` to 1
/// exactly when `Vx + Vy` exceeds 255; `8xy5` sets it to 1 exactly when
/// `Vx < Vy` (a borrow); `8xy7` is the mirror, flagging `Vy < Vx`, the same
/// flag `8xy5` yields with its operands read the other way round.
pub proof fn lemma_arithmetic_flags(s: Vm, x: u8, y: u8)
    requires
        wf(s),
        x < 16,
        y < 16,
    ensures
        ({
            let a = s.regs[x as int];
            let b = s.regs[y as int];
            &&& spec_add_rr(s, x, y).regs[15] == (if a + b > 255 { 1u8 } else { 0u8 })
            &&& spec_sub_rr(s, x, y).regs[15] == (if a < b { 1u8 } else { 0u8 })
            &&& spec_sub_rr_inv(s, x, y).regs[15] == (if b < a { 1u8 } else { 0u8 })
            &&& spec_sub_rr_inv(s, x, y).regs[15] == spec_sub_rr(s, y, x).regs[15]
        }),
{
}

/// Register dump then register load, for the same `x` and the same `I`, is
/// the identity on the whole register file: `Fx55` writes `V0..=Vx` to
/// memory without touching `I`, and `Fx65` reads the same bytes back.
pub proof fn lemma_dump_load_round_trip(s: Vm, x: u8)
    requires
        wf(s),
        x < 16,
        s.i + x < RAM_SIZE,
    ensures
        spec_dump_regs(s, x) is Ok,
        ({
            let s1 = spec_dump_regs(s, x).unwrap();
            &&& s1.i == s.i
            &&& spec_load_regs(s1, x) is Ok
            &&& spec_load_regs(s1, x).unwrap().regs == s.regs
        }),
{
    let s1 = spec_dump_regs(s, x).unwrap();
    let s2 = spec_load_regs(s1, x).unwrap();
    assert forall|r: int| 0 <= r < 16 implies s2.regs[r] == s.regs[r] by {
        if r <= x {
            assert(s1.ram[s.i + r] == s.regs[r]);
        }
    }
    assert(s2.regs =~= s.regs);
}

/// XOR blitting is self-inverse: drawing the same sprite twice at the same
/// coordinates, with no other mutation between, restores every pixel. The
/// second draw reports a collision exactly where the first draw turned some
/// pixel on, so its flag is 0 exactly when every pixel the sprite touches
/// was already lit before the first draw. `x` and `y` name registers other
/// than the flag register, so the coordinates cannot change under the draw.
pub proof fn lemma_draw_twice(s: Vm, x: u8, y: u8, n: u8)
    requires
        wf(s),
        x < 16,
        y < 16,
        x != 15,
        y != 15,
    ensures
        ({
            let s1 = spec_draw(s, x, y, n);
            let s2 = spec_draw(s1, x, y, n);
            let x0 = s.regs[x as int] as int;
            let y0 = s.regs[y as int] as int;
            let base = s.i as int;
            &&& s2.fb == s.fb
            &&& s2.regs[15] == (if exists|idx: int|
                0 <= idx < DISPLAY_PIXELS && draw_flips(s.ram, x0, y0, base, n as int, idx)
                    && !s.fb[idx] {
                1u8
            } else {
                0u8
            })
        }),
{
    let s1 = spec_draw(s, x, y, n);
    let s2 = spec_draw(s1, x, y, n);
    let x0 = s.regs[x as int] as int;
    let y0 = s.regs[y as int] as int;
    let base = s.i as int;
    assert(s1.regs[x as int] == s.regs[x as int]);
    assert(s1.regs[y as int] == s.regs[y as int]);
    assert forall|idx: int| 0 <= idx < DISPLAY_PIXELS implies s2.fb[idx] == s.fb[idx] by {
        assert(s1.fb[idx] == (s.fb[idx] != draw_flips(s.ram, x0, y0, base, n as int, idx)));
    }
    assert(s2.fb =~= s.fb);
    if exists|idx: int|
        0 <= idx < DISPLAY_PIXELS && draw_flips(s.ram, x0, y0, base, n as int, idx)
            && !s.fb[idx] {
        let w = choose|idx: int|
            0 <= idx < DISPLAY_PIXELS && draw_flips(s.ram, x0, y0, base, n as int, idx)
                && !s.fb[idx];
        assert(s1.fb[w] == (s.fb[w] != draw_flips(s.ram, x0, y0, base, n as int, w)));
        assert(draw_flips(s1.ram, x0, y0, base, n as int, w) && s1.fb[w]);
        assert(s2.regs[15] == 1u8);
    } else {
        if s2.regs[15] == 1u8 {
            let w = choose|idx: int|
                0 <= idx < DISPLAY_PIXELS && draw_flips(s1.ram, x0, y0, base, n as int, idx)
                    && s1.fb[idx];
            assert(s1.fb[w] == (s.fb[w] != draw_flips(s.ram, x0, y0, base, n as int, w)));
            assert(!s.fb[w]);
            assert(false);
        }
    }
}

/// The blocking wait: executing `Fx0A` only records the target register,
/// and while the wait is pending the machine is a fixed point of the cycle
/// transition for every entropy byte — the program counter cannot advance
/// and no byte is consumed until a key press resolves the wait.
pub proof fn lemma_wait_key_blocks(s: Vm, x: u8, b: u8, b2: u8)
    requires
        wf(s),
    ensures
        exec_instr(s, Instr::WaitKey { x }, b) == Ok::<Vm, Chip8Error>(spec_wait_key(s, x)),
        spec_wait_key(s, x) == (Vm { waiting: Some(x), ..s }),
        s.waiting is Some ==> vm_step(s, b2) == Ok::<Vm, Chip8Error>(s),
{
}

} // verus!
