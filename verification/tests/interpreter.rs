use chip8::entropy::Entropy;
use chip8::isa::Chip8Error;
use chip8::machine::Chip8;

fn boot(prog: &[u8]) -> Chip8 {
    Chip8::with_program(Entropy::fixed(Vec::new()), prog).unwrap()
}

fn run(c: &mut Chip8, steps: usize) {
    for _ in 0..steps {
        c.emulate_cycle().unwrap();
    }
}

#[test]
fn add_with_carry_scenario() {
    // V0 = 5; V1 = 3; V0 += V1 with carry flag.
    let mut c = boot(&[0x60, 0x05, 0x61, 0x03, 0x80, 0x14]);
    run(&mut c, 3);
    assert_eq!(c.register(0), 8);
    assert_eq!(c.register(15), 0);
}

#[test]
fn add_carry_flag_set_on_overflow() {
    // V0 = 0xFF; V1 = 0x01; V0 += V1 wraps to 0 and sets VF.
    let mut c = boot(&[0x60, 0xFF, 0x61, 0x01, 0x80, 0x14]);
    run(&mut c, 3);
    assert_eq!(c.register(0), 0);
    assert_eq!(c.register(15), 1);
}

#[test]
fn sub_borrow_flag() {
    // V0 = 5; V1 = 10; V0 -= V1 borrows: V0 = 251, VF = 1.
    let mut c = boot(&[0x60, 0x05, 0x61, 0x0A, 0x80, 0x15]);
    run(&mut c, 3);
    assert_eq!(c.register(0), 251);
    assert_eq!(c.register(15), 1);
}

#[test]
fn sub_no_borrow_flag() {
    // V0 = 10; V1 = 5; V0 -= V1: V0 = 5, VF = 0.
    let mut c = boot(&[0x60, 0x0A, 0x61, 0x05, 0x80, 0x15]);
    run(&mut c, 3);
    assert_eq!(c.register(0), 5);
    assert_eq!(c.register(15), 0);
}

#[test]
fn sub_reversed_mirrors_operands() {
    // V0 = 10; V1 = 5; V0 = V1 - V0 borrows: V0 = 251, VF = 1.
    let mut c = boot(&[0x60, 0x0A, 0x61, 0x05, 0x80, 0x17]);
    run(&mut c, 3);
    assert_eq!(c.register(0), 251);
    assert_eq!(c.register(15), 1);
}

#[test]
fn dump_then_load_round_trips_registers() {
    // I = 0x300; V0..V2 = 1, 2, 3; dump V0..=V2; clear them; load V0..=V2.
    let mut c = boot(&[
        0xA3, 0x00, 0x60, 0x01, 0x61, 0x02, 0x62, 0x03, 0xF2, 0x55, 0x60, 0x00, 0x61, 0x00,
        0x62, 0x00, 0xF2, 0x65,
    ]);
    run(&mut c, 5);
    assert_eq!(c.mem(0x300), 1);
    assert_eq!(c.mem(0x301), 2);
    assert_eq!(c.mem(0x302), 3);
    run(&mut c, 3);
    assert_eq!(c.register(0), 0);
    run(&mut c, 1);
    assert_eq!(c.register(0), 1);
    assert_eq!(c.register(1), 2);
    assert_eq!(c.register(2), 3);
}

#[test]
fn bcd_of_157() {
    // V0 = 157; I = 0x300; store decimal digits.
    let mut c = boot(&[0x60, 0x9D, 0xA3, 0x00, 0xF0, 0x33]);
    run(&mut c, 3);
    assert_eq!(c.mem(0x300), 1);
    assert_eq!(c.mem(0x301), 5);
    assert_eq!(c.mem(0x302), 7);
}

#[test]
fn bcd_of_zero() {
    let mut c = boot(&[0x60, 0x00, 0xA3, 0x00, 0xF0, 0x33]);
    run(&mut c, 3);
    assert_eq!(c.mem(0x300), 0);
    assert_eq!(c.mem(0x301), 0);
    assert_eq!(c.mem(0x302), 0);
}

#[test]
fn timers_saturate_at_zero() {
    let mut c = boot(&[]);
    assert_eq!(c.delay(), 0);
    c.decrease_timers();
    assert_eq!(c.delay(), 0);
    assert_eq!(c.sound(), 0);
}

#[test]
fn delay_timer_counts_down() {
    // V0 = 2; delay = V0.
    let mut c = boot(&[0x60, 0x02, 0xF0, 0x15]);
    run(&mut c, 2);
    assert_eq!(c.delay(), 2);
    c.decrease_timers();
    assert_eq!(c.delay(), 1);
    c.decrease_timers();
    assert_eq!(c.delay(), 0);
    c.decrease_timers();
    assert_eq!(c.delay(), 0);
}

#[test]
fn sound_timer_drives_beep() {
    // V0 = 2; sound = V0.
    let mut c = boot(&[0x60, 0x02, 0xF0, 0x18]);
    run(&mut c, 2);
    assert!(c.sound_active());
    c.decrease_timers();
    assert!(c.sound_active());
    c.decrease_timers();
    assert!(!c.sound_active());
}

#[test]
fn read_delay_into_register() {
    // V0 = 5; delay = V0; V1 = delay.
    let mut c = boot(&[0x60, 0x05, 0xF0, 0x15, 0xF1, 0x07]);
    run(&mut c, 3);
    assert_eq!(c.register(1), 5);
}

#[test]
fn wait_key_halts_until_keypress() {
    // Wait for a key into V5, then V0 = 1.
    let mut c = boot(&[0xF5, 0x0A, 0x60, 0x01]);
    c.emulate_cycle().unwrap();
    assert_eq!(c.waiting_key(), Some(5));
    let pc = c.program_counter();
    for _ in 0..10 {
        c.emulate_cycle().unwrap();
        assert_eq!(c.program_counter(), pc);
        assert_eq!(c.register(0), 0);
    }
    c.keypress(0xA);
    assert_eq!(c.waiting_key(), None);
    assert_eq!(c.register(5), 0xA);
    c.emulate_cycle().unwrap();
    assert_eq!(c.register(0), 1);
}

#[test]
fn keyrelease_does_not_resolve_wait() {
    let mut c = boot(&[0xF5, 0x0A]);
    c.emulate_cycle().unwrap();
    assert_eq!(c.waiting_key(), Some(5));
    c.keyrelease(0x3);
    assert_eq!(c.waiting_key(), Some(5));
    assert!(!c.key(0x3));
}

#[test]
fn key_latch_set_and_cleared() {
    let mut c = boot(&[]);
    assert!(!c.key(7));
    c.keypress(7);
    assert!(c.key(7));
    c.keyrelease(7);
    assert!(!c.key(7));
}

#[test]
fn skip_if_key_pressed() {
    // V0 = 5; skip next if key 5 pressed; V1 = 1 (skipped); V1 = 2.
    let mut c = boot(&[0x60, 0x05, 0xE0, 0x9E, 0x61, 0x01, 0x61, 0x02]);
    c.keypress(5);
    run(&mut c, 3);
    assert_eq!(c.register(1), 2);
}

#[test]
fn skip_if_key_released() {
    // V0 = 5; skip next if key 5 released; V1 = 1 (skipped); V1 = 2.
    let mut c = boot(&[0x60, 0x05, 0xE0, 0xA1, 0x61, 0x01, 0x61, 0x02]);
    run(&mut c, 3);
    assert_eq!(c.register(1), 2);
}

#[test]
fn conditional_skips_on_immediates() {
    // V0 = 7; skip if V0 == 7; V1 = 1 (skipped); skip if V0 != 7 (not taken); V1 = 3.
    let mut c = boot(&[0x60, 0x07, 0x30, 0x07, 0x61, 0x01, 0x40, 0x07, 0x61, 0x03]);
    run(&mut c, 4);
    assert_eq!(c.register(1), 3);
}

#[test]
fn conditional_skips_on_registers() {
    // V0 = 7; V1 = 7; skip if V0 == V1; V2 = 1 (skipped); skip if V0 != V1 (not taken); V2 = 3.
    let mut c = boot(&[
        0x60, 0x07, 0x61, 0x07, 0x50, 0x10, 0x62, 0x01, 0x90, 0x10, 0x62, 0x03,
    ]);
    run(&mut c, 5);
    assert_eq!(c.register(2), 3);
}

#[test]
fn bitwise_ops() {
    // V0 = 0xCC; V1 = 0xAA; OR, then reload and AND, then reload and XOR.
    let mut c = boot(&[0x60, 0xCC, 0x61, 0xAA, 0x80, 0x11]);
    run(&mut c, 3);
    assert_eq!(c.register(0), 0xEE);
    let mut c = boot(&[0x60, 0xCC, 0x61, 0xAA, 0x80, 0x12]);
    run(&mut c, 3);
    assert_eq!(c.register(0), 0x88);
    let mut c = boot(&[0x60, 0xCC, 0x61, 0xAA, 0x80, 0x13]);
    run(&mut c, 3);
    assert_eq!(c.register(0), 0x66);
}

#[test]
fn shifts_and_their_flags() {
    // V0 = 5; shift right: V0 = 2, VF = 1.
    let mut c = boot(&[0x60, 0x05, 0x80, 0x06]);
    run(&mut c, 2);
    assert_eq!(c.register(0), 2);
    assert_eq!(c.register(15), 1);
    // V0 = 0x81; shift left: V0 = 2, VF = 1.
    let mut c = boot(&[0x60, 0x81, 0x80, 0x0E]);
    run(&mut c, 2);
    assert_eq!(c.register(0), 2);
    assert_eq!(c.register(15), 1);
}

#[test]
fn add_immediate_wraps_without_flag() {
    // V0 = 0xFF; V0 += 2 wraps to 1, VF untouched.
    let mut c = boot(&[0x60, 0xFF, 0x70, 0x02]);
    run(&mut c, 2);
    assert_eq!(c.register(0), 1);
    assert_eq!(c.register(15), 0);
}

#[test]
fn assign_register() {
    let mut c = boot(&[0x61, 0x2A, 0x80, 0x10]);
    run(&mut c, 2);
    assert_eq!(c.register(0), 0x2A);
}

#[test]
fn jumps_and_calls() {
    // Jump to 0x206; (skipped: V0 = 9); V1 = 1.
    let mut c = boot(&[0x12, 0x06, 0x60, 0x09, 0x00, 0x00, 0x61, 0x01]);
    run(&mut c, 2);
    assert_eq!(c.register(0), 0);
    assert_eq!(c.register(1), 1);
}

#[test]
fn call_and_return() {
    // Call 0x206; V1 = 1 after return; at 0x206: V0 = 9; return.
    let mut c = boot(&[0x22, 0x06, 0x61, 0x01, 0x00, 0x00, 0x60, 0x09, 0x00, 0xEE]);
    run(&mut c, 3);
    assert_eq!(c.register(0), 9);
    assert_eq!(c.program_counter(), 0x202);
    run(&mut c, 1);
    assert_eq!(c.register(1), 1);
}

#[test]
fn jump_with_offset() {
    // V0 = 0x10; jump to 0x200 + V0 = 0x210.
    let mut c = boot(&[0x60, 0x10, 0xB2, 0x00]);
    run(&mut c, 2);
    assert_eq!(c.program_counter(), 0x210);
}

#[test]
fn set_index_and_font_address() {
    let mut c = boot(&[0xA1, 0x23]);
    run(&mut c, 1);
    assert_eq!(c.index_reg(), 0x123);
    // V0 = 0xA; I = glyph address of digit A = 50.
    let mut c = boot(&[0x60, 0x0A, 0xF0, 0x29]);
    run(&mut c, 2);
    assert_eq!(c.index_reg(), 50);
}

#[test]
fn add_index_accumulates_and_flags_overflow() {
    // V0 = 0xFF; then I += V0 in a loop (jump back two bytes).
    let mut c = boot(&[0x60, 0xFF, 0xF0, 0x1E, 0x12, 0x02]);
    c.emulate_cycle().unwrap();
    c.emulate_cycle().unwrap();
    assert_eq!(c.index_reg(), 0xFF);
    assert_eq!(c.register(15), 0);
    let mut guard: usize = 0;
    while c.register(15) == 0 && guard < 3000 {
        c.emulate_cycle().unwrap();
        guard = guard + 1;
    }
    assert_eq!(c.register(15), 1);
    assert_eq!(c.index_reg(), 254);
}

#[test]
fn random_uses_injected_entropy_and_mask() {
    // V0 = random & 0x0F with a fixed one-byte sequence.
    let mut c = Chip8::with_program(Entropy::fixed(vec![0xAB]), &[0xC0, 0x0F]).unwrap();
    c.emulate_cycle().unwrap();
    assert_eq!(c.register(0), 0x0B);
}

#[test]
fn fixed_entropy_cycles_through_its_bytes() {
    let mut c = Chip8::with_program(
        Entropy::fixed(vec![7, 9]),
        &[0xC0, 0xFF, 0xC1, 0xFF, 0xC2, 0xFF],
    )
    .unwrap();
    run(&mut c, 3);
    assert_eq!(c.register(0), 7);
    assert_eq!(c.register(1), 9);
    assert_eq!(c.register(2), 7);
}

#[test]
fn program_is_loaded_verbatim_at_load_address() {
    let c = boot(&[0xDE, 0xAD, 0xBE, 0xEF]);
    assert_eq!(c.mem(0x200), 0xDE);
    assert_eq!(c.mem(0x201), 0xAD);
    assert_eq!(c.mem(0x202), 0xBE);
    assert_eq!(c.mem(0x203), 0xEF);
    assert_eq!(c.mem(0x204), 0);
    assert_eq!(c.program_counter(), 0x200);
}

#[test]
fn font_is_preloaded_at_base_of_memory() {
    let c = boot(&[]);
    // Glyph 0 starts at 0, glyph 1 at 5, glyph F ends at 79.
    assert_eq!(c.mem(0), 0xF0);
    assert_eq!(c.mem(4), 0xF0);
    assert_eq!(c.mem(5), 0x20);
    assert_eq!(c.mem(9), 0x70);
    assert_eq!(c.mem(75), 0xF0);
    assert_eq!(c.mem(79), 0x80);
    assert_eq!(c.mem(80), 0);
}

#[test]
fn largest_program_is_accepted() {
    let prog = vec![0u8; 4096 - 512];
    assert!(Chip8::with_program(Entropy::fixed(Vec::new()), &prog).is_ok());
}

#[test]
fn oversized_program_is_rejected() {
    let prog = vec![0u8; 4096 - 512 + 1];
    match Chip8::with_program(Entropy::fixed(Vec::new()), &prog) {
        Err(Chip8Error::ProgramTooLarge) => {},
        _ => panic!("an oversized program must be rejected"),
    }
}
