use chip8::entropy::Entropy;
use chip8::machine::Chip8;

fn boot(prog: &[u8]) -> Chip8 {
    Chip8::with_program(Entropy::fixed(Vec::new()), prog).unwrap()
}

fn run(c: &mut Chip8, steps: usize) {
    for _ in 0..steps {
        c.emulate_cycle().unwrap();
    }
}

/// The five rows of the built-in glyph for digit 0, as 4-pixel-wide patterns.
const GLYPH_ZERO: [[bool; 4]; 5] = [
    [true, true, true, true],
    [true, false, false, true],
    [true, false, false, true],
    [true, false, false, true],
    [true, true, true, true],
];

#[test]
fn draws_digit_zero_glyph_at_origin() {
    // I = 0 (the font glyph for 0); draw 5 rows at (V0, V1) = (0, 0).
    let mut c = boot(&[0xA0, 0x00, 0xD0, 0x15]);
    run(&mut c, 2);
    assert_eq!(c.register(15), 0);
    for (row, want) in GLYPH_ZERO.iter().enumerate() {
        for col in 0..8 {
            let expect = col < 4 && want[col];
            assert_eq!(c.pixel(row, col), expect, "row {} col {}", row, col);
        }
    }
    for col in 0..64 {
        assert!(!c.pixel(6, col));
    }
}

#[test]
fn drawing_twice_clears_every_pixel_it_set() {
    // Draw the same glyph twice at the same coordinates.
    let mut c = boot(&[0xA0, 0x00, 0xD0, 0x15, 0xD0, 0x15]);
    run(&mut c, 2);
    assert_eq!(c.register(15), 0);
    run(&mut c, 1);
    // The second draw cleared a previously lit pixel, so it reports the
    // collision, and the framebuffer is blank again.
    assert_eq!(c.register(15), 1);
    for (row, col, lit) in c.pixels() {
        assert!(!lit, "row {} col {}", row, col);
    }
}

#[test]
fn collision_flag_only_on_overlap() {
    // Glyph 0 at (0, 0), then glyph 0 again at (8, 0): disjoint, no collision.
    let mut c = boot(&[0xA0, 0x00, 0x60, 0x08, 0xD1, 0x15, 0xD0, 0x15]);
    run(&mut c, 4);
    assert_eq!(c.register(15), 0);
    assert!(c.pixel(0, 0));
    assert!(c.pixel(0, 8));
}

#[test]
fn sprites_clip_at_the_right_edge() {
    // Draw the glyph with its origin at column 62: only columns 62 and 63
    // can be lit, nothing wraps to column 0.
    let mut c = boot(&[0xA0, 0x00, 0x60, 0x3E, 0xD0, 0x15]);
    run(&mut c, 3);
    assert!(c.pixel(0, 62));
    assert!(c.pixel(0, 63));
    for row in 0..6 {
        assert!(!c.pixel(row, 0));
        assert!(!c.pixel(row, 1));
    }
}

#[test]
fn sprites_clip_at_the_bottom_edge() {
    // Origin at row 30: rows 30 and 31 take the first two glyph rows, the
    // rest fall off the screen, and nothing wraps to row 0.
    let mut c = boot(&[0xA0, 0x00, 0x61, 0x1E, 0xD0, 0x15]);
    run(&mut c, 3);
    assert!(c.pixel(30, 0));
    assert!(c.pixel(31, 0));
    assert!(!c.pixel(31, 1));
    assert!(!c.pixel(0, 0));
    assert!(!c.pixel(0, 1));
}

#[test]
fn clear_screen_unsets_every_pixel() {
    let mut c = boot(&[0xA0, 0x00, 0xD0, 0x15, 0x00, 0xE0]);
    run(&mut c, 2);
    assert!(c.pixel(0, 0));
    run(&mut c, 1);
    for (_, _, lit) in c.pixels() {
        assert!(!lit);
    }
}

#[test]
fn pixels_enumerates_the_whole_framebuffer_row_major() {
    let mut c = boot(&[0xA0, 0x00, 0xD0, 0x15]);
    run(&mut c, 2);
    let px = c.pixels();
    assert_eq!(px.len(), 64 * 32);
    for (k, (row, col, lit)) in px.iter().enumerate() {
        assert_eq!(*row, k / 64);
        assert_eq!(*col, k % 64);
        assert_eq!(*lit, c.pixel(*row, *col));
    }
    // Re-enumerable without mutating state.
    assert_eq!(c.pixels(), px);
}

#[test]
fn draw_reads_sprite_rows_from_memory_at_index() {
    // A one-row sprite 0b10101010 written by hand: V0 = 0xAA dumped at
    // 0x300, I = 0x300, draw one row at (0, 0).
    let mut c = boot(&[0x60, 0xAA, 0xA3, 0x00, 0xF0, 0x55, 0x60, 0x00, 0xD0, 0x01]);
    run(&mut c, 5);
    for col in 0..8 {
        assert_eq!(c.pixel(0, col), col % 2 == 0);
    }
}
