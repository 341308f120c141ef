//! Sprite drawing: XOR compositing, collision, clipping, clearing.

use chip8::chip8::Chip8;
use chip8::screen::SCREEN_WIDTH;

fn boot(rom: &[u8]) -> Chip8 {
    let rom_vec: Vec<u8> = rom.to_vec();
    Chip8::new(&rom_vec).expect("ROM fits")
}

fn run(c: &mut Chip8, steps: usize) {
    for _ in 0..steps {
        c.tick(vec![false; 16]).expect("step succeeds");
    }
}

fn pixel(c: &Chip8, col: usize, row: usize) -> bool {
    c.screen.get_pixel(col + row * SCREEN_WIDTH)
}

#[test]
fn draw_paints_sprite_bits() {
    // I = 0x208; draw 4 rows at (V0, V1) = (0, 0); sprite is a box glyph.
    let mut c = boot(&[
        0xA2, 0x08, 0xD0, 0x14, 0x00, 0x00, 0x00, 0x00, 0xF0, 0x90, 0x90, 0xF0,
    ]);
    run(&mut c, 2);
    assert!(c.redraw());
    assert_eq!(c.reg(15), 0);
    // Row 0 of the sprite is 0xF0: leftmost four pixels on.
    assert!(pixel(&c, 0, 0) && pixel(&c, 1, 0) && pixel(&c, 2, 0) && pixel(&c, 3, 0));
    assert!(!pixel(&c, 4, 0));
    // Row 1 is 0x90: pixels 0 and 3 on.
    assert!(pixel(&c, 0, 1) && !pixel(&c, 1, 1) && !pixel(&c, 2, 1) && pixel(&c, 3, 1));
}

#[test]
fn drawing_twice_toggles_everything_back() {
    let mut c = boot(&[
        0xA2, 0x08, 0xD0, 0x14, 0xD0, 0x14, 0x00, 0x00, 0xF0, 0x90, 0x90, 0xF0,
    ]);
    run(&mut c, 2);
    assert_eq!(c.reg(15), 0);
    assert!(pixel(&c, 0, 0));
    run(&mut c, 1);
    // Every affected pixel toggled back off, and the collision flag is set
    // because every drawn bit hit a lit pixel.
    assert_eq!(c.reg(15), 1);
    for row in 0..4 {
        for col in 0..8 {
            assert!(!pixel(&c, col, row));
        }
    }
}

#[test]
fn sprite_clips_at_right_edge() {
    // Draw a full 8-bit row with its origin four pixels from the right
    // edge: only columns 60..63 are painted, nothing wraps to column 0.
    let mut c = boot(&[0x60, 0x3C, 0xA2, 0x08, 0xD0, 0x11, 0x00, 0x00, 0xFF]);
    run(&mut c, 3);
    assert!(pixel(&c, 60, 0) && pixel(&c, 61, 0) && pixel(&c, 62, 0) && pixel(&c, 63, 0));
    for col in 0..8 {
        assert!(!pixel(&c, col, 0));
    }
}

#[test]
fn sprite_clips_at_bottom_edge() {
    // Four rows of 0xFF with the origin on the last row: only that row is
    // painted, nothing wraps to the top.
    let mut c = boot(&[
        0x61, 0x1F, 0xA2, 0x08, 0xD0, 0x14, 0x00, 0x00, 0xFF, 0xFF, 0xFF, 0xFF,
    ]);
    run(&mut c, 3);
    assert!(pixel(&c, 0, 31));
    assert!(!pixel(&c, 0, 0));
    assert!(!pixel(&c, 0, 1));
}

#[test]
fn draw_coordinates_wrap_before_drawing() {
    // V0 = 64 wraps to column 0.
    let mut c = boot(&[0x60, 0x40, 0xA2, 0x08, 0xD0, 0x11, 0x00, 0x00, 0x80]);
    run(&mut c, 3);
    assert!(pixel(&c, 0, 0));
}

#[test]
fn collision_only_on_overlap() {
    // Two disjoint draws keep VF clear; an overlapping third sets it.
    let mut c = boot(&[
        0xA2, 0x0A, 0xD0, 0x11, 0x62, 0x08, 0xD2, 0x11, 0xD0, 0x11, 0x80,
    ]);
    run(&mut c, 2);
    assert_eq!(c.reg(15), 0);
    run(&mut c, 2);
    assert_eq!(c.reg(15), 0);
    run(&mut c, 1);
    assert_eq!(c.reg(15), 1);
    assert!(!pixel(&c, 0, 0));
    assert!(pixel(&c, 8, 0));
}

#[test]
fn clear_screen_turns_everything_off() {
    let mut c = boot(&[0xA2, 0x06, 0xD0, 0x11, 0x00, 0xE0, 0xFF]);
    run(&mut c, 2);
    assert!(pixel(&c, 0, 0));
    c.clear_redraw();
    assert!(!c.redraw());
    run(&mut c, 1);
    assert!(c.redraw());
    for col in 0..8 {
        assert!(!pixel(&c, col, 0));
    }
}
