//! Per-instruction behavior, driven through the public machine interface.

use chip8::chip8::{Chip8, Chip8Error, CpuStatus};

fn boot(rom: &[u8]) -> Chip8 {
    let rom_vec: Vec<u8> = rom.to_vec();
    Chip8::new(&rom_vec).expect("ROM fits")
}

fn no_keys() -> Vec<bool> {
    vec![false; 16]
}

fn run(c: &mut Chip8, steps: usize) {
    for _ in 0..steps {
        c.tick(no_keys()).expect("step succeeds");
    }
}

#[test]
fn load_immediate_every_register() {
    for x in 0u8..15 {
        let mut c = boot(&[0x60 | x, 0x42]);
        run(&mut c, 1);
        assert_eq!(c.reg(x as usize), 0x42);
    }
}

#[test]
fn add_immediate_wraps_and_leaves_vf_alone() {
    // V0 = 0xFF; V0 += 0x02 wraps to 0x01 and VF stays 0.
    let mut c = boot(&[0x60, 0xFF, 0x70, 0x02]);
    run(&mut c, 2);
    assert_eq!(c.reg(0), 0x01);
    assert_eq!(c.reg(15), 0x00);
}

#[test]
fn add_with_carry_sets_vf() {
    let mut c = boot(&[0x60, 0xFF, 0x61, 0x01, 0x80, 0x14]);
    run(&mut c, 3);
    assert_eq!(c.reg(0), 0x00);
    assert_eq!(c.reg(15), 1);
}

#[test]
fn add_without_carry_clears_vf() {
    let mut c = boot(&[0x60, 0x01, 0x61, 0x01, 0x80, 0x14]);
    run(&mut c, 3);
    assert_eq!(c.reg(0), 0x02);
    assert_eq!(c.reg(15), 0);
}

#[test]
fn subtract_larger_minus_smaller() {
    let mut c = boot(&[0x60, 0x05, 0x61, 0x03, 0x80, 0x15]);
    run(&mut c, 3);
    assert_eq!(c.reg(0), 0x02);
    assert_eq!(c.reg(15), 1);
}

#[test]
fn subtract_wraps_and_clears_vf() {
    let mut c = boot(&[0x60, 0x03, 0x61, 0x05, 0x80, 0x15]);
    run(&mut c, 3);
    assert_eq!(c.reg(0), 0xFE);
    assert_eq!(c.reg(15), 0);
}

#[test]
fn reverse_subtract() {
    // 8xy7: Vx = Vy - Vx.
    let mut c = boot(&[0x60, 0x03, 0x61, 0x05, 0x80, 0x17]);
    run(&mut c, 3);
    assert_eq!(c.reg(0), 0x02);
    assert_eq!(c.reg(15), 1);
}

#[test]
fn alu_or_and_xor() {
    let mut c = boot(&[0x60, 0x0C, 0x61, 0x0A, 0x80, 0x11]);
    run(&mut c, 3);
    assert_eq!(c.reg(0), 0x0E);

    let mut c = boot(&[0x60, 0x0C, 0x61, 0x0A, 0x80, 0x12]);
    run(&mut c, 3);
    assert_eq!(c.reg(0), 0x08);

    let mut c = boot(&[0x60, 0x0C, 0x61, 0x0A, 0x80, 0x13]);
    run(&mut c, 3);
    assert_eq!(c.reg(0), 0x06);
}

#[test]
fn assign_register() {
    let mut c = boot(&[0x61, 0x77, 0x80, 0x10]);
    run(&mut c, 2);
    assert_eq!(c.reg(0), 0x77);
}

#[test]
fn shift_right_keeps_low_bit_in_vf() {
    let mut c = boot(&[0x60, 0x05, 0x80, 0x06]);
    run(&mut c, 2);
    assert_eq!(c.reg(0), 0x02);
    assert_eq!(c.reg(15), 1);
}

#[test]
fn shift_left_keeps_top_bit_in_vf() {
    let mut c = boot(&[0x60, 0x81, 0x80, 0x0E]);
    run(&mut c, 2);
    assert_eq!(c.reg(0), 0x02);
    assert_eq!(c.reg(15), 1);

    let mut c = boot(&[0x60, 0x41, 0x80, 0x0E]);
    run(&mut c, 2);
    assert_eq!(c.reg(0), 0x82);
    assert_eq!(c.reg(15), 0);
}

#[test]
fn skip_if_equal_immediate() {
    let mut c = boot(&[0x60, 0x07, 0x30, 0x07]);
    run(&mut c, 2);
    assert_eq!(c.pc(), 0x206);

    let mut c = boot(&[0x60, 0x07, 0x30, 0x08]);
    run(&mut c, 2);
    assert_eq!(c.pc(), 0x204);
}

#[test]
fn skip_if_not_equal_immediate() {
    let mut c = boot(&[0x60, 0x07, 0x40, 0x08]);
    run(&mut c, 2);
    assert_eq!(c.pc(), 0x206);
}

#[test]
fn skip_on_register_compare() {
    let mut c = boot(&[0x60, 0x07, 0x61, 0x07, 0x50, 0x10]);
    run(&mut c, 3);
    assert_eq!(c.pc(), 0x208);

    let mut c = boot(&[0x60, 0x07, 0x61, 0x08, 0x90, 0x10]);
    run(&mut c, 3);
    assert_eq!(c.pc(), 0x208);
}

#[test]
fn jump_absolute() {
    let mut c = boot(&[0x12, 0x34]);
    run(&mut c, 1);
    assert_eq!(c.pc(), 0x234);
}

#[test]
fn jump_with_offset() {
    let mut c = boot(&[0x60, 0x10, 0xB2, 0x06]);
    run(&mut c, 2);
    assert_eq!(c.pc(), 0x216);
}

#[test]
fn load_index() {
    let mut c = boot(&[0xA1, 0x23]);
    run(&mut c, 1);
    assert_eq!(c.idx(), 0x123);
}

#[test]
fn index_add_register() {
    let mut c = boot(&[0xA1, 0x00, 0x60, 0x05, 0xF0, 0x1E]);
    run(&mut c, 3);
    assert_eq!(c.idx(), 0x105);
}

#[test]
fn font_address_of_digit() {
    let mut c = boot(&[0x60, 0x0A, 0xF0, 0x29]);
    run(&mut c, 2);
    assert_eq!(c.idx(), 50);
}

#[test]
fn call_then_return_round_trip() {
    // Call 0x204, which immediately returns: pc lands right after the
    // call and the stack pointer is back where it started.
    let mut c = boot(&[0x22, 0x04, 0x00, 0x00, 0x00, 0xEE]);
    assert_eq!(c.sp(), -1);
    run(&mut c, 1);
    assert_eq!(c.pc(), 0x204);
    assert_eq!(c.sp(), 0);
    run(&mut c, 1);
    assert_eq!(c.pc(), 0x202);
    assert_eq!(c.sp(), -1);
}

#[test]
fn bcd_of_157() {
    let mut c = boot(&[0x60, 0x9D, 0xA3, 0x00, 0xF0, 0x33]);
    run(&mut c, 3);
    assert_eq!(c.read_mem(0x300), 1);
    assert_eq!(c.read_mem(0x301), 5);
    assert_eq!(c.read_mem(0x302), 7);
    assert_eq!(c.idx(), 0x300);
}

#[test]
fn bulk_store_and_load_registers() {
    // V0..V2 = 1,2,3; store V0..V2 at 0x300; wipe V0; reload V0..V2.
    let mut c = boot(&[
        0x60, 0x01, 0x61, 0x02, 0x62, 0x03, 0xA3, 0x00, 0xF2, 0x55, 0x60, 0x00, 0xF2, 0x65,
    ]);
    run(&mut c, 5);
    assert_eq!(c.read_mem(0x300), 1);
    assert_eq!(c.read_mem(0x301), 2);
    assert_eq!(c.read_mem(0x302), 3);
    assert_eq!(c.read_mem(0x303), 0);
    run(&mut c, 2);
    assert_eq!(c.reg(0), 1);
    assert_eq!(c.reg(1), 2);
    assert_eq!(c.reg(2), 3);
}

#[test]
fn delay_timer_copies() {
    let mut c = boot(&[0x60, 0x07, 0xF0, 0x15, 0xF1, 0x07]);
    run(&mut c, 3);
    assert_eq!(c.delay(), 7);
    assert_eq!(c.reg(1), 7);
}

#[test]
fn sound_timer_set() {
    let mut c = boot(&[0x60, 0x09, 0xF0, 0x18]);
    run(&mut c, 2);
    assert_eq!(c.sound(), 9);
}

#[test]
fn random_masked_by_zero_is_zero() {
    let mut c = boot(&[0x60, 0x55, 0xC0, 0x00]);
    run(&mut c, 2);
    assert_eq!(c.reg(0), 0);
}

#[test]
fn random_respects_mask() {
    let mut c = boot(&[0xC0, 0x0F]);
    run(&mut c, 1);
    assert!(c.reg(0) <= 0x0F);
}

#[test]
fn skip_if_key_pressed() {
    let mut c = boot(&[0x60, 0x03, 0xE0, 0x9E, 0x00, 0x00, 0x60, 0xAA]);
    c.tick(vec![false; 16]).unwrap();
    let mut keys: Vec<bool> = vec![false; 16];
    keys[3] = true;
    c.tick(keys).unwrap();
    assert_eq!(c.pc(), 0x206);
}

#[test]
fn skip_if_key_not_pressed() {
    let mut c = boot(&[0x60, 0x03, 0xE0, 0xA1]);
    run(&mut c, 2);
    assert_eq!(c.pc(), 0x206);
}

#[test]
fn unknown_opcodes_are_reported() {
    let mut c = boot(&[0xF0, 0xFF]);
    assert_eq!(c.tick(no_keys()), Err(Chip8Error::UnknownOpcode));
    // The program counter did not move and the host may decide what to do.
    assert_eq!(c.pc(), 0x200);
    assert_eq!(c.status(), CpuStatus::Running);

    let mut c = boot(&[0x00, 0x00]);
    assert_eq!(c.tick(no_keys()), Err(Chip8Error::UnknownOpcode));

    let mut c = boot(&[0x50, 0x11]);
    assert_eq!(c.tick(no_keys()), Err(Chip8Error::UnknownOpcode));

    let mut c = boot(&[0x80, 0x18]);
    assert_eq!(c.tick(no_keys()), Err(Chip8Error::UnknownOpcode));

    let mut c = boot(&[0xE0, 0x00]);
    assert_eq!(c.tick(no_keys()), Err(Chip8Error::UnknownOpcode));
}

#[test]
fn stack_underflow_is_reported() {
    let mut c = boot(&[0x00, 0xEE]);
    assert_eq!(c.tick(no_keys()), Err(Chip8Error::StackUnderflow));
    assert_eq!(c.pc(), 0x200);
}

#[test]
fn stack_overflow_is_reported() {
    // Sixteen nested calls fill the stack; the seventeenth overflows.
    let mut rom: Vec<u8> = Vec::new();
    for i in 0..17u16 {
        let target: u16 = 0x202 + 2 * i;
        rom.push(0x20 | (target >> 8) as u8);
        rom.push((target & 0xFF) as u8);
    }
    let mut c = Chip8::new(&rom).unwrap();
    for _ in 0..16 {
        c.tick(no_keys()).unwrap();
    }
    assert_eq!(c.sp(), 15);
    assert_eq!(c.tick(no_keys()), Err(Chip8Error::StackOverflow));
    assert_eq!(c.sp(), 15);
}

#[test]
fn memory_out_of_bounds_is_reported() {
    // BCD with I = 0xFFE would write past the end of memory.
    let mut c = boot(&[0xAF, 0xFE, 0xF0, 0x33]);
    c.tick(no_keys()).unwrap();
    assert_eq!(c.tick(no_keys()), Err(Chip8Error::MemoryOutOfBounds));

    // Jumping to the last byte leaves no room to fetch an instruction.
    let mut c = boot(&[0x1F, 0xFF]);
    c.tick(no_keys()).unwrap();
    assert_eq!(c.tick(no_keys()), Err(Chip8Error::MemoryOutOfBounds));

    // A bulk store reaching past the end of memory.
    let mut c = boot(&[0xAF, 0xF1, 0xFF, 0x55]);
    c.tick(no_keys()).unwrap();
    assert_eq!(c.tick(no_keys()), Err(Chip8Error::MemoryOutOfBounds));
}

#[test]
fn key_out_of_range_is_reported() {
    let mut c = boot(&[0x60, 0xFF, 0xE0, 0x9E]);
    c.tick(no_keys()).unwrap();
    assert_eq!(c.tick(no_keys()), Err(Chip8Error::KeyOutOfRange));
}
