//! Machine-level behavior: boot image, timers, the wait-for-key state,
//! halting, and the small host-facing helpers.

use chip8::application::{Chip8EmulatorSettings, DEFAULT_CLOCK_SPEED};
use chip8::audio::{audio_state_for, AudioState};
use chip8::chip8::{Chip8, Chip8Error, CpuStatus};

fn boot(rom: &[u8]) -> Chip8 {
    let rom_vec: Vec<u8> = rom.to_vec();
    Chip8::new(&rom_vec).expect("ROM fits")
}

fn no_keys() -> Vec<bool> {
    vec![false; 16]
}

fn one_key(k: usize) -> Vec<bool> {
    let mut keys: Vec<bool> = vec![false; 16];
    keys[k] = true;
    keys
}

#[test]
fn boot_image_layout() {
    let c = boot(&[0xAB, 0xCD]);
    // Font glyphs live at the bottom of memory.
    assert_eq!(c.read_mem(0), 0xF0);
    assert_eq!(c.read_mem(79), 0x80);
    assert_eq!(c.read_mem(80), 0x00);
    // The ROM sits at 0x200, surrounded by zeroes.
    assert_eq!(c.read_mem(0x1FF), 0x00);
    assert_eq!(c.read_mem(0x200), 0xAB);
    assert_eq!(c.read_mem(0x201), 0xCD);
    assert_eq!(c.read_mem(0x202), 0x00);
    // Registers, timers and the stack start cleared.
    assert_eq!(c.pc(), 0x200);
    assert_eq!(c.sp(), -1);
    assert_eq!(c.idx(), 0);
    assert_eq!(c.delay(), 0);
    assert_eq!(c.sound(), 0);
    assert!(!c.redraw());
    assert_eq!(c.status(), CpuStatus::Running);
    for i in 0..16 {
        assert_eq!(c.reg(i), 0);
    }
}

#[test]
fn largest_rom_fits_and_larger_is_rejected() {
    let just_fits: Vec<u8> = vec![0x00; 3584];
    assert!(Chip8::new(&just_fits).is_ok());
    let too_large: Vec<u8> = vec![0x00; 3585];
    assert_eq!(Chip8::new(&too_large).err(), Some(Chip8Error::RomTooLarge));
}

#[test]
fn timers_decrement_independently_of_instruction_count() {
    // Set both timers to 10, then spin in a jump loop for 1000 ticks, as if
    // the instruction clock ran 1000 steps inside one 60 Hz period.  The
    // timers move only when the 60 Hz tick calls decrement_counters, and
    // then by exactly 1.
    let mut c = boot(&[
        0x60, 0x0A, 0xF0, 0x15, 0xF0, 0x18, 0x12, 0x06,
    ]);
    for _ in 0..3 {
        c.tick(no_keys()).unwrap();
    }
    assert_eq!(c.delay(), 10);
    assert_eq!(c.sound(), 10);
    for _ in 0..1000 {
        c.tick(no_keys()).unwrap();
    }
    assert_eq!(c.delay(), 10);
    assert_eq!(c.sound(), 10);
    c.decrement_counters();
    assert_eq!(c.delay(), 9);
    assert_eq!(c.sound(), 9);
}

#[test]
fn timers_stop_at_zero() {
    let mut c = boot(&[0x60, 0x01, 0xF0, 0x15]);
    c.tick(no_keys()).unwrap();
    c.tick(no_keys()).unwrap();
    assert_eq!(c.delay(), 1);
    c.decrement_counters();
    assert_eq!(c.delay(), 0);
    c.decrement_counters();
    assert_eq!(c.delay(), 0);
    assert_eq!(c.sound(), 0);
}

#[test]
fn wait_resumes_only_on_a_fresh_press() {
    // 0xF30A: wait for a key into V3.  Key 3 is already held when the wait
    // begins, stays held for another snapshot, is released, and is pressed
    // again.  Only the final press — a released-to-pressed edge between
    // consecutive snapshots — wakes the machine.
    let mut c = boot(&[0xF3, 0x0A, 0x00, 0x00]);
    c.tick(one_key(3)).unwrap();
    assert_eq!(c.status(), CpuStatus::AwaitingKeyPress { target: 3 });
    assert_eq!(c.pc(), 0x202);

    c.tick(one_key(3)).unwrap();
    assert_eq!(c.status(), CpuStatus::AwaitingKeyPress { target: 3 });
    assert_eq!(c.pc(), 0x202);
    assert_eq!(c.reg(3), 0);

    c.tick(no_keys()).unwrap();
    assert_eq!(c.status(), CpuStatus::AwaitingKeyPress { target: 3 });

    c.tick(one_key(3)).unwrap();
    assert_eq!(c.status(), CpuStatus::Running);
    assert_eq!(c.reg(3), 3);
    assert_eq!(c.pc(), 0x202);
}

#[test]
fn wait_takes_the_lowest_fresh_key() {
    let mut c = boot(&[0xF0, 0x0A]);
    c.tick(no_keys()).unwrap();
    let mut keys: Vec<bool> = vec![false; 16];
    keys[5] = true;
    keys[9] = true;
    c.tick(keys).unwrap();
    assert_eq!(c.status(), CpuStatus::Running);
    assert_eq!(c.reg(0), 5);
}

#[test]
fn halted_machine_ignores_ticks() {
    let mut c = boot(&[0x60, 0x07, 0x61, 0x08]);
    c.tick(no_keys()).unwrap();
    c.halt();
    assert_eq!(c.status(), CpuStatus::Halted);
    c.tick(no_keys()).unwrap();
    assert_eq!(c.pc(), 0x202);
    assert_eq!(c.reg(1), 0);
}

#[test]
fn settings_defaults() {
    let s = Chip8EmulatorSettings::new();
    assert_eq!(s.rom_name, "");
    assert_eq!(s.clock_speed, DEFAULT_CLOCK_SPEED);
    assert_eq!(DEFAULT_CLOCK_SPEED, 800);
}

#[test]
fn audio_follows_sound_timer() {
    assert_eq!(audio_state_for(0), AudioState::Off);
    assert_eq!(audio_state_for(1), AudioState::On);
    assert_eq!(audio_state_for(255), AudioState::On);
}
