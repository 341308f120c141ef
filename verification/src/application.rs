//! Host-facing emulator settings.
//!
//! The instruction clock rate is the only engine-relevant configuration; the
//! timer clock is fixed at 60 Hz.  Rendering colors, window size and ROM
//! selection are adapter-level concerns and live outside this crate's core.

use vstd::prelude::*;

verus! {

/// Default instruction clock rate, in instructions per second.
pub const DEFAULT_CLOCK_SPEED: u32 = 800;

/// User-adjustable emulator settings: the ROM currently loaded (by name, for
/// display purposes) and the instruction clock rate in Hz.
pub struct Chip8EmulatorSettings {
    pub rom_name: String,
    pub clock_speed: u32,
}

impl Chip8EmulatorSettings {
    /// Fresh settings: no ROM chosen yet, default instruction clock.
    pub fn new() -> (s: Self)
        ensures
            s.rom_name@ == Seq::<char>::empty(),
            s.clock_speed == DEFAULT_CLOCK_SPEED,
    {
        Chip8EmulatorSettings { rom_name: String::new(), clock_speed: DEFAULT_CLOCK_SPEED }
    }
}

} // verus!
