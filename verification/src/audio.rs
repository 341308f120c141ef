//! The audio-facing half of the sound timer.
//!
//! The engine itself only exposes whether the sound timer is running; an
//! external audio adapter turns that flag into an audible tone.  This module
//! holds the state the adapter consumes and the verified rule that derives it
//! from the timer.

use vstd::prelude::*;

verus! {

/// Whether the host's tone generator should currently be playing.
#[derive(Clone, Copy, PartialEq, Eq, Structural, Debug)]
pub enum AudioState {
    On,
    Off,
}

/// The tone plays exactly while the sound timer is non-zero.
pub fn audio_state_for(sound: u8) -> (r: AudioState)
    ensures
        r == (if sound > 0 { AudioState::On } else { AudioState::Off }),
{
    if sound > 0 {
        AudioState::On
    } else {
        AudioState::Off
    }
}

} // verus!
