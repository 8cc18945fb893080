//! The audio capability consumed by the execution engine.  The engine
//! only ever signals "begin tone"; a caller-supplied implementation
//! performs the actual sound generation.

use vstd::prelude::*;

verus! {

/// A sink for the engine's tone signal.  Implementations live outside
/// the engine; it never queries them for state.
pub trait AudioDriver {
    /// Builds a fresh driver.
    fn new() -> Self where Self: Sized;

    /// Called once per cycle in which the sound timer runs out.
    fn play_sound(&mut self);
}

/// A driver that swallows the tone signal, for hosts without sound
/// output and for exercising the engine by itself.
pub struct SilentAudioDriver {}

impl AudioDriver for SilentAudioDriver {
    fn new() -> Self {
        SilentAudioDriver {  }
    }

    fn play_sound(&mut self) {
    }
}

} // verus!
