//! A small fixed-instruction-set virtual machine: memory, registers,
//! a call stack, two timers, a monochrome framebuffer and a 16-key
//! input latch, advanced one instruction at a time.

use vstd::prelude::*;

pub mod audio;
pub mod display;
pub mod fontset;
pub mod input;
pub mod instructions;
pub mod laws;
pub mod processor;
pub mod state;

pub use processor::Chip8;

use crate::audio::AudioDriver;

verus! {

/// A machine wired to the silent audio driver, ready for a cartridge.
pub fn start() -> (r: Chip8<audio::SilentAudioDriver>)
    ensures
        r.wf(),
        r@ == state::initial_core(),
{
    Chip8::new(audio::SilentAudioDriver::new())
}

} // verus!
