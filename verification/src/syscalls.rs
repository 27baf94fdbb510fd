//! The host-I/O capability boundary.  The engine calls through this
//! interface for randomness, key state and sound edges; it never owns or
//! implements any of it, and promises nothing about what comes back.

use vstd::prelude::*;

verus! {

/// Capabilities the embedding front end supplies to a machine.
///
/// Every method is synchronous.  No contract constrains the results:
/// the engine is verified for every possible answer, and the front end
/// decides polling, randomness and device specifics.
pub trait Syscalls {
    /// One pseudo-random byte.
    fn rand(&self) -> u8;

    /// The next available pressed key, if any.  Used only by the
    /// blocking key-wait instruction.
    fn get_key(&self) -> Option<u8>;

    /// Whether the given key is currently down.
    fn is_pressed(&self, key: u8) -> bool;

    /// Sound has just started: the sound timer became audible.
    fn sound_play(&self);

    /// Sound has just stopped.
    fn sound_stop(&self);

    /// Accept a render snapshot: the 256 framebuffer bytes, row-major,
    /// most significant bit leftmost within each byte.
    fn render(&self, screen: &[u8]);
}

/// The inert host: no randomness, no keys, no sound, no display.
impl Syscalls for () {
    fn rand(&self) -> u8 {
        0
    }

    fn get_key(&self) -> Option<u8> {
        None
    }

    fn is_pressed(&self, _key: u8) -> bool {
        false
    }

    fn sound_play(&self) {
    }

    fn sound_stop(&self) {
    }

    fn render(&self, _screen: &[u8]) {
    }
}

} // verus!
