//! The register file: sixteen general registers, the address register,
//! the program counter, the call stack, and the two timers.

use vstd::prelude::*;

use crate::addr::Addr;
use crate::addr::PROGRAM_START;
use crate::v::V;

verus! {

/// `V0..=VF`, `I`, `PC`, the call stack, and the timers.
///
/// `VF` doubles as the flags register: arithmetic and shift operations
/// overwrite it, clobbering any general-purpose use a program made of it.
pub struct Registers {
    /// General-purpose registers `V0..=VF`.
    pub v: [u8; 16],
    /// Address register `I`.
    pub i: Addr,
    /// Program counter.
    pub pc: Addr,
    /// Call stack: return addresses pushed by call, popped by return.
    pub stack: Vec<Addr>,
    /// Delay timer, decremented towards zero on every clock tick.
    pub delay_timer: u8,
    /// Sound timer, decremented towards zero on every clock tick.
    pub sound_timer: u8,
    /// Whether sound is currently playing; used to fire the host's
    /// start/stop callbacks only on edges.
    pub sound_playing: bool,
}

impl Registers {
    /// A register file in its power-on state: everything zero except the
    /// program counter, which points at the program load address.
    pub fn new() -> (r: Registers)
        ensures
            r.v@ == Seq::<u8>::new(16, |k: int| 0u8),
            r.i.0 == 0,
            r.pc.0 == PROGRAM_START,
            r.stack@.len() == 0,
            r.delay_timer == 0,
            r.sound_timer == 0,
            !r.sound_playing,
    {
        let r = Registers {
            v: [0u8; 16],
            i: Addr(0),
            pc: Addr(PROGRAM_START),
            stack: Vec::new(),
            delay_timer: 0,
            sound_timer: 0,
            sound_playing: false,
        };
        proof {
            assert(r.v@ =~= Seq::<u8>::new(16, |k: int| 0u8));
        }
        r
    }

    /// Read a general register.
    pub fn get(&self, x: V) -> (r: u8)
        ensures
            r == self.v@[x@ as int],
    {
        let i = x.0.to_usize();
        self.v[i]
    }

    /// Write a general register.
    pub fn set(&mut self, x: V, value: u8)
        ensures
            final(self).v@ == old(self).v@.update(x@ as int, value),
            final(self).i == old(self).i,
            final(self).pc == old(self).pc,
            final(self).stack == old(self).stack,
            final(self).delay_timer == old(self).delay_timer,
            final(self).sound_timer == old(self).sound_timer,
            final(self).sound_playing == old(self).sound_playing,
    {
        let i = x.0.to_usize();
        self.v[i] = value;
    }
}

} // verus!
