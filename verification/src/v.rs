//! A general-register selector.

use vstd::prelude::*;

use crate::nibble::Nibble;

verus! {

/// One of the general-purpose registers `V0..=VF`.
///
/// This cannot name the other registers (`I`, `PC`, the stack pointer);
/// those are addressed by the instructions that use them.
#[derive(Clone, Copy, Debug, Hash)]
pub struct V(pub Nibble);

impl View for V {
    type V = u8;

    open spec fn view(&self) -> u8 {
        self.0@
    }
}

impl V {
    /// The register's index, always below 16.
    pub fn index(self) -> (r: usize)
        ensures
            r == self@ as usize,
            r < 16,
    {
        self.0.to_usize()
    }
}

} // verus!
