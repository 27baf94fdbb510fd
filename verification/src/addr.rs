//! Memory addresses and the fixed memory map.

use vstd::prelude::*;

verus! {

/// Size of the whole address space in bytes.
pub const MEM_SIZE: usize = 4096;

/// First byte of the built-in font table (16 glyphs of 5 bytes each).
pub const FONT_START: u16 = 0x000;

/// First byte past the interpreter-reserved low region.
pub const FONT_END: u16 = 0x200;

/// Where some interpreters conventionally place the font instead.
pub const FONT_TYPICAL_START: u16 = 0x050;

/// Conventional load address for program images.
pub const PROGRAM_START: u16 = 0x200;

/// Load address used by ETI 660 program images.
pub const PROGRAM_START_ETI_660: u16 = 0x600;

/// First byte of the region reserved for the call stack and other
/// interpreter workspace.
pub const STACK_REGION_START: u16 = 0xEA0;

/// First byte of the 256-byte display region at the tail of memory.
pub const DISPLAY_START: u16 = 0xF00;

/// A memory address.  Only the low 12 bits are significant: every memory
/// operation masks the stored value down to `0x000..=0xFFF`.
#[derive(Clone, Copy, PartialEq, Eq, Structural, Debug, Hash)]
pub struct Addr(pub u16);

impl Addr {
    /// The raw 16-bit value, unmasked.
    pub fn to_u16(self) -> (r: u16)
        ensures
            r == self.0,
    {
        self.0
    }

    /// The raw value widened to `usize`, unmasked.
    pub fn to_usize(self) -> (r: usize)
        ensures
            r == self.0 as usize,
    {
        self.0 as usize
    }
}

} // verus!
