//! The built-in font: sixteen 5-byte glyphs for the hex digits `0..=F`,
//! seeded into the lowest bytes of memory when a machine is created.

use vstd::prelude::*;

verus! {

/// The eighty font bytes: glyph `d` occupies indices `5*d..5*d+5`, one
/// byte per row, the glyph's four columns in each byte's high nibble.
pub open spec fn spec_font() -> Seq<u8> {
    seq![
        0x60u8, 0x90, 0x90, 0x90, 0x60,  // 0
        0x40u8, 0xC0, 0x40, 0x40, 0xE0,  // 1
        0xE0u8, 0x10, 0x20, 0x40, 0xF0,  // 2
        0xE0u8, 0x10, 0x60, 0x10, 0xE0,  // 3
        0xA0u8, 0xA0, 0xF0, 0x20, 0x20,  // 4
        0xF0u8, 0x80, 0xE0, 0x10, 0xE0,  // 5
        0x70u8, 0x80, 0xE0, 0x90, 0x60,  // 6
        0xF0u8, 0x10, 0x20, 0x40, 0x80,  // 7
        0x60u8, 0x90, 0x60, 0x90, 0x60,  // 8
        0x60u8, 0x90, 0x70, 0x10, 0x10,  // 9
        0x60u8, 0x90, 0xF0, 0x90, 0x90,  // A
        0xE0u8, 0x90, 0xE0, 0x90, 0xE0,  // B
        0x70u8, 0x80, 0x80, 0x80, 0x70,  // C
        0xE0u8, 0x90, 0x90, 0x90, 0xF0,  // D
        0xF0u8, 0x80, 0xE0, 0x80, 0xF0,  // E
        0xF0u8, 0x80, 0xE0, 0x80, 0x80,  // F
    ]
}

/// The font as bytes ready to copy into memory.
pub fn default_font() -> (r: [u8; 80])
    ensures
        r@ == spec_font(),
{
    let r: [u8; 80] = [
        0x60u8, 0x90, 0x90, 0x90, 0x60, 0x40, 0xC0, 0x40, 0x40, 0xE0, 0xE0, 0x10, 0x20, 0x40, 0xF0,
        0xE0, 0x10, 0x60, 0x10, 0xE0, 0xA0, 0xA0, 0xF0, 0x20, 0x20, 0xF0, 0x80, 0xE0, 0x10, 0xE0,
        0x70, 0x80, 0xE0, 0x90, 0x60, 0xF0, 0x10, 0x20, 0x40, 0x80, 0x60, 0x90, 0x60, 0x90, 0x60,
        0x60, 0x90, 0x70, 0x10, 0x10, 0x60, 0x90, 0xF0, 0x90, 0x90, 0xE0, 0x90, 0xE0, 0x90, 0xE0,
        0x70, 0x80, 0x80, 0x80, 0x70, 0xE0, 0x90, 0x90, 0x90, 0xF0, 0xF0, 0x80, 0xE0, 0x80, 0xF0,
        0xF0, 0x80, 0xE0, 0x80, 0x80,
    ];
    proof {
        assert(r@ =~= spec_font());
    }
    r
}

} // verus!
