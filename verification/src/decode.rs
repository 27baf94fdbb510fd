//! Instruction decoding: a total function from 16-bit words to the 35
//! operations of the instruction set, or `Invalid` for every word the
//! table does not enumerate.

use vstd::prelude::*;

use crate::op::Op;

verus! {

/// One decoded instruction.
///
/// Register fields (`x`, `y`) are indices below 16, `addr` fields are
/// 12-bit addresses, `h` is a sprite height below 16; `c` and `mask` are
/// full bytes.  `Invalid` carries the undecodable word itself.
#[derive(Clone, Copy, PartialEq, Eq, Structural, Debug)]
pub enum Instruction {
    /// `0NNN` (other than `00E0`/`00EE`): call a native subroutine; the
    /// engine treats this legacy form as a fatal program error.
    CallMcs { addr: u16 },
    /// `00E0`: clear the display.
    DisplayClear,
    /// `00EE`: return from a subroutine.
    FlowReturn,
    /// `1NNN`: jump.
    FlowGoto { addr: u16 },
    /// `2NNN`: call a subroutine.
    FlowCall { addr: u16 },
    /// `3XNN`: skip the next instruction if `VX == NN`.
    SkipIfVEqC { x: u8, c: u8 },
    /// `4XNN`: skip the next instruction if `VX != NN`.
    SkipIfVNeC { x: u8, c: u8 },
    /// `5XY0`: skip the next instruction if `VX == VY`.
    SkipIfVEqV { x: u8, y: u8 },
    /// `6XNN`: `VX <- NN`.
    SetVC { x: u8, c: u8 },
    /// `7XNN`: `VX <- VX + NN`, wrapping, flags untouched.
    AddVC { x: u8, c: u8 },
    /// `8XY0`: `VX <- VY`.
    SetVV { x: u8, y: u8 },
    /// `8XY1`: `VX <- VX | VY`.
    BitOrVV { x: u8, y: u8 },
    /// `8XY2`: `VX <- VX & VY`.
    BitAndVV { x: u8, y: u8 },
    /// `8XY3`: `VX <- VX ^ VY`.
    BitXorVV { x: u8, y: u8 },
    /// `8XY4`: `VX <- VX + VY`, `VF` = carry.
    AddVV { x: u8, y: u8 },
    /// `8XY5`: `VX <- VX - VY`, `VF` = no-borrow.
    SubVV { x: u8, y: u8 },
    /// `8XY6`: `VX <- VY >> 1`, `VF` = shifted-out bit.
    Shr1V { x: u8, y: u8 },
    /// `8XY7`: `VX <- VY - VX`, `VF` = no-borrow.
    SubVVAlt { x: u8, y: u8 },
    /// `8XYE`: `VX <- VY << 1`, `VF` = the shifted-out bit, kept in its
    /// `0x80` place.
    Shl1V { x: u8, y: u8 },
    /// `9XY0`: skip the next instruction if `VX != VY`.
    SkipIfVNeV { x: u8, y: u8 },
    /// `ANNN`: `I <- NNN`.
    SetIC { addr: u16 },
    /// `BNNN`: `PC <- (V0 + NNN) & 0xFFF`.
    SetPcV0PlusC { addr: u16 },
    /// `CXNN`: `VX <- rand() & NN`.
    SetVRandMask { x: u8, mask: u8 },
    /// `DXYN`: draw an `N`-row sprite from `I` at `(VX, VY)`, `VF` =
    /// collision.
    DrawXYH { x: u8, y: u8, h: u8 },
    /// `EX9E`: skip the next instruction if key `VX` is down.
    SkipIfPressed { x: u8 },
    /// `EXA1`: skip the next instruction if key `VX` is not down.
    SkipUnlessPressed { x: u8 },
    /// `FX07`: `VX <- delay timer`.
    GetDelayTimer { x: u8 },
    /// `FX0A`: block until a key is available, then `VX <- key`.
    AwaitKey { x: u8 },
    /// `FX15`: `delay timer <- VX`.
    SetDelayTimer { x: u8 },
    /// `FX18`: `sound timer <- VX`.
    SetSoundTimer { x: u8 },
    /// `FX1E`: `I <- I + VX`, wrapping at 16 bits.
    AddIV { x: u8 },
    /// `FX29`: `I <-` address of the built-in glyph for digit `VX`.
    SetISprite { x: u8 },
    /// `FX33`: store the decimal digits of `VX` at `I`, `I+1`, `I+2`.
    SetIBcd { x: u8 },
    /// `FX55`: store `V0..=VX` at `I`, `I+1`, ...
    RegDump { x: u8 },
    /// `FX65`: load `V0..=VX` from `I`, `I+1`, ...
    RegLoad { x: u8 },
    /// Any word the instruction table does not enumerate.
    Invalid { word: u16 },
}

/// What `Op::decode` returns for every word: the standard dispatch on
/// the top nibble, with the `0x0`, `0x5`, `0x8`, `0x9`, `0xE` and `0xF`
/// groups refined by their low byte or low nibble.
pub open spec fn spec_decode(w: u16) -> Instruction {
    let top = w >> 12;
    let x = ((w >> 8) & 0xF) as u8;
    let y = ((w >> 4) & 0xF) as u8;
    let n = (w & 0xF) as u8;
    let kk = (w & 0xFF) as u8;
    let nnn = w & 0xFFF;
    if top == 0x0 {
        if w == 0x00E0 {
            Instruction::DisplayClear
        } else if w == 0x00EE {
            Instruction::FlowReturn
        } else {
            Instruction::CallMcs { addr: w }
        }
    } else if top == 0x1 {
        Instruction::FlowGoto { addr: nnn }
    } else if top == 0x2 {
        Instruction::FlowCall { addr: nnn }
    } else if top == 0x3 {
        Instruction::SkipIfVEqC { x, c: kk }
    } else if top == 0x4 {
        Instruction::SkipIfVNeC { x, c: kk }
    } else if top == 0x5 {
        if n == 0x0 {
            Instruction::SkipIfVEqV { x, y }
        } else {
            Instruction::Invalid { word: w }
        }
    } else if top == 0x6 {
        Instruction::SetVC { x, c: kk }
    } else if top == 0x7 {
        Instruction::AddVC { x, c: kk }
    } else if top == 0x8 {
        if n == 0x0 {
            Instruction::SetVV { x, y }
        } else if n == 0x1 {
            Instruction::BitOrVV { x, y }
        } else if n == 0x2 {
            Instruction::BitAndVV { x, y }
        } else if n == 0x3 {
            Instruction::BitXorVV { x, y }
        } else if n == 0x4 {
            Instruction::AddVV { x, y }
        } else if n == 0x5 {
            Instruction::SubVV { x, y }
        } else if n == 0x6 {
            Instruction::Shr1V { x, y }
        } else if n == 0x7 {
            Instruction::SubVVAlt { x, y }
        } else if n == 0xE {
            Instruction::Shl1V { x, y }
        } else {
            Instruction::Invalid { word: w }
        }
    } else if top == 0x9 {
        if n == 0x0 {
            Instruction::SkipIfVNeV { x, y }
        } else {
            Instruction::Invalid { word: w }
        }
    } else if top == 0xA {
        Instruction::SetIC { addr: nnn }
    } else if top == 0xB {
        Instruction::SetPcV0PlusC { addr: nnn }
    } else if top == 0xC {
        Instruction::SetVRandMask { x, mask: kk }
    } else if top == 0xD {
        Instruction::DrawXYH { x, y, h: n }
    } else if top == 0xE {
        if kk == 0x9E {
            Instruction::SkipIfPressed { x }
        } else if kk == 0xA1 {
            Instruction::SkipUnlessPressed { x }
        } else {
            Instruction::Invalid { word: w }
        }
    } else {
        if kk == 0x07 {
            Instruction::GetDelayTimer { x }
        } else if kk == 0x0A {
            Instruction::AwaitKey { x }
        } else if kk == 0x15 {
            Instruction::SetDelayTimer { x }
        } else if kk == 0x18 {
            Instruction::SetSoundTimer { x }
        } else if kk == 0x1E {
            Instruction::AddIV { x }
        } else if kk == 0x29 {
            Instruction::SetISprite { x }
        } else if kk == 0x33 {
            Instruction::SetIBcd { x }
        } else if kk == 0x55 {
            Instruction::RegDump { x }
        } else if kk == 0x65 {
            Instruction::RegLoad { x }
        } else {
            Instruction::Invalid { word: w }
        }
    }
}

/// Every field of a decoded instruction is in range.
pub open spec fn inst_wf(i: Instruction) -> bool {
    match i {
        Instruction::CallMcs { addr } => addr < 0x1000 && addr != 0x00E0 && addr != 0x00EE,
        Instruction::DisplayClear => true,
        Instruction::FlowReturn => true,
        Instruction::FlowGoto { addr } => addr < 0x1000,
        Instruction::FlowCall { addr } => addr < 0x1000,
        Instruction::SkipIfVEqC { x, c } => x < 16,
        Instruction::SkipIfVNeC { x, c } => x < 16,
        Instruction::SkipIfVEqV { x, y } => x < 16 && y < 16,
        Instruction::SetVC { x, c } => x < 16,
        Instruction::AddVC { x, c } => x < 16,
        Instruction::SetVV { x, y } => x < 16 && y < 16,
        Instruction::BitOrVV { x, y } => x < 16 && y < 16,
        Instruction::BitAndVV { x, y } => x < 16 && y < 16,
        Instruction::BitXorVV { x, y } => x < 16 && y < 16,
        Instruction::AddVV { x, y } => x < 16 && y < 16,
        Instruction::SubVV { x, y } => x < 16 && y < 16,
        Instruction::Shr1V { x, y } => x < 16 && y < 16,
        Instruction::SubVVAlt { x, y } => x < 16 && y < 16,
        Instruction::Shl1V { x, y } => x < 16 && y < 16,
        Instruction::SkipIfVNeV { x, y } => x < 16 && y < 16,
        Instruction::SetIC { addr } => addr < 0x1000,
        Instruction::SetPcV0PlusC { addr } => addr < 0x1000,
        Instruction::SetVRandMask { x, mask } => x < 16,
        Instruction::DrawXYH { x, y, h } => x < 16 && y < 16 && h < 16,
        Instruction::SkipIfPressed { x } => x < 16,
        Instruction::SkipUnlessPressed { x } => x < 16,
        Instruction::GetDelayTimer { x } => x < 16,
        Instruction::AwaitKey { x } => x < 16,
        Instruction::SetDelayTimer { x } => x < 16,
        Instruction::SetSoundTimer { x } => x < 16,
        Instruction::AddIV { x } => x < 16,
        Instruction::SetISprite { x } => x < 16,
        Instruction::SetIBcd { x } => x < 16,
        Instruction::RegDump { x } => x < 16,
        Instruction::RegLoad { x } => x < 16,
        Instruction::Invalid { word } => true,
    }
}

/// The unique word that a decoded instruction came from.
pub open spec fn spec_encode(i: Instruction) -> u16 {
    match i {
        Instruction::CallMcs { addr } => addr,
        Instruction::DisplayClear => 0x00E0,
        Instruction::FlowReturn => 0x00EE,
        Instruction::FlowGoto { addr } => 0x1000 | addr,
        Instruction::FlowCall { addr } => 0x2000 | addr,
        Instruction::SkipIfVEqC { x, c } => 0x3000 | ((x as u16) << 8) | (c as u16),
        Instruction::SkipIfVNeC { x, c } => 0x4000 | ((x as u16) << 8) | (c as u16),
        Instruction::SkipIfVEqV { x, y } => 0x5000 | ((x as u16) << 8) | ((y as u16) << 4),
        Instruction::SetVC { x, c } => 0x6000 | ((x as u16) << 8) | (c as u16),
        Instruction::AddVC { x, c } => 0x7000 | ((x as u16) << 8) | (c as u16),
        Instruction::SetVV { x, y } => 0x8000 | ((x as u16) << 8) | ((y as u16) << 4),
        Instruction::BitOrVV { x, y } => 0x8001 | ((x as u16) << 8) | ((y as u16) << 4),
        Instruction::BitAndVV { x, y } => 0x8002 | ((x as u16) << 8) | ((y as u16) << 4),
        Instruction::BitXorVV { x, y } => 0x8003 | ((x as u16) << 8) | ((y as u16) << 4),
        Instruction::AddVV { x, y } => 0x8004 | ((x as u16) << 8) | ((y as u16) << 4),
        Instruction::SubVV { x, y } => 0x8005 | ((x as u16) << 8) | ((y as u16) << 4),
        Instruction::Shr1V { x, y } => 0x8006 | ((x as u16) << 8) | ((y as u16) << 4),
        Instruction::SubVVAlt { x, y } => 0x8007 | ((x as u16) << 8) | ((y as u16) << 4),
        Instruction::Shl1V { x, y } => 0x800E | ((x as u16) << 8) | ((y as u16) << 4),
        Instruction::SkipIfVNeV { x, y } => 0x9000 | ((x as u16) << 8) | ((y as u16) << 4),
        Instruction::SetIC { addr } => 0xA000 | addr,
        Instruction::SetPcV0PlusC { addr } => 0xB000 | addr,
        Instruction::SetVRandMask { x, mask } => 0xC000 | ((x as u16) << 8) | (mask as u16),
        Instruction::DrawXYH { x, y, h } => 0xD000 | ((x as u16) << 8) | ((y as u16) << 4) | (
        h as u16),
        Instruction::SkipIfPressed { x } => 0xE09E | ((x as u16) << 8),
        Instruction::SkipUnlessPressed { x } => 0xE0A1 | ((x as u16) << 8),
        Instruction::GetDelayTimer { x } => 0xF007 | ((x as u16) << 8),
        Instruction::AwaitKey { x } => 0xF00A | ((x as u16) << 8),
        Instruction::SetDelayTimer { x } => 0xF015 | ((x as u16) << 8),
        Instruction::SetSoundTimer { x } => 0xF018 | ((x as u16) << 8),
        Instruction::AddIV { x } => 0xF01E | ((x as u16) << 8),
        Instruction::SetISprite { x } => 0xF029 | ((x as u16) << 8),
        Instruction::SetIBcd { x } => 0xF033 | ((x as u16) << 8),
        Instruction::RegDump { x } => 0xF055 | ((x as u16) << 8),
        Instruction::RegLoad { x } => 0xF065 | ((x as u16) << 8),
        Instruction::Invalid { word } => word,
    }
}

/// Decoding is unambiguous: re-encoding what a word decoded to gives
/// back that word, so no two words share a decoding and no word's
/// classification overlaps another's.
pub proof fn lemma_decode_unambiguous(w: u16)
    ensures
        spec_encode(spec_decode(w)) == w,
{
    let x = (((w >> 8) & 0xF) as u8) as u16;
    let y = (((w >> 4) & 0xF) as u8) as u16;
    let kk = ((w & 0xFF) as u8) as u16;
    let nnn = w & 0xFFF;
    assert(((w >> 12) == 0x1 ==> (0x1000 | nnn) == w) && ((w >> 12) == 0x2 ==> (0x2000 | nnn) == w)
        && ((w >> 12) == 0xA ==> (0xA000 | nnn) == w) && ((w >> 12) == 0xB ==> (0xB000 | nnn)
        == w)) by (bit_vector) requires nnn == w & 0xFFF;
    assert(((w >> 12) == 0x3 ==> (0x3000 | (x << 8) | kk) == w) && ((w >> 12) == 0x4 ==> (0x4000 | (
    x << 8) | kk) == w) && ((w >> 12) == 0x6 ==> (0x6000 | (x << 8) | kk) == w) && ((w >> 12) == 0x7
        ==> (0x7000 | (x << 8) | kk) == w) && ((w >> 12) == 0xC ==> (0xC000 | (x << 8) | kk)
        == w)) by (bit_vector) requires x == (((w >> 8) & 0xF) as u8) as u16, kk == ((w & 0xFF) as u8) as u16;
    assert(((w >> 12) == 0x5 && (w & 0xF) == 0x0 ==> (0x5000 | (x << 8) | (y << 4)) == w) && ((w
        >> 12) == 0x9 && (w & 0xF) == 0x0 ==> (0x9000 | (x << 8) | (y << 4)) == w) && ((w >> 12)
        == 0xD ==> (0xD000 | (x << 8) | (y << 4) | (((w & 0xF) as u8) as u16)) == w)) by (bit_vector) requires x == (((w >> 8) & 0xF) as u8) as u16, y == (((w >> 4) & 0xF) as u8) as u16;
    assert(((w >> 12) == 0x8 && (w & 0xF) == 0x0 ==> (0x8000 | (x << 8) | (y << 4)) == w) && ((w
        >> 12) == 0x8 && (w & 0xF) == 0x1 ==> (0x8001 | (x << 8) | (y << 4)) == w) && ((w >> 12)
        == 0x8 && (w & 0xF) == 0x2 ==> (0x8002 | (x << 8) | (y << 4)) == w) && ((w >> 12) == 0x8 && (
    w & 0xF) == 0x3 ==> (0x8003 | (x << 8) | (y << 4)) == w) && ((w >> 12) == 0x8 && (w & 0xF)
        == 0x4 ==> (0x8004 | (x << 8) | (y << 4)) == w) && ((w >> 12) == 0x8 && (w & 0xF) == 0x5
        ==> (0x8005 | (x << 8) | (y << 4)) == w) && ((w >> 12) == 0x8 && (w & 0xF) == 0x6 ==> (
    0x8006 | (x << 8) | (y << 4)) == w) && ((w >> 12) == 0x8 && (w & 0xF) == 0x7 ==> (0x8007 | (x
        << 8) | (y << 4)) == w) && ((w >> 12) == 0x8 && (w & 0xF) == 0xE ==> (0x800E | (x << 8) | (y
        << 4)) == w)) by (bit_vector) requires x == (((w >> 8) & 0xF) as u8) as u16, y == (((w >> 4) & 0xF) as u8) as u16;
    assert(((w >> 12) == 0xE && (w & 0xFF) == 0x9E ==> (0xE09E | (x << 8)) == w) && ((w >> 12)
        == 0xE && (w & 0xFF) == 0xA1 ==> (0xE0A1 | (x << 8)) == w)) by (bit_vector) requires x == (((w >> 8) & 0xF) as u8) as u16;
    assert(((w >> 12) == 0xF && (w & 0xFF) == 0x07 ==> (0xF007 | (x << 8)) == w) && ((w >> 12)
        == 0xF && (w & 0xFF) == 0x0A ==> (0xF00A | (x << 8)) == w) && ((w >> 12) == 0xF && (w & 0xFF)
        == 0x15 ==> (0xF015 | (x << 8)) == w) && ((w >> 12) == 0xF && (w & 0xFF) == 0x18 ==> (0xF018
        | (x << 8)) == w) && ((w >> 12) == 0xF && (w & 0xFF) == 0x1E ==> (0xF01E | (x << 8)) == w)
        && ((w >> 12) == 0xF && (w & 0xFF) == 0x29 ==> (0xF029 | (x << 8)) == w) && ((w >> 12)
        == 0xF && (w & 0xFF) == 0x33 ==> (0xF033 | (x << 8)) == w) && ((w >> 12) == 0xF && (w & 0xFF)
        == 0x55 ==> (0xF055 | (x << 8)) == w) && ((w >> 12) == 0xF && (w & 0xFF) == 0x65 ==> (0xF065
        | (x << 8)) == w)) by (bit_vector) requires x == (((w >> 8) & 0xF) as u8) as u16;
    assert(((w >> 8) & 0xF) < 16 && ((w >> 4) & 0xF) < 16 && (w & 0xF) < 16 && (w & 0xFF) < 256
        && (w & 0xFFF) < 0x1000 && (w >> 12) < 16 && (w >> 12 == 0 ==> w < 0x1000)) by (bit_vector);
}

/// Decoding classifies every one of the 65536 words, and always into a
/// well-formed instruction: the partition of the instruction table is
/// exhaustive.
pub proof fn lemma_decode_total(w: u16)
    ensures
        inst_wf(spec_decode(w)),
{
    assert(((w >> 8) & 0xF) < 16 && ((w >> 4) & 0xF) < 16 && (w & 0xF) < 16 && (w & 0xFF) < 256
        && (w & 0xFFF) < 0x1000 && (w >> 12 == 0 ==> w < 0x1000)) by (bit_vector);
}

impl Op {
    /// Decode this word.  Decoding is total and pure: every word maps to
    /// exactly one instruction, `Invalid` included.
    pub fn decode(self) -> (r: Instruction)
        ensures
            r == spec_decode(self.0),
            inst_wf(r),
    {
        proof {
            lemma_decode_total(self.0);
        }
        let w = self.0;
        let top = w >> 12;
        let x = ((w >> 8) & 0xF) as u8;
        let y = ((w >> 4) & 0xF) as u8;
        let n = (w & 0xF) as u8;
        let kk = (w & 0xFF) as u8;
        let nnn = w & 0xFFF;
        if top == 0x0 {
            if w == 0x00E0 {
                Instruction::DisplayClear
            } else if w == 0x00EE {
                Instruction::FlowReturn
            } else {
                Instruction::CallMcs { addr: w }
            }
        } else if top == 0x1 {
            Instruction::FlowGoto { addr: nnn }
        } else if top == 0x2 {
            Instruction::FlowCall { addr: nnn }
        } else if top == 0x3 {
            Instruction::SkipIfVEqC { x, c: kk }
        } else if top == 0x4 {
            Instruction::SkipIfVNeC { x, c: kk }
        } else if top == 0x5 {
            if n == 0x0 {
                Instruction::SkipIfVEqV { x, y }
            } else {
                Instruction::Invalid { word: w }
            }
        } else if top == 0x6 {
            Instruction::SetVC { x, c: kk }
        } else if top == 0x7 {
            Instruction::AddVC { x, c: kk }
        } else if top == 0x8 {
            if n == 0x0 {
                Instruction::SetVV { x, y }
            } else if n == 0x1 {
                Instruction::BitOrVV { x, y }
            } else if n == 0x2 {
                Instruction::BitAndVV { x, y }
            } else if n == 0x3 {
                Instruction::BitXorVV { x, y }
            } else if n == 0x4 {
                Instruction::AddVV { x, y }
            } else if n == 0x5 {
                Instruction::SubVV { x, y }
            } else if n == 0x6 {
                Instruction::Shr1V { x, y }
            } else if n == 0x7 {
                Instruction::SubVVAlt { x, y }
            } else if n == 0xE {
                Instruction::Shl1V { x, y }
            } else {
                Instruction::Invalid { word: w }
            }
        } else if top == 0x9 {
            if n == 0x0 {
                Instruction::SkipIfVNeV { x, y }
            } else {
                Instruction::Invalid { word: w }
            }
        } else if top == 0xA {
            Instruction::SetIC { addr: nnn }
        } else if top == 0xB {
            Instruction::SetPcV0PlusC { addr: nnn }
        } else if top == 0xC {
            Instruction::SetVRandMask { x, mask: kk }
        } else if top == 0xD {
            Instruction::DrawXYH { x, y, h: n }
        } else if top == 0xE {
            if kk == 0x9E {
                Instruction::SkipIfPressed { x }
            } else if kk == 0xA1 {
                Instruction::SkipUnlessPressed { x }
            } else {
                Instruction::Invalid { word: w }
            }
        } else {
            if kk == 0x07 {
                Instruction::GetDelayTimer { x }
            } else if kk == 0x0A {
                Instruction::AwaitKey { x }
            } else if kk == 0x15 {
                Instruction::SetDelayTimer { x }
            } else if kk == 0x18 {
                Instruction::SetSoundTimer { x }
            } else if kk == 0x1E {
                Instruction::AddIV { x }
            } else if kk == 0x29 {
                Instruction::SetISprite { x }
            } else if kk == 0x33 {
                Instruction::SetIBcd { x }
            } else if kk == 0x55 {
                Instruction::RegDump { x }
            } else if kk == 0x65 {
                Instruction::RegLoad { x }
            } else {
                Instruction::Invalid { word: w }
            }
        }
    }
}

} // verus!
