//! A 4-bit value.  Instruction fields and general-register selectors are
//! nibbles; the type guarantees that no out-of-range selector ever exists.

use vstd::prelude::*;

verus! {

/// A 4-bit value in `0x0..=0xF`.  The type invariant means a `Nibble`
/// out of that range cannot be constructed, so indexing the 16-entry
/// register file with one needs no further bounds check.
#[derive(Clone, Copy, Debug, Hash)]
pub struct Nibble {
    n: u8,
}

impl View for Nibble {
    type V = u8;

    closed spec fn view(&self) -> u8 {
        self.n
    }
}

impl Nibble {
    #[verifier::type_invariant]
    spec fn inv(self) -> bool {
        self.n < 16
    }

    /// The value as a `u8`, always below 16.
    pub fn to_u8(self) -> (r: u8)
        ensures
            r == self@,
            r < 16,
    {
        proof {
            use_type_invariant(self);
        }
        self.n
    }

    /// The value as a `u16`, always below 16.
    pub fn to_u16(self) -> (r: u16)
        ensures
            r == self@ as u16,
            r < 16,
    {
        proof {
            use_type_invariant(self);
        }
        self.n as u16
    }

    /// The value as a `usize`, always below 16.
    pub fn to_usize(self) -> (r: usize)
        ensures
            r == self@ as usize,
            r < 16,
    {
        proof {
            use_type_invariant(self);
        }
        self.n as usize
    }

    /// The low nibble of a 16-bit value.
    pub fn truncate16(v: u16) -> (r: Nibble)
        ensures
            r@ == (v as u8) & 0xF,
    {
        Nibble::truncate8(v as u8)
    }

    /// The low nibble of a byte.
    pub fn truncate8(v: u8) -> (r: Nibble)
        ensures
            r@ == v & 0xF,
    {
        proof {
            assert((v & 0xF) < 16) by (bit_vector);
        }
        Nibble { n: v & 0xF }
    }

    /// A nibble from a value already known to be in range.
    pub fn literal(v: u8) -> (r: Nibble)
        requires
            v < 16,
        ensures
            r@ == v,
    {
        Nibble { n: v }
    }

    /// All sixteen nibbles, in ascending order.
    pub fn iter() -> (r: Vec<Nibble>)
        ensures
            r@.len() == 16,
            forall|k: int| 0 <= k < 16 ==> r@[k]@ == k,
    {
        let mut r: Vec<Nibble> = Vec::new();
        let mut i: u8 = 0;
        while i < 16
            invariant
                i <= 16,
                r@.len() == i as int,
                forall|k: int| 0 <= k < i as int ==> r@[k]@ == k,
            decreases 16 - i,
        {
            r.push(Nibble::literal(i));
            i = i + 1;
        }
        r
    }
}

} // verus!
