//! A raw instruction word.

use vstd::prelude::*;

verus! {

/// A 16-bit instruction word, fetched big-endian and decoded on demand.
#[derive(Clone, Copy, PartialEq, Eq, Structural, Debug, Hash)]
pub struct Op(pub u16);

} // verus!
