//! Measured amounts.
use vstd::prelude::*;

verus! {

/// A measured amount such as a stock level or a weight.
///
/// The amount is a double-precision binary number, signed, and is held here as its
/// 64-bit pattern: the library carries amounts from the export to the product and
/// never computes with them.
#[derive(Clone, Copy, Debug, PartialEq, Eq, Structural)]
pub struct Quantity {
    pub bits: u64,
}

impl Quantity {
    /// The amount with the bit pattern `bits`.
    pub fn from_bits(bits: u64) -> (q: Quantity)
        ensures
            q.bits == bits,
    {
        Quantity { bits }
    }

    /// The bit pattern of the amount.
    pub fn to_bits(self) -> (bits: u64)
        ensures
            bits == self.bits,
    {
        self.bits
    }
}

} // verus!
