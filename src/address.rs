use vstd::prelude::*;

verus! {

/// A 32-byte account identity (a public key), held as two big-endian halves.
///
/// The ledger only ever compares identities, so equality of the two halves is
/// all it relies on.
#[derive(Clone, Copy, Debug, PartialEq, Eq, Structural)]
pub struct Address {
    pub high: u128,
    pub low: u128,
}

impl Address {
    /// The identity whose 32 bytes are `high` followed by `low`, both big-endian.
    pub fn new(high: u128, low: u128) -> (r: Address)
        ensures
            r.high == high,
            r.low == low,
    {
        Address { high, low }
    }
}

} // verus!
