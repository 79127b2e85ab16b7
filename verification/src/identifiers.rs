use vstd::prelude::*;

verus! {

/// Unique identifier for a client: a 16-bit unsigned integer.
pub type ClientId = u16;

/// Unique identifier for a transaction: a 32-bit unsigned integer,
/// globally unique across the whole input stream.
pub type TxId = u32;

} // verus!
