use vstd::prelude::*;

verus! {

/// Fixed-point scaling factor: amounts carry four implied decimal digits.
pub const SCALE: i64 = 10_000;

} // verus!
