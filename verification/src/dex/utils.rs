//! Small helpers of the exchange.
use vstd::prelude::*;
use crate::amount::Amount;

verus! {

/// The amount zero.
pub fn zero() -> (z: Amount)
    ensures
        z@ == 0,
{
    let digits: Vec<u32> = Vec::new();
    assert(digits@ =~= Seq::<u32>::empty());
    Amount::from_digits(digits)
}

} // verus!
