//! Token amounts: unbounded natural numbers, as `candid::Nat` holds them.
//!
//! An [`Amount`] keeps the base 2^32 digits of its value, least significant
//! digit first. Its arithmetic and comparisons are those of `candid::Nat`
//! (a `num_bigint::BigUint`), called through the trusted wrappers below.
use vstd::prelude::*;

verus! {

/// The value of a little-endian sequence of base 2^32 digits.
pub open spec fn digits_value(d: Seq<u32>) -> nat
    decreases d.len(),
{
    if d.len() == 0 {
        0
    } else {
        d[0] as nat + 4294967296 * digits_value(d.drop_first())
    }
}

/// A natural number of any size.
pub struct Amount {
    digits: Vec<u32>,
}

impl View for Amount {
    type V = nat;

    closed spec fn view(&self) -> nat {
        digits_value(self.digits@)
    }
}

/// `candid::Nat` addition: the sum of the two values.
#[verifier::external_body]
fn nat_add(a: &Amount, b: &Amount) -> (r: Amount)
    ensures
        r@ == a@ + b@,
{
    let x = candid::Nat(num_bigint::BigUint::new(a.digits.clone()));
    let y = candid::Nat(num_bigint::BigUint::new(b.digits.clone()));
    Amount { digits: (x + y).0.to_u32_digits() }
}

/// `candid::Nat` subtraction, which panics when `b` exceeds `a`: the
/// difference of the two values.
#[verifier::external_body]
fn nat_sub(a: &Amount, b: &Amount) -> (r: Amount)
    requires
        b@ <= a@,
    ensures
        r@ == a@ - b@,
{
    let x = candid::Nat(num_bigint::BigUint::new(a.digits.clone()));
    let y = candid::Nat(num_bigint::BigUint::new(b.digits.clone()));
    Amount { digits: (x - y).0.to_u32_digits() }
}

/// `candid::Nat`'s `<`: whether the first value is below the second.
#[verifier::external_body]
fn nat_lt(a: &Amount, b: &Amount) -> (r: bool)
    ensures
        r == (a@ < b@),
{
    let x = candid::Nat(num_bigint::BigUint::new(a.digits.clone()));
    let y = candid::Nat(num_bigint::BigUint::new(b.digits.clone()));
    x < y
}

/// `candid::Nat`'s comparison with the literal `0`: whether the value is zero.
#[verifier::external_body]
fn nat_is_zero(a: &Amount) -> (r: bool)
    ensures
        r == (a@ == 0),
{
    candid::Nat(num_bigint::BigUint::new(a.digits.clone())) == 0
}

/// `candid::Nat::from` on a `u64`: the same value.
#[verifier::external_body]
fn nat_from_u64(n: u64) -> (r: Amount)
    ensures
        r@ == n,
{
    Amount { digits: candid::Nat::from(n).0.to_u32_digits() }
}

impl Amount {
    /// The amount whose base 2^32 digits, least significant first, are `digits`.
    pub fn from_digits(digits: Vec<u32>) -> (a: Amount)
        ensures
            a@ == digits_value(digits@),
    {
        Amount { digits }
    }

    /// Base 2^32 digits of this amount, least significant first.
    pub fn digits(&self) -> (d: &Vec<u32>)
        ensures
            digits_value(d@) == self@,
    {
        &self.digits
    }

    /// The amount of the given value.
    pub fn from_u64(n: u64) -> (a: Amount)
        ensures
            a@ == n,
    {
        nat_from_u64(n)
    }

    /// `self + other`.
    pub fn add(&self, other: &Amount) -> (r: Amount)
        ensures
            r@ == self@ + other@,
    {
        nat_add(self, other)
    }

    /// `self - other`; `other` must not exceed `self`.
    pub fn sub(&self, other: &Amount) -> (r: Amount)
        requires
            other@ <= self@,
        ensures
            r@ == self@ - other@,
    {
        nat_sub(self, other)
    }

    /// `self < other`.
    pub fn lt(&self, other: &Amount) -> (r: bool)
        ensures
            r == (self@ < other@),
    {
        nat_lt(self, other)
    }

    /// `self >= other`.
    pub fn ge(&self, other: &Amount) -> (r: bool)
        ensures
            r == (self@ >= other@),
    {
        !nat_lt(self, other)
    }

    /// `self == 0`.
    pub fn is_zero(&self) -> (r: bool)
        ensures
            r == (self@ == 0),
    {
        nat_is_zero(self)
    }
}

impl Clone for Amount {
    fn clone(&self) -> (r: Self)
        ensures
            r@ == self@,
    {
        let digits = self.digits.clone();
        assert(digits@ =~= self.digits@);
        Amount { digits }
    }
}

} // verus!
