use num::BigUint;
use num::ToPrimitive;
use vstd::prelude::*;

verus! {

#[verifier::external_type_specification]
#[verifier::external_body]
pub struct ExBigUint(BigUint);

/// The bytes of the number that an amount holds, most significant byte
/// first, as `BigUint::to_bytes_be` gives them.
pub uninterp spec fn amount_bytes(n: BigUint) -> Seq<u8>;

/// The number that a sequence of bytes spells, most significant byte first.
pub open spec fn be_value(bytes: Seq<u8>) -> nat
    decreases bytes.len(),
{
    if bytes.len() == 0 {
        0
    } else {
        be_value(bytes.drop_last()) * 256 + bytes.last() as nat
    }
}

/// The natural number that an amount holds.
pub open spec fn amount_value(n: BigUint) -> nat {
    be_value(amount_bytes(n))
}

/// `BigUint::from` on a `u64`: the amount holds the given number.
#[verifier::external_body]
pub(crate) fn amount_from_u64(n: u64) -> (r: BigUint)
    ensures
        be_value(amount_bytes(r)) == n,
{
    BigUint::from(n)
}

/// `BigUint::from_bytes_be`: the amount holds the number that the bytes spell
/// in big-endian order; no bytes give zero.
#[verifier::external_body]
pub(crate) fn amount_from_bytes_be(bytes: &[u8]) -> (r: BigUint)
    ensures
        be_value(amount_bytes(r)) == be_value(bytes@),
{
    BigUint::from_bytes_be(bytes)
}

/// `BigUint::clone`: the copy holds the same number.
#[verifier::external_body]
pub(crate) fn amount_clone(n: &BigUint) -> (r: BigUint)
    ensures
        be_value(amount_bytes(r)) == be_value(amount_bytes(*n)),
{
    n.clone()
}

/// `BigUint + &BigUint`: the sum, which never overflows.
#[verifier::external_body]
pub(crate) fn amount_add(a: BigUint, b: &BigUint) -> (r: BigUint)
    ensures
        be_value(amount_bytes(r)) == be_value(amount_bytes(a)) + be_value(amount_bytes(*b)),
{
    a + b
}

/// `BigUint - &BigUint`: the difference. The outside code panics where the
/// right side is the greater one, so that case is left out.
#[verifier::external_body]
pub(crate) fn amount_sub(a: BigUint, b: &BigUint) -> (r: BigUint)
    requires
        be_value(amount_bytes(a)) >= be_value(amount_bytes(*b)),
    ensures
        be_value(amount_bytes(r)) == be_value(amount_bytes(a)) - be_value(amount_bytes(*b)),
{
    a - b
}

/// `BigUint <= BigUint`: the order of the numbers held.
#[verifier::external_body]
pub(crate) fn amount_le(a: &BigUint, b: &BigUint) -> (r: bool)
    ensures
        r == (be_value(amount_bytes(*a)) <= be_value(amount_bytes(*b))),
{
    a <= b
}

/// `ToPrimitive::to_u64` on a `BigUint`: the number held, where it fits in
/// 64 bits, and nothing where it does not.
#[verifier::external_body]
pub(crate) fn amount_to_u64(n: &BigUint) -> (r: Option<u64>)
    ensures
        r == if be_value(amount_bytes(*n)) <= u64::MAX {
            Some(be_value(amount_bytes(*n)) as u64)
        } else {
            None
        },
{
    n.to_u64()
}

} // verus!
