//! Unbounded naturals and integers.
//!
//! A number is held as plain bytes, so that its mathematical value is a spec
//! function of what the library stores. The arithmetic itself is done by
//! `num_bigint`, behind the trusted functions at the end of this file: each
//! of them converts its arguments from bytes, makes one call, and converts
//! the result back.

use num_bigint::{BigInt, BigUint};
use vstd::prelude::*;

verus! {

/// The number that `s` holds in base 256, least significant byte first.
pub open spec fn le_value(s: Seq<u8>) -> nat
    decreases s.len(),
{
    if s.len() == 0 {
        0
    } else {
        (s[0] as nat) + 256 * le_value(s.drop_first())
    }
}

/// 256 to the power `n`.
pub open spec fn pow256(n: nat) -> nat
    decreases n,
{
    if n == 0 {
        1
    } else {
        256 * pow256((n - 1) as nat)
    }
}

/// The integer that `s` holds in two's complement, least significant byte
/// first: the top bit of the last byte is the sign.
pub open spec fn signed_le_value(s: Seq<u8>) -> int {
    if s.len() > 0 && s.last() > 0x7f {
        le_value(s) - pow256(s.len())
    } else {
        le_value(s) as int
    }
}

/// Whether `s` is a non-empty run of the characters `0` to `9`.
pub open spec fn is_decimal(s: Seq<char>) -> bool {
    s.len() > 0 && forall|i: int| 0 <= i < s.len() ==> '0' <= #[trigger] s[i] <= '9'
}

/// The number that the decimal digits `s` write.
pub open spec fn decimal_value(s: Seq<char>) -> nat
    decreases s.len(),
{
    if s.len() == 0 {
        0
    } else {
        10 * decimal_value(s.drop_last()) + ((s.last() as u32 - '0' as u32) as nat)
    }
}

/// A natural number of any size.
#[derive(Debug)]
pub struct Nat {
    /// Base-256 digits, least significant first.
    pub bytes: Vec<u8>,
}

/// An integer of any size.
#[derive(Debug)]
pub struct Int {
    /// Two's complement, least significant byte first.
    pub bytes: Vec<u8>,
}

impl View for Nat {
    type V = nat;

    open spec fn view(&self) -> nat {
        le_value(self.bytes@)
    }
}

impl View for Int {
    type V = int;

    open spec fn view(&self) -> int {
        signed_le_value(self.bytes@)
    }
}

impl Clone for Nat {
    fn clone(&self) -> (r: Self)
        ensures
            r@ == self@,
    {
        let bytes = self.bytes.clone();
        assert(bytes@ =~= self.bytes@);
        Nat { bytes }
    }
}

impl Clone for Int {
    fn clone(&self) -> (r: Self)
        ensures
            r@ == self@,
    {
        let bytes = self.bytes.clone();
        assert(bytes@ =~= self.bytes@);
        Int { bytes }
    }
}

/// The value of a one-byte and of a two-byte number.
pub proof fn lemma_le_value_small(a: u8, b: u8)
    ensures
        le_value(seq![a]) == a,
        le_value(seq![a, b]) == a + 256 * b,
{
    reveal_with_fuel(le_value, 3);
    assert(seq![a].drop_first() =~= Seq::<u8>::empty());
    assert(seq![a, b].drop_first() =~= seq![b]);
    assert(seq![b].drop_first() =~= Seq::<u8>::empty());
}

impl Nat {
    /// The number `n`.
    pub fn from_u8(n: u8) -> (r: Nat)
        ensures
            r@ == n,
    {
        let bytes = vec![n];
        proof {
            lemma_le_value_small(n, 0);
            assert(bytes@ =~= seq![n]);
        }
        Nat { bytes }
    }

    /// The number 256.
    pub fn two_fifty_six() -> (r: Nat)
        ensures
            r@ == 256,
    {
        let bytes = vec![0u8, 1u8];
        proof {
            lemma_le_value_small(0, 1);
            assert(bytes@ =~= seq![0u8, 1u8]);
        }
        Nat { bytes }
    }
}

/// `BigUint::parse_bytes` in radix 10, on decimal digits. For a non-empty
/// run of ASCII digits the call succeeds and gives the number they write.
#[verifier::external_body]
pub(crate) fn nat_parse(digits: &str) -> (r: Option<Nat>)
    requires
        is_decimal(digits@),
    ensures
        r is Some,
        r->0@ == decimal_value(digits@),
{
    match BigUint::parse_bytes(digits.as_bytes(), 10) {
        Some(n) => Some(Nat { bytes: n.to_bytes_le() }),
        None => None,
    }
}

/// `BigUint + BigUint`: the sum.
#[verifier::external_body]
pub(crate) fn nat_add(a: &Nat, b: &Nat) -> (r: Nat)
    ensures
        r@ == a@ + b@,
{
    Nat { bytes: (BigUint::from_bytes_le(&a.bytes) + BigUint::from_bytes_le(&b.bytes)).to_bytes_le() }
}

/// `BigUint - BigUint`: the difference. The outside subtraction panics
/// where the result would be negative, so that is left out.
#[verifier::external_body]
pub(crate) fn nat_sub(a: &Nat, b: &Nat) -> (r: Nat)
    requires
        b@ <= a@,
    ensures
        r@ == a@ - b@,
{
    Nat { bytes: (BigUint::from_bytes_le(&a.bytes) - BigUint::from_bytes_le(&b.bytes)).to_bytes_le() }
}

/// `BigUint % BigUint`: the remainder. The outside division panics on a
/// zero divisor, so that is left out.
#[verifier::external_body]
pub(crate) fn nat_rem(a: &Nat, m: &Nat) -> (r: Nat)
    requires
        m@ > 0,
    ensures
        r@ == a@ % m@,
{
    Nat { bytes: (BigUint::from_bytes_le(&a.bytes) % BigUint::from_bytes_le(&m.bytes)).to_bytes_le() }
}

/// `BigUint > BigUint`: the order of the naturals.
#[verifier::external_body]
pub(crate) fn nat_gt(a: &Nat, b: &Nat) -> (r: bool)
    ensures
        r == (a@ > b@),
{
    BigUint::from_bytes_le(&a.bytes) > BigUint::from_bytes_le(&b.bytes)
}

/// `BigUint == BigUint`: equality of the numbers.
#[verifier::external_body]
pub(crate) fn nat_eq(a: &Nat, b: &Nat) -> (r: bool)
    ensures
        r == (a@ == b@),
{
    BigUint::from_bytes_le(&a.bytes) == BigUint::from_bytes_le(&b.bytes)
}

/// `BigInt::from(BigUint)`: the same number as an integer.
#[verifier::external_body]
pub(crate) fn int_from_nat(a: &Nat) -> (r: Int)
    ensures
        r@ == a@,
{
    Int { bytes: BigInt::from(BigUint::from_bytes_le(&a.bytes)).to_signed_bytes_le() }
}

/// `-BigInt`: the negation.
#[verifier::external_body]
pub(crate) fn int_neg(a: &Int) -> (r: Int)
    ensures
        r@ == -a@,
{
    Int { bytes: (-BigInt::from_signed_bytes_le(&a.bytes)).to_signed_bytes_le() }
}

/// `BigInt + BigInt`: the sum.
#[verifier::external_body]
pub(crate) fn int_add(a: &Int, b: &Int) -> (r: Int)
    ensures
        r@ == a@ + b@,
{
    Int {
        bytes: (BigInt::from_signed_bytes_le(&a.bytes) + BigInt::from_signed_bytes_le(
            &b.bytes,
        )).to_signed_bytes_le(),
    }
}

/// `BigInt - BigInt`: the difference.
#[verifier::external_body]
pub(crate) fn int_sub(a: &Int, b: &Int) -> (r: Int)
    ensures
        r@ == a@ - b@,
{
    Int {
        bytes: (BigInt::from_signed_bytes_le(&a.bytes) - BigInt::from_signed_bytes_le(
            &b.bytes,
        )).to_signed_bytes_le(),
    }
}

/// `BigInt == BigInt`: equality of the numbers.
#[verifier::external_body]
pub(crate) fn int_eq(a: &Int, b: &Int) -> (r: bool)
    ensures
        r == (a@ == b@),
{
    BigInt::from_signed_bytes_le(&a.bytes) == BigInt::from_signed_bytes_le(&b.bytes)
}

} // verus!
