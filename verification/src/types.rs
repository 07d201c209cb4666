//! The chain's value types: 160-bit addresses, 256-bit hashes and 256-bit
//! unsigned integers.

use vstd::prelude::*;

verus! {

/// A 160-bit account or contract address, most significant byte first.
#[derive(Clone, Copy, Debug, PartialEq, Eq, Hash)]
pub struct H160(pub [u8; 20]);

/// A 256-bit hash, such as an event signature, most significant byte first.
#[derive(Clone, Copy, Debug, PartialEq, Eq, Hash)]
pub struct H256(pub [u8; 32]);

/// Byte-wise comparison of two arrays of the same length.
fn bytes_equal<const N: usize>(a: &[u8; N], b: &[u8; N]) -> (r: bool)
    ensures
        r == (*a == *b),
{
    let mut i: usize = 0;
    while i < N
        invariant
            i <= N,
            forall|j: int| 0 <= j < i ==> a[j] == b[j],
        decreases N - i,
    {
        if a[i] != b[i] {
            return false;
        }
        i += 1;
    }
    assert(*a =~= *b);
    true
}

impl H160 {
    /// The address of twenty zero bytes.
    pub open spec fn zero_spec() -> H160 {
        H160([0, 0, 0, 0, 0, 0, 0, 0, 0, 0, 0, 0, 0, 0, 0, 0, 0, 0, 0, 0])
    }

    /// The address of twenty zero bytes.
    pub fn zero() -> (r: H160)
        ensures
            r == Self::zero_spec(),
    {
        H160([0, 0, 0, 0, 0, 0, 0, 0, 0, 0, 0, 0, 0, 0, 0, 0, 0, 0, 0, 0])
    }

    /// Whether two addresses are the same.
    pub fn same(&self, other: &H160) -> (r: bool)
        ensures
            r == (*self == *other),
    {
        bytes_equal(&self.0, &other.0)
    }
}

impl Default for H160 {
    /// The address of twenty zero bytes.
    fn default() -> (r: H160)
        ensures
            r == H160::zero_spec(),
    {
        H160::zero()
    }
}

impl Default for H256 {
    /// The hash of thirty-two zero bytes.
    fn default() -> (r: H256)
        ensures
            r == H256::zero_spec(),
    {
        H256::zero()
    }
}

impl Default for U256 {
    /// The number zero.
    fn default() -> (r: U256)
        ensures
            r@ == 0,
    {
        U256::zero()
    }
}

impl H256 {
    /// The hash of thirty-two zero bytes.
    pub open spec fn zero_spec() -> H256 {
        H256(
            [
                0, 0, 0, 0, 0, 0, 0, 0, 0, 0, 0, 0, 0, 0, 0, 0, 0, 0, 0, 0, 0, 0, 0, 0, 0, 0, 0, 0,
                0, 0, 0, 0,
            ],
        )
    }

    /// The hash of thirty-two zero bytes.
    pub fn zero() -> (r: H256)
        ensures
            r == Self::zero_spec(),
    {
        H256(
            [
                0, 0, 0, 0, 0, 0, 0, 0, 0, 0, 0, 0, 0, 0, 0, 0, 0, 0, 0, 0, 0, 0, 0, 0, 0, 0, 0, 0,
                0, 0, 0, 0,
            ],
        )
    }

    /// Whether two hashes are the same.
    pub fn same(&self, other: &H256) -> (r: bool)
        ensures
            r == (*self == *other),
    {
        bytes_equal(&self.0, &other.0)
    }
}

/// A record of the chain's event log, as far as a pool reads it.
#[derive(Clone, Debug, PartialEq, Eq)]
pub struct Log {
    /// The contract that logged the record.
    pub address: H160,
    /// The record's topics. The first one is the signature of the event.
    pub topics: Vec<H256>,
    /// The event's fields that are not topics, in the chain's encoding.
    pub data: Vec<u8>,
}

impl Log {
    /// Whether the record's first topic is the given event signature. A
    /// record without topics matches no signature.
    pub open spec fn spec_has_signature(&self, signature: H256) -> bool {
        self.topics@.len() > 0 && self.topics@[0] == signature
    }

    /// Whether the record's first topic is the given event signature.
    pub fn has_signature(&self, signature: &H256) -> (r: bool)
        ensures
            r == self.spec_has_signature(*signature),
    {
        self.topics.len() > 0 && self.topics[0].same(signature)
    }
}

/// A 256-bit unsigned integer held as four 64-bit words, least significant
/// word first.
#[derive(Clone, Copy, Debug, PartialEq, Eq, Hash)]
pub struct U256(pub [u64; 4]);

/// The first number that a `U256` cannot hold: two to the power 256.
pub open spec fn u256_limit() -> nat {
    0x1_0000_0000_0000_0000_0000_0000_0000_0000_0000_0000_0000_0000_0000_0000_0000_0000nat
}

impl View for U256 {
    type V = nat;

    /// The number that the four words spell.
    open spec fn view(&self) -> nat {
        (self.0[0] as nat) + (self.0[1] as nat) * 0x1_0000_0000_0000_0000nat
            + (self.0[2] as nat) * 0x1_0000_0000_0000_0000_0000_0000_0000_0000nat
            + (self.0[3] as nat) * 0x1_0000_0000_0000_0000_0000_0000_0000_0000_0000_0000_0000_0000nat
    }
}

impl U256 {
    /// Every value lies below the limit.
    pub proof fn lemma_bounded(self)
        ensures
            self@ < u256_limit(),
    {
    }

    /// The number zero.
    pub fn zero() -> (r: U256)
        ensures
            r@ == 0,
    {
        U256([0, 0, 0, 0])
    }

    /// Widens a 128-bit number.
    pub fn from_u128(value: u128) -> (r: U256)
        ensures
            r@ == value,
    {
        let low: u64 = (value % 0x1_0000_0000_0000_0000) as u64;
        let high: u64 = (value / 0x1_0000_0000_0000_0000) as u64;
        U256([low, high, 0, 0])
    }

    /// Whether the number is zero.
    pub fn is_zero(&self) -> (r: bool)
        ensures
            r == (self@ == 0),
    {
        self.0[0] == 0 && self.0[1] == 0 && self.0[2] == 0 && self.0[3] == 0
    }

    /// Whether the number fits in 128 bits.
    pub fn fits_u128(&self) -> (r: bool)
        ensures
            r == (self@ <= u128::MAX),
    {
        self.0[2] == 0 && self.0[3] == 0
    }

    /// Narrows a number that fits in 128 bits.
    pub fn as_u128(&self) -> (r: u128)
        requires
            self@ <= u128::MAX,
        ensures
            r == self@,
    {
        let low: u128 = self.0[0] as u128;
        let high: u128 = self.0[1] as u128;
        high * 0x1_0000_0000_0000_0000 + low
    }
}

/// Calls `U256::checked_add` of ethers on the same four words. The sum comes
/// back where it fits in 256 bits, and nothing where it does not.
#[verifier::external_body]
pub(crate) fn checked_add(a: U256, b: U256) -> (r: Option<U256>)
    ensures
        match r {
            Some(sum) => sum@ == a@ + b@,
            None => a@ + b@ >= u256_limit(),
        },
{
    match ethers::types::U256(a.0).checked_add(ethers::types::U256(b.0)) {
        Some(sum) => Some(U256(sum.0)),
        None => None,
    }
}

/// Calls `U256::checked_sub` of ethers on the same four words. The difference
/// comes back where it is not negative, and nothing where it is.
#[verifier::external_body]
pub(crate) fn checked_sub(a: U256, b: U256) -> (r: Option<U256>)
    ensures
        match r {
            Some(difference) => difference@ == a@ - b@,
            None => a@ < b@,
        },
{
    match ethers::types::U256(a.0).checked_sub(ethers::types::U256(b.0)) {
        Some(difference) => Some(U256(difference.0)),
        None => None,
    }
}

/// Calls `U256::checked_mul` of ethers on the same four words. The product
/// comes back where it fits in 256 bits, and nothing where it does not.
#[verifier::external_body]
pub(crate) fn checked_mul(a: U256, b: U256) -> (r: Option<U256>)
    ensures
        match r {
            Some(product) => product@ == a@ * b@,
            None => a@ * b@ >= u256_limit(),
        },
{
    match ethers::types::U256(a.0).checked_mul(ethers::types::U256(b.0)) {
        Some(product) => Some(U256(product.0)),
        None => None,
    }
}

/// Calls `U256::div_mod` of ethers on the same four words, which panics on a
/// zero divisor. Quotient and remainder of the division come back.
#[verifier::external_body]
pub(crate) fn div_mod(a: U256, b: U256) -> (r: (U256, U256))
    requires
        b@ != 0,
    ensures
        r.0@ == a@ / b@,
        r.1@ == a@ % b@,
{
    let (quotient, remainder) = ethers::types::U256(a.0).div_mod(ethers::types::U256(b.0));
    (U256(quotient.0), U256(remainder.0))
}

/// The sum of two numbers whose sum fits in 256 bits.
pub(crate) fn sum(a: U256, b: U256) -> (r: U256)
    requires
        a@ + b@ < u256_limit(),
    ensures
        r@ == a@ + b@,
{
    match checked_add(a, b) {
        Some(total) => total,
        // Ruled out by the bound on the sum.
        None => a,
    }
}

/// The difference of two numbers, the first being no smaller than the second.
pub(crate) fn difference(a: U256, b: U256) -> (r: U256)
    requires
        a@ >= b@,
    ensures
        r@ == a@ - b@,
{
    match checked_sub(a, b) {
        Some(rest) => rest,
        // Ruled out by the order of the two numbers.
        None => a,
    }
}

/// The product of two numbers whose product fits in 256 bits.
pub(crate) fn product(a: U256, b: U256) -> (r: U256)
    requires
        a@ * b@ < u256_limit(),
    ensures
        r@ == a@ * b@,
{
    match checked_mul(a, b) {
        Some(total) => total,
        // Ruled out by the bound on the product.
        None => a,
    }
}

/// The quotient of a number by a divisor other than zero, rounded down.
pub(crate) fn quotient(a: U256, b: U256) -> (r: U256)
    requires
        b@ != 0,
    ensures
        r@ == a@ / b@,
{
    div_mod(a, b).0
}

} // verus!
