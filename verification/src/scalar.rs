//! Integers modulo the order of the Ed25519 base point, kept as 32
//! little-endian bytes. The arithmetic is curve25519-dalek's.

use crate::bytes::{
    le_bytes, le_nat, lemma_le_bytes_of_le_nat, lemma_le_nat_top_byte, lemma_pow256_31,
};
use vstd::prelude::*;

verus! {

/// The order `L` of the Ed25519 base point,
/// `2^252 + 27742317777372353535851937790883648493`.
pub open spec fn group_order() -> nat {
    0x1000000000000000000000000000000014def9dea2f79cd65812631a5cf5d3ednat
}

/// `2^255`.
pub open spec fn two_pow_255() -> nat {
    0x8000000000000000000000000000000000000000000000000000000000000000nat
}

/// `2^254`.
pub open spec fn two_pow_254() -> nat {
    0x4000000000000000000000000000000000000000000000000000000000000000nat
}

/// X25519 clamping of a 32-byte string: the three low bits of the first byte
/// and the top bit of the last byte are cleared, and the second-highest bit
/// of the last byte is set.
pub open spec fn spec_clamp(bytes: Seq<u8>) -> Seq<u8> {
    bytes.update(0, bytes[0] & 0xf8).update(31, (bytes[31] & 0x7f) | 0x40)
}

/// The additive inverse of `a` modulo the group order.
pub open spec fn neg_mod_order(a: nat) -> nat {
    ((group_order() - a % group_order()) % (group_order() as int)) as nat
}

/// `curve25519_dalek::scalar::clamp_integer` masks byte 0 with `0xf8`, masks
/// byte 31 with `0x7f` and then sets its bit 6; the other bytes stay.
pub assume_specification[ curve25519_dalek::scalar::clamp_integer ](bytes: [u8; 32]) -> (r: [u8; 32])
    ensures
        r@ == spec_clamp(bytes@),
;

/// `Scalar::from_bits`, read back with `to_bytes`: the constructor keeps the
/// 32 bytes and clears the top bit of the last one.
#[verifier::external_body]
#[allow(deprecated)]
fn dalek_from_bits(bytes: [u8; 32]) -> (r: [u8; 32])
    ensures
        r@ == bytes@.update(31, bytes[31] & 0x7f),
{
    curve25519_dalek::scalar::Scalar::from_bits(bytes).to_bytes()
}

/// `Scalar::from_bytes_mod_order`, read back with `to_bytes`: the 256-bit
/// little-endian integer reduced modulo the group order.
#[verifier::external_body]
fn dalek_reduce(bytes: [u8; 32]) -> (r: [u8; 32])
    ensures
        le_nat(r@) == le_nat(bytes@) % group_order(),
{
    curve25519_dalek::scalar::Scalar::from_bytes_mod_order(bytes).to_bytes()
}

/// `Scalar::from_bytes_mod_order_wide`, read back with `to_bytes`: the
/// 512-bit little-endian integer reduced modulo the group order.
#[verifier::external_body]
fn dalek_reduce_wide(bytes: &[u8; 64]) -> (r: [u8; 32])
    ensures
        le_nat(r@) == le_nat(bytes@) % group_order(),
{
    curve25519_dalek::scalar::Scalar::from_bytes_mod_order_wide(bytes).to_bytes()
}

/// Negation of a dalek `Scalar`. The source reduces the operand modulo the
/// group order and subtracts it from zero, so the operand need not be
/// reduced; it is below `2^255`, as `from_bits` then keeps every bit of it.
#[verifier::external_body]
#[allow(deprecated)]
fn dalek_neg(a: &[u8; 32]) -> (r: [u8; 32])
    requires
        a@[31] < 128,
    ensures
        le_nat(r@) == neg_mod_order(le_nat(a@)),
{
    (-curve25519_dalek::scalar::Scalar::from_bits(*a)).to_bytes()
}

/// Addition of two dalek `Scalar`s, which the crate defines for reduced
/// operands: their sum modulo the group order.
#[verifier::external_body]
#[allow(deprecated)]
fn dalek_add(a: &[u8; 32], b: &[u8; 32]) -> (r: [u8; 32])
    requires
        le_nat(a@) < group_order(),
        le_nat(b@) < group_order(),
    ensures
        le_nat(r@) == (le_nat(a@) + le_nat(b@)) % group_order(),
{
    let x = curve25519_dalek::scalar::Scalar::from_bits(*a);
    let y = curve25519_dalek::scalar::Scalar::from_bits(*b);
    (x + y).to_bytes()
}

/// Multiplication of two reduced dalek `Scalar`s: their product modulo the
/// group order.
#[verifier::external_body]
#[allow(deprecated)]
fn dalek_mul(a: &[u8; 32], b: &[u8; 32]) -> (r: [u8; 32])
    requires
        le_nat(a@) < group_order(),
        le_nat(b@) < group_order(),
    ensures
        le_nat(r@) == (le_nat(a@) * le_nat(b@)) % group_order(),
{
    let x = curve25519_dalek::scalar::Scalar::from_bits(*a);
    let y = curve25519_dalek::scalar::Scalar::from_bits(*b);
    (x * y).to_bytes()
}

/// A 32-byte string encodes a number below `2^255` exactly when the top bit
/// of its last byte is clear.
pub proof fn lemma_below_two_pow_255(s: Seq<u8>)
    requires
        s.len() == 32,
    ensures
        le_nat(s) < two_pow_255() <==> s[31] < 128,
{
    lemma_le_nat_top_byte(s);
    lemma_pow256_31();
}

/// A clamped string encodes a multiple of 8 that is at least `2^254` and
/// below `2^255`.
pub proof fn lemma_clamped_range(bytes: Seq<u8>)
    requires
        bytes.len() == 32,
    ensures
        two_pow_254() <= le_nat(spec_clamp(bytes)) < two_pow_255(),
        le_nat(spec_clamp(bytes)) % 8 == 0,
{
    let clamped = spec_clamp(bytes);
    let low = bytes[0];
    let top = bytes[31];
    assert((low & 0xf8) % 8 == 0) by (bit_vector);
    assert(64 <= (top & 0x7f) | 0x40 < 128) by (bit_vector);
    lemma_le_nat_top_byte(clamped);
    lemma_pow256_31();
}

/// An integer below `2^255`, as the scalar of a point multiplication or an
/// operand of arithmetic modulo the group order. Its view is the integer.
#[derive(Clone, Copy, Debug)]
pub struct Scalar {
    bytes: [u8; 32],
}

impl View for Scalar {
    type V = nat;

    closed spec fn view(&self) -> nat {
        le_nat(self.bytes@)
    }
}

impl Scalar {
    #[verifier::type_invariant]
    spec fn top_bit_clear(self) -> bool {
        self.bytes@[31] < 128
    }

    /// The scalar that the low 255 bits of `bytes` encode. It is not reduced
    /// modulo the group order.
    pub fn from_bits(bytes: [u8; 32]) -> (s: Scalar)
        ensures
            s@ == le_nat(bytes@) % two_pow_255(),
    {
        let masked = dalek_from_bits(bytes);
        proof {
            let top = bytes[31];
            assert(top & 0x7f == top % 128) by (bit_vector);
            lemma_le_nat_top_byte(bytes@);
            lemma_le_nat_top_byte(masked@);
            lemma_pow256_31();
            assert(masked@.subrange(0, 31) =~= bytes@.subrange(0, 31));
            // bytes = (top / 128) * 2^255 + masked, and masked < 2^255
            vstd::arithmetic::div_mod::lemma_fundamental_div_mod_converse_mod(
                le_nat(bytes@) as int,
                two_pow_255() as int,
                (top / 128) as int,
                le_nat(masked@) as int,
            );
        }
        Scalar { bytes: masked }
    }

    /// The 256-bit little-endian integer `bytes` reduced modulo the group
    /// order.
    pub fn from_bytes_mod_order(bytes: [u8; 32]) -> (s: Scalar)
        ensures
            s@ == le_nat(bytes@) % group_order(),
    {
        let reduced = dalek_reduce(bytes);
        proof {
            lemma_below_two_pow_255(reduced@);
        }
        Scalar { bytes: reduced }
    }

    /// The 512-bit little-endian integer `bytes` reduced modulo the group
    /// order.
    pub fn from_bytes_mod_order_wide(bytes: &[u8; 64]) -> (s: Scalar)
        ensures
            s@ == le_nat(bytes@) % group_order(),
    {
        let reduced = dalek_reduce_wide(bytes);
        proof {
            lemma_below_two_pow_255(reduced@);
        }
        Scalar { bytes: reduced }
    }

    /// The 32 little-endian bytes of the scalar.
    pub fn to_bytes(&self) -> (b: [u8; 32])
        ensures
            b@ == le_bytes(self@, 32),
            le_nat(b@) == self@,
            self@ < two_pow_255(),
    {
        proof {
            use_type_invariant(self);
            lemma_le_bytes_of_le_nat(self.bytes@);
            lemma_below_two_pow_255(self.bytes@);
        }
        self.bytes
    }

    /// The additive inverse modulo the group order. The scalar itself need
    /// not be reduced.
    pub fn neg(&self) -> (s: Scalar)
        ensures
            s@ == neg_mod_order(self@),
    {
        proof {
            use_type_invariant(self);
        }
        let negated = dalek_neg(&self.bytes);
        proof {
            lemma_below_two_pow_255(negated@);
        }
        Scalar { bytes: negated }
    }

    /// The sum of two reduced scalars modulo the group order.
    pub fn add(&self, rhs: &Scalar) -> (s: Scalar)
        requires
            self@ < group_order(),
            rhs@ < group_order(),
        ensures
            s@ == (self@ + rhs@) % group_order(),
    {
        let sum = dalek_add(&self.bytes, &rhs.bytes);
        proof {
            lemma_below_two_pow_255(sum@);
        }
        Scalar { bytes: sum }
    }

    /// The product of two reduced scalars modulo the group order.
    pub fn mul(&self, rhs: &Scalar) -> (s: Scalar)
        requires
            self@ < group_order(),
            rhs@ < group_order(),
        ensures
            s@ == (self@ * rhs@) % group_order(),
    {
        let product = dalek_mul(&self.bytes, &rhs.bytes);
        proof {
            lemma_below_two_pow_255(product@);
        }
        Scalar { bytes: product }
    }
}

} // verus!
