//! Points of the twisted Edwards form of Curve25519, kept in their 32-byte
//! compressed encoding (the `y` coordinate, with the sign of `x` in the top
//! bit of the last byte). The point arithmetic is curve25519-dalek's; each
//! operation below decodes its operands, makes one call and encodes the
//! result.

use crate::scalar::Scalar;
use vstd::prelude::*;

verus! {

/// The encoding of `k * B`, where `B` is the Ed25519 base point.
pub uninterp spec fn edwards_basepoint_mul(k: nat) -> Seq<u8>;

/// The encoding of the Edwards point with the given sign of `x` that the
/// birational map assigns to the Montgomery `u` coordinate `u`, or `None`
/// where `u` belongs to no point of the curve.
pub uninterp spec fn montgomery_to_edwards(u: Seq<u8>, sign: u8) -> Option<Seq<u8>>;

/// The encoding of `k * P` for the point that `point` encodes, or `None`
/// where `point` encodes none.
pub uninterp spec fn edwards_mul(k: nat, point: Seq<u8>) -> Option<Seq<u8>>;

/// The encoding of `P - Q` for the points that `p` and `q` encode, or `None`
/// where one of them encodes none.
pub uninterp spec fn edwards_sub(p: Seq<u8>, q: Seq<u8>) -> Option<Seq<u8>>;

/// What an operation handed back, as the value that its name has.
pub open spec fn encoded(r: Option<[u8; 32]>) -> Option<Seq<u8>> {
    match r {
        Some(enc) => Some(enc@),
        None => None,
    }
}

/// `EdwardsPoint::mul_base` on the scalar, compressed. The scalar is below
/// `2^255`, which is all that the crate asks of it, so `Scalar::from_bits`
/// keeps every bit of it.
#[verifier::external_body]
#[allow(deprecated)]
pub(crate) fn basepoint_mul(k: &Scalar) -> (enc: [u8; 32])
    ensures
        enc@ == edwards_basepoint_mul(k@),
{
    let k = curve25519_dalek::scalar::Scalar::from_bits(k.to_bytes());
    curve25519_dalek::edwards::EdwardsPoint::mul_base(&k).compress().to_bytes()
}

/// `MontgomeryPoint::to_edwards` on the `u` coordinate, compressed. The
/// crate returns `None` for a coordinate on the twist.
#[verifier::external_body]
pub(crate) fn to_edwards(u: &[u8; 32], sign: u8) -> (r: Option<[u8; 32]>)
    ensures
        encoded(r) == montgomery_to_edwards(u@, sign),
{
    match curve25519_dalek::montgomery::MontgomeryPoint(*u).to_edwards(sign) {
        Some(point) => Some(point.compress().to_bytes()),
        None => None,
    }
}

/// The product of a dalek `Scalar` and the `EdwardsPoint` that `point`
/// decompresses to, compressed; `None` where `decompress` finds no point.
#[verifier::external_body]
#[allow(deprecated)]
pub(crate) fn point_mul(k: &Scalar, point: &[u8; 32]) -> (r: Option<[u8; 32]>)
    ensures
        encoded(r) == edwards_mul(k@, point@),
{
    let k = curve25519_dalek::scalar::Scalar::from_bits(k.to_bytes());
    match curve25519_dalek::edwards::CompressedEdwardsY(*point).decompress() {
        Some(point) => Some((k * point).compress().to_bytes()),
        None => None,
    }
}

/// The difference of the two `EdwardsPoint`s that `p` and `q` decompress
/// to, compressed; `None` where `decompress` finds no point for one of them.
#[verifier::external_body]
pub(crate) fn point_sub(p: &[u8; 32], q: &[u8; 32]) -> (r: Option<[u8; 32]>)
    ensures
        encoded(r) == edwards_sub(p@, q@),
{
    let p = curve25519_dalek::edwards::CompressedEdwardsY(*p).decompress();
    let q = curve25519_dalek::edwards::CompressedEdwardsY(*q).decompress();
    match (p, q) {
        (Some(p), Some(q)) => Some((p - q).compress().to_bytes()),
        _ => None,
    }
}

} // verus!
