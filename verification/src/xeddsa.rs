//! The XEdDSA signature scheme: signing with a Montgomery secret key and
//! verifying against the matching Montgomery public key.

use crate::bytes::{
    append, bytes_eq, concat3, le_bytes, le_nat, lemma_le_bytes_len, lemma_le_nat_of_le_bytes,
    lemma_pow256_31, pow256,
};
use crate::curve::{
    basepoint_mul, edwards_basepoint_mul, edwards_mul, edwards_sub, montgomery_to_edwards,
    point_mul, point_sub, to_edwards,
};
use crate::hash::{sha512, sha512_digest};
use crate::scalar::{
    group_order, lemma_below_two_pow_255, lemma_clamped_range, neg_mod_order, spec_clamp,
    two_pow_255, Scalar,
};
use crate::uint::{lemma_pow256_32, u256_max, U256};
use vstd::arithmetic::power2::{lemma2_to64, lemma2_to64_rest, lemma_pow2_adds, pow2};
use vstd::prelude::*;

verus! {

/// The prime `p = 2^255 - 19` of the field that Curve25519 is defined over.
pub open spec fn field_prime() -> nat {
    0x7fffffffffffffffffffffffffffffffffffffffffffffffffffffffffffffednat
}

/// `2^253`, the bound that `verify` puts on the `s` half of a signature.
pub open spec fn two_pow_253() -> nat {
    0x2000000000000000000000000000000000000000000000000000000000000000nat
}

/// The sign of `x` that a compressed Edwards point carries: the top bit of
/// its last byte.
pub open spec fn sign_bit(point: Seq<u8>) -> bool {
    point[31] & 0x80 == 0x80
}

/// The compressed point with its sign bit forced to 0.
pub open spec fn clear_sign_bit(point: Seq<u8>) -> Seq<u8> {
    point.update(31, point[31] & 0x7f)
}

/// The Edwards key pair `(ed_pk, ed_sk)` that belongs to the scalar `a`,
/// given the encoding `point` of `a * B`: the public key is `point` with
/// sign 0, and the secret key is `a`, negated modulo the group order where
/// the sign of `point` was 1.
pub open spec fn spec_key_pair_from_point(point: Seq<u8>, a: nat) -> (Seq<u8>, Seq<u8>) {
    (
        clear_sign_bit(point),
        le_bytes(
            if sign_bit(point) {
                neg_mod_order(a)
            } else {
                a
            },
            32,
        ),
    )
}

/// The Edwards key pair `(ed_pk, ed_sk)` that belongs to the scalar `a`.
pub open spec fn spec_key_pair(a: nat) -> (Seq<u8>, Seq<u8>) {
    spec_key_pair_from_point(edwards_basepoint_mul(a), a)
}

/// The 32 little-endian bytes of `2^256 - 1 - i`, which open the input of
/// the hash with domain tag `i`.
pub open spec fn spec_domain_prefix(i: u128) -> Seq<u8> {
    le_bytes((u256_max() - i) as nat, 32)
}

/// The hash with domain tag `i` of `msg`: SHA-512 of the prefix for `i`
/// followed by `msg`.
pub open spec fn spec_hash_i(i: u128, msg: Seq<u8>) -> Seq<u8> {
    sha512_digest(spec_domain_prefix(i) + msg)
}

/// The challenge `h` of a signature with first half `r`, for the Edwards
/// public key `ed_pk` and the message `msg`.
pub open spec fn spec_challenge(r: Seq<u8>, ed_pk: Seq<u8>, msg: Seq<u8>) -> nat {
    le_nat(sha512_digest(r + ed_pk + msg)) % group_order()
}

/// The second half of a signature: `(r + h * a) mod L` on 32 bytes, with the
/// Edwards secret key `ed_sk` read modulo `L` as `a`.
pub open spec fn spec_response(r: nat, h: nat, ed_sk: Seq<u8>) -> Seq<u8> {
    le_bytes((r + h * (le_nat(ed_sk) % group_order())) % group_order(), 32)
}

/// The signature of `msg` under the Montgomery secret key `sk` with the
/// nonce `nonce`.
pub open spec fn spec_sign(sk: Seq<u8>, msg: Seq<u8>, nonce: Seq<u8>) -> Seq<u8> {
    let pair = spec_key_pair(le_nat(spec_clamp(sk)));
    let r = le_nat(spec_hash_i(1, pair.1 + msg + nonce)) % group_order();
    let big_r = edwards_basepoint_mul(r);
    let h = spec_challenge(big_r, pair.0, msg);
    big_r + spec_response(r, h, pair.1)
}

/// The range checks of `verify`: the public key is below the field prime,
/// the first half of the signature with its sign bit cleared is below
/// `2^255`, and the second half is below `2^253`.
pub open spec fn spec_in_range(pk: Seq<u8>, r: Seq<u8>, s: Seq<u8>) -> bool {
    &&& le_nat(pk) < field_prime()
    &&& le_nat(clear_sign_bit(r)) < two_pow_255()
    &&& le_nat(s) < two_pow_253()
}

/// The encoding of `s * B - h * A` for the Edwards point `A` that `ed_pk`
/// encodes, or `None` where a point cannot be decoded.
pub open spec fn spec_check_point(s: nat, h: nat, ed_pk: Seq<u8>) -> Option<Seq<u8>> {
    match edwards_mul(h, ed_pk) {
        Some(h_a) => edwards_sub(edwards_basepoint_mul(s), h_a),
        None => None,
    }
}

/// The comparison of points that decides on a signature whose parts are in
/// range: `pk` maps to an Edwards point `A` of sign 0, and `s * B - h * A`
/// has the encoding `R`, byte for byte.
pub open spec fn spec_points_agree(pk: Seq<u8>, msg: Seq<u8>, sig: Seq<u8>) -> bool {
    let r = sig.subrange(0, 32);
    let s = sig.subrange(32, 64);
    match montgomery_to_edwards(pk, 0) {
        Some(ed_pk) => spec_check_point(
            le_nat(s) % group_order(),
            spec_challenge(r, ed_pk, msg),
            ed_pk,
        ) == Some(r),
        None => false,
    }
}

/// Whether `sig` is accepted as a signature of `msg` under the Montgomery
/// public key `pk`.
pub open spec fn spec_verify(pk: Seq<u8>, msg: Seq<u8>, sig: Seq<u8>) -> bool {
    &&& spec_in_range(pk, sig.subrange(0, 32), sig.subrange(32, 64))
    &&& spec_points_agree(pk, msg, sig)
}

/// `2^255` and `2^253` as powers of two.
pub proof fn lemma_two_pow_values()
    ensures
        pow2(255) == two_pow_255(),
        pow2(253) == two_pow_253(),
        pow2(248) == pow256(31),
{
    lemma2_to64();
    lemma2_to64_rest();
    lemma_pow2_adds(62, 62);
    lemma_pow2_adds(124, 124);
    lemma_pow2_adds(248, 5);
    lemma_pow2_adds(248, 7);
    lemma_pow256_31();
    assert(pow2(124) == 0x10000000000000000000000000000000nat) by (nonlinear_arith)
        requires
            pow2(124) == pow2(62) * pow2(62),
            pow2(62) == 0x4000000000000000,
    ;
}

/// Clearing the sign bit of a 32-byte string leaves a number below `2^255`:
/// the range check on the first half of a signature turns nothing away.
pub proof fn lemma_cleared_sign_in_range(r: Seq<u8>)
    requires
        r.len() == 32,
    ensures
        le_nat(clear_sign_bit(r)) < two_pow_255(),
        !sign_bit(clear_sign_bit(r)),
{
    let top = r[31];
    assert(top & 0x7f < 128) by (bit_vector);
    assert((top & 0x7f) & 0x80 != 0x80) by (bit_vector);
    lemma_below_two_pow_255(clear_sign_bit(r));
}

/// Whatever key, message and nonce a signature of 64 bytes is made from, its
/// second half is reduced modulo the group order and both halves pass the
/// range checks of verification. So under any public key and for any message
/// it is accepted exactly when the key is below the field prime and the
/// comparison of points comes out.
pub proof fn lemma_signed_in_range(
    sk: Seq<u8>,
    msg: Seq<u8>,
    nonce: Seq<u8>,
    pk: Seq<u8>,
    checked_msg: Seq<u8>,
)
    requires
        spec_sign(sk, msg, nonce).len() == 64,
    ensures
        le_nat(spec_sign(sk, msg, nonce).subrange(32, 64)) < group_order(),
        spec_verify(pk, checked_msg, spec_sign(sk, msg, nonce)) == (le_nat(pk) < field_prime()
            && spec_points_agree(pk, checked_msg, spec_sign(sk, msg, nonce))),
{
    let sig = spec_sign(sk, msg, nonce);
    let pair = spec_key_pair(le_nat(spec_clamp(sk)));
    let r = le_nat(spec_hash_i(1, pair.1 + msg + nonce)) % group_order();
    let big_r = edwards_basepoint_mul(r);
    let h = spec_challenge(big_r, pair.0, msg);
    let value = (r + h * (le_nat(pair.1) % group_order())) % group_order();
    lemma_le_bytes_len(value, 32);
    assert(sig.subrange(0, 32) =~= big_r);
    assert(sig.subrange(32, 64) =~= spec_response(r, h, pair.1));
    lemma_le_nat_of_le_bytes(value, 32);
    lemma_pow256_32();
    vstd::arithmetic::div_mod::lemma_small_mod(value, pow256(32));
    lemma_cleared_sign_in_range(big_r);
}

/// The prefix of the hash with a domain tag encodes `2^256 - 1` less the
/// tag. That is at least `2^255`, so the prefix is the encoding of no field
/// element and of no scalar; and two tags have two prefixes.
pub proof fn lemma_domain_prefix_apart(i: u128, j: u128)
    ensures
        spec_domain_prefix(i).len() == 32,
        le_nat(spec_domain_prefix(i)) == u256_max() - i,
        le_nat(spec_domain_prefix(i)) >= two_pow_255(),
        i != j ==> spec_domain_prefix(i) != spec_domain_prefix(j),
{
    lemma_pow256_32();
    lemma_le_bytes_len((u256_max() - i) as nat, 32);
    lemma_le_nat_of_le_bytes((u256_max() - i) as nat, 32);
    lemma_le_nat_of_le_bytes((u256_max() - j) as nat, 32);
    vstd::arithmetic::div_mod::lemma_small_mod((u256_max() - i) as nat, pow256(32));
    vstd::arithmetic::div_mod::lemma_small_mod((u256_max() - j) as nat, pow256(32));
}

/// Splits a signature into its halves `R` and `s`.
pub fn split_signature(sig: &[u8; 64]) -> (halves: ([u8; 32], [u8; 32]))
    ensures
        halves.0@ == sig@.subrange(0, 32),
        halves.1@ == sig@.subrange(32, 64),
{
    let mut r = [0u8; 32];
    let mut s = [0u8; 32];
    let mut i: usize = 0;
    while i < 32
        invariant
            i <= 32,
            forall|j: int| 0 <= j < i ==> r@[j] == sig@[j],
            forall|j: int| 0 <= j < i ==> s@[j] == sig@[32 + j],
        decreases 32 - i,
    {
        r[i] = sig[i];
        s[i] = sig[i + 32];
        i += 1;
    }
    (r, s)
}

/// Joins the halves `R` and `s` into a signature.
pub fn join_signature(r: &[u8; 32], s: &[u8; 32]) -> (sig: [u8; 64])
    ensures
        sig@ == r@ + s@,
{
    let mut sig = [0u8; 64];
    let mut i: usize = 0;
    while i < 32
        invariant
            i <= 32,
            forall|j: int| 0 <= j < i ==> sig@[j] == r@[j],
            forall|j: int| 0 <= j < i ==> sig@[32 + j] == s@[j],
        decreases 32 - i,
    {
        sig[i] = r[i];
        sig[i + 32] = s[i];
        i += 1;
    }
    sig
}

/// The 32-byte prefix of the hash with domain tag `i`. Its top bits are set,
/// so it is no encoding of a field element or of a scalar.
pub fn domain_prefix(i: u128) -> (prefix: [u8; 32])
    ensures
        prefix@ == spec_domain_prefix(i),
        le_nat(prefix@) == u256_max() - i,
        le_nat(prefix@) >= two_pow_255(),
{
    let prefix = U256::max_value().sub(&U256::from_u128(i));
    prefix.to_le_bytes()
}

/// The Edwards key pair for the scalar `scal`, given the encoding `point`
/// of `scal * B`.
pub fn key_pair_from_point(point: [u8; 32], scal: &Scalar) -> (pair: ([u8; 32], [u8; 32]))
    ensures
        pair.0@ == spec_key_pair_from_point(point@, scal@).0,
        pair.1@ == spec_key_pair_from_point(point@, scal@).1,
        !sign_bit(pair.0@),
        sign_bit(point@) ==> le_nat(pair.1@) == neg_mod_order(scal@),
        !sign_bit(point@) ==> le_nat(pair.1@) == scal@,
{
    let mut pkb = point;
    let top = point[31];
    pkb[31] = top & 0x7f;
    let ed_sign = (top & 0x80) >> 7;
    proof {
        assert((top & 0x80) >> 7 == 1 <==> top & 0x80 == 0x80) by (bit_vector);
        assert((top & 0x7f) & 0x80 != 0x80) by (bit_vector);
    }
    let skb = if ed_sign == 1 {
        scal.neg().to_bytes()
    } else {
        scal.to_bytes()
    };
    (pkb, skb)
}

/// The XEdDSA signer and verifier. It holds the field prime `2^255 - 19`.
pub struct XEdDSA {
    prime: U256,
}

impl XEdDSA {
    #[verifier::type_invariant]
    spec fn holds_field_prime(self) -> bool {
        self.prime@ == field_prime()
    }

    /// The prime that the engine checks public keys against.
    pub closed spec fn prime(&self) -> nat {
        self.prime@
    }

    /// An engine that holds the field prime, `2^255 - 19`.
    pub fn new() -> (engine: Self)
        ensures
            engine.prime() == field_prime(),
    {
        proof {
            lemma_two_pow_values();
        }
        let prime = U256::pow2(255).sub(&U256::from_u128(19));
        Self { prime }
    }

    /// The range checks of `verify` on a public key and the halves of a
    /// signature.
    pub fn in_range(&self, pk: &[u8; 32], r: &[u8; 32], s: &[u8; 32]) -> (ok: bool)
        ensures
            ok == spec_in_range(pk@, r@, s@),
    {
        proof {
            use_type_invariant(self);
            lemma_two_pow_values();
        }
        let pk_int = U256::from_le_bytes(*pk);
        let mut r0 = *r;
        r0[31] = r[31] & 0x7f;
        let r_int = U256::from_le_bytes(r0);
        let s_int = U256::from_le_bytes(*s);
        if pk_int.ge(&self.prime) || r_int.ge(&U256::pow2(255)) || s_int.ge(&U256::pow2(253)) {
            return false;
        }
        true
    }

    /// The hash with domain tag `i` of `msg`.
    pub fn hash_i(&self, i: u128, msg: &[u8]) -> (digest: [u8; 64])
        ensures
            digest@ == spec_hash_i(i, msg@),
    {
        let prefix = domain_prefix(i);
        let mut input: Vec<u8> = Vec::new();
        append(&mut input, prefix.as_slice());
        append(&mut input, msg);
        sha512(input.as_slice())
    }

    /// The Edwards key pair `(ed_pk, ed_sk)` for the scalar `scal`: `ed_pk`
    /// is the compressed point `scal * B` with its sign bit forced to 0, and
    /// `ed_sk` is `scal`, or `-scal` modulo the group order where that sign
    /// bit was 1.
    pub fn calculate_key_pair(&self, scal: Scalar) -> (pair: ([u8; 32], [u8; 32]))
        ensures
            pair.0@ == spec_key_pair(scal@).0,
            pair.1@ == spec_key_pair(scal@).1,
            !sign_bit(pair.0@),
    {
        let ed = basepoint_mul(&scal);
        key_pair_from_point(ed, &scal)
    }

    /// Signs `msg` with the Montgomery secret key `sk`. The nonce must be
    /// unpredictable and fresh for every signature. The result is 64 bytes,
    /// `R` followed by `s`.
    pub fn sign(&self, sk: [u8; 32], msg: &[u8], nonce: &[u8]) -> (sig: [u8; 64])
        ensures
            sig@ == spec_sign(sk@, msg@, nonce@),
            le_nat(sig@.subrange(32, 64)) < group_order(),
    {
        let clamped = curve25519_dalek::scalar::clamp_integer(sk);
        let sk_scalar = Scalar::from_bits(clamped);
        proof {
            lemma_clamped_range(sk@);
        }
        let (ed_pk, ed_sk) = self.calculate_key_pair(sk_scalar);

        let concat1 = concat3(ed_sk.as_slice(), msg, nonce);
        let r0 = self.hash_i(1, concat1.as_slice());
        let r = Scalar::from_bytes_mod_order_wide(&r0);

        let big_r = basepoint_mul(&r);

        let hash = sha512(concat3(big_r.as_slice(), ed_pk.as_slice(), msg).as_slice());
        let h = Scalar::from_bytes_mod_order_wide(&hash);
        let a = Scalar::from_bytes_mod_order(ed_sk);
        let s = r.add(&h.mul(&a)).to_bytes();
        proof {
            vstd::arithmetic::div_mod::lemma_add_mod_noop_right(
                r@ as int,
                (h@ * a@) as int,
                group_order() as int,
            );
        }
        let sig = join_signature(&big_r, &s);
        proof {
            assert(sig@.subrange(32, 64) =~= s@);
        }
        sig
    }

    /// Whether `sig` is a signature of `msg` under the Montgomery public key
    /// `pk`. A malformed key or signature is turned away with `false`.
    pub fn verify(&self, pk: [u8; 32], msg: &[u8], sig: [u8; 64]) -> (ok: bool)
        ensures
            ok == spec_verify(pk@, msg@, sig@),
            le_nat(pk@) >= field_prime() ==> !ok,
            le_nat(sig@.subrange(32, 64)) >= two_pow_253() ==> !ok,
            montgomery_to_edwards(pk@, 0) is None ==> !ok,
    {
        let (r, s) = split_signature(&sig);
        if !self.in_range(&pk, &r, &s) {
            return false;
        }
        let a = match to_edwards(&pk, 0) {
            Some(a) => a,
            None => {
                return false;
            },
        };
        let hash = sha512(concat3(r.as_slice(), a.as_slice(), msg).as_slice());
        let h = Scalar::from_bytes_mod_order_wide(&hash);
        let s_scalar = Scalar::from_bytes_mod_order(s);
        let s_b = basepoint_mul(&s_scalar);
        let h_a = match point_mul(&h, &a) {
            Some(h_a) => h_a,
            None => {
                return false;
            },
        };
        let r_check = match point_sub(&s_b, &h_a) {
            Some(r_check) => r_check,
            None => {
                return false;
            },
        };
        bytes_eq(&r, &r_check)
    }
}

} // verus!
