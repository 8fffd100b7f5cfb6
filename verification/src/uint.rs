//! Unsigned 256-bit integers over 32 little-endian bytes: the few operations
//! that the range checks and the hash prefix need.

use crate::bytes::{
    le_bytes, le_nat, lemma_le_bytes_of_le_nat, lemma_le_nat_bound, lemma_le_nat_push,
    lemma_le_nat_split, lemma_zeros, pow256,
};
use vstd::arithmetic::power2::{lemma2_to64, lemma_pow2_adds, pow2};
use vstd::prelude::*;

verus! {

/// `2^256 - 1`, the largest value of a [`U256`].
pub open spec fn u256_max() -> nat {
    0xffffffffffffffffffffffffffffffffffffffffffffffffffffffffffffffffnat
}

/// `256^k` is `2^(8k)`.
pub proof fn lemma_pow256_is_pow2(k: nat)
    ensures
        pow256(k) == pow2(8 * k),
    decreases k,
{
    lemma2_to64();
    if k > 0 {
        lemma_pow256_is_pow2((k - 1) as nat);
        lemma_pow2_adds(8, (8 * (k - 1)) as nat);
    }
}

/// `256^32` is `2^256`.
pub proof fn lemma_pow256_32()
    ensures
        pow256(32) == u256_max() + 1,
{
    reveal_with_fuel(pow256, 33);
}

/// An unsigned integer below `2^256`. Its view is the integer.
#[derive(Clone, Copy, Debug)]
pub struct U256 {
    bytes: [u8; 32],
}

impl View for U256 {
    type V = nat;

    closed spec fn view(&self) -> nat {
        le_nat(self.bytes@)
    }
}

impl U256 {
    /// The integer that 32 little-endian bytes encode.
    pub fn from_le_bytes(bytes: [u8; 32]) -> (n: U256)
        ensures
            n@ == le_nat(bytes@),
    {
        U256 { bytes }
    }

    /// The 32 little-endian bytes of the integer.
    pub fn to_le_bytes(&self) -> (b: [u8; 32])
        ensures
            b@ == le_bytes(self@, 32),
            le_nat(b@) == self@,
    {
        proof {
            lemma_le_bytes_of_le_nat(self.bytes@);
        }
        self.bytes
    }

    /// `2^256 - 1`.
    pub fn max_value() -> (n: U256)
        ensures
            n@ == u256_max(),
    {
        let bytes = [0xffu8; 32];
        let mut i: usize = 0;
        while i < 32
            invariant
                i <= 32,
                forall|j: int| 0 <= j < 32 ==> bytes@[j] == 0xff,
                le_nat(bytes@.subrange(0, i as int)) + 1 == pow256(i as nat),
            decreases 32 - i,
        {
            proof {
                let head = bytes@.subrange(0, i as int);
                assert(bytes@.subrange(0, i + 1) =~= head.push(0xffu8));
                lemma_le_nat_push(head, 0xffu8);
            }
            i += 1;
        }
        proof {
            assert(bytes@.subrange(0, 32) =~= bytes@);
            lemma_pow256_32();
        }
        U256 { bytes }
    }

    /// The integer `i`.
    pub fn from_u128(i: u128) -> (n: U256)
        ensures
            n@ == i,
    {
        let mut bytes = [0u8; 32];
        let mut rest: u128 = i;
        let mut k: usize = 0;
        proof {
            assert(pow256(0) == 1);
        }
        while k < 32
            invariant
                k <= 32,
                le_nat(bytes@.subrange(0, k as int)) + rest * pow256(k as nat) == i,
            decreases 32 - k,
        {
            let low: u8 = (rest % 256) as u8;
            let ghost head = bytes@.subrange(0, k as int);
            bytes[k] = low;
            proof {
                assert(bytes@.subrange(0, k + 1) =~= head.push(low));
                lemma_le_nat_push(head, low);
                let p = pow256(k as nat);
                let q = rest / 256;
                assert(rest * p == q * (256 * p) + low * p) by (nonlinear_arith)
                    requires
                        rest == 256 * q + low,
                ;
            }
            rest = rest / 256;
            k += 1;
        }
        proof {
            assert(bytes@.subrange(0, 32) =~= bytes@);
            lemma_pow256_32();
            assert(rest == 0) by (nonlinear_arith)
                requires
                    rest * pow256(32) <= i,
                    pow256(32) > i,
            ;
        }
        U256 { bytes }
    }

    /// `2^k`.
    pub fn pow2(k: u32) -> (n: U256)
        requires
            k < 256,
        ensures
            n@ == pow2(k as nat),
    {
        let mut bytes = [0u8; 32];
        let at: usize = (k / 8) as usize;
        let bit: u8 = 1u8 << ((k % 8) as u8);
        bytes[at] = bit;
        proof {
            let shift = (k % 8) as u8;
            assert(shift < 8 ==> (1u8 << shift) == if shift == 0 {
                1u8
            } else if shift == 1 {
                2u8
            } else if shift == 2 {
                4u8
            } else if shift == 3 {
                8u8
            } else if shift == 4 {
                16u8
            } else if shift == 5 {
                32u8
            } else if shift == 6 {
                64u8
            } else {
                128u8
            }) by (bit_vector);
            lemma2_to64();
            lemma_le_nat_split(bytes@, at as int);
            lemma_zeros(bytes@.subrange(0, at as int));
            let tail = bytes@.subrange(at as int, 32);
            assert(tail[0] == bit);
            lemma_zeros(tail.drop_first());
            lemma_pow256_is_pow2(at as nat);
            lemma_pow2_adds((8 * at) as nat, shift as nat);
        }
        U256 { bytes }
    }

    /// The difference `self - rhs`, for `rhs` no larger than `self`.
    pub fn sub(&self, rhs: &U256) -> (n: U256)
        requires
            rhs@ <= self@,
        ensures
            n@ == self@ - rhs@,
    {
        let mut bytes = [0u8; 32];
        let mut borrow: u8 = 0;
        let mut k: usize = 0;
        while k < 32
            invariant
                k <= 32,
                borrow <= 1,
                le_nat(bytes@.subrange(0, k as int)) + le_nat(rhs.bytes@.subrange(0, k as int))
                    == le_nat(self.bytes@.subrange(0, k as int)) + borrow * pow256(k as nat),
            decreases 32 - k,
        {
            let x: u16 = self.bytes[k] as u16;
            let y: u16 = rhs.bytes[k] as u16 + borrow as u16;
            let ghost old_borrow = borrow;
            let digit: u8;
            if x >= y {
                digit = (x - y) as u8;
                borrow = 0;
            } else {
                digit = (x + 256 - y) as u8;
                borrow = 1;
            }
            let ghost c = bytes@.subrange(0, k as int);
            bytes[k] = digit;
            proof {
                let p = pow256(k as nat);
                let a = self.bytes@.subrange(0, k as int);
                let b = rhs.bytes@.subrange(0, k as int);
                assert(self.bytes@.subrange(0, k + 1) =~= a.push(self.bytes@[k as int]));
                assert(rhs.bytes@.subrange(0, k + 1) =~= b.push(rhs.bytes@[k as int]));
                assert(bytes@.subrange(0, k + 1) =~= c.push(digit));
                lemma_le_nat_push(a, self.bytes@[k as int]);
                lemma_le_nat_push(b, rhs.bytes@[k as int]);
                lemma_le_nat_push(c, digit);
                let xa = self.bytes@[k as int] as int;
                let yb = rhs.bytes@[k as int] as int;
                assert(digit * p + yb * p + old_borrow * p == xa * p + borrow * (256 * p))
                    by (nonlinear_arith)
                    requires
                        digit + yb + old_borrow == xa + 256 * borrow,
                ;
            }
            k += 1;
        }
        proof {
            assert(bytes@.subrange(0, 32) =~= bytes@);
            assert(self.bytes@.subrange(0, 32) =~= self.bytes@);
            assert(rhs.bytes@.subrange(0, 32) =~= rhs.bytes@);
            lemma_le_nat_bound(bytes@);
        }
        U256 { bytes }
    }

    /// Whether `self` is at least `rhs`.
    pub fn ge(&self, rhs: &U256) -> (r: bool)
        ensures
            r == (self@ >= rhs@),
    {
        let mut k: usize = 32;
        while k > 0
            invariant
                k <= 32,
                forall|j: int| k <= j < 32 ==> self.bytes@[j] == rhs.bytes@[j],
            decreases k,
        {
            k -= 1;
            let x = self.bytes[k];
            let y = rhs.bytes[k];
            proof {
                let a = self.bytes@;
                let b = rhs.bytes@;
                lemma_le_nat_split(a, k as int);
                lemma_le_nat_split(b, k as int);
                lemma_le_nat_bound(a.subrange(0, k as int));
                lemma_le_nat_bound(b.subrange(0, k as int));
                let ta = a.subrange(k as int, 32);
                let tb = b.subrange(k as int, 32);
                assert(ta.drop_first() =~= tb.drop_first());
                let p = pow256(k as nat);
                if x > y {
                    assert(p * le_nat(ta) >= p * le_nat(tb) + p) by (nonlinear_arith)
                        requires
                            le_nat(ta) >= le_nat(tb) + 1,
                    ;
                } else if x < y {
                    assert(p * le_nat(tb) >= p * le_nat(ta) + p) by (nonlinear_arith)
                        requires
                            le_nat(tb) >= le_nat(ta) + 1,
                    ;
                }
            }
            if x > y {
                return true;
            }
            if x < y {
                return false;
            }
        }
        proof {
            assert(self.bytes@ =~= rhs.bytes@);
        }
        true
    }
}

} // verus!
