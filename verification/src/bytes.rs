//! Little-endian byte strings read as natural numbers.

use vstd::prelude::*;

verus! {

/// `256^k`.
pub open spec fn pow256(k: nat) -> nat
    decreases k,
{
    if k == 0 {
        1
    } else {
        256 * pow256((k - 1) as nat)
    }
}

/// The number that `s` encodes, least significant byte first.
pub open spec fn le_nat(s: Seq<u8>) -> nat
    decreases s.len(),
{
    if s.len() == 0 {
        0
    } else {
        s[0] as nat + 256 * le_nat(s.drop_first())
    }
}

/// The `len` low bytes of `n`, least significant first.
pub open spec fn le_bytes(n: nat, len: nat) -> Seq<u8>
    decreases len,
{
    if len == 0 {
        Seq::empty()
    } else {
        seq![(n % 256) as u8] + le_bytes(n / 256, (len - 1) as nat)
    }
}

/// `256^k` is positive.
pub proof fn lemma_pow256_positive(k: nat)
    ensures
        pow256(k) > 0,
    decreases k,
{
    if k > 0 {
        lemma_pow256_positive((k - 1) as nat);
    }
}

/// A string of `n` bytes encodes a number below `256^n`.
pub proof fn lemma_le_nat_bound(s: Seq<u8>)
    ensures
        le_nat(s) < pow256(s.len()),
    decreases s.len(),
{
    if s.len() > 0 {
        lemma_le_nat_bound(s.drop_first());
    }
}

/// A string of zero bytes encodes zero.
pub proof fn lemma_zeros(s: Seq<u8>)
    requires
        forall|i: int| 0 <= i < s.len() ==> s[i] == 0,
    ensures
        le_nat(s) == 0,
    decreases s.len(),
{
    if s.len() > 0 {
        lemma_zeros(s.drop_first());
    }
}

/// The number of a string is that of its first `k` bytes plus `256^k` times
/// that of the rest.
pub proof fn lemma_le_nat_split(s: Seq<u8>, k: int)
    requires
        0 <= k <= s.len(),
    ensures
        le_nat(s) == le_nat(s.subrange(0, k)) + pow256(k as nat) * le_nat(
            s.subrange(k, s.len() as int),
        ),
    decreases k,
{
    if k == 0 {
        assert(s.subrange(0, s.len() as int) =~= s);
        assert(pow256(0) * le_nat(s) == le_nat(s)) by (nonlinear_arith)
            requires
                pow256(0) == 1,
        ;
    } else {
        let t = s.drop_first();
        let hi = le_nat(s.subrange(k, s.len() as int));
        let p = pow256((k - 1) as nat);
        lemma_le_nat_split(t, k - 1);
        assert(t.subrange(0, k - 1) =~= s.subrange(0, k).drop_first());
        assert(t.subrange(k - 1, t.len() as int) =~= s.subrange(k, s.len() as int));
        assert(256 * (p * hi) == (256 * p) * hi) by (nonlinear_arith);
    }
}

/// Appending a byte adds it at the weight of its position.
pub proof fn lemma_le_nat_push(s: Seq<u8>, b: u8)
    ensures
        le_nat(s.push(b)) == le_nat(s) + b as nat * pow256(s.len()),
{
    let t = s.push(b);
    lemma_le_nat_split(t, s.len() as int);
    assert(t.subrange(0, s.len() as int) =~= s);
    let last = t.subrange(s.len() as int, t.len() as int);
    assert(le_nat(last.drop_first()) == 0);
    assert(pow256(s.len()) * (b as nat) == b as nat * pow256(s.len())) by (nonlinear_arith);
}

/// Two strings of one length that encode one number are the same string.
pub proof fn lemma_le_nat_injective(a: Seq<u8>, b: Seq<u8>)
    requires
        a.len() == b.len(),
        le_nat(a) == le_nat(b),
    ensures
        a == b,
    decreases a.len(),
{
    if a.len() > 0 {
        lemma_le_nat_injective(a.drop_first(), b.drop_first());
        assert(a =~= seq![a[0]] + a.drop_first());
    }
}

/// `n` written on `len` bytes is `len` bytes long.
pub proof fn lemma_le_bytes_len(n: nat, len: nat)
    ensures
        le_bytes(n, len).len() == len,
    decreases len,
{
    if len > 0 {
        lemma_le_bytes_len(n / 256, (len - 1) as nat);
    }
}

/// Reading back the `len` low bytes of `n` gives `n` modulo `256^len`.
pub proof fn lemma_le_nat_of_le_bytes(n: nat, len: nat)
    ensures
        le_nat(le_bytes(n, len)) == n % pow256(len),
    decreases len,
{
    if len > 0 {
        let rest = le_bytes(n / 256, (len - 1) as nat);
        let p = pow256((len - 1) as nat);
        lemma_le_nat_of_le_bytes(n / 256, (len - 1) as nat);
        assert(le_bytes(n, len).drop_first() =~= rest);
        lemma_pow256_positive((len - 1) as nat);
        // n % (256 * p) == n % 256 + 256 * ((n / 256) % p)
        vstd::arithmetic::div_mod::lemma_mod_breakdown(n as int, 256, p as int);
    }
}

/// Writing the number of a string on as many bytes gives the string back.
pub proof fn lemma_le_bytes_of_le_nat(s: Seq<u8>)
    ensures
        le_bytes(le_nat(s), s.len()) == s,
{
    let t = le_bytes(le_nat(s), s.len());
    lemma_le_bytes_len(le_nat(s), s.len());
    lemma_le_nat_of_le_bytes(le_nat(s), s.len());
    lemma_le_nat_bound(s);
    lemma_pow256_positive(s.len());
    vstd::arithmetic::div_mod::lemma_small_mod(le_nat(s), pow256(s.len()));
    lemma_le_nat_injective(t, s);
}

/// `256^31` is `2^248`.
pub proof fn lemma_pow256_31()
    ensures
        pow256(31) == 0x100000000000000000000000000000000000000000000000000000000000000nat,
{
    reveal_with_fuel(pow256, 32);
}

/// In a string of 32 bytes the last byte weighs `2^248`, and the 31 bytes
/// before it encode a number below that.
pub proof fn lemma_le_nat_top_byte(s: Seq<u8>)
    requires
        s.len() == 32,
    ensures
        le_nat(s) == le_nat(s.subrange(0, 31)) + s[31] as nat * pow256(31),
        le_nat(s.subrange(0, 31)) < pow256(31),
{
    lemma_le_nat_split(s, 31);
    lemma_le_nat_bound(s.subrange(0, 31));
    let last = s.subrange(31, 32);
    assert(le_nat(last.drop_first()) == 0);
    assert(pow256(31) * (s[31] as nat) == s[31] as nat * pow256(31)) by (nonlinear_arith);
}

/// Appends the bytes of `src` to `dst`.
pub fn append(dst: &mut Vec<u8>, src: &[u8])
    ensures
        final(dst)@ == old(dst)@ + src@,
{
    let mut i: usize = 0;
    while i < src.len()
        invariant
            i <= src.len(),
            dst@ == old(dst)@ + src@.subrange(0, i as int),
        decreases src.len() - i,
    {
        dst.push(src[i]);
        proof {
            assert(src@.subrange(0, i + 1) =~= src@.subrange(0, i as int).push(src@[i as int]));
        }
        i += 1;
    }
    proof {
        assert(src@.subrange(0, src.len() as int) =~= src@);
    }
}

/// The three byte strings one after the other.
pub fn concat3(a: &[u8], b: &[u8], c: &[u8]) -> (all: Vec<u8>)
    ensures
        all@ == a@ + b@ + c@,
{
    let mut all: Vec<u8> = Vec::new();
    append(&mut all, a);
    append(&mut all, b);
    append(&mut all, c);
    all
}

/// Whether two byte arrays hold the same bytes.
pub fn bytes_eq(a: &[u8; 32], b: &[u8; 32]) -> (same: bool)
    ensures
        same == (a@ == b@),
{
    let mut i: usize = 0;
    while i < 32
        invariant
            i <= 32,
            forall|j: int| 0 <= j < i ==> a@[j] == b@[j],
        decreases 32 - i,
    {
        if a[i] != b[i] {
            return false;
        }
        i += 1;
    }
    assert(a@ =~= b@);
    true
}

} // verus!
