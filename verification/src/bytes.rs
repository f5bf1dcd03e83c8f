//! Numbers as byte strings: big-endian values, little-endian bytes and
//! fixed 32-byte blocks.

use vstd::prelude::*;
use vstd::arithmetic::div_mod::lemma_fundamental_div_mod_converse;
use vstd::arithmetic::div_mod::lemma_small_mod;

verus! {

/// 256 to the power `k`.
pub open spec fn pow256(k: nat) -> nat
    decreases k,
{
    if k == 0 {
        1
    } else {
        256 * pow256((k - 1) as nat)
    }
}

/// The number that `s` denotes when read with the most significant byte first.
pub open spec fn be_value(s: Seq<u8>) -> nat
    decreases s.len(),
{
    if s.len() == 0 {
        0
    } else {
        be_value(s.drop_last()) * 256 + s.last() as nat
    }
}

/// The bytes of `n`, most significant first, without leading zeros; empty for
/// zero.
pub open spec fn be_digits(n: nat) -> Seq<u8>
    decreases n,
{
    if n == 0 {
        Seq::empty()
    } else {
        be_digits(n / 256).push((n % 256) as u8)
    }
}

/// The shortest big-endian byte string of `n` that is not empty: one zero byte
/// for zero, no leading zero otherwise.
pub open spec fn minimal_be_bytes(n: nat) -> Seq<u8> {
    if n == 0 {
        seq![0u8]
    } else {
        be_digits(n)
    }
}

/// `input` brought to exactly 32 bytes: padded with zero bytes on the left
/// when shorter, cut down to its last 32 bytes when longer.
pub open spec fn fixed_32(input: Seq<u8>) -> Seq<u8> {
    if input.len() >= 32 {
        input.subrange(input.len() - 32, input.len() as int)
    } else {
        Seq::new((32 - input.len()) as nat, |i: int| 0u8) + input
    }
}

/// The `n` low bytes of `x`, least significant first.
pub open spec fn le_bytes(x: nat, n: nat) -> Seq<u8>
    decreases n,
{
    if n == 0 {
        Seq::empty()
    } else {
        seq![(x % 256) as u8] + le_bytes(x / 256, (n - 1) as nat)
    }
}

/// Brings `input` to exactly 32 bytes: shorter inputs are padded with zero
/// bytes on the left, longer ones keep their last 32 bytes only.
pub fn to_fixed_array(input: Vec<u8>) -> (r: [u8; 32])
    ensures
        r@ == fixed_32(input@),
        be_value(r@) == be_value(input@) % pow256(32),
{
    let mut r: [u8; 32] = [0u8; 32];
    let n: usize = input.len();
    let mut k: usize = 0;
    if n >= 32 {
        while k < 32
            invariant
                k <= 32,
                n == input@.len(),
                n >= 32,
                forall|j: int| 0 <= j < k ==> r@[j] == input@[n - 32 + j],
            decreases 32 - k,
        {
            r[k] = input[n - 32 + k];
            k = k + 1;
        }
    } else {
        while k < n
            invariant
                k <= n,
                n == input@.len(),
                n < 32,
                forall|j: int| 0 <= j < 32 - n ==> r@[j] == 0,
                forall|j: int| 0 <= j < k ==> r@[32 - n + j] == input@[j],
            decreases n - k,
        {
            r[32 - n + k] = input[k];
            k = k + 1;
        }
    }
    proof {
        assert(r@ =~= fixed_32(input@));
        lemma_fixed_32_value(input@);
    }
    r
}

/// Reads `bytes[lo..hi]`, at most 16 bytes, as a big-endian number.
pub fn be_to_u128(bytes: &[u8], lo: usize, hi: usize) -> (r: u128)
    requires
        lo <= hi <= bytes@.len(),
        hi - lo <= 16,
    ensures
        r == be_value(bytes@.subrange(lo as int, hi as int)),
{
    let mut acc: u128 = 0;
    let mut k: usize = lo;
    while k < hi
        invariant
            lo <= k <= hi <= bytes@.len(),
            hi - lo <= 16,
            acc == be_value(bytes@.subrange(lo as int, k as int)),
        decreases hi - k,
    {
        proof {
            let cur = bytes@.subrange(lo as int, k as int);
            let next = bytes@.subrange(lo as int, k + 1);
            assert(next.drop_last() =~= cur);
            lemma_be_value_bound(next);
            lemma_pow256_monotonic(next.len(), 16);
            lemma_pow256_16();
        }
        acc = acc * 256 + bytes[k] as u128;
        k = k + 1;
    }
    acc
}

/// The `n` low bytes of `x`, least significant first.
pub fn le_bytes_of(x: u128, n: usize) -> (r: Vec<u8>)
    ensures
        r@ == le_bytes(x as nat, n as nat),
{
    let mut r: Vec<u8> = Vec::new();
    let mut rest: u128 = x;
    let mut k: usize = 0;
    while k < n
        invariant
            k <= n,
            r@.len() == k,
            le_bytes(x as nat, n as nat) == r@ + le_bytes(rest as nat, (n - k) as nat),
        decreases n - k,
    {
        r.push((rest % 256) as u8);
        rest = rest / 256;
        k = k + 1;
    }
    r
}

/// A big-endian byte string denotes a number below 256 to the power of its
/// length.
pub proof fn lemma_be_value_bound(s: Seq<u8>)
    ensures
        be_value(s) < pow256(s.len()),
    decreases s.len(),
{
    if s.len() > 0 {
        lemma_be_value_bound(s.drop_last());
    }
}

/// The value of a concatenation: the left part is shifted by the length of
/// the right part.
pub proof fn lemma_be_value_concat(a: Seq<u8>, b: Seq<u8>)
    ensures
        be_value(a + b) == be_value(a) * pow256(b.len()) + be_value(b),
    decreases b.len(),
{
    if b.len() == 0 {
        assert(a + b =~= a);
        assert(be_value(a) * pow256(0) == be_value(a)) by (nonlinear_arith)
            requires
                pow256(0) == 1,
        ;
    } else {
        assert((a + b).drop_last() =~= a + b.drop_last());
        lemma_be_value_concat(a, b.drop_last());
        let x = be_value(a);
        let p = pow256(b.drop_last().len());
        assert(pow256(b.len()) == 256 * p);
        assert((a + b).last() == b.last());
        assert(be_value(a + b) == (x * p + be_value(b.drop_last())) * 256 + b.last() as nat);
        assert((x * p + be_value(b.drop_last())) * 256 == x * (256 * p) + be_value(b.drop_last())
            * 256) by (nonlinear_arith);
    }
}

/// A string of zero bytes denotes zero.
pub proof fn lemma_be_value_zeros(n: nat)
    ensures
        be_value(Seq::new(n, |i: int| 0u8)) == 0,
    decreases n,
{
    if n > 0 {
        assert(Seq::new(n, |i: int| 0u8).drop_last() =~= Seq::new((n - 1) as nat, |i: int| 0u8));
        lemma_be_value_zeros((n - 1) as nat);
    }
}

/// The bytes of `n` denote `n`.
pub proof fn lemma_be_digits_value(n: nat)
    ensures
        be_value(be_digits(n)) == n,
        be_value(minimal_be_bytes(n)) == n,
    decreases n,
{
    if n > 0 {
        let d = be_digits(n);
        assert(d.drop_last() =~= be_digits(n / 256));
        assert(d.last() == (n % 256) as u8);
        lemma_be_digits_value(n / 256);
        assert(be_value(d) == be_value(d.drop_last()) * 256 + d.last() as nat);
    } else {
        let z = seq![0u8];
        assert(z.drop_last() =~= Seq::<u8>::empty());
        assert(be_value(z.drop_last()) == 0);
        assert(be_value(z) == be_value(z.drop_last()) * 256 + z.last() as nat);
    }
}

/// Bringing a byte string to 32 bytes keeps its value modulo 2^256.
pub proof fn lemma_fixed_32_value(s: Seq<u8>)
    ensures
        fixed_32(s).len() == 32,
        be_value(fixed_32(s)) == be_value(s) % pow256(32),
{
    lemma_be_value_bound(fixed_32(s));
    if s.len() >= 32 {
        let hi = s.subrange(0, s.len() - 32);
        let lo = fixed_32(s);
        assert(hi + lo =~= s);
        lemma_be_value_concat(hi, lo);
        lemma_fundamental_div_mod_converse(
            be_value(s) as int,
            pow256(32) as int,
            be_value(hi) as int,
            be_value(lo) as int,
        );
    } else {
        let zeros = Seq::new((32 - s.len()) as nat, |i: int| 0u8);
        lemma_be_value_zeros((32 - s.len()) as nat);
        lemma_be_value_concat(zeros, s);
        assert(0 * pow256(s.len()) == 0);
        lemma_small_mod(be_value(s), pow256(32));
    }
}

/// Reading bytes backwards as a big-endian number and writing that number
/// least significant byte first gives the bytes again.
pub proof fn lemma_le_bytes_of_reversed(s: Seq<u8>)
    ensures
        le_bytes(be_value(s.reverse()), s.len()) == s,
    decreases s.len(),
{
    if s.len() > 0 {
        let rest = s.drop_first();
        let r = s.reverse();
        assert(r.drop_last() =~= rest.reverse());
        assert(r.last() == s[0]);
        lemma_le_bytes_of_reversed(rest);
        let x = be_value(r);
        assert(x == be_value(rest.reverse()) * 256 + s[0] as nat);
        assert(x % 256 == s[0] as nat);
        assert(x / 256 == be_value(rest.reverse()));
        assert(le_bytes(x, s.len()) =~= s);
    } else {
        assert(s.reverse() =~= Seq::<u8>::empty());
        assert(le_bytes(be_value(s.reverse()), 0) =~= s);
    }
}

/// 256 to the power 16 is 2 to the power 128.
pub proof fn lemma_pow256_16()
    ensures
        pow256(16) == 0x1_0000_0000_0000_0000_0000_0000_0000_0000,
{
    reveal_with_fuel(pow256, 17);
}

/// `pow256` grows with its argument.
pub proof fn lemma_pow256_monotonic(a: nat, b: nat)
    requires
        a <= b,
    ensures
        0 < pow256(a) <= pow256(b),
    decreases b,
{
    if b > 0 {
        lemma_pow256_monotonic(0, (b - 1) as nat);
        if a < b {
            lemma_pow256_monotonic(a, (b - 1) as nat);
        }
    }
}

} // verus!
