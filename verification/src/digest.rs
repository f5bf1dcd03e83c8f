//! 32-byte digests and their split into two 128-bit halves.

use vstd::prelude::*;
use crate::bytes::{be_to_u128, be_value, le_bytes, lemma_le_bytes_of_reversed};

verus! {

/// A hash output of 32 bytes.
#[derive(Clone, Copy, Debug, PartialEq, Eq)]
pub struct Digest {
    /// The bytes, in the order the hash produced them.
    pub bytes: [u8; 32],
}

impl View for Digest {
    type V = Seq<u8>;

    open spec fn view(&self) -> Seq<u8> {
        self.bytes@
    }
}

/// Byte `k` of `w`, counting from the least significant one.
pub open spec fn word_byte(w: u32, k: int) -> u8 {
    if k == 0 {
        (w % 256) as u8
    } else if k == 1 {
        (w / 0x100 % 256) as u8
    } else if k == 2 {
        (w / 0x1_0000 % 256) as u8
    } else {
        (w / 0x100_0000 % 256) as u8
    }
}

/// The bytes of `words`, four per word, each word least significant byte
/// first.
pub open spec fn words_le_bytes(words: Seq<u32>) -> Seq<u8> {
    Seq::new(4 * words.len(), |i: int| word_byte(words[i / 4], i % 4))
}

/// The high half of a digest: its bytes are reversed and the second 16 of
/// them are read as a big-endian number.
pub open spec fn digest_high(d: Seq<u8>) -> nat {
    be_value(d.reverse().subrange(16, 32))
}

/// The low half of a digest: its bytes are reversed and the first 16 of them
/// are read as a big-endian number.
pub open spec fn digest_low(d: Seq<u8>) -> nat {
    be_value(d.reverse().subrange(0, 16))
}

impl Digest {
    /// The digest of 32 zero bytes.
    pub fn zero() -> (r: Digest)
        ensures
            r@ == Seq::new(32, |i: int| 0u8),
    {
        let r = Digest { bytes: [0u8; 32] };
        assert(r@ =~= Seq::new(32, |i: int| 0u8));
        r
    }

    /// Wraps eight 32-bit words as a digest: each word contributes four bytes,
    /// least significant first.
    pub fn new(words: [u32; 8]) -> (r: Digest)
        ensures
            r@ == words_le_bytes(words@),
    {
        let mut bytes: [u8; 32] = [0u8; 32];
        let mut k: usize = 0;
        while k < 8
            invariant
                k <= 8,
                forall|j: int| 0 <= j < 4 * k ==> bytes@[j] == word_byte(words@[j / 4], j % 4),
            decreases 8 - k,
        {
            let w: u32 = words[k];
            bytes[4 * k] = (w % 256) as u8;
            bytes[4 * k + 1] = (w / 0x100 % 256) as u8;
            bytes[4 * k + 2] = (w / 0x1_0000 % 256) as u8;
            bytes[4 * k + 3] = (w / 0x100_0000 % 256) as u8;
            k = k + 1;
        }
        let r = Digest { bytes };
        assert(r@ =~= words_le_bytes(words@));
        r
    }

    /// The 32 bytes of the digest.
    pub fn as_bytes(&self) -> (r: &[u8; 32])
        ensures
            r@ == self@,
    {
        &self.bytes
    }
}

/// Splits a digest into two 128-bit numbers `(high, low)`. The 32 bytes are
/// reversed; the first 16 reversed bytes, read big-endian, are `low`, the
/// second 16 are `high`.
pub fn split_digest_custom(d: Digest) -> (r: (u128, u128))
    ensures
        r.0 == digest_high(d@),
        r.1 == digest_low(d@),
{
    let mut reversed: [u8; 32] = [0u8; 32];
    let mut k: usize = 0;
    while k < 32
        invariant
            k <= 32,
            forall|j: int| 0 <= j < k ==> reversed@[j] == d.bytes@[31 - j],
        decreases 32 - k,
    {
        reversed[k] = d.bytes[31 - k];
        k = k + 1;
    }
    assert(reversed@ =~= d@.reverse());
    let low = be_to_u128(reversed.as_slice(), 0, 16);
    let high = be_to_u128(reversed.as_slice(), 16, 32);
    (high, low)
}

/// Splitting is a function of the digest's bytes: two digests with the same
/// bytes split into the same halves.
pub proof fn lemma_split_deterministic(d1: Digest, d2: Digest)
    requires
        d1@ == d2@,
    ensures
        digest_high(d1@) == digest_high(d2@),
        digest_low(d1@) == digest_low(d2@),
{
}

/// Written least significant byte first, the high half of a digest is the
/// digest's first 16 bytes and the low half its last 16 bytes.
pub proof fn lemma_split_halves(d: Seq<u8>)
    requires
        d.len() == 32,
    ensures
        le_bytes(digest_high(d), 16) == d.subrange(0, 16),
        le_bytes(digest_low(d), 16) == d.subrange(16, 32),
{
    assert(d.reverse().subrange(16, 32) =~= d.subrange(0, 16).reverse());
    assert(d.reverse().subrange(0, 16) =~= d.subrange(16, 32).reverse());
    lemma_le_bytes_of_reversed(d.subrange(0, 16));
    lemma_le_bytes_of_reversed(d.subrange(16, 32));
}

} // verus!
