//! The wire form of curve points: sign-bit compression and byte reversal.

use vstd::prelude::*;

verus! {

/// `x` with the sign of `y` folded in: when the last byte of `y` is odd, the
/// high bit of the first byte of `x` is set; otherwise `x` is unchanged.
pub open spec fn with_sign_bit(x: Seq<u8>, y: Seq<u8>) -> Seq<u8> {
    if y.last() % 2 == 1 {
        x.update(0, x[0] | 0x80u8)
    } else {
        x
    }
}

/// The compressed form of a G1 point: `x` with the sign bit of `y`, reversed.
pub open spec fn encode_g1(x: Seq<u8>, y: Seq<u8>) -> Seq<u8> {
    with_sign_bit(x, y).reverse()
}

/// The compressed form of a G2 point: `x1` reversed, followed by `x0` with the
/// sign bit of `y1`, reversed.
pub open spec fn encode_g2(x0: Seq<u8>, x1: Seq<u8>, y1: Seq<u8>) -> Seq<u8> {
    x1.reverse() + with_sign_bit(x0, y1).reverse()
}

/// Whether `g1` holds the two 32-byte coordinates of a G1 point.
pub open spec fn is_g1(g1: Seq<Vec<u8>>) -> bool {
    g1.len() == 2 && g1[0]@.len() == 32 && g1[1]@.len() == 32
}

/// Whether `g2` holds the two coordinate pairs of a G2 point, 32 bytes each.
pub open spec fn is_g2(g2: Seq<Vec<Vec<u8>>>) -> bool {
    g2.len() == 2 && is_g1(g2[0]@) && is_g1(g2[1]@)
}

/// Appends the bytes of `src` to `out` in reverse order.
pub fn push_reversed(out: &mut Vec<u8>, src: &Vec<u8>)
    ensures
        final(out)@ == old(out)@ + src@.reverse(),
{
    let n: usize = src.len();
    let mut k: usize = 0;
    while k < n
        invariant
            k <= n,
            n == src@.len(),
            out@ == old(out)@ + src@.reverse().subrange(0, k as int),
        decreases n - k,
    {
        out.push(src[n - 1 - k]);
        k = k + 1;
        assert(out@ =~= old(out)@ + src@.reverse().subrange(0, k as int));
    }
    assert(src@.reverse().subrange(0, n as int) =~= src@.reverse());
}

/// Appends to `out` the bytes of `x` in reverse order, after setting the high
/// bit of its first byte when the last byte of `y` is odd.
fn push_compressed(out: &mut Vec<u8>, x: &Vec<u8>, y: &Vec<u8>)
    requires
        x@.len() == 32,
        y@.len() == 32,
    ensures
        final(out)@ == old(out)@ + with_sign_bit(x@, y@).reverse(),
{
    let odd: bool = y[31] % 2 == 1;
    let ghost signed = with_sign_bit(x@, y@);
    let mut k: usize = 0;
    while k < 32
        invariant
            k <= 32,
            x@.len() == 32,
            signed == with_sign_bit(x@, y@),
            odd == (y@.last() % 2 == 1),
            out@ == old(out)@ + signed.reverse().subrange(0, k as int),
        decreases 32 - k,
    {
        let b: u8 = x[31 - k];
        if k == 31 && odd {
            out.push(b | 0x80u8);
        } else {
            out.push(b);
        }
        k = k + 1;
        assert(out@ =~= old(out)@ + signed.reverse().subrange(0, k as int));
    }
    assert(signed.reverse().subrange(0, 32) =~= signed.reverse());
}

/// Encodes a G1 point `[x, y]` of two 32-byte big-endian coordinates: the
/// sign of `y` goes into the high bit of the first byte of `x`, and the 32
/// bytes of `x` are reversed.
pub fn g1_to_c_bytes(g1: Vec<Vec<u8>>) -> (r: Vec<u8>)
    requires
        is_g1(g1@),
    ensures
        r@ == encode_g1(g1@[0]@, g1@[1]@),
        r@.len() == 32,
{
    let mut out: Vec<u8> = Vec::new();
    push_compressed(&mut out, &g1[0], &g1[1]);
    assert(out@ =~= encode_g1(g1@[0]@, g1@[1]@));
    out
}

/// Encodes a G2 point `[[x0, x1], [y0, y1]]` of four 32-byte big-endian
/// coordinates as 64 bytes: `x1` reversed, then `x0` reversed with the sign of
/// `y1` in the high bit of what was its first byte.
pub fn g2_to_c_bytes(g2: Vec<Vec<Vec<u8>>>) -> (r: Vec<u8>)
    requires
        is_g2(g2@),
    ensures
        r@ == encode_g2(g2@[0]@[0]@, g2@[0]@[1]@, g2@[1]@[1]@),
        r@.len() == 64,
{
    let mut out: Vec<u8> = Vec::new();
    push_reversed(&mut out, &g2[0][1]);
    push_compressed(&mut out, &g2[0][0], &g2[1][1]);
    assert(out@ =~= encode_g2(g2@[0]@[0]@, g2@[0]@[1]@, g2@[1]@[1]@));
    out
}

/// The bytes from which a G1 point `[x, y]` is read back: `x` reversed, then
/// `y` reversed.
pub fn g1_uncompressed_bytes(elem: &Vec<Vec<u8>>) -> (r: Vec<u8>)
    requires
        elem@.len() >= 2,
    ensures
        r@ == elem@[0]@.reverse() + elem@[1]@.reverse(),
{
    let mut out: Vec<u8> = Vec::new();
    push_reversed(&mut out, &elem[0]);
    push_reversed(&mut out, &elem[1]);
    out
}

/// The bytes from which a G2 point `[[x0, x1], [y0, y1]]` is read back: `x1`,
/// `x0`, `y1`, `y0`, each reversed.
pub fn g2_uncompressed_bytes(elem: &Vec<Vec<Vec<u8>>>) -> (r: Vec<u8>)
    requires
        elem@.len() >= 2,
        elem@[0]@.len() >= 2,
        elem@[1]@.len() >= 2,
    ensures
        r@ == elem@[0]@[1]@.reverse() + elem@[0]@[0]@.reverse() + elem@[1]@[1]@.reverse()
            + elem@[1]@[0]@.reverse(),
{
    let mut out: Vec<u8> = Vec::new();
    push_reversed(&mut out, &elem[0][1]);
    push_reversed(&mut out, &elem[0][0]);
    push_reversed(&mut out, &elem[1][1]);
    push_reversed(&mut out, &elem[1][0]);
    out
}

/// For 32-byte coordinates the encoding of a G1 point is `x` reversed, except
/// for its last byte when `y` is odd. With the last byte of `y` even the
/// encoding is just `x` reversed, so its last byte is the first byte of `x`.
/// With the last byte of `y` odd, bit 7 of the encoding's last byte is set
/// and its other seven bits are those of the first byte of `x`.
pub proof fn lemma_encode_g1_sign_bit(x: Seq<u8>, y: Seq<u8>)
    requires
        x.len() == 32,
        y.len() == 32,
    ensures
        encode_g1(x, y).len() == 32,
        forall|i: int| 0 <= i < 31 ==> encode_g1(x, y)[i] == x[31 - i],
        y.last() % 2 == 0 ==> encode_g1(x, y) == x.reverse() && encode_g1(x, y)[31] == x[0],
        y.last() % 2 == 1 ==> encode_g1(x, y)[31] & 0x80 == 0x80 && encode_g1(x, y)[31] & 0x7f
            == x[0] & 0x7f,
{
    let b = x[0];
    assert((b | 0x80u8) & 0x80 == 0x80 && (b | 0x80u8) & 0x7f == b & 0x7f) by (bit_vector);
}

/// A point whose coordinates are all zero bytes is encoded as zero bytes.
pub proof fn lemma_encode_zero(x0: Seq<u8>, x1: Seq<u8>, y: Seq<u8>)
    requires
        x0 == Seq::new(32, |i: int| 0u8),
        x1 == Seq::new(32, |i: int| 0u8),
        y == Seq::new(32, |i: int| 0u8),
    ensures
        encode_g1(x0, y) == Seq::new(32, |i: int| 0u8),
        encode_g2(x0, x1, y) == Seq::new(64, |i: int| 0u8),
{
    assert(encode_g1(x0, y) =~= Seq::new(32, |i: int| 0u8));
    assert(encode_g2(x0, x1, y) =~= Seq::new(64, |i: int| 0u8));
}

} // verus!
