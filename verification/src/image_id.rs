//! An image identifier of eight 32-bit words as hexadecimal text.

use vstd::prelude::*;
use vstd::string::*;
use crate::error::Error;

verus! {

/// The lower-case hexadecimal digit for `d`, for `d` below sixteen.
pub open spec fn hex_digit_char(d: nat) -> char {
    if d < 10 {
        ((d + 48) as u8) as char
    } else {
        ((d + 87) as u8) as char
    }
}

/// The eight lower-case hexadecimal digits of `w`, most significant first.
pub open spec fn word_hex(w: u32) -> Seq<char> {
    seq![
        hex_digit_char((w / 0x1000_0000 % 16) as nat),
        hex_digit_char((w / 0x100_0000 % 16) as nat),
        hex_digit_char((w / 0x10_0000 % 16) as nat),
        hex_digit_char((w / 0x1_0000 % 16) as nat),
        hex_digit_char((w / 0x1000 % 16) as nat),
        hex_digit_char((w / 0x100 % 16) as nat),
        hex_digit_char((w / 0x10 % 16) as nat),
        hex_digit_char((w % 16) as nat),
    ]
}

/// The hexadecimal digits of all the words, one word after the other.
pub open spec fn words_hex(words: Seq<u32>) -> Seq<char>
    decreases words.len(),
{
    if words.len() == 0 {
        Seq::empty()
    } else {
        words_hex(words.drop_last()) + word_hex(words.last())
    }
}

/// Whether `c` is a hexadecimal digit in either case.
pub open spec fn is_hex_digit(c: char) -> bool {
    '0' <= c <= '9' || 'a' <= c <= 'f' || 'A' <= c <= 'F'
}

/// The number that the hexadecimal digit `c` stands for.
pub open spec fn hex_digit_value(c: char) -> nat {
    if '0' <= c <= '9' {
        (c as u32 - 48) as nat
    } else if 'a' <= c <= 'f' {
        (c as u32 - 87) as nat
    } else {
        (c as u32 - 55) as nat
    }
}

/// Whether `s` is hexadecimal text that denotes whole bytes: an even number
/// of hexadecimal digits.
pub open spec fn is_hex_text(s: Seq<char>) -> bool {
    s.len() % 2 == 0 && forall|i: int| 0 <= i < s.len() ==> is_hex_digit(#[trigger] s[i])
}

/// The bytes that hexadecimal text denotes: two digits per byte, the first
/// one worth sixteen times the second.
pub open spec fn hex_bytes(s: Seq<char>) -> Seq<u8> {
    Seq::new(
        s.len() / 2,
        |i: int| (16 * hex_digit_value(s[2 * i]) + hex_digit_value(s[2 * i + 1])) as u8,
    )
}

/// The 32-bit word in the four bytes of `b` from index `4 * i` on, most
/// significant byte first.
pub open spec fn be_word(b: Seq<u8>, i: int) -> u32 {
    (b[4 * i] as int * 0x100_0000 + b[4 * i + 1] as int * 0x1_0000 + b[4 * i + 2] as int * 0x100
        + b[4 * i + 3] as int) as u32
}

/// The image identifier that bytes denote: whole words, at most eight; words
/// that are missing are zero.
pub open spec fn image_id_of_bytes(b: Seq<u8>) -> Option<Seq<u32>> {
    if b.len() % 4 == 0 && b.len() <= 32 {
        Some(
            Seq::new(
                8,
                |i: int|
                    if 4 * i < b.len() {
                        be_word(b, i)
                    } else {
                        0u32
                    },
            ),
        )
    } else {
        None
    }
}

/// The image identifier that hexadecimal text denotes.
pub open spec fn image_id_of_hex(s: Seq<char>) -> Option<Seq<u32>> {
    if is_hex_text(s) {
        image_id_of_bytes(hex_bytes(s))
    } else {
        None
    }
}

/// The text of one lower-case hexadecimal digit.
fn hex_digit_str(d: u32) -> (r: &'static str)
    requires
        d < 16,
    ensures
        r@ == seq![hex_digit_char(d as nat)],
{
    proof {
        reveal_strlit("0");
        reveal_strlit("1");
        reveal_strlit("2");
        reveal_strlit("3");
        reveal_strlit("4");
        reveal_strlit("5");
        reveal_strlit("6");
        reveal_strlit("7");
        reveal_strlit("8");
        reveal_strlit("9");
        reveal_strlit("a");
        reveal_strlit("b");
        reveal_strlit("c");
        reveal_strlit("d");
        reveal_strlit("e");
        reveal_strlit("f");
    }
    let r = if d == 0 {
        "0"
    } else if d == 1 {
        "1"
    } else if d == 2 {
        "2"
    } else if d == 3 {
        "3"
    } else if d == 4 {
        "4"
    } else if d == 5 {
        "5"
    } else if d == 6 {
        "6"
    } else if d == 7 {
        "7"
    } else if d == 8 {
        "8"
    } else if d == 9 {
        "9"
    } else if d == 10 {
        "a"
    } else if d == 11 {
        "b"
    } else if d == 12 {
        "c"
    } else if d == 13 {
        "d"
    } else if d == 14 {
        "e"
    } else {
        "f"
    };
    assert(r@ =~= seq![hex_digit_char(d as nat)]);
    r
}

/// Writes an image identifier as 64 lower-case hexadecimal digits: eight per
/// word, most significant digit first, the words in their order.
pub fn serialize_image_id(image_id: [u32; 8]) -> (r: String)
    ensures
        r@ == words_hex(image_id@),
{
    let mut out = String::new();
    let mut k: usize = 0;
    while k < 8
        invariant
            k <= 8,
            out@ == words_hex(image_id@.subrange(0, k as int)),
        decreases 8 - k,
    {
        let w: u32 = image_id[k];
        let ghost before = out@;
        out.append(hex_digit_str(w / 0x1000_0000 % 16));
        out.append(hex_digit_str(w / 0x100_0000 % 16));
        out.append(hex_digit_str(w / 0x10_0000 % 16));
        out.append(hex_digit_str(w / 0x1_0000 % 16));
        out.append(hex_digit_str(w / 0x1000 % 16));
        out.append(hex_digit_str(w / 0x100 % 16));
        out.append(hex_digit_str(w / 0x10 % 16));
        out.append(hex_digit_str(w % 16));
        proof {
            let next = image_id@.subrange(0, k + 1);
            assert(next.drop_last() =~= image_id@.subrange(0, k as int));
            assert(out@ =~= before + word_hex(w));
        }
        k = k + 1;
    }
    assert(image_id@.subrange(0, 8) =~= image_id@);
    out
}

/// Decodes `text` with `hex::decode`, which accepts an even number of
/// hexadecimal digits in either case and gives one byte per pair of digits,
/// the first digit of a pair being the high one.
#[verifier::external_body]
fn hex_decode(text: &str) -> (r: Option<Vec<u8>>)
    ensures
        r is Some <==> is_hex_text(text@),
        r matches Some(bytes) ==> bytes@ == hex_bytes(text@),
{
    hex::decode(text).ok()
}

/// Builds an image identifier from bytes: four bytes per word, most
/// significant first. Bytes that do not make whole words, or more than 32
/// bytes, are rejected; words that are missing are zero.
pub fn image_id_from_bytes(bytes: &Vec<u8>) -> (r: Result<[u32; 8], Error>)
    ensures
        match r {
            Ok(id) => image_id_of_bytes(bytes@) == Some(id@),
            Err(e) => e == Error::MalformedImageId && image_id_of_bytes(bytes@) is None,
        },
{
    let n: usize = bytes.len();
    if n % 4 != 0 || n > 32 {
        return Err(Error::MalformedImageId);
    }
    let mut id: [u32; 8] = [0u32; 8];
    let mut k: usize = 0;
    while 4 * k < n
        invariant
            4 * k <= n <= 32,
            n % 4 == 0,
            n == bytes@.len(),
            forall|j: int| 0 <= j < k ==> id@[j] == be_word(bytes@, j),
            forall|j: int| k <= j < 8 ==> id@[j] == 0,
        decreases n - 4 * k,
    {
        let b0: u32 = bytes[4 * k] as u32;
        let b1: u32 = bytes[4 * k + 1] as u32;
        let b2: u32 = bytes[4 * k + 2] as u32;
        let b3: u32 = bytes[4 * k + 3] as u32;
        id[k] = b0 * 0x100_0000 + b1 * 0x1_0000 + b2 * 0x100 + b3;
        k = k + 1;
    }
    assert(image_id_of_bytes(bytes@)->0 =~= id@);
    Ok(id)
}

/// Reads an image identifier from hexadecimal text: eight digits per word,
/// most significant first, at most eight words. Words that the text lacks are
/// zero.
pub fn deserialize_image_id(hex_str: &str) -> (r: Result<[u32; 8], Error>)
    ensures
        match r {
            Ok(id) => image_id_of_hex(hex_str@) == Some(id@),
            Err(e) => e == Error::MalformedImageId && image_id_of_hex(hex_str@) is None,
        },
{
    match hex_decode(hex_str) {
        Some(bytes) => image_id_from_bytes(&bytes),
        None => Err(Error::MalformedImageId),
    }
}

/// The hexadecimal digit for a number below sixteen is a hexadecimal digit
/// with that value.
pub proof fn lemma_hex_digit(d: nat)
    requires
        d < 16,
    ensures
        is_hex_digit(hex_digit_char(d)),
        hex_digit_value(hex_digit_char(d)) == d,
{
    if d < 10 {
        let b = (d + 48) as u8;
        assert((b as char) as u32 == b as u32);
    } else {
        let b = (d + 87) as u8;
        assert((b as char) as u32 == b as u32);
    }
}

/// The digits of a list of words: eight per word, and digit `j` of word `k`
/// stands at index `8 * k + j`.
pub proof fn lemma_words_hex_index(words: Seq<u32>, k: int, j: int)
    requires
        0 <= k < words.len(),
        0 <= j < 8,
    ensures
        words_hex(words).len() == 8 * words.len(),
        words_hex(words)[8 * k + j] == word_hex(words[k])[j],
    decreases words.len(),
{
    lemma_words_hex_len(words.drop_last());
    if k < words.len() - 1 {
        lemma_words_hex_index(words.drop_last(), k, j);
    }
}

/// A list of words has eight digits per word.
pub proof fn lemma_words_hex_len(words: Seq<u32>)
    ensures
        words_hex(words).len() == 8 * words.len(),
    decreases words.len(),
{
    if words.len() > 0 {
        lemma_words_hex_len(words.drop_last());
    }
}

/// The four bytes that the eight digits of a word denote make up the word.
proof fn lemma_word_of_digits(w: u32)
    by (bit_vector)
    ensures
        (16 * (w / 0x1000_0000 % 16) + w / 0x100_0000 % 16) * 0x100_0000 + (16 * (w / 0x10_0000
            % 16) + w / 0x1_0000 % 16) * 0x1_0000 + (16 * (w / 0x1000 % 16) + w / 0x100 % 16)
            * 0x100 + (16 * (w / 0x10 % 16) + w % 16) == w,
        16 * (w / 0x1000_0000 % 16) + w / 0x100_0000 % 16 < 256,
        16 * (w / 0x10_0000 % 16) + w / 0x1_0000 % 16 < 256,
        16 * (w / 0x1000 % 16) + w / 0x100 % 16 < 256,
        16 * (w / 0x10 % 16) + w % 16 < 256,
{
}

/// Reading back the text that `serialize_image_id` writes for eight words
/// gives the eight words.
pub proof fn lemma_image_id_round_trip(id: Seq<u32>)
    requires
        id.len() == 8,
    ensures
        image_id_of_hex(words_hex(id)) == Some(id),
{
    let s = words_hex(id);
    lemma_words_hex_len(id);
    assert forall|i: int| 0 <= i < s.len() implies is_hex_digit(#[trigger] s[i]) by {
        lemma_words_hex_index(id, i / 8, i % 8);
        let w = id[i / 8];
        lemma_hex_digit((w / 0x1000_0000 % 16) as nat);
        lemma_hex_digit((w / 0x100_0000 % 16) as nat);
        lemma_hex_digit((w / 0x10_0000 % 16) as nat);
        lemma_hex_digit((w / 0x1_0000 % 16) as nat);
        lemma_hex_digit((w / 0x1000 % 16) as nat);
        lemma_hex_digit((w / 0x100 % 16) as nat);
        lemma_hex_digit((w / 0x10 % 16) as nat);
        lemma_hex_digit((w % 16) as nat);
    }
    assert(is_hex_text(s));
    let b = hex_bytes(s);
    assert(b.len() == 32);
    let decoded = image_id_of_bytes(b)->0;
    assert forall|k: int| 0 <= k < 8 implies decoded[k] == id[k] by {
        let w = id[k];
        lemma_words_hex_index(id, k, 0);
        lemma_words_hex_index(id, k, 1);
        lemma_words_hex_index(id, k, 2);
        lemma_words_hex_index(id, k, 3);
        lemma_words_hex_index(id, k, 4);
        lemma_words_hex_index(id, k, 5);
        lemma_words_hex_index(id, k, 6);
        lemma_words_hex_index(id, k, 7);
        lemma_hex_digit((w / 0x1000_0000 % 16) as nat);
        lemma_hex_digit((w / 0x100_0000 % 16) as nat);
        lemma_hex_digit((w / 0x10_0000 % 16) as nat);
        lemma_hex_digit((w / 0x1_0000 % 16) as nat);
        lemma_hex_digit((w / 0x1000 % 16) as nat);
        lemma_hex_digit((w / 0x100 % 16) as nat);
        lemma_hex_digit((w / 0x10 % 16) as nat);
        lemma_hex_digit((w % 16) as nat);
        lemma_word_of_digits(w);
        assert(s[2 * (4 * k)] == s[8 * k]);
        assert(s[2 * (4 * k) + 1] == s[8 * k + 1]);
        assert(s[2 * (4 * k + 1)] == s[8 * k + 2]);
        assert(s[2 * (4 * k + 1) + 1] == s[8 * k + 3]);
        assert(s[2 * (4 * k + 2)] == s[8 * k + 4]);
        assert(s[2 * (4 * k + 2) + 1] == s[8 * k + 5]);
        assert(s[2 * (4 * k + 3)] == s[8 * k + 6]);
        assert(s[2 * (4 * k + 3) + 1] == s[8 * k + 7]);
        assert(b[4 * k] == 16 * (w / 0x1000_0000 % 16) + w / 0x100_0000 % 16);
        assert(b[4 * k + 1] == 16 * (w / 0x10_0000 % 16) + w / 0x1_0000 % 16);
        assert(b[4 * k + 2] == 16 * (w / 0x1000 % 16) + w / 0x100 % 16);
        assert(b[4 * k + 3] == 16 * (w / 0x10 % 16) + w % 16);
        assert(be_word(b, k) == w);
    }
    assert(decoded =~= id);
}

} // verus!
