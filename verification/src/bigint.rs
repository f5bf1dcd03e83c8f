//! Big integers as decimal text and as fixed 32-byte blocks, and byte lists
//! as decimal text.

use vstd::prelude::*;
use vstd::string::*;
use vstd::arithmetic::div_mod::lemma_small_mod;
use crate::bytes::{
    be_value,
    fixed_32,
    lemma_be_digits_value,
    lemma_fixed_32_value,
    minimal_be_bytes,
    pow256,
    to_fixed_array,
};
use crate::error::Error;

verus! {

/// Whether `c` is one of the ten ASCII decimal digits.
pub open spec fn is_digit(c: char) -> bool {
    '0' <= c <= '9'
}

/// The number that the decimal digit `c` stands for.
pub open spec fn digit_value(c: char) -> nat {
    (c as u32 - 48) as nat
}

/// The decimal digit that stands for `d`, for `d` below ten.
pub open spec fn digit_char(d: nat) -> char {
    ((d + 48) as u8) as char
}

/// How many sign characters `s` starts with: one for a leading `+` or `-`,
/// none otherwise.
pub open spec fn sign_len(s: Seq<char>) -> int {
    if s.len() > 0 && (s[0] == '+' || s[0] == '-') {
        1
    } else {
        0
    }
}

/// `s` after its sign character, if it has one.
pub open spec fn literal_body(s: Seq<char>) -> Seq<char> {
    s.subrange(sign_len(s), s.len() as int)
}

/// Whether `s` is an integer literal: an optional sign, then a decimal digit,
/// then any number of decimal digits and underscores.
pub open spec fn is_integer_literal(s: Seq<char>) -> bool {
    let b = literal_body(s);
    &&& b.len() > 0
    &&& is_digit(b[0])
    &&& forall|i: int| 0 <= i < b.len() ==> is_digit(#[trigger] b[i]) || b[i] == '_'
}

/// The number that the decimal digits of `b` denote; underscores are skipped.
pub open spec fn digits_value(b: Seq<char>) -> nat
    decreases b.len(),
{
    if b.len() == 0 {
        0
    } else if b.last() == '_' {
        digits_value(b.drop_last())
    } else {
        digits_value(b.drop_last()) * 10 + digit_value(b.last())
    }
}

/// The absolute value of the integer literal `s`.
pub open spec fn literal_magnitude(s: Seq<char>) -> nat {
    digits_value(literal_body(s))
}

/// Whether the integer literal `s` denotes a number below zero.
pub open spec fn literal_is_negative(s: Seq<char>) -> bool {
    s.len() > 0 && s[0] == '-' && literal_magnitude(s) > 0
}

/// Whether `s` is an integer literal that denotes zero or more.
pub open spec fn is_non_negative_literal(s: Seq<char>) -> bool {
    is_integer_literal(s) && !literal_is_negative(s)
}

/// The 32 bytes that the literal `s` is encoded as: its value, big-endian,
/// reduced to the last 32 bytes.
pub open spec fn decimal_to_fixed_bytes(s: Seq<char>) -> Seq<u8> {
    fixed_32(minimal_be_bytes(literal_magnitude(s)))
}

/// `n` written in base 10 without leading zeros.
pub open spec fn decimal_text(n: nat) -> Seq<char>
    decreases n,
{
    if n < 10 {
        seq![digit_char(n)]
    } else {
        decimal_text(n / 10).push(digit_char(n % 10))
    }
}

/// The decimal values of `bytes`, joined by a comma and a space.
pub open spec fn comma_list(bytes: Seq<u8>) -> Seq<char>
    decreases bytes.len(),
{
    if bytes.len() == 0 {
        Seq::empty()
    } else if bytes.len() == 1 {
        decimal_text(bytes[0] as nat)
    } else {
        comma_list(bytes.drop_last()) + seq![',', ' '] + decimal_text(bytes.last() as nat)
    }
}

/// Parses `text` with `BigInt::from_str` of num-bigint and splits the result
/// with `BigInt::to_bytes_be`. The parse succeeds exactly on an optional sign
/// followed by a digit and further digits or underscores. The flag tells
/// whether the parsed number is below zero; the bytes are its magnitude,
/// most significant byte first, without leading zeros, one zero byte for zero.
#[verifier::external_body]
fn parse_integer(text: &str) -> (r: Option<(bool, Vec<u8>)>)
    ensures
        r is Some <==> is_integer_literal(text@),
        r matches Some((negative, magnitude)) ==> negative == literal_is_negative(text@)
            && magnitude@ == minimal_be_bytes(literal_magnitude(text@)),
{
    match text.parse::<num_bigint::BigInt>() {
        Ok(value) => match value.to_bytes_be() {
            (num_bigint::Sign::Minus, magnitude) => Some((true, magnitude)),
            (num_bigint::Sign::NoSign, magnitude) => Some((false, magnitude)),
            (num_bigint::Sign::Plus, magnitude) => Some((false, magnitude)),
        },
        Err(_) => None,
    }
}

/// Converts a non-negative integer literal in base 10 to its 32-byte
/// big-endian form. A text that is no integer literal, or that denotes a
/// number below zero, is rejected. A number of 2^256 or more keeps its low 32
/// bytes only.
pub fn from_u256_bigint(value: &str) -> (r: Result<Vec<u8>, Error>)
    ensures
        r is Ok <==> is_non_negative_literal(value@),
        r matches Ok(bytes) ==> bytes@ == decimal_to_fixed_bytes(value@) && bytes@.len() == 32
            && be_value(bytes@) == literal_magnitude(value@) % pow256(32),
        r matches Err(e) ==> e == Error::MalformedInteger,
{
    match parse_integer(value) {
        Some((negative, magnitude)) => {
            if negative {
                Err(Error::MalformedInteger)
            } else {
                proof {
                    lemma_be_digits_value(literal_magnitude(value@));
                }
                let fixed = to_fixed_array(magnitude);
                let mut bytes: Vec<u8> = Vec::new();
                let mut k: usize = 0;
                while k < 32
                    invariant
                        k <= 32,
                        bytes@ == fixed@.subrange(0, k as int),
                    decreases 32 - k,
                {
                    bytes.push(fixed[k]);
                    k = k + 1;
                    assert(bytes@ =~= fixed@.subrange(0, k as int));
                }
                assert(bytes@ =~= fixed@);
                Ok(bytes)
            }
        },
        None => Err(Error::MalformedInteger),
    }
}

/// The text of one decimal digit.
fn digit_str(d: u8) -> (r: &'static str)
    requires
        d < 10,
    ensures
        r@ == seq![digit_char(d as nat)],
{
    proof {
        reveal_strlit("0");
        reveal_strlit("1");
        reveal_strlit("2");
        reveal_strlit("3");
        reveal_strlit("4");
        reveal_strlit("5");
        reveal_strlit("6");
        reveal_strlit("7");
        reveal_strlit("8");
        reveal_strlit("9");
    }
    let r = if d == 0 {
        "0"
    } else if d == 1 {
        "1"
    } else if d == 2 {
        "2"
    } else if d == 3 {
        "3"
    } else if d == 4 {
        "4"
    } else if d == 5 {
        "5"
    } else if d == 6 {
        "6"
    } else if d == 7 {
        "7"
    } else if d == 8 {
        "8"
    } else {
        "9"
    };
    assert(r@ =~= seq![digit_char(d as nat)]);
    r
}

/// Appends the decimal text of `b` to `out`.
fn push_decimal(out: &mut String, b: u8)
    ensures
        final(out)@ == old(out)@ + decimal_text(b as nat),
{
    reveal_with_fuel(decimal_text, 3);
    if b >= 100 {
        out.append(digit_str(b / 100));
    }
    if b >= 10 {
        out.append(digit_str((b / 10) % 10));
    }
    out.append(digit_str(b % 10));
    assert(out@ =~= old(out)@ + decimal_text(b as nat));
}

/// Renders `bytes` as their decimal values, joined by a comma and a space:
/// the bytes 1, 2, 255 give `1, 2, 255`.
pub fn bytes_to_str(bytes: &[u8]) -> (r: String)
    ensures
        r@ == comma_list(bytes@),
{
    let mut out = String::new();
    let n: usize = bytes.len();
    let mut k: usize = 0;
    while k < n
        invariant
            k <= n,
            n == bytes@.len(),
            out@ == comma_list(bytes@.subrange(0, k as int)),
        decreases n - k,
    {
        if k > 0 {
            out.append(", ");
        }
        push_decimal(&mut out, bytes[k]);
        proof {
            reveal_strlit(", ");
            let next = bytes@.subrange(0, k + 1);
            assert(next.drop_last() =~= bytes@.subrange(0, k as int));
            assert(", "@ =~= seq![',', ' ']);
        }
        k = k + 1;
    }
    assert(bytes@.subrange(0, n as int) =~= bytes@);
    out
}

/// The digit for a number below ten is a decimal digit with that value.
pub proof fn lemma_digit_char(d: nat)
    requires
        d < 10,
    ensures
        is_digit(digit_char(d)),
        digit_char(d) != '_',
        digit_value(digit_char(d)) == d,
{
    let b = (d + 48) as u8;
    assert(b == d + 48);
    assert((b as char) as u32 == b as u32);
}

/// The decimal text of a number consists of digits alone, is not empty, and
/// its digits denote the number.
pub proof fn lemma_decimal_text_digits(n: nat)
    ensures
        decimal_text(n).len() > 0,
        forall|i: int| 0 <= i < decimal_text(n).len() ==> is_digit(#[trigger] decimal_text(n)[i]),
        digits_value(decimal_text(n)) == n,
    decreases n,
{
    let t = decimal_text(n);
    if n < 10 {
        lemma_digit_char(n);
        assert(t.drop_last() =~= Seq::<char>::empty());
        assert(t.last() == digit_char(n));
        assert(digits_value(t.drop_last()) == 0);
        assert(digits_value(t) == digits_value(t.drop_last()) * 10 + digit_value(t.last()));
    } else {
        lemma_digit_char(n % 10);
        lemma_decimal_text_digits(n / 10);
        assert(t.drop_last() =~= decimal_text(n / 10));
        assert(t.last() == digit_char(n % 10));
        assert(digits_value(t) == digits_value(t.drop_last()) * 10 + digit_value(t.last()));
    }
}

/// The decimal text of a number is a non-negative integer literal that
/// denotes this number.
pub proof fn lemma_decimal_text_is_literal(n: nat)
    ensures
        is_non_negative_literal(decimal_text(n)),
        literal_magnitude(decimal_text(n)) == n,
    decreases n,
{
    lemma_decimal_text_digits(n);
    let t = decimal_text(n);
    assert(sign_len(t) == 0);
    assert(literal_body(t) =~= t);
}

/// Encoding a non-negative literal below 2^256 and reading the 32 bytes back
/// as a big-endian number gives the literal's value.
pub proof fn lemma_literal_round_trip(text: Seq<char>)
    requires
        is_non_negative_literal(text),
        literal_magnitude(text) < pow256(32),
    ensures
        decimal_to_fixed_bytes(text).len() == 32,
        be_value(decimal_to_fixed_bytes(text)) == literal_magnitude(text),
{
    let n = literal_magnitude(text);
    lemma_be_digits_value(n);
    lemma_fixed_32_value(minimal_be_bytes(n));
    lemma_small_mod(n, pow256(32));
}

/// Writing a number below 2^256 in base 10, encoding that text and reading the
/// 32 bytes back as a big-endian number gives the number again.
pub proof fn lemma_decimal_round_trip(n: nat)
    requires
        n < pow256(32),
    ensures
        is_non_negative_literal(decimal_text(n)),
        decimal_to_fixed_bytes(decimal_text(n)).len() == 32,
        be_value(decimal_to_fixed_bytes(decimal_text(n))) == n,
{
    lemma_decimal_text_is_literal(n);
    lemma_literal_round_trip(decimal_text(n));
}

} // verus!
