//! Reading coordinates out of the textual form of a curve point.
//!
//! A point of the base-field group is written `(x, y)`; a point of the
//! extension-field group is written
//! `(QuadExtField(a + b * u), QuadExtField(c + d * u))`.

use vstd::prelude::*;
use vstd::string::*;
use crate::bigint::{decimal_to_fixed_bytes, from_u256_bigint, is_digit, is_non_negative_literal};
use crate::encode::{is_g1, is_g2};
use crate::error::Error;
use crate::text::{
    after_first,
    before_first,
    chars_of,
    find_from,
    find_in,
    first_piece_end,
    lemma_find_absent,
    lemma_find_first,
    matches_at,
    skip_leading,
    split_once_in,
    strip_prefixes,
    strip_prefixes_in,
    strip_suffixes,
    strip_suffixes_in,
    substring,
    skip_trailing,
    skip_trailing_in,
    trim,
    trim_range,
    CharClass,
};

verus! {

/// The two coordinates of a base-field point in text: the round brackets at
/// both ends are dropped, the rest is cut at its commas, and the first two
/// pieces are trimmed of white space. Without a comma there is no result.
pub open spec fn g1_parts(s: Seq<char>) -> Option<(Seq<char>, Seq<char>)> {
    let t = trim(s, CharClass::Paren);
    match after_first(t, ","@) {
        None => None,
        Some(rest) => Some(
            (
                trim(before_first(t, ","@), CharClass::Whitespace),
                trim(before_first(rest, ","@), CharClass::Whitespace),
            ),
        ),
    }
}

/// The two coefficients `(b, a)` of one extension-field element written
/// `QuadExtField(a + b * u)`, where the wrapper's opening may be missing and
/// closing brackets at the end are dropped. The text is cut at ` + `; the
/// first piece, trimmed, is `a`; the second piece, trimmed and freed of the
/// suffix ` * u`, is `b`. Without ` + ` there is no result.
pub open spec fn quad_parts(part: Seq<char>) -> Option<(Seq<char>, Seq<char>)> {
    let cleaned = skip_trailing(strip_prefixes(part, "QuadExtField("@), CharClass::CloseParen);
    match after_first(cleaned, " + "@) {
        None => None,
        Some(rest) => Some(
            (
                strip_suffixes(trim(before_first(rest, " + "@), CharClass::Whitespace), " * u"@),
                trim(before_first(cleaned, " + "@), CharClass::Whitespace),
            ),
        ),
    }
}

/// The four coefficients of an extension-field point in text, in the order
/// imaginary and real part of the first coordinate, then imaginary and real
/// part of the second. The round brackets at both ends are dropped and the
/// rest is cut at `), QuadExtField(`, which must occur exactly once; each of
/// the two pieces is read by `quad_parts`.
pub open spec fn g2_parts(s: Seq<char>) -> Option<Seq<Seq<char>>> {
    let t = trim(s, CharClass::Paren);
    match after_first(t, "), QuadExtField("@) {
        None => None,
        Some(second) => if find_from(second, "), QuadExtField("@, 0) is Some {
            None
        } else {
            match (quad_parts(before_first(t, "), QuadExtField("@)), quad_parts(second)) {
                (Some(x), Some(y)) => Some(seq![x.0, x.1, y.0, y.1]),
                _ => None,
            }
        },
    }
}

/// Splits the text of a base-field point `(x, y)` into the texts of `x` and
/// `y`.
pub fn split_g1(data: String) -> (r: Result<Vec<String>, Error>)
    ensures
        match r {
            Ok(parts) => parts@.len() == 2 && g1_parts(data@) == Some((parts@[0]@, parts@[1]@)),
            Err(e) => e == Error::UnrecognizedPointFormat && g1_parts(data@) is None,
        },
{
    let text = data.as_str();
    let v = chars_of(text);
    let comma = chars_of(",");
    assert(v@.subrange(0, v@.len() as int) =~= v@);
    let (lo, hi) = trim_range(&v, 0, v.len(), CharClass::Paren);
    match split_once_in(&v, lo, hi, &comma) {
        None => Err(Error::UnrecognizedPointFormat),
        Some((k, m)) => {
            let (x0, x1) = trim_range(&v, lo, k, CharClass::Whitespace);
            let end = first_piece_end(&v, m, hi, &comma);
            let (y0, y1) = trim_range(&v, m, end, CharClass::Whitespace);
            let mut parts: Vec<String> = Vec::new();
            parts.push(substring(text, x0, x1));
            parts.push(substring(text, y0, y1));
            Ok(parts)
        },
    }
}

/// Reads the two coefficients of the extension-field element in `v[lo..hi]`
/// and returns the bounds of the imaginary and of the real one.
fn quad_ranges(v: &Vec<char>, lo: usize, hi: usize) -> (r: Option<
    ((usize, usize), (usize, usize)),
>)
    requires
        lo <= hi <= v@.len(),
    ensures
        match r {
            Some((im, re)) => im.0 <= im.1 <= v@.len() && re.0 <= re.1 <= v@.len() && quad_parts(
                v@.subrange(lo as int, hi as int),
            ) == Some((v@.subrange(im.0 as int, im.1 as int), v@.subrange(re.0 as int, re.1 as int))),
            None => quad_parts(v@.subrange(lo as int, hi as int)) is None,
        },
{
    let opening = chars_of("QuadExtField(");
    let plus = chars_of(" + ");
    let unit = chars_of(" * u");
    let a = strip_prefixes_in(v, lo, hi, &opening);
    let b = skip_trailing_in(v, a, hi, CharClass::CloseParen);
    match split_once_in(v, a, b, &plus) {
        None => None,
        Some((k, m)) => {
            let re = trim_range(v, a, k, CharClass::Whitespace);
            let end = first_piece_end(v, m, b, &plus);
            let (i0, i1) = trim_range(v, m, end, CharClass::Whitespace);
            let i2 = strip_suffixes_in(v, i0, i1, &unit);
            Some(((i0, i2), re))
        },
    }
}

/// Splits the text of an extension-field point
/// `(QuadExtField(a + b * u), QuadExtField(c + d * u))` into the four texts
/// `b`, `a`, `d`, `c`: imaginary before real part, first coordinate before
/// second.
pub fn split_g2(data: String) -> (r: Result<Vec<String>, Error>)
    ensures
        match r {
            Ok(parts) => parts@.len() == 4 && g2_parts(data@) == Some(
                seq![parts@[0]@, parts@[1]@, parts@[2]@, parts@[3]@],
            ),
            Err(e) => e == Error::UnrecognizedPointFormat && g2_parts(data@) is None,
        },
{
    let text = data.as_str();
    let v = chars_of(text);
    let separator = chars_of("), QuadExtField(");
    assert(v@.subrange(0, v@.len() as int) =~= v@);
    let (lo, hi) = trim_range(&v, 0, v.len(), CharClass::Paren);
    match split_once_in(&v, lo, hi, &separator) {
        None => Err(Error::UnrecognizedPointFormat),
        Some((k, m)) => {
            if find_in(&v, m, hi, &separator).is_some() {
                return Err(Error::UnrecognizedPointFormat);
            }
            match quad_ranges(&v, lo, k) {
                None => Err(Error::UnrecognizedPointFormat),
                Some((x_im, x_re)) => match quad_ranges(&v, m, hi) {
                    None => Err(Error::UnrecognizedPointFormat),
                    Some((y_im, y_re)) => {
                        let mut parts: Vec<String> = Vec::new();
                        parts.push(substring(text, x_im.0, x_im.1));
                        parts.push(substring(text, x_re.0, x_re.1));
                        parts.push(substring(text, y_im.0, y_im.1));
                        parts.push(substring(text, y_re.0, y_re.1));
                        Ok(parts)
                    },
                },
            }
        },
    }
}

/// Converts the two coordinate texts of a base-field point to their 32-byte
/// big-endian forms.
pub fn g1_strings_to_vec(data: Vec<String>) -> (r: Result<Vec<Vec<u8>>, Error>)
    requires
        data@.len() >= 2,
    ensures
        r is Ok <==> is_non_negative_literal(data@[0]@) && is_non_negative_literal(data@[1]@),
        r matches Ok(g1) ==> is_g1(g1@) && g1@[0]@ == decimal_to_fixed_bytes(data@[0]@) && g1@[1]@
            == decimal_to_fixed_bytes(data@[1]@),
        r matches Err(e) ==> e == Error::MalformedInteger,
{
    let x = from_u256_bigint(data[0].as_str())?;
    let y = from_u256_bigint(data[1].as_str())?;
    let mut g1: Vec<Vec<u8>> = Vec::new();
    g1.push(x);
    g1.push(y);
    Ok(g1)
}

/// Converts the four coefficient texts of an extension-field point to their
/// 32-byte big-endian forms, grouped as `[[t0, t1], [t2, t3]]`.
pub fn g2_strings_to_vec(data: Vec<String>) -> (r: Result<Vec<Vec<Vec<u8>>>, Error>)
    requires
        data@.len() >= 4,
    ensures
        r is Ok <==> forall|i: int| 0 <= i < 4 ==> is_non_negative_literal(#[trigger] data@[i]@),
        r matches Ok(g2) ==> is_g2(g2@) && g2@[0]@[0]@ == decimal_to_fixed_bytes(data@[0]@)
            && g2@[0]@[1]@ == decimal_to_fixed_bytes(data@[1]@) && g2@[1]@[0]@
            == decimal_to_fixed_bytes(data@[2]@) && g2@[1]@[1]@ == decimal_to_fixed_bytes(
            data@[3]@,
        ),
        r matches Err(e) ==> e == Error::MalformedInteger,
{
    let x0 = from_u256_bigint(data[0].as_str())?;
    let x1 = from_u256_bigint(data[1].as_str())?;
    let y0 = from_u256_bigint(data[2].as_str())?;
    let y1 = from_u256_bigint(data[3].as_str())?;
    let mut x: Vec<Vec<u8>> = Vec::new();
    x.push(x0);
    x.push(x1);
    let mut y: Vec<Vec<u8>> = Vec::new();
    y.push(y0);
    y.push(y1);
    let mut g2: Vec<Vec<Vec<u8>>> = Vec::new();
    g2.push(x);
    g2.push(y);
    Ok(g2)
}

/// Whether `s` consists of decimal digits alone; it may be empty.
pub open spec fn all_digits(s: Seq<char>) -> bool {
    forall|i: int| 0 <= i < s.len() ==> is_digit(#[trigger] s[i])
}

/// The text `(x, y)` of a base-field point with the coordinate texts `x` and
/// `y`.
pub open spec fn g1_text(x: Seq<char>, y: Seq<char>) -> Seq<char> {
    seq!['('] + x + seq![',', ' '] + y + seq![')']
}

/// A text of digits has no white space to trim.
proof fn lemma_trim_digits(s: Seq<char>)
    requires
        all_digits(s),
    ensures
        trim(s, CharClass::Whitespace) == s,
{
    if s.len() > 0 {
        assert(is_digit(s[0]));
        assert(is_digit(s[s.len() - 1]));
    }
}

/// Splitting the text `(x, y)` of two digit texts gives `x` and `y` back.
pub proof fn lemma_g1_parts_of_text(x: Seq<char>, y: Seq<char>)
    requires
        all_digits(x),
        all_digits(y),
    ensures
        g1_parts(g1_text(x, y)) == Some((x, y)),
{
    reveal_strlit(",");
    let comma = ","@;
    assert(comma =~= seq![',']);
    let s = g1_text(x, y);
    let s1 = x + seq![',', ' '] + y + seq![')'];
    let t = x + seq![',', ' '] + y;
    // the brackets
    assert(s.drop_first() =~= s1);
    assert(s[0] == '(');
    assert(!CharClass::Paren.contains(s1[0])) by {
        if x.len() > 0 {
            assert(is_digit(x[0]));
            assert(s1[0] == x[0]);
        } else {
            assert(s1[0] == ',');
        }
    }
    assert(skip_leading(s1, CharClass::Paren) == s1);
    assert(skip_leading(s, CharClass::Paren) == s1);
    assert(s1.drop_last() =~= t);
    assert(s1.last() == ')');
    assert(!CharClass::Paren.contains(t.last())) by {
        if y.len() > 0 {
            assert(is_digit(y[y.len() - 1]));
            assert(t.last() == y[y.len() - 1]);
        } else {
            assert(t.last() == ' ');
        }
    }
    assert(skip_trailing(t, CharClass::Paren) == t);
    assert(skip_trailing(s1, CharClass::Paren) == t);
    assert(trim(s, CharClass::Paren) == t);
    // the first comma
    let k = x.len() as int;
    assert(t.subrange(k, k + 1) =~= comma);
    assert forall|j: int| 0 <= j < k implies !matches_at(t, j, comma) by {
        assert(is_digit(x[j]));
        assert(t.subrange(j, j + 1)[0] == x[j]);
    }
    lemma_find_first(t, comma, 0, k);
    assert(t.subrange(0, k) =~= x);
    lemma_trim_digits(x);
    // what follows it
    let rest = t.subrange(k + 1, t.len() as int);
    assert(rest =~= seq![' '] + y);
    assert forall|j: int| 0 <= j implies !matches_at(rest, j, comma) by {
        if j + 1 <= rest.len() {
            assert(rest.subrange(j, j + 1)[0] == rest[j]);
            if j > 0 {
                assert(is_digit(y[j - 1]));
            }
        }
    }
    lemma_find_absent(rest, comma, 0);
    assert(rest.drop_first() =~= y);
    assert(CharClass::Whitespace.contains(rest[0]));
    lemma_trim_digits(y);
    assert(skip_leading(y, CharClass::Whitespace) == y) by {
        if y.len() > 0 {
            assert(is_digit(y[0]));
        }
    }
    assert(skip_leading(rest, CharClass::Whitespace) == y);
    assert(trim(rest, CharClass::Whitespace) == y);
}

/// The text `QuadExtField(a + b * u` of an extension-field element, without
/// its closing bracket.
pub open spec fn quad_text(a: Seq<char>, b: Seq<char>) -> Seq<char> {
    "QuadExtField("@ + a + " + "@ + b + " * u"@
}

/// The text `(QuadExtField(a + b * u), QuadExtField(c + d * u))` of an
/// extension-field point.
pub open spec fn g2_text(a: Seq<char>, b: Seq<char>, c: Seq<char>, d: Seq<char>) -> Seq<char> {
    seq!['('] + quad_text(a, b) + "), "@ + quad_text(c, d) + seq![')', ')']
}

/// Whether `c` does not occur in `s`.
pub open spec fn lacks(s: Seq<char>, c: char) -> bool {
    forall|i: int| 0 <= i < s.len() ==> #[trigger] s[i] != c
}

/// What the four fixed pieces of the text of an extension-field element are
/// made of.
proof fn lemma_pieces()
    ensures
        "QuadExtField("@.len() == 13,
        "QuadExtField("@[0] == 'Q',
        lacks("QuadExtField("@, ')'),
        " + "@ =~= seq![' ', '+', ' '],
        " * u"@ =~= seq![' ', '*', ' ', 'u'],
        "), "@ =~= seq![')', ',', ' '],
        "), QuadExtField("@ =~= "), "@ + "QuadExtField("@,
        "), QuadExtField("@.len() == 16,
        "), QuadExtField("@[0] == ')',
{
    reveal_strlit("QuadExtField(");
    reveal_strlit(" + ");
    reveal_strlit(" * u");
    reveal_strlit("), ");
    reveal_strlit("), QuadExtField(");
}

/// A text of digits has neither a bracket, nor a space, nor a `Q`.
proof fn lemma_digits_lack(s: Seq<char>)
    requires
        all_digits(s),
    ensures
        lacks(s, ')'),
        lacks(s, ' '),
        lacks(s, 'Q'),
{
    assert forall|i: int| 0 <= i < s.len() implies #[trigger] s[i] != ')' && s[i] != ' ' && s[i]
        != 'Q' by {
        assert(is_digit(s[i]));
    }
}

/// A pattern that starts with a character which the text lacks up to index
/// `k` does not occur before `k`.
proof fn lemma_no_match_before(t: Seq<char>, pat: Seq<char>, k: int)
    requires
        pat.len() > 0,
        0 <= k <= t.len(),
        lacks(t.subrange(0, k), pat[0]),
    ensures
        forall|j: int| 0 <= j < k ==> !matches_at(t, j, pat),
{
    assert forall|j: int| 0 <= j < k implies !matches_at(t, j, pat) by {
        if j + pat.len() <= t.len() {
            assert(t.subrange(j, j + pat.len())[0] == t[j]);
            assert(t.subrange(0, k)[j] == t[j]);
        }
    }
}

/// Reading `a + b * u`, with or without `QuadExtField(` in front, gives `b`
/// and `a`, where `a` and `b` are digit texts and `b` is not empty.
proof fn lemma_quad_parts_of_text(wrapped: bool, a: Seq<char>, b: Seq<char>)
    requires
        all_digits(a),
        all_digits(b),
        b.len() > 0,
    ensures
        quad_parts(
            if wrapped {
                quad_text(a, b)
            } else {
                a + " + "@ + b + " * u"@
            },
        ) == Some((b, a)),
{
    lemma_pieces();
    lemma_digits_lack(a);
    lemma_digits_lack(b);
    let opening = "QuadExtField("@;
    let plus = " + "@;
    let unit = " * u"@;
    let core = a + plus + b + unit;
    let part = if wrapped {
        quad_text(a, b)
    } else {
        core
    };
    // the wrapper's opening
    assert(!matches_at(core, 0, opening)) by {
        if core.len() >= 13 {
            assert(core.subrange(0, 13)[0] == core[0]);
            if a.len() > 0 {
                assert(core[0] == a[0]);
            } else {
                assert(core[0] == ' ');
            }
        }
    }
    assert(strip_prefixes(core, opening) == core);
    if wrapped {
        assert(part.subrange(0, 13) =~= opening);
        assert(part.subrange(13, part.len() as int) =~= core);
        assert(strip_prefixes(part, opening) == strip_prefixes(core, opening));
    }
    assert(strip_prefixes(part, opening) == core);
    // no closing bracket at the end
    assert(core.last() == 'u');
    assert(skip_trailing(core, CharClass::CloseParen) == core);
    // the first plus sign
    let k = a.len() as int;
    assert(core.subrange(0, k) =~= a);
    lemma_no_match_before(core, plus, k);
    assert(core.subrange(k, k + 3) =~= plus);
    lemma_find_first(core, plus, 0, k);
    lemma_trim_digits(a);
    // what follows it
    let rest = core.subrange(k + 3, core.len() as int);
    assert(rest =~= b + unit);
    let n = b.len() as int;
    assert forall|j: int| 0 <= j implies !matches_at(rest, j, plus) by {
        if j + 3 <= rest.len() {
            let w = rest.subrange(j, j + 3);
            assert(w[0] == rest[j]);
            assert(w[1] == rest[j + 1]);
            if j < n {
                assert(rest[j] == b[j]);
            } else if j == n {
                assert(rest[j + 1] == '*');
            }
        }
    }
    lemma_find_absent(rest, plus, 0);
    assert(before_first(rest, plus) == rest);
    assert(rest[0] == b[0]);
    assert(is_digit(b[0]));
    assert(rest.last() == 'u');
    assert(skip_leading(rest, CharClass::Whitespace) == rest);
    assert(skip_trailing(rest, CharClass::Whitespace) == rest);
    assert(trim(rest, CharClass::Whitespace) == rest);
    // the unit at the end
    assert(rest.subrange(n, n + 4) =~= unit);
    assert(rest.subrange(0, n) =~= b);
    assert(matches_at(rest, rest.len() - 4, unit));
    assert(!matches_at(b, n - 4, unit)) by {
        if n >= 4 {
            assert(b.subrange(n - 4, n)[3] == b[n - 1]);
            assert(is_digit(b[n - 1]));
        }
    }
    assert(strip_suffixes(b, unit) == b);
    assert(strip_suffixes(rest, unit) == strip_suffixes(b, unit));
}

/// Splitting the text `(QuadExtField(a + b * u), QuadExtField(c + d * u))` of
/// four digit texts gives `b`, `a`, `d`, `c`, where `b` and `d` are not
/// empty.
pub proof fn lemma_g2_parts_of_text(a: Seq<char>, b: Seq<char>, c: Seq<char>, d: Seq<char>)
    requires
        all_digits(a),
        all_digits(b),
        all_digits(c),
        all_digits(d),
        b.len() > 0,
        d.len() > 0,
    ensures
        g2_parts(g2_text(a, b, c, d)) == Some(seq![b, a, d, c]),
{
    lemma_pieces();
    lemma_digits_lack(a);
    lemma_digits_lack(b);
    lemma_digits_lack(c);
    lemma_digits_lack(d);
    let opening = "QuadExtField("@;
    let plus = " + "@;
    let unit = " * u"@;
    let separator = "), QuadExtField("@;
    let first = quad_text(a, b);
    let second = c + plus + d + unit;
    let t = first + separator + second;
    let s = g2_text(a, b, c, d);
    assert(quad_text(c, d) =~= opening + second);
    assert(s =~= seq!['('] + t + seq![')', ')']);
    // the brackets
    let s1 = t + seq![')', ')'];
    let s2 = t + seq![')'];
    assert(s.drop_first() =~= s1);
    assert(s[0] == '(');
    assert(s1[0] == 'Q') by {
        assert(s1[0] == opening[0]);
    }
    assert(skip_leading(s1, CharClass::Paren) == s1);
    assert(skip_leading(s, CharClass::Paren) == s1);
    assert(s1.drop_last() =~= s2);
    assert(s2.drop_last() =~= t);
    assert(s1.last() == ')');
    assert(s2.last() == ')');
    assert(t.last() == 'u');
    assert(skip_trailing(t, CharClass::Paren) == t);
    assert(skip_trailing(s2, CharClass::Paren) == t);
    assert(skip_trailing(s1, CharClass::Paren) == t);
    assert(trim(s, CharClass::Paren) == t);
    // the separator
    let k = first.len() as int;
    assert(lacks(first, ')')) by {
        assert forall|i: int| 0 <= i < first.len() implies #[trigger] first[i] != ')' by {
            if i < 13 {
                assert(first[i] == opening[i]);
            } else if i < 13 + a.len() {
                assert(first[i] == a[i - 13]);
            } else if i < 16 + a.len() {
                assert(first[i] == plus[i - 13 - a.len()]);
            } else if i < 16 + a.len() + b.len() {
                assert(first[i] == b[i - 16 - a.len()]);
            } else {
                assert(first[i] == unit[i - 16 - a.len() - b.len()]);
            }
        }
    }
    assert(t.subrange(0, k) =~= first);
    lemma_no_match_before(t, separator, k);
    assert(t.subrange(k, k + 16) =~= separator);
    lemma_find_first(t, separator, 0, k);
    let after = t.subrange(k + 16, t.len() as int);
    assert(after =~= second);
    assert(lacks(second, ')')) by {
        assert forall|i: int| 0 <= i < second.len() implies #[trigger] second[i] != ')' by {
            if i < c.len() {
                assert(second[i] == c[i]);
            } else if i < 3 + c.len() {
                assert(second[i] == plus[i - c.len()]);
            } else if i < 3 + c.len() + d.len() {
                assert(second[i] == d[i - 3 - c.len()]);
            } else {
                assert(second[i] == unit[i - 3 - c.len() - d.len()]);
            }
        }
    }
    assert(second.subrange(0, second.len() as int) =~= second);
    lemma_no_match_before(second, separator, second.len() as int);
    assert forall|j: int| 0 <= j implies !matches_at(second, j, separator) by {
    }
    lemma_find_absent(second, separator, 0);
    // the two elements
    lemma_quad_parts_of_text(true, a, b);
    lemma_quad_parts_of_text(false, c, d);
}

} // verus!
