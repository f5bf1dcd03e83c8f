//! Character sequences: classes, trimming, searching and replacing.

use vstd::prelude::*;
use vstd::string::*;

verus! {

/// A set of characters that can be trimmed from the ends of a text.
#[derive(Clone, Copy, Debug, PartialEq, Eq, Structural)]
pub enum CharClass {
    /// The two round brackets.
    Paren,
    /// The closing round bracket.
    CloseParen,
    /// The characters that Unicode classes as white space.
    Whitespace,
}

/// Whether Unicode classes `c` as white space.
pub open spec fn is_whitespace(c: char) -> bool {
    let n = c as u32;
    ||| 0x09 <= n <= 0x0D
    ||| n == 0x20
    ||| n == 0x85
    ||| n == 0xA0
    ||| n == 0x1680
    ||| 0x2000 <= n <= 0x200A
    ||| n == 0x2028
    ||| n == 0x2029
    ||| n == 0x202F
    ||| n == 0x205F
    ||| n == 0x3000
}

impl CharClass {
    /// Whether `c` belongs to the class.
    pub open spec fn contains(self, c: char) -> bool {
        match self {
            CharClass::Paren => c == '(' || c == ')',
            CharClass::CloseParen => c == ')',
            CharClass::Whitespace => is_whitespace(c),
        }
    }

    /// Tells whether `c` belongs to the class.
    pub fn has(self, c: char) -> (r: bool)
        ensures
            r == self.contains(c),
    {
        match self {
            CharClass::Paren => c == '(' || c == ')',
            CharClass::CloseParen => c == ')',
            CharClass::Whitespace => {
                let n: u32 = c as u32;
                (0x09 <= n && n <= 0x0D) || n == 0x20 || n == 0x85 || n == 0xA0 || n == 0x1680 || (
                0x2000 <= n && n <= 0x200A) || n == 0x2028 || n == 0x2029 || n == 0x202F || n
                    == 0x205F || n == 0x3000
            },
        }
    }
}

/// `s` without its leading characters of `class`.
pub open spec fn skip_leading(s: Seq<char>, class: CharClass) -> Seq<char>
    decreases s.len(),
{
    if s.len() > 0 && class.contains(s[0]) {
        skip_leading(s.drop_first(), class)
    } else {
        s
    }
}

/// `s` without its trailing characters of `class`.
pub open spec fn skip_trailing(s: Seq<char>, class: CharClass) -> Seq<char>
    decreases s.len(),
{
    if s.len() > 0 && class.contains(s.last()) {
        skip_trailing(s.drop_last(), class)
    } else {
        s
    }
}

/// `s` without the characters of `class` at either end.
pub open spec fn trim(s: Seq<char>, class: CharClass) -> Seq<char> {
    skip_trailing(skip_leading(s, class), class)
}

/// Whether `pat` occurs in `s` starting at index `i`.
pub open spec fn matches_at(s: Seq<char>, i: int, pat: Seq<char>) -> bool {
    0 <= i && i + pat.len() <= s.len() && s.subrange(i, i + pat.len()) == pat
}

/// The least index at or after `i` where `pat` occurs in `s`, if there is one.
pub open spec fn find_from(s: Seq<char>, pat: Seq<char>, i: int) -> Option<int>
    decreases s.len() - i,
{
    if i < 0 || i + pat.len() > s.len() {
        None
    } else if matches_at(s, i, pat) {
        Some(i)
    } else if i < s.len() {
        find_from(s, pat, i + 1)
    } else {
        None
    }
}

/// The part of `s` before the first occurrence of `pat`; all of `s` when
/// `pat` does not occur.
pub open spec fn before_first(s: Seq<char>, pat: Seq<char>) -> Seq<char> {
    match find_from(s, pat, 0) {
        Some(i) => s.subrange(0, i),
        None => s,
    }
}

/// The part of `s` after the first occurrence of `pat`, if `pat` occurs.
pub open spec fn after_first(s: Seq<char>, pat: Seq<char>) -> Option<Seq<char>> {
    match find_from(s, pat, 0) {
        Some(i) => Some(s.subrange(i + pat.len(), s.len() as int)),
        None => None,
    }
}

/// `s` after removing `pat` from its front as often as it stands there.
pub open spec fn strip_prefixes(s: Seq<char>, pat: Seq<char>) -> Seq<char>
    decreases s.len(),
{
    if pat.len() > 0 && matches_at(s, 0, pat) {
        strip_prefixes(s.subrange(pat.len() as int, s.len() as int), pat)
    } else {
        s
    }
}

/// `s` after removing `pat` from its end as often as it stands there.
pub open spec fn strip_suffixes(s: Seq<char>, pat: Seq<char>) -> Seq<char>
    decreases s.len(),
{
    if pat.len() > 0 && matches_at(s, s.len() - pat.len(), pat) {
        strip_suffixes(s.subrange(0, s.len() - pat.len()), pat)
    } else {
        s
    }
}

/// `s` with every occurrence of `from` replaced by `to`, scanning from the
/// left and resuming after each replaced occurrence. An empty `from` leaves
/// `s` unchanged.
pub open spec fn replace_all(s: Seq<char>, from: Seq<char>, to: Seq<char>) -> Seq<char>
    decreases s.len(),
{
    if from.len() == 0 || s.len() < from.len() {
        s
    } else if matches_at(s, 0, from) {
        to + replace_all(s.subrange(from.len() as int, s.len() as int), from, to)
    } else {
        seq![s[0]] + replace_all(s.drop_first(), from, to)
    }
}

/// The characters of `s`, in order.
pub fn chars_of(s: &str) -> (v: Vec<char>)
    ensures
        v@ == s@,
{
    let mut v: Vec<char> = Vec::new();
    for c in it: s.chars()
        invariant
            v@ == it.seq().take(it.index() as int),
            it.seq() == s@,
    {
        v.push(c);
    }
    v
}

/// Tells whether `pat` occurs in `v` starting at index `i` and ending at or
/// before `hi`.
pub fn occurs_at(v: &Vec<char>, i: usize, hi: usize, pat: &Vec<char>) -> (r: bool)
    requires
        i <= hi <= v@.len(),
    ensures
        r == (i + pat@.len() <= hi && v@.subrange(i as int, i + pat@.len()) == pat@),
{
    let n: usize = pat.len();
    if n > hi - i {
        return false;
    }
    let mut k: usize = 0;
    while k < n
        invariant
            k <= n,
            n == pat@.len(),
            i + n <= hi <= v@.len(),
            forall|j: int| 0 <= j < k ==> v@[i + j] == pat@[j],
        decreases n - k,
    {
        if v[i + k] != pat[k] {
            assert(v@.subrange(i as int, i + n)[k as int] == v@[i + k]);
            return false;
        }
        k = k + 1;
    }
    assert(v@.subrange(i as int, i + n) =~= pat@);
    true
}

/// Finds the first occurrence of `pat` in `v[lo..hi]`.
pub fn find_in(v: &Vec<char>, lo: usize, hi: usize, pat: &Vec<char>) -> (r: Option<usize>)
    requires
        lo <= hi <= v@.len(),
    ensures
        match r {
            Some(k) => lo <= k && k + pat@.len() <= hi && find_from(
                v@.subrange(lo as int, hi as int),
                pat@,
                0,
            ) == Some(k - lo),
            None => find_from(v@.subrange(lo as int, hi as int), pat@, 0) is None,
        },
{
    let ghost s = v@.subrange(lo as int, hi as int);
    let n: usize = pat.len();
    let mut k: usize = lo;
    loop
        invariant
            lo <= k <= hi <= v@.len(),
            n == pat@.len(),
            s == v@.subrange(lo as int, hi as int),
            find_from(s, pat@, 0) == find_from(s, pat@, k - lo),
        decreases hi - k,
    {
        if n > hi - k {
            return None;
        }
        assert(s.subrange(k - lo, k - lo + n) =~= v@.subrange(k as int, k + n));
        if occurs_at(v, k, hi, pat) {
            return Some(k);
        }
        if k == hi {
            return None;
        }
        k = k + 1;
    }
}

/// Splits `v[lo..hi]` at the first occurrence of `pat`: returns where the part
/// before it ends and where the part after it starts.
pub fn split_once_in(v: &Vec<char>, lo: usize, hi: usize, pat: &Vec<char>) -> (r: Option<
    (usize, usize),
>)
    requires
        lo <= hi <= v@.len(),
    ensures
        match r {
            Some((k, m)) => lo <= k <= m <= hi && before_first(
                v@.subrange(lo as int, hi as int),
                pat@,
            ) == v@.subrange(lo as int, k as int) && after_first(
                v@.subrange(lo as int, hi as int),
                pat@,
            ) == Some(v@.subrange(m as int, hi as int)),
            None => after_first(v@.subrange(lo as int, hi as int), pat@) is None && before_first(
                v@.subrange(lo as int, hi as int),
                pat@,
            ) == v@.subrange(lo as int, hi as int),
        },
{
    let ghost s = v@.subrange(lo as int, hi as int);
    match find_in(v, lo, hi, pat) {
        Some(k) => {
            let m: usize = k + pat.len();
            assert(s.subrange(0, k - lo) =~= v@.subrange(lo as int, k as int));
            assert(s.subrange(k - lo + pat@.len(), s.len() as int) =~= v@.subrange(
                m as int,
                hi as int,
            ));
            Some((k, m))
        },
        None => None,
    }
}

/// Where the part of `v[lo..hi]` before the first occurrence of `pat` ends;
/// `hi` when `pat` does not occur.
pub fn first_piece_end(v: &Vec<char>, lo: usize, hi: usize, pat: &Vec<char>) -> (k: usize)
    requires
        lo <= hi <= v@.len(),
    ensures
        lo <= k <= hi,
        before_first(v@.subrange(lo as int, hi as int), pat@) == v@.subrange(lo as int, k as int),
{
    match split_once_in(v, lo, hi, pat) {
        Some((k, _)) => k,
        None => hi,
    }
}

/// Drops the characters of `class` from the front of `v[lo..hi]` and returns
/// the new lower bound.
pub fn skip_leading_in(v: &Vec<char>, lo: usize, hi: usize, class: CharClass) -> (a: usize)
    requires
        lo <= hi <= v@.len(),
    ensures
        lo <= a <= hi,
        v@.subrange(a as int, hi as int) == skip_leading(v@.subrange(lo as int, hi as int), class),
{
    let mut a: usize = lo;
    while a < hi && class.has(v[a])
        invariant
            lo <= a <= hi <= v@.len(),
            skip_leading(v@.subrange(lo as int, hi as int), class) == skip_leading(
                v@.subrange(a as int, hi as int),
                class,
            ),
        decreases hi - a,
    {
        assert(v@.subrange(a as int, hi as int).drop_first() =~= v@.subrange(a + 1, hi as int));
        a = a + 1;
    }
    a
}

/// Drops the characters of `class` from the end of `v[lo..hi]` and returns
/// the new upper bound.
pub fn skip_trailing_in(v: &Vec<char>, lo: usize, hi: usize, class: CharClass) -> (b: usize)
    requires
        lo <= hi <= v@.len(),
    ensures
        lo <= b <= hi,
        v@.subrange(lo as int, b as int) == skip_trailing(v@.subrange(lo as int, hi as int), class),
{
    let mut b: usize = hi;
    while lo < b && class.has(v[b - 1])
        invariant
            lo <= b <= hi <= v@.len(),
            skip_trailing(v@.subrange(lo as int, hi as int), class) == skip_trailing(
                v@.subrange(lo as int, b as int),
                class,
            ),
        decreases b - lo,
    {
        assert(v@.subrange(lo as int, b as int).drop_last() =~= v@.subrange(lo as int, b - 1));
        b = b - 1;
    }
    b
}

/// Trims the characters of `class` from both ends of `v[lo..hi]` and returns
/// the bounds of what is left.
pub fn trim_range(v: &Vec<char>, lo: usize, hi: usize, class: CharClass) -> (r: (usize, usize))
    requires
        lo <= hi <= v@.len(),
    ensures
        lo <= r.0 <= r.1 <= hi,
        v@.subrange(r.0 as int, r.1 as int) == trim(v@.subrange(lo as int, hi as int), class),
{
    let a = skip_leading_in(v, lo, hi, class);
    let b = skip_trailing_in(v, a, hi, class);
    (a, b)
}

/// Removes `pat` from the front of `v[lo..hi]` as often as it stands there and
/// returns the new lower bound.
pub fn strip_prefixes_in(v: &Vec<char>, lo: usize, hi: usize, pat: &Vec<char>) -> (a: usize)
    requires
        lo <= hi <= v@.len(),
    ensures
        lo <= a <= hi,
        v@.subrange(a as int, hi as int) == strip_prefixes(
            v@.subrange(lo as int, hi as int),
            pat@,
        ),
{
    let n: usize = pat.len();
    let mut a: usize = lo;
    if n == 0 {
        return a;
    }
    while occurs_at(v, a, hi, pat)
        invariant
            lo <= a <= hi <= v@.len(),
            n == pat@.len(),
            n > 0,
            strip_prefixes(v@.subrange(lo as int, hi as int), pat@) == strip_prefixes(
                v@.subrange(a as int, hi as int),
                pat@,
            ),
        ensures
            lo <= a <= hi,
            !(a + n <= hi && v@.subrange(a as int, a + n) == pat@),
            strip_prefixes(v@.subrange(lo as int, hi as int), pat@) == strip_prefixes(
                v@.subrange(a as int, hi as int),
                pat@,
            ),
        decreases hi - a,
    {
        let ghost t = v@.subrange(a as int, hi as int);
        assert(t.subrange(0, n as int) =~= v@.subrange(a as int, a + n));
        assert(t.subrange(n as int, t.len() as int) =~= v@.subrange(a + n, hi as int));
        a = a + n;
    }
    proof {
        let t = v@.subrange(a as int, hi as int);
        if a + n <= hi {
            assert(t.subrange(0, n as int) =~= v@.subrange(a as int, a + n));
        }
    }
    a
}

/// Removes `pat` from the end of `v[lo..hi]` as often as it stands there and
/// returns the new upper bound.
pub fn strip_suffixes_in(v: &Vec<char>, lo: usize, hi: usize, pat: &Vec<char>) -> (b: usize)
    requires
        lo <= hi <= v@.len(),
    ensures
        lo <= b <= hi,
        v@.subrange(lo as int, b as int) == strip_suffixes(
            v@.subrange(lo as int, hi as int),
            pat@,
        ),
{
    let n: usize = pat.len();
    let mut b: usize = hi;
    if n == 0 {
        return b;
    }
    while b - lo >= n && occurs_at(v, b - n, b, pat)
        invariant
            lo <= b <= hi <= v@.len(),
            n == pat@.len(),
            n > 0,
            strip_suffixes(v@.subrange(lo as int, hi as int), pat@) == strip_suffixes(
                v@.subrange(lo as int, b as int),
                pat@,
            ),
        ensures
            lo <= b <= hi,
            !(b - lo >= n && v@.subrange(b - n, b as int) == pat@),
            strip_suffixes(v@.subrange(lo as int, hi as int), pat@) == strip_suffixes(
                v@.subrange(lo as int, b as int),
                pat@,
            ),
        decreases b - lo,
    {
        let ghost t = v@.subrange(lo as int, b as int);
        assert(t.subrange(t.len() - n, t.len() as int) =~= v@.subrange(b - n, b as int));
        assert(t.subrange(0, t.len() - n) =~= v@.subrange(lo as int, b - n));
        b = b - n;
    }
    proof {
        let t = v@.subrange(lo as int, b as int);
        if b - lo >= n {
            assert(t.subrange(t.len() - n, t.len() as int) =~= v@.subrange(b - n, b as int));
        }
    }
    b
}

/// The characters `from..to` of `s` as a new string.
pub fn substring(s: &str, from: usize, to: usize) -> (r: String)
    requires
        from <= to <= s@.len(),
    ensures
        r@ == s@.subrange(from as int, to as int),
{
    s.substring_char(from, to).to_owned()
}

/// Replaces every occurrence of `from` in `text` by `to`, scanning from the
/// left and resuming after each replaced occurrence.
pub fn replace(text: &str, from: &str, to: &str) -> (r: String)
    ensures
        r@ == replace_all(text@, from@, to@),
{
    let v = chars_of(text);
    let pat = chars_of(from);
    let n: usize = pat.len();
    let len: usize = v.len();
    if n == 0 || len < n {
        return text.to_owned();
    }
    let mut out = String::new();
    let mut start: usize = 0;
    let mut i: usize = 0;
    assert(v@.subrange(0, len as int) =~= v@);
    assert(out@ + v@.subrange(0, 0) + replace_all(v@, pat@, to@) =~= replace_all(v@, pat@, to@));
    while n <= len - i
        invariant
            0 < n <= len,
            n == pat@.len(),
            len == v@.len(),
            v@ == text@,
            pat@ == from@,
            start <= i <= len,
            replace_all(v@, pat@, to@) == out@ + v@.subrange(start as int, i as int) + replace_all(
                v@.subrange(i as int, len as int),
                pat@,
                to@,
            ),
        decreases len - i,
    {
        let ghost rest = v@.subrange(i as int, len as int);
        assert(rest.subrange(0, n as int) =~= v@.subrange(i as int, i + n));
        if occurs_at(&v, i, len, &pat) {
            assert(rest.subrange(n as int, rest.len() as int) =~= v@.subrange(i + n, len as int));
            let chunk = substring(text, start, i);
            out.append(chunk.as_str());
            out.append(to);
            i = i + n;
            start = i;
            assert(v@.subrange(start as int, i as int) =~= Seq::<char>::empty());
            assert(replace_all(v@, pat@, to@) =~= out@ + v@.subrange(start as int, i as int)
                + replace_all(v@.subrange(i as int, len as int), pat@, to@));
        } else {
            assert(rest.drop_first() =~= v@.subrange(i + 1, len as int));
            assert(v@.subrange(start as int, i + 1) =~= v@.subrange(start as int, i as int)
                + seq![rest[0]]);
            i = i + 1;
            assert(replace_all(v@, pat@, to@) =~= out@ + v@.subrange(start as int, i as int)
                + replace_all(v@.subrange(i as int, len as int), pat@, to@));
        }
    }
    let tail = substring(text, start, len);
    out.append(tail.as_str());
    proof {
        let rest = v@.subrange(i as int, len as int);
        assert(replace_all(rest, pat@, to@) == rest);
        assert(v@.subrange(start as int, len as int) =~= v@.subrange(start as int, i as int)
            + rest);
    }
    out
}

/// Where `pat` occurs nowhere from index `i` on, the search from `i` finds
/// nothing.
pub proof fn lemma_find_absent(s: Seq<char>, pat: Seq<char>, i: int)
    requires
        forall|j: int| i <= j ==> !matches_at(s, j, pat),
    ensures
        find_from(s, pat, i) is None,
    decreases s.len() - i,
{
    if 0 <= i && i + pat.len() <= s.len() && i < s.len() {
        lemma_find_absent(s, pat, i + 1);
    }
}

/// Where `pat` occurs at index `k` and nowhere from `i` up to `k`, the search
/// from `i` finds `k`.
pub proof fn lemma_find_first(s: Seq<char>, pat: Seq<char>, i: int, k: int)
    requires
        0 <= i <= k,
        matches_at(s, k, pat),
        forall|j: int| i <= j < k ==> !matches_at(s, j, pat),
    ensures
        find_from(s, pat, i) == Some(k),
    decreases k - i,
{
    if i < k {
        lemma_find_first(s, pat, i + 1, k);
    }
}

/// A search that finds nothing from `i` on means that `pat` occurs nowhere
/// from `i` on.
pub proof fn lemma_find_none(s: Seq<char>, pat: Seq<char>, i: int, j: int)
    requires
        0 <= i <= j,
        find_from(s, pat, i) is None,
    ensures
        !matches_at(s, j, pat),
    decreases j - i,
{
    if i + pat.len() <= s.len() && i < j {
        if i < s.len() {
            lemma_find_none(s, pat, i + 1, j);
        }
    }
}

/// A text in which `from` does not occur is left unchanged by replacing.
pub proof fn lemma_replace_absent(s: Seq<char>, from: Seq<char>, to: Seq<char>)
    requires
        find_from(s, from, 0) is None,
    ensures
        replace_all(s, from, to) == s,
    decreases s.len(),
{
    if from.len() > 0 && s.len() >= from.len() {
        lemma_find_none(s, from, 0, 0);
        let rest = s.drop_first();
        assert forall|j: int| 0 <= j implies !matches_at(rest, j, from) by {
            lemma_find_none(s, from, 0, j + 1);
            if j + from.len() <= rest.len() {
                assert(rest.subrange(j, j + from.len()) =~= s.subrange(j + 1, j + 1 + from.len()));
            }
        }
        lemma_find_absent(rest, from, 0);
        lemma_replace_absent(rest, from, to);
        assert(seq![s[0]] + rest =~= s);
    }
}

} // verus!
