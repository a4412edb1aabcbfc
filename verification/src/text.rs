//! Character-level text operations: whitespace trimming, substring search,
//! decimal rendering and parsing of integers.

use vstd::prelude::*;

verus! {

/// Unicode `White_Space`, the set that `char::is_whitespace` tests.
pub open spec fn is_white_space(c: char) -> bool {
    ||| ('\u{9}' <= c && c <= '\u{d}')
    ||| c == ' '
    ||| c == '\u{85}'
    ||| c == '\u{a0}'
    ||| c == '\u{1680}'
    ||| ('\u{2000}' <= c && c <= '\u{200a}')
    ||| c == '\u{2028}'
    ||| c == '\u{2029}'
    ||| c == '\u{202f}'
    ||| c == '\u{205f}'
    ||| c == '\u{3000}'
}

/// `s` without its leading white space.
pub open spec fn trim_start(s: Seq<char>) -> Seq<char>
    decreases s.len(),
{
    if s.len() > 0 && is_white_space(s[0]) {
        trim_start(s.drop_first())
    } else {
        s
    }
}

/// `s` without its trailing white space.
pub open spec fn trim_end(s: Seq<char>) -> Seq<char>
    decreases s.len(),
{
    if s.len() > 0 && is_white_space(s.last()) {
        trim_end(s.drop_last())
    } else {
        s
    }
}

/// `s` without leading and trailing white space, as `str::trim` gives it.
pub open spec fn trim(s: Seq<char>) -> Seq<char> {
    trim_end(trim_start(s))
}

/// `pat` occurs in `s` starting at index `i`.
pub open spec fn matches_at(s: Seq<char>, pat: Seq<char>, i: int) -> bool {
    0 <= i && i + pat.len() <= s.len() && s.subrange(i, i + pat.len()) == pat
}

/// The first index at or after `from` where `pat` occurs in `s`.
pub open spec fn first_match_from(s: Seq<char>, pat: Seq<char>, from: int) -> Option<int>
    decreases s.len() + 1 - from,
{
    if from < 0 || from + pat.len() > s.len() {
        None
    } else if matches_at(s, pat, from) {
        Some(from)
    } else {
        first_match_from(s, pat, from + 1)
    }
}

/// The first index where `pat` occurs in `s`, as `str::find` locates it.
pub open spec fn first_match(s: Seq<char>, pat: Seq<char>) -> Option<int> {
    first_match_from(s, pat, 0)
}

/// `pat` occurs somewhere in `s`, as `str::contains` decides it.
pub open spec fn contains_seq(s: Seq<char>, pat: Seq<char>) -> bool {
    first_match(s, pat) is Some
}

/// The ASCII digit for `d < 10`.
pub open spec fn digit_char(d: nat) -> char {
    (48 + d) as char
}

/// Decimal rendering of `n`, without leading zeros.
pub open spec fn decimal(n: nat) -> Seq<char>
    decreases n,
{
    if n < 10 {
        seq![digit_char(n)]
    } else {
        decimal(n / 10).push(digit_char(n % 10))
    }
}

/// An ASCII decimal digit.
pub open spec fn is_ascii_digit(c: char) -> bool {
    '0' <= c && c <= '9'
}

/// The number that a string of ASCII digits denotes.
pub open spec fn digits_value(s: Seq<char>) -> int
    decreases s.len(),
{
    if s.len() == 0 {
        0
    } else {
        digits_value(s.drop_last()) * 10 + (s.last() as int - 48)
    }
}

/// `s` without its leading `+` or `-`, if it has one.
pub open spec fn unsigned_part(s: Seq<char>) -> Seq<char> {
    if s.len() > 0 && (s[0] == '-' || s[0] == '+') {
        s.drop_first()
    } else {
        s
    }
}

/// `d` is a non-empty run of ASCII digits.
pub open spec fn all_digits(d: Seq<char>) -> bool {
    d.len() > 0 && forall|i: int| 0 <= i < d.len() ==> is_ascii_digit(#[trigger] d[i])
}

/// What `str::parse::<i64>` yields: an optional `+` or `-` followed by at
/// least one ASCII digit and nothing else, whose value fits in an `i64`.
pub open spec fn parse_i64_spec(s: Seq<char>) -> Option<i64> {
    let neg = s.len() > 0 && s[0] == '-';
    let digits = unsigned_part(s);
    if all_digits(digits) {
        let v = if neg {
            -digits_value(digits)
        } else {
            digits_value(digits)
        };
        if i64::MIN <= v && v <= i64::MAX {
            Some(v as i64)
        } else {
            None
        }
    } else {
        None
    }
}

/// Whether `c` is white space, as `char::is_whitespace` decides it.
pub fn is_whitespace(c: char) -> (r: bool)
    ensures
        r == is_white_space(c),
{
    ('\u{9}' <= c && c <= '\u{d}') || c == ' ' || c == '\u{85}' || c == '\u{a0}' || c == '\u{1680}'
        || ('\u{2000}' <= c && c <= '\u{200a}') || c == '\u{2028}' || c == '\u{2029}' || c
        == '\u{202f}' || c == '\u{205f}' || c == '\u{3000}'
}

/// The characters of `s`, in order.
pub fn chars_of(s: &str) -> (v: Vec<char>)
    ensures
        v@ == s@,
{
    let mut v: Vec<char> = Vec::new();
    for c in it: s.chars()
        invariant
            it.seq() == s@,
            v@ == it.seq().take(it.index() as int),
    {
        v.push(c);
    }
    v
}


proof fn lemma_trim_start_step(s: Seq<char>, i: int)
    requires
        0 <= i < s.len(),
        is_white_space(s[i]),
    ensures
        trim_start(s.subrange(i, s.len() as int)) == trim_start(s.subrange(i + 1, s.len() as int)),
{
    assert(s.subrange(i, s.len() as int).drop_first() =~= s.subrange(i + 1, s.len() as int));
}

proof fn lemma_trim_end_step(s: Seq<char>, hi: int)
    requires
        0 < hi <= s.len(),
        is_white_space(s[hi - 1]),
    ensures
        trim_end(s.subrange(0, hi)) == trim_end(s.subrange(0, hi - 1)),
{
    assert(s.subrange(0, hi).drop_last() =~= s.subrange(0, hi - 1));
}

/// `s` with leading and trailing white space removed.
pub fn trim_chars(s: &Vec<char>) -> (r: Vec<char>)
    ensures
        r@ == trim(s@),
{
    let n = s.len();
    let mut lo: usize = 0;
    assert(s@.subrange(0, n as int) =~= s@);
    while lo < n && is_whitespace(s[lo])
        invariant
            n == s.len(),
            lo <= n,
            trim_start(s@) == trim_start(s@.subrange(lo as int, n as int)),
        decreases n - lo,
    {
        proof {
            lemma_trim_start_step(s@, lo as int);
        }
        lo = lo + 1;
    }
    let ghost t = s@.subrange(lo as int, n as int);
    assert(trim_start(s@) == t);
    let mut hi: usize = n;
    assert(t.subrange(0, (hi - lo) as int) =~= t);
    while hi > lo && is_whitespace(s[hi - 1])
        invariant
            n == s.len(),
            lo <= hi <= n,
            t == s@.subrange(lo as int, n as int),
            trim_end(t) == trim_end(t.subrange(0, (hi - lo) as int)),
        decreases hi,
    {
        proof {
            lemma_trim_end_step(t, (hi - lo) as int);
        }
        hi = hi - 1;
    }
    let mut r: Vec<char> = Vec::new();
    let mut k: usize = lo;
    while k < hi
        invariant
            n == s.len(),
            lo <= k <= hi <= n,
            r@ == s@.subrange(lo as int, k as int),
        decreases hi - k,
    {
        r.push(s[k]);
        assert(r@ =~= s@.subrange(lo as int, k + 1));
        k = k + 1;
    }
    assert(t.subrange(0, (hi - lo) as int) =~= s@.subrange(lo as int, hi as int));
    r
}

/// Whether `pat` occurs in `s` at index `i`.
pub fn matches_at_exec(s: &Vec<char>, pat: &Vec<char>, i: usize) -> (r: bool)
    ensures
        r == matches_at(s@, pat@, i as int),
{
    if i > s.len() || pat.len() > s.len() - i {
        return false;
    }
    let mut j: usize = 0;
    while j < pat.len()
        invariant
            i + pat.len() <= s.len(),
            j <= pat.len(),
            forall|k: int| 0 <= k < j ==> s@[i + k] == pat@[k],
        decreases pat.len() - j,
    {
        if s[i + j] != pat[j] {
            assert(s@.subrange(i as int, i + pat.len())[j as int] != pat@[j as int]);
            return false;
        }
        j = j + 1;
    }
    assert(s@.subrange(i as int, i + pat.len()) =~= pat@);
    true
}

/// The first index at or after `from` where `pat` occurs in `s`.
pub fn find_from(s: &Vec<char>, pat: &Vec<char>, from: usize) -> (r: Option<usize>)
    ensures
        match r {
            Some(i) => first_match_from(s@, pat@, from as int) == Some(i as int) && from <= i && i
                + pat.len() <= s.len(),
            None => first_match_from(s@, pat@, from as int) is None,
        },
{
    let mut i: usize = from;
    while i <= s.len() && pat.len() <= s.len() - i
        invariant
            from <= i,
            first_match_from(s@, pat@, from as int) == first_match_from(s@, pat@, i as int),
        decreases s.len() + 1 - i,
    {
        if matches_at_exec(s, pat, i) {
            return Some(i);
        }
        if i == s.len() {
            assert(first_match_from(s@, pat@, i + 1) is None);
            return None;
        }
        i = i + 1;
    }
    None
}

/// Whether `pat` occurs in `s`, as `str::contains` decides it.
pub fn contains(s: &str, pat: &str) -> (r: bool)
    ensures
        r == contains_seq(s@, pat@),
{
    let sv = chars_of(s);
    let pv = chars_of(pat);
    find_from(&sv, &pv, 0).is_some()
}

/// Collects characters into a `String` (`String::from_iter` over `char`).
#[verifier::external_body]
pub(crate) fn string_from_chars(v: &Vec<char>) -> (r: String)
    ensures
        r@ == v@,
{
    v.iter().collect()
}

/// The decimal rendering of `n`, as `Display` for integers writes it.
pub fn decimal_string(n: u64) -> (r: String)
    ensures
        r@ == decimal(n as nat),
{
    let mut digits: Vec<char> = Vec::new();
    let mut m: u64 = n;
    // digits holds the low-order digits of n, most significant first
    while m >= 10
        invariant
            m <= n,
            decimal(n as nat) == decimal(m as nat) + digits@,
        decreases m,
    {
        let d = m % 10;
        let c = ((d as u8) + 48u8) as char;
        assert(c == digit_char(d as nat));
        let ghost old_digits = digits@;
        digits.insert(0, c);
        assert(decimal(m as nat) == decimal((m / 10) as nat).push(c));
        assert(decimal((m / 10) as nat) + digits@ =~= decimal((m / 10) as nat).push(c) + old_digits);
        m = m / 10;
    }
    let c = ((m as u8) + 48u8) as char;
    assert(c == digit_char(m as nat));
    digits.insert(0, c);
    assert(decimal(m as nat) =~= seq![c]);
    string_from_chars(&digits)
}


/// `str::parse::<i64>` (`i64::from_str`), whose documentation states that
/// the text must be an optional `+` or `-` followed by decimal digits only,
/// and that a value out of range is an error.
#[verifier::external_body]
pub(crate) fn parse_i64(s: &str) -> (r: Option<i64>)
    ensures
        r == parse_i64_spec(s@),
{
    s.parse::<i64>().ok()
}

/// `s` without leading and trailing white space (`str::trim`).
pub fn trim_str(s: &str) -> (r: String)
    ensures
        r@ == trim(s@),
{
    let v = chars_of(s);
    let t = trim_chars(&v);
    string_from_chars(&t)
}

/// Every character of `decimal(n)` is a digit, and its value is `n`.
pub proof fn lemma_decimal_digits(n: nat)
    ensures
        decimal(n).len() > 0,
        forall|i: int| 0 <= i < decimal(n).len() ==> is_ascii_digit(#[trigger] decimal(n)[i]),
        digits_value(decimal(n)) == n,
    decreases n,
{
    if n < 10 {
        let d = decimal(n);
        assert(d.drop_last() =~= Seq::<char>::empty());
        assert(digit_char(n) as int == 48 + n);
        assert(d.last() == digit_char(n));
        assert(digits_value(d) == digits_value(d.drop_last()) * 10 + (d.last() as int - 48));
    } else {
        lemma_decimal_digits(n / 10);
        assert(decimal(n).drop_last() =~= decimal(n / 10));
        assert(digit_char(n % 10) as int == 48 + n % 10);
        assert((n / 10) * 10 + n % 10 == n) by (nonlinear_arith);
        let d = decimal(n);
        assert(d.last() == digit_char(n % 10));
        assert(digits_value(d) == digits_value(d.drop_last()) * 10 + (d.last() as int - 48));
    }
}

/// Reading back the decimal rendering of a non-negative `i64` gives the
/// number itself.
pub proof fn lemma_parse_decimal_roundtrip(n: i64)
    requires
        n >= 0,
    ensures
        parse_i64_spec(decimal(n as nat)) == Some(n),
{
    lemma_decimal_digits(n as nat);
    let d = decimal(n as nat);
    assert(is_ascii_digit(d[0]));
    assert(unsigned_part(d) == d);
}


/// The characters of `s` from index `lo` up to (not including) `hi`.
pub fn slice_chars(s: &Vec<char>, lo: usize, hi: usize) -> (r: Vec<char>)
    requires
        lo <= hi <= s.len(),
    ensures
        r@ == s@.subrange(lo as int, hi as int),
{
    let mut r: Vec<char> = Vec::new();
    let mut k: usize = lo;
    while k < hi
        invariant
            lo <= k <= hi <= s.len(),
            r@ == s@.subrange(lo as int, k as int),
        decreases hi - k,
    {
        r.push(s[k]);
        assert(r@ =~= s@.subrange(lo as int, k + 1));
        k = k + 1;
    }
    r
}


/// Looking for `pat` at or after `a.len() + k` in `a + b` is looking for it
/// at or after `k` in `b`, shifted by `a.len()`.
pub proof fn lemma_first_match_shift(a: Seq<char>, b: Seq<char>, pat: Seq<char>, k: int)
    requires
        0 <= k,
    ensures
        first_match_from(a + b, pat, a.len() + k) == (match first_match_from(b, pat, k) {
            Some(m) => Some(m + a.len()),
            None => None,
        }),
    decreases b.len() + 1 - k,
{
    let s = a + b;
    if k + pat.len() <= b.len() {
        assert(s.subrange(a.len() + k, a.len() + k + pat.len()) =~= b.subrange(k, k + pat.len()));
        if !matches_at(b, pat, k) {
            lemma_first_match_shift(a, b, pat, k + 1);
        }
    }
}

/// A first match that lies wholly inside `s` stays the first match when
/// more text follows `s`.
pub proof fn lemma_first_match_extend(s: Seq<char>, t: Seq<char>, pat: Seq<char>, k: int)
    requires
        0 <= k,
        first_match_from(s, pat, k) is Some,
    ensures
        first_match_from(s + t, pat, k) == first_match_from(s, pat, k),
    decreases s.len() + 1 - k,
{
    let st = s + t;
    assert(k + pat.len() <= s.len());
    assert(st.subrange(k, k + pat.len()) =~= s.subrange(k, k + pat.len()));
    if !matches_at(s, pat, k) {
        lemma_first_match_extend(s, t, pat, k + 1);
    }
}

/// `pat` is found at the very start of any text that begins with it.
pub proof fn lemma_first_match_at_start(pat: Seq<char>, rest: Seq<char>)
    ensures
        first_match(pat + rest, pat) == Some(0int),
{
    assert((pat + rest).subrange(0, pat.len() as int) =~= pat);
}


/// Where no match was found from `from` on, there is none at any index from
/// `from` on.
pub proof fn lemma_no_match_from(s: Seq<char>, pat: Seq<char>, from: int, p: int)
    requires
        0 <= from <= p,
        first_match_from(s, pat, from) is None,
    ensures
        !matches_at(s, pat, p),
    decreases p - from,
{
    if from + pat.len() <= s.len() && from < p {
        lemma_no_match_from(s, pat, from + 1, p);
    }
}

/// The first match at or after `from` is `m` when there is a match at `m`
/// and none between `from` and `m`.
pub proof fn lemma_first_match_is(s: Seq<char>, pat: Seq<char>, from: int, m: int)
    requires
        0 <= from <= m,
        matches_at(s, pat, m),
        forall|p: int| from <= p < m ==> !#[trigger] matches_at(s, pat, p),
    ensures
        first_match_from(s, pat, from) == Some(m),
    decreases m - from,
{
    if from < m {
        assert(!matches_at(s, pat, from));
        lemma_first_match_is(s, pat, from + 1, m);
    }
}

/// When `a` holds no `pat`, and the first character of `pat` occurs in it
/// nowhere else, the first `pat` in `a + b` is one that `b` starts with.
pub proof fn lemma_first_match_at_boundary(a: Seq<char>, b: Seq<char>, pat: Seq<char>)
    requires
        pat.len() > 0,
        forall|k: int| 1 <= k < pat.len() ==> #[trigger] pat[k] != pat[0],
        first_match(a, pat) is None,
        pat.len() <= b.len(),
        b.subrange(0, pat.len() as int) == pat,
    ensures
        first_match(a + b, pat) == Some(a.len() as int),
{
    let s = a + b;
    assert(s.subrange(a.len() as int, (a.len() + pat.len()) as int) =~= b.subrange(0, pat.len() as int));
    assert forall|p: int| 0 <= p < a.len() implies !#[trigger] matches_at(s, pat, p) by {
        if p + pat.len() <= a.len() {
            lemma_no_match_from(a, pat, 0, p);
            assert(s.subrange(p, p + pat.len()) =~= a.subrange(p, p + pat.len()));
        } else if matches_at(s, pat, p) {
            let k = a.len() - p;
            assert(s.subrange(p, p + pat.len())[k] == s[a.len() as int]);
            assert(s[a.len() as int] == b[0]);
            assert(b.subrange(0, pat.len() as int)[0] == b[0]);
            assert(pat[k] == pat[0]);
        }
    }
    lemma_first_match_is(s, pat, 0, a.len() as int);
}


/// The first match at or after `from` is a match, and no match comes
/// before it; when there is none, `pat` occurs nowhere from `from` on.
pub proof fn lemma_first_match_meaning(s: Seq<char>, pat: Seq<char>, from: int)
    requires
        0 <= from,
    ensures
        first_match_from(s, pat, from) matches Some(m) ==> from <= m && matches_at(s, pat, m)
            && forall|p: int| from <= p < m ==> !#[trigger] matches_at(s, pat, p),
        first_match_from(s, pat, from) is None ==> forall|p: int|
            from <= p ==> !#[trigger] matches_at(s, pat, p),
    decreases s.len() + 1 - from,
{
    if from + pat.len() <= s.len() && !matches_at(s, pat, from) {
        lemma_first_match_meaning(s, pat, from + 1);
    }
    if first_match_from(s, pat, from) is None {
        assert forall|p: int| from <= p implies !#[trigger] matches_at(s, pat, p) by {
            lemma_no_match_from(s, pat, from, p);
        }
    }
}

/// Trimming keeps a contiguous stretch of the text, drops only white space
/// before and after it, and leaves no white space at either end of it.
pub proof fn lemma_trim_meaning(s: Seq<char>)
    ensures
        exists|i: int, j: int|
            0 <= i <= j <= s.len() && trim(s) == s.subrange(i, j) && (forall|k: int|
                0 <= k < i ==> is_white_space(#[trigger] s[k])) && (forall|k: int|
                j <= k < s.len() ==> is_white_space(#[trigger] s[k])),
        trim(s).len() > 0 ==> !is_white_space(trim(s)[0]) && !is_white_space(trim(s).last()),
{
    let (i, t) = lemma_trim_start_meaning(s);
    let j = lemma_trim_end_meaning(t);
    assert(trim(s) == t.subrange(0, j));
    assert(t.subrange(0, j) =~= s.subrange(i, i + j));
    assert forall|k: int| i + j <= k < s.len() implies is_white_space(#[trigger] s[k]) by {
        assert(s[k] == t[k - i]);
    }
    assert(trim(s) == s.subrange(i, i + j));
}

proof fn lemma_trim_start_meaning(s: Seq<char>) -> (r: (int, Seq<char>))
    ensures
        0 <= r.0 <= s.len(),
        r.1 == trim_start(s),
        r.1 == s.subrange(r.0, s.len() as int),
        forall|k: int| 0 <= k < r.0 ==> is_white_space(#[trigger] s[k]),
        r.1.len() > 0 ==> !is_white_space(r.1[0]),
    decreases s.len(),
{
    if s.len() > 0 && is_white_space(s[0]) {
        let (i, t) = lemma_trim_start_meaning(s.drop_first());
        assert(t =~= s.subrange(i + 1, s.len() as int));
        assert forall|k: int| 0 <= k < i + 1 implies is_white_space(#[trigger] s[k]) by {
            if k > 0 {
                assert(s[k] == s.drop_first()[k - 1]);
            }
        }
        (i + 1, t)
    } else {
        assert(s.subrange(0, s.len() as int) =~= s);
        (0, s)
    }
}

proof fn lemma_trim_end_meaning(s: Seq<char>) -> (j: int)
    ensures
        0 <= j <= s.len(),
        trim_end(s) == s.subrange(0, j),
        forall|k: int| j <= k < s.len() ==> is_white_space(#[trigger] s[k]),
        j > 0 ==> !is_white_space(s[j - 1]),
    decreases s.len(),
{
    if s.len() > 0 && is_white_space(s.last()) {
        let j = lemma_trim_end_meaning(s.drop_last());
        assert(s.drop_last().subrange(0, j) =~= s.subrange(0, j));
        assert forall|k: int| j <= k < s.len() implies is_white_space(#[trigger] s[k]) by {
            if k < s.len() - 1 {
                assert(s[k] == s.drop_last()[k]);
            }
        }
        j
    } else {
        assert(s.subrange(0, s.len() as int) =~= s);
        s.len() as int
    }
}

} // verus!
