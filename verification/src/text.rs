//! Character-level helpers shared by the parsers and formatters of the library.
use vstd::prelude::*;

verus! {

/// Whether `c` has the Unicode `White_Space` property, the set of characters
/// that `char::is_whitespace`, `str::trim` and `str::split_whitespace` treat as blank.
pub open spec fn spec_is_whitespace(c: char) -> bool {
    let v = c as u32;
    (9 <= v <= 13) || v == 32 || v == 0x85 || v == 0xA0 || v == 0x1680 || (0x2000 <= v
        <= 0x200A) || v == 0x2028 || v == 0x2029 || v == 0x202F || v == 0x205F || v == 0x3000
}

/// Executable twin of `spec_is_whitespace`.
pub fn is_whitespace(c: char) -> (r: bool)
    ensures
        r == spec_is_whitespace(c),
{
    let v = c as u32;
    (9 <= v && v <= 13) || v == 32 || v == 0x85 || v == 0xA0 || v == 0x1680 || (0x2000 <= v
        && v <= 0x200A) || v == 0x2028 || v == 0x2029 || v == 0x202F || v == 0x205F || v
        == 0x3000
}

/// Index of the first character at or after `i` that is not whitespace (or the end).
pub open spec fn trim_start_at(s: Seq<char>, i: int) -> int
    decreases s.len() - i,
{
    if 0 <= i < s.len() && spec_is_whitespace(s[i]) {
        trim_start_at(s, i + 1)
    } else {
        i
    }
}

/// End index (exclusive) left once trailing whitespace above `lo` is dropped from `s[..e]`.
pub open spec fn trim_end_at(s: Seq<char>, lo: int, e: int) -> int
    decreases e - lo,
{
    if lo < e && spec_is_whitespace(s[e - 1]) {
        trim_end_at(s, lo, e - 1)
    } else {
        e
    }
}

/// `s` without its leading and trailing whitespace, as `str::trim` gives it.
pub open spec fn spec_trim(s: Seq<char>) -> Seq<char> {
    let lo = trim_start_at(s, 0);
    s.subrange(lo, trim_end_at(s, lo, s.len() as int))
}

/// End (exclusive) of the run of non-whitespace characters that starts at `i`.
pub open spec fn token_end_at(s: Seq<char>, i: int) -> int
    decreases s.len() - i,
{
    if 0 <= i < s.len() && !spec_is_whitespace(s[i]) {
        token_end_at(s, i + 1)
    } else {
        i
    }
}

/// The first whitespace-separated word of `s`, as `split_whitespace().next()` gives it.
pub open spec fn spec_first_token(s: Seq<char>) -> Option<Seq<char>> {
    let lo = trim_start_at(s, 0);
    if lo < s.len() {
        Some(s.subrange(lo, token_end_at(s, lo)))
    } else {
        None
    }
}

/// The blanks are the ASCII tab, line feed, vertical tab, form feed, carriage
/// return and space, and the Unicode spaces (no-break space, ideographic
/// space, line and paragraph separators...); digits, letters and the
/// punctuation of times and tags are not blank.
pub proof fn lemma_whitespace_chars(c: char)
    ensures
        spec_is_whitespace(' ') && spec_is_whitespace('\t') && spec_is_whitespace('\n')
            && spec_is_whitespace('\r') && spec_is_whitespace('\u{0B}') && spec_is_whitespace(
            '\u{0C}',
        ) && spec_is_whitespace('\u{85}') && spec_is_whitespace('\u{A0}') && spec_is_whitespace(
            '\u{1680}',
        ) && spec_is_whitespace('\u{2000}') && spec_is_whitespace('\u{200A}')
            && spec_is_whitespace('\u{2028}') && spec_is_whitespace('\u{2029}')
            && spec_is_whitespace('\u{202F}') && spec_is_whitespace('\u{205F}')
            && spec_is_whitespace('\u{3000}'),
        (48 <= c as u32 <= 58 || 65 <= c as u32 <= 90 || 97 <= c as u32 <= 122 || c == '+' || c
            == '-' || c == '_' || c == '.') ==> !spec_is_whitespace(c),
        !spec_is_whitespace('\u{200B}') && !spec_is_whitespace('\u{0}') && !spec_is_whitespace(
            '\u{1F}',
        ),
{
}

/// `trim_start_at` stops at the first non-blank at or after `i` (or the end).
pub proof fn lemma_trim_start_at(s: Seq<char>, i: int)
    requires
        0 <= i <= s.len(),
    ensures
        i <= trim_start_at(s, i) <= s.len(),
        forall|j: int| i <= j < trim_start_at(s, i) ==> spec_is_whitespace(#[trigger] s[j]),
        trim_start_at(s, i) < s.len() ==> !spec_is_whitespace(s[trim_start_at(s, i)]),
    decreases s.len() - i,
{
    if i < s.len() && spec_is_whitespace(s[i]) {
        lemma_trim_start_at(s, i + 1);
    }
}

/// `trim_end_at` drops the blanks at the end of `s[lo..e]`, stopping at a non-blank.
pub proof fn lemma_trim_end_at(s: Seq<char>, lo: int, e: int)
    requires
        0 <= lo <= e <= s.len(),
    ensures
        lo <= trim_end_at(s, lo, e) <= e,
        forall|j: int| trim_end_at(s, lo, e) <= j < e ==> spec_is_whitespace(#[trigger] s[j]),
        trim_end_at(s, lo, e) > lo ==> !spec_is_whitespace(s[trim_end_at(s, lo, e) - 1]),
    decreases e - lo,
{
    if lo < e && spec_is_whitespace(s[e - 1]) {
        lemma_trim_end_at(s, lo, e - 1);
    }
}

/// `token_end_at` stops at the first blank at or after `i` (or the end).
pub proof fn lemma_token_end_at(s: Seq<char>, i: int)
    requires
        0 <= i <= s.len(),
    ensures
        i <= token_end_at(s, i) <= s.len(),
        forall|j: int| i <= j < token_end_at(s, i) ==> !spec_is_whitespace(#[trigger] s[j]),
        token_end_at(s, i) < s.len() ==> spec_is_whitespace(s[token_end_at(s, i)]),
    decreases s.len() - i,
{
    if i < s.len() && !spec_is_whitespace(s[i]) {
        lemma_token_end_at(s, i + 1);
    }
}

/// Trimming keeps the part of `s` between its leading and trailing blanks:
/// a run of `s` that neither starts nor ends with a blank (empty when `s` is
/// all blank), with only blanks before and after it.
pub proof fn lemma_trim_shape(s: Seq<char>)
    ensures
        exists|lo: int, hi: int|
            0 <= lo <= hi <= s.len() && spec_trim(s) == s.subrange(lo, hi) && (forall|j: int|
                0 <= j < lo ==> spec_is_whitespace(#[trigger] s[j])) && (forall|j: int|
                hi <= j < s.len() ==> spec_is_whitespace(#[trigger] s[j])) && (lo < hi
                ==> !spec_is_whitespace(s[lo]) && !spec_is_whitespace(s[hi - 1])),
{
    lemma_trim_start_at(s, 0);
    let lo = trim_start_at(s, 0);
    lemma_trim_end_at(s, lo, s.len() as int);
    let hi = trim_end_at(s, lo, s.len() as int);
    assert(0 <= lo <= hi <= s.len() && spec_trim(s) == s.subrange(lo, hi));
}

/// The first word of `s` is its first maximal run of non-blank characters:
/// there is none when `s` is all blank; otherwise only blanks come before
/// it, it holds no blank, and a blank or the end of `s` follows it.
pub proof fn lemma_first_token_shape(s: Seq<char>)
    ensures
        spec_first_token(s) is None <==> forall|j: int| 0 <= j < s.len() ==> spec_is_whitespace(#[trigger] s[j]),
        spec_first_token(s) is Some ==> exists|lo: int, hi: int|
            0 <= lo < hi <= s.len() && spec_first_token(s)->0 == s.subrange(lo, hi) && (forall|j: int|
                0 <= j < lo ==> spec_is_whitespace(#[trigger] s[j])) && (forall|j: int|
                lo <= j < hi ==> !spec_is_whitespace(#[trigger] s[j])) && (hi == s.len()
                || spec_is_whitespace(s[hi])),
{
    lemma_trim_start_at(s, 0);
    let lo = trim_start_at(s, 0);
    if lo < s.len() {
        lemma_token_end_at(s, lo);
        let hi = token_end_at(s, lo);
        assert(!spec_is_whitespace(s[lo]));
        assert(0 <= lo < hi <= s.len());
        assert(spec_first_token(s)->0 == s.subrange(lo, hi));
    }
}

/// The characters of a string slice, one per element.
pub fn chars_of(s: &str) -> (v: Vec<char>)
    ensures
        v@ == s@,
{
    let n = s.unicode_len();
    let mut v: Vec<char> = Vec::new();
    let mut i: usize = 0;
    while i < n
        invariant
            n == s@.len(),
            i <= n,
            v@ == s@.subrange(0, i as int),
        decreases n - i,
    {
        v.push(s.get_char(i));
        i = i + 1;
    }
    v
}

/// First whitespace-separated word of `s`, or `None` when `s` is blank.
pub fn first_token(s: &str) -> (r: Option<String>)
    ensures
        match r {
            Some(w) => spec_first_token(s@) == Some(w@),
            None => spec_first_token(s@) is None,
        },
{
    let v = chars_of(s);
    let n = v.len();
    let mut lo: usize = 0;
    while lo < n && is_whitespace(v[lo])
        invariant
            v@ == s@,
            n == s@.len(),
            lo <= n,
            trim_start_at(s@, 0) == trim_start_at(s@, lo as int),
        decreases n - lo,
    {
        lo = lo + 1;
    }
    if lo == n {
        return None;
    }
    let mut hi: usize = lo;
    while hi < n && !is_whitespace(v[hi])
        invariant
            v@ == s@,
            n == s@.len(),
            lo <= hi <= n,
            token_end_at(s@, lo as int) == token_end_at(s@, hi as int),
        decreases n - hi,
    {
        hi = hi + 1;
    }
    let word = s.substring_char(lo, hi);
    Some(word.to_owned())
}

/// Character-wise equality of two string slices.
pub fn str_eq(a: &str, b: &str) -> (r: bool)
    ensures
        r == (a@ == b@),
{
    let n = a.unicode_len();
    let m = b.unicode_len();
    if n != m {
        return false;
    }
    let mut i: usize = 0;
    while i < n
        invariant
            n == a@.len(),
            m == b@.len(),
            n == m,
            i <= n,
            forall|j: int| 0 <= j < i ==> a@[j] == b@[j],
        decreases n - i,
    {
        if a.get_char(i) != b.get_char(i) {
            return false;
        }
        i = i + 1;
    }
    assert(a@ =~= b@);
    true
}

/// The decimal digit character for `d`.
pub open spec fn digit_char(d: int) -> char {
    (48 + d) as char
}

/// One-character string holding the decimal digit `d`.
pub fn digit_str(d: u64) -> (s: &'static str)
    requires
        d < 10,
    ensures
        s@ == seq![digit_char(d as int)],
{
    let digits = "0123456789";
    proof {
        reveal_strlit("0123456789");
    }
    let s = digits.substring_char(d as usize, d as usize + 1);
    assert(s@ =~= seq![digit_char(d as int)]);
    s
}

/// Decimal rendering of `n`, as `format!("{}", n)` writes it.
pub open spec fn spec_decimal(n: nat) -> Seq<char>
    decreases n,
{
    if n < 10 {
        seq![digit_char(n as int)]
    } else {
        spec_decimal(n / 10).push(digit_char((n % 10) as int))
    }
}

/// Decimal rendering of `n`.
pub fn decimal_string(n: usize) -> (s: String)
    ensures
        s@ == spec_decimal(n as nat),
    decreases n,
{
    if n < 10 {
        let mut s = String::new();
        s.append(digit_str(n as u64));
        assert(s@ =~= spec_decimal(n as nat));
        s
    } else {
        let mut s = decimal_string(n / 10);
        s.append(digit_str((n % 10) as u64));
        assert(s@ =~= spec_decimal(n as nat));
        s
    }
}

/// A decimal rendering is a non-empty string of digits with no leading zero
/// (unless it is `0`).
pub proof fn lemma_decimal_shape(n: nat)
    ensures
        spec_decimal(n).len() > 0,
        forall|i: int|
            0 <= i < spec_decimal(n).len() ==> 48 <= (#[trigger] spec_decimal(n)[i]) as u32 <= 57,
        spec_decimal(n).len() > 1 ==> spec_decimal(n)[0] != '0',
        n < 10 <==> spec_decimal(n).len() == 1,
    decreases n,
{
    if n >= 10 {
        lemma_decimal_shape(n / 10);
        let p = spec_decimal(n / 10);
        assert forall|i: int| 0 <= i < spec_decimal(n).len() implies 48 <= (#[trigger] spec_decimal(
            n,
        )[i]) as u32 <= 57 by {
            if i < p.len() {
                assert(spec_decimal(n)[i] == p[i]);
            }
        }
        assert(spec_decimal(n)[0] == p[0]);
        if p.len() == 1 {
            assert((p[0] as u32) == 48 + n / 10);
        }
    }
}

/// `prefix` followed by the decimal rendering of `n`.
pub fn prefixed_number(prefix: &str, n: usize) -> (s: String)
    ensures
        s@ == prefix@ + spec_decimal(n as nat),
{
    let mut s = prefix.to_owned();
    let d = decimal_string(n);
    s.append(d.as_str());
    s
}

} // verus!
