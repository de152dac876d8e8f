//! Wall-clock times written as `HH:MM`: parsing a target arrival time and
//! formatting scheduled stop times.
use vstd::prelude::*;
use crate::text::{chars_of, digit_char, spec_decimal, digit_str, is_whitespace, spec_trim, trim_end_at, trim_start_at};

verus! {

/// An ASCII decimal digit.
pub open spec fn is_digit(c: char) -> bool {
    48 <= (c as u32) <= 57
}

/// The number written by a string of decimal digits (0 for the empty string).
pub open spec fn digits_value(d: Seq<char>) -> nat
    decreases d.len(),
{
    if d.len() == 0 {
        0
    } else {
        digits_value(d.drop_last()) * 10 + ((d.last() as u32) - 48) as nat
    }
}

/// Every character of `d` is an ASCII digit.
pub open spec fn all_digits(d: Seq<char>) -> bool {
    forall|i: int| 0 <= i < d.len() ==> is_digit(#[trigger] d[i])
}

/// `p` without one leading `+` sign, if it has one.
pub open spec fn strip_plus(p: Seq<char>) -> Seq<char> {
    if p.len() > 0 && p[0] == '+' {
        p.drop_first()
    } else {
        p
    }
}

/// What `str::parse::<u32>` yields: an optional `+`, then one or more ASCII
/// digits whose value fits in a `u32`; anything else is an error.
pub open spec fn spec_parse_u32(p: Seq<char>) -> Option<nat> {
    let d = strip_plus(p);
    if d.len() > 0 && all_digits(d) && digits_value(d) <= u32::MAX {
        Some(digits_value(d))
    } else {
        None
    }
}

/// `k` is the position of the one and only `:` of `t`.
pub open spec fn single_colon(t: Seq<char>, k: int) -> bool {
    &&& 0 <= k < t.len()
    &&& t[k] == ':'
    &&& forall|j: int| 0 <= j < t.len() && j != k ==> #[trigger] t[j] != ':'
}

/// The hour and minute fields of an `HH:MM` time: the trimmed text splits at
/// `:` into exactly two parts, each of which parses as a `u32`.
pub open spec fn spec_hhmm_fields(s: Seq<char>) -> Option<(nat, nat)> {
    let t = spec_trim(s);
    if exists|k: int| single_colon(t, k) {
        let k = choose|k: int| single_colon(t, k);
        match (spec_parse_u32(t.subrange(0, k)), spec_parse_u32(t.subrange(k + 1, t.len() as int))) {
            (Some(h), Some(m)) => Some((h, m)),
            _ => None,
        }
    } else {
        None
    }
}

/// Seconds after midnight that an `HH:MM` time stands for.
pub open spec fn spec_parse_hhmm(s: Seq<char>) -> Option<nat> {
    match spec_hhmm_fields(s) {
        Some((h, m)) => Some(h * 3600 + m * 60),
        None => None,
    }
}

/// The seconds of an `HH:MM` time fit in a `u32` (always true when it does not parse).
pub open spec fn hhmm_fits_u32(s: Seq<char>) -> bool {
    match spec_parse_hhmm(s) {
        Some(v) => v <= u32::MAX,
        None => true,
    }
}

/// Two-digit zero-padded rendering of `n` (for `0 <= n < 100`).
pub open spec fn two_digits(n: int) -> Seq<char> {
    seq![digit_char(n / 10), digit_char(n % 10)]
}

/// `HH:MM` for a count of minutes after midnight, wrapped onto a 24-hour clock.
pub open spec fn spec_clock(total_mins: int) -> Seq<char> {
    let p = total_mins % 1440;
    two_digits(p / 60) + seq![':'] + two_digits(p % 60)
}

proof fn lemma_prefix_value_le(d: Seq<char>, i: int)
    requires
        0 <= i <= d.len(),
        forall|j: int| 0 <= j < d.len() ==> is_digit(#[trigger] d[j]),
    ensures
        digits_value(d.subrange(0, i)) <= digits_value(d),
    decreases d.len() - i,
{
    if i < d.len() {
        assert(d.subrange(0, i + 1).drop_last() =~= d.subrange(0, i));
        lemma_prefix_value_le(d, i + 1);
        if i + 1 == d.len() {
            assert(d.subrange(0, i + 1) =~= d);
        }
    } else {
        assert(d.subrange(0, i) =~= d);
    }
}

/// Parses `v[lo..hi]` as `str::parse::<u32>` does.
fn parse_u32_range(v: &Vec<char>, lo: usize, hi: usize) -> (r: Option<u32>)
    requires
        lo <= hi <= v@.len(),
    ensures
        match r {
            Some(x) => spec_parse_u32(v@.subrange(lo as int, hi as int)) == Some(x as nat),
            None => spec_parse_u32(v@.subrange(lo as int, hi as int)) is None,
        },
{
    let ghost p = v@.subrange(lo as int, hi as int);
    let mut start = lo;
    if lo < hi && v[lo] == '+' {
        start = lo + 1;
    }
    let ghost d = v@.subrange(start as int, hi as int);
    assert(d =~= strip_plus(p));
    if start == hi {
        return None;
    }
    let mut acc: u64 = 0;
    let mut k: usize = start;
    while k < hi
        invariant
            lo <= start <= k <= hi <= v@.len(),
            d == v@.subrange(start as int, hi as int),
            p == v@.subrange(lo as int, hi as int),
            d == strip_plus(p),
            forall|j: int| 0 <= j < k - start ==> is_digit(#[trigger] d[j]),
            acc == digits_value(d.subrange(0, k - start)),
            acc <= u32::MAX,
        decreases hi - k,
    {
        let c = v[k];
        let cv = c as u32;
        if !(cv >= 48 && cv <= 57) {
            assert(d[k - start] == c);
            assert(!is_digit(d[k - start]));
            return None;
        }
        let next = acc * 10 + (cv - 48) as u64;
        assert(d.subrange(0, k + 1 - start).drop_last() =~= d.subrange(0, k - start));
        assert(d[k - start] == c);
        if next > 4294967295 {
            proof {
                if all_digits(d) {
                    lemma_prefix_value_le(d, k + 1 - start);
                }
            }
            return None;
        }
        proof {
            let pre = d.subrange(0, k + 1 - start);
            assert(pre.last() == c);
            assert(is_digit(d[k - start]));
            assert(digits_value(pre) == digits_value(pre.drop_last()) * 10 + ((c as u32) - 48) as nat);
        }
        acc = next;
        k = k + 1;
    }
    assert(d.subrange(0, hi - start) =~= d);
    Some(acc as u32)
}

/// Hour and minute fields of an `HH:MM` time; `None` when the text is not of that shape.
pub fn parse_hhmm_fields(hhmm: &str) -> (r: Option<(u32, u32)>)
    ensures
        match r {
            Some((h, m)) => spec_hhmm_fields(hhmm@) == Some((h as nat, m as nat)),
            None => spec_hhmm_fields(hhmm@) is None,
        },
{
    let v = chars_of(hhmm);
    let ghost s = hhmm@;
    let n = v.len();
    let mut lo: usize = 0;
    while lo < n && is_whitespace(v[lo])
        invariant
            v@ == s,
            n == s.len(),
            lo <= n,
            trim_start_at(s, 0) == trim_start_at(s, lo as int),
        decreases n - lo,
    {
        lo = lo + 1;
    }
    let mut hi: usize = n;
    while hi > lo && is_whitespace(v[hi - 1])
        invariant
            v@ == s,
            n == s.len(),
            lo <= hi <= n,
            trim_start_at(s, 0) == lo,
            trim_end_at(s, lo as int, n as int) == trim_end_at(s, lo as int, hi as int),
        decreases hi,
    {
        hi = hi - 1;
    }
    let ghost t = s.subrange(lo as int, hi as int);
    assert(t == spec_trim(s));
    // locate the first colon
    let mut k: usize = lo;
    while k < hi && v[k] != ':'
        invariant
            v@ == s,
            lo <= k <= hi <= n,
            n == s.len(),
            forall|j: int| lo <= j < k ==> #[trigger] s[j] != ':',
        decreases hi - k,
    {
        k = k + 1;
    }
    if k == hi {
        assert forall|c: int| !single_colon(t, c) by {
            if 0 <= c < t.len() {
                assert(t[c] == s[lo + c]);
            }
        }
        return None;
    }
    let mut j: usize = k + 1;
    while j < hi
        invariant
            v@ == s,
            lo <= k < j <= hi <= n,
            n == s.len(),
            forall|i: int| k < i < j ==> #[trigger] s[i] != ':',
            t == s.subrange(lo as int, hi as int),
            t == spec_trim(s),
            s == hhmm@,
            s[k as int] == ':',
        decreases hi - j,
    {
        if v[j] == ':' {
            assert forall|c: int| !single_colon(t, c) by {
                if single_colon(t, c) {
                    assert(t[k - lo] == ':');
                    assert(t[j - lo] == ':');
                }
            }
            return None;
        }
        j = j + 1;
    }
    let ghost kk = (k - lo) as int;
    assert(single_colon(t, kk)) by {
        assert forall|i: int| 0 <= i < t.len() && i != kk implies #[trigger] t[i] != ':' by {
            assert(t[i] == s[lo + i]);
        }
    }
    assert(forall|c: int| single_colon(t, c) ==> c == kk) by {
        assert forall|c: int| single_colon(t, c) implies c == kk by {
            if c != kk {
                assert(t[kk] == ':');
            }
        }
    }
    let ghost ch = choose|c: int| single_colon(t, c);
    assert(ch == kk);
    assert(t.subrange(0, kk) =~= v@.subrange(lo as int, k as int));
    assert(t.subrange(kk + 1, t.len() as int) =~= v@.subrange(k + 1, hi as int));
    let h = parse_u32_range(&v, lo, k);
    let m = parse_u32_range(&v, k + 1, hi);
    match (h, m) {
        (Some(h), Some(m)) => Some((h, m)),
        _ => None,
    }
}

/// Seconds after midnight of an `HH:MM` time, or `None` when the text is not of that shape.
pub fn parse_hhmm_to_seconds(hhmm: &str) -> (r: Option<u32>)
    requires
        hhmm_fits_u32(hhmm@),
    ensures
        match r {
            Some(x) => spec_parse_hhmm(hhmm@) == Some(x as nat),
            None => spec_parse_hhmm(hhmm@) is None,
        },
{
    match parse_hhmm_fields(hhmm) {
        Some((h, m)) => Some(h * 3600 + m * 60),
        None => None,
    }
}

/// Seconds after midnight of the target arrival time, falling back to 08:45
/// (31500 s) when the text is not an `HH:MM` time.
pub fn arrival_seconds_or_default(hhmm: &str) -> (r: u32)
    requires
        hhmm_fits_u32(hhmm@),
    ensures
        match spec_parse_hhmm(hhmm@) {
            Some(x) => r == x,
            None => r == 31500,
        },
{
    match parse_hhmm_to_seconds(hhmm) {
        Some(x) => x,
        None => 8 * 3600 + 45 * 60,
    }
}

fn push_two_digits(s: &mut String, n: u64)
    requires
        n < 100,
    ensures
        final(s)@ == old(s)@ + two_digits(n as int),
{
    s.append(digit_str(n / 10));
    s.append(digit_str(n % 10));
    assert(final(s)@ =~= old(s)@ + two_digits(n as int));
}

/// `HH:MM` rendering of a count of minutes after midnight; counts outside one
/// day wrap around the 24-hour clock, negative ones included.
pub fn minutes_to_hhmm(total_mins: i64) -> (s: String)
    ensures
        s@ == spec_clock(total_mins as int),
{
    let r = total_mins % 1440;
    let p: i64 = if r < 0 {
        r + 1440
    } else {
        r
    };
    assert(p == (total_mins as int) % 1440);
    let h = (p / 60) as u64;
    let m = (p % 60) as u64;
    let mut s = String::new();
    push_two_digits(&mut s, h);
    let colon = ":";
    proof {
        reveal_strlit(":");
    }
    s.append(colon);
    push_two_digits(&mut s, m);
    assert(s@ =~= spec_clock(total_mins as int));
    s
}

/// The decimal digits of `n` carry the value `n`.
pub proof fn lemma_decimal_value(n: nat)
    ensures
        digits_value(spec_decimal(n)) == n,
        all_digits(spec_decimal(n)),
    decreases n,
{
    if n >= 10 {
        lemma_decimal_value(n / 10);
        let d = spec_decimal(n);
        assert(d.drop_last() =~= spec_decimal(n / 10));
        assert(d.last() as u32 == 48 + n % 10);
        assert((n / 10) * 10 + n % 10 == n) by (nonlinear_arith);
        assert(digits_value(d) == digits_value(d.drop_last()) * 10 + ((d.last() as u32) - 48) as nat);
        assert forall|i: int| 0 <= i < d.len() implies is_digit(#[trigger] d[i]) by {
            if i < d.len() - 1 {
                assert(d[i] == spec_decimal(n / 10)[i]);
            }
        }
    } else {
        let d = spec_decimal(n);
        assert(d.drop_last() =~= Seq::<char>::empty());
        assert(d[0] as u32 == 48 + n);
        assert(d.last() == d[0]);
        assert(digits_value(d.drop_last()) == 0);
    }
}

/// Reading back the decimal rendering of any `u32` gives the same number,
/// and a `+` in front changes nothing.
pub proof fn lemma_decimal_parses(n: nat)
    requires
        n <= u32::MAX,
    ensures
        spec_parse_u32(spec_decimal(n)) == Some(n),
        spec_parse_u32(seq!['+'] + spec_decimal(n)) == Some(n),
{
    lemma_decimal_value(n);
    let d = spec_decimal(n);
    assert(is_digit(d[0]));
    assert(strip_plus(d) == d);
    assert((seq!['+'] + d).drop_first() =~= d);
}

/// A number with anything other than digits (after one optional `+`) does
/// not parse, nor does an empty one.
pub proof fn lemma_parse_rejects_non_digits(p: Seq<char>, i: int)
    requires
        0 <= i < p.len(),
        !is_digit(p[i]),
        !(i == 0 && p[0] == '+'),
    ensures
        spec_parse_u32(p) is None,
        spec_parse_u32(Seq::empty()) is None,
        spec_parse_u32(seq!['+']) is None,
{
    let d = strip_plus(p);
    if p.len() > 0 && p[0] == '+' {
        assert(d[i - 1] == p[i]);
    } else {
        assert(d[i] == p[i]);
    }
    assert(seq!['+'].drop_first().len() == 0);
}

/// Clock times repeat every day: a count of minutes and the same count a
/// whole number of days later or earlier read the same.
pub proof fn lemma_clock_wraps_daily(mins: int, days: int)
    ensures
        spec_clock(mins + days * 1440) == spec_clock(mins),
{
    assert((mins + days * 1440) % 1440 == mins % 1440) by (nonlinear_arith);
}

/// Every clock time is five characters, `HH:MM`, with hours below 24 and
/// minutes below 60.
pub proof fn lemma_clock_shape(mins: int)
    ensures
        ({
            let c = spec_clock(mins);
            let p = mins % 1440;
            &&& c.len() == 5
            &&& c[2] == ':'
            &&& 0 <= p / 60 < 24
            &&& 0 <= p % 60 < 60
            &&& c == two_digits(p / 60) + seq![':'] + two_digits(p % 60)
        }),
{
}

proof fn lemma_two_digits_parse(n: int)
    requires
        0 <= n < 100,
    ensures
        spec_parse_u32(two_digits(n)) == Some(n as nat),
        all_digits(two_digits(n)),
{
    let t = two_digits(n);
    assert(t[0] as u32 == 48 + n / 10);
    assert(t[1] as u32 == 48 + n % 10);
    assert(strip_plus(t) =~= t);
    let a = t.drop_last();
    assert(a.len() == 1 && a.last() == t[0]);
    assert(a.drop_last() =~= Seq::<char>::empty());
    assert(digits_value(a.drop_last()) == 0);
    assert(digits_value(a) == (n / 10) as nat);
    assert(digits_value(t) == n);
}

/// Formatting a time of day as `HH:MM` and parsing the text back gives the
/// same time, in seconds after midnight.
pub proof fn lemma_clock_roundtrip(mins: int)
    requires
        0 <= mins < 1440,
    ensures
        spec_parse_hhmm(spec_clock(mins)) == Some((mins * 60) as nat),
{
    let c = spec_clock(mins);
    let h = mins / 60;
    let m = mins % 60;
    assert(mins % 1440 == mins);
    assert(c =~= two_digits(h) + seq![':'] + two_digits(m));
    assert(c.len() == 5);
    assert(c[0] as u32 == 48 + h / 10);
    assert(c[1] as u32 == 48 + h % 10);
    assert(c[2] == ':');
    assert(c[3] as u32 == 48 + m / 10);
    assert(c[4] as u32 == 48 + m % 10);
    assert(trim_start_at(c, 0) == 0);
    assert(trim_end_at(c, 0, 5) == 5);
    assert(spec_trim(c) =~= c);
    assert forall|j: int| 0 <= j < c.len() && j != 2 implies #[trigger] c[j] != ':' by {
        assert(':' as u32 == 58);
    }
    assert(single_colon(c, 2));
    assert forall|k: int| single_colon(c, k) implies k == 2 by {
        if k != 2 {
            assert(c[2] == ':');
        }
    }
    assert(c.subrange(0, 2) =~= two_digits(h));
    assert(c.subrange(3, 5) =~= two_digits(m));
    lemma_two_digits_parse(h);
    lemma_two_digits_parse(m);
}

} // verus!
