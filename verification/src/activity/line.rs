//! Reading one decrypted log line: `Active time END - START` and
//! `Inactive time over 5seconds END - START`, with the times as integers.
use vstd::prelude::*;
use crate::text::{has_prefix, starts_with, dec, digit_char, matches_at};

verus! {

/// A decrypted log line, as the day report reads it.
#[derive(Debug, Clone, Copy, PartialEq, Eq)]
pub enum LogLine {
    Active { end: i64, start: i64 },
    Inactive { end: i64, start: i64 },
    Other,
}

/// Unicode `White_Space`, the set `char::is_whitespace` tests for.
pub open spec fn is_white_space(c: char) -> bool {
    let u = c as u32;
    ||| 0x9 <= u <= 0xd
    ||| u == 0x20
    ||| u == 0x85
    ||| u == 0xa0
    ||| u == 0x1680
    ||| 0x2000 <= u <= 0x200a
    ||| u == 0x2028
    ||| u == 0x2029
    ||| u == 0x202f
    ||| u == 0x205f
    ||| u == 0x3000
}

/// Whether `c` is Unicode white space.
pub fn white_space(c: char) -> (b: bool)
    ensures
        b == is_white_space(c),
{
    let u = c as u32;
    (0x9 <= u && u <= 0xd) || u == 0x20 || u == 0x85 || u == 0xa0 || u == 0x1680
        || (0x2000 <= u && u <= 0x200a) || u == 0x2028 || u == 0x2029 || u == 0x202f
        || u == 0x205f || u == 0x3000
}

/// `s` without trailing white space.
pub open spec fn trim_end(s: Seq<char>) -> Seq<char>
    decreases s.len(),
{
    if s.len() > 0 && is_white_space(s.last()) {
        trim_end(s.drop_last())
    } else {
        s
    }
}

/// `s` without leading white space.
pub open spec fn trim_start(s: Seq<char>) -> Seq<char>
    decreases s.len(),
{
    if s.len() > 0 && is_white_space(s[0]) {
        trim_start(s.drop_first())
    } else {
        s
    }
}

/// `s` without leading and trailing white space, as `str::trim` gives it.
pub open spec fn trim(s: Seq<char>) -> Seq<char> {
    trim_end(trim_start(s))
}

/// The characters after the last white space of `s`.
pub open spec fn word_suffix(s: Seq<char>) -> Seq<char>
    decreases s.len(),
{
    if s.len() == 0 || is_white_space(s.last()) {
        Seq::empty()
    } else {
        word_suffix(s.drop_last()).push(s.last())
    }
}

/// The last white-space separated word of `s` (empty when there is none).
pub open spec fn last_word(s: Seq<char>) -> Seq<char> {
    word_suffix(trim_end(s))
}

/// `p` occurs in `s` at position `i`.
pub open spec fn occurs_at(s: Seq<char>, p: Seq<char>, i: int) -> bool {
    0 <= i && i + p.len() <= s.len() && s.subrange(i, i + p.len()) == p
}

/// The first position at or after `from` where `p` occurs in `s`.
pub open spec fn first_occurrence(s: Seq<char>, p: Seq<char>, from: int) -> Option<int>
    decreases s.len() + 1 - from,
    when from >= 0
{
    if from + p.len() > s.len() {
        None
    } else if occurs_at(s, p, from) {
        Some(from)
    } else {
        first_occurrence(s, p, from + 1)
    }
}

/// What the first occurrence is: a match with none before it, or no match
/// at all from `from` on.
pub proof fn lemma_first_occurrence(s: Seq<char>, p: Seq<char>, from: int)
    requires
        from >= 0,
    ensures
        match first_occurrence(s, p, from) {
            Some(i) => from <= i && occurs_at(s, p, i)
                && forall|j: int| from <= j < i ==> !occurs_at(s, p, j),
            None => forall|j: int| from <= j ==> !occurs_at(s, p, j),
        },
    decreases s.len() + 1 - from,
{
    if from + p.len() > s.len() {
    } else if occurs_at(s, p, from) {
    } else {
        lemma_first_occurrence(s, p, from + 1);
    }
}

/// An ASCII decimal digit.
pub open spec fn is_digit(c: char) -> bool {
    '0' <= c <= '9'
}

/// The number written by a string of decimal digits.
pub open spec fn digits_value(d: Seq<char>) -> int
    decreases d.len(),
{
    if d.len() == 0 {
        0
    } else {
        digits_value(d.drop_last()) * 10 + (d.last() as int - '0' as int)
    }
}

/// Every character of `d` is a decimal digit.
pub open spec fn all_digits(d: Seq<char>) -> bool {
    forall|i: int| 0 <= i < d.len() ==> is_digit(#[trigger] d[i])
}

/// The value `str::parse::<i64>` gives: an optional sign followed by at
/// least one decimal digit, within the range of `i64`.
pub open spec fn parse_i64_spec(s: Seq<char>) -> Option<i64> {
    if s.len() > 0 && s[0] == '-' {
        let d = s.drop_first();
        if d.len() > 0 && all_digits(d) && digits_value(d) <= 0x8000_0000_0000_0000 {
            Some((-digits_value(d)) as i64)
        } else {
            None
        }
    } else {
        let d = if s.len() > 0 && s[0] == '+' { s.drop_first() } else { s };
        if d.len() > 0 && all_digits(d) && digits_value(d) <= i64::MAX {
            Some(digits_value(d) as i64)
        } else {
            None
        }
    }
}

/// How the day report reads a decrypted line: it must split around
/// `" - "` into exactly two parts; the end time is the last word before
/// the separator and the start time is the trimmed text after it.
pub open spec fn classify(line: Seq<char>) -> LogLine {
    match first_occurrence(line, " - "@, 0) {
        None => LogLine::Other,
        Some(i) => if first_occurrence(line, " - "@, i + 3) is Some {
            LogLine::Other
        } else {
            let e = parse_i64_spec(last_word(line.subrange(0, i)));
            let s = parse_i64_spec(trim(line.subrange(i + 3, line.len() as int)));
            if has_prefix(line, "Active time"@) {
                if e is Some && s is Some {
                    LogLine::Active { end: e.unwrap(), start: s.unwrap() }
                } else {
                    LogLine::Other
                }
            } else if has_prefix(line, "Inactive time"@) {
                if e is Some && s is Some {
                    LogLine::Inactive { end: e.unwrap(), start: s.unwrap() }
                } else {
                    LogLine::Other
                }
            } else {
                LogLine::Other
            }
        },
    }
}


/// The first position at or after `from` where `p` occurs in `s`.
pub fn find_from(s: &str, p: &str, from: usize) -> (r: Option<usize>)
    ensures
        match r {
            Some(i) => first_occurrence(s@, p@, from as int) == Some(i as int),
            None => first_occurrence(s@, p@, from as int) is None,
        },
{
    let n = s.unicode_len();
    let m = p.unicode_len();
    if from > n {
        return None;
    }
    let mut at = from;
    while at <= n && m <= n - at
        invariant
            n == s@.len(),
            m == p@.len(),
            from <= at,
            at <= n + 1,
            first_occurrence(s@, p@, from as int) == first_occurrence(s@, p@, at as int),
        decreases n + 1 - at,
    {
        if matches_at(s, p, at) {
            return Some(at);
        }
        proof {
            if at == n {
                assert(s@.subrange(at as int, at + m) =~= p@);
            }
        }
        at = at + 1;
    }
    None
}

/// Trailing white space of `s[lo..hi]` removed: `s[lo..r]` is what is left.
fn trim_end_at(s: &str, lo: usize, hi: usize) -> (r: usize)
    requires
        lo <= hi <= s@.len(),
    ensures
        lo <= r <= hi,
        s@.subrange(lo as int, r as int) == trim_end(s@.subrange(lo as int, hi as int)),
{
    let mut r = hi;
    while r > lo && white_space(s.get_char(r - 1))
        invariant
            lo <= r <= hi <= s@.len(),
            trim_end(s@.subrange(lo as int, r as int)) == trim_end(s@.subrange(lo as int, hi as int)),
        decreases r - lo,
    {
        proof {
            assert(s@.subrange(lo as int, r as int).drop_last() =~= s@.subrange(lo as int, r - 1));
        }
        r = r - 1;
    }
    r
}

/// Leading white space of `s[lo..hi]` removed: `s[r..hi]` is what is left.
fn trim_start_at(s: &str, lo: usize, hi: usize) -> (r: usize)
    requires
        lo <= hi <= s@.len(),
    ensures
        lo <= r <= hi,
        s@.subrange(r as int, hi as int) == trim_start(s@.subrange(lo as int, hi as int)),
{
    let mut r = lo;
    while r < hi && white_space(s.get_char(r))
        invariant
            lo <= r <= hi <= s@.len(),
            trim_start(s@.subrange(r as int, hi as int)) == trim_start(s@.subrange(lo as int, hi as int)),
        decreases hi - r,
    {
        proof {
            assert(s@.subrange(r as int, hi as int).drop_first() =~= s@.subrange(r + 1, hi as int));
        }
        r = r + 1;
    }
    r
}

/// Start of the run of non-space characters that ends `s[lo..hi]`.
fn word_start_at(s: &str, lo: usize, hi: usize) -> (r: usize)
    requires
        lo <= hi <= s@.len(),
    ensures
        lo <= r <= hi,
        s@.subrange(r as int, hi as int) == word_suffix(s@.subrange(lo as int, hi as int)),
{
    let mut r = hi;
    while r > lo && !white_space(s.get_char(r - 1))
        invariant
            lo <= r <= hi <= s@.len(),
            word_suffix(s@.subrange(lo as int, hi as int))
                == word_suffix(s@.subrange(lo as int, r as int)) + s@.subrange(r as int, hi as int),
        decreases r - lo,
    {
        proof {
            let t = s@.subrange(lo as int, r as int);
            assert(t.drop_last() =~= s@.subrange(lo as int, r - 1));
            assert(word_suffix(t) == word_suffix(t.drop_last()).push(t.last()));
            assert(word_suffix(t.drop_last()).push(t.last()) + s@.subrange(r as int, hi as int)
                =~= word_suffix(t.drop_last()) + s@.subrange(r - 1, hi as int));
        }
        r = r - 1;
    }
    proof {
        let t = s@.subrange(lo as int, r as int);
        assert(word_suffix(t) =~= Seq::<char>::empty());
        assert(Seq::<char>::empty() + s@.subrange(r as int, hi as int) =~= s@.subrange(r as int, hi as int));
    }
    r
}

/// Digit strings have non-negative values.
pub proof fn lemma_digits_value_nonneg(d: Seq<char>)
    requires
        all_digits(d),
    ensures
        digits_value(d) >= 0,
    decreases d.len(),
{
    if d.len() > 0 {
        assert(is_digit(d[d.len() - 1]));
        assert(all_digits(d.drop_last())) by {
            assert forall|i: int| 0 <= i < d.drop_last().len() implies is_digit(#[trigger] d.drop_last()[i]) by {
                assert(d.drop_last()[i] == d[i]);
            }
        }
        lemma_digits_value_nonneg(d.drop_last());
    }
}

/// The value of a digit string is at least that of each of its prefixes.
pub proof fn lemma_digits_prefix_le(d: Seq<char>, k: int)
    requires
        all_digits(d),
        0 <= k <= d.len(),
    ensures
        digits_value(d.take(k)) <= digits_value(d),
    decreases d.len(),
{
    if k == d.len() {
        assert(d.take(k) =~= d);
    } else {
        let p = d.drop_last();
        assert(all_digits(p)) by {
            assert forall|i: int| 0 <= i < p.len() implies is_digit(#[trigger] p[i]) by {
                assert(p[i] == d[i]);
            }
        }
        lemma_digits_prefix_le(p, k);
        assert(p.take(k) =~= d.take(k));
        lemma_digits_value_nonneg(p);
        assert(is_digit(d[d.len() - 1]));
    }
}

/// The value of the decimal digits `s[lo..hi]`, or nothing when one of them
/// is not a digit or the value exceeds `limit`.
fn digits_at(s: &str, lo: usize, hi: usize, limit: u64) -> (r: Option<u64>)
    requires
        lo <= hi <= s@.len(),
        limit >= 9,
    ensures
        match r {
            Some(v) => all_digits(s@.subrange(lo as int, hi as int))
                && digits_value(s@.subrange(lo as int, hi as int)) == v && v <= limit,
            None => !all_digits(s@.subrange(lo as int, hi as int))
                || digits_value(s@.subrange(lo as int, hi as int)) > limit,
        },
{
    let ghost full = s@.subrange(lo as int, hi as int);
    let mut acc: u64 = 0;
    let mut i = lo;
    while i < hi
        invariant
            lo <= i <= hi <= s@.len(),
            limit >= 9,
            full == s@.subrange(lo as int, hi as int),
            all_digits(s@.subrange(lo as int, i as int)),
            digits_value(s@.subrange(lo as int, i as int)) == acc,
            acc <= limit,
        decreases hi - i,
    {
        let c = s.get_char(i);
        let ghost pre = s@.subrange(lo as int, i as int);
        let ghost next = s@.subrange(lo as int, i + 1);
        proof {
            assert(next.drop_last() =~= pre);
            assert(next.last() == c);
            assert(full[i - lo] == c);
            assert(full.take(i + 1 - lo) =~= next);
        }
        if !('0' <= c && c <= '9') {
            proof {
                assert(!is_digit(full[i - lo]));
            }
            return None;
        }
        let d = (c as u32 - '0' as u32) as u64;
        assert(digits_value(next) == acc * 10 + d);
        if acc > (limit - d) / 10 {
            proof {
                assert(acc * 10 + d > limit) by (nonlinear_arith)
                    requires
                        acc > (limit - d) / 10,
                        d <= 9,
                        limit >= 9,
                {
                }
                if all_digits(full) {
                    lemma_digits_prefix_le(full, i + 1 - lo);
                }
            }
            return None;
        }
        assert(acc * 10 + d <= limit) by (nonlinear_arith)
            requires
                acc <= (limit - d) / 10,
                d <= 9,
                limit >= 9,
        {
        }
        acc = acc * 10 + d;
        i = i + 1;
        proof {
            assert forall|j: int| 0 <= j < next.len() implies is_digit(#[trigger] next[j]) by {
                if j < pre.len() {
                    assert(next[j] == pre[j]);
                }
            }
        }
    }
    Some(acc)
}


/// `s[lo..hi]` read as an `i64`, as `str::parse::<i64>` reads it.
fn parse_i64_at(s: &str, lo: usize, hi: usize) -> (r: Option<i64>)
    requires
        lo <= hi <= s@.len(),
    ensures
        r == parse_i64_spec(s@.subrange(lo as int, hi as int)),
{
    let ghost t = s@.subrange(lo as int, hi as int);
    if lo < hi {
        proof {
            assert(t.drop_first() =~= s@.subrange(lo + 1, hi as int));
            assert(t[0] == s@[lo as int]);
        }
    }
    if lo < hi && s.get_char(lo) == '-' {
        if lo + 1 == hi {
            return None;
        }
        match digits_at(s, lo + 1, hi, 0x8000_0000_0000_0000) {
            Some(v) => {
                let neg: i128 = 0 - (v as i128);
                Some(neg as i64)
            },
            None => None,
        }
    } else {
        let start = if lo < hi && s.get_char(lo) == '+' { lo + 1 } else { lo };
        proof {
            if start == lo {
                assert(t =~= s@.subrange(start as int, hi as int));
            }
        }
        if start == hi {
            return None;
        }
        match digits_at(s, start, hi, 0x7fff_ffff_ffff_ffff) {
            Some(v) => Some(v as i64),
            None => None,
        }
    }
}

/// Reads a decrypted log line the way the day report does.
pub fn classify_line(line: &str) -> (r: LogLine)
    ensures
        r == classify(line@),
{
    proof {
        reveal_strlit(" - ");
    }
    let n = line.unicode_len();
    let first = find_from(line, " - ", 0);
    match first {
        None => LogLine::Other,
        Some(i) => {
            proof {
                lemma_first_occurrence(line@, " - "@, 0);
            }
            if find_from(line, " - ", i + 3).is_some() {
                return LogLine::Other;
            }
            let te = trim_end_at(line, 0, i);
            let ws = word_start_at(line, 0, te);
            let end = parse_i64_at(line, ws, te);
            let ts = trim_start_at(line, i + 3, n);
            let te2 = trim_end_at(line, ts, n);
            let start = parse_i64_at(line, ts, te2);
            proof {
                assert(last_word(line@.subrange(0, i as int)) == line@.subrange(ws as int, te as int));
                assert(trim(line@.subrange(i + 3, n as int)) == line@.subrange(ts as int, te2 as int));
            }
            if starts_with(line, "Active time") {
                match (end, start) {
                    (Some(e), Some(s)) => LogLine::Active { end: e, start: s },
                    _ => LogLine::Other,
                }
            } else if starts_with(line, "Inactive time") {
                match (end, start) {
                    (Some(e), Some(s)) => LogLine::Inactive { end: e, start: s },
                    _ => LogLine::Other,
                }
            } else {
                LogLine::Other
            }
        },
    }
}


/// `first_occurrence` from its defining facts: a match at `k` with none
/// between `from` and `k`.
pub proof fn lemma_first_occurrence_at(s: Seq<char>, p: Seq<char>, from: int, k: int)
    requires
        0 <= from <= k,
        occurs_at(s, p, k),
        forall|j: int| from <= j < k ==> !occurs_at(s, p, j),
    ensures
        first_occurrence(s, p, from) == Some(k),
    decreases k - from,
{
    if from < k {
        lemma_first_occurrence_at(s, p, from + 1, k);
    }
}

/// No match from `from` on means no first occurrence.
pub proof fn lemma_first_occurrence_none(s: Seq<char>, p: Seq<char>, from: int)
    requires
        0 <= from,
        forall|j: int| from <= j ==> !occurs_at(s, p, j),
    ensures
        first_occurrence(s, p, from) is None,
    decreases s.len() + 1 - from,
{
    if from + p.len() <= s.len() {
        lemma_first_occurrence_none(s, p, from + 1);
    }
}

/// Decimal renderings are non-empty digit strings with the rendered value.
pub proof fn lemma_dec_digits(n: nat)
    ensures
        dec(n).len() > 0,
        all_digits(dec(n)),
        digits_value(dec(n)) == n,
    decreases n,
{
    let d = n % 10;
    assert(is_digit(digit_char(d)) && digit_char(d) as int - '0' as int == d) by {
        assert(d < 10);
    }
    if n < 10 {
        assert(dec(n) =~= seq![digit_char(n)]);
        assert(dec(n).drop_last() =~= Seq::<char>::empty());
        assert(digits_value(dec(n).drop_last()) == 0);
        assert(dec(n).last() == digit_char(d));
        assert(is_digit(dec(n)[0]));
    } else {
        lemma_dec_digits(n / 10);
        let p = dec(n / 10);
        assert(dec(n) == p.push(digit_char(d)));
        assert(dec(n).drop_last() =~= p);
        assert(dec(n).last() == digit_char(d));
        assert(digits_value(dec(n)) == digits_value(p) * 10 + d);
        assert forall|i: int| 0 <= i < dec(n).len() implies is_digit(#[trigger] dec(n)[i]) by {
            if i < p.len() {
                assert(dec(n)[i] == p[i]);
            }
        }
    }
}

/// A digit string of at most `i64::MAX` reads back as its value.
pub proof fn lemma_parse_dec(n: u64)
    requires
        n <= i64::MAX,
    ensures
        parse_i64_spec(dec(n as nat)) == Some(n as i64),
{
    lemma_dec_digits(n as nat);
    assert(is_digit(dec(n as nat)[0]));
}

/// A string with no white space is its own last word after any text that
/// is empty or ends in white space, and trimming leaves it unchanged.
pub proof fn lemma_word_after_space(x: Seq<char>, y: Seq<char>)
    requires
        x.len() == 0 || is_white_space(x.last()),
        forall|i: int| 0 <= i < y.len() ==> !is_white_space(#[trigger] y[i]),
    ensures
        word_suffix(x + y) == y,
    decreases y.len(),
{
    if y.len() == 0 {
        assert(x + y =~= x);
    } else {
        assert((x + y).drop_last() =~= x + y.drop_last());
        assert(!is_white_space(y[y.len() - 1]));
        lemma_word_after_space(x, y.drop_last());
        assert(y.drop_last().push(y.last()) =~= y);
    }
}

/// Digits are not white space.
pub proof fn lemma_digits_not_space(d: Seq<char>)
    requires
        all_digits(d),
    ensures
        forall|i: int| 0 <= i < d.len() ==> !is_white_space(#[trigger] d[i]),
{
    assert forall|i: int| 0 <= i < d.len() implies !is_white_space(#[trigger] d[i]) by {
        assert(is_digit(d[i]));
    }
}

/// No character of `x` is a dash.
pub open spec fn no_dash(x: Seq<char>) -> bool {
    forall|i: int| 0 <= i < x.len() ==> #[trigger] x[i] != '-'
}

/// How a line `head END - START\n` reads, when `head` has no dash and ends
/// in a space.
pub proof fn lemma_line_shape(head: Seq<char>, e: u64, s: u64)
    requires
        no_dash(head),
        head.len() > 0,
        head.last() == ' ',
        e <= i64::MAX,
        s <= i64::MAX,
    ensures
        ({
            let line = head + dec(e as nat) + " - "@ + dec(s as nat) + "\n"@;
            let k = (head.len() + dec(e as nat).len()) as int;
            &&& first_occurrence(line, " - "@, 0) == Some(k)
            &&& first_occurrence(line, " - "@, k + 3) is None
            &&& parse_i64_spec(last_word(line.subrange(0, k))) == Some(e as i64)
            &&& parse_i64_spec(trim(line.subrange(k + 3, line.len() as int))) == Some(s as i64)
            &&& line.subrange(0, head.len() as int) == head
        }),
{
    reveal_strlit(" - ");
    reveal_strlit("\n");
    let d1 = dec(e as nat);
    let d2 = dec(s as nat);
    let sep = " - "@;
    let nl = "\n"@;
    let line = head + d1 + sep + d2 + nl;
    let k = (head.len() + d1.len()) as int;
    lemma_dec_digits(e as nat);
    lemma_dec_digits(s as nat);
    lemma_parse_dec(e);
    lemma_parse_dec(s);
    assert forall|j: int| 0 <= j < k implies !occurs_at(line, sep, j) by {
        if occurs_at(line, sep, j) {
            assert(line.subrange(j, j + 3)[1] == '-');
            assert(line[j + 1] == '-');
            if j + 1 < head.len() {
                assert(line[j + 1] == head[j + 1]);
            } else if j + 1 < k {
                assert(line[j + 1] == d1[j + 1 - head.len()]);
                assert(is_digit(d1[j + 1 - head.len()]));
            } else {
                assert(line[j + 1] == ' ');
            }
        }
    }
    assert(line.subrange(k, k + 3) =~= sep);
    lemma_first_occurrence_at(line, sep, 0, k);
    assert forall|j: int| k + 3 <= j implies !occurs_at(line, sep, j) by {
        if occurs_at(line, sep, j) {
            assert(line.subrange(j, j + 3)[1] == '-');
            assert(line[j + 1] == '-');
            if j + 1 < k + 3 + d2.len() {
                assert(line[j + 1] == d2[j + 1 - k - 3]);
                assert(is_digit(d2[j + 1 - k - 3]));
            } else {
                assert(line[j + 1] == '\n');
            }
        }
    }
    lemma_first_occurrence_none(line, sep, k + 3);
    let front = line.subrange(0, k);
    assert(front =~= head + d1);
    lemma_digits_not_space(d1);
    lemma_digits_not_space(d2);
    assert(trim_end(front) == front) by {
        assert(!is_white_space(d1[d1.len() - 1]));
        assert(front.last() == d1.last());
    }
    lemma_word_after_space(head, d1);
    let back = line.subrange(k + 3, line.len() as int);
    assert(back =~= d2 + nl);
    assert(trim_start(back) == back) by {
        assert(back[0] == d2[0]);
        assert(!is_white_space(d2[0]));
    }
    assert(back.drop_last() =~= d2);
    assert(is_white_space(back.last()));
    assert(trim_end(back) == trim_end(d2));
    assert(trim_end(d2) == d2) by {
        assert(!is_white_space(d2[d2.len() - 1]));
    }
    assert(line.subrange(0, head.len() as int) =~= head);
}

} // verus!
