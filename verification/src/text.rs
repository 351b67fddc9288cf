//! Small verified string helpers shared by the library: decimal rendering of
//! integers and character-level searches over `Seq<char>`.
use vstd::prelude::*;
use vstd::string::*;

verus! {

/// The ASCII digit for a value below ten.
pub open spec fn digit_char(d: nat) -> char {
    if d == 0 { '0' } else if d == 1 { '1' } else if d == 2 { '2' } else if d == 3 { '3' }
    else if d == 4 { '4' } else if d == 5 { '5' } else if d == 6 { '6' } else if d == 7 { '7' }
    else if d == 8 { '8' } else { '9' }
}

/// Decimal rendering of a natural number, as `Display` prints it for unsigned integers.
pub open spec fn dec(n: nat) -> Seq<char>
    decreases n,
{
    if n < 10 {
        seq![digit_char(n)]
    } else {
        dec(n / 10).push(digit_char(n % 10))
    }
}

/// Appends one character to a string.
#[verifier::external_body]
pub(crate) fn push_char(s: &mut String, c: char)
    ensures
        final(s)@ == old(s)@.push(c),
{
    s.push(c);
}

fn digit_to_char(d: u64) -> (c: char)
    requires
        d < 10,
    ensures
        c == digit_char(d as nat),
{
    if d == 0 { '0' } else if d == 1 { '1' } else if d == 2 { '2' } else if d == 3 { '3' }
    else if d == 4 { '4' } else if d == 5 { '5' } else if d == 6 { '6' } else if d == 7 { '7' }
    else if d == 8 { '8' } else { '9' }
}

/// Appends the decimal rendering of `n` to `s`.
pub fn push_decimal(s: &mut String, n: u64)
    ensures
        final(s)@ == old(s)@ + dec(n as nat),
    decreases n,
{
    if n >= 10 {
        push_decimal(s, n / 10);
    }
    push_char(s, digit_to_char(n % 10));
    proof {
        assert(old(s)@ + dec(n as nat) =~= (if n >= 10 { old(s)@ + dec((n / 10) as nat) } else { old(s)@ }).push(digit_char((n % 10) as nat)));
    }
}

/// The decimal rendering of `n` as a new string.
pub fn u64_to_string(n: u64) -> (s: String)
    ensures
        s@ == dec(n as nat),
{
    let mut s = String::new();
    push_decimal(&mut s, n);
    proof {
        assert(Seq::<char>::empty() + dec(n as nat) =~= dec(n as nat));
    }
    s
}

/// Appends `t` to `s`.
pub fn push_str(s: &mut String, t: &str)
    ensures
        final(s)@ == old(s)@ + t@,
{
    s.append(t);
}

/// `true` when `s` begins with `p`.
pub open spec fn has_prefix(s: Seq<char>, p: Seq<char>) -> bool {
    p.len() <= s.len() && s.subrange(0, p.len() as int) == p
}

/// `true` when `p` occurs somewhere in `s`.
pub open spec fn has_infix(s: Seq<char>, p: Seq<char>) -> bool {
    exists|i: int| 0 <= i && i + p.len() <= s.len() && #[trigger] s.subrange(i, i + p.len()) == p
}

/// Character count of a string, as a machine integer.
pub fn char_len(s: &str) -> (n: usize)
    ensures
        n == s@.len(),
{
    s.unicode_len()
}

/// Whether `s` starts with `p`.
pub fn starts_with(s: &str, p: &str) -> (b: bool)
    ensures
        b == has_prefix(s@, p@),
{
    let n = s.unicode_len();
    let m = p.unicode_len();
    if m > n {
        return false;
    }
    let mut i: usize = 0;
    while i < m
        invariant
            n == s@.len(),
            m == p@.len(),
            m <= n,
            i <= m,
            forall|j: int| 0 <= j < i ==> s@[j] == p@[j],
        decreases m - i,
    {
        if s.get_char(i) != p.get_char(i) {
            proof {
                assert(s@.subrange(0, m as int)[i as int] != p@[i as int]);
            }
            return false;
        }
        i = i + 1;
    }
    proof {
        assert(s@.subrange(0, m as int) =~= p@);
    }
    true
}

/// Whether `p` matches `s` at character position `at`.
pub fn matches_at(s: &str, p: &str, at: usize) -> (b: bool)
    requires
        at + p@.len() <= s@.len(),
    ensures
        b == (s@.subrange(at as int, at + p@.len()) == p@),
{
    let n = s.unicode_len();
    let m = p.unicode_len();
    let mut i: usize = 0;
    while i < m
        invariant
            n == s@.len(),
            m == p@.len(),
            at + m <= s@.len(),
            i <= m,
            forall|j: int| 0 <= j < i ==> s@[at + j] == p@[j],
        decreases m - i,
    {
        if s.get_char(at + i) != p.get_char(i) {
            proof {
                assert(s@.subrange(at as int, at + m)[i as int] != p@[i as int]);
            }
            return false;
        }
        i = i + 1;
    }
    proof {
        assert(s@.subrange(at as int, at + m) =~= p@);
    }
    true
}

/// Whether `p` occurs in `s`.
pub fn contains_str(s: &str, p: &str) -> (b: bool)
    ensures
        b == has_infix(s@, p@),
{
    let n = s.unicode_len();
    let m = p.unicode_len();
    if m > n {
        proof {
            assert forall|i: int| 0 <= i && i + p@.len() <= s@.len() implies #[trigger] s@.subrange(i, i + p@.len()) != p@ by {}
        }
        return false;
    }
    if m == 0 {
        proof {
            assert(s@.subrange(0int, 0int + p@.len()) =~= p@);
        }
        return true;
    }
    let mut at: usize = 0;
    while at <= n - m
        invariant
            n == s@.len(),
            m == p@.len(),
            m <= n,
            at <= n - m + 1,
            m >= 1,
            forall|i: int| 0 <= i < at ==> #[trigger] s@.subrange(i, i + m) != p@,
        decreases n + 1 - at,
    {
        if matches_at(s, p, at) {
            return true;
        }
        at = at + 1;
    }
    proof {
        assert forall|i: int| 0 <= i && i + p@.len() <= s@.len() implies #[trigger] s@.subrange(i, i + p@.len()) != p@ by {
            assert(i < at);
        }
    }
    false
}


/// The character sequences of a list of strings.
pub open spec fn views(v: Seq<String>) -> Seq<Seq<char>> {
    v.map_values(|x: String| x@)
}

/// Whether some string of `v` has the same characters as `s`.
pub fn contains_string(v: &Vec<String>, s: &String) -> (b: bool)
    ensures
        b == views(v@).contains(s@),
{
    let mut i: usize = 0;
    while i < v.len()
        invariant
            i <= v.len(),
            forall|j: int| 0 <= j < i ==> v@[j]@ != s@,
        decreases v.len() - i,
    {
        if v[i] == *s {
            proof {
                assert(views(v@)[i as int] == s@);
            }
            return true;
        }
        i = i + 1;
    }
    proof {
        assert forall|j: int| 0 <= j < views(v@).len() implies views(v@)[j] != s@ by {
            assert(views(v@)[j] == v@[j]@);
        }
    }
    false
}

/// Number of distinct character sequences among `keys`.
pub fn count_distinct(keys: &Vec<String>) -> (n: usize)
    ensures
        n == views(keys@).to_set().len(),
{
    let mut seen: Vec<String> = Vec::new();
    let mut i: usize = 0;
    while i < keys.len()
        invariant
            i <= keys.len(),
            views(seen@).no_duplicates(),
            views(seen@).to_set() == views(keys@.take(i as int)).to_set(),
            seen@.len() <= i,
        decreases keys.len() - i,
    {
        let ghost before = views(seen@);
        let ghost prefix = views(keys@.take(i as int));
        proof {
            assert(views(keys@.take(i as int + 1)) =~= prefix.push(keys@[i as int]@));
            assert(prefix.push(keys@[i as int]@).to_set() =~= prefix.to_set().insert(keys@[i as int]@)) by {
                broadcast use vstd::seq_lib::group_seq_properties;
                assert(prefix.push(keys@[i as int]@) =~= prefix + seq![keys@[i as int]@]);
                Seq::lemma_to_set_insert_commutes(prefix, keys@[i as int]@);
            }
        }
        if !contains_string(&seen, &keys[i]) {
            let k = keys[i].clone();
            seen.push(k);
            proof {
                assert(views(seen@) =~= before.push(keys@[i as int]@));
                assert(views(seen@) =~= before + seq![keys@[i as int]@]);
                Seq::lemma_to_set_insert_commutes(before, keys@[i as int]@);
                assert(views(seen@).no_duplicates()) by {
                    assert forall|a: int, b: int| 0 <= a < b < views(seen@).len() implies views(seen@)[a] != views(seen@)[b] by {
                        if b == views(seen@).len() - 1 {
                            assert(views(seen@)[a] == before[a]);
                            assert(before.contains(before[a]));
                        } else {
                            assert(views(seen@)[a] == before[a] && views(seen@)[b] == before[b]);
                        }
                    }
                }
            }
        } else {
            proof {
                assert(before.to_set().contains(keys@[i as int]@)) by {
                    broadcast use vstd::set::group_set_axioms;
                    let j = choose|j: int| 0 <= j < before.len() && before[j] == keys@[i as int]@;
                    assert(before.to_set().contains(before[j]));
                }
                assert(before.to_set().insert(keys@[i as int]@) =~= before.to_set());
            }
        }
        i = i + 1;
    }
    proof {
        assert(keys@.take(keys.len() as int) =~= keys@);
        views(seen@).unique_seq_to_set();
    }
    seen.len()
}


/// Whether two strings have the same characters.
pub fn str_eq(a: &str, b: &str) -> (r: bool)
    ensures
        r == (a@ == b@),
{
    if a.unicode_len() != b.unicode_len() {
        return false;
    }
    let r = starts_with(a, b);
    proof {
        assert(a@.subrange(0, b@.len() as int) =~= a@);
    }
    r
}

/// The characters `s[lo..hi]` as a new string.
pub fn substring(s: &str, lo: usize, hi: usize) -> (r: String)
    requires
        lo <= hi <= s@.len(),
    ensures
        r@ == s@.subrange(lo as int, hi as int),
{
    let mut r = String::new();
    let mut i = lo;
    while i < hi
        invariant
            lo <= i <= hi <= s@.len(),
            r@ == s@.subrange(lo as int, i as int),
        decreases hi - i,
    {
        push_char(&mut r, s.get_char(i));
        i = i + 1;
        proof {
            assert(r@ =~= s@.subrange(lo as int, i as int));
        }
    }
    r
}

/// `true` when `s` ends with `p`.
pub open spec fn has_suffix(s: Seq<char>, p: Seq<char>) -> bool {
    p.len() <= s.len() && s.subrange(s.len() - p.len(), s.len() as int) == p
}

/// Whether `s` ends with `p`.
pub fn ends_with(s: &str, p: &str) -> (b: bool)
    ensures
        b == has_suffix(s@, p@),
{
    let n = s.unicode_len();
    let m = p.unicode_len();
    if m > n {
        return false;
    }
    let b = matches_at(s, p, n - m);
    b
}

/// The text between a prefix and a suffix, when `s` has both (and they do
/// not overlap), as `strip_prefix` then `strip_suffix` give it.
pub fn strip_affixes(s: &str, prefix: &str, suffix: &str) -> (r: Option<String>)
    ensures
        ({
            let rest = s@.subrange(prefix@.len() as int, s@.len() as int);
            match r {
                Some(m) => has_prefix(s@, prefix@) && has_suffix(rest, suffix@)
                    && m@ == rest.subrange(0, rest.len() - suffix@.len()),
                None => !(has_prefix(s@, prefix@) && has_suffix(rest, suffix@)),
            }
        }),
{
    if !starts_with(s, prefix) {
        return None;
    }
    let n = s.unicode_len();
    let a = prefix.unicode_len();
    let m = suffix.unicode_len();
    if m > n - a {
        return None;
    }
    if !matches_at(s, suffix, n - m) {
        proof {
            let rest = s@.subrange(a as int, n as int);
            assert(rest.subrange(rest.len() - m, rest.len() as int) =~= s@.subrange(n - m, n as int));
        }
        return None;
    }
    proof {
        let rest = s@.subrange(a as int, n as int);
        assert(rest.subrange(rest.len() - m, rest.len() as int) =~= s@.subrange(n - m, n as int));
        assert(rest.subrange(0, rest.len() - m) =~= s@.subrange(a as int, n - m));
    }
    Some(substring(s, a, n - m))
}


/// `a` comes strictly before `b` in code-point lexicographic order (the
/// order of `String`'s `Ord`).
pub open spec fn lex_lt(a: Seq<char>, b: Seq<char>) -> bool
    decreases a.len(),
{
    if a.len() == 0 {
        b.len() > 0
    } else if b.len() == 0 {
        false
    } else if a[0] != b[0] {
        a[0] < b[0]
    } else {
        lex_lt(a.drop_first(), b.drop_first())
    }
}

/// Lexicographic order is irreflexive and total: of two different texts
/// exactly one comes first.
pub proof fn lemma_lex_total(a: Seq<char>, b: Seq<char>)
    ensures
        !lex_lt(a, a),
        a != b ==> (lex_lt(a, b) <==> !lex_lt(b, a)),
        a == b ==> !lex_lt(a, b),
    decreases a.len(),
{
    if a.len() > 0 {
        lemma_lex_total(a.drop_first(), a.drop_first());
        if b.len() > 0 {
            lemma_lex_total(a.drop_first(), b.drop_first());
            if a[0] == b[0] && a != b {
                assert(a.drop_first() != b.drop_first()) by {
                    if a.drop_first() == b.drop_first() {
                        assert(a.len() == b.len());
                        assert forall|i: int| 0 <= i < a.len() implies a[i] == b[i] by {
                            if i > 0 {
                                assert(a[i] == a.drop_first()[i - 1]);
                                assert(b[i] == b.drop_first()[i - 1]);
                            }
                        }
                        assert(a =~= b);
                    }
                }
            }
        } else if a != b {
        }
    } else {
        if b.len() == 0 {
            assert(a =~= b);
        }
    }
}

/// Lexicographic order is transitive.
pub proof fn lemma_lex_trans(a: Seq<char>, b: Seq<char>, c: Seq<char>)
    requires
        lex_lt(a, b),
        lex_lt(b, c),
    ensures
        lex_lt(a, c),
    decreases a.len(),
{
    if a.len() > 0 && b.len() > 0 && c.len() > 0 {
        if a[0] == b[0] && b[0] == c[0] {
            lemma_lex_trans(a.drop_first(), b.drop_first(), c.drop_first());
        }
    }
}

/// Whether `a` comes strictly before `b`.
pub fn lex_less(a: &str, b: &str) -> (r: bool)
    ensures
        r == lex_lt(a@, b@),
{
    let n = a.unicode_len();
    let m = b.unicode_len();
    let mut i: usize = 0;
    proof {
        assert(a@.skip(0) =~= a@);
        assert(b@.skip(0) =~= b@);
    }
    while i < n && i < m
        invariant
            n == a@.len(),
            m == b@.len(),
            i <= n && i <= m,
            lex_lt(a@, b@) == lex_lt(a@.skip(i as int), b@.skip(i as int)),
        decreases n - i,
    {
        let x = a.get_char(i);
        let y = b.get_char(i);
        proof {
            assert(a@.skip(i as int)[0] == x && b@.skip(i as int)[0] == y);
            assert(a@.skip(i as int).drop_first() =~= a@.skip(i + 1));
            assert(b@.skip(i as int).drop_first() =~= b@.skip(i + 1));
        }
        if x != y {
            return x < y;
        }
        i = i + 1;
    }
    i < m && i == n
}

/// `v` is in ascending order.
pub open spec fn sorted_texts(v: Seq<Seq<char>>) -> bool {
    forall|i: int, j: int| 0 <= i < j < v.len() ==> !lex_lt(v[j], v[i])
}

/// Sorts strings in ascending order (stable).
pub fn sort_strings(v: Vec<String>) -> (r: Vec<String>)
    ensures
        sorted_texts(views(r@)),
        views(r@).to_multiset() == views(v@).to_multiset(),
        r@.len() == v@.len(),
{
    broadcast use vstd::seq_lib::group_to_multiset_ensures;
    let ghost orig = v@;
    let mut rest = v;
    let n = rest.len();
    let mut out: Vec<String> = Vec::new();
    let mut k: usize = 0;
    while rest.len() > 0
        invariant
            n == orig.len(),
            k <= n,
            rest@ == orig.subrange(k as int, n as int),
            out@.len() == k,
            sorted_texts(views(out@)),
            views(out@).to_multiset() == views(orig.take(k as int)).to_multiset(),
        decreases rest.len(),
    {
        let x = rest.remove(0);
        proof {
            assert(x == orig[k as int]);
        }
        let mut pos: usize = 0;
        while pos < out.len() && !lex_less(x.as_str(), out[pos].as_str())
            invariant
                pos <= out@.len(),
                forall|j: int| 0 <= j < pos ==> !lex_lt(x@, #[trigger] out@[j]@),
            decreases out@.len() - pos,
        {
            pos = pos + 1;
        }
        let ghost before = views(out@);
        out.insert(pos, x);
        proof {
            let after = views(out@);
            assert(after =~= before.insert(pos as int, x@));
            assert(sorted_texts(after)) by {
                assert forall|i: int, j: int| 0 <= i < j < after.len() implies !lex_lt(after[j], after[i]) by {
                    if i < pos && j == pos {
                        assert(after[i] == before[i]);
                        assert(!lex_lt(x@, before[i]));
                    } else if i == pos && j > pos {
                        assert(after[j] == before[j - 1]);
                        assert(lex_lt(x@, before[pos as int]));
                        lemma_lex_total(x@, before[pos as int]);
                        if lex_lt(before[j - 1], x@) {
                            if j - 1 > pos {
                                assert(!lex_lt(before[j - 1], before[pos as int]));
                                lemma_lex_trans(before[j - 1], x@, before[pos as int]);
                            }
                        }
                    } else if i < pos && j > pos {
                        assert(after[i] == before[i] && after[j] == before[j - 1]);
                    } else if j < pos {
                        assert(after[i] == before[i] && after[j] == before[j]);
                    } else {
                        assert(after[i] == before[i - 1] && after[j] == before[j - 1]);
                    }
                }
            }
            assert(views(orig.take(k as int + 1)) =~= views(orig.take(k as int)).push(x@));
            vstd::seq_lib::to_multiset_insert(before, pos as int, x@);
            vstd::seq_lib::to_multiset_build(views(orig.take(k as int)), x@);
        }
        k = k + 1;
        proof {
            assert(rest@ =~= orig.subrange(k as int, n as int));
        }
    }
    proof {
        assert(orig.take(n as int) =~= orig);
    }
    out
}

} // verus!
