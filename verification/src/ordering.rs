//! Stable ordering of records by a numeric key, highest key first.
//!
//! Every list the monitor ranks (hosts by traffic, services by bytes, adapters
//! by preference score, sessions by start time) is ordered with a stable sort:
//! elements with equal keys keep their relative order.
use vstd::prelude::*;
use vstd::multiset::Multiset;

verus! {

/// A record with a numeric ranking key.
pub trait SortKey: Sized {
    spec fn sort_key(&self) -> int;

    fn key_value(&self) -> (k: i128)
        ensures
            k as int == self.sort_key(),
    ;
}

/// Inserts `x` into `s` after every leading element whose key is at least
/// the key of `x`.
pub open spec fn insert_ranked<T: SortKey>(s: Seq<T>, x: T) -> Seq<T>
    decreases s.len(),
{
    if s.len() == 0 {
        seq![x]
    } else if s[0].sort_key() >= x.sort_key() {
        seq![s[0]] + insert_ranked(s.drop_first(), x)
    } else {
        seq![x] + s
    }
}

/// The stable ordering of `s` by key, highest first.
pub open spec fn ranked<T: SortKey>(s: Seq<T>) -> Seq<T>
    decreases s.len(),
{
    if s.len() == 0 {
        Seq::empty()
    } else {
        insert_ranked(ranked(s.drop_last()), s.last())
    }
}

/// `s` is ordered by key, highest first.
pub open spec fn is_ranked<T: SortKey>(s: Seq<T>) -> bool {
    forall|i: int, j: int| 0 <= i < j < s.len() ==> s[i].sort_key() >= s[j].sort_key()
}

/// Inserting at the first position whose key is below the key of `x`.
pub proof fn lemma_insert_ranked_at<T: SortKey>(s: Seq<T>, x: T, i: int)
    requires
        0 <= i <= s.len(),
        forall|j: int| 0 <= j < i ==> s[j].sort_key() >= x.sort_key(),
        i < s.len() ==> s[i].sort_key() < x.sort_key(),
    ensures
        insert_ranked(s, x) == s.insert(i, x),
    decreases s.len(),
{
    if s.len() == 0 {
        assert(s.insert(i, x) =~= seq![x]);
    } else if i == 0 {
        assert(s.insert(0, x) =~= seq![x] + s);
    } else {
        let t = s.drop_first();
        lemma_insert_ranked_at(t, x, i - 1);
        assert(seq![s[0]] + t.insert(i - 1, x) =~= s.insert(i, x));
    }
}

/// Insertion keeps the ranking order.
pub proof fn lemma_insert_ranked_keeps_order<T: SortKey>(s: Seq<T>, x: T)
    requires
        is_ranked(s),
    ensures
        is_ranked(insert_ranked(s, x)),
        insert_ranked(s, x).len() == s.len() + 1,
        insert_ranked(s, x).to_multiset() == s.to_multiset().insert(x),
    decreases s.len(),
{
    broadcast use vstd::seq_lib::group_to_multiset_ensures;
    if s.len() == 0 {
        assert(insert_ranked(s, x) =~= seq![x]);
        assert(seq![x] =~= Seq::<T>::empty().push(x));
    } else if s[0].sort_key() >= x.sort_key() {
        let t = s.drop_first();
        assert(is_ranked(t)) by {
            assert forall|i: int, j: int| 0 <= i < j < t.len() implies t[i].sort_key() >= t[j].sort_key() by {
                assert(t[i] == s[i + 1] && t[j] == s[j + 1]);
            }
        }
        lemma_insert_ranked_keeps_order(t, x);
        let r = insert_ranked(t, x);
        let full = seq![s[0]] + r;
        assert forall|k: int| 0 <= k < r.len() implies s[0].sort_key() >= #[trigger] r[k].sort_key() by {
            assert(r.to_multiset().count(r[k]) > 0);
            assert(r.contains(r[k]));
            assert(t.to_multiset().insert(x).count(r[k]) > 0);
            if r[k] != x {
                assert(t.to_multiset().count(r[k]) > 0);
                assert(t.contains(r[k]));
                let m = choose|m: int| 0 <= m < t.len() && t[m] == r[k];
                assert(t[m] == s[m + 1]);
            }
        }
        assert forall|i: int, j: int| 0 <= i < j < full.len() implies full[i].sort_key() >= full[j].sort_key() by {
            if i == 0 {
                assert(full[j] == r[j - 1]);
            } else {
                assert(full[i] == r[i - 1] && full[j] == r[j - 1]);
            }
        }
        assert(s =~= seq![s[0]] + t);
        vstd::seq_lib::lemma_multiset_commutative(seq![s[0]], t);
        vstd::seq_lib::lemma_multiset_commutative(seq![s[0]], r);
        assert(seq![s[0]] =~= Seq::<T>::empty().push(s[0]));
        assert(seq![s[0]].to_multiset() =~= Multiset::<T>::empty().insert(s[0]));
        assert(full.to_multiset() =~= s.to_multiset().insert(x));
    } else {
        let full = seq![x] + s;
        assert forall|i: int, j: int| 0 <= i < j < full.len() implies full[i].sort_key() >= full[j].sort_key() by {
            if i == 0 {
                assert(full[j] == s[j - 1]);
                assert(s[0].sort_key() >= s[j - 1].sort_key() || j - 1 == 0);
            } else {
                assert(full[i] == s[i - 1] && full[j] == s[j - 1]);
            }
        }
        vstd::seq_lib::lemma_multiset_commutative(seq![x], s);
        assert(seq![x] =~= Seq::<T>::empty().push(x));
        assert(seq![x].to_multiset() =~= Multiset::<T>::empty().insert(x));
        assert(full.to_multiset() =~= s.to_multiset().insert(x));
    }
}

/// The ranked sequence is ordered by key and is a permutation of the input.
pub proof fn lemma_ranked_properties<T: SortKey>(s: Seq<T>)
    ensures
        is_ranked(ranked(s)),
        ranked(s).len() == s.len(),
        ranked(s).to_multiset() == s.to_multiset(),
    decreases s.len(),
{
    broadcast use vstd::seq_lib::group_to_multiset_ensures;
    if s.len() > 0 {
        lemma_ranked_properties(s.drop_last());
        lemma_insert_ranked_keeps_order(ranked(s.drop_last()), s.last());
        assert(s =~= s.drop_last().push(s.last()));
        assert(s.to_multiset() =~= s.drop_last().to_multiset().insert(s.last()));
    }
}

/// Inserts `x` into `v`, which is taken to be ranked, keeping the stable order.
pub fn insert_ranked_exec<T: SortKey>(v: &mut Vec<T>, x: T)
    ensures
        final(v)@ == insert_ranked(old(v)@, x),
{
    let kx = x.key_value();
    let mut i: usize = 0;
    let n = v.len();
    while i < n
        invariant
            n == v.len(),
            v@ == old(v)@,
            i <= n,
            kx as int == x.sort_key(),
            forall|j: int| 0 <= j < i ==> v@[j].sort_key() >= x.sort_key(),
        ensures
            n == v.len(),
            v@ == old(v)@,
            i <= n,
            forall|j: int| 0 <= j < i ==> v@[j].sort_key() >= x.sort_key(),
            i < n ==> v@[i as int].sort_key() < x.sort_key(),
        decreases n - i,
    {
        if v[i].key_value() < kx {
            break;
        }
        i = i + 1;
    }
    proof {
        lemma_insert_ranked_at(v@, x, i as int);
    }
    v.insert(i, x);
}

/// Stable ordering of `v` by key, highest first.
pub fn rank<T: SortKey>(v: Vec<T>) -> (r: Vec<T>)
    ensures
        r@ == ranked(v@),
{
    let ghost orig = v@;
    let mut rest = v;
    let mut out: Vec<T> = Vec::new();
    let mut k: usize = 0;
    let n = rest.len();
    while rest.len() > 0
        invariant
            n == orig.len(),
            k <= n,
            rest@ == orig.subrange(k as int, n as int),
            out@ == ranked(orig.subrange(0, k as int)),
        decreases rest.len(),
    {
        let x = rest.remove(0);
        proof {
            let pre = orig.subrange(0, k as int + 1);
            assert(pre.drop_last() =~= orig.subrange(0, k as int));
            assert(pre.last() == x);
        }
        insert_ranked_exec(&mut out, x);
        k = k + 1;
        proof {
            assert(rest@ =~= orig.subrange(k as int, n as int));
        }
    }
    proof {
        assert(orig.subrange(0, n as int) =~= orig);
    }
    out
}

} // verus!
