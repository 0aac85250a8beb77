//! Stable sorting of saved states by a lexicographic integer key, the order
//! in which widgets and pages are rebuilt.
use vstd::prelude::*;

use crate::agenda::{lemma_text_order_is_strict_total, text_less, text_lt};
use crate::text::views;

verus! {

/// Lexicographic `<=` on key triples.
pub open spec fn key_leq(a: (int, int, int), b: (int, int, int)) -> bool {
    a.0 < b.0 || (a.0 == b.0 && (a.1 < b.1 || (a.1 == b.1 && a.2 <= b.2)))
}

/// A value that is sorted by an integer key triple.
pub trait SortKey: Sized {
    spec fn sort_key(&self) -> (int, int, int);

    fn key_le(&self, other: &Self) -> (b: bool)
        ensures
            b == key_leq(self.sort_key(), other.sort_key()),
    ;
}

/// `s` with `e` inserted right after the last element whose key is not
/// greater than `e`'s.
pub open spec fn insert_by_key<T: SortKey>(s: Seq<T>, e: T) -> Seq<T>
    decreases s.len(),
{
    if s.len() == 0 {
        seq![e]
    } else if key_leq(s.last().sort_key(), e.sort_key()) {
        s.push(e)
    } else {
        insert_by_key(s.drop_last(), e).push(s.last())
    }
}

/// The stable sort of `s` by key: insertion of every element in order.
pub open spec fn sort_by_key<T: SortKey>(s: Seq<T>) -> Seq<T>
    decreases s.len(),
{
    if s.len() == 0 {
        s
    } else {
        insert_by_key(sort_by_key(s.drop_last()), s.last())
    }
}

pub open spec fn sorted_by_key<T: SortKey>(s: Seq<T>) -> bool {
    forall|i: int, j: int| 0 <= i < j < s.len() ==> key_leq(s[i].sort_key(), s[j].sort_key())
}

proof fn lemma_insert_suffix<T: SortKey>(s: Seq<T>, e: T, i: int)
    requires
        0 <= i <= s.len(),
        forall|j: int| i <= j < s.len() ==> !key_leq(#[trigger] s[j].sort_key(), e.sort_key()),
    ensures
        insert_by_key(s, e) == insert_by_key(s.take(i), e) + s.skip(i),
    decreases s.len(),
{
    if i == s.len() {
        assert(s.take(i) =~= s);
        assert(insert_by_key(s.take(i), e) + s.skip(i) =~= insert_by_key(s, e));
    } else {
        lemma_insert_suffix(s.drop_last(), e, i);
        assert(s.drop_last().take(i) =~= s.take(i));
        assert(s.drop_last().skip(i).push(s.last()) =~= s.skip(i));
        assert((insert_by_key(s.take(i), e) + s.drop_last().skip(i)).push(s.last()) =~= insert_by_key(s.take(i), e)
            + s.skip(i));
    }
}

/// Inserts `e` into `v` right after the last element whose key is not
/// greater than `e`'s.
fn insert_sorted<T: SortKey>(v: &mut Vec<T>, e: T)
    ensures
        final(v)@ == insert_by_key(old(v)@, e),
{
    let mut i = v.len();
    while i > 0 && !v[i - 1].key_le(&e)
        invariant
            i <= v@.len(),
            v@ == old(v)@,
            forall|j: int| i <= j < v@.len() ==> !key_leq(#[trigger] v@[j].sort_key(), e.sort_key()),
        decreases i,
    {
        i -= 1;
    }
    proof {
        lemma_insert_suffix(v@, e, i as int);
        let t = v@.take(i as int);
        if i > 0 {
            assert(t.last() == v@[i - 1]);
            assert(insert_by_key(t, e) == t.push(e));
        } else {
            assert(insert_by_key(t, e) =~= seq![e]);
        }
    }
    let ghost before = v@;
    v.insert(i, e);
    assert(v@ =~= before.take(i as int).push(e) + before.skip(i as int));
}

/// `items` sorted by key, stably: elements with equal keys keep their order.
pub fn sort_stable<T: SortKey>(items: Vec<T>) -> (out: Vec<T>)
    ensures
        out@ == sort_by_key(items@),
{
    let ghost orig = items@;
    let mut rest = items;
    let mut out: Vec<T> = Vec::new();
    let ghost mut n: int = 0;
    assert(orig.take(0) =~= Seq::<T>::empty());
    assert(orig.skip(0) =~= orig);
    while rest.len() > 0
        invariant
            0 <= n <= orig.len(),
            rest@ == orig.skip(n),
            out@ == sort_by_key(orig.take(n)),
        decreases rest@.len(),
    {
        let e = rest.remove(0);
        proof {
            assert(e == orig[n]);
            assert(orig.take(n + 1).drop_last() =~= orig.take(n));
            assert(orig.take(n + 1).last() == orig[n]);
            assert(rest@ =~= orig.skip(n + 1));
        }
        insert_sorted(&mut out, e);
        proof {
            n = n + 1;
        }
    }
    assert(orig.take(n) =~= orig);
    out
}

/// Inserting into a sorted sequence keeps it sorted and adds exactly one
/// element.
pub proof fn lemma_insert_by_key_sorted<T: SortKey>(s: Seq<T>, e: T)
    requires
        sorted_by_key(s),
    ensures
        sorted_by_key(insert_by_key(s, e)),
        insert_by_key(s, e).to_multiset() == s.to_multiset().insert(e),
    decreases s.len(),
{
    broadcast use vstd::seq_lib::group_to_multiset_ensures;

    if s.len() == 0 {
        assert(insert_by_key(s, e) =~= seq![e]);
        assert(seq![e] =~= Seq::<T>::empty().push(e));
    } else if key_leq(s.last().sort_key(), e.sort_key()) {
        let r = s.push(e);
        assert forall|i: int, j: int| 0 <= i < j < r.len() implies key_leq(r[i].sort_key(), r[j].sort_key()) by {
            if j == r.len() - 1 && i < s.len() - 1 {
                assert(key_leq(s[i].sort_key(), s.last().sort_key()));
            }
        }
    } else {
        let p = s.drop_last();
        assert(sorted_by_key(p));
        lemma_insert_by_key_sorted(p, e);
        let q = insert_by_key(p, e);
        let r = q.push(s.last());
        assert forall|i: int, j: int| 0 <= i < j < r.len() implies key_leq(r[i].sort_key(), r[j].sort_key()) by {
            if j == r.len() - 1 {
                assert(q.to_multiset().contains(q[i]));
                assert(p.to_multiset().insert(e).contains(q[i]));
                if q[i] != e {
                    assert(p.to_multiset().contains(q[i]));
                    let k = choose|k: int| 0 <= k < p.len() && p[k] == q[i];
                    assert(key_leq(s[k].sort_key(), s.last().sort_key()));
                }
            }
        }
        assert(s =~= p.push(s.last()));
    }
}

/// The stable sort yields a sorted permutation of its input.
pub proof fn lemma_sort_by_key_sorted_permutation<T: SortKey>(s: Seq<T>)
    ensures
        sorted_by_key(sort_by_key(s)),
        sort_by_key(s).to_multiset() == s.to_multiset(),
    decreases s.len(),
{
    broadcast use vstd::seq_lib::group_to_multiset_ensures;

    if s.len() > 0 {
        lemma_sort_by_key_sorted_permutation(s.drop_last());
        lemma_insert_by_key_sorted(sort_by_key(s.drop_last()), s.last());
        assert(s =~= s.drop_last().push(s.last()));
    }
}


/// Whether item `a` comes before item `b` when items are ordered by their
/// texts `keys` in code-point order, and by position on equal texts.
pub open spec fn key_before(keys: Seq<Seq<char>>, a: int, b: int) -> bool {
    text_lt(keys[a], keys[b]) || (keys[a] == keys[b] && a < b)
}

/// The positions of the items marked in `keep`, ordered by their texts
/// `keys` in code-point order, equal texts in their own order: the order a
/// stable sort by text gives.
pub fn text_order_indices(keys: &Vec<Vec<char>>, keep: &Vec<bool>) -> (r: Vec<usize>)
    requires
        keys@.len() == keep@.len(),
    ensures
        forall|k: int| 0 <= k < r@.len() ==> #[trigger] r@[k] < keys@.len() && keep@[r@[k] as int],
        forall|i: int| 0 <= i < keys@.len() && #[trigger] keep@[i] ==> exists|k: int| 0 <= k < r@.len() && r@[k] == i,
        forall|a: int, b: int|
            0 <= a < b < r@.len() ==> key_before(views(keys@), #[trigger] r@[a] as int, #[trigger] r@[b] as int),
{
    let ghost kv = views(keys@);
    let mut r: Vec<usize> = Vec::new();
    let mut n: usize = 0;
    while n < keys.len()
        invariant
            n <= keys@.len(),
            keys@.len() == keep@.len(),
            kv == views(keys@),
            forall|k: int| 0 <= k < r@.len() ==> #[trigger] r@[k] < n && keep@[r@[k] as int],
            forall|i: int| 0 <= i < n && #[trigger] keep@[i] ==> exists|k: int| 0 <= k < r@.len() && r@[k] == i,
            forall|a: int, b: int|
                0 <= a < b < r@.len() ==> key_before(kv, #[trigger] r@[a] as int, #[trigger] r@[b] as int),
        decreases keys@.len() - n,
    {
        if keep[n] {
            let ghost kn = kv[n as int];
            assert(kn == keys@[n as int]@);
            let mut p: usize = 0;
            while p < r.len() && !text_less(&keys[n], &keys[r[p]])
                invariant
                    p <= r@.len(),
                    n < keys@.len(),
                    kv == views(keys@),
                    kn == kv[n as int],
                    forall|k: int| 0 <= k < r@.len() ==> #[trigger] r@[k] < n,
                    forall|t: int| 0 <= t < p ==> !text_lt(kn, kv[#[trigger] r@[t] as int]),
                decreases r@.len() - p,
            {
                assert(kv[r@[p as int] as int] == keys@[r@[p as int] as int]@);
                p += 1;
            }
            let ghost old_r = r@;
            proof {
                if p < r@.len() {
                    assert(kv[old_r[p as int] as int] == keys@[old_r[p as int] as int]@);
                    assert(text_lt(kn, kv[old_r[p as int] as int]));
                }
            }
            r.insert(p, n);
            proof {
                assert forall|a: int, b: int| 0 <= a < b < r@.len() implies key_before(
                    kv,
                    #[trigger] r@[a] as int,
                    #[trigger] r@[b] as int,
                ) by {
                    if b < p {
                        assert(r@[a] == old_r[a] && r@[b] == old_r[b]);
                    } else if b == p {
                        assert(r@[a] == old_r[a]);
                        let ka = kv[old_r[a] as int];
                        assert(!text_lt(kn, ka));
                        lemma_text_order_is_strict_total(ka, kn, kn);
                    } else if a == p {
                        assert(r@[b] == old_r[b - 1]);
                        let kp = kv[old_r[p as int] as int];
                        let kb = kv[old_r[b - 1] as int];
                        if b - 1 > p {
                            assert(key_before(kv, old_r[p as int] as int, old_r[b - 1] as int));
                            lemma_text_order_is_strict_total(kn, kp, kb);
                        }
                    } else if a < p {
                        assert(r@[a] == old_r[a] && r@[b] == old_r[b - 1]);
                    } else {
                        assert(r@[a] == old_r[a - 1] && r@[b] == old_r[b - 1]);
                    }
                }
                assert forall|i: int| 0 <= i < n + 1 && #[trigger] keep@[i] implies exists|k: int|
                    0 <= k < r@.len() && r@[k] == i by {
                    if i == n {
                        assert(r@[p as int] == n);
                    } else {
                        let k = choose|k: int| 0 <= k < old_r.len() && old_r[k] == i;
                        if k < p {
                            assert(r@[k] == i);
                        } else {
                            assert(r@[k + 1] == i);
                        }
                    }
                }
                assert forall|k: int| 0 <= k < r@.len() implies #[trigger] r@[k] < n + 1 && keep@[r@[k] as int] by {
                    if k < p {
                        assert(r@[k] == old_r[k]);
                    } else if k > p {
                        assert(r@[k] == old_r[k - 1]);
                    }
                }
            }
        }
        n += 1;
    }
    r
}

} // verus!
