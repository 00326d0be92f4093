//! Stable ordering of keyed rows (`sort_by_key` on an integer key): rows with equal keys keep
//! their order.

use vstd::prelude::*;

verus! {

/// `s` with `x` inserted after the last row whose key is at most `x`'s (scanning from the end).
pub open spec fn insert_keyed<T>(s: Seq<(u128, T)>, x: (u128, T)) -> Seq<(u128, T)>
    decreases s.len(),
{
    if s.len() == 0 {
        seq![x]
    } else if s.last().0 <= x.0 {
        s.push(x)
    } else {
        insert_keyed(s.drop_last(), x).push(s.last())
    }
}

/// Stable insertion sort by key.
pub open spec fn sort_keyed<T>(s: Seq<(u128, T)>) -> Seq<(u128, T)>
    decreases s.len(),
{
    if s.len() == 0 {
        s
    } else {
        insert_keyed(sort_keyed(s.drop_last()), s.last())
    }
}

/// The rows of `s` with `f` applied to each payload.
pub open spec fn kmap<A, B>(s: Seq<(u128, A)>, f: spec_fn(A) -> B) -> Seq<(u128, B)> {
    s.map_values(|p: (u128, A)| (p.0, f(p.1)))
}

/// The payloads of `s`, in order.
pub open spec fn payloads<A>(s: Seq<(u128, A)>) -> Seq<A> {
    s.map_values(|p: (u128, A)| p.1)
}

/// A keyed sequence is sorted.
pub open spec fn keys_sorted<T>(s: Seq<(u128, T)>) -> bool {
    forall|i: int, j: int| 0 <= i < j < s.len() ==> s[i].0 <= s[j].0
}

proof fn lemma_insert_at<T>(s: Seq<(u128, T)>, x: (u128, T), k: int)
    requires
        0 <= k <= s.len(),
        forall|j: int| k <= j < s.len() ==> (#[trigger] s[j]).0 > x.0,
        k == 0 || s[k - 1].0 <= x.0,
    ensures
        insert_keyed(s, x) == s.insert(k, x),
    decreases s.len(),
{
    if s.len() == 0 {
        assert(s.insert(k, x) =~= seq![x]);
    } else if s.last().0 <= x.0 {
        assert(k == s.len());
        assert(s.insert(k, x) =~= s.push(x));
    } else {
        assert(k < s.len());
        assert forall|j: int| k <= j < s.drop_last().len() implies (#[trigger] s.drop_last()[j]).0 > x.0 by {
            assert(s.drop_last()[j] == s[j]);
        }
        if k > 0 {
            assert(s.drop_last()[k - 1] == s[k - 1]);
        }
        lemma_insert_at(s.drop_last(), x, k);
        assert(s.drop_last().insert(k, x).push(s.last()) =~= s.insert(k, x));
    }
}

pub proof fn lemma_kmap_insert<A, B>(s: Seq<(u128, A)>, x: (u128, A), f: spec_fn(A) -> B)
    ensures
        kmap(insert_keyed(s, x), f) == insert_keyed(kmap(s, f), (x.0, f(x.1))),
    decreases s.len(),
{
    if s.len() == 0 {
        assert(kmap(seq![x], f) =~= seq![(x.0, f(x.1))]);
    } else {
        assert(kmap(s, f).last() == (s.last().0, f(s.last().1)));
        assert(kmap(s, f).drop_last() =~= kmap(s.drop_last(), f));
        if s.last().0 <= x.0 {
            assert(kmap(s.push(x), f) =~= kmap(s, f).push((x.0, f(x.1))));
        } else {
            lemma_kmap_insert(s.drop_last(), x, f);
            assert(kmap(insert_keyed(s.drop_last(), x).push(s.last()), f) =~= kmap(
                insert_keyed(s.drop_last(), x),
                f,
            ).push((s.last().0, f(s.last().1))));
        }
    }
}

/// Sorting by key commutes with changing the payloads.
pub proof fn lemma_kmap_sort<A, B>(s: Seq<(u128, A)>, f: spec_fn(A) -> B)
    ensures
        kmap(sort_keyed(s), f) == sort_keyed(kmap(s, f)),
    decreases s.len(),
{
    if s.len() > 0 {
        lemma_kmap_sort(s.drop_last(), f);
        lemma_kmap_insert(sort_keyed(s.drop_last()), s.last(), f);
        assert(kmap(s, f).drop_last() =~= kmap(s.drop_last(), f));
    }
}

/// The rows of `v`, ordered by key; rows with equal keys keep their order.
pub fn sort_by_key<T>(v: Vec<(u128, T)>) -> (r: Vec<(u128, T)>)
    ensures
        r@ == sort_keyed(v@),
{
    let ghost orig = v@;
    let mut rest = v;
    let mut out: Vec<(u128, T)> = Vec::new();
    let ghost mut i: int = 0;
    assert(orig.take(0) =~= Seq::<(u128, T)>::empty());
    while rest.len() > 0
        invariant
            0 <= i <= orig.len(),
            rest@ == orig.skip(i),
            out@ == sort_keyed(orig.take(i)),
        decreases rest.len(),
    {
        let x = rest.remove(0);
        proof {
            assert(x == orig[i]);
            assert(orig.take(i + 1).drop_last() =~= orig.take(i));
            assert(orig.take(i + 1).last() == orig[i]);
            assert(rest@ =~= orig.skip(i + 1));
        }
        let mut k = out.len();
        while k > 0 && out[k - 1].0 > x.0
            invariant
                k <= out@.len(),
                forall|j: int| k <= j < out@.len() ==> (#[trigger] out@[j]).0 > x.0,
            decreases k,
        {
            k = k - 1;
        }
        proof {
            lemma_insert_at(out@, x, k as int);
        }
        out.insert(k, x);
        proof {
            i = i + 1;
        }
    }
    assert(orig.take(i) =~= orig);
    out
}

/// The payloads of keyed rows, in order.
pub fn strip_keys<T>(v: Vec<(u128, T)>) -> (r: Vec<T>)
    ensures
        r@ == payloads(v@),
{
    let ghost orig = v@;
    let mut rest = v;
    let mut out: Vec<T> = Vec::new();
    let ghost mut i: int = 0;
    while rest.len() > 0
        invariant
            0 <= i <= orig.len(),
            rest@ == orig.skip(i),
            out@ == payloads(orig.take(i)),
        decreases rest.len(),
    {
        let x = rest.remove(0);
        proof {
            assert(x == orig[i]);
            assert(payloads(orig.take(i + 1)) =~= payloads(orig.take(i)).push(x.1));
            assert(rest@ =~= orig.skip(i + 1));
        }
        out.push(x.1);
        proof {
            i = i + 1;
        }
    }
    assert(orig.take(i) =~= orig);
    out
}

} // verus!
