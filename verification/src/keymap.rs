//! Keyed tables (country → service → price and the like): an association list with unique keys
//! kept in ascending key order, so it iterates as the protocol's ordered maps do, while lookups
//! and updates carry exact contracts.

use vstd::prelude::*;

verus! {

/// Keys that can be compared in executable code: for equality, and in the order of their
/// type's `Ord`.
pub trait SameKey: Sized + View {
    /// The key order (`Ord`'s `<`) on what keys denote.
    spec fn key_lt(a: Self::V, b: Self::V) -> bool;

    /// The key order is a strict total order.
    proof fn lemma_key_order(a: Self::V, b: Self::V, c: Self::V)
        ensures
            !Self::key_lt(a, a),
            Self::key_lt(a, b) && Self::key_lt(b, c) ==> Self::key_lt(a, c),
            a != b ==> Self::key_lt(a, b) || Self::key_lt(b, a),
    ;

    fn same_key(&self, other: &Self) -> (r: bool)
        ensures
            r == (self@ == other@),
    ;

    fn less_key(&self, other: &Self) -> (r: bool)
        ensures
            r == Self::key_lt(self@, other@),
    ;
}

impl SameKey for u32 {
    open spec fn key_lt(a: u32, b: u32) -> bool {
        a < b
    }

    proof fn lemma_key_order(a: u32, b: u32, c: u32) {
    }

    fn same_key(&self, other: &Self) -> (r: bool) {
        *self == *other
    }

    fn less_key(&self, other: &Self) -> (r: bool) {
        *self < *other
    }
}

impl SameKey for u64 {
    open spec fn key_lt(a: u64, b: u64) -> bool {
        a < b
    }

    proof fn lemma_key_order(a: u64, b: u64, c: u64) {
    }

    fn same_key(&self, other: &Self) -> (r: bool) {
        *self == *other
    }

    fn less_key(&self, other: &Self) -> (r: bool) {
        *self < *other
    }
}

impl SameKey for String {
    open spec fn key_lt(a: Seq<char>, b: Seq<char>) -> bool {
        crate::text::chars_lt(a, b)
    }

    proof fn lemma_key_order(a: Seq<char>, b: Seq<char>, c: Seq<char>) {
        crate::text::lemma_chars_lt_order(a, b, c);
    }

    fn same_key(&self, other: &Self) -> (r: bool) {
        let a = crate::text::chars_of(self.as_str());
        let b = crate::text::chars_of(other.as_str());
        crate::text::eq_chars(&a, &b)
    }

    fn less_key(&self, other: &Self) -> (r: bool) {
        let a = crate::text::chars_of(self.as_str());
        let b = crate::text::chars_of(other.as_str());
        crate::text::lt_chars(&a, &b)
    }
}

/// The map an entry list denotes (earlier entries win; keys are unique in a `KeyMap`).
pub open spec fn map_of<K: View, V>(s: Seq<(K, V)>) -> Map<K::V, V>
    decreases s.len(),
{
    if s.len() == 0 {
        Map::empty()
    } else {
        map_of(s.drop_last()).insert(s.last().0@, s.last().1)
    }
}

pub open spec fn unique_keys<K: View, V>(s: Seq<(K, V)>) -> bool {
    forall|i: int, j: int| 0 <= i < j < s.len() ==> s[i].0@ != s[j].0@
}

pub proof fn lemma_map_of_index<K: View, V>(s: Seq<(K, V)>, i: int)
    requires
        unique_keys(s),
        0 <= i < s.len(),
    ensures
        map_of(s).contains_key(s[i].0@),
        map_of(s)[s[i].0@] == s[i].1,
    decreases s.len(),
{
    if i < s.len() - 1 {
        lemma_map_of_index(s.drop_last(), i);
    }
}

pub proof fn lemma_map_of_keys<K: View, V>(s: Seq<(K, V)>, k: K::V)
    ensures
        map_of(s).contains_key(k) <==> exists|i: int| 0 <= i < s.len() && s[i].0@ == k,
    decreases s.len(),
{
    if s.len() > 0 {
        lemma_map_of_keys(s.drop_last(), k);
        if map_of(s).contains_key(k) && k != s.last().0@ {
            let i = choose|i: int| 0 <= i < s.len() - 1 && s.drop_last()[i].0@ == k;
            assert(s[i].0@ == k);
        }
        if exists|i: int| 0 <= i < s.len() && s[i].0@ == k {
            let i = choose|i: int| 0 <= i < s.len() && s[i].0@ == k;
            if i < s.len() - 1 {
                assert(s.drop_last()[i].0@ == k);
            }
        }
    }
}

pub proof fn lemma_map_of_update<K: View, V>(s: Seq<(K, V)>, i: int, k: K, v: V)
    requires
        unique_keys(s),
        0 <= i < s.len(),
        k@ == s[i].0@,
    ensures
        map_of(s.update(i, (k, v))) == map_of(s).insert(k@, v),
        unique_keys(s.update(i, (k, v))),
    decreases s.len(),
{
    let t = s.update(i, (k, v));
    if i < s.len() - 1 {
        lemma_map_of_update(s.drop_last(), i, k, v);
        assert(t.drop_last() =~= s.drop_last().update(i, (k, v)));
        assert(s.last().0@ != s[i].0@);
        assert(map_of(t) =~= map_of(s).insert(k@, v));
    } else {
        assert(t.drop_last() =~= s.drop_last());
        lemma_map_of_keys(s.drop_last(), k@);
        assert(map_of(t) =~= map_of(s).insert(k@, v));
    }
}

/// Whether the entries' keys ascend in the key order.
pub open spec fn keys_ascend<K: SameKey, V>(s: Seq<(K, V)>) -> bool {
    forall|i: int, j: int| 0 <= i < j < s.len() ==> K::key_lt(#[trigger] s[i].0@, #[trigger] s[j].0@)
}

/// Inserting an entry whose key is new anywhere in a list with unique keys adds it to the map.
pub proof fn lemma_map_of_insert<K: View, V>(s: Seq<(K, V)>, i: int, k: K, v: V)
    requires
        unique_keys(s),
        0 <= i <= s.len(),
        !map_of(s).contains_key(k@),
    ensures
        unique_keys(s.insert(i, (k, v))),
        map_of(s.insert(i, (k, v))) == map_of(s).insert(k@, v),
{
    let t = s.insert(i, (k, v));
    lemma_map_of_keys(s, k@);
    assert forall|a: int, b: int| 0 <= a < b < t.len() implies t[a].0@ != t[b].0@ by {
        if a == i {
            assert(t[b] == s[b - 1]);
        } else if b == i {
            assert(t[a] == s[a]);
        } else {
            let sa = if a < i { a } else { a - 1 };
            let sb = if b < i { b } else { b - 1 };
            assert(t[a] == s[sa]);
            assert(t[b] == s[sb]);
        }
    }
    assert forall|key: K::V| #[trigger] map_of(t).contains_key(key) == map_of(s).insert(k@, v).contains_key(key) by {
        lemma_map_of_keys(t, key);
        lemma_map_of_keys(s, key);
        if exists|j: int| 0 <= j < s.len() && s[j].0@ == key {
            let j = choose|j: int| 0 <= j < s.len() && s[j].0@ == key;
            if j < i {
                assert(t[j] == s[j]);
            } else {
                assert(t[j + 1] == s[j]);
            }
        }
        if exists|j: int| 0 <= j < t.len() && t[j].0@ == key {
            let j = choose|j: int| 0 <= j < t.len() && t[j].0@ == key;
            if j < i {
                assert(t[j] == s[j]);
            } else if j > i {
                assert(t[j] == s[j - 1]);
            }
        }
        assert(t[i] == (k, v));
    }
    assert forall|key: K::V| #[trigger] map_of(t).contains_key(key) implies map_of(t)[key] == map_of(s).insert(k@, v)[key] by {
        lemma_map_of_keys(t, key);
        let j = choose|j: int| 0 <= j < t.len() && t[j].0@ == key;
        lemma_map_of_index(t, j);
        if j < i {
            assert(t[j] == s[j]);
            lemma_map_of_index(s, j);
        } else if j > i {
            assert(t[j] == s[j - 1]);
            lemma_map_of_index(s, j - 1);
        }
    }
    assert(map_of(t) =~= map_of(s).insert(k@, v));
}

/// A table with unique keys, kept in ascending key order (as the ordered map of the protocol
/// iterates).
#[derive(Debug, PartialEq, Eq)]
pub struct KeyMap<K: SameKey, V> {
    entries: Vec<(K, V)>,
}

impl<K: SameKey, V> KeyMap<K, V> {
    #[verifier::type_invariant]
    spec fn wf(self) -> bool {
        unique_keys(self.entries@) && keys_ascend(self.entries@)
    }

    /// The entries, in ascending key order.
    pub closed spec fn seq(self) -> Seq<(K, V)> {
        self.entries@
    }

    pub open spec fn view(self) -> Map<K::V, V> {
        map_of(self.seq())
    }

    pub fn new() -> (r: Self)
        ensures
            r.seq().len() == 0,
            r@ == Map::<K::V, V>::empty(),
    {
        KeyMap { entries: Vec::new() }
    }

    pub fn len(&self) -> (r: usize)
        ensures
            r == self.seq().len(),
    {
        self.entries.len()
    }

    pub fn is_empty(&self) -> (r: bool)
        ensures
            r == (self.seq().len() == 0),
    {
        self.entries.len() == 0
    }

    /// The entries, in ascending key order.
    pub fn entries(&self) -> (r: &Vec<(K, V)>)
        ensures
            r@ == self.seq(),
            unique_keys(r@),
            keys_ascend(r@),
    {
        proof {
            use_type_invariant(self);
        }
        &self.entries
    }

    /// Consumes the table into its entries.
    pub fn into_entries(self) -> (r: Vec<(K, V)>)
        ensures
            r@ == self.seq(),
            unique_keys(r@),
            keys_ascend(r@),
    {
        proof {
            use_type_invariant(&self);
        }
        self.entries
    }
}

impl<K: SameKey, V> Default for KeyMap<K, V> {
    fn default() -> (r: Self)
        ensures
            r.seq().len() == 0,
            r@ == Map::<K::V, V>::empty(),
    {
        KeyMap::new()
    }
}

impl<K: SameKey, V> KeyMap<K, V> {
    /// Position of `k`.
    pub fn position(&self, k: &K) -> (r: Option<usize>)
        ensures
            match r {
                Some(i) => i < self.seq().len() && self.seq()[i as int].0@ == k@,
                None => !self@.contains_key(k@),
            },
    {
        let mut i: usize = 0;
        while i < self.entries.len()
            invariant
                i <= self.entries@.len(),
                forall|j: int| 0 <= j < i ==> self.entries@[j].0@ != k@,
            decreases self.entries.len() - i,
        {
            if self.entries[i].0.same_key(k) {
                return Some(i);
            }
            i = i + 1;
        }
        proof {
            lemma_map_of_keys(self.entries@, k@);
        }
        None
    }

    /// The value stored under `k`.
    pub fn get(&self, k: &K) -> (r: Option<&V>)
        ensures
            match r {
                Some(v) => self@.contains_key(k@) && self@[k@] == *v,
                None => !self@.contains_key(k@),
            },
    {
        proof {
            use_type_invariant(self);
        }
        match self.position(k) {
            Some(i) => {
                proof {
                    lemma_map_of_index(self.entries@, i as int);
                }
                Some(&self.entries[i].1)
            },
            None => None,
        }
    }

    /// Whether `k` has a value.
    pub fn contains_key(&self, k: &K) -> (r: bool)
        ensures
            r == self@.contains_key(k@),
    {
        self.get(k).is_some()
    }

    /// Puts `v` in place of the value under `k` and hands the old value back; nothing changes
    /// when `k` has no value.
    pub fn replace_value(&mut self, k: &K, v: V) -> (r: Option<V>)
        ensures
            match r {
                Some(x) => old(self)@.contains_key(k@) && x == old(self)@[k@] && final(self)@ == old(self)@.insert(k@, v),
                None => !old(self)@.contains_key(k@) && final(self)@ == old(self)@,
            },
    {
        proof {
            use_type_invariant(&*self);
        }
        match self.position(k) {
            Some(i) => {
                proof {
                    lemma_map_of_index(self.entries@, i as int);
                }
                let ghost s = self.entries@;
                let mut e: Vec<(K, V)> = Vec::new();
                std::mem::swap(&mut e, &mut self.entries);
                let (kk, old_v) = e.remove(i);
                proof {
                    lemma_map_of_update(s, i as int, kk, v);
                }
                e.insert(i, (kk, v));
                assert(e@ =~= s.update(i as int, (kk, v)));
                self.entries = e;
                Some(old_v)
            },
            None => None,
        }
    }

    /// Stores `v` under `k`: an existing key keeps its position, a new one goes to its place in
    /// key order.
    pub fn insert(&mut self, k: K, v: V)
        ensures
            final(self)@ == old(self)@.insert(k@, v),
            old(self)@.contains_key(k@) ==> final(self).seq().len() == old(self).seq().len(),
            !old(self)@.contains_key(k@) ==> final(self).seq().len() == old(self).seq().len() + 1,
    {
        proof {
            use_type_invariant(&*self);
        }
        match self.position(&k) {
            Some(i) => {
                proof {
                    lemma_map_of_update(self.entries@, i as int, k, v);
                    lemma_map_of_index(self.entries@, i as int);
                }
                let ghost s = self.entries@;
                let mut e: Vec<(K, V)> = Vec::new();
                std::mem::swap(&mut e, &mut self.entries);
                e.set(i, (k, v));
                assert(e@ =~= s.update(i as int, (k, v)));
                self.entries = e;
            },
            None => {
                let ghost s = self.entries@;
                proof {
                    lemma_map_of_keys(s, k@);
                }
                let mut e: Vec<(K, V)> = Vec::new();
                std::mem::swap(&mut e, &mut self.entries);
                let mut p: usize = 0;
                while p < e.len() && e[p].0.less_key(&k)
                    invariant
                        e@ == s,
                        p <= s.len(),
                        forall|j: int| 0 <= j < p ==> K::key_lt(#[trigger] s[j].0@, k@),
                    decreases e.len() - p,
                {
                    p = p + 1;
                }
                proof {
                    if p < s.len() {
                        K::lemma_key_order(s[p as int].0@, k@, k@);
                        assert(s[p as int].0@ != k@);
                        assert(K::key_lt(k@, s[p as int].0@));
                        assert forall|j: int| p <= j < s.len() implies K::key_lt(k@, #[trigger] s[j].0@) by {
                            if j > p {
                                K::lemma_key_order(k@, s[p as int].0@, s[j].0@);
                            }
                        }
                    }
                    lemma_map_of_insert(s, p as int, k, v);
                }
                e.insert(p, (k, v));
                proof {
                    let t = e@;
                    assert(t == s.insert(p as int, (k, v)));
                    assert forall|a: int, b: int| 0 <= a < b < t.len() implies K::key_lt(#[trigger] t[a].0@, #[trigger] t[b].0@) by {
                        if a == p {
                            assert(t[b] == s[b - 1]);
                        } else if b == p {
                            assert(t[a] == s[a]);
                        } else {
                            let sa = if a < p { a } else { a - 1 };
                            let sb = if b < p { b } else { b - 1 };
                            assert(t[a] == s[sa]);
                            assert(t[b] == s[sb]);
                        }
                    }
                }
                self.entries = e;
            },
        }
    }
}

} // verus!
