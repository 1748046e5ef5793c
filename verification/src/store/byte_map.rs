//! An ordered map from byte strings to values, kept as a vector of entries
//! in strictly ascending key order.

use vstd::prelude::*;
use crate::bytes::{bytes_eq, bytes_lt, copy_bytes, lex_lt, lemma_lex_total, lemma_lex_transitive,
    lemma_lex_irreflexive};

verus! {

/// The keys of `s` are in strictly ascending byte order.
pub open spec fn sorted_keys<T>(s: Seq<(Seq<u8>, T)>) -> bool {
    forall|i: int, j: int| 0 <= i < j < s.len() ==> lex_lt(#[trigger] s[i].0, #[trigger] s[j].0)
}

/// Some entry of `s` has the key `k`.
pub open spec fn has_key<T>(s: Seq<(Seq<u8>, T)>, k: Seq<u8>) -> bool {
    exists|i: int| 0 <= i < s.len() && #[trigger] s[i].0 == k
}

/// The position of an entry of `s` with the key `k`.
pub open spec fn index_of<T>(s: Seq<(Seq<u8>, T)>, k: Seq<u8>) -> int {
    choose|i: int| 0 <= i < s.len() && #[trigger] s[i].0 == k
}

/// The map that a sequence of entries stands for.
pub open spec fn entries_to_map<T>(s: Seq<(Seq<u8>, T)>) -> Map<Seq<u8>, T> {
    Map::new(|k: Seq<u8>| has_key(s, k), |k: Seq<u8>| s[index_of(s, k)].1)
}

/// In a sorted sequence each entry is what the map holds under its key.
pub proof fn lemma_entry_in_map<T>(s: Seq<(Seq<u8>, T)>, i: int)
    requires
        sorted_keys(s),
        0 <= i < s.len(),
    ensures
        entries_to_map(s).contains_key(s[i].0),
        entries_to_map(s)[s[i].0] == s[i].1,
{
    let k = s[i].0;
    let j = index_of(s, k);
    if i < j {
        lemma_lex_irreflexive(k);
    } else if j < i {
        lemma_lex_irreflexive(k);
    }
}

/// Putting a new entry at the place that keeps the keys sorted adds it
/// to the map.
pub proof fn lemma_insert_entry<T>(s: Seq<(Seq<u8>, T)>, p: int, k: Seq<u8>, v: T)
    requires
        sorted_keys(s),
        0 <= p <= s.len(),
        forall|i: int| 0 <= i < p ==> lex_lt(#[trigger] s[i].0, k),
        forall|i: int| p <= i < s.len() ==> lex_lt(k, #[trigger] s[i].0),
    ensures
        sorted_keys(s.insert(p, (k, v))),
        entries_to_map(s.insert(p, (k, v))) == entries_to_map(s).insert(k, v),
{
    let t = s.insert(p, (k, v));
    assert forall|i: int, j: int| 0 <= i < j < t.len() implies lex_lt(
        #[trigger] t[i].0,
        #[trigger] t[j].0,
    ) by {
        let a = if i < p { i } else { i - 1 };
        let b = if j < p { j } else { j - 1 };
        if i != p && j != p {
            assert(t[i] == s[a]);
            assert(t[j] == s[b]);
        } else if i == p {
            assert(t[j] == s[b]);
        } else {
            assert(t[i] == s[a]);
        }
    }
    let m1 = entries_to_map(t);
    let m2 = entries_to_map(s).insert(k, v);
    assert forall|x: Seq<u8>| m1.contains_key(x) == m2.contains_key(x) by {
        if has_key(t, x) {
            let i = index_of(t, x);
            if i < p {
                assert(s[i].0 == x);
            } else if i > p {
                assert(s[i - 1].0 == x);
            }
        }
        if has_key(s, x) {
            let i = index_of(s, x);
            if i < p {
                assert(t[i].0 == x);
            } else {
                assert(t[i + 1].0 == x);
            }
        }
        if x == k {
            assert(t[p].0 == x);
        }
    }
    assert forall|x: Seq<u8>| m1.contains_key(x) implies m1[x] == m2[x] by {
        let i = index_of(t, x);
        lemma_entry_in_map(t, i);
        if i < p {
            assert(t[i] == s[i]);
            lemma_entry_in_map(s, i);
            lemma_lex_irreflexive(k);
        } else if i > p {
            assert(t[i] == s[i - 1]);
            lemma_entry_in_map(s, i - 1);
            lemma_lex_irreflexive(k);
        }
    }
    assert(m1 =~= m2);
}

/// Replacing the value of an entry replaces it in the map.
pub proof fn lemma_update_entry<T>(s: Seq<(Seq<u8>, T)>, p: int, v: T)
    requires
        sorted_keys(s),
        0 <= p < s.len(),
    ensures
        sorted_keys(s.update(p, (s[p].0, v))),
        entries_to_map(s.update(p, (s[p].0, v))) == entries_to_map(s).insert(s[p].0, v),
{
    let k = s[p].0;
    let t = s.update(p, (k, v));
    assert forall|i: int| 0 <= i < s.len() implies #[trigger] t[i].0 == s[i].0 by {}
    assert forall|i: int, j: int| 0 <= i < j < t.len() implies lex_lt(
        #[trigger] t[i].0,
        #[trigger] t[j].0,
    ) by {
        assert(t[i].0 == s[i].0);
        assert(t[j].0 == s[j].0);
    }
    let m1 = entries_to_map(t);
    let m2 = entries_to_map(s).insert(k, v);
    assert forall|x: Seq<u8>| m1.contains_key(x) == m2.contains_key(x) by {
        if has_key(t, x) {
            let i = index_of(t, x);
            assert(s[i].0 == x);
        }
        if has_key(s, x) {
            let i = index_of(s, x);
            assert(t[i].0 == x);
        }
        if x == k {
            assert(t[p].0 == x);
        }
    }
    assert forall|x: Seq<u8>| m1.contains_key(x) implies m1[x] == m2[x] by {
        let i = index_of(t, x);
        lemma_entry_in_map(t, i);
        if i != p {
            assert(t[i] == s[i]);
            lemma_entry_in_map(s, i);
            if i < p {
                lemma_lex_irreflexive(k);
            } else {
                lemma_lex_irreflexive(k);
            }
        }
    }
    assert(m1 =~= m2);
}

/// Taking an entry out takes its key out of the map.
pub proof fn lemma_remove_entry<T>(s: Seq<(Seq<u8>, T)>, p: int)
    requires
        sorted_keys(s),
        0 <= p < s.len(),
    ensures
        sorted_keys(s.remove(p)),
        entries_to_map(s.remove(p)) == entries_to_map(s).remove(s[p].0),
{
    let k = s[p].0;
    let t = s.remove(p);
    assert forall|i: int, j: int| 0 <= i < j < t.len() implies lex_lt(
        #[trigger] t[i].0,
        #[trigger] t[j].0,
    ) by {
        let a = if i < p { i } else { i + 1 };
        let b = if j < p { j } else { j + 1 };
        assert(t[i] == s[a]);
        assert(t[j] == s[b]);
    }
    let m1 = entries_to_map(t);
    let m2 = entries_to_map(s).remove(k);
    assert forall|x: Seq<u8>| m1.contains_key(x) == m2.contains_key(x) by {
        if has_key(t, x) {
            let i = index_of(t, x);
            let a = if i < p { i } else { i + 1 };
            assert(t[i] == s[a]);
            assert(s[a].0 == x);
            if x == k {
                lemma_lex_irreflexive(k);
            }
        }
        if has_key(s, x) && x != k {
            let i = index_of(s, x);
            if i < p {
                assert(t[i].0 == x);
            } else {
                assert(t[i - 1].0 == x);
            }
        }
    }
    assert forall|x: Seq<u8>| m1.contains_key(x) implies m1[x] == m2[x] by {
        let i = index_of(t, x);
        lemma_entry_in_map(t, i);
        let a = if i < p { i } else { i + 1 };
        assert(t[i] == s[a]);
        lemma_entry_in_map(s, a);
    }
    assert(m1 =~= m2);
}

/// A key that lies strictly between two neighbours of a sorted sequence,
/// or before its first or after its last entry, is not in the map.
pub proof fn lemma_absent_key<T>(s: Seq<(Seq<u8>, T)>, p: int, k: Seq<u8>)
    requires
        sorted_keys(s),
        0 <= p <= s.len(),
        forall|i: int| 0 <= i < p ==> lex_lt(#[trigger] s[i].0, k),
        forall|i: int| p <= i < s.len() ==> lex_lt(k, #[trigger] s[i].0),
    ensures
        !entries_to_map(s).contains_key(k),
{
    if has_key(s, k) {
        let i = index_of(s, k);
        lemma_lex_irreflexive(k);
    }
}

/// A value that a store can hold, with the mathematical value it stands for.
pub trait Stored: Sized {
    type Model;

    spec fn model(&self) -> Self::Model;

    /// A fresh copy that stands for the same value.
    fn duplicate(&self) -> (r: Self)
        ensures
            r.model() == self.model(),
    ;
}

impl Stored for Vec<u8> {
    type Model = Seq<u8>;

    open spec fn model(&self) -> Seq<u8> {
        self@
    }

    fn duplicate(&self) -> (r: Self) {
        copy_bytes(self.as_slice())
    }
}

impl Stored for Option<Vec<u8>> {
    type Model = Option<Seq<u8>>;

    open spec fn model(&self) -> Option<Seq<u8>> {
        match self {
            Some(v) => Some(v@),
            None => None,
        }
    }

    fn duplicate(&self) -> (r: Self) {
        match self {
            Some(v) => Some(copy_bytes(v.as_slice())),
            None => None,
        }
    }
}

/// The entries of a vector by their models.
pub open spec fn entry_models<V: Stored>(v: Seq<(Vec<u8>, V)>) -> Seq<(Seq<u8>, V::Model)> {
    Seq::new(v.len(), |i: int| (v[i].0@, v[i].1.model()))
}

/// The first `n + 1` entries of a sorted sequence stand for the map of the
/// first `n` with the entry at `n` added.
pub proof fn lemma_take_next<T>(s: Seq<(Seq<u8>, T)>, n: int)
    requires
        sorted_keys(s),
        0 <= n < s.len(),
    ensures
        sorted_keys(s.take(n)),
        sorted_keys(s.take(n + 1)),
        entries_to_map(s.take(n + 1)) == entries_to_map(s.take(n)).insert(s[n].0, s[n].1),
{
    let t = s.take(n);
    assert forall|i: int, j: int| 0 <= i < j < t.len() implies lex_lt(
        #[trigger] t[i].0,
        #[trigger] t[j].0,
    ) by {
        assert(t[i] == s[i]);
        assert(t[j] == s[j]);
    }
    assert forall|i: int| 0 <= i < n implies lex_lt(#[trigger] t[i].0, s[n].0) by {
        assert(t[i] == s[i]);
    }
    lemma_insert_entry(t, n, s[n].0, s[n].1);
    assert(t.insert(n, (s[n].0, s[n].1)) =~= s.take(n + 1));
}

/// The empty sequence stands for the empty map.
pub proof fn lemma_no_entries<T>(s: Seq<(Seq<u8>, T)>)
    requires
        s.len() == 0,
    ensures
        sorted_keys(s),
        entries_to_map(s) == Map::<Seq<u8>, T>::empty(),
{
    assert(entries_to_map(s) =~= Map::<Seq<u8>, T>::empty());
}

/// An ordered map from byte strings to values of type `V`.
pub struct ByteMap<V: Stored> {
    entries: Vec<(Vec<u8>, V)>,
}

impl<V: Stored> ByteMap<V> {
    /// The entries in ascending key order, keys and values by their models.
    pub closed spec fn entries(&self) -> Seq<(Seq<u8>, V::Model)> {
        entry_models(self.entries@)
    }

    /// The map from keys to values.
    pub open spec fn view(&self) -> Map<Seq<u8>, V::Model> {
        entries_to_map(self.entries())
    }

    #[verifier::type_invariant]
    spec fn ordered(&self) -> bool {
        sorted_keys(entry_models(self.entries@))
    }

    /// The empty map.
    pub fn new() -> (m: Self)
        ensures
            m.entries() == Seq::<(Seq<u8>, V::Model)>::empty(),
            m@ == Map::<Seq<u8>, V::Model>::empty(),
    {
        let m = ByteMap { entries: Vec::new() };
        assert(entry_models(m.entries@) =~= Seq::<(Seq<u8>, V::Model)>::empty());
        assert(m@ =~= Map::<Seq<u8>, V::Model>::empty());
        m
    }

    /// The number of entries. The entries are sorted, whatever the map holds.
    pub fn len(&self) -> (n: usize)
        ensures
            n == self.entries().len(),
            sorted_keys(self.entries()),
    {
        proof {
            use_type_invariant(self);
        }
        self.entries.len()
    }

    /// The key of the `i`-th entry in ascending order.
    pub fn key_at(&self, i: usize) -> (k: &Vec<u8>)
        requires
            i < self.entries().len(),
        ensures
            k@ == self.entries()[i as int].0,
    {
        &self.entries[i].0
    }

    /// The value of the `i`-th entry in ascending order.
    pub fn value_at(&self, i: usize) -> (v: &V)
        requires
            i < self.entries().len(),
        ensures
            v.model() == self.entries()[i as int].1,
    {
        &self.entries[i].1
    }

    /// A copy of the map that shares nothing with it.
    pub fn duplicate(&self) -> (m: Self)
        ensures
            m.entries() == self.entries(),
            m@ == self@,
    {
        proof {
            use_type_invariant(self);
        }
        let mut entries: Vec<(Vec<u8>, V)> = Vec::new();
        let mut i: usize = 0;
        while i < self.entries.len()
            invariant
                0 <= i <= self.entries@.len(),
                entries@.len() == i,
                entry_models(entries@) == entry_models(self.entries@).take(i as int),
            decreases self.entries@.len() - i,
        {
            let key = copy_bytes(self.entries[i].0.as_slice());
            let value = self.entries[i].1.duplicate();
            let ghost before = entries@;
            entries.push((key, value));
            proof {
                let a = entry_models(entries@);
                let b = entry_models(self.entries@).take(i + 1);
                assert(a.len() == b.len());
                assert forall|j: int| 0 <= j < a.len() implies a[j] == b[j] by {
                    if j < i {
                        assert(entries@[j] == before[j]);
                        assert(entry_models(before)[j] == entry_models(self.entries@).take(i as int)[j]);
                    }
                }
                assert(a =~= b);
            }
            i = i + 1;
        }
        assert(entry_models(self.entries@).take(i as int) =~= entry_models(self.entries@));
        ByteMap { entries }
    }

    /// The entries in ascending key order.
    pub fn into_entries(self) -> (r: Vec<(Vec<u8>, V)>)
        ensures
            entry_models(r@) == self.entries(),
            sorted_keys(entry_models(r@)),
    {
        proof {
            use_type_invariant(&self);
        }
        self.entries
    }

    /// Whether the map holds nothing.
    pub fn is_empty(&self) -> (r: bool)
        ensures
            r == (self.entries().len() == 0),
            r == (self@ == Map::<Seq<u8>, V::Model>::empty()),
    {
        proof {
            use_type_invariant(self);
            if self.entries().len() == 0 {
                lemma_no_entries(self.entries());
            } else {
                lemma_entry_in_map(self.entries(), 0);
            }
        }
        self.entries.len() == 0
    }

    /// The number of entries whose key comes before `key`: the place of
    /// `key` in the order, found by bisection.
    fn position(&self, key: &[u8]) -> (p: usize)
        ensures
            p <= self.entries().len(),
            sorted_keys(self.entries()),
            forall|i: int| 0 <= i < p ==> lex_lt(#[trigger] self.entries()[i].0, key@),
            forall|i: int|
                p <= i < self.entries().len() ==> !lex_lt(#[trigger] self.entries()[i].0, key@),
    {
        proof {
            use_type_invariant(self);
        }
        let ghost s = self.entries();
        let mut lo: usize = 0;
        let mut hi: usize = self.entries.len();
        while lo < hi
            invariant
                lo <= hi <= s.len(),
                s == entry_models(self.entries@),
                sorted_keys(s),
                forall|i: int| 0 <= i < lo ==> lex_lt(#[trigger] s[i].0, key@),
                forall|i: int| hi <= i < s.len() ==> !lex_lt(#[trigger] s[i].0, key@),
            decreases hi - lo,
        {
            let mid: usize = lo + (hi - lo) / 2;
            if bytes_lt(self.entries[mid].0.as_slice(), key) {
                proof {
                    assert forall|i: int| 0 <= i < mid + 1 implies lex_lt(
                        #[trigger] s[i].0,
                        key@,
                    ) by {
                        if i < mid {
                            assert(lex_lt(s[i].0, s[mid as int].0));
                            lemma_lex_transitive(s[i].0, s[mid as int].0, key@);
                        }
                    }
                }
                lo = mid + 1;
            } else {
                proof {
                    assert forall|i: int| mid <= i < s.len() implies !lex_lt(
                        #[trigger] s[i].0,
                        key@,
                    ) by {
                        if i > mid && lex_lt(s[i].0, key@) {
                            assert(lex_lt(s[mid as int].0, s[i].0));
                            lemma_lex_transitive(s[mid as int].0, s[i].0, key@);
                        }
                    }
                }
                hi = mid;
            }
        }
        lo
    }

    /// The value stored under `key`, if there is one.
    pub fn get(&self, key: &[u8]) -> (r: Option<&V>)
        ensures
            match r {
                Some(v) => self@.contains_key(key@) && self@[key@] == v.model(),
                None => !self@.contains_key(key@),
            },
    {
        let p = self.position(key);
        if p < self.entries.len() && bytes_eq(self.entries[p].0.as_slice(), key) {
            proof {
                lemma_entry_in_map(self.entries(), p as int);
            }
            Some(&self.entries[p].1)
        } else {
            proof {
                let s = self.entries();
                assert forall|i: int| p <= i < s.len() implies lex_lt(key@, #[trigger] s[i].0) by {
                    lemma_lex_total(key@, s[i].0);
                    if i > p && s[i].0 == key@ {
                        assert(lex_lt(s[p as int].0, s[i].0));
                    }
                }
                lemma_absent_key(s, p as int, key@);
            }
            None
        }
    }

    /// Stores `value` under `key`, in place of what was there.
    pub fn insert(&mut self, key: Vec<u8>, value: V)
        ensures
            final(self)@ == old(self)@.insert(key@, value.model()),
    {
        let p = self.position(key.as_slice());
        let ghost s = self.entries();
        if p < self.entries.len() && bytes_eq(self.entries[p].0.as_slice(), key.as_slice()) {
            proof {
                lemma_update_entry(s, p as int, value.model());
            }
            let mut entries: Vec<(Vec<u8>, V)> = Vec::new();
            assert(entry_models(entries@) =~= Seq::<(Seq<u8>, V::Model)>::empty());
            core::mem::swap(&mut self.entries, &mut entries);
            let ghost new_value = value.model();
            entries.set(p, (key, value));
            assert(entry_models(entries@) =~= s.update(p as int, (s[p as int].0, new_value)));
            core::mem::swap(&mut self.entries, &mut entries);
        } else {
            proof {
                assert forall|i: int| p <= i < s.len() implies lex_lt(key@, #[trigger] s[i].0) by {
                    lemma_lex_total(key@, s[i].0);
                    if i > p && s[i].0 == key@ {
                        assert(lex_lt(s[p as int].0, s[i].0));
                    }
                }
                lemma_insert_entry(s, p as int, key@, value.model());
            }
            let mut entries: Vec<(Vec<u8>, V)> = Vec::new();
            assert(entry_models(entries@) =~= Seq::<(Seq<u8>, V::Model)>::empty());
            core::mem::swap(&mut self.entries, &mut entries);
            let ghost new_entry = (key@, value.model());
            entries.insert(p, (key, value));
            assert(entry_models(entries@) =~= s.insert(p as int, new_entry));
            core::mem::swap(&mut self.entries, &mut entries);
        }
    }

    /// Takes out what is stored under `key`, if anything.
    pub fn remove(&mut self, key: &[u8])
        ensures
            final(self)@ == old(self)@.remove(key@),
    {
        let p = self.position(key);
        let ghost s = self.entries();
        if p < self.entries.len() && bytes_eq(self.entries[p].0.as_slice(), key) {
            proof {
                lemma_remove_entry(s, p as int);
            }
            let mut entries: Vec<(Vec<u8>, V)> = Vec::new();
            assert(entry_models(entries@) =~= Seq::<(Seq<u8>, V::Model)>::empty());
            core::mem::swap(&mut self.entries, &mut entries);
            entries.remove(p);
            assert(entry_models(entries@) =~= s.remove(p as int));
            core::mem::swap(&mut self.entries, &mut entries);
        } else {
            proof {
                assert forall|i: int| p <= i < s.len() implies lex_lt(key@, #[trigger] s[i].0) by {
                    lemma_lex_total(key@, s[i].0);
                    if i > p && s[i].0 == key@ {
                        assert(lex_lt(s[p as int].0, s[i].0));
                    }
                }
                lemma_absent_key(s, p as int, key@);
                assert(self@ =~= self@.remove(key@));
            }
        }
    }
}

} // verus!
