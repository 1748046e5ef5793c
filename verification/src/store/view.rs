//! Prefixed views: the handles through which one module reads and writes
//! its own namespace of the multi-store, and nothing else.

use vstd::prelude::*;
use crate::bytes::{bytes_lt, copy_bytes, join, is_prefix, lemma_lex_asymmetric,
    lemma_lex_irreflexive, lex_lt};
use crate::gas::{GasMeter, OutOfGas, delete_cost, iter_cost, iter_cost_of, read_cost, read_cost_of,
    write_cost, write_cost_of, DELETE_COST};
use crate::store::byte_map::{Stored, entries_to_map, entry_models, has_key, index_of,
    lemma_entry_in_map, lemma_insert_entry, lemma_no_entries, lemma_remove_entry, lemma_take_next,
    sorted_keys};
use crate::store::multi::{Layer, MultiStore, StoreKey, StoreState, lemma_write_visible};
use crate::store::table::{Table, lookup, namespace_of, window, write_table, lemma_window_write,
    lemma_namespace_lookup, lemma_split_prefix};

verus! {

/// The state that a reader looks at: a committed height, or a pending
/// layer over the latest one.
#[derive(Clone, Copy, Debug, PartialEq, Eq)]
pub enum Source {
    Committed(u32),
    Pending(Layer),
}

impl StoreState {
    /// The state that a reader of `source` sees.
    pub open spec fn seen(self, source: Source) -> Table {
        match source {
            Source::Committed(h) => self.versions[h as int],
            Source::Pending(layer) => self.visible(layer),
        }
    }

    /// Whether `source` is there to be read.
    pub open spec fn has_source(self, source: Source) -> bool {
        match source {
            Source::Committed(h) => h <= self.height(),
            Source::Pending(_) => true,
        }
    }

    /// What the namespace `key` holds for a reader of `source`, keys as
    /// the module writes them.
    pub open spec fn namespace(self, source: Source, key: StoreKey) -> Table {
        namespace_of(self.seen(source), self.names[key.index as int])
    }

    /// The state after one write into the namespace `key`, through `layer`.
    pub open spec fn written(self, layer: Layer, key: StoreKey, k: Seq<u8>, w: Option<Seq<u8>>)
        -> StoreState {
        self.with_write(layer, self.names[key.index as int] + k, w)
    }
}

/// A write through a namespace is a write to what the namespace holds.
pub proof fn lemma_written_namespace(
    s: StoreState,
    layer: Layer,
    key: StoreKey,
    k: Seq<u8>,
    w: Option<Seq<u8>>,
)
    ensures
        s.written(layer, key, k, w).namespace(Source::Pending(layer), key) == write_table(
            s.namespace(Source::Pending(layer), key),
            k,
            w,
        ),
        s.history_kept(s.written(layer, key, k, w)),
{
    let ns = s.names[key.index as int];
    let e = Seq::<u8>::empty();
    lemma_write_visible(s, layer, ns + k, w);
    lemma_window_write(s.visible(layer), ns, e, ns + k, w);
    lemma_split_prefix(ns, e, k);
    assert(ns + e =~= ns);
}

/// Two tables that hold the same under every key of a namespace show
/// the same through the namespace.
pub proof fn lemma_namespace_agrees(t1: Table, t2: Table, ns: Seq<u8>)
    requires
        forall|y: Seq<u8>| lookup(t1, #[trigger] (ns + y)) == lookup(t2, ns + y),
    ensures
        namespace_of(t1, ns) == namespace_of(t2, ns),
{
    let n1 = namespace_of(t1, ns);
    let n2 = namespace_of(t2, ns);
    assert forall|y: Seq<u8>| n1.contains_key(y) == n2.contains_key(y) by {
        assert(lookup(t1, ns + y) == lookup(t2, ns + y));
    }
    assert forall|y: Seq<u8>| n1.contains_key(y) implies n1[y] == n2[y] by {
        assert(lookup(t1, ns + y) == lookup(t2, ns + y));
    }
    assert(n1 =~= n2);
}

/// Namespace isolation: a write through the view of one namespace never
/// shows through the view of another, whatever the key and whichever
/// state the other view reads.
pub proof fn lemma_namespace_isolation(
    s: StoreState,
    layer: Layer,
    a: StoreKey,
    b: StoreKey,
    k: Seq<u8>,
    w: Option<Seq<u8>>,
    source: Source,
)
    requires
        s.wf(),
        a.index < s.names.len(),
        b.index < s.names.len(),
        a.index != b.index,
    ensures
        s.written(layer, a, k, w).namespace(source, b) == s.namespace(source, b),
{
    let na = s.names[a.index as int];
    let nb = s.names[b.index as int];
    let s2 = s.written(layer, a, k, w);
    let t1 = s.seen(source);
    let t2 = s2.seen(source);
    assert forall|y: Seq<u8>| lookup(t1, #[trigger] (nb + y)) == lookup(t2, nb + y) by {
        crate::bytes::lemma_distinct_prefixes(nb, na, y, k);
    }
    lemma_namespace_agrees(t1, t2, nb);
}

/// Snapshot isolation: whatever is done to a store that keeps its
/// history, a view that is pinned to a height that was committed holds
/// what it held, however many blocks are committed later.
pub proof fn lemma_snapshot_isolation(s: StoreState, later: StoreState, h: u32, key: StoreKey)
    requires
        s.wf(),
        s.history_kept(later),
        h <= s.height(),
    ensures
        later.has_source(Source::Committed(h)),
        later.namespace(Source::Committed(h), key) == s.namespace(Source::Committed(h), key),
{
}

/// `r` lists the entries of `t` in ascending key order.
pub open spec fn lists(r: Seq<(Vec<u8>, Vec<u8>)>, t: Table) -> bool {
    &&& sorted_keys(entry_models(r))
    &&& entries_to_map(entry_models(r)) == t
}

/// Whether `k` lies in the range from `start`, or from the first key
/// where there is no `start`, to before `end`, or to the last key where
/// there is no `end`.
pub open spec fn in_range(k: Seq<u8>, start: Option<Seq<u8>>, end: Option<Seq<u8>>) -> bool {
    &&& start matches Some(s) ==> !lex_lt(k, s)
    &&& end matches Some(e) ==> lex_lt(k, e)
}

/// The entries of `t` whose keys lie in a range.
pub open spec fn range_of(t: Table, start: Option<Seq<u8>>, end: Option<Seq<u8>>) -> Table {
    t.restrict(Set::new(|k: Seq<u8>| in_range(k, start, end)))
}

/// An optional byte string by its view.
pub open spec fn bound_model(b: Option<&[u8]>) -> Option<Seq<u8>> {
    match b {
        Some(s) => Some(s@),
        None => None,
    }
}

/// The entries of a listing whose keys lie in a range, in their order.
fn within_range(
    entries: Vec<(Vec<u8>, Vec<u8>)>,
    start: Option<&[u8]>,
    end: Option<&[u8]>,
    Ghost(t): Ghost<Table>,
) -> (r: Vec<(Vec<u8>, Vec<u8>)>)
    requires
        lists(entries@, t),
    ensures
        lists(r@, range_of(t, bound_model(start), bound_model(end))),
{
    let ghost s = entry_models(entries@);
    let ghost lo = bound_model(start);
    let ghost hi = bound_model(end);
    let ghost wanted = Set::new(|k: Seq<u8>| in_range(k, lo, hi));
    let mut r: Vec<(Vec<u8>, Vec<u8>)> = Vec::new();
    let mut i: usize = 0;
    proof {
        lemma_no_entries(s.take(0));
        lemma_no_entries(entry_models(r@));
        assert(entries_to_map(s.take(0)).restrict(wanted) =~= Map::<Seq<u8>, Seq<u8>>::empty());
    }
    while i < entries.len()
        invariant
            0 <= i <= entries@.len(),
            s == entry_models(entries@),
            sorted_keys(s),
            lo == bound_model(start),
            hi == bound_model(end),
            wanted == Set::new(|k: Seq<u8>| in_range(k, lo, hi)),
            sorted_keys(entry_models(r@)),
            entries_to_map(entry_models(r@)) == entries_to_map(s.take(i as int)).restrict(wanted),
            forall|j: int|
                0 <= j < r@.len() ==> has_key(s.take(i as int), #[trigger] entry_models(r@)[j].0),
        decreases entries@.len() - i,
    {
        let key = &entries[i].0;
        let after_start = match start {
            Some(b) => !bytes_lt(key.as_slice(), b),
            None => true,
        };
        let before_end = match end {
            Some(b) => bytes_lt(key.as_slice(), b),
            None => true,
        };
        let ghost before = entry_models(r@);
        let ghost m = entries_to_map(s.take(i as int));
        proof {
            lemma_take_next(s, i as int);
            assert forall|j: int| 0 <= j < before.len() implies lex_lt(
                #[trigger] before[j].0,
                s[i as int].0,
            ) by {
                let at = index_of(s.take(i as int), before[j].0);
                assert(s.take(i as int)[at] == s[at]);
            }
        }
        if after_start && before_end {
            r.push((copy_bytes(key.as_slice()), copy_bytes(entries[i].1.as_slice())));
            proof {
                let entry = s[i as int];
                assert(entry_models(r@) =~= before.insert(before.len() as int, (entry.0, entry.1)));
                lemma_insert_entry(before, before.len() as int, entry.0, entry.1);
                assert(m.insert(entry.0, entry.1).restrict(wanted) =~= m.restrict(wanted).insert(
                    entry.0,
                    entry.1,
                ));
                assert forall|j: int| 0 <= j < r@.len() implies has_key(
                    s.take(i + 1),
                    #[trigger] entry_models(r@)[j].0,
                ) by {
                    if j < before.len() {
                        let at = index_of(s.take(i as int), before[j].0);
                        assert(s.take(i + 1)[at].0 == before[j].0);
                    } else {
                        assert(s.take(i + 1)[i as int].0 == entry.0);
                    }
                }
            }
        } else {
            proof {
                let entry = s[i as int];
                assert(m.insert(entry.0, entry.1).restrict(wanted) =~= m.restrict(wanted));
                assert forall|j: int| 0 <= j < r@.len() implies has_key(
                    s.take(i + 1),
                    #[trigger] entry_models(r@)[j].0,
                ) by {
                    let at = index_of(s.take(i as int), before[j].0);
                    assert(s.take(i + 1)[at].0 == before[j].0);
                }
            }
        }
        i = i + 1;
    }
    assert(s.take(i as int) =~= s);
    r
}

/// The cost of an iteration that yields the given entries.
pub open spec fn listing_cost(entries: Seq<(Seq<u8>, Seq<u8>)>) -> nat
    decreases entries.len(),
{
    if entries.len() == 0 {
        0
    } else {
        listing_cost(entries.drop_last()) + iter_cost(
            entries.last().0.len(),
            entries.last().1.len(),
        )
    }
}

/// The cost of an iteration, as a number, cut off at the largest that fits.
fn listing_cost_of(entries: &Vec<(Vec<u8>, Vec<u8>)>) -> (c: u128)
    ensures
        c == if listing_cost(entry_models(entries@)) <= u128::MAX {
            listing_cost(entry_models(entries@))
        } else {
            u128::MAX as nat
        },
{
    let ghost s = entry_models(entries@);
    let mut c: u128 = 0;
    let mut i: usize = 0;
    assert(s.take(0) =~= Seq::<(Seq<u8>, Seq<u8>)>::empty());
    while i < entries.len()
        invariant
            0 <= i <= entries@.len(),
            s == entry_models(entries@),
            c == if listing_cost(s.take(i as int)) <= u128::MAX {
                listing_cost(s.take(i as int))
            } else {
                u128::MAX as nat
            },
        decreases entries@.len() - i,
    {
        proof {
            assert(s.take(i + 1).drop_last() =~= s.take(i as int));
            assert(s.take(i + 1).last() == s[i as int]);
        }
        let step = iter_cost_of(entries[i].0.len(), entries[i].1.len());
        c = if c <= u128::MAX - step { c + step } else { u128::MAX };
        i = i + 1;
    }
    assert(s.take(i as int) =~= s);
    c
}

/// A read-only view of one namespace, at a committed height or over the
/// pending writes. It is never charged for.
pub struct PrefixedView<'a> {
    store: &'a MultiStore,
    key: StoreKey,
    source: Source,
}

impl<'a> PrefixedView<'a> {
    /// The view of the namespace `key` of `store` for a reader of `source`.
    pub fn new(store: &'a MultiStore, key: StoreKey, source: Source) -> (v: Self)
        requires
            store.wf(),
            key.index < store@.names.len(),
            store@.has_source(source),
        ensures
            v.table() == store@.namespace(source, key),
    {
        PrefixedView { store, key, source }
    }

    /// What the view holds.
    pub closed spec fn table(&self) -> Table {
        self.store@.namespace(self.source, self.key)
    }

    #[verifier::type_invariant]
    spec fn sound(&self) -> bool {
        &&& self.store.wf()
        &&& self.key.index < self.store@.names.len()
        &&& self.store@.has_source(self.source)
    }

    /// The value under `k`, if there is one.
    pub fn get(&self, k: &[u8]) -> (r: Option<Vec<u8>>)
        ensures
            r.model() == lookup(self.table(), k@),
    {
        proof {
            use_type_invariant(self);
        }
        let full = join(self.store.name(&self.key).as_slice(), k);
        proof {
            lemma_namespace_lookup(
                self.store@.seen(self.source),
                self.store@.names[self.key.index as int],
                k@,
            );
        }
        match self.source {
            Source::Committed(h) => self.store.read_at(h, full.as_slice()),
            Source::Pending(layer) => self.store.read(layer, full.as_slice()),
        }
    }

    /// Whether there is a value under `k`.
    pub fn has(&self, k: &[u8]) -> (r: bool)
        ensures
            r == self.table().contains_key(k@),
    {
        self.get(k).is_some()
    }

    /// The entries whose keys start with `prefix`, in ascending key order.
    /// With an empty prefix, all entries.
    pub fn iterate(&self, prefix: &[u8]) -> (r: Vec<(Vec<u8>, Vec<u8>)>)
        ensures
            lists(r@, window(self.table(), Seq::empty(), prefix@)),
    {
        proof {
            use_type_invariant(self);
            lemma_window_of_namespace(
                self.store@.seen(self.source),
                self.store@.names[self.key.index as int],
                prefix@,
            );
        }
        let found = match self.source {
            Source::Committed(h) => self.store.scan_at(h, &self.key, prefix),
            Source::Pending(layer) => self.store.scan(layer, &self.key, prefix),
        };
        found.into_entries()
    }

    /// The entries whose keys lie in the range from `start` to before
    /// `end`, in ascending key order. Without a `start` the range begins
    /// at the first key, without an `end` it goes on to the last.
    pub fn range(&self, start: Option<&[u8]>, end: Option<&[u8]>) -> (r: Vec<(Vec<u8>, Vec<u8>)>)
        ensures
            lists(r@, range_of(self.table(), bound_model(start), bound_model(end))),
    {
        let whole: Vec<u8> = Vec::new();
        let all = self.iterate(whole.as_slice());
        proof {
            lemma_whole_window(self.table());
        }
        within_range(all, start, end, Ghost(self.table()))
    }
}

impl MultiStore {
    /// A read-only view of the namespace `key` as the block under way has
    /// it: the latest committed state with the block's pending writes.
    pub fn namespace(&self, key: &StoreKey) -> (v: PrefixedView<'_>)
        requires
            self.wf(),
            key.index < self@.names.len(),
        ensures
            v.table() == self@.namespace(Source::Pending(Layer::Block), *key),
    {
        PrefixedView::new(self, *key, Source::Pending(Layer::Block))
    }

    /// A read-only view of the namespace `key` pinned to the committed
    /// height `height`, or `None` where that height has not been
    /// committed. What is written or committed later does not show in it.
    pub fn namespace_at(&self, height: u32, key: &StoreKey) -> (r: Option<PrefixedView<'_>>)
        requires
            self.wf(),
            key.index < self@.names.len(),
        ensures
            match r {
                Some(v) => height <= self@.height() && v.table() == self@.namespace(
                    Source::Committed(height),
                    *key,
                ),
                None => height > self@.height(),
            },
    {
        if height > self.height() {
            None
        } else {
            Some(PrefixedView::new(self, *key, Source::Committed(height)))
        }
    }

    /// A read-write view of the namespace `key` that writes into the
    /// block's pending layer.
    pub fn namespace_mut(&mut self, key: &StoreKey) -> (v: PrefixedViewMut<'_>)
        requires
            old(self).wf(),
            key.index < old(self)@.names.len(),
        ensures
            v.wf(),
            v.key == *key,
            v.layer is Block,
            *v.store == *old(self),
            *final(self) == *final(v.store),
    {
        PrefixedViewMut { store: self, key: *key, layer: Layer::Block }
    }
}

/// The window of the empty prefix in no namespace is the whole table.
pub proof fn lemma_whole_window(t: Table)
    ensures
        window(t, Seq::empty(), Seq::empty()) == t,
{
    let e = Seq::<u8>::empty();
    assert forall|k: Seq<u8>| e + k == k by {
        assert(e + k =~= k);
    }
    assert forall|k: Seq<u8>| is_prefix(e, k) by {
        assert(k.subrange(0, 0) =~= e);
    }
    assert(window(t, e, e) =~= t);
}

/// A window of a namespace is the window of the table behind it.
pub proof fn lemma_window_of_namespace(t: Table, ns: Seq<u8>, prefix: Seq<u8>)
    ensures
        window(namespace_of(t, ns), Seq::empty(), prefix) == window(t, ns, prefix),
{
    let e = Seq::<u8>::empty();
    assert forall|k: Seq<u8>| e + k == k by {
        assert(e + k =~= k);
    }
    assert forall|k: Seq<u8>| is_prefix(e, k) by {
        assert(k.subrange(0, 0) =~= e);
    }
    assert(window(namespace_of(t, ns), e, prefix) =~= window(t, ns, prefix));
}

/// A read-write view of one namespace, through a pending layer. It is
/// never charged for.
pub struct PrefixedViewMut<'a> {
    pub store: &'a mut MultiStore,
    pub key: StoreKey,
    pub layer: Layer,
}

impl<'a> PrefixedViewMut<'a> {
    /// The view is of a registered namespace of a store that is in order.
    pub open spec fn wf(&self) -> bool {
        self.store.wf() && self.key.index < self.store@.names.len()
    }

    /// What the view holds.
    pub open spec fn table(&self) -> Table {
        self.store@.namespace(Source::Pending(self.layer), self.key)
    }

    /// The value under `k`, if there is one.
    pub fn get(&self, k: &[u8]) -> (r: Option<Vec<u8>>)
        requires
            self.wf(),
        ensures
            r.model() == lookup(self.table(), k@),
    {
        let full = join(self.store.name(&self.key).as_slice(), k);
        proof {
            lemma_namespace_lookup(
                self.store@.seen(Source::Pending(self.layer)),
                self.store@.names[self.key.index as int],
                k@,
            );
        }
        self.store.read(self.layer, full.as_slice())
    }

    /// Stores `value` under `k`.
    pub fn set(&mut self, k: &[u8], value: Vec<u8>)
        requires
            old(self).wf(),
        ensures
            final(self).wf(),
            final(self).store@ == old(self).store@.written(
                old(self).layer,
                old(self).key,
                k@,
                Some(value@),
            ),
            final(self).table() == old(self).table().insert(k@, value@),
            final(self).key == old(self).key,
            final(self).layer == old(self).layer,
            *final(final(self).store) == *final(old(self).store),
    {
        let full = join(self.store.name(&self.key).as_slice(), k);
        proof {
            lemma_written_namespace(self.store@, self.layer, self.key, k@, Some(value@));
        }
        self.store.write(self.layer, full, Some(value));
    }

    /// Deletes what is stored under `k`, if anything.
    pub fn delete(&mut self, k: &[u8])
        requires
            old(self).wf(),
        ensures
            final(self).wf(),
            final(self).store@ == old(self).store@.written(
                old(self).layer,
                old(self).key,
                k@,
                None,
            ),
            final(self).table() == old(self).table().remove(k@),
            final(self).key == old(self).key,
            final(self).layer == old(self).layer,
            *final(final(self).store) == *final(old(self).store),
    {
        let full = join(self.store.name(&self.key).as_slice(), k);
        proof {
            lemma_written_namespace(self.store@, self.layer, self.key, k@, None);
        }
        self.store.write(self.layer, full, None);
    }

    /// The entries whose keys start with `prefix`, in ascending key order.
    pub fn iterate(&self, prefix: &[u8]) -> (r: Vec<(Vec<u8>, Vec<u8>)>)
        requires
            self.wf(),
        ensures
            lists(r@, window(self.table(), Seq::empty(), prefix@)),
    {
        proof {
            lemma_window_of_namespace(
                self.store@.visible(self.layer),
                self.store@.names[self.key.index as int],
                prefix@,
            );
        }
        self.store.scan(self.layer, &self.key, prefix).into_entries()
    }

    /// The entries whose keys lie in the range from `start` to before
    /// `end`, in ascending key order. Without a `start` the range begins
    /// at the first key, without an `end` it goes on to the last.
    pub fn range(&self, start: Option<&[u8]>, end: Option<&[u8]>) -> (r: Vec<(Vec<u8>, Vec<u8>)>)
        requires
            self.wf(),
        ensures
            lists(r@, range_of(self.table(), bound_model(start), bound_model(end))),
    {
        let whole: Vec<u8> = Vec::new();
        let all = self.iterate(whole.as_slice());
        proof {
            lemma_whole_window(self.table());
        }
        within_range(all, start, end, Ghost(self.table()))
    }
}

/// What a metered read of `k` costs, given what the namespace holds.
pub open spec fn get_cost(t: Table, k: Seq<u8>) -> nat {
    read_cost(
        k.len(),
        match lookup(t, k) {
            Some(v) => v.len(),
            None => 0,
        },
    )
}

/// What a metered iteration over `prefix` costs, given what the
/// namespace holds: the sum over the entries that it yields.
pub open spec fn iterate_cost(t: Table, prefix: Seq<u8>) -> nat {
    listing_cost(listing_of(window(t, Seq::empty(), prefix)))
}

/// What a metered iteration over a range costs, given what the
/// namespace holds: the sum over the entries that it yields.
pub open spec fn range_cost(t: Table, start: Option<Seq<u8>>, end: Option<Seq<u8>>) -> nat {
    listing_cost(listing_of(range_of(t, start, end)))
}

/// The entries of a table in ascending key order.
pub open spec fn listing_of(t: Table) -> Seq<(Seq<u8>, Seq<u8>)> {
    choose|s: Seq<(Seq<u8>, Seq<u8>)>| sorted_keys(s) && entries_to_map(s) == t
}

/// A read-only view of one namespace for a transaction: each read draws
/// its cost from the gas meter, and yields nothing if the meter cannot
/// pay.
pub struct MeteredView<'a> {
    pub gas: &'a mut GasMeter,
    pub store: &'a MultiStore,
    pub key: StoreKey,
}

impl<'a> MeteredView<'a> {
    /// The view is of a registered namespace of a store that is in order.
    pub open spec fn wf(&self) -> bool {
        self.store.wf() && self.key.index < self.store@.names.len()
    }

    /// What the view holds.
    pub open spec fn table(&self) -> Table {
        self.store@.namespace(Source::Pending(Layer::Tx), self.key)
    }

    /// The value under `k`, if there is one, for the cost of reading it.
    pub fn get(&mut self, k: &[u8]) -> (r: Result<Option<Vec<u8>>, OutOfGas>)
        requires
            old(self).wf(),
        ensures
            final(self).gas@ == old(self).gas@.after(get_cost(old(self).table(), k@)),
            match r {
                Ok(v) => old(self).gas@.affords(get_cost(old(self).table(), k@)) && v.model()
                    == lookup(old(self).table(), k@),
                Err(_) => !old(self).gas@.affords(get_cost(old(self).table(), k@)),
            },
            final(self).store == old(self).store,
            final(self).key == old(self).key,
            *final(final(self).gas) == *final(old(self).gas),
    {
        let full = join(self.store.name(&self.key).as_slice(), k);
        proof {
            lemma_namespace_lookup(
                self.store@.seen(Source::Pending(Layer::Tx)),
                self.store@.names[self.key.index as int],
                k@,
            );
        }
        let found = self.store.read(Layer::Tx, full.as_slice());
        let value_len: usize = match &found {
            Some(v) => v.len(),
            None => 0,
        };
        match self.gas.charge_wide(read_cost_of(k.len(), value_len), "read") {
            Ok(()) => Ok(found),
            Err(e) => Err(e),
        }
    }

    /// The entries whose keys start with `prefix`, in ascending key order,
    /// for the cost of each entry.
    pub fn iterate(&mut self, prefix: &[u8]) -> (r: Result<Vec<(Vec<u8>, Vec<u8>)>, OutOfGas>)
        requires
            old(self).wf(),
        ensures
            final(self).gas@ == old(self).gas@.after(iterate_cost(old(self).table(), prefix@)),
            match r {
                Ok(entries) => old(self).gas@.affords(iterate_cost(old(self).table(), prefix@))
                    && lists(entries@, window(old(self).table(), Seq::empty(), prefix@)),
                Err(_) => !old(self).gas@.affords(iterate_cost(old(self).table(), prefix@)),
            },
            final(self).store == old(self).store,
            final(self).key == old(self).key,
            *final(final(self).gas) == *final(old(self).gas),
    {
        proof {
            lemma_window_of_namespace(
                self.store@.visible(Layer::Tx),
                self.store@.names[self.key.index as int],
                prefix@,
            );
        }
        let entries = self.store.scan(Layer::Tx, &self.key, prefix).into_entries();
        let cost = listing_cost_of(&entries);
        proof {
            lemma_listing_unique(
                entry_models(entries@),
                listing_of(window(self.table(), Seq::empty(), prefix@)),
            );
        }
        match self.gas.charge_capped(
            cost,
            "iterate",
            Ghost(iterate_cost(self.table(), prefix@)),
        ) {
            Ok(()) => Ok(entries),
            Err(e) => Err(e),
        }
    }

    /// The entries whose keys lie in the range from `start` to before
    /// `end`, in ascending key order, for the cost of each entry.
    pub fn range(&mut self, start: Option<&[u8]>, end: Option<&[u8]>) -> (r: Result<
        Vec<(Vec<u8>, Vec<u8>)>,
        OutOfGas,
    >)
        requires
            old(self).wf(),
        ensures
            final(self).gas@ == old(self).gas@.after(
                range_cost(old(self).table(), bound_model(start), bound_model(end)),
            ),
            match r {
                Ok(entries) => old(self).gas@.affords(
                    range_cost(old(self).table(), bound_model(start), bound_model(end)),
                ) && lists(
                    entries@,
                    range_of(old(self).table(), bound_model(start), bound_model(end)),
                ),
                Err(_) => !old(self).gas@.affords(
                    range_cost(old(self).table(), bound_model(start), bound_model(end)),
                ),
            },
            final(self).store == old(self).store,
            final(self).key == old(self).key,
            *final(final(self).gas) == *final(old(self).gas),
    {
        proof {
            lemma_window_of_namespace(
                self.store@.visible(Layer::Tx),
                self.store@.names[self.key.index as int],
                Seq::empty(),
            );
            lemma_whole_window(self.table());
        }
        let whole: Vec<u8> = Vec::new();
        let all = self.store.scan(Layer::Tx, &self.key, whole.as_slice()).into_entries();
        let entries = within_range(all, start, end, Ghost(self.table()));
        let cost = listing_cost_of(&entries);
        proof {
            lemma_listing_unique(
                entry_models(entries@),
                listing_of(range_of(self.table(), bound_model(start), bound_model(end))),
            );
        }
        match self.gas.charge_capped(
            cost,
            "iterate",
            Ghost(range_cost(self.table(), bound_model(start), bound_model(end))),
        ) {
            Ok(()) => Ok(entries),
            Err(e) => Err(e),
        }
    }
}

/// A read-write view of one namespace for a transaction: each operation
/// draws its cost from the gas meter first, and does nothing if the meter
/// cannot pay.
pub struct MeteredViewMut<'a> {
    pub gas: &'a mut GasMeter,
    pub store: &'a mut MultiStore,
    pub key: StoreKey,
}

impl<'a> MeteredViewMut<'a> {
    /// The view is of a registered namespace of a store that is in order.
    pub open spec fn wf(&self) -> bool {
        self.store.wf() && self.key.index < self.store@.names.len()
    }

    /// What the view holds.
    pub open spec fn table(&self) -> Table {
        self.store@.namespace(Source::Pending(Layer::Tx), self.key)
    }

    /// The value under `k`, if there is one, for the cost of reading it.
    pub fn get(&mut self, k: &[u8]) -> (r: Result<Option<Vec<u8>>, OutOfGas>)
        requires
            old(self).wf(),
        ensures
            final(self).wf(),
            final(self).gas@ == old(self).gas@.after(get_cost(old(self).table(), k@)),
            match r {
                Ok(v) => old(self).gas@.affords(get_cost(old(self).table(), k@)) && v.model()
                    == lookup(old(self).table(), k@),
                Err(_) => !old(self).gas@.affords(get_cost(old(self).table(), k@)),
            },
            *final(self).store == *old(self).store,
            final(self).key == old(self).key,
            *final(final(self).store) == *final(old(self).store),
            *final(final(self).gas) == *final(old(self).gas),
    {
        let full = join(self.store.name(&self.key).as_slice(), k);
        proof {
            lemma_namespace_lookup(
                self.store@.seen(Source::Pending(Layer::Tx)),
                self.store@.names[self.key.index as int],
                k@,
            );
        }
        let found = self.store.read(Layer::Tx, full.as_slice());
        let value_len: usize = match &found {
            Some(v) => v.len(),
            None => 0,
        };
        match self.gas.charge_wide(read_cost_of(k.len(), value_len), "read") {
            Ok(()) => Ok(found),
            Err(e) => Err(e),
        }
    }

    /// Stores `value` under `k`, for the cost of writing it.
    pub fn set(&mut self, k: &[u8], value: Vec<u8>) -> (r: Result<(), OutOfGas>)
        requires
            old(self).wf(),
        ensures
            final(self).wf(),
            final(self).gas@ == old(self).gas@.after(write_cost(k@.len(), value@.len())),
            r is Ok == old(self).gas@.affords(write_cost(k@.len(), value@.len())),
            final(self).store@ == if r is Ok {
                old(self).store@.written(Layer::Tx, old(self).key, k@, Some(value@))
            } else {
                old(self).store@
            },
            final(self).key == old(self).key,
            *final(final(self).store) == *final(old(self).store),
            *final(final(self).gas) == *final(old(self).gas),
    {
        match self.gas.charge_wide(write_cost_of(k.len(), value.len()), "write") {
            Ok(()) => {},
            Err(e) => {
                return Err(e);
            },
        }
        let full = join(self.store.name(&self.key).as_slice(), k);
        self.store.write(Layer::Tx, full, Some(value));
        Ok(())
    }

    /// Deletes what is stored under `k`, for the cost of a deletion.
    pub fn delete(&mut self, k: &[u8]) -> (r: Result<(), OutOfGas>)
        requires
            old(self).wf(),
        ensures
            final(self).wf(),
            final(self).gas@ == old(self).gas@.after(delete_cost()),
            r is Ok == old(self).gas@.affords(delete_cost()),
            final(self).store@ == if r is Ok {
                old(self).store@.written(Layer::Tx, old(self).key, k@, None)
            } else {
                old(self).store@
            },
            final(self).key == old(self).key,
            *final(final(self).store) == *final(old(self).store),
            *final(final(self).gas) == *final(old(self).gas),
    {
        match self.gas.charge(DELETE_COST, "delete") {
            Ok(()) => {},
            Err(e) => {
                return Err(e);
            },
        }
        let full = join(self.store.name(&self.key).as_slice(), k);
        self.store.write(Layer::Tx, full, None);
        Ok(())
    }

    /// The entries whose keys start with `prefix`, in ascending key order,
    /// for the cost of each entry.
    pub fn iterate(&mut self, prefix: &[u8]) -> (r: Result<Vec<(Vec<u8>, Vec<u8>)>, OutOfGas>)
        requires
            old(self).wf(),
        ensures
            final(self).wf(),
            final(self).gas@ == old(self).gas@.after(iterate_cost(old(self).table(), prefix@)),
            match r {
                Ok(entries) => old(self).gas@.affords(iterate_cost(old(self).table(), prefix@))
                    && lists(entries@, window(old(self).table(), Seq::empty(), prefix@)),
                Err(_) => !old(self).gas@.affords(iterate_cost(old(self).table(), prefix@)),
            },
            *final(self).store == *old(self).store,
            final(self).key == old(self).key,
            *final(final(self).store) == *final(old(self).store),
            *final(final(self).gas) == *final(old(self).gas),
    {
        proof {
            lemma_window_of_namespace(
                self.store@.visible(Layer::Tx),
                self.store@.names[self.key.index as int],
                prefix@,
            );
        }
        let entries = self.store.scan(Layer::Tx, &self.key, prefix).into_entries();
        let cost = listing_cost_of(&entries);
        proof {
            lemma_listing_unique(
                entry_models(entries@),
                listing_of(window(self.table(), Seq::empty(), prefix@)),
            );
        }
        match self.gas.charge_capped(
            cost,
            "iterate",
            Ghost(iterate_cost(self.table(), prefix@)),
        ) {
            Ok(()) => Ok(entries),
            Err(e) => Err(e),
        }
    }

    /// The entries whose keys lie in the range from `start` to before
    /// `end`, in ascending key order, for the cost of each entry.
    pub fn range(&mut self, start: Option<&[u8]>, end: Option<&[u8]>) -> (r: Result<
        Vec<(Vec<u8>, Vec<u8>)>,
        OutOfGas,
    >)
        requires
            old(self).wf(),
        ensures
            final(self).gas@ == old(self).gas@.after(
                range_cost(old(self).table(), bound_model(start), bound_model(end)),
            ),
            match r {
                Ok(entries) => old(self).gas@.affords(
                    range_cost(old(self).table(), bound_model(start), bound_model(end)),
                ) && lists(
                    entries@,
                    range_of(old(self).table(), bound_model(start), bound_model(end)),
                ),
                Err(_) => !old(self).gas@.affords(
                    range_cost(old(self).table(), bound_model(start), bound_model(end)),
                ),
            },
            final(self).wf(),
            *final(self).store == *old(self).store,
            final(self).key == old(self).key,
            *final(final(self).store) == *final(old(self).store),
            *final(final(self).gas) == *final(old(self).gas),
    {
        proof {
            lemma_window_of_namespace(
                self.store@.visible(Layer::Tx),
                self.store@.names[self.key.index as int],
                Seq::empty(),
            );
            lemma_whole_window(self.table());
        }
        let whole: Vec<u8> = Vec::new();
        let all = self.store.scan(Layer::Tx, &self.key, whole.as_slice()).into_entries();
        let entries = within_range(all, start, end, Ghost(self.table()));
        let cost = listing_cost_of(&entries);
        proof {
            lemma_listing_unique(
                entry_models(entries@),
                listing_of(range_of(self.table(), bound_model(start), bound_model(end))),
            );
        }
        match self.gas.charge_capped(
            cost,
            "iterate",
            Ghost(range_cost(self.table(), bound_model(start), bound_model(end))),
        ) {
            Ok(()) => Ok(entries),
            Err(e) => Err(e),
        }
    }
}

/// Two sorted sequences that stand for the same map are the same.
pub proof fn lemma_listing_unique<T>(a: Seq<(Seq<u8>, T)>, b: Seq<(Seq<u8>, T)>)
    requires
        sorted_keys(a),
        sorted_keys(b),
        entries_to_map(a) == entries_to_map(b),
    ensures
        a == b,
    decreases a.len(),
{
    if a.len() == 0 {
        if b.len() > 0 {
            lemma_entry_in_map(b, 0);
            assert(has_key(a, b[0].0));
        }
        assert(a =~= b);
    } else {
        lemma_entry_in_map(a, 0);
        assert(has_key(b, a[0].0));
        let j = index_of(b, a[0].0);
        lemma_entry_in_map(b, 0);
        assert(has_key(a, b[0].0));
        let i = index_of(a, b[0].0);
        if j > 0 {
            if i > 0 {
                lemma_lex_asymmetric(a[0].0, a[i].0);
            } else {
                lemma_lex_irreflexive(b[0].0);
            }
        }
        lemma_entry_in_map(b, j);
        assert(a[0] == b[0]);
        let a2 = a.drop_first();
        let b2 = b.drop_first();
        lemma_remove_entry(a, 0);
        lemma_remove_entry(b, 0);
        assert(a.remove(0) =~= a2);
        assert(b.remove(0) =~= b2);
        lemma_listing_unique(a2, b2);
        assert(a =~= seq![a[0]] + a2);
        assert(b =~= seq![b[0]] + b2);
    }
}

} // verus!
