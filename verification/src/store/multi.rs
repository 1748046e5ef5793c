//! The multi-store: one versioned key space, one namespace of it for each
//! registered module, and the pending writes of the block and of the
//! transaction under way.

use vstd::prelude::*;
use crate::bytes::{join, copy_bytes, copy_from, is_prefix, starts_with, tail_from};
use crate::store::byte_map::{ByteMap, Stored, entries_to_map, sorted_keys, lemma_take_next,
    lemma_no_entries};
use crate::store::table::{Table, Writes, lookup, overlay, window, prefix_free, write_table,
    lemma_overlay_write, lemma_overlay_nothing, lemma_overlay_twice, lemma_window_write,
    lemma_split_prefix};

verus! {

/// The handle of a registered module's namespace: its place in the table
/// of names that the multi-store was made with.
#[derive(Clone, Copy, Debug, PartialEq, Eq)]
pub struct StoreKey {
    pub index: usize,
}

/// The pending layer that a writer works on: the block's, or that of the
/// transaction under way, which lies over the block's.
#[derive(Clone, Copy, Debug, PartialEq, Eq)]
pub enum Layer {
    Block,
    Tx,
}

/// Why the multi-store refused.
#[derive(Clone, Copy, Debug, PartialEq, Eq)]
pub enum StoreError {
    /// One registered name is a prefix of another (or equal to it).
    OverlappingNames,
    /// The height counter is at its maximum.
    HeightOverflow,
}

/// The state of a multi-store.
#[verifier::ext_equal]
pub struct StoreState {
    /// The names of the namespaces, by store key index.
    pub names: Seq<Seq<u8>>,
    /// The committed state at each height, genesis first.
    pub versions: Seq<Table>,
    /// The writes of the current block that are not committed yet.
    pub block: Writes,
    /// The writes of the transaction under way.
    pub tx: Writes,
}

impl StoreState {
    /// Names are disjoint as key ranges, and there is a latest height that
    /// fits the counter.
    pub open spec fn wf(self) -> bool {
        &&& prefix_free(self.names)
        &&& 1 <= self.versions.len() <= u32::MAX as nat + 1
    }

    /// The latest committed height.
    pub open spec fn height(self) -> nat {
        (self.versions.len() - 1) as nat
    }

    /// The latest committed state.
    pub open spec fn latest(self) -> Table {
        self.versions.last()
    }

    /// The state that a commit would make durable now.
    pub open spec fn pending(self) -> Table {
        overlay(self.latest(), self.block)
    }

    /// The state that a reader of the given layer sees.
    pub open spec fn visible(self, layer: Layer) -> Table {
        match layer {
            Layer::Block => self.pending(),
            Layer::Tx => overlay(self.pending(), self.tx),
        }
    }

    /// The state after one write into the given layer.
    pub open spec fn with_write(self, layer: Layer, k: Seq<u8>, w: Option<Seq<u8>>) -> StoreState {
        match layer {
            Layer::Block => StoreState { block: self.block.insert(k, w), ..self },
            Layer::Tx => StoreState { tx: self.tx.insert(k, w), ..self },
        }
    }

    /// The state after a commit: the pending state is the new latest one.
    pub open spec fn committed(self) -> StoreState {
        StoreState {
            versions: self.versions.push(self.pending()),
            block: Map::empty(),
            ..self
        }
    }

    /// `later` has all the committed heights of `self`, unchanged, and the
    /// same names.
    pub open spec fn history_kept(self, later: StoreState) -> bool {
        &&& later.names == self.names
        &&& self.versions.len() <= later.versions.len()
        &&& forall|h: int| 0 <= h < self.versions.len() ==> later.versions[h] == self.versions[h]
    }
}

/// Keeping the history goes through: it holds from a store to itself,
/// and over two stretches if it holds over each.
pub proof fn lemma_history_kept_chain(a: StoreState, b: StoreState, c: StoreState)
    requires
        a.history_kept(b),
        b.history_kept(c),
    ensures
        a.history_kept(a),
        a.history_kept(c),
{
}

/// A commit keeps the history, and so does dropping or handing over the
/// writes of a transaction.
pub proof fn lemma_commit_keeps_history(s: StoreState)
    ensures
        s.history_kept(s.committed()),
        s.history_kept(StoreState { tx: Map::empty(), ..s }),
        s.history_kept(
            StoreState { block: s.block.union_prefer_right(s.tx), tx: Map::empty(), ..s },
        ),
{
}

/// A write into a layer is a write to what that layer's readers see.
pub proof fn lemma_write_visible(s: StoreState, layer: Layer, k: Seq<u8>, w: Option<Seq<u8>>)
    ensures
        s.with_write(layer, k, w).visible(layer) == write_table(s.visible(layer), k, w),
        s.history_kept(s.with_write(layer, k, w)),
{
    match layer {
        Layer::Block => lemma_overlay_write(s.latest(), s.block, k, w),
        Layer::Tx => lemma_overlay_write(s.pending(), s.tx, k, w),
    }
}

/// The names of a list by their views.
pub open spec fn name_models(names: Seq<Vec<u8>>) -> Seq<Seq<u8>> {
    Seq::new(names.len(), |i: int| names[i]@)
}

/// The tables of a list by their views.
pub open spec fn version_models(versions: Seq<ByteMap<Vec<u8>>>) -> Seq<Table> {
    Seq::new(versions.len(), |i: int| versions[i]@)
}

/// The multi-store.
pub struct MultiStore {
    names: Vec<Vec<u8>>,
    versions: Vec<ByteMap<Vec<u8>>>,
    block: ByteMap<Option<Vec<u8>>>,
    tx: ByteMap<Option<Vec<u8>>>,
}

/// Whether no name in the list is a prefix of another.
fn names_prefix_free(names: &Vec<Vec<u8>>) -> (r: bool)
    ensures
        r == prefix_free(name_models(names@)),
{
    let n = names.len();
    let mut i: usize = 0;
    while i < n
        invariant
            n == names@.len(),
            0 <= i <= n,
            forall|a: int, b: int|
                0 <= a < i && 0 <= b < n && a != b ==> !is_prefix(
                    #[trigger] name_models(names@)[a],
                    #[trigger] name_models(names@)[b],
                ),
        decreases n - i,
    {
        let mut j: usize = 0;
        while j < n
            invariant
                n == names@.len(),
                0 <= i < n,
                0 <= j <= n,
                forall|a: int, b: int|
                    0 <= a < i && 0 <= b < n && a != b ==> !is_prefix(
                        #[trigger] name_models(names@)[a],
                        #[trigger] name_models(names@)[b],
                    ),
                forall|b: int|
                    0 <= b < j && b != i ==> !is_prefix(
                        name_models(names@)[i as int],
                        #[trigger] name_models(names@)[b],
                    ),
            decreases n - j,
        {
            if i != j && starts_with(names[j].as_slice(), names[i].as_slice()) {
                assert(is_prefix(name_models(names@)[i as int], name_models(names@)[j as int]));
                return false;
            }
            j = j + 1;
        }
        i = i + 1;
    }
    true
}

impl MultiStore {
    /// The state of the store.
    pub closed spec fn view(&self) -> StoreState {
        StoreState {
            names: name_models(self.names@),
            versions: version_models(self.versions@),
            block: self.block@,
            tx: self.tx@,
        }
    }

    /// The store is in order: see [`StoreState::wf`].
    pub open spec fn wf(&self) -> bool {
        self@.wf()
    }

    /// A store at height 0 with an empty state and the given namespaces,
    /// one per module. Refused if a name is a prefix of another: their key
    /// ranges would overlap.
    pub fn new(names: Vec<Vec<u8>>) -> (r: Result<MultiStore, StoreError>)
        ensures
            match r {
                Ok(s) => {
                    &&& prefix_free(name_models(names@))
                    &&& s.wf()
                    &&& s@ == (StoreState {
                        names: name_models(names@),
                        versions: seq![Map::<Seq<u8>, Seq<u8>>::empty()],
                        block: Map::empty(),
                        tx: Map::empty(),
                    })
                },
                Err(e) => !prefix_free(name_models(names@)) && e is OverlappingNames,
            },
    {
        if !names_prefix_free(&names) {
            return Err(StoreError::OverlappingNames);
        }
        let mut versions: Vec<ByteMap<Vec<u8>>> = Vec::new();
        versions.push(ByteMap::new());
        let s = MultiStore { names, versions, block: ByteMap::new(), tx: ByteMap::new() };
        assert(s@.versions =~= seq![Map::<Seq<u8>, Seq<u8>>::empty()]);
        Ok(s)
    }

    /// The number of registered namespaces.
    pub fn namespace_count(&self) -> (n: usize)
        ensures
            n == self@.names.len(),
    {
        self.names.len()
    }

    /// Whether `key` is the handle of a registered namespace.
    pub fn is_registered(&self, key: &StoreKey) -> (r: bool)
        ensures
            r == (key.index < self@.names.len()),
    {
        key.index < self.names.len()
    }

    /// The handle of the namespace registered under `name`, if there is one.
    pub fn store_key(&self, name: &[u8]) -> (r: Option<StoreKey>)
        ensures
            match r {
                Some(key) => key.index < self@.names.len() && self@.names[key.index as int]
                    == name@,
                None => forall|i: int| 0 <= i < self@.names.len() ==> self@.names[i] != name@,
            },
    {
        let mut i: usize = 0;
        while i < self.names.len()
            invariant
                0 <= i <= self.names@.len(),
                self@.names == name_models(self.names@),
                forall|j: int| 0 <= j < i ==> self@.names[j] != name@,
            decreases self.names@.len() - i,
        {
            if crate::bytes::bytes_eq(self.names[i].as_slice(), name) {
                return Some(StoreKey { index: i });
            }
            i = i + 1;
        }
        None
    }

    /// The name of a registered namespace: the prefix of all its keys.
    pub fn name(&self, key: &StoreKey) -> (r: &Vec<u8>)
        requires
            key.index < self@.names.len(),
        ensures
            r@ == self@.names[key.index as int],
    {
        &self.names[key.index]
    }

    /// The latest committed height.
    pub fn height(&self) -> (h: u32)
        requires
            self.wf(),
        ensures
            h == self@.height(),
    {
        (self.versions.len() - 1) as u32
    }

    /// What a reader of `layer` finds under the full key `k`.
    pub fn read(&self, layer: Layer, k: &[u8]) -> (r: Option<Vec<u8>>)
        requires
            self.wf(),
        ensures
            r.model() == lookup(self@.visible(layer), k@),
    {
        if let Layer::Tx = layer {
            if let Some(w) = self.tx.get(k) {
                return w.duplicate();
            }
        }
        if let Some(w) = self.block.get(k) {
            return w.duplicate();
        }
        let last = self.versions.len() - 1;
        assert(self@.latest() == self.versions@[last as int]@);
        match self.versions[last].get(k) {
            Some(v) => Some(v.duplicate()),
            None => None,
        }
    }

    /// What the state committed at `height` holds under the full key `k`.
    pub fn read_at(&self, height: u32, k: &[u8]) -> (r: Option<Vec<u8>>)
        requires
            height <= self@.height(),
            self.wf(),
        ensures
            r.model() == lookup(self@.versions[height as int], k@),
    {
        let h = height as usize;
        assert(self@.versions[h as int] == self.versions@[h as int]@);
        match self.versions[h].get(k) {
            Some(v) => Some(v.duplicate()),
            None => None,
        }
    }

    /// Writes into `layer`: a new value under the full key `k`, or, with
    /// `None`, its deletion.
    pub fn write(&mut self, layer: Layer, k: Vec<u8>, w: Option<Vec<u8>>)
        ensures
            final(self)@ == old(self)@.with_write(layer, k@, w.model()),
            old(self)@.history_kept(final(self)@),
    {
        match layer {
            Layer::Block => self.block.insert(k, w),
            Layer::Tx => self.tx.insert(k, w),
        }
    }

    /// Makes the block's pending writes durable as one new height, and
    /// returns that height. All of them land together: the new state is
    /// built aside and becomes the latest one in the last step. Refused,
    /// with nothing changed, if the height counter is at its maximum.
    pub fn commit(&mut self) -> (r: Result<u32, StoreError>)
        requires
            old(self).wf(),
        ensures
            final(self).wf(),
            old(self)@.history_kept(final(self)@),
            match r {
                Ok(h) => {
                    &&& old(self)@.height() < u32::MAX
                    &&& h == old(self)@.height() + 1
                    &&& final(self)@ == old(self)@.committed()
                    &&& final(self)@.latest() == old(self)@.pending()
                },
                Err(e) => {
                    &&& old(self)@.height() == u32::MAX
                    &&& e is HeightOverflow
                    &&& final(self)@ == old(self)@
                },
            },
    {
        let n = self.versions.len();
        if n - 1 >= u32::MAX as usize {
            return Err(StoreError::HeightOverflow);
        }
        assert(self@.latest() == self.versions@[n - 1]@);
        let mut next = self.versions[n - 1].duplicate();
        apply_writes(&mut next, &self.block);
        let ghost before = self@;
        self.versions.push(next);
        self.block = ByteMap::new();
        assert(self@.versions =~= before.versions.push(before.pending()));
        Ok(n as u32)
    }

    /// A copy of the writes of the transaction under way, to come back to.
    pub fn tx_writes(&self) -> (w: ByteMap<Option<Vec<u8>>>)
        ensures
            w@ == self@.tx,
    {
        self.tx.duplicate()
    }

    /// Puts `w` in place of the writes of the transaction under way.
    pub fn set_tx_writes(&mut self, w: ByteMap<Option<Vec<u8>>>)
        ensures
            final(self)@ == (StoreState { tx: w@, ..old(self)@ }),
    {
        self.tx = w;
    }

    /// Drops the writes of the transaction under way.
    pub fn discard_tx(&mut self)
        ensures
            final(self)@ == (StoreState { tx: Map::empty(), ..old(self)@ }),
    {
        self.tx = ByteMap::new();
    }

    /// Hands the writes of the transaction over to the block: they stay
    /// pending until the block is committed.
    pub fn promote_tx(&mut self)
        ensures
            final(self)@ == (StoreState {
                block: old(self)@.block.union_prefer_right(old(self)@.tx),
                tx: Map::empty(),
                ..old(self)@
            }),
            final(self)@.pending() == old(self)@.visible(Layer::Tx),
    {
        proof {
            lemma_overlay_twice(self@.latest(), self@.block, self@.tx);
        }
        merge_writes(&mut self.block, &self.tx);
        self.tx = ByteMap::new();
    }

    /// The entries of the namespace `key` whose keys start with `prefix`,
    /// as a reader of `layer` sees them, in ascending key order.
    pub fn scan(&self, layer: Layer, key: &StoreKey, prefix: &[u8]) -> (r: ByteMap<Vec<u8>>)
        requires
            self.wf(),
            key.index < self@.names.len(),
        ensures
            r@ == window(self@.visible(layer), self@.names[key.index as int], prefix@),
    {
        let ns = &self.names[key.index];
        let full = join(ns.as_slice(), prefix);
        let last = self.versions.len() - 1;
        assert(self@.latest() == self.versions@[last as int]@);
        proof {
            lemma_split_prefix(ns@, prefix@, prefix@);
        }
        let mut acc = collect_window(&self.versions[last], ns.as_slice(), full.as_slice());
        fold_window(&mut acc, &self.block, ns.as_slice(), full.as_slice(), Ghost(self@.latest()), Ghost(prefix@));
        if let Layer::Tx = layer {
            fold_window(&mut acc, &self.tx, ns.as_slice(), full.as_slice(), Ghost(self@.pending()), Ghost(prefix@));
        }
        acc
    }

    /// The entries of the namespace `key` whose keys start with `prefix`
    /// in the state committed at `height`, in ascending key order.
    pub fn scan_at(&self, height: u32, key: &StoreKey, prefix: &[u8]) -> (r: ByteMap<Vec<u8>>)
        requires
            self.wf(),
            height <= self@.height(),
            key.index < self@.names.len(),
        ensures
            r@ == window(self@.versions[height as int], self@.names[key.index as int], prefix@),
    {
        let ns = &self.names[key.index];
        let full = join(ns.as_slice(), prefix);
        let h = height as usize;
        assert(self@.versions[h as int] == self.versions@[h as int]@);
        proof {
            lemma_split_prefix(ns@, prefix@, prefix@);
        }
        collect_window(&self.versions[h], ns.as_slice(), full.as_slice())
    }
}

/// Applies a write set to a table.
fn apply_writes(base: &mut ByteMap<Vec<u8>>, writes: &ByteMap<Option<Vec<u8>>>)
    ensures
        final(base)@ == overlay(old(base)@, writes@),
{
    let n = writes.len();
    let ghost s = writes.entries();
    let mut i: usize = 0;
    proof {
        lemma_no_entries(s.take(0));
        lemma_overlay_nothing(base@);
    }
    while i < n
        invariant
            0 <= i <= n,
            n == s.len(),
            s == writes.entries(),
            sorted_keys(s),
            base@ == overlay(old(base)@, entries_to_map(s.take(i as int))),
        decreases n - i,
    {
        proof {
            lemma_take_next(s, i as int);
            lemma_overlay_write(old(base)@, entries_to_map(s.take(i as int)), s[i as int].0, s[i as int].1);
        }
        let k = writes.key_at(i);
        match writes.value_at(i) {
            Some(v) => base.insert(copy_bytes(k.as_slice()), copy_bytes(v.as_slice())),
            None => base.remove(k.as_slice()),
        }
        i = i + 1;
    }
    assert(s.take(n as int) =~= s);
}

/// Lays the write set `upper` over the write set `lower`.
fn merge_writes(lower: &mut ByteMap<Option<Vec<u8>>>, upper: &ByteMap<Option<Vec<u8>>>)
    ensures
        final(lower)@ == old(lower)@.union_prefer_right(upper@),
{
    let n = upper.len();
    let ghost s = upper.entries();
    let mut i: usize = 0;
    proof {
        lemma_no_entries(s.take(0));
        assert(lower@ =~= old(lower)@.union_prefer_right(entries_to_map(s.take(0))));
    }
    while i < n
        invariant
            0 <= i <= n,
            n == s.len(),
            s == upper.entries(),
            sorted_keys(s),
            lower@ == old(lower)@.union_prefer_right(entries_to_map(s.take(i as int))),
        decreases n - i,
    {
        proof {
            lemma_take_next(s, i as int);
            let m = entries_to_map(s.take(i as int));
            assert(old(lower)@.union_prefer_right(m.insert(s[i as int].0, s[i as int].1))
                =~= old(lower)@.union_prefer_right(m).insert(s[i as int].0, s[i as int].1));
        }
        let k = upper.key_at(i);
        let w = upper.value_at(i).duplicate();
        lower.insert(copy_bytes(k.as_slice()), w);
        i = i + 1;
    }
    assert(s.take(n as int) =~= s);
}

/// The entries of `table` whose keys start with `full`, which is `ns`
/// followed by the prefix that is asked for, without their `ns`.
fn collect_window(table: &ByteMap<Vec<u8>>, ns: &[u8], full: &[u8]) -> (acc: ByteMap<Vec<u8>>)
    requires
        is_prefix(ns@, full@),
    ensures
        acc@ == window(table@, ns@, tail_from(full@, ns@.len() as int)),
{
    let ghost prefix = tail_from(full@, ns@.len() as int);
    let ghost s = table.entries();
    let n = table.len();
    let mut acc: ByteMap<Vec<u8>> = ByteMap::new();
    let mut i: usize = 0;
    proof {
        lemma_no_entries(s.take(0));
        assert(acc@ =~= window(entries_to_map(s.take(0)), ns@, prefix));
        lemma_split_prefix(ns@, prefix, full@);
    }
    while i < n
        invariant
            0 <= i <= n,
            n == s.len(),
            s == table.entries(),
            sorted_keys(s),
            ns@ + prefix == full@,
            acc@ == window(entries_to_map(s.take(i as int)), ns@, prefix),
        decreases n - i,
    {
        proof {
            lemma_take_next(s, i as int);
            lemma_window_write(entries_to_map(s.take(i as int)), ns@, prefix, s[i as int].0, Some(s[i as int].1));
            lemma_split_prefix(ns@, prefix, s[i as int].0);
        }
        let k = table.key_at(i);
        if starts_with(k.as_slice(), full) {
            let v = table.value_at(i);
            acc.insert(copy_from(k.as_slice(), ns.len()), copy_bytes(v.as_slice()));
        }
        i = i + 1;
    }
    assert(s.take(n as int) =~= s);
    acc
}

/// Brings a window up to date with a write set that lies over the table
/// it was taken from.
fn fold_window(
    acc: &mut ByteMap<Vec<u8>>,
    writes: &ByteMap<Option<Vec<u8>>>,
    ns: &[u8],
    full: &[u8],
    Ghost(base): Ghost<Table>,
    Ghost(prefix): Ghost<Seq<u8>>,
)
    requires
        ns@ + prefix == full@,
        old(acc)@ == window(base, ns@, prefix),
    ensures
        final(acc)@ == window(overlay(base, writes@), ns@, prefix),
{
    let ghost s = writes.entries();
    let n = writes.len();
    let mut i: usize = 0;
    proof {
        lemma_no_entries(s.take(0));
        lemma_overlay_nothing(base);
    }
    while i < n
        invariant
            0 <= i <= n,
            n == s.len(),
            s == writes.entries(),
            sorted_keys(s),
            ns@ + prefix == full@,
            acc@ == window(overlay(base, entries_to_map(s.take(i as int))), ns@, prefix),
        decreases n - i,
    {
        proof {
            let m = entries_to_map(s.take(i as int));
            lemma_take_next(s, i as int);
            lemma_overlay_write(base, m, s[i as int].0, s[i as int].1);
            lemma_window_write(overlay(base, m), ns@, prefix, s[i as int].0, s[i as int].1);
            lemma_split_prefix(ns@, prefix, s[i as int].0);
        }
        let k = writes.key_at(i);
        if starts_with(k.as_slice(), full) {
            match writes.value_at(i) {
                Some(v) => acc.insert(copy_from(k.as_slice(), ns.len()), copy_bytes(v.as_slice())),
                None => {
                    let short = copy_from(k.as_slice(), ns.len());
                    acc.remove(short.as_slice());
                },
            }
        }
        i = i + 1;
    }
    assert(s.take(n as int) =~= s);
}

} // verus!
