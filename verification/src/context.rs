//! Execution contexts: the one object through which module logic reaches
//! the chain state during a phase. There are four of them, one type per
//! phase, and each offers only what its phase allows:
//!
//! | phase | read | write | gas | events | checkpoint |
//! |-------|------|-------|-----|--------|------------|
//! | init  | yes  | yes   | no  | no     | no         |
//! | block | yes  | yes   | no  | yes    | no         |
//! | tx    | yes  | yes   | yes | yes    | yes        |
//! | query | yes  | no    | no  | no     | no         |

use vstd::prelude::*;
use crate::bytes::copy_bytes;
use crate::gas::{GasState, OutOfGas, delete_cost, write_cost};
use crate::store::byte_map::{Stored, entry_models};
use crate::store::multi::{Layer, StoreKey, StoreState};
use crate::store::table::{Table, lookup, window};
use crate::store::view::{Source, get_cost, iterate_cost, lists};

pub mod block;
pub mod init;
pub mod query;
pub mod tx;

verus! {

/// A point in time: seconds and nanoseconds since the Unix epoch.
#[derive(Clone, Copy, Debug, PartialEq, Eq, Structural)]
pub struct Timestamp {
    pub seconds: i64,
    pub nanos: i32,
}

/// What a block header tells the modules.
#[derive(Debug, PartialEq, Eq)]
pub struct Header {
    pub chain_id: String,
    pub height: u32,
    pub time: Timestamp,
}

/// The limits that consensus sets for a block.
#[derive(Clone, Copy, Debug, PartialEq, Eq, Structural)]
pub struct ConsensusParams {
    pub max_block_bytes: u64,
    pub max_block_gas: u64,
}

/// One attribute of an event.
#[derive(Debug, PartialEq, Eq)]
pub struct EventAttribute {
    pub key: String,
    pub value: String,
}

/// A record that module logic emits while a block or a transaction runs.
#[derive(Debug, PartialEq, Eq)]
pub struct Event {
    pub kind: String,
    pub attributes: Vec<EventAttribute>,
}

/// What an event says.
pub struct EventModel {
    pub kind: Seq<char>,
    pub attributes: Seq<(Seq<char>, Seq<char>)>,
}

/// The attributes of a list by what they say.
pub open spec fn attribute_models(s: Seq<EventAttribute>) -> Seq<(Seq<char>, Seq<char>)> {
    Seq::new(s.len(), |i: int| (s[i].key@, s[i].value@))
}

/// The events of a list by what they say.
pub open spec fn event_models(s: Seq<Event>) -> Seq<EventModel> {
    Seq::new(s.len(), |i: int| s[i].model())
}

impl Event {
    /// What the event says.
    pub open spec fn model(&self) -> EventModel {
        EventModel { kind: self.kind@, attributes: attribute_models(self.attributes@) }
    }

    /// A copy of the event.
    pub fn duplicate(&self) -> (e: Event)
        ensures
            e.model() == self.model(),
    {
        let mut attributes: Vec<EventAttribute> = Vec::new();
        let mut i: usize = 0;
        while i < self.attributes.len()
            invariant
                0 <= i <= self.attributes@.len(),
                attributes@.len() == i,
                forall|j: int|
                    0 <= j < i ==> attribute_models(attributes@)[j] == attribute_models(
                        self.attributes@,
                    )[j],
            decreases self.attributes@.len() - i,
        {
            let a = &self.attributes[i];
            let ghost before = attributes@;
            attributes.push(EventAttribute { key: a.key.clone(), value: a.value.clone() });
            proof {
                assert forall|j: int| 0 <= j < i + 1 implies attribute_models(attributes@)[j]
                    == attribute_models(self.attributes@)[j] by {
                    if j < i {
                        assert(attributes@[j] == before[j]);
                        assert(attribute_models(before)[j] == attribute_models(
                            self.attributes@,
                        )[j]);
                    }
                }
            }
            i = i + 1;
        }
        assert(attribute_models(attributes@) =~= attribute_models(self.attributes@));
        Event { kind: self.kind.clone(), attributes }
    }
}

impl Clone for Event {
    fn clone(&self) -> (e: Event)
        ensures
            e.model() == self.model(),
    {
        self.duplicate()
    }
}

/// A copy of a list of events.
pub fn duplicate_events(events: &Vec<Event>) -> (r: Vec<Event>)
    ensures
        event_models(r@) == event_models(events@),
{
    let mut r: Vec<Event> = Vec::new();
    let mut i: usize = 0;
    while i < events.len()
        invariant
            0 <= i <= events@.len(),
            r@.len() == i,
            forall|j: int| 0 <= j < i ==> event_models(r@)[j] == event_models(events@)[j],
        decreases events@.len() - i,
    {
        r.push(events[i].duplicate());
        i = i + 1;
    }
    assert(event_models(r@) =~= event_models(events@));
    r
}

/// All that a context holds, by what it stands for.
#[verifier::ext_equal]
pub struct ContextState {
    /// The multi-store.
    pub store: StoreState,
    /// The state that the context reads, and, where it is a pending
    /// layer, writes.
    pub source: Source,
    /// The gas meter, in the phase that has one.
    pub gas: Option<GasState>,
    /// The events emitted and not drained yet.
    pub events: Seq<EventModel>,
    /// The chain's name.
    pub chain_id: Seq<char>,
    /// The height of the block under way, or the one that a query is
    /// pinned to.
    pub height: u32,
    /// The time of the block under way.
    pub time: Timestamp,
    /// The place of the transaction in its block.
    pub tx_index: u32,
    /// The transaction's hash.
    pub tx_hash: Seq<u8>,
}

impl ContextState {
    /// The store is in order and holds what the context reads.
    pub open spec fn wf(self) -> bool {
        self.store.wf() && self.store.has_source(self.source)
    }

    /// The context writes: it reads a pending layer.
    pub open spec fn writable(self) -> bool {
        self.source is Pending
    }

    /// `key` is the handle of a registered namespace.
    pub open spec fn registered(self, key: StoreKey) -> bool {
        key.index < self.store.names.len()
    }

    /// What the namespace `key` holds, as the context sees it.
    pub open spec fn namespace(self, key: StoreKey) -> Table {
        self.store.namespace(self.source, key)
    }

    /// Whether the context can pay `cost`: always, where it has no meter.
    pub open spec fn affords(self, cost: nat) -> bool {
        match self.gas {
            Some(g) => g.affords(cost),
            None => true,
        }
    }

    /// Whether the context can pay the costs in `costs`, one after the
    /// other.
    pub open spec fn affords_all(self, costs: Seq<nat>) -> bool {
        match self.gas {
            Some(g) => g.affords_all(costs),
            None => true,
        }
    }

    /// The state after a charge of `cost` was tried: see
    /// [`GasState::after`].
    pub open spec fn paid(self, cost: nat) -> ContextState {
        match self.gas {
            Some(g) => ContextState { gas: Some(g.after(cost)), ..self },
            None => self,
        }
    }

    /// The state after the charges in `costs` were tried, one after the
    /// other: see [`GasState::after_all`].
    pub open spec fn paid_all(self, costs: Seq<nat>) -> ContextState {
        match self.gas {
            Some(g) => ContextState { gas: Some(g.after_all(costs)), ..self },
            None => self,
        }
    }

    /// The state after one write into the namespace `key`.
    pub open spec fn written(self, key: StoreKey, k: Seq<u8>, w: Option<Seq<u8>>) -> ContextState {
        ContextState { store: self.store.written(self.source->Pending_0, key, k, w), ..self }
    }

    /// The state after the entries in `entries` were written into the
    /// namespace `key` one after the other, each for the cost of writing
    /// it, stopping at the first that the meter cannot pay for.
    pub open spec fn after_writes(self, key: StoreKey, entries: Seq<(Seq<u8>, Seq<u8>)>)
        -> ContextState
        decreases entries.len(),
    {
        if entries.len() == 0 {
            self
        } else if self.affords_all(write_costs(entries.drop_last())) {
            self.after_writes(key, entries.drop_last()).after_write(
                key,
                entries.last().0,
                Some(entries.last().1),
                write_cost(entries.last().0.len(), entries.last().1.len()),
            )
        } else {
            self.after_writes(key, entries.drop_last())
        }
    }

    /// The state after a store operation that costs `cost` and writes `w`
    /// under `k`: paid for and done, or, where the meter cannot pay, left
    /// as it was.
    pub open spec fn after_write(self, key: StoreKey, k: Seq<u8>, w: Option<Seq<u8>>, cost: nat)
        -> ContextState {
        if self.affords(cost) {
            self.paid(cost).written(key, k, w)
        } else {
            self
        }
    }
}

/// Whether `b` can come of `a` by what a transaction does through its
/// context: it writes into its own layer, emits events and draws gas.
/// The committed heights, the block's pending writes and all that
/// identifies the transaction are left alone, the budget stays, and what
/// was drawn is not given back.
pub open spec fn tx_step(a: ContextState, b: ContextState) -> bool {
    &&& b.store.names == a.store.names
    &&& b.store.versions == a.store.versions
    &&& b.store.block == a.store.block
    &&& b.source == a.source
    &&& b.chain_id == a.chain_id
    &&& b.height == a.height
    &&& b.time == a.time
    &&& b.tx_index == a.tx_index
    &&& b.tx_hash == a.tx_hash
    &&& match (a.gas, b.gas) {
        (Some(x), Some(y)) => y.limit == x.limit && x.consumed <= y.consumed,
        (None, None) => true,
        _ => false,
    }
}

/// Paying is a step of a transaction.
pub proof fn lemma_paid_step(st: ContextState, costs: Seq<nat>)
    ensures
        tx_step(st, st.paid_all(costs)),
        st.paid_all(costs).store == st.store,
        st.paid_all(costs).events == st.events,
{
    if st.gas is Some {
        crate::gas::lemma_charges_grow(st.gas->0, costs);
    }
}

/// Writing through the transaction's layer is a step of a transaction.
pub proof fn lemma_writes_step(st: ContextState, key: StoreKey, entries: Seq<(Seq<u8>, Seq<u8>)>)
    requires
        st.source == Source::Pending(Layer::Tx),
    ensures
        tx_step(st, st.after_writes(key, entries)),
        st.after_writes(key, entries).events == st.events,
    decreases entries.len(),
{
    if entries.len() > 0 {
        lemma_writes_step(st, key, entries.drop_last());
    }
}

/// Namespace isolation for whole batches: writes into one namespace
/// leave what a context sees of any other namespace as it was.
pub proof fn lemma_writes_elsewhere(
    st: ContextState,
    key: StoreKey,
    entries: Seq<(Seq<u8>, Seq<u8>)>,
    other: StoreKey,
)
    requires
        st.wf(),
        st.writable(),
        st.registered(key),
        st.registered(other),
        key.index != other.index,
    ensures
        st.after_writes(key, entries).namespace(other) == st.namespace(other),
        st.after_writes(key, entries).wf(),
    decreases entries.len(),
{
    if entries.len() > 0 {
        let before = st.after_writes(key, entries.drop_last());
        lemma_writes_elsewhere(st, key, entries.drop_last(), other);
        lemma_after_writes_gas(st, key, entries.drop_last());
        let last = entries.last();
        crate::store::view::lemma_namespace_isolation(
            before.store,
            before.source->Pending_0,
            key,
            other,
            last.0,
            Some(last.1),
            before.source,
        );
    }
}

/// The costs of writing the entries of a list.
pub open spec fn write_costs(entries: Seq<(Seq<u8>, Seq<u8>)>) -> Seq<nat> {
    Seq::new(entries.len(), |i: int| write_cost(entries[i].0.len(), entries[i].1.len()))
}

/// The costs of reading the keys of a list in the table `t`.
pub open spec fn read_costs(t: Table, keys: Seq<Seq<u8>>) -> Seq<nat> {
    Seq::new(keys.len(), |i: int| get_cost(t, keys[i]))
}

/// The byte strings of a list by their views.
pub open spec fn key_models(keys: Seq<Vec<u8>>) -> Seq<Seq<u8>> {
    Seq::new(keys.len(), |i: int| keys[i]@)
}

/// Writing changes the meter as the charges for the writes do.
pub proof fn lemma_after_writes_gas(st: ContextState, key: StoreKey, entries: Seq<(Seq<u8>, Seq<u8>)>)
    ensures
        st.after_writes(key, entries).gas == st.paid_all(write_costs(entries)).gas,
        st.after_writes(key, entries).source == st.source,
        st.after_writes(key, entries).events == st.events,
        st.after_writes(key, entries).store.names == st.store.names,
        st.after_writes(key, entries).store.versions == st.store.versions,
    decreases entries.len(),
{
    if entries.len() > 0 {
        lemma_after_writes_gas(st, key, entries.drop_last());
        assert(write_costs(entries).drop_last() =~= write_costs(entries.drop_last()));
        assert(write_costs(entries).last() == write_cost(
            entries.last().0.len(),
            entries.last().1.len(),
        ));
    }
}

/// Whether two lists of entries have the same shape: as many entries,
/// and keys and values of the same lengths at each place.
pub open spec fn same_shape(a: Seq<(Seq<u8>, Seq<u8>)>, b: Seq<(Seq<u8>, Seq<u8>)>) -> bool {
    &&& a.len() == b.len()
    &&& forall|i: int|
        0 <= i < a.len() ==> (#[trigger] a[i]).0.len() == b[i].0.len() && a[i].1.len()
            == b[i].1.len()
}

/// Gas determinism: the gas that a list of writes draws depends on the
/// gas at the start and on the lengths of the keys and values alone. Two
/// contexts that start with the same gas and write entries of the same
/// shape end with the same gas and fail at the same write, whatever
/// their heights, times, chains and transactions are, whatever their
/// stores hold, and whichever namespaces and bytes they write.
pub proof fn lemma_gas_determinism(
    a: ContextState,
    b: ContextState,
    key_a: StoreKey,
    key_b: StoreKey,
    entries_a: Seq<(Seq<u8>, Seq<u8>)>,
    entries_b: Seq<(Seq<u8>, Seq<u8>)>,
)
    requires
        a.gas == b.gas,
        same_shape(entries_a, entries_b),
    ensures
        a.after_writes(key_a, entries_a).gas == b.after_writes(key_b, entries_b).gas,
        a.affords_all(write_costs(entries_a)) == b.affords_all(write_costs(entries_b)),
{
    lemma_after_writes_gas(a, key_a, entries_a);
    lemma_after_writes_gas(b, key_b, entries_b);
    assert(write_costs(entries_a) =~= write_costs(entries_b));
}

/// Gas determinism for reads: the gas that a list of reads draws depends
/// on the gas at the start and on what the reads find alone. Two
/// contexts that start with the same gas and read the same keys from
/// namespaces that hold the same end with the same gas.
pub proof fn lemma_gas_determinism_reads(
    a: ContextState,
    b: ContextState,
    key_a: StoreKey,
    key_b: StoreKey,
    keys: Seq<Seq<u8>>,
)
    requires
        a.gas == b.gas,
        a.namespace(key_a) == b.namespace(key_b),
    ensures
        a.paid_all(read_costs(a.namespace(key_a), keys)).gas == b.paid_all(
            read_costs(b.namespace(key_b), keys),
        ).gas,
        a.affords_all(read_costs(a.namespace(key_a), keys)) == b.affords_all(
            read_costs(b.namespace(key_b), keys),
        ),
{
}

/// The table `t` with the entries in `entries` written one after the
/// other.
pub open spec fn with_entries(t: Table, entries: Seq<(Seq<u8>, Seq<u8>)>) -> Table
    decreases entries.len(),
{
    if entries.len() == 0 {
        t
    } else {
        with_entries(t, entries.drop_last()).insert(entries.last().0, entries.last().1)
    }
}

/// Where all the writes of a list can be paid for, all are made: the
/// namespace holds all the entries afterwards. In a context without a
/// meter that is always so.
pub proof fn lemma_written_entries(
    st: ContextState,
    key: StoreKey,
    entries: Seq<(Seq<u8>, Seq<u8>)>,
)
    requires
        st.affords_all(write_costs(entries)),
        st.source is Pending,
    ensures
        st.after_writes(key, entries).namespace(key) == with_entries(st.namespace(key), entries),
    decreases entries.len(),
{
    if entries.len() > 0 {
        let mid = st.after_writes(key, entries.drop_last());
        assert(write_costs(entries).drop_last() =~= write_costs(entries.drop_last()));
        assert(write_costs(entries).last() == write_cost(
            entries.last().0.len(),
            entries.last().1.len(),
        ));
        lemma_written_entries(st, key, entries.drop_last());
        lemma_after_writes_gas(st, key, entries.drop_last());
        crate::store::view::lemma_written_namespace(
            mid.store,
            mid.source->Pending_0,
            key,
            entries.last().0,
            Some(entries.last().1),
        );
    }
}

/// What every context offers: reading, at the height it stands at.
pub trait QueryableContext {
    /// All that the context holds.
    spec fn state(&self) -> ContextState;

    /// The height of the block under way, or the one that the context is
    /// pinned to.
    fn height(&self) -> (h: u32)
        ensures
            h == self.state().height,
    ;

    /// The value under `k` in the namespace `key`, if there is one. A
    /// transaction pays for the read; nothing but its meter changes.
    fn get(&mut self, key: &StoreKey, k: &[u8]) -> (r: Result<Option<Vec<u8>>, OutOfGas>)
        requires
            old(self).state().wf(),
            old(self).state().registered(*key),
        ensures
            final(self).state() == old(self).state().paid(
                get_cost(old(self).state().namespace(*key), k@),
            ),
            match r {
                Ok(v) => old(self).state().affords(get_cost(old(self).state().namespace(*key), k@))
                    && v.model() == lookup(old(self).state().namespace(*key), k@),
                Err(_) => !old(self).state().affords(
                    get_cost(old(self).state().namespace(*key), k@),
                ),
            },
    ;

    /// The entries of the namespace `key` whose keys start with `prefix`,
    /// in ascending key order. A transaction pays for each entry; nothing
    /// but its meter changes.
    fn iterate(&mut self, key: &StoreKey, prefix: &[u8]) -> (r: Result<
        Vec<(Vec<u8>, Vec<u8>)>,
        OutOfGas,
    >)
        requires
            old(self).state().wf(),
            old(self).state().registered(*key),
        ensures
            final(self).state() == old(self).state().paid(
                iterate_cost(old(self).state().namespace(*key), prefix@),
            ),
            match r {
                Ok(entries) => old(self).state().affords(
                    iterate_cost(old(self).state().namespace(*key), prefix@),
                ) && lists(
                    entries@,
                    window(old(self).state().namespace(*key), Seq::empty(), prefix@),
                ),
                Err(_) => !old(self).state().affords(
                    iterate_cost(old(self).state().namespace(*key), prefix@),
                ),
            },
    ;
}

/// What the contexts of the mutable phases offer beyond reading.
pub trait WritableContext: QueryableContext {
    /// Stores `value` under `k` in the namespace `key`. A transaction pays
    /// for the write first, and nothing is written if it cannot.
    fn set(&mut self, key: &StoreKey, k: &[u8], value: Vec<u8>) -> (r: Result<(), OutOfGas>)
        requires
            old(self).state().wf(),
            old(self).state().writable(),
            old(self).state().registered(*key),
        ensures
            final(self).state() == old(self).state().after_write(
                *key,
                k@,
                Some(value@),
                write_cost(k@.len(), value@.len()),
            ),
            r is Ok == old(self).state().affords(write_cost(k@.len(), value@.len())),
    ;

    /// Deletes what is stored under `k` in the namespace `key`. A
    /// transaction pays for the deletion first, and nothing is deleted if
    /// it cannot.
    fn delete(&mut self, key: &StoreKey, k: &[u8]) -> (r: Result<(), OutOfGas>)
        requires
            old(self).state().wf(),
            old(self).state().writable(),
            old(self).state().registered(*key),
        ensures
            final(self).state() == old(self).state().after_write(*key, k@, None, delete_cost()),
            r is Ok == old(self).state().affords(delete_cost()),
    ;

    /// The time of the block under way.
    fn get_time(&self) -> (t: Timestamp)
        ensures
            t == self.state().time,
    ;
}

/// What the contexts that collect events offer.
pub trait TransactionalContext: WritableContext {
    /// Adds an event to the buffer.
    fn push_event(&mut self, event: Event)
        ensures
            final(self).state() == (ContextState {
                events: old(self).state().events.push(event.model()),
                ..old(self).state()
            }),
    ;

    /// Adds events to the buffer, in their order.
    fn append_events(&mut self, events: Vec<Event>)
        ensures
            final(self).state() == (ContextState {
                events: old(self).state().events + event_models(events@),
                ..old(self).state()
            }),
    ;

    /// Takes all events out of the buffer, in the order in which they were
    /// emitted. A second call right after yields none.
    fn events_drain(&mut self) -> (r: Vec<Event>)
        ensures
            event_models(r@) == old(self).state().events,
            final(self).state() == (ContextState { events: Seq::empty(), ..old(self).state() }),
    ;
}

/// Reads the keys of a list in the namespace `key`, one after the other,
/// and stops at the first read that the meter cannot pay for.
pub fn read_all<CTX: QueryableContext>(ctx: &mut CTX, key: &StoreKey, keys: &Vec<Vec<u8>>) -> (r:
    Result<Vec<Option<Vec<u8>>>, OutOfGas>)
    requires
        old(ctx).state().wf(),
        old(ctx).state().registered(*key),
    ensures
        final(ctx).state() == old(ctx).state().paid_all(
            read_costs(old(ctx).state().namespace(*key), key_models(keys@)),
        ),
        match r {
            Ok(values) => {
                &&& old(ctx).state().affords_all(
                    read_costs(old(ctx).state().namespace(*key), key_models(keys@)),
                )
                &&& values@.len() == keys@.len()
                &&& forall|i: int|
                    0 <= i < keys@.len() ==> (#[trigger] values@[i]).model() == lookup(
                        old(ctx).state().namespace(*key),
                        keys@[i]@,
                    )
            },
            Err(_) => !old(ctx).state().affords_all(
                read_costs(old(ctx).state().namespace(*key), key_models(keys@)),
            ),
        },
{
    let ghost st = ctx.state();
    let ghost t = st.namespace(*key);
    let ghost costs = read_costs(t, key_models(keys@));
    let mut values: Vec<Option<Vec<u8>>> = Vec::new();
    let mut i: usize = 0;
    assert(costs.take(0) =~= Seq::<nat>::empty());
    while i < keys.len()
        invariant
            0 <= i <= keys@.len(),
            st == old(ctx).state(),
            st.wf(),
            st.registered(*key),
            t == st.namespace(*key),
            costs == read_costs(t, key_models(keys@)),
            ctx.state() == st.paid_all(costs.take(i as int)),
            st.affords_all(costs.take(i as int)),
            values@.len() == i,
            forall|j: int| 0 <= j < i ==> (#[trigger] values@[j]).model() == lookup(t, keys@[j]@),
        decreases keys@.len() - i,
    {
        proof {
            assert(costs.take(i + 1).drop_last() =~= costs.take(i as int));
            assert(costs.take(i + 1).last() == get_cost(t, keys@[i as int]@));
        }
        match ctx.get(key, keys[i].as_slice()) {
            Ok(v) => {
                values.push(v);
            },
            Err(e) => {
                proof {
                    lemma_charging_stops(st, costs, i + 1);
                }
                return Err(e);
            },
        }
        i = i + 1;
    }
    assert(costs.take(i as int) =~= costs);
    Ok(values)
}

/// Writes the entries of a list into the namespace `key`, one after the
/// other, and stops at the first write that the meter cannot pay for.
pub fn write_all<CTX: WritableContext>(
    ctx: &mut CTX,
    key: &StoreKey,
    entries: Vec<(Vec<u8>, Vec<u8>)>,
) -> (r: Result<(), OutOfGas>)
    requires
        old(ctx).state().wf(),
        old(ctx).state().writable(),
        old(ctx).state().registered(*key),
    ensures
        final(ctx).state() == old(ctx).state().after_writes(*key, entry_models(entries@)),
        r is Ok == old(ctx).state().affords_all(write_costs(entry_models(entries@))),
{
    let ghost st = ctx.state();
    let ghost all = entry_models(entries@);
    let ghost costs = write_costs(all);
    let mut i: usize = 0;
    assert(all.take(0) =~= Seq::<(Seq<u8>, Seq<u8>)>::empty());
    assert(costs.take(0) =~= Seq::<nat>::empty());
    while i < entries.len()
        invariant
            0 <= i <= entries@.len(),
            all == entry_models(entries@),
            costs == write_costs(all),
            st == old(ctx).state(),
            st.wf(),
            st.writable(),
            st.registered(*key),
            ctx.state() == st.after_writes(*key, all.take(i as int)),
            st.affords_all(costs.take(i as int)),
        decreases entries@.len() - i,
    {
        let value = copy_bytes(entries[i].1.as_slice());
        proof {
            assert(all.take(i + 1).drop_last() =~= all.take(i as int));
            assert(all.take(i + 1).last() == all[i as int]);
            assert(costs.take(i + 1).drop_last() =~= costs.take(i as int));
            assert(costs.take(i + 1).last() == write_cost(all[i as int].0.len(), value@.len()));
            assert(write_costs(all.take(i as int)) =~= costs.take(i as int));
            assert(write_costs(all.take(i + 1)) =~= costs.take(i + 1));
            lemma_after_writes_gas(st, *key, all.take(i as int));
        }
        match ctx.set(key, entries[i].0.as_slice(), value) {
            Ok(()) => {},
            Err(e) => {
                proof {
                    lemma_writing_stops(st, *key, all, i + 1);
                }
                return Err(e);
            },
        }
        i = i + 1;
    }
    assert(all.take(i as int) =~= all);
    assert(costs.take(i as int) =~= costs);
    Ok(())
}

/// Once a charge has failed, the charges behind it change nothing.
pub proof fn lemma_charging_stops(st: ContextState, costs: Seq<nat>, n: int)
    requires
        0 <= n <= costs.len(),
        !st.affords_all(costs.take(n)),
    ensures
        !st.affords_all(costs),
        st.paid_all(costs) == st.paid_all(costs.take(n)),
    decreases costs.len() - n,
{
    if n == costs.len() {
        assert(costs.take(n) =~= costs);
    } else {
        assert(costs.take(n + 1).drop_last() =~= costs.take(n));
        lemma_charging_stops(st, costs, n + 1);
    }
}

/// Once a write could not be paid for, the writes behind it change
/// nothing.
pub proof fn lemma_writing_stops(
    st: ContextState,
    key: StoreKey,
    entries: Seq<(Seq<u8>, Seq<u8>)>,
    n: int,
)
    requires
        0 <= n <= entries.len(),
        !st.affords_all(write_costs(entries.take(n))),
    ensures
        !st.affords_all(write_costs(entries)),
        st.after_writes(key, entries) == st.after_writes(key, entries.take(n)),
    decreases entries.len() - n,
{
    if n == entries.len() {
        assert(entries.take(n) =~= entries);
    } else {
        assert(entries.take(n + 1).drop_last() =~= entries.take(n));
        assert(write_costs(entries.take(n + 1)).drop_last() =~= write_costs(entries.take(n)));
        lemma_writing_stops(st, key, entries, n + 1);
    }
}

} // verus!
