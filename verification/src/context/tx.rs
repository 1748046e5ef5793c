//! The context of a transaction: reads and writes that draw on a gas
//! meter, events, and checkpoints to roll back to.

use vstd::prelude::*;
use crate::context::{ContextState, Event, EventModel, Header, QueryableContext, Timestamp,
    TransactionalContext, WritableContext, duplicate_events, event_models};
use crate::gas::{GasMeter, OutOfGas};
use crate::store::byte_map::ByteMap;
use crate::store::multi::{Layer, MultiStore, StoreKey, StoreState};
use crate::store::table::Writes;
use crate::store::view::{MeteredView, MeteredViewMut, Source};

verus! {

/// What a transaction context held at some point: the writes of the
/// transaction and its events.
pub struct Checkpoint {
    writes: ByteMap<Option<Vec<u8>>>,
    events: Vec<Event>,
}

impl Checkpoint {
    /// The writes that the transaction had made.
    pub closed spec fn writes(&self) -> Writes {
        self.writes@
    }

    /// The events that the transaction had emitted.
    pub closed spec fn events(&self) -> Seq<EventModel> {
        event_models(self.events@)
    }
}

/// The context in which the messages of one transaction run.
pub struct TxContext {
    store: MultiStore,
    height: u32,
    chain_id: String,
    time: Timestamp,
    events: Vec<Event>,
    gas: GasMeter,
    tx_index: u32,
    tx_hash: [u8; 32],
}

impl TxContext {
    /// All that the context holds.
    pub closed spec fn view(&self) -> ContextState {
        ContextState {
            store: self.store@,
            source: Source::Pending(Layer::Tx),
            gas: Some(self.gas@),
            events: event_models(self.events@),
            chain_id: self.chain_id@,
            height: self.height,
            time: self.time,
            tx_index: self.tx_index,
            tx_hash: self.tx_hash@,
        }
    }

    /// What marks the transaction phase: writes go to the transaction's
    /// pending layer, and there is a meter.
    pub proof fn lemma_phase(&self)
        ensures
            self@.source == Source::Pending(Layer::Tx),
            self@.gas is Some,
    {
    }

    /// A context over `store` for the transaction with the hash `tx_hash`
    /// at the place `tx_index` of the block at `height`, with a budget of
    /// `gas_limit` and no events. Of the header the context keeps the
    /// chain's name and the time; the height of the block is `height`.
    pub fn new(
        store: MultiStore,
        height: u32,
        header: Header,
        gas_limit: u64,
        tx_index: u32,
        tx_hash: [u8; 32],
    ) -> (ctx: TxContext)
        ensures
            ctx@ == (ContextState {
                store: store@,
                source: Source::Pending(Layer::Tx),
                gas: Some(crate::gas::GasState { limit: gas_limit as nat, consumed: 0 }),
                events: Seq::empty(),
                chain_id: header.chain_id@,
                height,
                time: header.time,
                tx_index,
                tx_hash: tx_hash@,
            }),
    {
        let ctx = TxContext {
            store,
            height,
            chain_id: header.chain_id,
            time: header.time,
            events: Vec::new(),
            gas: GasMeter::new(gas_limit),
            tx_index,
            tx_hash,
        };
        assert(event_models(ctx.events@) =~= Seq::empty());
        ctx
    }

    /// A context for a run outside of a block's execution, such as a
    /// simulation: the index is 0 and the hash is all zeros, and neither
    /// identifies a transaction.
    pub fn simulate(store: MultiStore, height: u32, header: Header, gas_limit: u64) -> (ctx:
        TxContext)
        ensures
            ctx@ == (ContextState {
                store: store@,
                source: Source::Pending(Layer::Tx),
                gas: Some(crate::gas::GasState { limit: gas_limit as nat, consumed: 0 }),
                events: Seq::empty(),
                chain_id: header.chain_id@,
                height,
                time: header.time,
                tx_index: 0,
                tx_hash: Seq::new(32, |i: int| 0u8),
            }),
    {
        let zeros: [u8; 32] = [0u8; 32];
        assert(zeros@ =~= Seq::new(32, |i: int| 0u8));
        TxContext::new(store, height, header, gas_limit, 0, zeros)
    }

    /// The place of the transaction in its block.
    pub fn tx_index(&self) -> (r: u32)
        ensures
            r == self@.tx_index,
    {
        self.tx_index
    }

    /// The transaction's hash.
    pub fn tx_hash(&self) -> (r: [u8; 32])
        ensures
            r@ == self@.tx_hash,
    {
        self.tx_hash
    }

    /// The chain's name.
    pub fn chain_id(&self) -> (r: &String)
        ensures
            r@ == self@.chain_id,
    {
        &self.chain_id
    }

    /// The gas drawn so far.
    pub fn gas_consumed(&self) -> (r: u64)
        ensures
            self@.gas matches Some(g) && r == g.consumed,
    {
        self.gas.consumed()
    }

    /// The gas that is left.
    pub fn gas_remaining(&self) -> (r: u64)
        ensures
            self@.gas matches Some(g) && r == g.remaining(),
    {
        self.gas.remaining()
    }

    /// Whether `key` is the handle of a registered namespace.
    pub fn is_registered(&self, key: &StoreKey) -> (r: bool)
        ensures
            r == self@.registered(*key),
    {
        self.store.is_registered(key)
    }

    /// A read-only view of the namespace `key` that draws on the gas
    /// meter.
    pub fn kv_store(&mut self, key: &StoreKey) -> (v: MeteredView<'_>)
        requires
            old(self)@.wf(),
            old(self)@.registered(*key),
        ensures
            v.wf(),
            v.key == *key,
            v.store@ == old(self)@.store,
            Some(v.gas@) == old(self)@.gas,
            final(self)@ == (ContextState { gas: Some(final(v.gas)@), ..old(self)@ }),
    {
        MeteredView { gas: &mut self.gas, store: &self.store, key: *key }
    }

    /// A read-write view of the namespace `key` that draws on the gas
    /// meter.
    pub fn kv_store_mut(&mut self, key: &StoreKey) -> (v: MeteredViewMut<'_>)
        requires
            old(self)@.wf(),
            old(self)@.registered(*key),
        ensures
            v.wf(),
            v.key == *key,
            v.store@ == old(self)@.store,
            Some(v.gas@) == old(self)@.gas,
            final(self)@ == (ContextState {
                store: final(v.store)@,
                gas: Some(final(v.gas)@),
                ..old(self)@
            }),
    {
        MeteredViewMut { gas: &mut self.gas, store: &mut self.store, key: *key }
    }

    /// What the transaction has written and emitted so far, to come back
    /// to with [`TxContext::rollback`].
    pub fn checkpoint(&self) -> (cp: Checkpoint)
        ensures
            cp.writes() == self@.store.tx,
            cp.events() == self@.events,
    {
        Checkpoint { writes: self.store.tx_writes(), events: duplicate_events(&self.events) }
    }

    /// Goes back to a checkpoint: the writes and the events of the
    /// transaction are again what they were when it was taken. The gas
    /// that was drawn since stays drawn.
    pub fn rollback(&mut self, cp: Checkpoint)
        ensures
            final(self)@ == (ContextState {
                store: StoreState { tx: cp.writes(), ..old(self)@.store },
                events: cp.events(),
                ..old(self)@
            }),
    {
        self.store.set_tx_writes(cp.writes);
        self.events = cp.events;
    }

    /// Ends a transaction that succeeded: its writes stay pending for the
    /// commit of the block. Hands back the store, the events that were
    /// not drained, and the meter.
    pub fn finish(self) -> (r: (MultiStore, Vec<Event>, GasMeter))
        ensures
            r.0@ == (StoreState {
                block: self@.store.block.union_prefer_right(self@.store.tx),
                tx: Map::empty(),
                ..self@.store
            }),
            r.0@.pending() == self@.store.visible(Layer::Tx),
            event_models(r.1@) == self@.events,
            Some(r.2@) == self@.gas,
    {
        let mut store = self.store;
        store.promote_tx();
        (store, self.events, self.gas)
    }

    /// Ends a transaction that failed: all its writes are dropped, with
    /// every checkpoint taken in it. Hands back the store and the meter.
    pub fn abort(self) -> (r: (MultiStore, GasMeter))
        ensures
            r.0@ == (StoreState { tx: Map::empty(), ..self@.store }),
            Some(r.1@) == self@.gas,
    {
        let mut store = self.store;
        store.discard_tx();
        (store, self.gas)
    }
}

impl QueryableContext for TxContext {
    open spec fn state(&self) -> ContextState {
        self@
    }

    fn height(&self) -> (h: u32) {
        self.height
    }

    fn get(&mut self, key: &StoreKey, k: &[u8]) -> (r: Result<Option<Vec<u8>>, OutOfGas>) {
        let mut view = self.kv_store_mut(key);
        view.get(k)
    }

    fn iterate(&mut self, key: &StoreKey, prefix: &[u8]) -> (r: Result<
        Vec<(Vec<u8>, Vec<u8>)>,
        OutOfGas,
    >) {
        let mut view = self.kv_store_mut(key);
        view.iterate(prefix)
    }
}

impl WritableContext for TxContext {
    fn set(&mut self, key: &StoreKey, k: &[u8], value: Vec<u8>) -> (r: Result<(), OutOfGas>) {
        let mut view = self.kv_store_mut(key);
        view.set(k, value)
    }

    fn delete(&mut self, key: &StoreKey, k: &[u8]) -> (r: Result<(), OutOfGas>) {
        let mut view = self.kv_store_mut(key);
        view.delete(k)
    }

    fn get_time(&self) -> (t: Timestamp) {
        self.time
    }
}

impl TransactionalContext for TxContext {
    fn push_event(&mut self, event: Event) {
        self.events.push(event);
        assert(event_models(self.events@) =~= event_models(old(self).events@).push(event.model()));
    }

    fn append_events(&mut self, events: Vec<Event>) {
        let mut events = events;
        let ghost added = events@;
        self.events.append(&mut events);
        assert(event_models(self.events@) =~= event_models(old(self).events@) + event_models(
            added,
        ));
    }

    fn events_drain(&mut self) -> (r: Vec<Event>) {
        let mut out: Vec<Event> = Vec::new();
        core::mem::swap(&mut self.events, &mut out);
        assert(event_models(self.events@) =~= Seq::empty());
        out
    }
}

} // verus!
