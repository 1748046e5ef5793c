//! The context of block hooks: reads, writes and events, with no gas
//! meter and nothing to roll back.

use vstd::prelude::*;
use crate::context::{ConsensusParams, ContextState, Event, Header, QueryableContext, Timestamp,
    TransactionalContext, WritableContext, event_models};
use crate::gas::OutOfGas;
use crate::store::multi::{Layer, MultiStore, StoreKey};
use crate::store::view::{PrefixedView, PrefixedViewMut, Source};

verus! {

/// The context in which the hooks at the start and at the end of a block
/// run.
pub struct BlockContext {
    store: MultiStore,
    height: u32,
    chain_id: String,
    time: Timestamp,
    consensus_params: ConsensusParams,
    events: Vec<Event>,
}

impl BlockContext {
    /// All that the context holds.
    pub closed spec fn view(&self) -> ContextState {
        ContextState {
            store: self.store@,
            source: Source::Pending(Layer::Block),
            gas: None,
            events: event_models(self.events@),
            chain_id: self.chain_id@,
            height: self.height,
            time: self.time,
            tx_index: 0,
            tx_hash: Seq::new(32, |i: int| 0u8),
        }
    }

    /// The limits that consensus sets, as the context holds them.
    pub closed spec fn limits(&self) -> ConsensusParams {
        self.consensus_params
    }

    /// What marks the block phase: writes go to the block's pending
    /// layer, and there is no meter.
    pub proof fn lemma_phase(&self)
        ensures
            self@.source == Source::Pending(Layer::Block),
            self@.gas is None,
            self@.tx_index == 0,
    {
    }

    /// A context over `store` for the block at `height`, with no events.
    /// Of the header the context keeps the chain's name and the time; the
    /// height of the block is `height`.
    pub fn new(
        store: MultiStore,
        height: u32,
        header: Header,
        consensus_params: ConsensusParams,
    ) -> (ctx: BlockContext)
        ensures
            ctx@ == (ContextState {
                store: store@,
                source: Source::Pending(Layer::Block),
                gas: None,
                events: Seq::empty(),
                chain_id: header.chain_id@,
                height,
                time: header.time,
                tx_index: 0,
                tx_hash: Seq::new(32, |i: int| 0u8),
            }),
            ctx.limits() == consensus_params,
    {
        let ctx = BlockContext {
            store,
            height,
            chain_id: header.chain_id,
            time: header.time,
            events: Vec::new(),
            consensus_params,
        };
        assert(event_models(ctx.events@) =~= Seq::empty());
        ctx
    }

    /// Ends the phase and hands back the store, with the writes of the
    /// hooks pending in it, and the events that were not drained.
    pub fn into_parts(self) -> (r: (MultiStore, Vec<Event>))
        ensures
            r.0@ == self@.store,
            event_models(r.1@) == self@.events,
    {
        (self.store, self.events)
    }

    /// The chain's name.
    pub fn chain_id(&self) -> (r: &String)
        ensures
            r@ == self@.chain_id,
    {
        &self.chain_id
    }

    /// The limits that consensus sets for the block.
    pub fn consensus_params(&self) -> (r: &ConsensusParams)
        ensures
            *r == self.limits(),
    {
        &self.consensus_params
    }

    /// Whether `key` is the handle of a registered namespace.
    pub fn is_registered(&self, key: &StoreKey) -> (r: bool)
        ensures
            r == self@.registered(*key),
    {
        self.store.is_registered(key)
    }

    /// A read-only view of the namespace `key`.
    pub fn kv_store(&self, key: &StoreKey) -> (v: PrefixedView<'_>)
        requires
            self@.wf(),
            self@.registered(*key),
        ensures
            v.table() == self@.namespace(*key),
    {
        PrefixedView::new(&self.store, *key, Source::Pending(Layer::Block))
    }

    /// A read-write view of the namespace `key`.
    pub fn kv_store_mut(&mut self, key: &StoreKey) -> (v: PrefixedViewMut<'_>)
        requires
            old(self)@.wf(),
            old(self)@.registered(*key),
        ensures
            v.wf(),
            v.key == *key,
            v.layer is Block,
            v.store@ == old(self)@.store,
            final(self)@ == (ContextState { store: final(v.store)@, ..old(self)@ }),
            final(self).limits() == old(self).limits(),
    {
        PrefixedViewMut { store: &mut self.store, key: *key, layer: Layer::Block }
    }
}

impl QueryableContext for BlockContext {
    open spec fn state(&self) -> ContextState {
        self@
    }

    fn height(&self) -> (h: u32) {
        self.height
    }

    fn get(&mut self, key: &StoreKey, k: &[u8]) -> (r: Result<Option<Vec<u8>>, OutOfGas>)
        ensures
            final(self).limits() == old(self).limits(),
    {
        Ok(self.kv_store(key).get(k))
    }

    fn iterate(&mut self, key: &StoreKey, prefix: &[u8]) -> (r: Result<
        Vec<(Vec<u8>, Vec<u8>)>,
        OutOfGas,
    >)
        ensures
            final(self).limits() == old(self).limits(),
    {
        Ok(self.kv_store(key).iterate(prefix))
    }
}

impl WritableContext for BlockContext {
    fn set(&mut self, key: &StoreKey, k: &[u8], value: Vec<u8>) -> (r: Result<(), OutOfGas>)
        ensures
            final(self).limits() == old(self).limits(),
    {
        let mut view = self.kv_store_mut(key);
        view.set(k, value);
        Ok(())
    }

    fn delete(&mut self, key: &StoreKey, k: &[u8]) -> (r: Result<(), OutOfGas>)
        ensures
            final(self).limits() == old(self).limits(),
    {
        let mut view = self.kv_store_mut(key);
        view.delete(k);
        Ok(())
    }

    fn get_time(&self) -> (t: Timestamp) {
        self.time
    }
}

impl TransactionalContext for BlockContext {
    fn push_event(&mut self, event: Event)
        ensures
            final(self).limits() == old(self).limits(),
    {
        self.events.push(event);
        assert(event_models(self.events@) =~= event_models(old(self).events@).push(event.model()));
    }

    fn append_events(&mut self, events: Vec<Event>)
        ensures
            final(self).limits() == old(self).limits(),
    {
        let mut events = events;
        let ghost added = events@;
        self.events.append(&mut events);
        assert(event_models(self.events@) =~= event_models(old(self).events@) + event_models(
            added,
        ));
    }

    fn events_drain(&mut self) -> (r: Vec<Event>)
        ensures
            final(self).limits() == old(self).limits(),
    {
        let mut out: Vec<Event> = Vec::new();
        core::mem::swap(&mut self.events, &mut out);
        assert(event_models(self.events@) =~= Seq::empty());
        out
    }
}

} // verus!
