//! The context of the genesis phase: reads and writes at height 0, with
//! no gas meter and no events.

use vstd::prelude::*;
use crate::context::{ContextState, QueryableContext, Timestamp, WritableContext};
use crate::gas::OutOfGas;
use crate::store::multi::{Layer, MultiStore, StoreKey};
use crate::store::view::{PrefixedView, PrefixedViewMut, Source};

verus! {

/// The context in which genesis state is applied.
pub struct InitContext {
    store: MultiStore,
    chain_id: String,
    time: Timestamp,
}

impl InitContext {
    /// All that the context holds.
    pub closed spec fn view(&self) -> ContextState {
        ContextState {
            store: self.store@,
            source: Source::Pending(Layer::Block),
            gas: None,
            events: Seq::empty(),
            chain_id: self.chain_id@,
            height: 0,
            time: self.time,
            tx_index: 0,
            tx_hash: Seq::new(32, |i: int| 0u8),
        }
    }

    /// What marks the genesis phase: writes go to the block's pending
    /// layer, there is no meter and there are no events, and the height
    /// is 0.
    pub proof fn lemma_phase(&self)
        ensures
            self@.source == Source::Pending(Layer::Block),
            self@.gas is None,
            self@.events == Seq::<crate::context::EventModel>::empty(),
            self@.height == 0,
            self@.tx_index == 0,
    {
    }

    /// A context over `store` for the chain `chain_id`, whose genesis
    /// time is `time`.
    pub fn new(store: MultiStore, chain_id: String, time: Timestamp) -> (ctx: InitContext)
        ensures
            ctx@ == (ContextState {
                store: store@,
                source: Source::Pending(Layer::Block),
                gas: None,
                events: Seq::empty(),
                chain_id: chain_id@,
                height: 0,
                time,
                tx_index: 0,
                tx_hash: Seq::new(32, |i: int| 0u8),
            }),
    {
        InitContext { store, chain_id, time }
    }

    /// Ends the phase and hands the store back, with the writes of
    /// genesis pending in it.
    pub fn into_store(self) -> (store: MultiStore)
        ensures
            store@ == self@.store,
    {
        self.store
    }

    /// The chain's name.
    pub fn chain_id(&self) -> (r: &String)
        ensures
            r@ == self@.chain_id,
    {
        &self.chain_id
    }

    /// Whether `key` is the handle of a registered namespace.
    pub fn is_registered(&self, key: &StoreKey) -> (r: bool)
        ensures
            r == self@.registered(*key),
    {
        self.store.is_registered(key)
    }

    /// A read-only view of the namespace `key`.
    pub fn kv_store(&self, key: &StoreKey) -> (v: PrefixedView<'_>)
        requires
            self@.wf(),
            self@.registered(*key),
        ensures
            v.table() == self@.namespace(*key),
    {
        PrefixedView::new(&self.store, *key, Source::Pending(Layer::Block))
    }

    /// A read-write view of the namespace `key`.
    pub fn kv_store_mut(&mut self, key: &StoreKey) -> (v: PrefixedViewMut<'_>)
        requires
            old(self)@.wf(),
            old(self)@.registered(*key),
        ensures
            v.wf(),
            v.key == *key,
            v.layer is Block,
            v.store@ == old(self)@.store,
            final(self)@ == (ContextState { store: final(v.store)@, ..old(self)@ }),
    {
        PrefixedViewMut { store: &mut self.store, key: *key, layer: Layer::Block }
    }
}

impl QueryableContext for InitContext {
    open spec fn state(&self) -> ContextState {
        self@
    }

    fn height(&self) -> (h: u32) {
        0
    }

    fn get(&mut self, key: &StoreKey, k: &[u8]) -> (r: Result<Option<Vec<u8>>, OutOfGas>) {
        Ok(self.kv_store(key).get(k))
    }

    fn iterate(&mut self, key: &StoreKey, prefix: &[u8]) -> (r: Result<
        Vec<(Vec<u8>, Vec<u8>)>,
        OutOfGas,
    >) {
        Ok(self.kv_store(key).iterate(prefix))
    }
}

impl WritableContext for InitContext {
    fn set(&mut self, key: &StoreKey, k: &[u8], value: Vec<u8>) -> (r: Result<(), OutOfGas>) {
        let mut view = self.kv_store_mut(key);
        view.set(k, value);
        Ok(())
    }

    fn delete(&mut self, key: &StoreKey, k: &[u8]) -> (r: Result<(), OutOfGas>) {
        let mut view = self.kv_store_mut(key);
        view.delete(k);
        Ok(())
    }

    fn get_time(&self) -> (t: Timestamp) {
        self.time
    }
}

} // verus!
