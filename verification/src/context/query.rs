//! The context of queries: reads of one committed height, and nothing
//! else.

use vstd::prelude::*;
use crate::context::{ContextState, QueryableContext, Timestamp};
use crate::error::QueryError;
use crate::gas::OutOfGas;
use crate::store::multi::{MultiStore, StoreKey};
use crate::store::view::{PrefixedView, Source};

verus! {

/// The context in which a query runs: a shared borrow of the store,
/// pinned to a committed height. It has no way to write.
pub struct QueryContext<'a> {
    store: &'a MultiStore,
    height: u32,
}

impl<'a> QueryContext<'a> {
    /// All that the context holds.
    pub closed spec fn view(&self) -> ContextState {
        ContextState {
            store: self.store@,
            source: Source::Committed(self.height),
            gas: None,
            events: Seq::empty(),
            chain_id: Seq::empty(),
            height: self.height,
            time: Timestamp { seconds: 0, nanos: 0 },
            tx_index: 0,
            tx_hash: Seq::new(32, |i: int| 0u8),
        }
    }

    /// What marks the query phase: reads go to the committed state at
    /// the pinned height, and there is no meter and there are no events.
    pub proof fn lemma_phase(&self)
        ensures
            self@.source == Source::Committed(self@.height),
            self@.gas is None,
            self@.events == Seq::<crate::context::EventModel>::empty(),
    {
    }

    /// A context pinned to `height`, which must have been committed.
    pub fn new(store: &'a MultiStore, height: u32) -> (r: Result<QueryContext<'a>, QueryError>)
        requires
            store.wf(),
        ensures
            match r {
                Ok(ctx) => {
                    &&& height <= store@.height()
                    &&& ctx@.wf()
                    &&& ctx@ == (ContextState {
                        store: store@,
                        source: Source::Committed(height),
                        gas: None,
                        events: Seq::empty(),
                        chain_id: Seq::empty(),
                        height,
                        time: Timestamp { seconds: 0, nanos: 0 },
                        tx_index: 0,
                        tx_hash: Seq::new(32, |i: int| 0u8),
                    })
                },
                Err(e) => height > store@.height() && e is InvalidHeight,
            },
    {
        if height > store.height() {
            Err(QueryError::InvalidHeight)
        } else {
            Ok(QueryContext { store, height })
        }
    }

    /// Capability soundness: whatever is asked of a query context, the
    /// state that it rests on stays as it is, and so does what a commit
    /// would make durable. The context has no meter, so that paying, the
    /// only change that a read makes in any phase, changes nothing here.
    pub proof fn lemma_read_only(&self, costs: Seq<nat>)
        ensures
            self@.paid_all(costs) == self@,
            self@.paid_all(costs).store.committed() == self@.store.committed(),
            !self@.writable(),
    {
    }

    /// Whether `key` is the handle of a registered namespace.
    pub fn is_registered(&self, key: &StoreKey) -> (r: bool)
        ensures
            r == self@.registered(*key),
    {
        self.store.is_registered(key)
    }

    /// A read-only view of the namespace `key` at the pinned height.
    pub fn kv_store(&self, key: &StoreKey) -> (v: PrefixedView<'a>)
        requires
            self@.wf(),
            self@.registered(*key),
        ensures
            v.table() == self@.namespace(*key),
    {
        PrefixedView::new(self.store, *key, Source::Committed(self.height))
    }
}

impl<'a> QueryableContext for QueryContext<'a> {
    open spec fn state(&self) -> ContextState {
        self@
    }

    fn height(&self) -> (h: u32) {
        self.height
    }

    fn get(&mut self, key: &StoreKey, k: &[u8]) -> (r: Result<Option<Vec<u8>>, OutOfGas>)
        ensures
            final(self)@ == old(self)@,
            r is Ok,
    {
        Ok(self.kv_store(key).get(k))
    }

    fn iterate(&mut self, key: &StoreKey, prefix: &[u8]) -> (r: Result<
        Vec<(Vec<u8>, Vec<u8>)>,
        OutOfGas,
    >)
        ensures
            final(self)@ == old(self)@,
            r is Ok,
    {
        Ok(self.kv_store(key).iterate(prefix))
    }
}

} // verus!
