use gears_wasm::context::block::BlockContext;
use gears_wasm::context::init::InitContext;
use gears_wasm::context::query::QueryContext;
use gears_wasm::context::tx::TxContext;
use gears_wasm::context::{
    duplicate_events, read_all, write_all, ConsensusParams, Event, EventAttribute, Header,
    QueryableContext, Timestamp, TransactionalContext, WritableContext,
};
use gears_wasm::error::QueryError;
use gears_wasm::store::multi::{MultiStore, StoreKey};

fn header(height: u32) -> Header {
    Header {
        chain_id: "test-chain".to_string(),
        height,
        time: Timestamp { seconds: 1_700_000_000, nanos: 5 },
    }
}

fn store() -> (MultiStore, StoreKey) {
    let store = MultiStore::new(vec![b"bank".to_vec(), b"wasm".to_vec()]).unwrap();
    let key = store.store_key(b"wasm").unwrap();
    (store, key)
}

fn event(kind: &str) -> Event {
    Event {
        kind: kind.to_string(),
        attributes: vec![EventAttribute { key: "k".to_string(), value: "v".to_string() }],
    }
}

#[test]
fn init_context_writes_at_height_zero() {
    let (store, key) = store();
    let time = Timestamp { seconds: 5, nanos: 0 };
    let mut ctx = InitContext::new(store, "test-chain".to_string(), time);
    assert_eq!(ctx.height(), 0);
    assert_eq!(ctx.get_time(), time);
    assert_eq!(ctx.chain_id(), "test-chain");
    assert!(ctx.set(&key, b"a", vec![1]).is_ok());
    ctx.kv_store_mut(&key).set(b"b", vec![2]);
    assert_eq!(ctx.get(&key, b"a").unwrap(), Some(vec![1]));
    assert_eq!(ctx.kv_store(&key).get(b"b"), Some(vec![2]));
    assert!(ctx.delete(&key, b"a").is_ok());
    assert_eq!(ctx.iterate(&key, b"").unwrap(), vec![(b"b".to_vec(), vec![2])]);
    let mut store = ctx.into_store();
    assert_eq!(store.commit().unwrap(), 1);
    assert_eq!(store.namespace_at(1, &key).unwrap().get(b"b"), Some(vec![2]));
}

#[test]
fn block_context_collects_events() {
    let (store, key) = store();
    let limits = ConsensusParams { max_block_bytes: 1 << 20, max_block_gas: 50_000 };
    let mut ctx = BlockContext::new(store, 4, header(4), limits);
    assert_eq!(ctx.height(), 4);
    assert_eq!(ctx.chain_id(), "test-chain");
    assert_eq!(ctx.consensus_params(), &limits);
    assert_eq!(ctx.get_time(), Timestamp { seconds: 1_700_000_000, nanos: 5 });
    ctx.push_event(event("first"));
    ctx.append_events(vec![event("second"), event("third")]);
    ctx.kv_store_mut(&key).set(b"k", vec![9]);
    assert_eq!(ctx.kv_store(&key).get(b"k"), Some(vec![9]));
    assert!(ctx.set(&key, b"l", vec![8]).is_ok());
    assert!(ctx.delete(&key, b"k").is_ok());
    assert_eq!(ctx.get(&key, b"k").unwrap(), None);
    let drained = ctx.events_drain();
    let kinds: Vec<&str> = drained.iter().map(|e| e.kind.as_str()).collect();
    assert_eq!(kinds, vec!["first", "second", "third"]);
    assert_eq!(drained[0].attributes[0].key, "k");
    // Drained once, the buffer is empty.
    assert!(ctx.events_drain().is_empty());
    ctx.push_event(event("late"));
    let (store, events) = ctx.into_parts();
    assert_eq!(events.len(), 1);
    assert_eq!(store.namespace(&key).get(b"l"), Some(vec![8]));
}

#[test]
fn tx_context_identifies_its_transaction() {
    let (store, _key) = store();
    let ctx = TxContext::new(store, 2, header(2), 1000, 5, [9u8; 32]);
    assert_eq!(ctx.height(), 2);
    assert_eq!(ctx.tx_index(), 5);
    assert_eq!(ctx.tx_hash(), [9u8; 32]);
    assert_eq!(ctx.chain_id(), "test-chain");
    assert_eq!(ctx.get_time().seconds, 1_700_000_000);
    assert_eq!(ctx.gas_remaining(), 1000);
}

#[test]
fn a_simulation_has_zero_index_and_hash() {
    let (store, _key) = store();
    let ctx = TxContext::simulate(store, 2, header(2), 1000);
    assert_eq!(ctx.tx_index(), 0);
    assert_eq!(ctx.tx_hash(), [0u8; 32]);
}

#[test]
fn rollback_restores_writes_and_events() {
    let (store, key) = store();
    let mut ctx = TxContext::new(store, 1, header(1), 1_000_000, 0, [0u8; 32]);
    assert!(ctx.set(&key, b"kept", vec![1]).is_ok());
    ctx.push_event(event("kept"));
    let checkpoint = ctx.checkpoint();
    assert!(ctx.set(&key, b"dropped", vec![2]).is_ok());
    assert!(ctx.delete(&key, b"kept").is_ok());
    ctx.push_event(event("dropped"));
    let used = ctx.gas_consumed();
    ctx.rollback(checkpoint);
    assert_eq!(ctx.gas_consumed(), used);
    assert_eq!(ctx.kv_store_mut(&key).iterate(b"").unwrap(), vec![(b"kept".to_vec(), vec![1])]);
    let events = ctx.events_drain();
    assert_eq!(events.len(), 1);
    assert_eq!(events[0].kind, "kept");
    assert_eq!(event("x").duplicate().attributes[0].value, "v");
    assert_eq!(duplicate_events(&vec![event("a"), event("b")]), vec![event("a"), event("b")]);
    assert_eq!(event("c").clone(), event("c"));
}

#[test]
fn finish_hands_writes_to_the_block_and_abort_drops_them() {
    let (store, key) = store();
    let mut ctx = TxContext::new(store, 1, header(1), 1_000_000, 0, [0u8; 32]);
    assert!(ctx.set(&key, b"a", vec![1]).is_ok());
    ctx.push_event(event("e"));
    let (store, events, gas) = ctx.finish();
    assert_eq!(events.len(), 1);
    assert_eq!(gas.consumed(), 2060);
    assert_eq!(store.namespace(&key).get(b"a"), Some(vec![1]));
    let mut ctx = TxContext::new(store, 1, header(1), 1_000_000, 1, [1u8; 32]);
    assert_eq!(ctx.get(&key, b"a").unwrap(), Some(vec![1]));
    assert!(ctx.set(&key, b"b", vec![2]).is_ok());
    assert!(ctx.delete(&key, b"a").is_ok());
    let (mut store, _gas) = ctx.abort();
    assert_eq!(store.namespace(&key).get(b"a"), Some(vec![1]));
    assert_eq!(store.namespace(&key).get(b"b"), None);
    store.commit().unwrap();
    assert_eq!(store.namespace_at(1, &key).unwrap().get(b"a"), Some(vec![1]));
}

#[test]
fn query_context_is_pinned_and_read_only() {
    let (mut store, key) = store();
    store.namespace_mut(&key).set(b"a", vec![1]);
    store.commit().unwrap();
    store.namespace_mut(&key).set(b"a", vec![2]);
    assert!(matches!(QueryContext::new(&store, 2), Err(QueryError::InvalidHeight)));
    let mut ctx = QueryContext::new(&store, 1).unwrap();
    assert_eq!(ctx.height(), 1);
    assert_eq!(ctx.get(&key, b"a").unwrap(), Some(vec![1]));
    assert_eq!(ctx.iterate(&key, b"").unwrap(), vec![(b"a".to_vec(), vec![1])]);
    assert_eq!(ctx.kv_store(&key).get(b"a"), Some(vec![1]));
    let mut genesis = QueryContext::new(&store, 0).unwrap();
    assert_eq!(genesis.get(&key, b"a").unwrap(), None);
    // Queries leave the pending writes and the history as they were.
    assert_eq!(store.namespace(&key).get(b"a"), Some(vec![2]));
    assert_eq!(store.height(), 1);
    store.commit().unwrap();
    assert_eq!(store.namespace_at(2, &key).unwrap().get(b"a"), Some(vec![2]));
    assert_eq!(QueryContext::new(&store, 1).unwrap().kv_store(&key).get(b"a"), Some(vec![1]));
}

#[test]
fn batches_stop_at_the_first_failure() {
    let (store, key) = store();
    let mut ctx = TxContext::new(store, 1, header(1), 4500, 0, [0u8; 32]);
    let entries = vec![
        (b"a".to_vec(), vec![1]),
        (b"b".to_vec(), vec![2]),
        (b"c".to_vec(), vec![3]),
    ];
    // Two writes of 2060 each fit the budget of 4500, the third does not.
    assert!(write_all(&mut ctx, &key, entries).is_err());
    assert_eq!(ctx.gas_consumed(), 4120);
    let (store, _gas) = ctx.abort();
    let mut ctx = TxContext::new(store, 1, header(1), 10_000, 0, [0u8; 32]);
    assert!(write_all(&mut ctx, &key, vec![(b"a".to_vec(), vec![1]), (b"b".to_vec(), vec![2])])
        .is_ok());
    let found = read_all(&mut ctx, &key, &vec![b"b".to_vec(), b"x".to_vec(), b"a".to_vec()]);
    assert_eq!(found.unwrap(), vec![Some(vec![2]), None, Some(vec![1])]);
    assert_eq!(ctx.gas_consumed(), 4120 + 1006 + 1003 + 1006);
}
