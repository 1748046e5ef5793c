use gears_wasm::context::tx::TxContext;
use gears_wasm::context::{Header, QueryableContext, Timestamp, WritableContext};
use gears_wasm::gas::{iter_cost_of, read_cost_of, write_cost_of, GasMeter};
use gears_wasm::store::multi::{MultiStore, StoreKey};

fn header() -> Header {
    Header {
        chain_id: "test-chain".to_string(),
        height: 1,
        time: Timestamp { seconds: 10, nanos: 0 },
    }
}

fn tx_context(gas_limit: u64) -> (TxContext, StoreKey) {
    let store = MultiStore::new(vec![b"wasm".to_vec()]).unwrap();
    let key = store.store_key(b"wasm").unwrap();
    (TxContext::new(store, 1, header(), gas_limit, 3, [7u8; 32]), key)
}

#[test]
fn cost_formulas() {
    assert_eq!(read_cost_of(3, 5), 1024);
    assert_eq!(read_cost_of(0, 0), 1000);
    assert_eq!(write_cost_of(3, 5), 2240);
    assert_eq!(write_cost_of(0, 0), 2000);
    assert_eq!(iter_cost_of(1, 2), 39);
}

#[test]
fn charge_is_all_or_nothing() {
    let mut m = GasMeter::new(100);
    assert_eq!(m.limit(), 100);
    assert!(m.charge(60, "first").is_ok());
    assert_eq!(m.consumed(), 60);
    assert_eq!(m.remaining(), 40);
    let e = m.charge(41, "second").unwrap_err();
    assert_eq!(e.description, "second");
    assert_eq!(m.consumed(), 60);
    assert_eq!(m.remaining(), 40);
    assert!(m.charge(40, "third").is_ok());
    assert_eq!(m.remaining(), 0);
    assert!(m.charge(0, "nothing").is_ok());
    assert!(m.charge(1, "one more").is_err());
    assert!(m.charge_wide(u128::MAX, "huge").is_err());
    assert_eq!(m.duplicate().consumed(), 100);
}

#[test]
fn store_operations_draw_their_cost() {
    let (mut ctx, key) = tx_context(10_000);
    assert!(ctx.set(&key, b"abc", b"12345".to_vec()).is_ok());
    assert_eq!(ctx.gas_consumed(), 2240);
    assert_eq!(ctx.get(&key, b"abc").unwrap(), Some(b"12345".to_vec()));
    assert_eq!(ctx.gas_consumed(), 2240 + 1024);
    assert_eq!(ctx.get(&key, b"nothing").unwrap(), None);
    assert_eq!(ctx.gas_consumed(), 2240 + 1024 + 1021);
    assert_eq!(
        ctx.iterate(&key, b"a").unwrap(),
        vec![(b"abc".to_vec(), b"12345".to_vec())]
    );
    assert_eq!(ctx.gas_consumed(), 2240 + 1024 + 1021 + 54);
    assert!(ctx.delete(&key, b"abc").is_ok());
    assert_eq!(ctx.gas_consumed(), 2240 + 1024 + 1021 + 54 + 1000);
    assert_eq!(ctx.gas_remaining(), 10_000 - 5339);
}

#[test]
fn an_operation_that_cannot_be_paid_does_nothing() {
    let (mut ctx, key) = tx_context(2239);
    assert!(ctx.set(&key, b"abc", b"12345".to_vec()).is_err());
    assert_eq!(ctx.gas_consumed(), 0);
    assert!(ctx.set(&key, b"ab", b"12345".to_vec()).is_ok());
    assert_eq!(ctx.gas_consumed(), 2210);
    // A read that cannot be paid yields an error and leaves the meter.
    assert!(ctx.get(&key, b"ab").is_err());
    assert_eq!(ctx.gas_consumed(), 2210);
    assert!(ctx.delete(&key, b"ab").is_err());
    assert!(ctx.iterate(&key, b"").is_err());
    assert_eq!(ctx.gas_consumed(), 2210);
    let (store, _gas) = ctx.abort();
    assert_eq!(store.namespace(&key).get(b"ab"), None);
}

#[test]
fn gas_is_deterministic() {
    let run = |keys: &[&[u8]], value_len: usize| {
        let (mut ctx, key) = tx_context(9000);
        let mut outcomes = Vec::new();
        for k in keys {
            outcomes.push(ctx.set(&key, k, vec![1u8; value_len]).is_ok());
            outcomes.push(ctx.get(&key, k).is_ok());
        }
        (outcomes, ctx.gas_remaining())
    };
    let keys: [&[u8]; 3] = [b"a", b"bb", b"ccc"];
    assert_eq!(run(&keys, 4), run(&keys, 4));
    // Other keys and values of the same lengths cost the same.
    let other: [&[u8]; 3] = [b"x", b"yy", b"zzz"];
    assert_eq!(run(&keys, 4), run(&other, 4));
    let (outcomes, remaining) = run(&keys, 4);
    assert_eq!(outcomes, vec![true, true, true, true, true, false]);
    assert_eq!(remaining, 9000 - 2150 - 1015 - 2180 - 1018 - 2210);
}

#[test]
fn metered_views_draw_on_the_meter() {
    let (mut ctx, key) = tx_context(10_000);
    {
        let mut view = ctx.kv_store_mut(&key);
        assert!(view.set(b"k", vec![1, 2]).is_ok());
        assert_eq!(view.get(b"k").unwrap(), Some(vec![1, 2]));
        assert!(view.delete(b"other").is_ok());
        assert_eq!(view.iterate(b"").unwrap().len(), 1);
    }
    assert_eq!(ctx.gas_consumed(), 2090 + 1009 + 1000 + 39);
    {
        let mut view = ctx.kv_store(&key);
        assert_eq!(view.get(b"k").unwrap(), Some(vec![1, 2]));
        assert_eq!(view.iterate(b"k").unwrap(), vec![(b"k".to_vec(), vec![1, 2])]);
    }
    assert_eq!(ctx.gas_consumed(), 2090 + 1009 + 1000 + 39 + 1009 + 39);
}

#[test]
fn metered_ranges_cost_what_they_yield() {
    let (mut ctx, key) = tx_context(100_000);
    for k in [b"a", b"b", b"c"] {
        assert!(ctx.set(&key, k, vec![1, 2, 3]).is_ok());
    }
    let before = ctx.gas_consumed();
    {
        let mut view = ctx.kv_store_mut(&key);
        assert_eq!(view.range(Some(b"b"), None).unwrap().len(), 2);
    }
    // Two entries of one byte of key and three of value each.
    assert_eq!(ctx.gas_consumed(), before + 2 * (30 + 3 * 4));
    {
        let mut view = ctx.kv_store(&key);
        assert!(view.range(Some(b"x"), None).unwrap().is_empty());
    }
    assert_eq!(ctx.gas_consumed(), before + 84);
}
