use gears_wasm::bytes::{bytes_eq, bytes_lt, copy_bytes, copy_from, join, starts_with};
use gears_wasm::store::byte_map::ByteMap;
use gears_wasm::store::multi::{Layer, MultiStore, StoreError, StoreKey};
use gears_wasm::store::view::{PrefixedView, Source};

fn store() -> (MultiStore, StoreKey, StoreKey) {
    let s = MultiStore::new(vec![b"bank".to_vec(), b"wasm".to_vec()]).unwrap();
    let bank = s.store_key(b"bank").unwrap();
    let wasm = s.store_key(b"wasm").unwrap();
    (s, bank, wasm)
}

#[test]
fn byte_order_is_lexicographic() {
    assert!(bytes_lt(b"", b"a"));
    assert!(bytes_lt(b"a", b"ab"));
    assert!(bytes_lt(b"ab", b"b"));
    assert!(bytes_lt(&[1, 255], &[2]));
    assert!(!bytes_lt(b"b", b"ab"));
    assert!(!bytes_lt(b"a", b"a"));
    assert!(!bytes_lt(b"", b""));
    assert!(bytes_eq(b"abc", b"abc"));
    assert!(!bytes_eq(b"abc", b"abd"));
    assert!(!bytes_eq(b"abc", b"ab"));
}

#[test]
fn byte_helpers() {
    assert!(starts_with(b"wasm/key", b"wasm"));
    assert!(starts_with(b"wasm", b""));
    assert!(starts_with(b"wasm", b"wasm"));
    assert!(!starts_with(b"was", b"wasm"));
    assert!(!starts_with(b"bank/key", b"wasm"));
    assert_eq!(join(b"ab", b"cd"), b"abcd".to_vec());
    assert_eq!(copy_from(b"abcd", 1), b"bcd".to_vec());
    assert_eq!(copy_from(b"abcd", 4), Vec::<u8>::new());
    assert_eq!(copy_bytes(b"abcd"), b"abcd".to_vec());
}

#[test]
fn byte_map_keeps_keys_in_order() {
    let mut m: ByteMap<Vec<u8>> = ByteMap::new();
    assert!(m.is_empty());
    m.insert(b"b".to_vec(), vec![2]);
    m.insert(b"a".to_vec(), vec![1]);
    m.insert(b"c".to_vec(), vec![3]);
    m.insert(b"ab".to_vec(), vec![4]);
    m.insert(b"a".to_vec(), vec![9]);
    assert_eq!(m.len(), 4);
    assert_eq!(m.get(b"a"), Some(&vec![9]));
    assert_eq!(m.get(b"zz"), None);
    assert_eq!(m.key_at(1), &b"ab".to_vec());
    assert_eq!(m.value_at(1), &vec![4]);
    assert_eq!(m.duplicate().into_entries().len(), 4);
    m.remove(b"b");
    m.remove(b"not there");
    let entries = m.into_entries();
    assert_eq!(
        entries,
        vec![
            (b"a".to_vec(), vec![9]),
            (b"ab".to_vec(), vec![4]),
            (b"c".to_vec(), vec![3]),
        ]
    );
}

#[test]
fn registry_refuses_overlapping_names() {
    assert!(matches!(
        MultiStore::new(vec![b"wasm".to_vec(), b"wasmx".to_vec()]),
        Err(StoreError::OverlappingNames)
    ));
    assert!(matches!(
        MultiStore::new(vec![b"bank".to_vec(), b"bank".to_vec()]),
        Err(StoreError::OverlappingNames)
    ));
    assert!(matches!(
        MultiStore::new(vec![b"bank".to_vec(), Vec::new()]),
        Err(StoreError::OverlappingNames)
    ));
    let s = MultiStore::new(vec![b"bank".to_vec(), b"wasm".to_vec()]).unwrap();
    assert_eq!(s.namespace_count(), 2);
    assert_eq!(s.height(), 0);
    assert_eq!(s.store_key(b"wasm").unwrap().index, 1);
    assert!(s.store_key(b"gov").is_none());
    assert!(s.is_registered(&StoreKey { index: 1 }));
    assert!(!s.is_registered(&StoreKey { index: 2 }));
}

#[test]
fn namespaces_are_isolated() {
    let (mut s, bank, wasm) = store();
    let mut view = s.namespace_mut(&bank);
    view.set(b"k", b"bank value".to_vec());
    assert_eq!(s.namespace(&bank).get(b"k"), Some(b"bank value".to_vec()));
    assert_eq!(s.namespace(&wasm).get(b"k"), None);
    let mut view = s.namespace_mut(&wasm);
    view.set(b"k", b"wasm value".to_vec());
    assert_eq!(s.namespace(&bank).get(b"k"), Some(b"bank value".to_vec()));
    assert_eq!(s.namespace(&wasm).get(b"k"), Some(b"wasm value".to_vec()));
    let mut view = s.namespace_mut(&bank);
    view.delete(b"k");
    assert_eq!(s.namespace(&bank).get(b"k"), None);
    assert!(!s.namespace(&bank).has(b"k"));
    assert_eq!(s.namespace(&wasm).get(b"k"), Some(b"wasm value".to_vec()));
    assert_eq!(
        s.namespace(&wasm).iterate(b""),
        vec![(b"k".to_vec(), b"wasm value".to_vec())]
    );
    assert!(s.namespace(&bank).iterate(b"").is_empty());
}

#[test]
fn iteration_is_ascending_and_by_prefix() {
    let (mut s, _bank, wasm) = store();
    let mut view = s.namespace_mut(&wasm);
    view.set(&[2, 1], vec![21]);
    view.set(&[1, 9], vec![19]);
    view.set(&[1], vec![1]);
    view.set(&[1, 0, 7], vec![107]);
    view.set(&[3], vec![3]);
    assert_eq!(
        view.iterate(&[1]),
        vec![(vec![1], vec![1]), (vec![1, 0, 7], vec![107]), (vec![1, 9], vec![19])]
    );
    assert_eq!(view.iterate(&[4]), Vec::<(Vec<u8>, Vec<u8>)>::new());
    assert_eq!(view.iterate(&[]).len(), 5);
    assert_eq!(view.get(&[1, 9]), Some(vec![19]));
    // A second pass yields the same.
    assert_eq!(view.iterate(&[1]), view.iterate(&[1]));
}

#[test]
fn commit_makes_all_pending_writes_one_height() {
    let (mut s, bank, wasm) = store();
    s.namespace_mut(&bank).set(b"a", vec![1]);
    s.namespace_mut(&wasm).set(b"b", vec![2]);
    assert!(s.namespace_at(1, &bank).is_none());
    assert_eq!(s.namespace_at(0, &bank).unwrap().get(b"a"), None);
    assert_eq!(s.commit().unwrap(), 1);
    assert_eq!(s.height(), 1);
    assert_eq!(s.namespace_at(1, &bank).unwrap().get(b"a"), Some(vec![1]));
    assert_eq!(s.namespace_at(1, &wasm).unwrap().get(b"b"), Some(vec![2]));
    assert_eq!(s.namespace_at(0, &wasm).unwrap().get(b"b"), None);
}

#[test]
fn snapshots_do_not_see_later_commits() {
    let (mut s, bank, _wasm) = store();
    s.namespace_mut(&bank).set(b"a", vec![1]);
    s.namespace_mut(&bank).set(b"gone", vec![7]);
    s.commit().unwrap();
    let at_one = s.namespace_at(1, &bank).unwrap().iterate(b"");
    s.namespace_mut(&bank).set(b"a", vec![2]);
    s.namespace_mut(&bank).delete(b"gone");
    s.namespace_mut(&bank).set(b"new", vec![3]);
    // Pending writes do not show at a committed height.
    assert_eq!(s.namespace_at(1, &bank).unwrap().iterate(b""), at_one);
    s.commit().unwrap();
    s.namespace_mut(&bank).set(b"a", vec![4]);
    s.commit().unwrap();
    assert_eq!(s.height(), 3);
    assert_eq!(s.namespace_at(1, &bank).unwrap().iterate(b""), at_one);
    assert_eq!(s.namespace_at(1, &bank).unwrap().get(b"a"), Some(vec![1]));
    assert_eq!(s.namespace_at(2, &bank).unwrap().get(b"a"), Some(vec![2]));
    assert_eq!(s.namespace_at(2, &bank).unwrap().get(b"gone"), None);
    assert_eq!(s.namespace_at(3, &bank).unwrap().get(b"a"), Some(vec![4]));
    assert!(s.namespace_at(4, &bank).is_none());
}

#[test]
fn transaction_layer_lies_over_the_block_layer() {
    let (mut s, bank, _wasm) = store();
    s.write(Layer::Block, b"bankx".to_vec(), Some(vec![1]));
    s.write(Layer::Tx, b"banky".to_vec(), Some(vec![2]));
    s.write(Layer::Tx, b"bankx".to_vec(), None);
    assert_eq!(s.read(Layer::Block, b"bankx"), Some(vec![1]));
    assert_eq!(s.read(Layer::Tx, b"bankx"), None);
    assert_eq!(s.read(Layer::Block, b"banky"), None);
    assert_eq!(s.read(Layer::Tx, b"banky"), Some(vec![2]));
    assert_eq!(
        s.scan(Layer::Tx, &bank, b"").into_entries(),
        vec![(b"y".to_vec(), vec![2])]
    );
    assert_eq!(
        s.scan(Layer::Block, &bank, b"").into_entries(),
        vec![(b"x".to_vec(), vec![1])]
    );
    let saved = s.tx_writes();
    s.discard_tx();
    assert_eq!(s.read(Layer::Tx, b"bankx"), Some(vec![1]));
    s.set_tx_writes(saved);
    assert_eq!(s.read(Layer::Tx, b"bankx"), None);
    s.promote_tx();
    assert_eq!(s.read(Layer::Block, b"bankx"), None);
    assert_eq!(s.read(Layer::Block, b"banky"), Some(vec![2]));
    s.commit().unwrap();
    assert_eq!(s.read_at(1, b"banky"), Some(vec![2]));
    assert_eq!(s.read_at(1, b"bankx"), None);
    assert_eq!(s.read_at(0, b"banky"), None);
    assert_eq!(
        s.scan_at(1, &bank, b"y").into_entries(),
        vec![(b"y".to_vec(), vec![2])]
    );
}

#[test]
fn views_read_their_source() {
    let (mut s, bank, _wasm) = store();
    s.namespace_mut(&bank).set(b"a", vec![1]);
    s.write(Layer::Tx, b"banka".to_vec(), Some(vec![2]));
    let committed = PrefixedView::new(&s, bank, Source::Committed(0));
    assert_eq!(committed.get(b"a"), None);
    let block = PrefixedView::new(&s, bank, Source::Pending(Layer::Block));
    assert_eq!(block.get(b"a"), Some(vec![1]));
    let tx = PrefixedView::new(&s, bank, Source::Pending(Layer::Tx));
    assert_eq!(tx.get(b"a"), Some(vec![2]));
    assert_eq!(s.name(&bank), &b"bank".to_vec());
}

#[test]
fn ranges_are_half_open() {
    let (mut s, bank, _wasm) = store();
    let mut view = s.namespace_mut(&bank);
    for k in [b"a", b"b", b"c", b"d"] {
        view.set(k, k.to_vec());
    }
    view.set(b"bb", vec![0]);
    let keys = |entries: Vec<(Vec<u8>, Vec<u8>)>| -> Vec<Vec<u8>> {
        entries.into_iter().map(|(k, _)| k).collect()
    };
    assert_eq!(
        keys(view.range(Some(b"b"), Some(b"d"))),
        vec![b"b".to_vec(), b"bb".to_vec(), b"c".to_vec()]
    );
    assert_eq!(keys(view.range(None, Some(b"b"))), vec![b"a".to_vec()]);
    assert_eq!(keys(view.range(Some(b"c"), None)), vec![b"c".to_vec(), b"d".to_vec()]);
    assert_eq!(keys(view.range(None, None)).len(), 5);
    assert!(view.range(Some(b"d"), Some(b"b")).is_empty());
    assert!(view.range(Some(b"b"), Some(b"b")).is_empty());
    assert_eq!(keys(view.range(Some(b"ba"), Some(b"bc"))), vec![b"bb".to_vec()]);
    assert_eq!(keys(s.namespace(&bank).range(Some(b"bb"), None)).len(), 3);
}
