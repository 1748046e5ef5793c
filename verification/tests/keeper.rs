use gears_wasm::address::AccAddress;
use gears_wasm::context::init::InitContext;
use gears_wasm::context::query::QueryContext;
use gears_wasm::context::tx::TxContext;
use gears_wasm::context::{Header, QueryableContext, Timestamp, WritableContext};
use gears_wasm::engine::WasmEngine;
use gears_wasm::error::{VmErrorKind, WasmError};
use gears_wasm::genesis::{export_genesis, init_genesis, GenesisState};
use gears_wasm::keeper::{
    code_info_key, code_key, contract_key, key_seq_code_id, next_sequence, sequence_key, Keeper,
    ParamsSubspaceKey, SequenceError,
};
use gears_wasm::message::{AccessConfig, AccessType};
use gears_wasm::params::{AccessConfigCodec, Params, ParamsError};
use gears_wasm::store::multi::{MultiStore, StoreKey};
use gears_wasm::wasmvm::{create_checksum, Analysis, Checksum};

struct TestEngine;

impl WasmEngine for TestEngine {
    fn store_code(&self, wasm: &[u8]) -> Result<Checksum, WasmError> {
        create_checksum(wasm).map_err(|e| WasmError::from_vm(VmErrorKind::Compile, e.message()))
    }

    fn analyze_code(&self, _checksum: &Checksum) -> Result<Analysis, WasmError> {
        Ok(Analysis::from_report(false, "instantiate,execute", "", None))
    }

    fn on_params_change(&self, _old: &Params, _new: &Params) -> Result<(), WasmError> {
        Ok(())
    }
}

/// Writes an access configuration as the number of its type and the
/// bech32 strings of its addresses, one per line.
struct LineCodec;

impl AccessConfigCodec for LineCodec {
    fn encode(&self, config: &AccessConfig) -> Vec<u8> {
        let mut text = config.permission.to_i32().to_string();
        for a in &config.addresses {
            text.push('\n');
            text.push_str(&a.to_bech32().unwrap());
        }
        text.into_bytes()
    }

    fn decode(&self, bytes: &[u8]) -> Option<AccessConfig> {
        let text = std::str::from_utf8(bytes).ok()?;
        let mut lines = text.split('\n');
        let permission = AccessType::from_i32(lines.next()?.parse().ok()?);
        let mut addresses = Vec::new();
        for line in lines {
            addresses.push(AccAddress::from_bech32(line).ok()?);
        }
        Some(AccessConfig { permission, addresses })
    }
}

fn sample_addr() -> AccAddress {
    AccAddress::from_bech32("cosmos1syavy2npfyt9tcncdtsdzf7kny9lh777pahuux").unwrap()
}

fn wasm(len: usize) -> Vec<u8> {
    let mut bytes = vec![0x00, 0x61, 0x73, 0x6d];
    bytes.resize(len, 7);
    bytes
}

fn header() -> Header {
    Header { chain_id: "test-chain".to_string(), height: 1, time: Timestamp { seconds: 0, nanos: 0 } }
}

fn setup() -> (MultiStore, StoreKey, Keeper<TestEngine, LineCodec>) {
    let store = MultiStore::new(vec![b"params".to_vec(), b"wasm".to_vec()]).unwrap();
    let wasm_key = store.store_key(b"wasm").unwrap();
    let params_key = store.store_key(b"params").unwrap();
    assert_ne!(wasm_key.index, params_key.index);
    let keeper = Keeper::new(
        wasm_key,
        ParamsSubspaceKey { store: params_key, name: b"wasm".to_vec() },
        TestEngine,
        LineCodec,
    );
    (store, wasm_key, keeper)
}

fn tx(store: MultiStore) -> TxContext {
    TxContext::new(store, 1, header(), 10_000_000, 0, [0u8; 32])
}

/// A transaction context over a store in which the parameters are set.
fn tx_with(keeper: &Keeper<TestEngine, LineCodec>, store: MultiStore, params: Params) -> TxContext {
    let time = Timestamp { seconds: 0, nanos: 0 };
    let mut ctx = InitContext::new(store, "test-chain".to_string(), time);
    assert!(keeper.params_keeper().try_set(&mut ctx, &params).is_ok());
    tx(ctx.into_store())
}

#[test]
fn keys_have_their_prefixes() {
    assert_eq!(code_key(1), vec![1, 0, 0, 0, 0, 0, 0, 0, 1]);
    assert_eq!(code_key(0x0102030405060708), vec![1, 1, 2, 3, 4, 5, 6, 7, 8]);
    assert_eq!(code_info_key(258), vec![4, 0, 0, 0, 0, 0, 0, 1, 2]);
    assert_eq!(sequence_key(b"lastCodeId"), b"\x03lastCodeId".to_vec());
    assert_eq!(key_seq_code_id(), b"lastCodeId".to_vec());
    let addr = AccAddress::try_from_bytes(vec![9, 8, 7]).unwrap();
    assert_eq!(contract_key(&addr), vec![2, 3, 9, 8, 7]);
}

#[test]
fn sequences_count_from_one() {
    let (store, key, _keeper) = setup();
    let mut ctx = tx(store);
    assert_eq!(next_sequence(&mut ctx, &key, b"seq").unwrap(), 1);
    assert_eq!(next_sequence(&mut ctx, &key, b"seq").unwrap(), 2);
    assert_eq!(next_sequence(&mut ctx, &key, b"other").unwrap(), 1);
    assert_eq!(ctx.get(&key, b"\x03seq").unwrap(), Some(vec![0, 0, 0, 0, 0, 0, 0, 2]));
    // What is stored with another length than eight bytes counts as 0.
    assert!(ctx.set(&key, b"\x03odd", vec![5]).is_ok());
    assert_eq!(next_sequence(&mut ctx, &key, b"odd").unwrap(), 1);
    assert!(ctx.set(&key, b"\x03full", vec![255; 8]).is_ok());
    assert!(matches!(next_sequence(&mut ctx, &key, b"full"), Err(SequenceError::Exhausted)));
    assert_eq!(ctx.get(&key, b"\x03full").unwrap(), Some(vec![255; 8]));
}

#[test]
fn a_sequence_that_cannot_be_paid_for_stays() {
    let (store, key, _keeper) = setup();
    // The read of a missing sequence costs 1012, the write 2360.
    let mut ctx = TxContext::new(store, 1, header(), 1011, 0, [0u8; 32]);
    assert!(matches!(next_sequence(&mut ctx, &key, b"seq"), Err(SequenceError::OutOfGas(_))));
    assert_eq!(ctx.gas_consumed(), 0);
    let (store, _) = ctx.abort();
    let mut ctx = TxContext::new(store, 1, header(), 3371, 0, [0u8; 32]);
    assert!(matches!(next_sequence(&mut ctx, &key, b"seq"), Err(SequenceError::OutOfGas(_))));
    assert_eq!(ctx.gas_consumed(), 1012);
    let (store, _) = ctx.abort();
    let mut ctx = TxContext::new(store, 1, header(), 3372, 0, [0u8; 32]);
    assert_eq!(next_sequence(&mut ctx, &key, b"seq").unwrap(), 1);
    assert_eq!(ctx.gas_remaining(), 0);
}

#[test]
fn params_are_not_made_up() {
    let (store, _key, keeper) = setup();
    let params_key = StoreKey { index: 0 };
    let mut ctx = tx(store);
    assert!(matches!(keeper.params(&mut ctx), Err(ParamsError::Missing)));
    assert!(matches!(keeper.set_params(&mut ctx, Params::default()), Err(ParamsError::Missing)));
    assert!(ctx.iterate(&params_key, b"").unwrap().is_empty());
    assert!(keeper.params_keeper().try_set(&mut ctx, &Params::default()).is_ok());
    assert_eq!(keeper.params(&mut ctx).unwrap().max_contract_size, 1_000_000);
    assert!(ctx.delete(&params_key, b"wasm/query_gas_limit").is_ok());
    assert!(matches!(keeper.params(&mut ctx), Err(ParamsError::Missing)));
    assert!(ctx.set(&params_key, b"wasm/query_gas_limit", b"much".to_vec()).is_ok());
    assert!(matches!(keeper.params(&mut ctx), Err(ParamsError::Malformed)));
    assert!(ctx.set(&params_key, b"wasm/query_gas_limit", b"5".to_vec()).is_ok());
    assert_eq!(keeper.params(&mut ctx).unwrap().query_gas_limit, 5);
    // What the codec does not read is malformed too.
    assert!(ctx.set(&params_key, b"wasm/code_upload_access", b"x".to_vec()).is_ok());
    assert!(matches!(keeper.params(&mut ctx), Err(ParamsError::Malformed)));
    let result = keeper.store_code(&mut ctx, &sample_addr(), &wasm(10), None);
    assert!(matches!(result, Err(WasmError::Internal { .. })));
}

#[test]
fn params_cannot_be_read_without_gas() {
    let (store, _key, keeper) = setup();
    let ctx = tx_with(&keeper, store, Params::default());
    let (store, _) = ctx.abort();
    let mut ctx = TxContext::new(store, 1, header(), 3000, 0, [0u8; 32]);
    assert!(matches!(keeper.params(&mut ctx), Err(ParamsError::OutOfGas(_))));
    // Two reads were paid for, the third was not.
    assert!(ctx.gas_consumed() > 2000 && ctx.gas_consumed() <= 3000);
}

#[test]
fn params_are_read_as_they_were_set() {
    let (store, _key, keeper) = setup();
    let mut ctx = tx_with(&keeper, store, Params::default());
    let params = Params {
        code_upload_access: AccessConfig {
            permission: AccessType::AnyOfAddresses,
            addresses: vec![sample_addr()],
        },
        instantiate_default_permission: AccessType::Nobody,
        max_contract_size: 1000,
        query_gas_limit: 77,
        memory_cache_size: 12,
    };
    assert!(keeper.set_params(&mut ctx, params).is_ok());
    let p = keeper.params(&mut ctx).unwrap();
    assert_eq!(p.max_contract_size, 1000);
    assert_eq!(p.query_gas_limit, 77);
    assert_eq!(p.memory_cache_size, 12);
    assert_eq!(p.instantiate_default_permission, AccessType::Nobody);
    assert_eq!(p.code_upload_access.permission, AccessType::AnyOfAddresses);
    assert!(p.code_upload_access.addresses[0].same_as(&sample_addr()));
    let params_key = StoreKey { index: 0 };
    assert_eq!(ctx.get(&params_key, b"wasm/max_contract_size").unwrap(), Some(b"1000".to_vec()));
    assert_eq!(
        ctx.get(&params_key, b"wasm/instantiate_default_permission").unwrap(),
        Some(b"1".to_vec())
    );
    assert!(keeper.params_keeper().validate(b"max_contract_size", b"12"));
    assert!(!keeper.params_keeper().validate(b"max_contract_size", b"twelve"));
    assert!(keeper.params_keeper().validate(b"code_upload_access", b"3"));
    assert!(!keeper.params_keeper().validate(b"code_upload_access", b"x"));
    assert!(!keeper.params_keeper().validate(b"unknown", b"12"));
}

#[test]
fn storing_code_respects_the_size_limit() {
    let (store, key, keeper) = setup();
    let mut ctx = tx_with(&keeper, store, Params::default());
    let params = Params { max_contract_size: 1000, ..Params::default() };
    assert!(keeper.set_params(&mut ctx, params).is_ok());
    // The first code gets the id 0.
    assert_eq!(keeper.store_code(&mut ctx, &sample_addr(), &wasm(10), None).unwrap(), 0);
    let before = ctx.iterate(&key, b"").unwrap();
    assert_eq!(before.len(), 3);
    assert_eq!(ctx.get(&key, &code_key(0)).unwrap(), Some(wasm(10)));
    let result = keeper.store_code(&mut ctx, &sample_addr(), &wasm(2000), None);
    assert!(matches!(result, Err(WasmError::InvalidRequest { .. })));
    assert_eq!(ctx.iterate(&key, b"").unwrap(), before);
    // A code of exactly the largest size is taken.
    assert_eq!(keeper.store_code(&mut ctx, &sample_addr(), &wasm(1000), None).unwrap(), 1);
    assert!(keeper.store_code(&mut ctx, &sample_addr(), &wasm(1001), None).is_err());
    assert_eq!(ctx.get(&key, b"\x03lastCodeId").unwrap(), Some(vec![0, 0, 0, 0, 0, 0, 0, 2]));
}

#[test]
fn an_engine_that_refuses_leaves_no_write() {
    let (store, key, keeper) = setup();
    let mut ctx = tx_with(&keeper, store, Params::default());
    let result = keeper.store_code(&mut ctx, &sample_addr(), b"not wasm", None);
    assert!(matches!(result, Err(WasmError::CompileErr { code_id: 0, .. })));
    assert!(ctx.iterate(&key, b"").unwrap().is_empty());
}

#[test]
fn storing_code_without_gas_fails() {
    let (store, key, keeper) = setup();
    let (store, _) = tx_with(&keeper, store, Params::default()).abort();
    let mut ctx = TxContext::new(store, 1, header(), 100, 0, [0u8; 32]);
    let result = keeper.store_code(&mut ctx, &sample_addr(), &wasm(10), None);
    assert!(matches!(result, Err(WasmError::Internal { .. })));
    assert_eq!(ctx.gas_consumed(), 0);
    let (store, _) = ctx.abort();
    assert!(store.namespace(&key).iterate(b"").is_empty());
}

#[test]
fn code_info_names_creator_and_permission() {
    let config = AccessConfig { permission: AccessType::Everybody, addresses: vec![] };
    let sum = [1u8; 32];
    let info = Keeper::<TestEngine, LineCodec>::code_info(&sum, &sample_addr(), &config).unwrap();
    // Field 1: the checksum; field 2: the creator; field 5: the permission.
    let mut expected = vec![0x0a, 32];
    expected.extend_from_slice(&sum);
    expected.push(0x12);
    expected.push(45);
    expected.extend_from_slice(b"cosmos1syavy2npfyt9tcncdtsdzf7kny9lh777pahuux");
    expected.extend_from_slice(&[0x2a, 2, 0x08, 3]);
    assert_eq!(info, expected);
}

#[test]
fn genesis_round_trip() {
    let (store, key, keeper) = setup();
    let time = Timestamp { seconds: 0, nanos: 0 };
    let mut ctx = InitContext::new(store, "test-chain".to_string(), time);
    let genesis = GenesisState { codes: vec![wasm(10), wasm(4), wasm(300)], next_code_id: 3 };
    assert!(init_genesis(&mut ctx, &keeper, genesis).is_ok());
    assert_eq!(ctx.get(&key, &code_key(1)).unwrap(), Some(wasm(4)));
    let mut store = ctx.into_store();
    store.commit().unwrap();
    let query = QueryContext::new(&store, 1).unwrap();
    let exported = export_genesis(&query, &keeper);
    assert_eq!(exported.codes, vec![wasm(10), wasm(4), wasm(300)]);
    assert_eq!(exported.next_code_id, 3);
    // Before the commit there was nothing.
    let empty = export_genesis(&QueryContext::new(&store, 0).unwrap(), &keeper);
    assert!(empty.codes.is_empty());
    assert_eq!(empty.next_code_id, 0);
    let default = GenesisState::default();
    assert!(default.codes.is_empty());
    assert_eq!(default.next_code_id, 0);
}

#[test]
fn genesis_with_a_bad_code_fails() {
    let (store, _key, keeper) = setup();
    let time = Timestamp { seconds: 0, nanos: 0 };
    let mut ctx = InitContext::new(store, "test-chain".to_string(), time);
    let genesis = GenesisState { codes: vec![wasm(10), b"bad".to_vec()], next_code_id: 2 };
    assert!(init_genesis(&mut ctx, &keeper, genesis).is_err());
}

#[test]
fn genesis_keeps_the_order_of_many_codes() {
    let (store, _key, keeper) = setup();
    let time = Timestamp { seconds: 0, nanos: 0 };
    let mut ctx = InitContext::new(store, "test-chain".to_string(), time);
    let codes: Vec<Vec<u8>> = (0..300).map(|i| wasm(4 + (i * 7) % 13)).collect();
    let genesis = GenesisState { codes: codes.clone(), next_code_id: 300 };
    assert!(init_genesis(&mut ctx, &keeper, genesis).is_ok());
    let mut store = ctx.into_store();
    store.commit().unwrap();
    let exported = export_genesis(&QueryContext::new(&store, 1).unwrap(), &keeper);
    assert_eq!(exported.codes, codes);
    assert_eq!(exported.next_code_id, 300);
}

#[test]
fn code_is_checked_against_the_limit_that_is_given() {
    let (store, key, keeper) = setup();
    let mut ctx = tx(store);
    let sender = sample_addr();
    let result =
        keeper.store_checked(&mut ctx, 9, AccessType::Nobody, &sender, &wasm(10), None);
    assert!(matches!(result, Err(WasmError::InvalidRequest { .. })));
    assert_eq!(ctx.gas_consumed(), 0);
    assert!(ctx.iterate(&key, b"").unwrap().is_empty());
    let result =
        keeper.store_checked(&mut ctx, 10, AccessType::Nobody, &sender, &wasm(10), None);
    assert_eq!(result.unwrap(), 0);
    // The code info names the permission that was the default.
    let nobody = AccessConfig { permission: AccessType::Nobody, addresses: vec![] };
    let sum = create_checksum(&wasm(10)).unwrap();
    let info = Keeper::<TestEngine, LineCodec>::code_info(&sum, &sender, &nobody).unwrap();
    assert_eq!(ctx.get(&key, &code_info_key(0)).unwrap(), Some(info));
}

#[test]
fn code_is_recorded_under_the_next_id() {
    let (store, key, keeper) = setup();
    let mut ctx = tx(store);
    let sender = sample_addr();
    let listed = AccessConfig { permission: AccessType::AnyOfAddresses, addresses: vec![sender.clone()] };
    let first = keeper.record_code(
        &mut ctx,
        AccessType::Everybody,
        &[1u8; 32],
        &sender,
        b"one",
        Some(listed.clone()),
    );
    assert_eq!(first.unwrap(), 0);
    let second =
        keeper.record_code(&mut ctx, AccessType::Everybody, &[2u8; 32], &sender, b"two", None);
    assert_eq!(second.unwrap(), 1);
    assert_eq!(ctx.get(&key, &code_key(0)).unwrap(), Some(b"one".to_vec()));
    assert_eq!(ctx.get(&key, &code_key(1)).unwrap(), Some(b"two".to_vec()));
    let info = Keeper::<TestEngine, LineCodec>::code_info(&[1u8; 32], &sender, &listed).unwrap();
    assert_eq!(ctx.get(&key, &code_info_key(0)).unwrap(), Some(info));
    assert_eq!(ctx.get(&key, b"\x03lastCodeId").unwrap(), Some(vec![0, 0, 0, 0, 0, 0, 0, 2]));
    // With gas for the sequence alone, the sequence moves and no code is written.
    let (store, _, _) = ctx.finish();
    let mut ctx = TxContext::new(store, 1, header(), 4000, 0, [0u8; 32]);
    let third =
        keeper.record_code(&mut ctx, AccessType::Everybody, &[3u8; 32], &sender, b"three", None);
    assert!(matches!(third, Err(WasmError::Internal { .. })));
    assert_eq!(ctx.get(&key, &code_key(2)).unwrap_or(None), None);
}

#[test]
fn the_parameter_keeper_by_itself() {
    let (store, _key, keeper) = setup();
    let params_key = StoreKey { index: 0 };
    let params = keeper.params_keeper();
    assert_eq!(params.psk().name, b"wasm".to_vec());
    assert_eq!(params.psk().param_key("max_contract_size"), b"wasm/max_contract_size".to_vec());
    assert_eq!(params.psk().param_keys().len(), 5);
    assert_eq!(params.psk().param_keys()[0], b"wasm/code_upload_access".to_vec());
    let mut ctx = tx(store);
    assert!(matches!(params.try_get(&mut ctx), Err(ParamsError::Missing)));
    assert!(params.set_raw(&mut ctx, &Params::default(), b"3".to_vec()).is_ok());
    assert_eq!(ctx.get(&params_key, b"wasm/code_upload_access").unwrap(), Some(b"3".to_vec()));
    let read = params.try_get(&mut ctx).unwrap();
    assert_eq!(read.code_upload_access.permission, AccessType::Everybody);
    assert_eq!(read, Params::default());
    let raw = Params::default().to_raw(b"1".to_vec());
    assert_eq!(params.decode(&raw).unwrap().code_upload_access.permission, AccessType::Nobody);
    assert!(matches!(
        Params::try_from_raw(&raw, None),
        Err(ParamsError::Malformed)
    ));
    let mut partial = Params::default().to_raw(b"1".to_vec());
    partial.memory_cache_size = None;
    assert!(matches!(
        Params::try_from_raw(&partial, Some(AccessConfig::default())),
        Err(ParamsError::Missing)
    ));
    params.on_update(keeper.engine(), &Params::default(), &read);
}

/// A store with a namespace beside those of the module, and a keeper.
fn setup_beside() -> (MultiStore, StoreKey, StoreKey, StoreKey, Keeper<TestEngine, LineCodec>) {
    let names = vec![b"bank".to_vec(), b"params".to_vec(), b"wasm".to_vec()];
    let store = MultiStore::new(names).unwrap();
    let bank_key = store.store_key(b"bank").unwrap();
    let params_key = store.store_key(b"params").unwrap();
    let wasm_key = store.store_key(b"wasm").unwrap();
    let keeper = Keeper::new(
        wasm_key,
        ParamsSubspaceKey { store: params_key, name: b"wasm".to_vec() },
        TestEngine,
        LineCodec,
    );
    (store, bank_key, params_key, wasm_key, keeper)
}

#[test]
fn genesis_without_codes_is_applied() {
    let (store, bank_key, params_key, key, keeper) = setup_beside();
    let time = Timestamp { seconds: 0, nanos: 0 };
    let mut ctx = InitContext::new(store, "test-chain".to_string(), time);
    assert!(ctx.set(&bank_key, b"balance", vec![9]).is_ok());
    assert!(ctx.set(&params_key, b"other/key", vec![1]).is_ok());
    let genesis = GenesisState { codes: vec![], next_code_id: 5 };
    assert!(init_genesis(&mut ctx, &keeper, genesis).is_ok());
    // The parameters are there with their defaults, beside what was there.
    let params = ctx.iterate(&params_key, b"").unwrap();
    let expected: Vec<(Vec<u8>, Vec<u8>)> = vec![
        (b"other/key".to_vec(), vec![1]),
        (b"wasm/code_upload_access".to_vec(), b"3".to_vec()),
        (b"wasm/instantiate_default_permission".to_vec(), b"3".to_vec()),
        (b"wasm/max_contract_size".to_vec(), b"1000000".to_vec()),
        (b"wasm/memory_cache_size".to_vec(), b"40".to_vec()),
        (b"wasm/query_gas_limit".to_vec(), b"3000000".to_vec()),
    ];
    assert_eq!(params, expected);
    // The module holds the sequence and nothing else.
    let held = ctx.iterate(&key, b"").unwrap();
    let sequence = sequence_key(&key_seq_code_id());
    assert_eq!(held, vec![(sequence, 5u64.to_be_bytes().to_vec())]);
    // What is beside the module is as it was.
    assert_eq!(ctx.iterate(&bank_key, b"").unwrap(), vec![(b"balance".to_vec(), vec![9])]);
}

#[test]
fn genesis_stops_at_the_code_that_is_refused() {
    let (store, bank_key, _params_key, key, keeper) = setup_beside();
    let time = Timestamp { seconds: 0, nanos: 0 };
    let mut ctx = InitContext::new(store, "test-chain".to_string(), time);
    assert!(ctx.set(&bank_key, b"balance", vec![9]).is_ok());
    let codes = vec![wasm(10), wasm(6), b"bad".to_vec(), wasm(4)];
    let genesis = GenesisState { codes, next_code_id: 9 };
    assert!(init_genesis(&mut ctx, &keeper, genesis).is_err());
    // The codes before the one that was refused are stored.
    assert_eq!(ctx.get(&key, &code_key(0)).unwrap(), Some(wasm(10)));
    assert_eq!(ctx.get(&key, &code_key(1)).unwrap(), Some(wasm(6)));
    assert!(ctx.get(&key, &code_info_key(1)).unwrap().is_some());
    // Nothing of it and of what follows is, and the sequence stands at it.
    assert_eq!(ctx.get(&key, &code_key(2)).unwrap(), None);
    assert_eq!(ctx.get(&key, &code_info_key(2)).unwrap(), None);
    assert_eq!(ctx.get(&key, &code_key(3)).unwrap(), None);
    let sequence = sequence_key(&key_seq_code_id());
    assert_eq!(ctx.get(&key, &sequence).unwrap(), Some(2u64.to_be_bytes().to_vec()));
    // The parameters were created all the same, and the rest is untouched.
    assert_eq!(keeper.params(&mut ctx).unwrap().max_contract_size, 1_000_000);
    assert_eq!(ctx.iterate(&bank_key, b"").unwrap(), vec![(b"balance".to_vec(), vec![9])]);
}

#[test]
fn genesis_refuses_a_code_that_is_too_large() {
    let (store, _key, keeper) = setup();
    let time = Timestamp { seconds: 0, nanos: 0 };
    let mut ctx = InitContext::new(store, "test-chain".to_string(), time);
    let genesis = GenesisState { codes: vec![wasm(1_000_001)], next_code_id: 1 };
    let result = init_genesis(&mut ctx, &keeper, genesis);
    assert!(matches!(result, Err(WasmError::InvalidRequest { .. })));
}

/// An engine that can be told from another.
struct MarkedEngine {
    mark: u8,
}

impl WasmEngine for MarkedEngine {
    fn store_code(&self, wasm: &[u8]) -> Result<Checksum, WasmError> {
        TestEngine.store_code(wasm)
    }

    fn analyze_code(&self, checksum: &Checksum) -> Result<Analysis, WasmError> {
        TestEngine.analyze_code(checksum)
    }

    fn on_params_change(&self, old: &Params, new: &Params) -> Result<(), WasmError> {
        TestEngine.on_params_change(old, new)
    }
}

#[test]
fn the_keeper_hands_out_its_engine() {
    let params = ParamsSubspaceKey { store: StoreKey { index: 0 }, name: b"wasm".to_vec() };
    let keeper = Keeper::new(StoreKey { index: 1 }, params, MarkedEngine { mark: 7 }, LineCodec);
    assert_eq!(keeper.engine().mark, 7);
    let params = ParamsSubspaceKey { store: StoreKey { index: 0 }, name: b"wasm".to_vec() };
    let keeper = Keeper::new(StoreKey { index: 1 }, params, MarkedEngine { mark: 8 }, LineCodec);
    assert_eq!(keeper.engine().mark, 8);
}

fn reason_of(result: Result<u64, WasmError>) -> String {
    match result {
        Err(WasmError::Internal { reason }) => reason,
        _ => panic!("an internal error was expected"),
    }
}

#[test]
fn internal_failures_say_why() {
    let (store, _key, keeper) = setup();
    let params_key = StoreKey { index: 0 };
    let mut ctx = tx(store);
    let result = keeper.store_code(&mut ctx, &sample_addr(), &wasm(10), None);
    assert_eq!(reason_of(result), "a parameter is not set");
    assert!(keeper.params_keeper().try_set(&mut ctx, &Params::default()).is_ok());
    assert!(ctx.set(&params_key, b"wasm/max_contract_size", b"large".to_vec()).is_ok());
    let result = keeper.store_code(&mut ctx, &sample_addr(), &wasm(10), None);
    assert_eq!(reason_of(result), "a parameter cannot be read");
    assert!(ctx.set(&params_key, b"wasm/max_contract_size", b"1000".to_vec()).is_ok());
    let (store, _, _) = ctx.finish();
    // Too little gas to read the parameters.
    let mut ctx = TxContext::new(store, 1, header(), 100, 0, [0u8; 32]);
    let result = keeper.store_code(&mut ctx, &sample_addr(), &wasm(10), None);
    let reason = reason_of(result);
    assert!(reason.starts_with("out of gas: "));
    assert!(reason.len() > "out of gas: ".len());
    let (store, _) = ctx.abort();
    // Enough gas to read them and to move the sequence, too little to
    // write the code.
    let mut ctx = TxContext::new(store, 1, header(), 9000, 0, [0u8; 32]);
    let result = keeper.store_code(&mut ctx, &sample_addr(), &wasm(10), None);
    assert!(reason_of(result).starts_with("out of gas: "));
}

/// An engine that refuses everything, always with the same words.
struct Refusing;

impl WasmEngine for Refusing {
    fn store_code(&self, _wasm: &[u8]) -> Result<Checksum, WasmError> {
        Err(WasmError::Unauthorized { action: "store code" })
    }

    fn analyze_code(&self, _checksum: &Checksum) -> Result<Analysis, WasmError> {
        Err(WasmError::internal("nothing is stored".to_string()))
    }

    fn on_params_change(&self, _old: &Params, _new: &Params) -> Result<(), WasmError> {
        Ok(())
    }
}

#[test]
fn the_refusal_of_the_engine_is_handed_on() {
    let store = MultiStore::new(vec![b"params".to_vec(), b"wasm".to_vec()]).unwrap();
    let key = store.store_key(b"wasm").unwrap();
    let params_key = store.store_key(b"params").unwrap();
    let subspace = ParamsSubspaceKey { store: params_key, name: b"wasm".to_vec() };
    let keeper = Keeper::new(key, subspace, Refusing, LineCodec);
    let mut ctx = tx(store);
    let sender = sample_addr();
    let result = keeper.store_checked(&mut ctx, 10, AccessType::Everybody, &sender, &wasm(10), None);
    assert!(matches!(result, Err(WasmError::Unauthorized { action: "store code" })));
    assert!(ctx.iterate(&key, b"").unwrap().is_empty());
    // Code that is too large does not reach the engine.
    let result = keeper.store_checked(&mut ctx, 10, AccessType::Everybody, &sender, &wasm(11), None);
    match result {
        Err(WasmError::InvalidRequest { reason }) => assert_eq!(reason, "wasm bytecode too large"),
        _ => panic!("an invalid request was expected"),
    }
    // Nor does any code where the parameters cannot be read.
    let result = keeper.store_code(&mut ctx, &sender, &wasm(10), None);
    assert_eq!(reason_of(result), "a parameter is not set");
}

#[test]
fn every_address_has_a_bech32_string() {
    let empty = AccAddress::try_from_bytes(vec![]).unwrap();
    assert!(empty.to_bech32().unwrap().starts_with("cosmos1"));
    let longest = AccAddress::try_from_bytes(vec![0xff; 255]).unwrap();
    let text = longest.to_bech32().unwrap();
    assert_eq!(text.len(), 6 + 1 + 408 + 6);
    assert_eq!(AccAddress::from_bech32(&text).unwrap(), longest);
    let config = AccessConfig { permission: AccessType::AnyOfAddresses, addresses: vec![longest] };
    let (number, texts) = config.to_parts().unwrap();
    assert_eq!(number, 4);
    assert_eq!(texts, vec![text]);
}

#[test]
fn no_code_is_stored_when_the_ids_are_used_up() {
    let (store, key, keeper) = setup();
    let mut ctx = tx_with(&keeper, store, Params::default());
    let sequence = sequence_key(&key_seq_code_id());
    assert!(ctx.set(&key, &sequence, u64::MAX.to_be_bytes().to_vec()).is_ok());
    let before = ctx.iterate(&key, b"").unwrap();
    let result = keeper.store_code(&mut ctx, &sample_addr(), &wasm(10), None);
    assert_eq!(reason_of(result), "code id sequence exhausted");
    assert_eq!(ctx.iterate(&key, b"").unwrap(), before);
}
