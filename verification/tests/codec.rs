use gears_wasm::address::AccAddress;
use gears_wasm::codec::PackedCodec;
use gears_wasm::context::init::InitContext;
use gears_wasm::context::{QueryableContext, Timestamp};
use gears_wasm::engine::WasmEngine;
use gears_wasm::error::WasmError;
use gears_wasm::keeper::{Keeper, ParamsSubspaceKey};
use gears_wasm::message::{AccessConfig, AccessType};
use gears_wasm::params::{AccessConfigCodec, Params, ParamsError};
use gears_wasm::store::multi::MultiStore;
use gears_wasm::wasmvm::{Analysis, Checksum};

fn address(bytes: &[u8]) -> AccAddress {
    AccAddress::try_from_bytes(bytes.to_vec()).unwrap()
}

#[test]
fn an_access_configuration_is_packed_byte_by_byte() {
    let config = AccessConfig {
        permission: AccessType::AnyOfAddresses,
        addresses: vec![address(&[7, 8, 9]), address(&[]), address(&[1])],
    };
    assert_eq!(PackedCodec.encode(&config), vec![4, 3, 7, 8, 9, 0, 1, 1]);
    let everybody = AccessConfig { permission: AccessType::Everybody, addresses: vec![] };
    assert_eq!(PackedCodec.encode(&everybody), vec![3]);
    let nobody = AccessConfig { permission: AccessType::Nobody, addresses: vec![] };
    assert_eq!(PackedCodec.encode(&nobody), vec![1]);
    let unspecified = AccessConfig { permission: AccessType::Unspecified, addresses: vec![] };
    assert_eq!(PackedCodec.encode(&unspecified), vec![0]);
}

#[test]
fn what_is_packed_is_unpacked() {
    let long = vec![0xabu8; 255];
    let config = AccessConfig {
        permission: AccessType::AnyOfAddresses,
        addresses: vec![address(&long), address(&[5, 6]), address(&[])],
    };
    let bytes = PackedCodec.encode(&config);
    assert_eq!(bytes.len(), 1 + 256 + 3 + 1);
    assert_eq!(PackedCodec.decode(&bytes), Some(config));
    let decoded = PackedCodec.decode(&[4, 3, 7, 8, 9, 0, 1, 1]).unwrap();
    assert_eq!(decoded.permission, AccessType::AnyOfAddresses);
    assert_eq!(decoded.addresses, vec![address(&[7, 8, 9]), address(&[]), address(&[1])]);
    let plain = PackedCodec.decode(&[1]).unwrap();
    assert_eq!(plain.permission, AccessType::Nobody);
    assert!(plain.addresses.is_empty());
}

#[test]
fn what_was_not_packed_is_refused() {
    // Nothing at all.
    assert_eq!(PackedCodec.decode(&[]), None);
    // No number of an access type.
    assert_eq!(PackedCodec.decode(&[2]), None);
    assert_eq!(PackedCodec.decode(&[5, 0]), None);
    assert_eq!(PackedCodec.decode(&[255]), None);
    // A length that reaches beyond the end.
    assert_eq!(PackedCodec.decode(&[4, 3, 7, 8]), None);
    assert_eq!(PackedCodec.decode(&[4, 1, 7, 2, 8]), None);
    assert_eq!(PackedCodec.decode(&[3, 1]), None);
    // A length that reaches the end exactly.
    assert!(PackedCodec.decode(&[4, 1, 7, 1, 8]).is_some());
}

struct NoEngine;

impl WasmEngine for NoEngine {
    fn store_code(&self, _wasm: &[u8]) -> Result<Checksum, WasmError> {
        Err(WasmError::internal("no engine".to_string()))
    }

    fn analyze_code(&self, _checksum: &Checksum) -> Result<Analysis, WasmError> {
        Err(WasmError::internal("no engine".to_string()))
    }

    fn on_params_change(&self, _old: &Params, _new: &Params) -> Result<(), WasmError> {
        Ok(())
    }
}

#[test]
fn parameters_hold_the_upload_access_that_was_set() {
    let store = MultiStore::new(vec![b"params".to_vec(), b"wasm".to_vec()]).unwrap();
    let wasm_key = store.store_key(b"wasm").unwrap();
    let params_key = store.store_key(b"params").unwrap();
    let subspace = ParamsSubspaceKey { store: params_key, name: b"wasm".to_vec() };
    let keeper = Keeper::new(wasm_key, subspace, NoEngine, PackedCodec);
    let time = Timestamp { seconds: 0, nanos: 0 };
    let mut ctx = InitContext::new(store, "test-chain".to_string(), time);
    let params = Params {
        code_upload_access: AccessConfig {
            permission: AccessType::AnyOfAddresses,
            addresses: vec![address(&[1, 2, 3]), address(&[4])],
        },
        instantiate_default_permission: AccessType::Nobody,
        max_contract_size: 77,
        query_gas_limit: 5,
        memory_cache_size: 9,
    };
    assert!(keeper.params_keeper().try_set(&mut ctx, &params).is_ok());
    // The bytes under the key are those of the codec.
    let stored = ctx.get(&params_key, b"wasm/code_upload_access").unwrap();
    assert_eq!(stored, Some(vec![4, 3, 1, 2, 3, 1, 4]));
    // And the parameters are read as they were set.
    assert_eq!(keeper.params(&mut ctx).unwrap(), params);
    // Bytes that the codec does not read make the parameters malformed.
    let mut view = ctx.kv_store_mut(&params_key);
    view.set(b"wasm/code_upload_access", vec![4, 9]);
    assert!(matches!(keeper.params(&mut ctx), Err(ParamsError::Malformed)));
}
