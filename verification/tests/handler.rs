use gears_wasm::abci_handler::{WasmABCIHandler, WasmNodeQueryRequest, WasmNodeQueryResponse};
use gears_wasm::address::AccAddress;
use gears_wasm::baseapp::{run_msg, run_tx, ABCIHandler, RequestQuery, TxWithRaw};
use gears_wasm::coin::{UnsignedCoin, UnsignedCoins};
use gears_wasm::context::init::InitContext;
use gears_wasm::context::query::QueryContext;
use gears_wasm::context::tx::TxContext;
use gears_wasm::context::{
    Event, Header, QueryableContext, Timestamp, TransactionalContext, WritableContext,
};
use gears_wasm::engine::WasmEngine;
use gears_wasm::error::{QueryError, TxError, VmErrorKind, WasmError};
use gears_wasm::genesis::GenesisState;
use gears_wasm::keeper::{code_key, contract_key, Keeper, ParamsSubspaceKey};
use gears_wasm::message::{AccessConfig, AccessType, Message, MsgExecuteContract, MsgStoreCode};
use gears_wasm::pagination::{PaginationKind, PaginationRequest};
use gears_wasm::params::{AccessConfigCodec, Params};
use gears_wasm::store::multi::{MultiStore, StoreKey};
use gears_wasm::types::query::{
    QueryCode, QueryCodes, QueryContractInfo, QueryContractsByCode, QueryRawContractState,
    WasmQuery,
};
use gears_wasm::wasmvm::{create_checksum, Analysis, Checksum};

struct TestEngine;

impl WasmEngine for TestEngine {
    fn store_code(&self, wasm: &[u8]) -> Result<Checksum, WasmError> {
        create_checksum(wasm).map_err(|e| WasmError::from_vm(VmErrorKind::Compile, e.message()))
    }

    fn analyze_code(&self, _checksum: &Checksum) -> Result<Analysis, WasmError> {
        Ok(Analysis::from_report(false, "", "", None))
    }

    fn on_params_change(&self, _old: &Params, _new: &Params) -> Result<(), WasmError> {
        Ok(())
    }
}

/// Writes an access configuration as the number of its type alone.
struct NoCodec;

impl AccessConfigCodec for NoCodec {
    fn encode(&self, config: &AccessConfig) -> Vec<u8> {
        vec![config.permission.to_i32() as u8]
    }

    fn decode(&self, bytes: &[u8]) -> Option<AccessConfig> {
        let permission = AccessType::from_i32(*bytes.first()? as i32);
        Some(AccessConfig { permission, addresses: Vec::new() })
    }
}

fn sample_addr() -> AccAddress {
    AccAddress::from_bech32("cosmos1syavy2npfyt9tcncdtsdzf7kny9lh777pahuux").unwrap()
}

fn wasm(len: usize) -> Vec<u8> {
    let mut bytes = vec![0x00, 0x61, 0x73, 0x6d];
    bytes.resize(len, 7);
    bytes
}

fn header() -> Header {
    Header { chain_id: "test-chain".to_string(), height: 1, time: Timestamp { seconds: 0, nanos: 0 } }
}

fn setup() -> (MultiStore, StoreKey, WasmABCIHandler<TestEngine, NoCodec>) {
    let store = MultiStore::new(vec![b"params".to_vec(), b"wasm".to_vec()]).unwrap();
    let wasm_key = store.store_key(b"wasm").unwrap();
    let params_key = store.store_key(b"params").unwrap();
    assert_ne!(wasm_key.index, params_key.index);
    let keeper = Keeper::new(
        wasm_key,
        ParamsSubspaceKey { store: params_key, name: b"wasm".to_vec() },
        TestEngine,
        NoCodec,
    );
    let handler = WasmABCIHandler::new(keeper, "wasm");
    // Genesis creates the parameters.
    let time = Timestamp { seconds: 0, nanos: 0 };
    let mut ctx = InitContext::new(store, "test-chain".to_string(), time);
    assert!(handler.init_genesis(&mut ctx, GenesisState::default()).is_ok());
    (ctx.into_store(), wasm_key, handler)
}

fn store_code(bytes: Vec<u8>) -> Message {
    Message::StoreCode(MsgStoreCode {
        sender: sample_addr(),
        wasm_byte_code: bytes,
        instantiate_permission: None,
    })
}

fn execute() -> Message {
    Message::ExecuteContract(MsgExecuteContract {
        sender: sample_addr(),
        contract: sample_addr(),
        msg: b"{}".to_vec(),
        funds: UnsignedCoins::new(vec![UnsignedCoin::from_str("1uatom").unwrap()]).unwrap(),
    })
}

fn transaction(messages: Vec<Message>) -> TxWithRaw<Message> {
    TxWithRaw { messages, gas_limit: 10_000_000, raw: Vec::new() }
}

#[test]
fn a_failing_message_is_rolled_back() {
    let (store, key, handler) = setup();
    let mut ctx = TxContext::new(store, 1, header(), 10_000_000, 0, [0u8; 32]);
    assert!(ctx.set(&key, b"before", vec![1]).is_ok());
    ctx.push_event(Event { kind: "before".to_string(), attributes: vec![] });
    let writes = ctx.iterate(&key, b"").unwrap();
    // Too large for the default limit of 1,000,000 bytes.
    let result = run_msg(&handler, &mut ctx, &store_code(wasm(1_000_001)));
    let error: TxError = result.unwrap_err();
    assert_eq!(error.response_code(), 3);
    assert_eq!(error.response_codespace(), "wasm");
    assert_eq!(error.response_message(), "invalid request: wasm bytecode too large");
    assert_eq!(ctx.iterate(&key, b"").unwrap(), writes);
    assert_eq!(ctx.events_drain().len(), 1);
    // A message that succeeds keeps its writes.
    assert!(run_msg(&handler, &mut ctx, &store_code(wasm(8))).is_ok());
    assert_eq!(ctx.get(&key, &code_key(0)).unwrap(), Some(wasm(8)));
}

#[test]
fn a_failed_transaction_leaves_no_write() {
    let (store, key, handler) = setup();
    // The first message writes the code with the id 0, the second fails.
    let tx = transaction(vec![store_code(wasm(8)), store_code(b"bad".to_vec())]);
    let (mut store, response) = run_tx(&handler, store, 1, header(), 0, [1u8; 32], &tx);
    assert_ne!(response.code, 0);
    assert_eq!(response.code, 1);
    assert_eq!(response.codespace, "wasm");
    assert!(response.events.is_empty());
    assert_eq!(response.gas_wanted, 10_000_000);
    assert!(response.gas_used > 0 && response.gas_used <= 10_000_000);
    assert_eq!(store.namespace(&key).get(&code_key(0)), None);
    store.commit().unwrap();
    assert_eq!(store.namespace_at(1, &key).unwrap().get(&code_key(0)), None);
    // All that the namespace holds is the sequence of code ids that genesis set.
    assert_eq!(
        store.namespace_at(1, &key).unwrap().iterate(b""),
        vec![(b"\x03lastCodeId".to_vec(), vec![0; 8])]
    );
}

#[test]
fn a_transaction_that_succeeds_is_committed_with_the_block() {
    let (store, key, handler) = setup();
    let tx = transaction(vec![store_code(wasm(8)), store_code(wasm(9))]);
    let (store, response) = run_tx(&handler, store, 1, header(), 0, [1u8; 32], &tx);
    assert_eq!(response.code, 0);
    assert_eq!(response.log, "");
    assert_eq!(store.namespace(&key).get(&code_key(1)), Some(wasm(9)));
    // A later transaction that fails does not undo it.
    let bad = transaction(vec![execute()]);
    let (mut store, response) = run_tx(&handler, store, 1, header(), 1, [2u8; 32], &bad);
    assert_eq!(response.code, 3);
    assert_eq!(response.log, "invalid request: contracts are not supported");
    assert_eq!(store.commit().unwrap(), 1);
    assert_eq!(store.namespace_at(1, &key).unwrap().get(&code_key(0)), Some(wasm(8)));
    assert_eq!(store.namespace_at(1, &key).unwrap().get(&code_key(1)), Some(wasm(9)));
    assert_eq!(store.namespace_at(0, &key).unwrap().get(&code_key(0)), None);
}

#[test]
fn a_transaction_without_gas_fails() {
    let (store, key, handler) = setup();
    let tx = TxWithRaw { messages: vec![store_code(wasm(8))], gas_limit: 6000, raw: Vec::new() };
    let (store, response) = run_tx(&handler, store, 1, header(), 0, [1u8; 32], &tx);
    assert_eq!(response.code, 1);
    assert!(response.gas_used <= 6000);
    assert!(store.namespace(&key).iterate(&[1]).is_empty());
}

#[test]
fn ante_checks_pass() {
    let (store, _key, handler) = setup();
    let mut ctx = TxContext::new(store, 1, header(), 1000, 0, [0u8; 32]);
    assert!(handler.run_ante_checks(&mut ctx, &transaction(vec![]), true).is_ok());
    assert_eq!(ctx.gas_consumed(), 0);
}

fn with_state() -> (MultiStore, StoreKey, WasmABCIHandler<TestEngine, NoCodec>) {
    let (store, key, handler) = setup();
    let time = Timestamp { seconds: 0, nanos: 0 };
    let mut ctx = InitContext::new(store, "test-chain".to_string(), time);
    let genesis = GenesisState { codes: vec![wasm(5), wasm(6)], next_code_id: 2 };
    assert!(handler.init_genesis(&mut ctx, genesis).unwrap().is_empty());
    for (i, code_id) in [(1u8, 7u64), (2, 9), (3, 7), (4, 7)] {
        let addr = AccAddress::try_from_bytes(vec![i; 20]).unwrap();
        assert!(ctx.set(&key, &contract_key(&addr), code_id.to_be_bytes().to_vec()).is_ok());
    }
    // An entry whose value is no code id is no contract.
    let odd = AccAddress::try_from_bytes(vec![5; 20]).unwrap();
    assert!(ctx.set(&key, &contract_key(&odd), vec![7]).is_ok());
    let mut store = ctx.into_store();
    store.commit().unwrap();
    (store, key, handler)
}

fn ask(
    handler: &WasmABCIHandler<TestEngine, NoCodec>,
    store: &MultiStore,
    query: WasmQuery,
) -> Result<WasmNodeQueryResponse, QueryError> {
    let ctx = QueryContext::new(store, 1).unwrap();
    let request = WasmNodeQueryRequest { height: 1, query };
    assert_eq!(request.height(), 1);
    handler.typed_query(&ctx, request)
}

#[test]
fn queries_for_codes() {
    let (store, _key, handler) = with_state();
    match ask(&handler, &store, WasmQuery::Code(QueryCode { code_id: 1 })).unwrap() {
        WasmNodeQueryResponse::Code(r) => {
            assert_eq!(r.data, wasm(6));
            assert!(r.code_info.is_none());
        }
        other => panic!("{other:?}"),
    }
    match ask(&handler, &store, WasmQuery::Code(QueryCode { code_id: 5 })).unwrap() {
        WasmNodeQueryResponse::Code(r) => assert!(r.data.is_empty()),
        other => panic!("{other:?}"),
    }
    match ask(&handler, &store, WasmQuery::Codes(QueryCodes {})).unwrap() {
        WasmNodeQueryResponse::Codes(r) => assert_eq!(r.code_ids, vec![0, 1]),
        other => panic!("{other:?}"),
    }
}

#[test]
fn queries_for_contracts() {
    let (store, _key, handler) = with_state();
    let known = AccAddress::try_from_bytes(vec![2; 20]).unwrap();
    let query = WasmQuery::ContractInfo(QueryContractInfo { address: known });
    match ask(&handler, &store, query).unwrap() {
        WasmNodeQueryResponse::ContractInfo(r) => {
            assert_eq!(r.contract_info.unwrap().code_id, 9);
            assert_eq!(r.address.as_bytes(), &[2u8; 20]);
        }
        other => panic!("{other:?}"),
    }
    let query = WasmQuery::ContractInfo(QueryContractInfo { address: sample_addr() });
    match ask(&handler, &store, query).unwrap() {
        WasmNodeQueryResponse::ContractInfo(r) => assert!(r.contract_info.is_none()),
        other => panic!("{other:?}"),
    }
    let query = WasmQuery::ContractsByCode(QueryContractsByCode { code_id: 7, pagination: None });
    match ask(&handler, &store, query).unwrap() {
        WasmNodeQueryResponse::ContractsByCode(r) => {
            let found: Vec<Vec<u8>> = r.contracts.iter().map(|a| a.as_bytes().to_vec()).collect();
            assert_eq!(found, vec![vec![1u8; 20], vec![3; 20], vec![4; 20]]);
            let page = r.pagination.unwrap();
            assert_eq!(page.total, 3);
            assert!(page.next_key.is_empty());
        }
        other => panic!("{other:?}"),
    }
    let second_page = PaginationRequest { kind: PaginationKind::Offset { offset: 1 }, limit: 1 };
    let query = WasmQuery::ContractsByCode(QueryContractsByCode {
        code_id: 7,
        pagination: Some(second_page),
    });
    match ask(&handler, &store, query).unwrap() {
        WasmNodeQueryResponse::ContractsByCode(r) => {
            assert_eq!(r.contracts.len(), 1);
            assert_eq!(r.contracts[0].as_bytes(), &[3u8; 20]);
            let page = r.pagination.unwrap();
            assert_eq!(page.total, 3);
            assert_eq!(page.next_key, vec![4u8; 20]);
        }
        other => panic!("{other:?}"),
    }
}

#[test]
fn queries_that_are_not_answered() {
    let (store, _key, handler) = with_state();
    let query = WasmQuery::RawContractState(QueryRawContractState {
        address: sample_addr(),
        query_data: vec![1],
    });
    assert!(matches!(ask(&handler, &store, query), Err(QueryError::Unsupported)));
    let ctx = QueryContext::new(&store, 1).unwrap();
    let request =
        RequestQuery { data: Vec::new(), path: "/x".to_string(), height: 1, prove: false };
    assert!(matches!(handler.query(&ctx, request), Err(QueryError::PathNotFound)));
    assert_eq!(handler.keeper_ref().store_key().index, 1);
    assert_eq!(handler.query_code(&ctx, &QueryCode { code_id: 0 }).data, wasm(5));
    assert_eq!(handler.query_codes(&ctx).code_ids, vec![0, 1]);
    let one = AccAddress::try_from_bytes(vec![1; 20]).unwrap();
    let info = handler.query_contract_info(&ctx, QueryContractInfo { address: one });
    assert_eq!(info.contract_info.unwrap().code_id, 7);
    let by_code = QueryContractsByCode { code_id: 9, pagination: None };
    assert_eq!(handler.query_contracts_by_code(&ctx, by_code).contracts.len(), 1);
}

/// A handler whose checks write, draw gas for it, and then fail.
struct FailingChecks {
    key: StoreKey,
}

impl ABCIHandler for FailingChecks {
    type Message = Message;
    type Genesis = GenesisState;
    type QReq = WasmNodeQueryRequest;
    type QRes = WasmNodeQueryResponse;

    fn typed_query(
        &self,
        _ctx: &QueryContext<'_>,
        _query: WasmNodeQueryRequest,
    ) -> Result<WasmNodeQueryResponse, QueryError> {
        Err(QueryError::NotFound)
    }

    fn run_ante_checks(
        &self,
        ctx: &mut TxContext,
        _tx: &TxWithRaw<Message>,
        _is_check: bool,
    ) -> Result<(), TxError> {
        ctx.set(&self.key, b"fee", vec![1]).unwrap();
        ctx.push_event(Event { kind: "fee".to_string(), attributes: vec![] });
        Err(TxError::new("insufficient fee".to_string(), 13, "auth"))
    }

    fn msg(&self, ctx: &mut TxContext, _msg: &Message) -> Result<(), TxError> {
        ctx.set(&self.key, b"ran", vec![1]).unwrap();
        Ok(())
    }

    fn init_genesis(
        &self,
        _ctx: &mut InitContext,
        _genesis: GenesisState,
    ) -> Result<Vec<gears_wasm::baseapp::ValidatorUpdate>, TxError> {
        Ok(Vec::new())
    }

    fn query(&self, _ctx: &QueryContext<'_>, _query: RequestQuery) -> Result<Vec<u8>, QueryError> {
        Err(QueryError::InvalidRequest)
    }
}

#[test]
fn failed_checks_keep_their_gas_and_drop_their_writes() {
    let store = MultiStore::new(vec![b"auth".to_vec()]).unwrap();
    let key = store.store_key(b"auth").unwrap();
    let handler = FailingChecks { key };
    let tx = TxWithRaw { messages: vec![store_code(wasm(8))], gas_limit: 5000, raw: Vec::new() };
    let (store, response) = run_tx(&handler, store, 1, header(), 0, [1u8; 32], &tx);
    assert_eq!(response.code, 13);
    assert_eq!(response.codespace, "auth");
    assert_eq!(response.log, "insufficient fee");
    // The write of the checks was paid for: 2000 + 30 * (3 + 1).
    assert_eq!(response.gas_used, 2120);
    assert!(response.events.is_empty());
    // No message ran, and nothing is left of the checks.
    assert!(store.namespace(&key).iterate(b"").is_empty());
}

#[test]
fn a_handler_without_its_namespaces_fails() {
    let (_, _key, handler) = setup();
    // A store in which the module's namespaces are not registered.
    let store = MultiStore::new(vec![b"bank".to_vec()]).unwrap();
    let tx = transaction(vec![store_code(wasm(8))]);
    let (store, response) = run_tx(&handler, store, 1, header(), 0, [1u8; 32], &tx);
    assert_eq!(response.code, 1);
    assert_eq!(response.gas_used, 0);
    let ctx = QueryContext::new(&store, 0).unwrap();
    assert!(!ctx.is_registered(&StoreKey { index: 1 }));
    assert!(ctx.is_registered(&StoreKey { index: 0 }));
    let request = WasmNodeQueryRequest { height: 0, query: WasmQuery::Codes(QueryCodes {}) };
    assert!(matches!(handler.typed_query(&ctx, request), Err(QueryError::Internal)));
    let time = Timestamp { seconds: 0, nanos: 0 };
    let mut init = InitContext::new(MultiStore::new(vec![]).unwrap(), String::new(), time);
    assert!(handler.init_genesis(&mut init, GenesisState::default()).is_err());
}

/// A handler whose messages write, emit an event, and then fail or not,
/// as it is told.
struct WritesFirst {
    key: StoreKey,
    fails: bool,
}

impl ABCIHandler for WritesFirst {
    type Message = Message;
    type Genesis = GenesisState;
    type QReq = WasmNodeQueryRequest;
    type QRes = WasmNodeQueryResponse;

    fn typed_query(
        &self,
        _ctx: &QueryContext<'_>,
        _query: WasmNodeQueryRequest,
    ) -> Result<WasmNodeQueryResponse, QueryError> {
        Err(QueryError::NotFound)
    }

    fn run_ante_checks(
        &self,
        _ctx: &mut TxContext,
        _tx: &TxWithRaw<Message>,
        _is_check: bool,
    ) -> Result<(), TxError> {
        Ok(())
    }

    fn msg(&self, ctx: &mut TxContext, _msg: &Message) -> Result<(), TxError> {
        ctx.set(&self.key, b"ran", vec![1]).unwrap();
        ctx.push_event(Event { kind: "ran".to_string(), attributes: vec![] });
        if self.fails {
            Err(TxError::new("no luck".to_string(), 21, "bank"))
        } else {
            Ok(())
        }
    }

    fn init_genesis(
        &self,
        _ctx: &mut InitContext,
        _genesis: GenesisState,
    ) -> Result<Vec<gears_wasm::baseapp::ValidatorUpdate>, TxError> {
        Ok(Vec::new())
    }

    fn query(&self, _ctx: &QueryContext<'_>, _query: RequestQuery) -> Result<Vec<u8>, QueryError> {
        Err(QueryError::InvalidRequest)
    }
}

#[test]
fn a_message_ends_as_the_handler_says() {
    let store = MultiStore::new(vec![b"bank".to_vec()]).unwrap();
    let key = store.store_key(b"bank").unwrap();
    let mut ctx = TxContext::new(store, 1, header(), 10_000, 0, [0u8; 32]);
    // What a message that succeeds wrote and emitted stays.
    let handler = WritesFirst { key, fails: false };
    assert!(run_msg(&handler, &mut ctx, &execute()).is_ok());
    assert_eq!(ctx.get(&key, b"ran").unwrap(), Some(vec![1]));
    // The write: 2000 + 30 * (3 + 1); the read: 1000 + 3 * (3 + 1).
    assert_eq!(ctx.gas_consumed(), 2120 + 1012);
    assert_eq!(ctx.events_drain().len(), 1);
    let (store, _) = ctx.abort();
    // What a message that fails wrote and emitted is taken back; its
    // failure is handed on, and its gas stays drawn.
    let mut ctx = TxContext::new(store, 1, header(), 10_000, 0, [0u8; 32]);
    let handler = WritesFirst { key, fails: true };
    let error = run_msg(&handler, &mut ctx, &execute()).unwrap_err();
    assert_eq!(error.response_code(), 21);
    assert_eq!(error.response_codespace(), "bank");
    assert_eq!(error.response_message(), "no luck");
    assert_eq!(ctx.gas_consumed(), 2120);
    assert!(ctx.events_drain().is_empty());
    // The read of a key that is not there: 1000 + 3 * 3.
    assert_eq!(ctx.get(&key, b"ran").unwrap(), None);
    assert_eq!(ctx.gas_consumed(), 2120 + 1009);
}

#[test]
fn a_transaction_ends_with_the_failure_or_with_none() {
    let store = MultiStore::new(vec![b"bank".to_vec()]).unwrap();
    let key = store.store_key(b"bank").unwrap();
    // A failure: its code, codespace and words; no write and no event.
    let mut ctx = TxContext::new(store, 1, header(), 10_000, 0, [0u8; 32]);
    assert!(ctx.set(&key, b"x", vec![1]).is_ok());
    ctx.push_event(Event { kind: "x".to_string(), attributes: vec![] });
    let failure = TxError::new("no luck".to_string(), 21, "bank");
    let (store, response) = gears_wasm::baseapp::conclude(ctx, 10_000, Some(failure));
    assert_eq!(response.code, 21);
    assert_eq!(response.codespace, "bank");
    assert_eq!(response.log, "no luck");
    assert_eq!(response.gas_wanted, 10_000);
    assert_eq!(response.gas_used, 2060);
    assert!(response.events.is_empty());
    assert!(store.namespace(&key).iterate(b"").is_empty());
    // No failure: the code 0, the events, and the writes with the block.
    let mut ctx = TxContext::new(store, 1, header(), 10_000, 0, [0u8; 32]);
    assert!(ctx.set(&key, b"x", vec![1]).is_ok());
    ctx.push_event(Event { kind: "x".to_string(), attributes: vec![] });
    let (store, response) = gears_wasm::baseapp::conclude(ctx, 10_000, None);
    assert_eq!(response.code, 0);
    assert_eq!(response.codespace, "");
    assert_eq!(response.log, "");
    assert_eq!(response.gas_used, 2060);
    assert_eq!(response.events.len(), 1);
    assert_eq!(store.namespace(&key).get(b"x"), Some(vec![1]));
}

#[test]
fn the_first_failure_ends_the_transaction() {
    let store = MultiStore::new(vec![b"bank".to_vec()]).unwrap();
    let key = store.store_key(b"bank").unwrap();
    let handler = WritesFirst { key, fails: true };
    // Three messages: the first fails, and the others do not run.
    let tx = TxWithRaw {
        messages: vec![execute(), execute(), execute()],
        gas_limit: 10_000,
        raw: Vec::new(),
    };
    let (store, response) = run_tx(&handler, store, 1, header(), 0, [1u8; 32], &tx);
    assert_eq!(response.code, 21);
    assert_eq!(response.codespace, "bank");
    assert_eq!(response.log, "no luck");
    // One write was paid for, and no more.
    assert_eq!(response.gas_used, 2120);
    assert!(response.events.is_empty());
    assert!(store.namespace(&key).iterate(b"").is_empty());
    // Without a failure all three run, each after the other.
    let handler = WritesFirst { key, fails: false };
    let (store, response) = run_tx(&handler, store, 1, header(), 0, [1u8; 32], &tx);
    assert_eq!(response.code, 0);
    assert_eq!(response.gas_used, 3 * 2120);
    assert_eq!(response.events.len(), 3);
    assert_eq!(store.namespace(&key).get(b"ran"), Some(vec![1]));
}

#[test]
fn answers_leave_nothing_open() {
    let (store, _key, handler) = with_state();
    let ctx = QueryContext::new(&store, 1).unwrap();
    let code = handler.query_code(&ctx, &QueryCode { code_id: 0 });
    assert_eq!(code.code_info, None);
    let request =
        WasmNodeQueryRequest { height: 1, query: WasmQuery::Code(QueryCode { code_id: 0 }) };
    match handler.typed_query(&ctx, request) {
        Ok(WasmNodeQueryResponse::Code(answer)) => assert_eq!(answer, code),
        _ => panic!("a code was expected"),
    }
}

#[test]
fn the_handler_applies_an_empty_genesis_state() {
    let (store, key, handler) = setup();
    let time = Timestamp { seconds: 0, nanos: 0 };
    let mut ctx = InitContext::new(store, "test-chain".to_string(), time);
    let genesis = GenesisState { codes: vec![], next_code_id: 4 };
    let updates = handler.init_genesis(&mut ctx, genesis).unwrap();
    assert!(updates.is_empty());
    assert_eq!(ctx.get(&key, b"\x03lastCodeId").unwrap(), Some(4u64.to_be_bytes().to_vec()));
    // A code that the engine refuses: the failure has the code of the
    // refusal and the module's codespace.
    let genesis = GenesisState { codes: vec![b"bad".to_vec()], next_code_id: 1 };
    let error = handler.init_genesis(&mut ctx, genesis).unwrap_err();
    assert_eq!(error.response_code(), 1);
    assert_eq!(error.response_codespace(), "wasm");
}
