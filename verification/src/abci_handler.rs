//! The handler of the wasm module: what the module does with the
//! messages, the queries and the genesis state that the application
//! hands to it.

use vstd::prelude::*;
use crate::address::AccAddress;
use crate::baseapp::{ABCIHandler, RequestQuery, TxWithRaw, ValidatorUpdate};
use crate::bytes::{copy_bytes, copy_from};
use crate::context::{ContextState, key_models};
use crate::context::init::InitContext;
use crate::context::query::QueryContext;
use crate::context::tx::TxContext;
use crate::endian::{be_number, u64_from_be};
use crate::engine::WasmEngine;
use crate::error::{QueryError, TxError, WasmError};
use crate::genesis::{GenesisState, genesis_result, init_genesis, stored_codes};
use crate::keeper::{Keeper, code_key, code_key_of, contract_key, contract_key_of,
    lemma_store_code_step, store_code_result, CODE_STORE_PREFIX, CONTRACT_STORE_PREFIX};
use crate::message::{Message, address_models, permission_model};
use crate::pagination::{Pagination, PaginationModel, PaginationRequest, paginate, page_end,
    page_start, request_model, QUERY_DEFAULT_LIMIT};
use crate::params::AccessConfigCodec;
use crate::store::byte_map::entry_models;
use crate::store::table::{Table, lookup, window};
use crate::store::view::{listing_of, lemma_listing_unique};
use crate::types::query::{ContractInfo, QueryCode, QueryCodeResponse, QueryCodesResponse,
    QueryContractInfo, QueryContractInfoResponse, QueryContractsByCode,
    QueryContractsByCodeResponse, QueryRawContractStateResponse, QuerySmartContractStateResponse,
    WasmQuery};

verus! {

/// A query of the wasm module for the state at a height.
#[derive(Debug)]
pub struct WasmNodeQueryRequest {
    pub height: u32,
    pub query: WasmQuery,
}

impl WasmNodeQueryRequest {
    /// The height that is asked about.
    pub fn height(&self) -> (h: u32)
        ensures
            h == self.height,
    {
        self.height
    }
}

/// What the wasm module answers to a query.
#[derive(Debug)]
pub enum WasmNodeQueryResponse {
    Code(QueryCodeResponse),
    Codes(QueryCodesResponse),
    ContractInfo(QueryContractInfoResponse),
    ContractsByCode(QueryContractsByCodeResponse),
    Smart(QuerySmartContractStateResponse),
    Raw(QueryRawContractStateResponse),
}

/// The id in the key of a code, as a scan of the code prefix yields it:
/// the number that the bytes behind the prefix stand for.
pub open spec fn code_id_of(key: Seq<u8>) -> u64 {
    if key.len() >= 1 {
        be_number(key.subrange(1, key.len() as int))
    } else {
        0
    }
}

/// The ids in the keys of a list of entries.
pub open spec fn code_ids_of(entries: Seq<(Seq<u8>, Seq<u8>)>) -> Seq<u64> {
    Seq::new(entries.len(), |i: int| code_id_of(entries[i].0))
}

/// The address in the key of a contract, as a scan of the contract
/// prefix yields it: the bytes behind the prefix and the length, if the
/// length is right.
pub open spec fn contract_address_of(key: Seq<u8>) -> Option<Seq<u8>> {
    if key.len() >= 2 && key[1] == key.len() - 2 {
        Some(key.subrange(2, key.len() as int))
    } else {
        None
    }
}

/// Whether an entry of the contract store stands for a contract of the
/// code `code_id`: its value is that id in eight bytes, and its key
/// holds an address.
pub open spec fn contract_of_code(entry: (Seq<u8>, Seq<u8>), code_id: u64) -> bool {
    entry.1.len() == 8 && be_number(entry.1) == code_id && contract_address_of(entry.0) is Some
}

/// The addresses of the contracts of the code `code_id` among the
/// entries of the contract store, in the order of the entries.
pub open spec fn contracts_of_code(entries: Seq<(Seq<u8>, Seq<u8>)>, code_id: u64) -> Seq<
    Seq<u8>,
>
    decreases entries.len(),
{
    if entries.len() == 0 {
        Seq::empty()
    } else if contract_of_code(entries.last(), code_id) {
        contracts_of_code(entries.drop_last(), code_id).push(
            contract_address_of(entries.last().0)->0,
        )
    } else {
        contracts_of_code(entries.drop_last(), code_id)
    }
}

/// The pagination of a request for contracts: what the request says, or
/// the first 100 where it says nothing.
pub open spec fn pagination_or_default(p: Option<PaginationRequest>) -> PaginationModel {
    match p {
        Some(r) => request_model(r),
        None => PaginationModel::ByOffset { offset: 0, limit: QUERY_DEFAULT_LIMIT as nat },
    }
}

/// Whether `r` answers the request `req` for the contracts of a code,
/// given what the module's namespace `t` holds: the page that is asked
/// for of the addresses of those contracts, in the order of their keys,
/// with the number of all of them and the address behind the page.
pub open spec fn is_contracts_page(
    t: Table,
    req: QueryContractsByCode,
    r: QueryContractsByCodeResponse,
) -> bool {
    let all = contracts_of_code(
        listing_of(window(t, Seq::empty(), seq![CONTRACT_STORE_PREFIX])),
        req.code_id,
    );
    let p = pagination_or_default(req.pagination);
    &&& address_models(r.contracts@) == all.subrange(page_start(all, p) as int, page_end(all, p) as int)
    &&& r.pagination matches Some(page)
    &&& page.total == all.len()
    &&& page.next_key@ == if page_end(all, p) < all.len() {
        all[page_end(all, p) as int]
    } else {
        Seq::<u8>::empty()
    }
}

/// The result of storing code that a handler's result stands for, where
/// the code got the id `id` if it was stored.
pub open spec fn stored_as(r: Result<(), WasmError>, id: u64) -> Result<u64, WasmError> {
    match r {
        Ok(()) => Ok(id),
        Err(e) => Err(e),
    }
}

/// Whether `after` and `r` are what running the message `msg` with
/// `keeper` leaves and returns in a context in the state `st`. Code is
/// stored as [`store_code_result`] says; any other message leaves the
/// state and is refused as an invalid request.
pub open spec fn is_run<E: WasmEngine, C: AccessConfigCodec>(
    keeper: Keeper<E, C>,
    st: ContextState,
    msg: Message,
    after: ContextState,
    r: Result<(), WasmError>,
) -> bool {
    match msg {
        Message::StoreCode(m) => exists|id: u64| #[trigger]
            store_code_result(
                keeper,
                st,
                m.sender@,
                m.wasm_byte_code@,
                permission_model(m.instantiate_permission),
                after,
                stored_as(r, id),
            ),
        _ => after == st && r matches Err(WasmError::InvalidRequest { .. }),
    }
}

/// Whether `info` is what is known of a contract under whose key `v`
/// stands: the code that it was instantiated from. The module keeps
/// neither creator nor admin nor label of a contract: they are empty.
pub open spec fn is_contract_info(v: Seq<u8>, info: ContractInfo) -> bool {
    &&& info.code_id == be_number(v)
    &&& info.creator@.len() == 0
    &&& info.admin@.len() == 0
    &&& info.label@.len() == 0
}

/// The handler of the wasm module.
pub struct WasmABCIHandler<E: WasmEngine, C: AccessConfigCodec> {
    keeper: Keeper<E, C>,
    codespace: &'static str,
}

impl<E: WasmEngine, C: AccessConfigCodec> WasmABCIHandler<E, C> {
    /// The keeper that the handler works with.
    pub closed spec fn keeper(&self) -> Keeper<E, C> {
        self.keeper
    }

    /// The name under which the handler reports failures.
    pub closed spec fn codespace(&self) -> Seq<char> {
        self.codespace@
    }

    /// A handler that works with `keeper` and reports failures under
    /// `codespace`, the name of the module.
    pub fn new(keeper: Keeper<E, C>, codespace: &'static str) -> (h: Self)
        ensures
            h.keeper() == keeper,
            h.codespace() == codespace@,
    {
        WasmABCIHandler { keeper, codespace }
    }

    /// The keeper that the handler works with.
    pub fn keeper_ref(&self) -> (k: &Keeper<E, C>)
        ensures
            *k == self.keeper(),
    {
        &self.keeper
    }

    /// Whether the namespaces that the handler works with are registered
    /// in the store of a context in the state `st`.
    pub open spec fn ready(&self, st: ContextState) -> bool {
        st.registered(self.keeper().store()) && st.registered(self.keeper().params_store())
    }

    /// The failure of a call on a store in which a namespace of the
    /// module is not registered.
    fn unregistered(&self) -> (e: TxError)
        ensures
            e.code() == 1,
            e.codespace() == self.codespace(),
    {
        WasmError::Internal {
            reason: String::from_str("the namespaces of the module are not registered"),
        }.into_tx_error(self.codespace)
    }

    /// The bytes of a code, empty where the code is not there.
    pub fn query_code(&self, ctx: &QueryContext<'_>, req: &QueryCode) -> (r: QueryCodeResponse)
        requires
            ctx@.wf(),
            ctx@.registered(self.keeper().store()),
        ensures
            r.code_info is None,
            r.data@ == match lookup(ctx@.namespace(self.keeper().store()), code_key_of(req.code_id)) {
                Some(wasm) => wasm,
                None => Seq::empty(),
            },
    {
        let store_key = self.keeper.store_key();
        let key = code_key(req.code_id);
        let data = match ctx.kv_store(&store_key).get(key.as_slice()) {
            Some(wasm) => wasm,
            None => Vec::new(),
        };
        QueryCodeResponse { code_info: None, data }
    }

    /// The ids of all codes, in ascending order.
    pub fn query_codes(&self, ctx: &QueryContext<'_>) -> (r: QueryCodesResponse)
        requires
            ctx@.wf(),
            ctx@.registered(self.keeper().store()),
        ensures
            r.code_ids@ == code_ids_of(
                listing_of(stored_codes(ctx@.namespace(self.keeper().store()))),
            ),
    {
        let store_key = self.keeper.store_key();
        let mut prefix: Vec<u8> = Vec::new();
        prefix.push(CODE_STORE_PREFIX);
        assert(prefix@ =~= seq![CODE_STORE_PREFIX]);
        let entries = ctx.kv_store(&store_key).iterate(prefix.as_slice());
        let ghost listing = entry_models(entries@);
        proof {
            lemma_listing_unique(
                listing,
                listing_of(stored_codes(ctx@.namespace(self.keeper().store()))),
            );
        }
        let mut code_ids: Vec<u64> = Vec::new();
        let mut i: usize = 0;
        while i < entries.len()
            invariant
                0 <= i <= entries@.len(),
                listing == entry_models(entries@),
                code_ids@.len() == i,
                forall|j: int| 0 <= j < i ==> code_ids@[j] == code_ids_of(listing)[j],
            decreases entries@.len() - i,
        {
            let key = &entries[i].0;
            let id = if key.len() >= 1 {
                let rest = copy_from(key.as_slice(), 1);
                u64_from_be(rest.as_slice())
            } else {
                0
            };
            code_ids.push(id);
            i = i + 1;
        }
        assert(code_ids@ =~= code_ids_of(listing));
        QueryCodesResponse { code_ids }
    }

    /// What is known of a contract: the code that it was instantiated
    /// from, if the contract is there.
    pub fn query_contract_info(&self, ctx: &QueryContext<'_>, req: QueryContractInfo) -> (r:
        QueryContractInfoResponse)
        requires
            ctx@.wf(),
            ctx@.registered(self.keeper().store()),
        ensures
            r.address == req.address,
            match lookup(
                ctx@.namespace(self.keeper().store()),
                contract_key_of(req.address@),
            ) {
                Some(v) => r.contract_info matches Some(info) && is_contract_info(v, info),
                None => r.contract_info is None,
            },
    {
        let store_key = self.keeper.store_key();
        let key = contract_key(&req.address);
        let contract_info = match ctx.kv_store(&store_key).get(key.as_slice()) {
            Some(v) => Some(
                ContractInfo {
                    code_id: u64_from_be(v.as_slice()),
                    creator: String::new(),
                    admin: String::new(),
                    label: String::new(),
                },
            ),
            None => None,
        };
        QueryContractInfoResponse { address: req.address, contract_info }
    }

    /// The contracts that were instantiated from a code, in the order of
    /// their addresses' keys: the page that the request asks for, or the
    /// first 100 where it asks for none.
    pub fn query_contracts_by_code(&self, ctx: &QueryContext<'_>, req: QueryContractsByCode) -> (r:
        QueryContractsByCodeResponse)
        requires
            ctx@.wf(),
            ctx@.registered(self.keeper().store()),
        ensures
            is_contracts_page(ctx@.namespace(self.keeper().store()), req, r),
    {
        let store_key = self.keeper.store_key();
        let mut prefix: Vec<u8> = Vec::new();
        prefix.push(CONTRACT_STORE_PREFIX);
        assert(prefix@ =~= seq![CONTRACT_STORE_PREFIX]);
        let entries = ctx.kv_store(&store_key).iterate(prefix.as_slice());
        let ghost listing = entry_models(entries@);
        proof {
            lemma_listing_unique(
                listing,
                listing_of(
                    window(
                        ctx@.namespace(self.keeper().store()),
                        Seq::empty(),
                        seq![CONTRACT_STORE_PREFIX],
                    ),
                ),
            );
        }
        let mut found: Vec<Vec<u8>> = Vec::new();
        let mut i: usize = 0;
        assert(listing.take(0) =~= Seq::<(Seq<u8>, Seq<u8>)>::empty());
        while i < entries.len()
            invariant
                0 <= i <= entries@.len(),
                listing == entry_models(entries@),
                key_models(found@) == contracts_of_code(listing.take(i as int), req.code_id),
                forall|j: int| 0 <= j < found@.len() ==> (#[trigger] found@[j])@.len() <= 255,
            decreases entries@.len() - i,
        {
            let key = &entries[i].0;
            let value = &entries[i].1;
            proof {
                assert(listing.take(i + 1).drop_last() =~= listing.take(i as int));
                assert(listing.take(i + 1).last() == listing[i as int]);
            }
            if value.len() == 8 && u64_from_be(value.as_slice()) == req.code_id && key.len() >= 2
                && key[1] as usize == key.len() - 2 {
                let ghost before = key_models(found@);
                found.push(copy_from(key.as_slice(), 2));
                assert(key_models(found@) =~= before.push(key@.subrange(2, key@.len() as int)));
            }
            i = i + 1;
        }
        assert(listing.take(i as int) =~= listing);
        let pagination = match req.pagination {
            Some(request) => request.into_pagination(),
            None => Pagination::ByOffset { offset: 0, limit: QUERY_DEFAULT_LIMIT as usize },
        };
        let page = paginate(&found, &pagination);
        let mut contracts: Vec<AccAddress> = Vec::new();
        let mut k: usize = page.start;
        let ghost all = key_models(found@);
        while k < page.end
            invariant
                page.start <= k <= page.end <= found@.len(),
                all == key_models(found@),
                forall|j: int| 0 <= j < found@.len() ==> (#[trigger] found@[j])@.len() <= 255,
                address_models(contracts@) == all.subrange(page.start as int, k as int),
            decreases page.end - k,
        {
            let ghost before = address_models(contracts@);
            match AccAddress::try_from_bytes(copy_bytes(found[k].as_slice())) {
                Ok(a) => {
                    contracts.push(a);
                },
                Err(_) => {
                    assert(false);
                },
            }
            assert(address_models(contracts@) =~= before.push(all[k as int]));
            assert(all.subrange(page.start as int, k + 1) =~= before.push(all[k as int]));
            k = k + 1;
        }
        QueryContractsByCodeResponse { contracts, pagination: Some(page.response) }
    }

    /// Runs a message of the wasm module. Code is stored through the
    /// keeper. The contracts themselves are the engine's, and the module
    /// keeps no state of them: a message that instantiates, executes,
    /// migrates or administers a contract is refused as an invalid
    /// request.
    pub fn run(&self, ctx: &mut TxContext, msg: &Message) -> (r: Result<(), WasmError>)
        requires
            old(ctx)@.wf(),
            old(ctx)@.registered(self.keeper().store()),
            old(ctx)@.registered(self.keeper().params_store()),
        ensures
            is_run(self.keeper(), old(ctx)@, *msg, final(ctx)@, r),
    {
        proof {
            ctx.lemma_phase();
        }
        match msg {
            Message::StoreCode(m) => {
                let permission = match &m.instantiate_permission {
                    Some(config) => Some(config.duplicate()),
                    None => None,
                };
                match self.keeper.store_code(
                    ctx,
                    &m.sender,
                    m.wasm_byte_code.as_slice(),
                    permission,
                ) {
                    Ok(id) => {
                        assert(stored_as(Ok::<(), WasmError>(()), id) == Ok::<u64, WasmError>(id));
                        Ok(())
                    },
                    Err(e) => {
                        assert(stored_as(Err::<(), WasmError>(e), 0) == Err::<u64, WasmError>(e));
                        Err(e)
                    },
                }
            },
            _ => Err(
                WasmError::InvalidRequest {
                    reason: String::from_str("contracts are not supported"),
                },
            ),
        }
    }
}

impl<E: WasmEngine, C: AccessConfigCodec> ABCIHandler for WasmABCIHandler<E, C> {
    type Message = Message;

    type Genesis = GenesisState;

    type QReq = WasmNodeQueryRequest;

    type QRes = WasmNodeQueryResponse;

    fn typed_query(&self, ctx: &QueryContext<'_>, query: WasmNodeQueryRequest) -> (r: Result<
        WasmNodeQueryResponse,
        QueryError,
    >)
        ensures
            !self.ready(ctx@) ==> r matches Err(QueryError::Internal),
            self.ready(ctx@) ==> match query.query {
                WasmQuery::Code(req) => r matches Ok(WasmNodeQueryResponse::Code(a))
                    && a.code_info is None && a.data@ == match lookup(
                    ctx@.namespace(self.keeper().store()),
                    code_key_of(req.code_id),
                ) {
                    Some(wasm) => wasm,
                    None => Seq::empty(),
                },
                WasmQuery::Codes(_) => r matches Ok(WasmNodeQueryResponse::Codes(a))
                    && a.code_ids@ == code_ids_of(
                    listing_of(stored_codes(ctx@.namespace(self.keeper().store()))),
                ),
                WasmQuery::ContractInfo(req) => r matches Ok(
                    WasmNodeQueryResponse::ContractInfo(a),
                ) && a.address == req.address && match lookup(
                    ctx@.namespace(self.keeper().store()),
                    contract_key_of(req.address@),
                ) {
                    Some(v) => a.contract_info matches Some(info) && is_contract_info(v, info),
                    None => a.contract_info is None,
                },
                WasmQuery::ContractsByCode(req) => r matches Ok(
                    WasmNodeQueryResponse::ContractsByCode(a),
                ) && is_contracts_page(ctx@.namespace(self.keeper().store()), req, a),
                WasmQuery::SmartContractState(_) | WasmQuery::RawContractState(_) => r
                    matches Err(QueryError::Unsupported),
            },
    {
        if !ctx.is_registered(&self.keeper.store_key()) || !ctx.is_registered(
            &self.keeper.params_keeper().params_subspace_key.store,
        ) {
            return Err(QueryError::Internal);
        }
        match query.query {
            WasmQuery::Code(req) => Ok(WasmNodeQueryResponse::Code(self.query_code(ctx, &req))),
            WasmQuery::Codes(_) => Ok(WasmNodeQueryResponse::Codes(self.query_codes(ctx))),
            WasmQuery::ContractInfo(req) => Ok(
                WasmNodeQueryResponse::ContractInfo(self.query_contract_info(ctx, req)),
            ),
            WasmQuery::ContractsByCode(req) => Ok(
                WasmNodeQueryResponse::ContractsByCode(self.query_contracts_by_code(ctx, req)),
            ),
            WasmQuery::SmartContractState(_) => Err(QueryError::Unsupported),
            WasmQuery::RawContractState(_) => Err(QueryError::Unsupported),
        }
    }

    /// The module makes no checks of its own: they pass, and nothing is
    /// touched.
    open spec fn checks(
        &self,
        before: ContextState,
        tx: TxWithRaw<Message>,
        is_check: bool,
        after: ContextState,
        r: Result<(), TxError>,
    ) -> bool {
        r is Ok && after == before
    }

    /// Checks a transaction: see [`WasmABCIHandler::checks`].
    fn run_ante_checks(&self, ctx: &mut TxContext, tx: &TxWithRaw<Message>, is_check: bool) -> (r:
        Result<(), TxError>)
    {
        proof {
            ctx.lemma_phase();
        }
        Ok(())
    }

    /// A message emits no events. Where a namespace of the module is not
    /// registered, nothing is done and the failure has the code 1. Else
    /// the message is run as [`is_run`] says, and a failure is reported
    /// with its code and its words.
    open spec fn runs(
        &self,
        before: ContextState,
        msg: Message,
        after: ContextState,
        r: Result<(), TxError>,
    ) -> bool {
        &&& after.events == before.events
        &&& !self.ready(before) ==> {
            &&& after == before
            &&& r matches Err(e)
            &&& e.code() == 1
            &&& e.codespace() == self.codespace()
        }
        &&& self.ready(before) ==> exists|done: Result<(), WasmError>|
            {
                &&& #[trigger] is_run(self.keeper(), before, msg, after, done)
                &&& match (r, done) {
                    (Ok(()), Ok(())) => true,
                    (Err(e), Err(f)) => e.code() == f.code() && e.message() == f.text()
                        && e.codespace() == self.codespace(),
                    _ => false,
                }
            }
    }

    /// Runs a message of the module: see [`WasmABCIHandler::runs`].
    fn msg(&self, ctx: &mut TxContext, msg: &Message) -> (r: Result<(), TxError>)
    {
        proof {
            ctx.lemma_phase();
        }
        if !ctx.is_registered(&self.keeper.store_key()) || !ctx.is_registered(
            &self.keeper.params_keeper().params_subspace_key.store,
        ) {
            return Err(self.unregistered());
        }
        let ghost st = ctx@;
        let result = self.run(ctx, msg);
        proof {
            match msg {
                Message::StoreCode(m) => {
                    let id = choose|id: u64| #[trigger]
                        store_code_result(
                            self.keeper(),
                            st,
                            m.sender@,
                            m.wasm_byte_code@,
                            permission_model(m.instantiate_permission),
                            ctx@,
                            stored_as(result, id),
                        );
                    lemma_store_code_step(
                        self.keeper(),
                        st,
                        m.sender@,
                        m.wasm_byte_code@,
                        permission_model(m.instantiate_permission),
                        ctx@,
                        stored_as(result, id),
                    );
                },
                _ => {},
            }
            assert(is_run(self.keeper(), st, *msg, ctx@, result));
        }
        match result {
            Ok(()) => Ok(()),
            Err(e) => Err(e.into_tx_error(self.codespace)),
        }
    }

    fn init_genesis(&self, ctx: &mut InitContext, genesis: GenesisState) -> (r: Result<
        Vec<ValidatorUpdate>,
        TxError,
    >)
        ensures
            !self.ready(old(ctx)@) ==> {
                &&& final(ctx)@ == old(ctx)@
                &&& r matches Err(e)
                &&& e.code() == 1
                &&& e.codespace() == self.codespace()
            },
            self.ready(old(ctx)@) ==> exists|done: Result<(), WasmError>|
                {
                    &&& #[trigger] genesis_result(
                        self.keeper(),
                        old(ctx)@,
                        genesis@,
                        final(ctx)@,
                        done,
                    )
                    &&& match (r, done) {
                        (Ok(updates), Ok(())) => updates@.len() == 0,
                        (Err(e), Err(f)) => e.code() == f.code() && e.message() == f.text()
                            && e.codespace() == self.codespace(),
                        _ => false,
                    }
                },
            self.ready(old(ctx)@) && genesis@.codes.len() == 0 ==> r is Ok,
            r matches Err(e) ==> e.code() != 0,
    {
        if !ctx.is_registered(&self.keeper.store_key()) || !ctx.is_registered(
            &self.keeper.params_keeper().params_subspace_key.store,
        ) {
            return Err(self.unregistered());
        }
        let ghost st = ctx@;
        let ghost g = genesis@;
        let done = init_genesis(ctx, &self.keeper, genesis);
        assert(genesis_result(self.keeper(), st, g, ctx@, done));
        match done {
            Ok(()) => {
                assert(done->Ok_0 =~= ());
                Ok(Vec::new())
            },
            Err(e) => Err(e.into_tx_error(self.codespace)),
        }
    }

    fn query(&self, ctx: &QueryContext<'_>, query: RequestQuery) -> (r: Result<
        Vec<u8>,
        QueryError,
    >)
        ensures
            r matches Err(QueryError::PathNotFound),
    {
        Err(QueryError::PathNotFound)
    }
}

} // verus!
