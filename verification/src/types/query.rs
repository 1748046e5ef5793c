//! The queries of the wasm module and what they answer.

use vstd::prelude::*;
use crate::address::AccAddress;
use crate::message::AccessConfig;
use crate::pagination::{PaginationRequest, PaginationResponse};

verus! {

/// Sends a message to a contract and returns what the contract answers.
#[derive(Debug, PartialEq)]
pub struct QuerySmartContractState {
    /// The contract.
    pub address: AccAddress,
    /// The query message, as JSON.
    pub query_data: Vec<u8>,
}

/// What a contract answered.
#[derive(Debug, PartialEq)]
pub struct QuerySmartContractStateResponse {
    /// The answer, as JSON.
    pub data: Vec<u8>,
}

/// Reads one key of a contract's storage.
#[derive(Debug, PartialEq)]
pub struct QueryRawContractState {
    /// The contract.
    pub address: AccAddress,
    /// The key.
    pub query_data: Vec<u8>,
}

/// What a contract's storage holds under a key.
#[derive(Debug, PartialEq)]
pub struct QueryRawContractStateResponse {
    pub data: Vec<u8>,
}

/// Asks for the bytes and the info of a code.
#[derive(Clone, Copy, Debug, PartialEq, Eq, Structural)]
pub struct QueryCode {
    pub code_id: u64,
}

/// What is known of a code beside its bytes.
#[derive(Debug, PartialEq)]
pub struct CodeInfoResponse {
    pub code_id: u64,
    pub creator: String,
    pub data_hash: Vec<u8>,
    pub instantiate_permission: Option<AccessConfig>,
}

/// The bytes and the info of a code.
#[derive(Debug, PartialEq)]
pub struct QueryCodeResponse {
    pub code_info: Option<CodeInfoResponse>,
    pub data: Vec<u8>,
}

/// Asks for the ids of all codes.
#[derive(Clone, Copy, Debug, PartialEq, Eq, Structural)]
pub struct QueryCodes {
}

/// The ids of all codes, in ascending order.
#[derive(Debug, PartialEq)]
pub struct QueryCodesResponse {
    pub code_ids: Vec<u64>,
}

/// Asks for what is known of a contract.
#[derive(Debug, PartialEq)]
pub struct QueryContractInfo {
    pub address: AccAddress,
}

/// What is known of a contract.
#[derive(Debug, PartialEq)]
pub struct ContractInfo {
    /// The code that the contract was instantiated from.
    pub code_id: u64,
    pub creator: String,
    pub admin: String,
    pub label: String,
}

/// What is known of a contract, if it is there.
#[derive(Debug, PartialEq)]
pub struct QueryContractInfoResponse {
    pub address: AccAddress,
    pub contract_info: Option<ContractInfo>,
}

/// Asks for the contracts that were instantiated from a code, a page at
/// a time: 100 contracts where nothing else is said, in the order of
/// their addresses.
#[derive(Debug, PartialEq)]
pub struct QueryContractsByCode {
    pub code_id: u64,
    pub pagination: Option<PaginationRequest>,
}

/// A page of the contracts that were instantiated from a code.
#[derive(Debug, PartialEq)]
pub struct QueryContractsByCodeResponse {
    pub contracts: Vec<AccAddress>,
    pub pagination: Option<PaginationResponse>,
}

/// Any query of the wasm module.
#[derive(Debug)]
pub enum WasmQuery {
    SmartContractState(QuerySmartContractState),
    RawContractState(QueryRawContractState),
    Code(QueryCode),
    Codes(QueryCodes),
    ContractInfo(QueryContractInfo),
    ContractsByCode(QueryContractsByCode),
}

impl WasmQuery {
    /// The path of the query's service on the wire.
    pub fn query_url(&self) -> (r: &'static str)
        ensures
            r@ == match self {
                WasmQuery::SmartContractState(_) => "/cosmwasm.wasm.v1.Query/SmartContractState"@,
                WasmQuery::RawContractState(_) => "/cosmwasm.wasm.v1.Query/RawContractState"@,
                WasmQuery::Code(_) => "/cosmwasm.wasm.v1.Query/Code"@,
                WasmQuery::Codes(_) => "/cosmwasm.wasm.v1.Query/Codes"@,
                WasmQuery::ContractInfo(_) => "/cosmwasm.wasm.v1.Query/ContractInfo"@,
                WasmQuery::ContractsByCode(_) => "/cosmwasm.wasm.v1.Query/ContractsByCode"@,
            },
    {
        match self {
            WasmQuery::SmartContractState(_) => "/cosmwasm.wasm.v1.Query/SmartContractState",
            WasmQuery::RawContractState(_) => "/cosmwasm.wasm.v1.Query/RawContractState",
            WasmQuery::Code(_) => "/cosmwasm.wasm.v1.Query/Code",
            WasmQuery::Codes(_) => "/cosmwasm.wasm.v1.Query/Codes",
            WasmQuery::ContractInfo(_) => "/cosmwasm.wasm.v1.Query/ContractInfo",
            WasmQuery::ContractsByCode(_) => "/cosmwasm.wasm.v1.Query/ContractsByCode",
        }
    }
}

} // verus!
