//! What the command line and the other transports share when they turn
//! what a user typed into queries and messages of the wasm module.

use vstd::prelude::*;
use vstd::string::StringSliceAdditionalSpecFns;
use vstd::utf8::encode_utf8;
use crate::address::AccAddress;
use crate::bytes::copy_bytes;
use crate::message::{Message, MsgStoreCode};
use crate::store::byte_map::Stored;
use crate::types::query::{QueryCode, QueryCodes, QueryContractInfo, QueryContractsByCode,
    QueryRawContractState, QuerySmartContractState, WasmQuery};

verus! {

/// The value of a hexadecimal digit, in either case.
pub open spec fn hex_digit(b: u8) -> Option<u8> {
    if 48 <= b <= 57 {
        Some((b - 48) as u8)
    } else if 97 <= b <= 102 {
        Some((b - 87) as u8)
    } else if 65 <= b <= 70 {
        Some((b - 55) as u8)
    } else {
        None
    }
}

/// The bytes that a hexadecimal string stands for, two digits for each
/// byte, or `None` where the string has an odd number of characters or
/// one that is no hexadecimal digit.
pub open spec fn hex_decoding(s: Seq<u8>) -> Option<Seq<u8>> {
    if s.len() % 2 == 0 && (forall|i: int| 0 <= i < s.len() ==> hex_digit(#[trigger] s[i]) is Some) {
        Some(
            Seq::new(
                s.len() / 2,
                |i: int| (16 * hex_digit(s[2 * i])->0 + hex_digit(s[2 * i + 1])->0) as u8,
            ),
        )
    } else {
        None
    }
}

/// Calls `hex::decode`, which takes two hexadecimal digits of either
/// case for each byte and refuses a string of odd length or with any
/// other character.
#[verifier::external_body]
fn hex_decode(s: &str) -> (r: Option<Vec<u8>>)
    ensures
        r.model() == hex_decoding(s.spec_bytes()),
{
    hex::decode(s).ok()
}

/// The bytes that a user means by `text`, given what the hexadecimal
/// decoder made of it: the decoded bytes, or, where there are none, the
/// text itself.
pub fn payload_from(decoded: Option<Vec<u8>>, text: &str) -> (r: Vec<u8>)
    ensures
        r@ == match decoded {
            Some(bytes) => bytes@,
            None => text.spec_bytes(),
        },
{
    match decoded {
        Some(bytes) => bytes,
        None => copy_bytes(text.as_bytes()),
    }
}

/// The bytes that a user means by `text`: what it stands for as a
/// hexadecimal string, or, where it is none, the text itself.
pub fn payload_bytes(text: &str) -> (r: Vec<u8>)
    ensures
        r@ == match hex_decoding(text.spec_bytes()) {
            Some(bytes) => bytes,
            None => text.spec_bytes(),
        },
{
    payload_from(hex_decode(text), text)
}

/// The query commands of the wasm module.
#[derive(Debug)]
pub enum WasmQueryCommands {
    /// The byte code of a code.
    Code { code_id: u64 },
    /// The ids of all codes.
    Codes,
    /// The contracts that were instantiated from a code.
    ContractsByCode { code_id: u64 },
    /// What is known of a contract.
    ContractInfo { address: AccAddress },
    /// A query that the contract answers; `query` is JSON, as text or in
    /// hexadecimal.
    Smart { address: AccAddress, query: String },
    /// One key of a contract's storage; `key` is text or hexadecimal.
    Raw { address: AccAddress, key: String },
}

/// The query part of the command line.
#[derive(Debug)]
pub struct WasmQueryCli {
    pub command: WasmQueryCommands,
}

/// Turns query commands into queries.
#[derive(Clone, Copy, Debug)]
pub struct WasmQueryHandler;

impl WasmQueryHandler {
    /// The query that a command asks for.
    pub fn prepare_query_request(&self, command: &WasmQueryCli) -> (r: WasmQuery)
        ensures
            match (command.command, r) {
                (WasmQueryCommands::Code { code_id }, WasmQuery::Code(q)) => q.code_id == code_id,
                (WasmQueryCommands::Codes, WasmQuery::Codes(_)) => true,
                (
                    WasmQueryCommands::ContractsByCode { code_id },
                    WasmQuery::ContractsByCode(q),
                ) => q.code_id == code_id && q.pagination is None,
                (WasmQueryCommands::ContractInfo { address }, WasmQuery::ContractInfo(q)) =>
                    q.address@ == address@,
                (
                    WasmQueryCommands::Smart { address, query },
                    WasmQuery::SmartContractState(q),
                ) => q.address@ == address@ && q.query_data@ == match hex_decoding(
                    encode_utf8(query@),
                ) {
                    Some(bytes) => bytes,
                    None => encode_utf8(query@),
                },
                (WasmQueryCommands::Raw { address, key }, WasmQuery::RawContractState(q)) =>
                    q.address@ == address@ && q.query_data@ == match hex_decoding(
                        encode_utf8(key@),
                    ) {
                        Some(bytes) => bytes,
                        None => encode_utf8(key@),
                    },
                _ => false,
            },
    {
        match &command.command {
            WasmQueryCommands::Code { code_id } => WasmQuery::Code(QueryCode { code_id: *code_id }),
            WasmQueryCommands::Codes => WasmQuery::Codes(QueryCodes {  }),
            WasmQueryCommands::ContractsByCode { code_id } => WasmQuery::ContractsByCode(
                QueryContractsByCode { code_id: *code_id, pagination: None },
            ),
            WasmQueryCommands::ContractInfo { address } => WasmQuery::ContractInfo(
                QueryContractInfo { address: address.duplicate() },
            ),
            WasmQueryCommands::Smart { address, query } => WasmQuery::SmartContractState(
                QuerySmartContractState {
                    address: address.duplicate(),
                    query_data: payload_bytes(query.as_str()),
                },
            ),
            WasmQueryCommands::Raw { address, key } => WasmQuery::RawContractState(
                QueryRawContractState {
                    address: address.duplicate(),
                    query_data: payload_bytes(key.as_str()),
                },
            ),
        }
    }
}

/// The transaction commands of the wasm module.
#[derive(Debug)]
pub enum WasmCommands {
    /// Uploads the wasm byte code in the file at the given path.
    StoreCode { file: String },
    /// Instantiates a contract from a code; `msg` is JSON, as text or in
    /// hexadecimal.
    Instantiate { code_id: u64, msg: String },
    /// Calls a contract; `msg` is JSON, as text or in hexadecimal.
    Execute { contract: AccAddress, msg: String },
}

/// The transaction part of the command line.
#[derive(Debug)]
pub struct WasmTxCli {
    pub command: WasmCommands,
}

impl WasmCommands {
    /// The path of the file that the command needs the contents of, if
    /// it needs one.
    pub fn wasm_file(&self) -> (r: Option<&String>)
        ensures
            match self {
                WasmCommands::StoreCode { file } => r == Some(file),
                _ => r is None,
            },
    {
        match self {
            WasmCommands::StoreCode { file } => Some(file),
            _ => None,
        }
    }

    /// The message for the contract that the command carries, if it
    /// carries one: see [`payload_bytes`].
    pub fn payload(&self) -> (r: Option<Vec<u8>>)
        ensures
            match self {
                WasmCommands::StoreCode { .. } => r is None,
                WasmCommands::Instantiate { msg, .. } | WasmCommands::Execute { msg, .. } => r
                    matches Some(bytes) && bytes@ == match hex_decoding(encode_utf8(msg@)) {
                    Some(decoded) => decoded,
                    None => encode_utf8(msg@),
                },
            },
    {
        match self {
            WasmCommands::StoreCode { .. } => None,
            WasmCommands::Instantiate { msg, .. } => Some(payload_bytes(msg.as_str())),
            WasmCommands::Execute { msg, .. } => Some(payload_bytes(msg.as_str())),
        }
    }
}

/// The message that uploads `wasm` for `sender`, with no word on who may
/// instantiate it.
pub fn store_code_message(sender: AccAddress, wasm: Vec<u8>) -> (m: Message)
    ensures
        m matches Message::StoreCode(msg) && msg.sender == sender && msg.wasm_byte_code == wasm
            && msg.instantiate_permission is None,
{
    Message::StoreCode(
        MsgStoreCode { sender, wasm_byte_code: wasm, instantiate_permission: None },
    )
}

/// The arguments of the command that sets the parameters.
#[derive(Debug)]
pub struct SetParamsArgs {
    /// The path of a file with the parameters as JSON.
    pub file: String,
}

/// The parameter commands of the wasm module.
#[derive(Debug)]
pub enum WasmParamsCommand {
    /// Shows the parameters.
    Show,
    /// Sets the parameters from a file.
    SetParams(SetParamsArgs),
}

/// The parameter part of the command line.
#[derive(Debug)]
pub struct WasmParamsCli {
    pub command: WasmParamsCommand,
}

impl WasmParamsCli {
    /// The path of the file that holds the new parameters, where the
    /// command sets them.
    pub fn params_file(&self) -> (r: Option<&String>)
        ensures
            match self.command {
                WasmParamsCommand::Show => r is None,
                WasmParamsCommand::SetParams(args) => r == Some(&args.file),
            },
    {
        match &self.command {
            WasmParamsCommand::Show => None,
            WasmParamsCommand::SetParams(args) => Some(&args.file),
        }
    }
}

} // verus!
