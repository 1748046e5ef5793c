//! The parameters of the wasm module, their raw form in the parameter
//! subspace, and the keeper that reads and writes them there.

use vstd::prelude::*;
use crate::decimal::{decimal_bytes, decimal_digits, decimal_value, parse_decimal,
    lemma_decimal_round_trip};
use crate::gas::OutOfGas;
use crate::message::{AccessConfig, AccessConfigModel, AccessType, CoreError, decoded_addresses,
    permission_model};
use crate::wasmvm::string_models;
use crate::store::byte_map::Stored;

verus! {

/// The key of the parameter that says who may upload code.
pub const KEY_CODE_UPLOAD_ACCESS: &'static str = "code_upload_access";

/// The key of the parameter that says who may instantiate code for which
/// nothing else was said.
pub const KEY_INSTANTIATE_DEFAULT_PERMISSION: &'static str = "instantiate_default_permission";

/// The key of the parameter that bounds the size of uploaded code.
pub const KEY_MAX_CONTRACT_SIZE: &'static str = "max_contract_size";

/// The key of the parameter that bounds the gas of a smart query.
pub const KEY_QUERY_GAS_LIMIT: &'static str = "query_gas_limit";

/// The key of the parameter that sizes the cache of compiled contracts.
pub const KEY_MEMORY_CACHE_SIZE: &'static str = "memory_cache_size";

/// The largest contract size where nothing else was said.
pub const DEFAULT_MAX_CONTRACT_SIZE: u64 = 1000000;

/// The gas limit of smart queries where nothing else was said.
pub const DEFAULT_QUERY_GAS_LIMIT: u64 = 3000000;

/// The size of the cache where nothing else was said.
pub const DEFAULT_MEMORY_CACHE_SIZE: u32 = 40;

/// The parameters of the wasm module.
#[derive(Debug, PartialEq)]
pub struct Params {
    /// Who may upload code.
    pub code_upload_access: AccessConfig,
    /// Who may instantiate code for which nothing else was said.
    pub instantiate_default_permission: AccessType,
    /// The largest size of uploaded contract code, in bytes.
    pub max_contract_size: u64,
    /// The gas limit of a smart query.
    pub query_gas_limit: u64,
    /// The number of compiled contracts that are cached in memory.
    pub memory_cache_size: u32,
}

/// What the parameters say.
pub struct ParamsModel {
    pub code_upload_access: AccessConfigModel,
    pub instantiate_default_permission: AccessType,
    pub max_contract_size: u64,
    pub query_gas_limit: u64,
    pub memory_cache_size: u32,
}

/// The raw values of the parameters, each as it stands in the subspace
/// under its key, or `None` where the key is not there.
#[derive(Debug, PartialEq, Eq)]
pub struct RawParams {
    pub code_upload_access: Option<Vec<u8>>,
    pub instantiate_default_permission: Option<Vec<u8>>,
    pub max_contract_size: Option<Vec<u8>>,
    pub query_gas_limit: Option<Vec<u8>>,
    pub memory_cache_size: Option<Vec<u8>>,
}

/// The number that a raw value stands for in decimal, if it is there and
/// stands for one.
pub open spec fn raw_number(raw: Option<Seq<u8>>) -> Option<u64> {
    match raw {
        Some(bytes) => decimal_value(bytes),
        None => None,
    }
}

/// The access type that a raw value stands for: that of its number cut to
/// 32 bits, and `Unspecified` where there is no number.
pub open spec fn raw_permission(raw: Option<Seq<u8>>) -> AccessType {
    match raw_number(raw) {
        Some(n) => AccessType::of_number(n as int % 0x1_0000_0000),
        None => AccessType::Unspecified,
    }
}

/// What a raw value stands for as a number, with `default` where it
/// stands for none.
pub open spec fn raw_or(raw: Option<Seq<u8>>, default: u64) -> u64 {
    match raw_number(raw) {
        Some(n) => n,
        None => default,
    }
}

/// Why the parameters could not be read.
#[derive(Debug)]
pub enum ParamsError {
    /// The meter could not pay for a read.
    OutOfGas(OutOfGas),
    /// A parameter is not there.
    Missing,
    /// A parameter is there and cannot be read.
    Malformed,
}

impl RawParams {
    /// Whether all five values are there.
    pub open spec fn complete(&self) -> bool {
        &&& self.code_upload_access is Some
        &&& self.instantiate_default_permission is Some
        &&& self.max_contract_size is Some
        &&& self.query_gas_limit is Some
        &&& self.memory_cache_size is Some
    }

    /// Whether the four numbers are numbers.
    pub open spec fn numbers_readable(&self) -> bool {
        &&& raw_number(self.instantiate_default_permission.model()) is Some
        &&& raw_number(self.max_contract_size.model()) is Some
        &&& raw_number(self.query_gas_limit.model()) is Some
        &&& raw_number(self.memory_cache_size.model()) is Some
    }
}

/// The number that an optional raw value stands for.
fn parse_raw(raw: &Option<Vec<u8>>) -> (r: Option<u64>)
    ensures
        r == raw_number(raw.model()),
{
    match raw {
        Some(bytes) => parse_decimal(bytes.as_slice()),
        None => None,
    }
}

/// Turns the access configuration of the parameters into bytes and back.
/// The module stores what `encode` gives and takes what `decode` makes of
/// it, and says of both what the codec says.
pub trait AccessConfigCodec {
    /// What the codec says of its encoding: whether `bytes` can stand for
    /// `config`. A codec that says nothing of it leaves this as it is.
    open spec fn encodes(&self, config: AccessConfigModel, bytes: Seq<u8>) -> bool {
        true
    }

    /// What the codec says of its decoding: whether `r` can be what it
    /// makes of `bytes`. A codec that says nothing of it leaves this as
    /// it is.
    open spec fn decodes(&self, bytes: Seq<u8>, r: Option<AccessConfigModel>) -> bool {
        true
    }

    /// The bytes that stand for `config`.
    fn encode(&self, config: &AccessConfig) -> (r: Vec<u8>)
        ensures
            self.encodes(config@, r@),
    ;

    /// The configuration that `bytes` stand for, if they stand for one.
    fn decode(&self, bytes: &[u8]) -> (r: Option<AccessConfig>)
        ensures
            self.decodes(bytes@, permission_model(r)),
    ;
}

impl Params {
    /// What the parameters say.
    pub open spec fn view(&self) -> ParamsModel {
        ParamsModel {
            code_upload_access: self.code_upload_access@,
            instantiate_default_permission: self.instantiate_default_permission,
            max_contract_size: self.max_contract_size,
            query_gas_limit: self.query_gas_limit,
            memory_cache_size: self.memory_cache_size,
        }
    }

    /// The parameters that the fields stand for as they come over the
    /// wire, which carries the upload access and the default permission
    /// only: the sizes and limits are the defaults. An upload access that
    /// is missing counts as unspecified.
    pub fn from_parts(
        code_upload_access: Option<(i32, Vec<String>)>,
        instantiate_default_permission: i32,
    ) -> (r: Result<Params, CoreError>)
        ensures
            match code_upload_access {
                None => r matches Ok(p) && p@ == (ParamsModel {
                    code_upload_access: AccessConfigModel {
                        permission: AccessType::Unspecified,
                        addresses: Seq::empty(),
                    },
                    instantiate_default_permission: AccessType::of_number(
                        instantiate_default_permission as int,
                    ),
                    max_contract_size: DEFAULT_MAX_CONTRACT_SIZE,
                    query_gas_limit: DEFAULT_QUERY_GAS_LIMIT,
                    memory_cache_size: DEFAULT_MEMORY_CACHE_SIZE,
                }),
                Some((n, texts)) => match decoded_addresses(string_models(texts@)) {
                    Err(e) => r matches Err(CoreError::DecodeAddress(f)) && f == e,
                    Ok(found) => r matches Ok(p) && p@ == (ParamsModel {
                        code_upload_access: AccessConfigModel {
                            permission: AccessType::of_number(n as int),
                            addresses: found,
                        },
                        instantiate_default_permission: AccessType::of_number(
                            instantiate_default_permission as int,
                        ),
                        max_contract_size: DEFAULT_MAX_CONTRACT_SIZE,
                        query_gas_limit: DEFAULT_QUERY_GAS_LIMIT,
                        memory_cache_size: DEFAULT_MEMORY_CACHE_SIZE,
                    }),
                },
            },
    {
        let code_upload_access = match code_upload_access {
            Some((n, texts)) => match AccessConfig::from_parts(n, &texts) {
                Ok(c) => c,
                Err(e) => {
                    return Err(e);
                },
            },
            None => AccessConfig::unspecified(),
        };
        Ok(
            Params {
                code_upload_access,
                instantiate_default_permission: AccessType::from_i32(instantiate_default_permission),
                max_contract_size: DEFAULT_MAX_CONTRACT_SIZE,
                query_gas_limit: DEFAULT_QUERY_GAS_LIMIT,
                memory_cache_size: DEFAULT_MEMORY_CACHE_SIZE,
            },
        )
    }

    /// The keys under which the parameters stand in the subspace, in the
    /// order of [`Params::to_raw`].
    pub fn keys() -> (r: Vec<&'static str>)
        ensures
            r@ == seq![
                KEY_CODE_UPLOAD_ACCESS,
                KEY_INSTANTIATE_DEFAULT_PERMISSION,
                KEY_MAX_CONTRACT_SIZE,
                KEY_QUERY_GAS_LIMIT,
                KEY_MEMORY_CACHE_SIZE,
            ],
    {
        let mut r: Vec<&'static str> = Vec::new();
        r.push(KEY_CODE_UPLOAD_ACCESS);
        r.push(KEY_INSTANTIATE_DEFAULT_PERMISSION);
        r.push(KEY_MAX_CONTRACT_SIZE);
        r.push(KEY_QUERY_GAS_LIMIT);
        r.push(KEY_MEMORY_CACHE_SIZE);
        assert(r@ =~= seq![
            KEY_CODE_UPLOAD_ACCESS,
            KEY_INSTANTIATE_DEFAULT_PERMISSION,
            KEY_MAX_CONTRACT_SIZE,
            KEY_QUERY_GAS_LIMIT,
            KEY_MEMORY_CACHE_SIZE,
        ]);
        r
    }

    /// The raw values of the parameters: the numbers in decimal, and for
    /// the upload access the bytes that the caller's codec made of it.
    pub fn to_raw(&self, code_upload_access: Vec<u8>) -> (raw: RawParams)
        ensures
            raw.code_upload_access.model() == Some(code_upload_access@),
            raw.instantiate_default_permission.model() == Some(
                decimal_digits(self.instantiate_default_permission.number() as nat),
            ),
            raw.max_contract_size.model() == Some(decimal_digits(self.max_contract_size as nat)),
            raw.query_gas_limit.model() == Some(decimal_digits(self.query_gas_limit as nat)),
            raw.memory_cache_size.model() == Some(decimal_digits(self.memory_cache_size as nat)),
    {
        RawParams {
            code_upload_access: Some(code_upload_access),
            instantiate_default_permission: Some(
                decimal_bytes(self.instantiate_default_permission.to_i32() as u64),
            ),
            max_contract_size: Some(decimal_bytes(self.max_contract_size)),
            query_gas_limit: Some(decimal_bytes(self.query_gas_limit)),
            memory_cache_size: Some(decimal_bytes(self.memory_cache_size as u64)),
        }
    }

    /// The parameters that raw values stand for, where all of them are
    /// there and can be read; `code_upload_access` is what the caller's
    /// codec made of the raw upload access, or `None` where it made
    /// nothing of it. Nothing is made up for: a value that is not there is
    /// reported as missing, and one that cannot be read as malformed. The
    /// permission and the cache size are cut to 32 bits.
    pub fn try_from_raw(raw: &RawParams, code_upload_access: Option<AccessConfig>) -> (r: Result<
        Params,
        ParamsError,
    >)
        ensures
            match r {
                Ok(p) => {
                    &&& raw.complete()
                    &&& raw.numbers_readable()
                    &&& code_upload_access matches Some(c)
                    &&& p.code_upload_access@ == c@
                    &&& p.instantiate_default_permission == raw_permission(
                        raw.instantiate_default_permission.model(),
                    )
                    &&& Some(p.max_contract_size) == raw_number(raw.max_contract_size.model())
                    &&& Some(p.query_gas_limit) == raw_number(raw.query_gas_limit.model())
                    &&& raw_number(raw.memory_cache_size.model()) matches Some(n)
                    &&& p.memory_cache_size == n % 0x1_0000_0000
                },
                Err(ParamsError::Missing) => !raw.complete(),
                Err(ParamsError::Malformed) => raw.complete() && (!raw.numbers_readable()
                    || code_upload_access is None),
                Err(ParamsError::OutOfGas(_)) => false,
            },
    {
        if raw.code_upload_access.is_none() || raw.instantiate_default_permission.is_none()
            || raw.max_contract_size.is_none() || raw.query_gas_limit.is_none()
            || raw.memory_cache_size.is_none() {
            return Err(ParamsError::Missing);
        }
        let permission = parse_raw(&raw.instantiate_default_permission);
        let max_contract_size = parse_raw(&raw.max_contract_size);
        let query_gas_limit = parse_raw(&raw.query_gas_limit);
        let memory_cache_size = parse_raw(&raw.memory_cache_size);
        match (permission, max_contract_size, query_gas_limit, memory_cache_size, code_upload_access) {
            (Some(n), Some(max_contract_size), Some(query_gas_limit), Some(cache), Some(access)) => Ok(
                Params {
                    code_upload_access: access,
                    instantiate_default_permission: permission_of(n),
                    max_contract_size,
                    query_gas_limit,
                    memory_cache_size: (cache % 0x1_0000_0000) as u32,
                },
            ),
            _ => Err(ParamsError::Malformed),
        }
    }

    /// The parameters that raw values stand for, with every value that
    /// is missing or malformed made up for: a convenience for tests and
    /// tools, which the keeper does not use. The permission is then
    /// `Unspecified`, the sizes and limits are the defaults, and the
    /// upload access, which the caller's codec has decoded or not, is the
    /// unspecified one. The cache size is cut to 32 bits.
    pub fn from_raw(raw: &RawParams, code_upload_access: Option<AccessConfig>) -> (p: Params)
        ensures
            p.code_upload_access@ == match code_upload_access {
                Some(c) => c@,
                None => AccessConfigModel {
                    permission: AccessType::Unspecified,
                    addresses: Seq::empty(),
                },
            },
            p.instantiate_default_permission == raw_permission(
                raw.instantiate_default_permission.model(),
            ),
            p.max_contract_size == raw_or(raw.max_contract_size.model(), DEFAULT_MAX_CONTRACT_SIZE),
            p.query_gas_limit == raw_or(raw.query_gas_limit.model(), DEFAULT_QUERY_GAS_LIMIT),
            p.memory_cache_size == raw_or(
                raw.memory_cache_size.model(),
                DEFAULT_MEMORY_CACHE_SIZE as u64,
            ) % 0x1_0000_0000,
    {
        let code_upload_access = match code_upload_access {
            Some(c) => c,
            None => AccessConfig::unspecified(),
        };
        let instantiate_default_permission = match parse_raw(&raw.instantiate_default_permission) {
            Some(n) => permission_of(n),
            None => AccessType::Unspecified,
        };
        let max_contract_size = match parse_raw(&raw.max_contract_size) {
            Some(n) => n,
            None => DEFAULT_MAX_CONTRACT_SIZE,
        };
        let query_gas_limit = match parse_raw(&raw.query_gas_limit) {
            Some(n) => n,
            None => DEFAULT_QUERY_GAS_LIMIT,
        };
        let memory_cache_size: u32 = match parse_raw(&raw.memory_cache_size) {
            Some(n) => (n % 0x1_0000_0000) as u32,
            None => DEFAULT_MEMORY_CACHE_SIZE,
        };
        Params {
            code_upload_access,
            instantiate_default_permission,
            max_contract_size,
            query_gas_limit,
            memory_cache_size,
        }
    }
}

/// The access type of a stored number, cut to 32 bits.
fn permission_of(n: u64) -> (t: AccessType)
    ensures
        t == AccessType::of_number(n as int % 0x1_0000_0000),
{
    let low: u64 = n % 0x1_0000_0000;
    if low == 1 {
        AccessType::Nobody
    } else if low == 3 {
        AccessType::Everybody
    } else if low == 4 {
        AccessType::AnyOfAddresses
    } else {
        AccessType::Unspecified
    }
}

impl Default for Params {
    fn default() -> (p: Params)
        ensures
            p@ == (ParamsModel {
                code_upload_access: AccessConfigModel {
                    permission: AccessType::Everybody,
                    addresses: Seq::empty(),
                },
                instantiate_default_permission: AccessType::Everybody,
                max_contract_size: 1000000,
                query_gas_limit: 3000000,
                memory_cache_size: 40,
            }),
    {
        let access = AccessConfig { permission: AccessType::Everybody, addresses: Vec::new() };
        assert(access@.addresses =~= Seq::empty());
        Params {
            code_upload_access: access,
            instantiate_default_permission: AccessType::Everybody,
            max_contract_size: DEFAULT_MAX_CONTRACT_SIZE,
            query_gas_limit: DEFAULT_QUERY_GAS_LIMIT,
            memory_cache_size: DEFAULT_MEMORY_CACHE_SIZE,
        }
    }
}

/// Writing the numbers of the parameters and reading them back gives the
/// same numbers.
pub proof fn lemma_params_numbers_round_trip(p: ParamsModel)
    ensures
        raw_permission(Some(decimal_digits(p.instantiate_default_permission.number() as nat)))
            == p.instantiate_default_permission,
        raw_or(Some(decimal_digits(p.max_contract_size as nat)), DEFAULT_MAX_CONTRACT_SIZE)
            == p.max_contract_size,
        raw_or(Some(decimal_digits(p.query_gas_limit as nat)), DEFAULT_QUERY_GAS_LIMIT)
            == p.query_gas_limit,
        raw_or(Some(decimal_digits(p.memory_cache_size as nat)), DEFAULT_MEMORY_CACHE_SIZE as u64)
            % 0x1_0000_0000 == p.memory_cache_size,
{
    lemma_decimal_round_trip(p.instantiate_default_permission.number() as u64);
    lemma_decimal_round_trip(p.max_contract_size);
    lemma_decimal_round_trip(p.query_gas_limit);
    lemma_decimal_round_trip(p.memory_cache_size as u64);
}

} // verus!
