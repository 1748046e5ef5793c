//! The keeper of the wasm module: the one handle through which the module
//! reaches its namespace and its parameter subspace.
//!
//! The namespace holds, each under a one-byte prefix:
//!
//! | prefix | key after the prefix        | value                         |
//! |--------|-----------------------------|-------------------------------|
//! | `0x01` | code id, 8 bytes big endian | the wasm byte code            |
//! | `0x02` | address length, address     | the code id of the contract   |
//! | `0x03` | name of a sequence          | the sequence, 8 bytes         |
//! | `0x04` | code id, 8 bytes big endian | the code info, as protobuf    |

use vstd::prelude::*;
use vstd::string::StringSliceAdditionalSpecFns;
use crate::address::{AccAddress, bech32_encoding};
use crate::bytes::{bytes_eq, join, copy_bytes};
use crate::context::{ContextState, QueryableContext, WritableContext, key_models, read_all,
    read_costs, with_entries, write_all, write_costs};
use crate::decimal::{decimal_digits, decimal_value, parse_decimal};
use crate::endian::{be_bytes, be_number, u64_from_be, u64_to_be};
use crate::engine::WasmEngine;
use crate::error::WasmError;
use crate::gas::{OutOfGas, write_cost};
use crate::message::{AccessConfig, AccessConfigModel, AccessType, address_texts, encode_addresses};
use crate::params::{AccessConfigCodec, Params, ParamsError, RawParams, raw_number,
    KEY_CODE_UPLOAD_ACCESS, KEY_INSTANTIATE_DEFAULT_PERMISSION, KEY_MAX_CONTRACT_SIZE,
    KEY_MEMORY_CACHE_SIZE, KEY_QUERY_GAS_LIMIT, raw_or, raw_permission, DEFAULT_MAX_CONTRACT_SIZE,
    DEFAULT_MEMORY_CACHE_SIZE, DEFAULT_QUERY_GAS_LIMIT};
use crate::store::byte_map::{Stored, entry_models};
use crate::store::multi::{Layer, StoreKey};
use crate::store::table::{Table, lookup};
use crate::store::view::{Source, get_cost};
use crate::wasmvm::{Checksum, string_models};

verus! {

/// The prefix of the keys under which wasm byte code is stored.
pub const CODE_STORE_PREFIX: u8 = 0x01;

/// The prefix of the keys under which contracts are stored.
pub const CONTRACT_STORE_PREFIX: u8 = 0x02;

/// The prefix of the keys under which sequences are stored.
pub const SEQUENCE_STORE_PREFIX: u8 = 0x03;

/// The prefix of the keys under which code infos are stored.
pub const CODE_INDEX_PREFIX: u8 = 0x04;

/// The name of the sequence of code ids: `lastCodeId`.
pub open spec fn seq_code_id() -> Seq<u8> {
    seq![108u8, 97u8, 115u8, 116u8, 67u8, 111u8, 100u8, 101u8, 73u8, 100u8]
}

/// The key of the wasm byte code with the given id.
pub open spec fn code_key_of(id: u64) -> Seq<u8> {
    seq![CODE_STORE_PREFIX] + be_bytes(id)
}

/// The key of the code info with the given id.
pub open spec fn code_info_key_of(id: u64) -> Seq<u8> {
    seq![CODE_INDEX_PREFIX] + be_bytes(id)
}

/// The key of the contract at the given address.
pub open spec fn contract_key_of(addr: Seq<u8>) -> Seq<u8> {
    seq![CONTRACT_STORE_PREFIX, addr.len() as u8] + addr
}

/// The key of the sequence with the given name.
pub open spec fn sequence_key_of(name: Seq<u8>) -> Seq<u8> {
    seq![SEQUENCE_STORE_PREFIX] + name
}

/// The name of the sequence of code ids.
pub fn key_seq_code_id() -> (r: Vec<u8>)
    ensures
        r@ == seq_code_id(),
{
    let mut r: Vec<u8> = Vec::new();
    r.push(108);
    r.push(97);
    r.push(115);
    r.push(116);
    r.push(67);
    r.push(111);
    r.push(100);
    r.push(101);
    r.push(73);
    r.push(100);
    assert(r@ =~= seq_code_id());
    r
}

/// A one-byte prefix followed by `rest`.
fn prefixed(prefix: u8, rest: &[u8]) -> (r: Vec<u8>)
    ensures
        r@ == seq![prefix] + rest@,
{
    let mut head: Vec<u8> = Vec::new();
    head.push(prefix);
    assert(head@ =~= seq![prefix]);
    join(head.as_slice(), rest)
}

/// The key under which the wasm byte code with the id `id` is stored.
pub fn code_key(id: u64) -> (r: Vec<u8>)
    ensures
        r@ == code_key_of(id),
{
    prefixed(CODE_STORE_PREFIX, u64_to_be(id).as_slice())
}

/// The key under which the code info with the id `id` is stored.
pub fn code_info_key(id: u64) -> (r: Vec<u8>)
    ensures
        r@ == code_info_key_of(id),
{
    prefixed(CODE_INDEX_PREFIX, u64_to_be(id).as_slice())
}

/// The key under which the contract at `addr` is stored.
pub fn contract_key(addr: &AccAddress) -> (r: Vec<u8>)
    ensures
        r@ == contract_key_of(addr@),
{
    let mut head: Vec<u8> = Vec::new();
    head.push(CONTRACT_STORE_PREFIX);
    head.push(addr.len());
    assert(head@ =~= seq![CONTRACT_STORE_PREFIX, addr@.len() as u8]);
    join(head.as_slice(), addr.as_bytes())
}

/// The key under which the sequence `name` is stored.
pub fn sequence_key(name: &[u8]) -> (r: Vec<u8>)
    ensures
        r@ == sequence_key_of(name@),
{
    prefixed(SEQUENCE_STORE_PREFIX, name)
}

/// Why a sequence gave no number.
#[derive(Debug)]
pub enum SequenceError {
    /// The meter could not pay for the read or for the write.
    OutOfGas(OutOfGas),
    /// The sequence is at the largest number.
    Exhausted,
}

/// The value of the sequence `name` in the table `t`: what is stored, if
/// it has eight bytes, and 0 else.
pub open spec fn sequence_value(t: Table, name: Seq<u8>) -> u64 {
    match lookup(t, sequence_key_of(name)) {
        Some(v) => be_number(v),
        None => 0,
    }
}

/// The cost of writing a sequence.
pub open spec fn sequence_write_cost(name: Seq<u8>) -> nat {
    write_cost(sequence_key_of(name).len(), 8)
}

/// Whether [`next_sequence`] gives a number.
pub open spec fn sequence_moves(st: ContextState, key: StoreKey, name: Seq<u8>) -> bool {
    let t = st.namespace(key);
    &&& st.affords(get_cost(t, sequence_key_of(name)))
    &&& sequence_value(t, name) < u64::MAX
    &&& st.paid(get_cost(t, sequence_key_of(name))).affords(sequence_write_cost(name))
}

/// The state after [`next_sequence`] was tried: the read is paid for if
/// it can be, and then the sequence is written, one further, if it is not
/// at the largest number and the write can be paid for.
pub open spec fn after_sequence(st: ContextState, key: StoreKey, name: Seq<u8>) -> ContextState {
    let t = st.namespace(key);
    let read = st.paid(get_cost(t, sequence_key_of(name)));
    if st.affords(get_cost(t, sequence_key_of(name))) && sequence_value(t, name) < u64::MAX {
        read.after_write(
            key,
            sequence_key_of(name),
            Some(be_bytes((sequence_value(t, name) + 1) as u64)),
            sequence_write_cost(name),
        )
    } else {
        read
    }
}

/// Moves the sequence `name` of the namespace `store_key` one further
/// and returns its new value: the first call returns 1.
pub fn next_sequence<CTX: WritableContext>(ctx: &mut CTX, store_key: &StoreKey, name: &[u8]) -> (r:
    Result<u64, SequenceError>)
    requires
        old(ctx).state().wf(),
        old(ctx).state().writable(),
        old(ctx).state().registered(*store_key),
    ensures
        final(ctx).state() == after_sequence(old(ctx).state(), *store_key, name@),
        match r {
            Ok(n) => sequence_moves(old(ctx).state(), *store_key, name@) && n == sequence_value(
                old(ctx).state().namespace(*store_key),
                name@,
            ) + 1,
            Err(SequenceError::Exhausted) => old(ctx).state().affords(
                get_cost(old(ctx).state().namespace(*store_key), sequence_key_of(name@)),
            ) && sequence_value(old(ctx).state().namespace(*store_key), name@) == u64::MAX,
            Err(SequenceError::OutOfGas(_)) => !sequence_moves(
                old(ctx).state(),
                *store_key,
                name@,
            ) && !(old(ctx).state().affords(
                get_cost(old(ctx).state().namespace(*store_key), sequence_key_of(name@)),
            ) && sequence_value(old(ctx).state().namespace(*store_key), name@) == u64::MAX),
        },
{
    let key = sequence_key(name);
    let current: u64 = match ctx.get(store_key, key.as_slice()) {
        Ok(Some(v)) => u64_from_be(v.as_slice()),
        Ok(None) => 0,
        Err(e) => {
            return Err(SequenceError::OutOfGas(e));
        },
    };
    if current == u64::MAX {
        return Err(SequenceError::Exhausted);
    }
    let next: u64 = current + 1;
    match ctx.set(store_key, key.as_slice(), u64_to_be(next)) {
        Ok(()) => Ok(next),
        Err(e) => Err(SequenceError::OutOfGas(e)),
    }
}

/// The key of a parameter subspace: the namespace that holds it, and its
/// name, which comes before the key of each of its parameters.
#[derive(Debug)]
pub struct ParamsSubspaceKey {
    pub store: StoreKey,
    pub name: Vec<u8>,
}

/// The key of the parameter `key` in the subspace `name`: the name, a
/// slash, and the key.
pub open spec fn param_key_of(name: Seq<u8>, key: Seq<u8>) -> Seq<u8> {
    name + seq![47u8] + key
}

/// The keys of the five parameters in the subspace `name`, in the order
/// of [`Params::keys`].
pub open spec fn param_keys_of(name: Seq<u8>) -> Seq<Seq<u8>> {
    seq![
        param_key_of(name, KEY_CODE_UPLOAD_ACCESS.spec_bytes()),
        param_key_of(name, KEY_INSTANTIATE_DEFAULT_PERMISSION.spec_bytes()),
        param_key_of(name, KEY_MAX_CONTRACT_SIZE.spec_bytes()),
        param_key_of(name, KEY_QUERY_GAS_LIMIT.spec_bytes()),
        param_key_of(name, KEY_MEMORY_CACHE_SIZE.spec_bytes()),
    ]
}

impl ParamsSubspaceKey {
    /// The key of the parameter `key` in this subspace.
    pub fn param_key(&self, key: &str) -> (r: Vec<u8>)
        ensures
            r@ == param_key_of(self.name@, key.spec_bytes()),
    {
        let mut slash: Vec<u8> = Vec::new();
        slash.push(47);
        assert(slash@ =~= seq![47u8]);
        let head = join(self.name.as_slice(), slash.as_slice());
        join(head.as_slice(), key.as_bytes())
    }

    /// The keys of the five parameters in this subspace.
    pub fn param_keys(&self) -> (r: Vec<Vec<u8>>)
        ensures
            key_models(r@) == param_keys_of(self.name@),
    {
        let mut r: Vec<Vec<u8>> = Vec::new();
        r.push(self.param_key(KEY_CODE_UPLOAD_ACCESS));
        r.push(self.param_key(KEY_INSTANTIATE_DEFAULT_PERMISSION));
        r.push(self.param_key(KEY_MAX_CONTRACT_SIZE));
        r.push(self.param_key(KEY_QUERY_GAS_LIMIT));
        r.push(self.param_key(KEY_MEMORY_CACHE_SIZE));
        assert(key_models(r@) =~= param_keys_of(self.name@));
        r
    }
}

/// The costs of reading the five parameters of the subspace `name` in the
/// table `t`.
pub open spec fn params_read_costs(t: Table, name: Seq<u8>) -> Seq<nat> {
    read_costs(t, param_keys_of(name))
}

/// Whether the table `t` holds all five parameters of the subspace
/// `name`.
pub open spec fn params_present(t: Table, name: Seq<u8>) -> bool {
    forall|i: int| 0 <= i < 5 ==> lookup(t, #[trigger] param_keys_of(name)[i]) is Some
}

/// Whether the four numbers among the parameters that the table `t`
/// holds in the subspace `name` are numbers.
pub open spec fn params_numbers_readable(t: Table, name: Seq<u8>) -> bool {
    forall|i: int|
        1 <= i < 5 ==> raw_number(lookup(t, #[trigger] param_keys_of(name)[i])) is Some
}

/// Whether the parameters `p` are what the table `t` holds of them in the
/// subspace `name`: each number as it is stored, the permission and the
/// cache size cut to 32 bits. What the codec makes of the stored upload
/// access is its own.
pub open spec fn stored_params(t: Table, name: Seq<u8>, p: Params) -> bool {
    let keys = param_keys_of(name);
    &&& p.instantiate_default_permission == raw_permission(lookup(t, keys[1]))
    &&& Some(p.max_contract_size) == raw_number(lookup(t, keys[2]))
    &&& Some(p.query_gas_limit) == raw_number(lookup(t, keys[3]))
    &&& raw_number(lookup(t, keys[4])) matches Some(n) && p.memory_cache_size == n
        % 0x1_0000_0000
}

/// The bytes that an optional value holds, and none where it is not
/// there.
pub open spec fn bytes_or_none(v: Option<Seq<u8>>) -> Seq<u8> {
    match v {
        Some(bytes) => bytes,
        None => Seq::empty(),
    }
}

/// The bytes that stand for the upload access in the subspace `name` of
/// the table `t`.
pub open spec fn stored_access(t: Table, name: Seq<u8>) -> Seq<u8> {
    bytes_or_none(lookup(t, param_keys_of(name)[0]))
}

/// Whether `r` is what reading the parameters of the subspace `name`
/// with `codec` gives in a context in the state `st`: the parameters, if
/// the reads can be paid for, all five are there, the numbers are numbers
/// and the codec decodes the upload access; and else what was in the way.
/// A parameter that is not there is reported before one that cannot be
/// read.
pub open spec fn params_read<C: AccessConfigCodec>(
    codec: C,
    st: ContextState,
    store: StoreKey,
    name: Seq<u8>,
    r: Result<Params, ParamsError>,
) -> bool {
    let t = st.namespace(store);
    let affordable = st.affords_all(params_read_costs(t, name));
    match r {
        Ok(p) => {
            &&& affordable
            &&& params_present(t, name)
            &&& params_numbers_readable(t, name)
            &&& stored_params(t, name, p)
            &&& codec.decodes(stored_access(t, name), Some(p.code_upload_access@))
        },
        Err(ParamsError::OutOfGas(_)) => !affordable,
        Err(ParamsError::Missing) => affordable && !params_present(t, name),
        Err(ParamsError::Malformed) => affordable && params_present(t, name) && (
        !params_numbers_readable(t, name) || codec.decodes(stored_access(t, name), None)),
    }
}

/// The entries that stand for the parameters `p` in the subspace `name`,
/// in the order of [`Params::keys`], where `access` stands for the upload
/// access.
pub open spec fn param_entries(name: Seq<u8>, access: Seq<u8>, p: Params) -> Seq<
    (Seq<u8>, Seq<u8>),
> {
    param_entries_of(
        name,
        access,
        p.instantiate_default_permission,
        p.max_contract_size,
        p.query_gas_limit,
        p.memory_cache_size,
    )
}

/// The entries that stand for parameters in the subspace `name`: the
/// upload access as `access`, and each of the four numbers in decimal.
pub open spec fn param_entries_of(
    name: Seq<u8>,
    access: Seq<u8>,
    instantiate_default_permission: AccessType,
    max_contract_size: u64,
    query_gas_limit: u64,
    memory_cache_size: u32,
) -> Seq<(Seq<u8>, Seq<u8>)> {
    let keys = param_keys_of(name);
    seq![
        (keys[0], access),
        (keys[1], decimal_digits(instantiate_default_permission.number() as nat)),
        (keys[2], decimal_digits(max_contract_size as nat)),
        (keys[3], decimal_digits(query_gas_limit as nat)),
        (keys[4], decimal_digits(memory_cache_size as nat)),
    ]
}

/// The entries that stand for the default parameters in the subspace
/// `name`, where `access` stands for the upload access.
pub open spec fn default_param_entries(name: Seq<u8>, access: Seq<u8>) -> Seq<(Seq<u8>, Seq<u8>)> {
    param_entries_of(
        name,
        access,
        AccessType::Everybody,
        DEFAULT_MAX_CONTRACT_SIZE,
        DEFAULT_QUERY_GAS_LIMIT,
        DEFAULT_MEMORY_CACHE_SIZE,
    )
}

/// The keeper of the module's parameters in their subspace.
pub struct WasmParamsKeeper<C: AccessConfigCodec> {
    pub params_subspace_key: ParamsSubspaceKey,
    pub codec: C,
}

impl<C: AccessConfigCodec> WasmParamsKeeper<C> {
    /// The key of the subspace.
    pub fn psk(&self) -> (r: &ParamsSubspaceKey)
        ensures
            *r == self.params_subspace_key,
    {
        &self.params_subspace_key
    }

    /// The parameters that raw values stand for, with the upload access
    /// as the codec decodes it: see [`Params::try_from_raw`]. Where all
    /// values are there and the numbers are numbers, the codec decides:
    /// the parameters hold what it made of the raw upload access, and
    /// are malformed where it made nothing of it.
    pub fn decode(&self, raw: &RawParams) -> (r: Result<Params, ParamsError>)
        ensures
            match r {
                Ok(p) => {
                    &&& raw.complete()
                    &&& raw.numbers_readable()
                    &&& self.codec.decodes(
                        bytes_or_none(raw.code_upload_access.model()),
                        Some(p.code_upload_access@),
                    )
                    &&& p.instantiate_default_permission == raw_permission(
                        raw.instantiate_default_permission.model(),
                    )
                    &&& Some(p.max_contract_size) == raw_number(raw.max_contract_size.model())
                    &&& Some(p.query_gas_limit) == raw_number(raw.query_gas_limit.model())
                    &&& raw_number(raw.memory_cache_size.model()) matches Some(n)
                    &&& p.memory_cache_size == n % 0x1_0000_0000
                },
                Err(ParamsError::Missing) => !raw.complete(),
                Err(ParamsError::Malformed) => raw.complete() && (!raw.numbers_readable()
                    || self.codec.decodes(bytes_or_none(raw.code_upload_access.model()), None)),
                Err(ParamsError::OutOfGas(_)) => false,
            },
    {
        let access = match &raw.code_upload_access {
            Some(bytes) => self.codec.decode(bytes.as_slice()),
            None => None,
        };
        Params::try_from_raw(raw, access)
    }

    /// Reads the parameters from the subspace, key by key. Nothing is
    /// made up for: the read fails where the meter cannot pay, where a
    /// parameter is not there, and where one cannot be read.
    pub fn try_get<CTX: QueryableContext>(&self, ctx: &mut CTX) -> (r: Result<Params, ParamsError>)
        requires
            old(ctx).state().wf(),
            old(ctx).state().registered(self.params_subspace_key.store),
        ensures
            final(ctx).state() == old(ctx).state().paid_all(
                params_read_costs(
                    old(ctx).state().namespace(self.params_subspace_key.store),
                    self.params_subspace_key.name@,
                ),
            ),
            params_read(
                self.codec,
                old(ctx).state(),
                self.params_subspace_key.store,
                self.params_subspace_key.name@,
                r,
            ),
    {
        let keys = self.params_subspace_key.param_keys();
        let mut values = match read_all(ctx, &self.params_subspace_key.store, &keys) {
            Ok(values) => values,
            Err(e) => {
                return Err(ParamsError::OutOfGas(e));
            },
        };
        let ghost found = values@;
        let ghost names = param_keys_of(self.params_subspace_key.name@);
        proof {
            assert(key_models(keys@)[0] == names[0]);
            assert(key_models(keys@)[1] == names[1]);
            assert(key_models(keys@)[2] == names[2]);
            assert(key_models(keys@)[3] == names[3]);
            assert(key_models(keys@)[4] == names[4]);
        }
        let memory_cache_size = values.pop().unwrap();
        let query_gas_limit = values.pop().unwrap();
        let max_contract_size = values.pop().unwrap();
        let instantiate_default_permission = values.pop().unwrap();
        let code_upload_access = values.pop().unwrap();
        proof {
            assert(memory_cache_size == found[4]);
            assert(query_gas_limit == found[3]);
            assert(max_contract_size == found[2]);
            assert(instantiate_default_permission == found[1]);
            assert(code_upload_access == found[0]);
        }
        let raw = RawParams {
            code_upload_access,
            instantiate_default_permission,
            max_contract_size,
            query_gas_limit,
            memory_cache_size,
        };
        self.decode(&raw)
    }

    /// Writes the parameters into the subspace, key by key, with `access`
    /// for the upload access, and stops at the first write that the meter
    /// cannot pay for.
    pub fn set_raw<CTX: WritableContext>(&self, ctx: &mut CTX, params: &Params, access: Vec<u8>)
        -> (r: Result<(), OutOfGas>)
        requires
            old(ctx).state().wf(),
            old(ctx).state().writable(),
            old(ctx).state().registered(self.params_subspace_key.store),
        ensures
            final(ctx).state() == old(ctx).state().after_writes(
                self.params_subspace_key.store,
                param_entries(self.params_subspace_key.name@, access@, *params),
            ),
            r is Ok == old(ctx).state().affords_all(
                write_costs(param_entries(self.params_subspace_key.name@, access@, *params)),
            ),
    {
        let raw = params.to_raw(access);
        let mut entries: Vec<(Vec<u8>, Vec<u8>)> = Vec::new();
        let psk = &self.params_subspace_key;
        entries.push((psk.param_key(KEY_CODE_UPLOAD_ACCESS), raw.code_upload_access.unwrap()));
        entries.push(
            (
                psk.param_key(KEY_INSTANTIATE_DEFAULT_PERMISSION),
                raw.instantiate_default_permission.unwrap(),
            ),
        );
        entries.push((psk.param_key(KEY_MAX_CONTRACT_SIZE), raw.max_contract_size.unwrap()));
        entries.push((psk.param_key(KEY_QUERY_GAS_LIMIT), raw.query_gas_limit.unwrap()));
        entries.push((psk.param_key(KEY_MEMORY_CACHE_SIZE), raw.memory_cache_size.unwrap()));
        assert(entry_models(entries@) =~= param_entries(psk.name@, access@, *params));
        write_all(ctx, &psk.store, entries)
    }

    /// Writes the parameters into the subspace, with the upload access as
    /// the codec encodes it: see [`WasmParamsKeeper::set_raw`].
    pub fn try_set<CTX: WritableContext>(&self, ctx: &mut CTX, params: &Params) -> (r: Result<
        (),
        OutOfGas,
    >)
        requires
            old(ctx).state().wf(),
            old(ctx).state().writable(),
            old(ctx).state().registered(self.params_subspace_key.store),
        ensures
            exists|access: Seq<u8>|
                {
                    &&& #[trigger] self.codec.encodes(params.code_upload_access@, access)
                    &&& final(ctx).state() == old(ctx).state().after_writes(
                        self.params_subspace_key.store,
                        param_entries(self.params_subspace_key.name@, access, *params),
                    )
                    &&& r is Ok == old(ctx).state().affords_all(
                        write_costs(
                            param_entries(self.params_subspace_key.name@, access, *params),
                        ),
                    )
                },
    {
        let access = self.codec.encode(&params.code_upload_access);
        self.set_raw(ctx, params, access)
    }

    /// Whether `value` may stand under the parameter key `key`: a number
    /// in decimal for the four numbers, what the codec decodes for the
    /// upload access, and nothing for any other key.
    pub fn validate(&self, key: &[u8], value: &[u8]) -> (r: bool)
        ensures
            if key@ == KEY_INSTANTIATE_DEFAULT_PERMISSION.spec_bytes() || key@
                == KEY_MAX_CONTRACT_SIZE.spec_bytes() || key@ == KEY_QUERY_GAS_LIMIT.spec_bytes()
                || key@ == KEY_MEMORY_CACHE_SIZE.spec_bytes() {
                r == (decimal_value(value@) is Some)
            } else if key@ == KEY_CODE_UPLOAD_ACCESS.spec_bytes() {
                exists|decoded: Option<AccessConfigModel>| #[trigger]
                    self.codec.decodes(value@, decoded) && r == (decoded is Some)
            } else {
                !r
            },
    {
        if bytes_eq(key, KEY_INSTANTIATE_DEFAULT_PERMISSION.as_bytes()) || bytes_eq(
            key,
            KEY_MAX_CONTRACT_SIZE.as_bytes(),
        ) || bytes_eq(key, KEY_QUERY_GAS_LIMIT.as_bytes()) || bytes_eq(
            key,
            KEY_MEMORY_CACHE_SIZE.as_bytes(),
        ) {
            parse_decimal(value).is_some()
        } else if bytes_eq(key, KEY_CODE_UPLOAD_ACCESS.as_bytes()) {
            self.codec.decode(value).is_some()
        } else {
            false
        }
    }

    /// Tells the engine that the parameters have changed. What the engine
    /// answers is dropped.
    pub fn on_update<E: WasmEngine>(&self, engine: &E, old_params: &Params, new_params: &Params) {
        let _ = engine.on_params_change(old_params, new_params);
    }
}

/// The protobuf encoding of a code info with the given checksum, creator
/// and instantiate permission, or `None` where the encoder gives none.
pub uninterp spec fn code_info_encoding(
    code_hash: Seq<u8>,
    creator: Seq<char>,
    permission: i32,
    addresses: Seq<Seq<char>>,
) -> Option<Seq<u8>>;

/// Calls `prost::Message::encode` on a
/// `cosmos_sdk_proto::cosmwasm::wasm::v1::CodeInfo` made of the arguments,
/// with a fresh vector as the buffer. The contract gives the bytes that
/// come out a name and claims nothing else of them.
#[verifier::external_body]
fn encode_code_info(code_hash: &[u8], creator: &str, permission: i32, addresses: &Vec<String>) -> (r:
    Option<Vec<u8>>)
    ensures
        r.model() == code_info_encoding(
            code_hash@,
            creator@,
            permission,
            string_models(addresses@),
        ),
{
    let instantiate_config = Some(
        cosmos_sdk_proto::cosmwasm::wasm::v1::AccessConfig { permission, addresses: addresses.clone() },
    );
    let code_hash = code_hash.to_vec();
    let creator = creator.to_string();
    let info = cosmos_sdk_proto::cosmwasm::wasm::v1::CodeInfo { code_hash, creator, instantiate_config };
    let mut buf = Vec::new();
    match prost::Message::encode(&info, &mut buf) {
        Ok(()) => Some(buf),
        Err(_) => None,
    }
}

/// The code info of the code with the checksum `checksum` that `sender`
/// uploaded, with `config` as the instantiate permission, as bytes; or
/// `None` where an address has no bech32 string or the encoder gives
/// nothing.
pub open spec fn code_info_of(checksum: Seq<u8>, sender: Seq<u8>, config: AccessConfigModel)
    -> Option<Seq<u8>> {
    match (bech32_encoding("cosmos"@, sender), address_texts(config.addresses)) {
        (Some(creator), Some(addresses)) => code_info_encoding(
            checksum,
            creator,
            config.permission.number(),
            addresses,
        ),
        _ => None,
    }
}

/// The instantiate permission of new code: what the sender asked for, or
/// the default of the parameters for whom it may concern.
pub open spec fn permission_or(permission: Option<AccessConfigModel>, default: AccessType)
    -> AccessConfigModel {
    match permission {
        Some(config) => config,
        None => AccessConfigModel { permission: default, addresses: Seq::empty() },
    }
}

/// The two entries of a code: its info and its bytes.
pub open spec fn code_entries(id: u64, info: Seq<u8>, wasm: Seq<u8>) -> Seq<(Seq<u8>, Seq<u8>)> {
    seq![(code_info_key_of(id), info), (code_key_of(id), wasm)]
}

/// The id that the next stored code gets: the value of the sequence of
/// code ids, which is 0 where nothing was stored yet.
pub open spec fn next_code_id(t: Table) -> u64 {
    sequence_value(t, seq_code_id())
}

/// Whether a code with the info `info` and the bytes `wasm` can be
/// recorded: the sequence of code ids moves, and the two writes can be
/// paid for.
pub open spec fn record_succeeds(st: ContextState, key: StoreKey, info: Seq<u8>, wasm: Seq<u8>)
    -> bool {
    &&& sequence_moves(st, key, seq_code_id())
    &&& after_sequence(st, key, seq_code_id()).affords_all(
        write_costs(code_entries(next_code_id(st.namespace(key)), info, wasm)),
    )
}

/// The state after the recording of a code was tried: the sequence of
/// code ids is moved and then the info and the bytes are written, as far
/// as each step can be paid for.
pub open spec fn after_record(st: ContextState, key: StoreKey, info: Seq<u8>, wasm: Seq<u8>)
    -> ContextState {
    if sequence_moves(st, key, seq_code_id()) {
        after_sequence(st, key, seq_code_id()).after_writes(
            key,
            code_entries(next_code_id(st.namespace(key)), info, wasm),
        )
    } else {
        after_sequence(st, key, seq_code_id())
    }
}

/// What [`Keeper::record_code`] leaves and returns, given the encoding
/// of the code's info, if it has one. Without one nothing is written.
/// Else the record is made as far as it can be paid for, and succeeds
/// with the next code id if it can be made in full; a failure says
/// whether the sequence of code ids was at its end or the gas ran out.
pub open spec fn record_result(
    st: ContextState,
    key: StoreKey,
    info: Option<Seq<u8>>,
    wasm: Seq<u8>,
    after: ContextState,
    r: Result<u64, WasmError>,
) -> bool {
    match info {
        None => {
            &&& after == st
            &&& r matches Err(WasmError::Internal { reason })
            &&& reason@ == "encode CodeInfo"@
        },
        Some(info) => {
            &&& after == after_record(st, key, info, wasm)
            &&& match r {
                Ok(id) => record_succeeds(st, key, info, wasm) && id == next_code_id(
                    st.namespace(key),
                ),
                Err(e) => {
                    &&& !record_succeeds(st, key, info, wasm)
                    &&& e matches WasmError::Internal { reason }
                    &&& if sequence_exhausted(st, key) {
                        reason@ == "code id sequence exhausted"@
                    } else {
                        exists|description: Seq<char>|
                            reason@ == #[trigger] out_of_gas_words(description)
                    }
                },
            }
        },
    }
}

/// Whether the sequence of code ids can be read and stands at the
/// largest number: no further code can get an id.
pub open spec fn sequence_exhausted(st: ContextState, key: StoreKey) -> bool {
    let t = st.namespace(key);
    st.affords(get_cost(t, sequence_key_of(seq_code_id()))) && next_code_id(t) == u64::MAX
}

/// The words of a failure of the meter that failed with `description`.
pub open spec fn out_of_gas_words(description: Seq<char>) -> Seq<char> {
    "out of gas: "@ + description
}

/// The words of a failure to read the parameters.
pub open spec fn params_words(e: ParamsError) -> Seq<char> {
    match e {
        ParamsError::OutOfGas(e) => out_of_gas_words(e.description@),
        ParamsError::Missing => "a parameter is not set"@,
        ParamsError::Malformed => "a parameter cannot be read"@,
    }
}

/// The words of a failure of the meter.
fn out_of_gas_reason(e: &OutOfGas) -> (r: String)
    ensures
        r@ == out_of_gas_words(e.description@),
{
    String::from_str("out of gas: ").concat(e.description.as_str())
}

/// The words of a failure to read the parameters.
fn params_reason(e: &ParamsError) -> (r: String)
    ensures
        r@ == params_words(*e),
{
    match e {
        ParamsError::OutOfGas(e) => out_of_gas_reason(e),
        ParamsError::Missing => String::from_str("a parameter is not set"),
        ParamsError::Malformed => String::from_str("a parameter cannot be read"),
    }
}

/// The keeper of the wasm module.
pub struct Keeper<E: WasmEngine, C: AccessConfigCodec> {
    store_key: StoreKey,
    params: WasmParamsKeeper<C>,
    engine: E,
}

impl<E: WasmEngine, C: AccessConfigCodec> Keeper<E, C> {
    /// The namespace of the module.
    pub closed spec fn store(&self) -> StoreKey {
        self.store_key
    }

    /// The namespace that holds the parameter subspace.
    pub closed spec fn params_store(&self) -> StoreKey {
        self.params.params_subspace_key.store
    }

    /// The name of the parameter subspace.
    pub closed spec fn params_name(&self) -> Seq<u8> {
        self.params.params_subspace_key.name@
    }

    /// The engine that holds and runs the code.
    pub closed spec fn engine_held(&self) -> E {
        self.engine
    }

    /// The codec that writes and reads the upload access of the
    /// parameters.
    pub closed spec fn codec_held(&self) -> C {
        self.params.codec
    }

    #[verifier::type_invariant]
    spec fn apart(&self) -> bool {
        self.store_key.index != self.params.params_subspace_key.store.index
    }

    /// A keeper for the namespace `store_key` and the parameter subspace
    /// `params_subspace_key`, with `engine` to hold and run the code and
    /// `codec` to write and read the upload access of the parameters.
    ///
    /// The subspace must lie in another namespace than `store_key`: the
    /// module's own entries and its parameters are reached by two keys
    /// and are kept apart, so that a write to the one never touches the
    /// other.
    pub fn new(store_key: StoreKey, params_subspace_key: ParamsSubspaceKey, engine: E, codec: C)
        -> (k: Self)
        requires
            store_key.index != params_subspace_key.store.index,
        ensures
            k.store() == store_key,
            k.params_store() == params_subspace_key.store,
            k.params_name() == params_subspace_key.name@,
            k.engine_held() == engine,
            k.codec_held() == codec,
    {
        Keeper { store_key, params: WasmParamsKeeper { params_subspace_key, codec }, engine }
    }

    /// The handle of the module's namespace, which is another than that
    /// of the parameters.
    pub fn store_key(&self) -> (r: StoreKey)
        ensures
            r == self.store(),
            self.store().index != self.params_store().index,
    {
        proof {
            use_type_invariant(self);
        }
        self.store_key
    }

    /// The keeper of the parameters.
    pub fn params_keeper(&self) -> (r: &WasmParamsKeeper<C>)
        ensures
            r.params_subspace_key.store == self.params_store(),
            r.params_subspace_key.name@ == self.params_name(),
            r.codec == self.codec_held(),
    {
        &self.params
    }

    /// The engine that the keeper was made with.
    pub fn engine(&self) -> (e: &E)
        ensures
            *e == self.engine_held(),
    {
        &self.engine
    }

    /// The parameters of the module, as the subspace holds them. Nothing
    /// is made up for: see [`WasmParamsKeeper::try_get`].
    pub fn params<CTX: QueryableContext>(&self, ctx: &mut CTX) -> (r: Result<Params, ParamsError>)
        requires
            old(ctx).state().wf(),
            old(ctx).state().registered(self.params_store()),
        ensures
            final(ctx).state() == old(ctx).state().paid_all(
                params_read_costs(
                    old(ctx).state().namespace(self.params_store()),
                    self.params_name(),
                ),
            ),
            params_read(
                self.codec_held(),
                old(ctx).state(),
                self.params_store(),
                self.params_name(),
                r,
            ),
    {
        self.params.try_get(ctx)
    }

    /// Puts new parameters in place of the ones in the subspace, which
    /// must be there and are read first. Where they cannot be read,
    /// nothing is written and the failure of the read is returned. Else
    /// the new ones are written, with the upload access as the codec
    /// encodes it, as far as the meter pays.
    pub fn set_params<CTX: WritableContext>(&self, ctx: &mut CTX, params: Params) -> (r: Result<
        (),
        ParamsError,
    >)
        requires
            old(ctx).state().wf(),
            old(ctx).state().writable(),
            old(ctx).state().registered(self.params_store()),
        ensures
            set_params_result(*self, old(ctx).state(), params, final(ctx).state(), r),
    {
        let ghost st = ctx.state();
        match self.params.try_get(ctx) {
            Ok(p) => {
                assert(params_read(
                    self.codec_held(),
                    st,
                    self.params_store(),
                    self.params_name(),
                    Ok::<Params, ParamsError>(p),
                ));
            },
            Err(e) => {
                assert(params_read(
                    self.codec_held(),
                    st,
                    self.params_store(),
                    self.params_name(),
                    Err::<Params, ParamsError>(e),
                ));
                return Err(e);
            },
        }
        match self.params.try_set(ctx, &params) {
            Ok(()) => Ok(()),
            Err(e) => Err(ParamsError::OutOfGas(e)),
        }
    }

    /// The code info of new code as bytes: see [`code_info_of`].
    pub fn code_info(checksum: &Checksum, sender: &AccAddress, config: &AccessConfig) -> (r: Option<
        Vec<u8>,
    >)
        ensures
            r.model() == code_info_of(checksum@, sender@, config@),
    {
        let creator = match sender.to_bech32() {
            Some(s) => s,
            None => {
                return None;
            },
        };
        let addresses = match encode_addresses(&config.addresses) {
            Some(texts) => texts,
            None => {
                return None;
            },
        };
        encode_code_info(
            checksum.as_slice(),
            creator.as_str(),
            config.permission.to_i32(),
            &addresses,
        )
    }

    /// Records code that the engine has stored under `checksum`: gives it
    /// the next code id, and writes its info and its bytes under that id.
    /// The first code gets the id 0.
    pub fn record_code<CTX: WritableContext>(
        &self,
        ctx: &mut CTX,
        default_permission: AccessType,
        checksum: &Checksum,
        sender: &AccAddress,
        wasm: &[u8],
        permission: Option<AccessConfig>,
    ) -> (r: Result<u64, WasmError>)
        requires
            old(ctx).state().wf(),
            old(ctx).state().writable(),
            old(ctx).state().registered(self.store()),
        ensures
            record_result(
                old(ctx).state(),
                self.store(),
                code_info_of(
                    checksum@,
                    sender@,
                    permission_or(crate::message::permission_model(permission), default_permission),
                ),
                wasm@,
                final(ctx).state(),
                r,
            ),
    {
        let config = match permission {
            Some(config) => config,
            None => {
                let c = AccessConfig { permission: default_permission, addresses: Vec::new() };
                assert(c@.addresses =~= Seq::empty());
                c
            },
        };
        let info = match Self::code_info(checksum, sender, &config) {
            Some(info) => info,
            None => {
                return Err(WasmError::Internal { reason: String::from_str("encode CodeInfo") });
            },
        };
        let name = key_seq_code_id();
        let count = match next_sequence(ctx, &self.store_key, name.as_slice()) {
            Ok(n) => n,
            Err(SequenceError::OutOfGas(e)) => {
                return Err(WasmError::Internal { reason: out_of_gas_reason(&e) });
            },
            Err(SequenceError::Exhausted) => {
                return Err(
                    WasmError::Internal { reason: String::from_str("code id sequence exhausted") },
                );
            },
        };
        let code_id: u64 = count - 1;
        let mut entries: Vec<(Vec<u8>, Vec<u8>)> = Vec::new();
        entries.push((code_info_key(code_id), info));
        entries.push((code_key(code_id), copy_bytes(wasm)));
        assert(entry_models(entries@) =~= code_entries(code_id, info@, wasm@));
        match write_all(ctx, &self.store_key, entries) {
            Ok(()) => Ok(code_id),
            Err(e) => Err(WasmError::Internal { reason: out_of_gas_reason(&e) }),
        }
    }

    /// Stores wasm byte code under parameters that were read before: code
    /// that is larger than `max_contract_size` is refused as an invalid
    /// request, before anything is written. Else the engine stores the
    /// code, and the keeper records it: see [`Keeper::record_code`].
    pub fn store_checked<CTX: WritableContext>(
        &self,
        ctx: &mut CTX,
        max_contract_size: u64,
        default_permission: AccessType,
        sender: &AccAddress,
        wasm: &[u8],
        permission: Option<AccessConfig>,
    ) -> (r: Result<u64, WasmError>)
        requires
            old(ctx).state().wf(),
            old(ctx).state().writable(),
            old(ctx).state().registered(self.store()),
        ensures
            store_checked_result(
                self.engine_held(),
                old(ctx).state(),
                self.store(),
                max_contract_size,
                default_permission,
                sender@,
                wasm@,
                crate::message::permission_model(permission),
                final(ctx).state(),
                r,
            ),
    {
        if wasm.len() as u64 > max_contract_size {
            return Err(
                WasmError::InvalidRequest { reason: String::from_str("wasm bytecode too large") },
            );
        }
        let ghost st = ctx.state();
        let ghost asked = crate::message::permission_model(permission);
        let checksum = match self.engine.store_code(wasm) {
            Ok(sum) => sum,
            Err(e) => {
                assert(store_checked_with(
                    st,
                    self.store(),
                    default_permission,
                    sender@,
                    wasm@,
                    asked,
                    Err::<Checksum, WasmError>(e),
                    st,
                    Err::<u64, WasmError>(e),
                ));
                return Err(e);
            },
        };
        let _ = self.engine.analyze_code(&checksum);
        let r = self.record_code(ctx, default_permission, &checksum, sender, wasm, permission);
        assert(store_checked_with(
            st,
            self.store(),
            default_permission,
            sender@,
            wasm@,
            asked,
            Ok::<Checksum, WasmError>(checksum),
            ctx.state(),
            r,
        ));
        r
    }

    /// Stores wasm byte code and returns its code id. The parameters are
    /// read first, and the call fails with an internal error where they
    /// cannot be. Then the code is stored under them: see
    /// [`Keeper::store_checked`].
    pub fn store_code<CTX: WritableContext>(
        &self,
        ctx: &mut CTX,
        sender: &AccAddress,
        wasm: &[u8],
        permission: Option<AccessConfig>,
    ) -> (r: Result<u64, WasmError>)
        requires
            old(ctx).state().wf(),
            old(ctx).state().writable(),
            old(ctx).state().registered(self.store()),
            old(ctx).state().registered(self.params_store()),
        ensures
            store_code_result(
                *self,
                old(ctx).state(),
                sender@,
                wasm@,
                crate::message::permission_model(permission),
                final(ctx).state(),
                r,
            ),
    {
        let ghost st = ctx.state();
        let ghost asked = crate::message::permission_model(permission);
        let params = match self.params.try_get(ctx) {
            Ok(p) => p,
            Err(e) => {
                let r = Err(WasmError::Internal { reason: params_reason(&e) });
                assert(store_code_with(
                    *self,
                    st,
                    sender@,
                    wasm@,
                    asked,
                    Err::<Params, ParamsError>(e),
                    ctx.state(),
                    r,
                ));
                return r;
            },
        };
        let r = self.store_checked(
            ctx,
            params.max_contract_size,
            params.instantiate_default_permission,
            sender,
            wasm,
            permission,
        );
        assert(store_code_with(
            *self,
            st,
            sender@,
            wasm@,
            asked,
            Ok::<Params, ParamsError>(params),
            ctx.state(),
            r,
        ));
        r
    }
}

/// What [`Keeper::set_params`] leaves and returns: for what the read of
/// the parameters gave, see [`params_read`], either its failure with
/// nothing written, or the new parameters written as far as the meter
/// pays, with the upload access as the codec encodes it.
pub open spec fn set_params_result<E: WasmEngine, C: AccessConfigCodec>(
    keeper: Keeper<E, C>,
    st: ContextState,
    params: Params,
    after: ContextState,
    r: Result<(), ParamsError>,
) -> bool {
    let store = keeper.params_store();
    let name = keeper.params_name();
    let read = st.paid_all(params_read_costs(st.namespace(store), name));
    exists|got: Result<Params, ParamsError>| #[trigger]
        params_read(keeper.codec_held(), st, store, name, got) && match got {
            Err(e) => after == read && r == Err::<(), ParamsError>(e),
            Ok(_) => exists|access: Seq<u8>|
                {
                    &&& #[trigger] keeper.codec_held().encodes(params.code_upload_access@, access)
                    &&& after == read.after_writes(store, param_entries(name, access, params))
                    &&& match r {
                        Ok(()) => read.affords_all(
                            write_costs(param_entries(name, access, params)),
                        ),
                        Err(e) => e is OutOfGas && !read.affords_all(
                            write_costs(param_entries(name, access, params)),
                        ),
                    }
                },
        }
}

/// What [`Keeper::store_checked`] leaves and returns within the size
/// limit, where the engine answered `answer` when it was given the code:
/// the engine's refusal is handed on as it is, with nothing written; and
/// under the engine's checksum the code is recorded, see
/// [`record_result`].
pub open spec fn store_checked_with(
    st: ContextState,
    key: StoreKey,
    default_permission: AccessType,
    sender: Seq<u8>,
    wasm: Seq<u8>,
    permission: Option<AccessConfigModel>,
    answer: Result<Checksum, WasmError>,
    after: ContextState,
    r: Result<u64, WasmError>,
) -> bool {
    match answer {
        Err(refusal) => after == st && r == Err::<u64, WasmError>(refusal),
        Ok(checksum) => record_result(
            st,
            key,
            code_info_of(checksum@, sender, permission_or(permission, default_permission)),
            wasm,
            after,
            r,
        ),
    }
}

/// The words with which code that is too large is refused.
pub open spec fn too_large_words() -> Seq<char> {
    "wasm bytecode too large"@
}

/// What [`Keeper::store_checked`] leaves and returns.
///
/// Code is refused as an invalid request, with nothing written, if and
/// only if it is larger than `max_contract_size`: code of exactly that
/// size passes. Else `wasm` is given to the engine as it is, and what
/// follows is for the engine's answer to say: see
/// [`store_checked_with`].
pub open spec fn store_checked_result<E: WasmEngine>(
    engine: E,
    st: ContextState,
    key: StoreKey,
    max_contract_size: u64,
    default_permission: AccessType,
    sender: Seq<u8>,
    wasm: Seq<u8>,
    permission: Option<AccessConfigModel>,
    after: ContextState,
    r: Result<u64, WasmError>,
) -> bool {
    if wasm.len() > max_contract_size {
        &&& after == st
        &&& r matches Err(WasmError::InvalidRequest { reason })
        &&& reason@ == too_large_words()
    } else {
        exists|answer: Result<Checksum, WasmError>|
            {
                &&& engine.stored(wasm, answer)
                &&& #[trigger] store_checked_with(
                    st,
                    key,
                    default_permission,
                    sender,
                    wasm,
                    permission,
                    answer,
                    after,
                    r,
                )
            }
    }
}

/// What [`Keeper::store_code`] leaves and returns, where the read of the
/// parameters gave `got`: a failure of the read is an internal error
/// with the words of the failure, and nothing is written; and under the
/// parameters that were read the code is stored as
/// [`store_checked_result`] says.
pub open spec fn store_code_with<E: WasmEngine, C: AccessConfigCodec>(
    keeper: Keeper<E, C>,
    st: ContextState,
    sender: Seq<u8>,
    wasm: Seq<u8>,
    permission: Option<AccessConfigModel>,
    got: Result<Params, ParamsError>,
    after: ContextState,
    r: Result<u64, WasmError>,
) -> bool {
    let t = st.namespace(keeper.params_store());
    let read = st.paid_all(params_read_costs(t, keeper.params_name()));
    match got {
        Err(e) => {
            &&& after == read
            &&& r matches Err(WasmError::Internal { reason })
            &&& reason@ == params_words(e)
        },
        Ok(p) => store_checked_result(
            keeper.engine_held(),
            read,
            keeper.store(),
            p.max_contract_size,
            p.instantiate_default_permission,
            sender,
            wasm,
            permission,
            after,
            r,
        ),
    }
}

/// What [`Keeper::store_code`] leaves and returns.
///
/// The parameters are read first, and the reads are paid for: see
/// [`params_read`] for what the read gives. What follows is for that to
/// say: see [`store_code_with`].
pub open spec fn store_code_result<E: WasmEngine, C: AccessConfigCodec>(
    keeper: Keeper<E, C>,
    st: ContextState,
    sender: Seq<u8>,
    wasm: Seq<u8>,
    permission: Option<AccessConfigModel>,
    after: ContextState,
    r: Result<u64, WasmError>,
) -> bool {
    exists|got: Result<Params, ParamsError>|
        {
            &&& params_read(
                keeper.codec_held(),
                st,
                keeper.params_store(),
                keeper.params_name(),
                got,
            )
            &&& #[trigger] store_code_with(keeper, st, sender, wasm, permission, got, after, r)
        }
}

/// Where a code can be recorded, it is: the module's namespace holds
/// the sequence of code ids one further, and the info and the bytes of
/// the code under the id that the sequence stood at, which is 0 for the
/// first code; and all else as before.
pub proof fn lemma_code_recorded(st: ContextState, key: StoreKey, info: Seq<u8>, wasm: Seq<u8>)
    requires
        st.source is Pending,
        record_succeeds(st, key, info, wasm),
    ensures
        after_record(st, key, info, wasm).namespace(key) == st.namespace(key).insert(
            sequence_key_of(seq_code_id()),
            be_bytes((next_code_id(st.namespace(key)) + 1) as u64),
        ).insert(code_info_key_of(next_code_id(st.namespace(key))), info).insert(
            code_key_of(next_code_id(st.namespace(key))),
            wasm,
        ),
        lookup(st.namespace(key), sequence_key_of(seq_code_id())) is None ==> next_code_id(
            st.namespace(key),
        ) == 0,
{
    let layer = st.source->Pending_0;
    let t = st.namespace(key);
    let id = next_code_id(t);
    let seq_key = sequence_key_of(seq_code_id());
    let s1 = after_sequence(st, key, seq_code_id());
    crate::store::view::lemma_written_namespace(
        st.store,
        layer,
        key,
        seq_key,
        Some(be_bytes((id + 1) as u64)),
    );
    let t1 = t.insert(seq_key, be_bytes((id + 1) as u64));
    assert(s1.namespace(key) == t1);
    let entries = code_entries(id, info, wasm);
    crate::context::lemma_written_entries(s1, key, entries);
    let one = entries.drop_last();
    let none = one.drop_last();
    assert(one =~= seq![entries[0]]);
    assert(none =~= Seq::<(Seq<u8>, Seq<u8>)>::empty());
    assert(with_entries(t1, none) == t1);
    assert(with_entries(t1, one) == t1.insert(code_info_key_of(id), info));
    assert(with_entries(t1, entries) == with_entries(t1, one).insert(code_key_of(id), wasm));
}

/// Storing code succeeds where nothing is in its way: where the engine
/// took the code and gave a checksum, the info of the code has an
/// encoding, and the gas pays for the record, the code gets the next
/// code id, which is 0 where no code was stored before, and the module's
/// namespace holds the code under that id, its info, and the sequence of
/// code ids one further.
pub proof fn lemma_code_is_stored(
    st: ContextState,
    key: StoreKey,
    default_permission: AccessType,
    sender: Seq<u8>,
    wasm: Seq<u8>,
    permission: Option<AccessConfigModel>,
    checksum: Checksum,
    after: ContextState,
    r: Result<u64, WasmError>,
)
    requires
        st.source is Pending,
        store_checked_with(
            st,
            key,
            default_permission,
            sender,
            wasm,
            permission,
            Ok::<Checksum, WasmError>(checksum),
            after,
            r,
        ),
        code_info_of(checksum@, sender, permission_or(permission, default_permission)) is Some,
        record_succeeds(
            st,
            key,
            code_info_of(checksum@, sender, permission_or(permission, default_permission))->0,
            wasm,
        ),
    ensures
        r == Ok::<u64, WasmError>(next_code_id(st.namespace(key))),
        lookup(st.namespace(key), sequence_key_of(seq_code_id())) is None ==> r == Ok::<
            u64,
            WasmError,
        >(0),
        lookup(after.namespace(key), code_key_of(next_code_id(st.namespace(key)))) == Some(wasm),
        next_code_id(after.namespace(key)) == next_code_id(st.namespace(key)) + 1,
        forall|k: Seq<u8>|
            k != sequence_key_of(seq_code_id()) && k != code_key_of(
                next_code_id(st.namespace(key)),
            ) && k != code_info_key_of(next_code_id(st.namespace(key))) ==> lookup(
                after.namespace(key),
                k,
            ) == #[trigger] lookup(st.namespace(key), k),
{
    let info = code_info_of(
        checksum@,
        sender,
        permission_or(permission, default_permission),
    )->0;
    let id = next_code_id(st.namespace(key));
    lemma_code_recorded(st, key, info, wasm);
    crate::endian::lemma_be_round_trip((id + 1) as u64);
    assert(code_key_of(id)[0] == 1);
    assert(code_info_key_of(id)[0] == 4);
    assert(sequence_key_of(seq_code_id())[0] == 3);
}

/// Whether two results of storing code are the same outcome: the same
/// code id, or errors of the same kind.
pub open spec fn same_outcome(a: Result<u64, WasmError>, b: Result<u64, WasmError>) -> bool {
    match (a, b) {
        (Ok(x), Ok(y)) => x == y,
        (Err(e), Err(f)) => e.code() == f.code(),
        _ => false,
    }
}

/// Storing code is deterministic: two contexts that start with the same
/// gas and hold the same in the module's namespace, and in which the
/// engine gives the same answer for the same code, end with the same
/// outcome and the same gas, whatever their heights, times and chains
/// are and whatever else their stores hold.
pub proof fn lemma_store_deterministic(
    a: ContextState,
    b: ContextState,
    key: StoreKey,
    default_permission: AccessType,
    sender: Seq<u8>,
    wasm: Seq<u8>,
    permission: Option<AccessConfigModel>,
    answer: Result<Checksum, WasmError>,
    after_a: ContextState,
    after_b: ContextState,
    result_a: Result<u64, WasmError>,
    result_b: Result<u64, WasmError>,
)
    requires
        a.gas == b.gas,
        a.namespace(key) == b.namespace(key),
        store_checked_with(
            a,
            key,
            default_permission,
            sender,
            wasm,
            permission,
            answer,
            after_a,
            result_a,
        ),
        store_checked_with(
            b,
            key,
            default_permission,
            sender,
            wasm,
            permission,
            answer,
            after_b,
            result_b,
        ),
    ensures
        same_outcome(result_a, result_b),
        after_a.gas == after_b.gas,
{
    if answer is Ok {
        let info = code_info_of(
            answer->Ok_0@,
            sender,
            permission_or(permission, default_permission),
        );
        if info is Some {
            let t = a.namespace(key);
            let entries = code_entries(next_code_id(t), info->0, wasm);
            let sa = after_sequence(a, key, seq_code_id());
            let sb = after_sequence(b, key, seq_code_id());
            assert(sa.gas == sb.gas);
            crate::context::lemma_after_writes_gas(sa, key, entries);
            crate::context::lemma_after_writes_gas(sb, key, entries);
        }
    }
}

/// Storing code in a transaction is a step of the transaction: see
/// [`crate::context::tx_step`]. It emits no events.
pub proof fn lemma_store_code_step<E: WasmEngine, C: AccessConfigCodec>(
    keeper: Keeper<E, C>,
    st: ContextState,
    sender: Seq<u8>,
    wasm: Seq<u8>,
    permission: Option<AccessConfigModel>,
    after: ContextState,
    r: Result<u64, WasmError>,
)
    requires
        st.source == Source::Pending(Layer::Tx),
        store_code_result(keeper, st, sender, wasm, permission, after, r),
    ensures
        crate::context::tx_step(st, after),
        after.events == st.events,
{
    let t = st.namespace(keeper.params_store());
    let costs = params_read_costs(t, keeper.params_name());
    let read = st.paid_all(costs);
    crate::context::lemma_paid_step(st, costs);
    let got = choose|got: Result<Params, ParamsError>| #[trigger]
        store_code_with(keeper, st, sender, wasm, permission, got, after, r);
    if after != read {
        let p = got->Ok_0;
        let answer = choose|answer: Result<Checksum, WasmError>| #[trigger]
            store_checked_with(
                read,
                keeper.store(),
                p.instantiate_default_permission,
                sender,
                wasm,
                permission,
                answer,
                after,
                r,
            );
        let info = code_info_of(
            answer->Ok_0@,
            sender,
            permission_or(permission, p.instantiate_default_permission),
        );
        if info is Some {
            lemma_record_step(read, keeper.store(), info->0, wasm);
        }
    }
}

/// Recording code in a transaction is a step of the transaction.
pub proof fn lemma_record_step(st: ContextState, key: StoreKey, info: Seq<u8>, wasm: Seq<u8>)
    requires
        st.source == Source::Pending(Layer::Tx),
    ensures
        crate::context::tx_step(st, after_record(st, key, info, wasm)),
        after_record(st, key, info, wasm).events == st.events,
{
    let s1 = after_sequence(st, key, seq_code_id());
    crate::context::lemma_writes_step(
        s1,
        key,
        code_entries(next_code_id(st.namespace(key)), info, wasm),
    );
}

} // verus!
