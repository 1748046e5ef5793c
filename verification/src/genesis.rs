//! The genesis state of the wasm module: the codes that are there from
//! the start, and the id that the next code gets.

use vstd::prelude::*;
use crate::address::AccAddress;
use crate::bytes::{lex_lt, lemma_lex_common_prefix};
use crate::context::{ContextState, WritableContext, key_models, lemma_after_writes_gas,
    lemma_written_entries, lemma_writes_elsewhere, with_entries, write_costs};
use crate::context::init::InitContext;
use crate::context::query::QueryContext;
use crate::endian::{be_bytes, lemma_be_bytes_ordered, lemma_be_round_trip, u64_from_be, u64_to_be};
use crate::engine::WasmEngine;
use crate::error::WasmError;
use crate::keeper::{Keeper, code_entries, code_info_key_of, code_key_of, key_seq_code_id,
    next_code_id, record_result, record_succeeds, after_record, after_sequence, seq_code_id,
    sequence_key, sequence_key_of, CODE_STORE_PREFIX};
use crate::keeper::{default_param_entries, param_entries, params_read, store_checked_with,
    store_code_result, store_code_with};
use crate::message::{AccessConfigModel, AccessType};
use crate::params::ParamsError;
use crate::wasmvm::Checksum;
use crate::params::{AccessConfigCodec, Params};
use crate::store::byte_map::{entries_to_map, entry_models, has_key, index_of, lemma_entry_in_map};
use crate::store::multi::{Layer, StoreKey};
use crate::store::table::{Table, lookup, window};
use crate::store::view::{Source, lemma_listing_unique, lemma_namespace_isolation,
    lemma_written_namespace, listing_of};

verus! {

/// The genesis state of the wasm module.
#[derive(Debug)]
pub struct GenesisState {
    /// The wasm byte codes to load, in the order of their code ids.
    pub codes: Vec<Vec<u8>>,
    /// The id that the next code gets that is uploaded.
    pub next_code_id: u64,
}

/// What a genesis state says.
pub struct GenesisModel {
    pub codes: Seq<Seq<u8>>,
    pub next_code_id: u64,
}

impl GenesisState {
    /// What the genesis state says.
    pub open spec fn view(&self) -> GenesisModel {
        GenesisModel { codes: key_models(self.codes@), next_code_id: self.next_code_id }
    }
}

impl Default for GenesisState {
    fn default() -> (g: GenesisState)
        ensures
            g@ == (GenesisModel { codes: Seq::empty(), next_code_id: 0 }),
    {
        let g = GenesisState { codes: Vec::new(), next_code_id: 0 };
        assert(key_models(g.codes@) =~= Seq::empty());
        g
    }
}

/// The values of a list of entries.
pub open spec fn values_of(entries: Seq<(Seq<u8>, Seq<u8>)>) -> Seq<Seq<u8>> {
    Seq::new(entries.len(), |i: int| entries[i].1)
}

/// The codes that the module's namespace `t` holds, keys and all.
pub open spec fn stored_codes(t: Table) -> Table {
    window(t, Seq::empty(), seq![CODE_STORE_PREFIX])
}

/// The genesis state that stands for what the module's namespace `t`
/// holds: the codes in the order of their ids, and the sequence of code
/// ids.
pub open spec fn exported(t: Table) -> GenesisModel {
    GenesisModel {
        codes: values_of(listing_of(stored_codes(t))),
        next_code_id: next_code_id(t),
    }
}

/// Whether `k` is the key of the code or of the code info of one of the
/// `n` ids from `start` on.
pub open spec fn genesis_key(k: Seq<u8>, start: u64, n: nat) -> bool {
    exists|j: int| 0 <= j < n && #[trigger] genesis_key_at(k, start, j)
}

/// Whether `k` is the key of the code or of the code info with the id
/// `start + j`.
pub open spec fn genesis_key_at(k: Seq<u8>, start: u64, j: int) -> bool {
    k == code_key_of((start + j) as u64) || k == code_info_key_of((start + j) as u64)
}

/// Whether `after` is the module's namespace `before` with the genesis
/// state `g` applied: each code stands under its id, counted from the
/// sequence of code ids in `before`, with a code info beside it; the
/// sequence holds the next code id of `g`; and all else is as it was.
pub open spec fn genesis_applied(before: Table, g: GenesisModel, after: Table) -> bool {
    let start = next_code_id(before);
    &&& start + g.codes.len() <= u64::MAX
    &&& forall|j: int|
        0 <= j < g.codes.len() ==> lookup(after, #[trigger] code_key_of((start + j) as u64))
            == Some(g.codes[j])
    &&& forall|j: int|
        0 <= j < g.codes.len() ==> after.contains_key(
            #[trigger] code_info_key_of((start + j) as u64),
        )
    &&& lookup(after, sequence_key_of(seq_code_id())) == Some(be_bytes(g.next_code_id))
    &&& forall|k: Seq<u8>|
        !genesis_key(k, start, g.codes.len()) && k != sequence_key_of(seq_code_id()) ==> lookup(
            after,
            k,
        ) == #[trigger] lookup(before, k)
}

/// The genesis round trip: where a genesis state was applied to a
/// namespace that held no code, what is exported from the namespace is
/// that genesis state again: the same codes in the same order, and the
/// same next code id.
pub proof fn lemma_genesis_round_trip(before: Table, g: GenesisModel, after: Table)
    requires
        genesis_applied(before, g, after),
        stored_codes(before) == Map::<Seq<u8>, Seq<u8>>::empty(),
    ensures
        exported(after) == g,
{
    let start = next_code_id(before);
    let n = g.codes.len();
    let e = Seq::<u8>::empty();
    let one = seq![CODE_STORE_PREFIX];
    lemma_be_round_trip(g.next_code_id);
    let listing = Seq::new(n, |j: int| (code_key_of((start + j) as u64), g.codes[j]));
    assert forall|i: int, j: int| 0 <= i < j < n implies lex_lt(
        #[trigger] listing[i].0,
        #[trigger] listing[j].0,
    ) by {
        lemma_be_bytes_ordered((start + i) as u64, (start + j) as u64);
        lemma_lex_common_prefix(one, be_bytes((start + i) as u64), be_bytes((start + j) as u64));
    }
    let held = stored_codes(after);
    let m = entries_to_map(listing);
    assert forall|k: Seq<u8>| e + k == k by {
        assert(e + k =~= k);
    }
    assert forall|k: Seq<u8>| m.contains_key(k) == held.contains_key(k) by {
        if has_key(listing, k) {
            let j = index_of(listing, k);
            assert(k == code_key_of((start + j) as u64));
            assert(k.subrange(0, 1) =~= one);
        }
        if held.contains_key(k) {
            assert(k.subrange(0, 1) == one);
            assert(k[0] == k.subrange(0, 1)[0]);
            if !genesis_key(k, start, n) {
                assert(k != sequence_key_of(seq_code_id())) by {
                    assert(sequence_key_of(seq_code_id())[0] == 3);
                }
                assert(lookup(after, k) == lookup(before, k));
                assert(stored_codes(before).contains_key(k));
            } else {
                let j = choose|j: int| 0 <= j < n && #[trigger] genesis_key_at(k, start, j);
                assert(code_info_key_of((start + j) as u64)[0] == 4);
                assert(listing[j].0 == k);
            }
        }
    }
    assert forall|k: Seq<u8>| m.contains_key(k) implies m[k] == held[k] by {
        let j = index_of(listing, k);
        lemma_entry_in_map(listing, j);
        assert(lookup(after, code_key_of((start + j) as u64)) == Some(g.codes[j]));
    }
    assert(m =~= held);
    lemma_listing_unique(listing, listing_of(held));
    assert(values_of(listing) =~= g.codes);
}

/// A context without a meter pays for everything and keeps all it has.
pub proof fn lemma_unmetered(st: ContextState, costs: Seq<nat>)
    requires
        st.gas is None,
    ensures
        st.affords_all(costs),
        st.paid_all(costs) == st,
{
}

/// In a context without a meter, writes are made one after the other.
pub proof fn lemma_unmetered_writes(
    st: ContextState,
    key: StoreKey,
    a: (Seq<u8>, Seq<u8>),
    b: (Seq<u8>, Seq<u8>),
)
    requires
        st.gas is None,
    ensures
        st.after_writes(key, seq![a, b]) == st.written(key, a.0, Some(a.1)).written(
            key,
            b.0,
            Some(b.1),
        ),
{
    let both = seq![a, b];
    let first = seq![a];
    assert(both.drop_last() =~= first);
    assert(first.drop_last() =~= Seq::<(Seq<u8>, Seq<u8>)>::empty());
    assert(st.after_writes(key, first.drop_last()) == st);
    assert(st.after_writes(key, first) == st.written(key, a.0, Some(a.1)));
}

/// In a context without a meter, a code is recorded whenever the sequence
/// of code ids is not at its end; and then the module's namespace holds
/// the sequence one further, the info and the bytes, and all else as
/// before.
pub proof fn lemma_unmetered_record(st: ContextState, key: StoreKey, info: Seq<u8>, wasm: Seq<u8>)
    requires
        st.gas is None,
        st.source is Pending,
        next_code_id(st.namespace(key)) < u64::MAX,
    ensures
        record_succeeds(st, key, info, wasm),
        after_record(st, key, info, wasm).namespace(key) == st.namespace(key).insert(
            sequence_key_of(seq_code_id()),
            be_bytes((next_code_id(st.namespace(key)) + 1) as u64),
        ).insert(code_info_key_of(next_code_id(st.namespace(key))), info).insert(
            code_key_of(next_code_id(st.namespace(key))),
            wasm,
        ),
        after_record(st, key, info, wasm).gas is None,
        after_record(st, key, info, wasm).source == st.source,
        after_record(st, key, info, wasm).store.names == st.store.names,
        after_record(st, key, info, wasm).store.versions == st.store.versions,
        after_record(st, key, info, wasm).events == st.events,
{
    let layer = st.source->Pending_0;
    let t = st.namespace(key);
    let id = next_code_id(t);
    let seq_key = sequence_key_of(seq_code_id());
    let s1 = after_sequence(st, key, seq_code_id());
    assert(s1 == st.written(key, seq_key, Some(be_bytes((id + 1) as u64))));
    lemma_written_namespace(st.store, layer, key, seq_key, Some(be_bytes((id + 1) as u64)));
    let entries = code_entries(id, info, wasm);
    lemma_unmetered(s1, write_costs(entries));
    lemma_unmetered_writes(s1, key, entries[0], entries[1]);
    assert(entries =~= seq![entries[0], entries[1]]);
    let s2 = s1.written(key, code_info_key_of(id), Some(info));
    lemma_written_namespace(s1.store, layer, key, code_info_key_of(id), Some(info));
    lemma_written_namespace(s2.store, layer, key, code_key_of(id), Some(wasm));
}

/// The keys of two codes are the same only if their ids are; and the
/// keys of codes, of code infos and of sequences differ.
pub proof fn lemma_keys_differ(a: u64, b: u64)
    ensures
        a != b ==> code_key_of(a) != code_key_of(b),
        a != b ==> code_info_key_of(a) != code_info_key_of(b),
        code_key_of(a) != code_info_key_of(b),
        code_key_of(a) != sequence_key_of(seq_code_id()),
        code_info_key_of(a) != sequence_key_of(seq_code_id()),
{
    assert(code_key_of(a)[0] == 1);
    assert(code_info_key_of(b)[0] == 4);
    assert(code_info_key_of(a)[0] == 4);
    assert(sequence_key_of(seq_code_id())[0] == 3);
    lemma_be_round_trip(a);
    lemma_be_round_trip(b);
    if a != b {
        if code_key_of(a) == code_key_of(b) {
            assert(code_key_of(a).subrange(1, 9) =~= be_bytes(a));
            assert(code_key_of(b).subrange(1, 9) =~= be_bytes(b));
        }
        if code_info_key_of(a) == code_info_key_of(b) {
            assert(code_info_key_of(a).subrange(1, 9) =~= be_bytes(a));
            assert(code_info_key_of(b).subrange(1, 9) =~= be_bytes(b));
        }
    }
}

/// Where the first `n` codes of `g` are applied to `before` and give
/// `mid`, with the sequence at the id of the next code, recording that
/// code gives the first `n + 1` codes applied.
proof fn lemma_genesis_step(
    before: Table,
    codes: Seq<Seq<u8>>,
    n: int,
    mid: Table,
    info: Seq<u8>,
    after: Table,
)
    requires
        0 <= n < codes.len(),
        partly_applied(before, codes, n, mid),
        next_code_id(mid) < u64::MAX,
        after == mid.insert(
            sequence_key_of(seq_code_id()),
            be_bytes((next_code_id(mid) + 1) as u64),
        ).insert(code_info_key_of(next_code_id(mid)), info).insert(
            code_key_of(next_code_id(mid)),
            codes[n],
        ),
    ensures
        partly_applied(before, codes, n + 1, after),
{
    let start = next_code_id(before);
    let id = next_code_id(mid);
    let seq_key = sequence_key_of(seq_code_id());
    lemma_be_round_trip((id + 1) as u64);
    lemma_keys_differ(id, id);
    assert forall|j: int| 0 <= j < n + 1 implies lookup(
        after,
        #[trigger] code_key_of((start + j) as u64),
    ) == Some(codes[j]) by {
        lemma_keys_differ((start + j) as u64, id);
    }
    assert forall|j: int| 0 <= j < n + 1 implies after.contains_key(
        #[trigger] code_info_key_of((start + j) as u64),
    ) by {
        lemma_keys_differ((start + j) as u64, id);
        lemma_keys_differ(id, (start + j) as u64);
    }
    assert forall|k: Seq<u8>|
        !genesis_key(k, start, (n + 1) as nat) && k != seq_key implies lookup(after, k)
            == #[trigger] lookup(before, k) by {
        assert(!genesis_key_at(k, start, n));
        if genesis_key(k, start, n as nat) {
            let j = choose|j: int| 0 <= j < n && #[trigger] genesis_key_at(k, start, j);
            assert(genesis_key_at(k, start, j));
        }
    }
}

/// Whether `mid` is the namespace `before` with the first `n` codes of
/// `codes` applied, and the sequence of code ids at the id of the next.
pub open spec fn partly_applied(before: Table, codes: Seq<Seq<u8>>, n: int, mid: Table) -> bool {
    let start = next_code_id(before);
    &&& start + n <= u64::MAX
    &&& next_code_id(mid) == start + n
    &&& forall|j: int|
        0 <= j < n ==> lookup(mid, #[trigger] code_key_of((start + j) as u64)) == Some(codes[j])
    &&& forall|j: int|
        0 <= j < n ==> mid.contains_key(#[trigger] code_info_key_of((start + j) as u64))
    &&& forall|k: Seq<u8>|
        !genesis_key(k, start, n as nat) && k != sequence_key_of(seq_code_id()) ==> lookup(mid, k)
            == #[trigger] lookup(before, k)
}

/// Recording a code in one namespace leaves what a context sees of any
/// other namespace as it was.
pub proof fn lemma_record_elsewhere(
    st: ContextState,
    key: StoreKey,
    info: Seq<u8>,
    wasm: Seq<u8>,
    other: StoreKey,
)
    requires
        st.wf(),
        st.writable(),
        st.registered(key),
        st.registered(other),
        key.index != other.index,
    ensures
        after_record(st, key, info, wasm).namespace(other) == st.namespace(other),
{
    let t = st.namespace(key);
    let seq_key = sequence_key_of(seq_code_id());
    let read = st.paid(crate::store::view::get_cost(t, seq_key));
    let s1 = after_sequence(st, key, seq_code_id());
    lemma_namespace_isolation(
        read.store,
        st.source->Pending_0,
        key,
        other,
        seq_key,
        Some(be_bytes((next_code_id(t) + 1) as u64)),
        st.source,
    );
    assert(s1.namespace(other) == st.namespace(other));
    lemma_writes_elsewhere(s1, key, code_entries(next_code_id(t), info, wasm), other);
}

/// Whether the table `after` is the table `before` with the default
/// parameters written into the subspace `name`: the four numbers in
/// decimal, and the upload access as the codec writes it.
pub open spec fn defaults_created<C: AccessConfigCodec>(
    codec: C,
    before: Table,
    name: Seq<u8>,
    after: Table,
) -> bool {
    exists|access: Seq<u8>|
        {
            &&& #[trigger] codec.encodes(default_access(), access)
            &&& after == with_entries(before, default_param_entries(name, access))
        }
}

/// The upload access of the default parameters: everybody may upload.
pub open spec fn default_access() -> AccessConfigModel {
    AccessConfigModel { permission: AccessType::Everybody, addresses: Seq::empty() }
}

/// Whether `after` and `r` are what applying the genesis state `g` with
/// `keeper` leaves and returns in a context in the state `st`.
///
/// The default parameters are written into the subspace, whatever
/// follows, and no namespace but the module's and that of the
/// parameters is touched. A genesis state without codes is always
/// applied. On success the module's namespace is as [`genesis_applied`]
/// says. A failure is the refusal of one of the codes, which left
/// nothing behind: the codes before it are stored, see
/// [`partly_applied`], and the error is the one that storing that code
/// gave in the state that is left.
pub open spec fn genesis_result<E: WasmEngine, C: AccessConfigCodec>(
    keeper: Keeper<E, C>,
    st: ContextState,
    g: GenesisModel,
    after: ContextState,
    r: Result<(), WasmError>,
) -> bool {
    &&& defaults_created(
        keeper.codec_held(),
        st.namespace(keeper.params_store()),
        keeper.params_name(),
        after.namespace(keeper.params_store()),
    )
    &&& forall|other: StoreKey|
        st.registered(other) && other.index != keeper.store().index && other.index
            != keeper.params_store().index ==> #[trigger] after.namespace(other) == st.namespace(
            other,
        )
    &&& match r {
        Ok(()) => genesis_applied(
            st.namespace(keeper.store()),
            g,
            after.namespace(keeper.store()),
        ),
        Err(e) => exists|n: int|
            {
                &&& 0 <= n < g.codes.len()
                &&& #[trigger] partly_applied(
                    st.namespace(keeper.store()),
                    g.codes,
                    n,
                    after.namespace(keeper.store()),
                )
                &&& store_code_result(
                    keeper,
                    after,
                    Seq::<u8>::empty(),
                    g.codes[n],
                    None,
                    after,
                    Err::<u64, WasmError>(e),
                )
            },
    }
    &&& g.codes.len() == 0 ==> r is Ok
}

/// Applies the genesis state. The parameters are created with their
/// defaults. Then each code is stored through the keeper, as an upload by
/// the account with the empty address that states no permission, and at
/// last the sequence of code ids is set to the next code id of the
/// genesis state. Stops at the first code that is refused, with the error
/// of the refusal, which left nothing behind: the codes before it are
/// stored then, and the sequence of code ids stands at the code that was
/// refused.
///
/// A genesis state without codes is always applied. Whether a code is
/// refused is for the engine to say, and for the parameters: a code may
/// not be larger than they allow.
pub fn init_genesis<E: WasmEngine, C: AccessConfigCodec>(
    ctx: &mut InitContext,
    keeper: &Keeper<E, C>,
    genesis: GenesisState,
) -> (r: Result<(), WasmError>)
    requires
        old(ctx)@.wf(),
        old(ctx)@.registered(keeper.store()),
        old(ctx)@.registered(keeper.params_store()),
    ensures
        final(ctx)@.wf(),
        final(ctx)@.store.names == old(ctx)@.store.names,
        final(ctx)@.store.versions == old(ctx)@.store.versions,
        genesis_result(*keeper, old(ctx)@, genesis@, final(ctx)@, r),
{
    let ghost before = ctx@.namespace(keeper.store());
    let ghost codes = genesis@.codes;
    let sender = match AccAddress::try_from_bytes(Vec::new()) {
        Ok(a) => a,
        Err(_) => {
            return Err(WasmError::Internal { reason: String::new() });
        },
    };
    let store_key = keeper.store_key();
    proof {
        ctx.lemma_phase();
    }
    let ghost start = ctx@;
    let defaults = Params::default();
    let created = keeper.params_keeper().try_set(ctx, &defaults);
    proof {
        let access = choose|access: Seq<u8>|
            {
                &&& #[trigger] keeper.codec_held().encodes(defaults.code_upload_access@, access)
                &&& ctx@ == start.after_writes(
                    keeper.params_store(),
                    param_entries(keeper.params_name(), access, defaults),
                )
            };
        let entries = param_entries(keeper.params_name(), access, defaults);
        lemma_writes_elsewhere(start, keeper.params_store(), entries, keeper.store());
        lemma_after_writes_gas(start, keeper.params_store(), entries);
        lemma_unmetered(start, write_costs(entries));
        lemma_written_entries(start, keeper.params_store(), entries);
        assert(entries == default_param_entries(keeper.params_name(), access));
        assert(defaults_created(
            keeper.codec_held(),
            start.namespace(keeper.params_store()),
            keeper.params_name(),
            ctx@.namespace(keeper.params_store()),
        ));
        assert forall|other: StoreKey|
            start.registered(other) && other.index != keeper.params_store().index implies #[trigger] ctx@.namespace(
            other,
        ) == start.namespace(other) by {
            lemma_writes_elsewhere(start, keeper.params_store(), entries, other);
        }
    }
    let ghost made = ctx@;
    if let Err(e) = created {
        return Err(WasmError::Internal { reason: e.description });
    }
    let mut i: usize = 0;
    while i < genesis.codes.len()
        invariant
            0 <= i <= genesis.codes@.len(),
            codes == key_models(genesis.codes@),
            before == old(ctx)@.namespace(keeper.store()),
            store_key == keeper.store(),
            sender@ == Seq::<u8>::empty(),
            ctx@.wf(),
            ctx@.gas is None,
            ctx@.source == Source::Pending(Layer::Block),
            ctx@.registered(keeper.store()),
            ctx@.registered(keeper.params_store()),
            ctx@.store.names == old(ctx)@.store.names,
            ctx@.store.versions == old(ctx)@.store.versions,
            partly_applied(before, codes, i as int, ctx@.namespace(keeper.store())),
            keeper.store().index != keeper.params_store().index,
            defaults_created(
                keeper.codec_held(),
                old(ctx)@.namespace(keeper.params_store()),
                keeper.params_name(),
                made.namespace(keeper.params_store()),
            ),
            forall|other: StoreKey|
                old(ctx)@.registered(other) && other.index != keeper.params_store().index
                    ==> #[trigger] made.namespace(other) == old(ctx)@.namespace(other),
            forall|other: StoreKey|
                old(ctx)@.registered(other) && other.index != keeper.store().index
                    ==> #[trigger] ctx@.namespace(other) == made.namespace(other),
        decreases genesis.codes@.len() - i,
    {
        let ghost st = ctx@;
        let ghost mid = st.namespace(keeper.store());
        let ghost params_table = st.namespace(keeper.params_store());
        proof {
            lemma_unmetered(
                st,
                crate::keeper::params_read_costs(params_table, keeper.params_name()),
            );
        }
        let stored = keeper.store_code(ctx, &sender, genesis.codes[i].as_slice(), None);
        proof {
            let wasm = codes[i as int];
            let got = choose|got: Result<Params, ParamsError>|
                {
                    &&& params_read(
                        keeper.codec_held(),
                        st,
                        keeper.params_store(),
                        keeper.params_name(),
                        got,
                    )
                    &&& #[trigger] store_code_with(
                        *keeper,
                        st,
                        sender@,
                        wasm,
                        None,
                        got,
                        ctx@,
                        stored,
                    )
                };
            if ctx@ != st || stored is Ok {
                let default = got->Ok_0.instantiate_default_permission;
                let answer = choose|answer: Result<Checksum, WasmError>|
                    {
                        &&& keeper.engine_held().stored(wasm, answer)
                        &&& #[trigger] store_checked_with(
                            st,
                            keeper.store(),
                            default,
                            sender@,
                            wasm,
                            None,
                            answer,
                            ctx@,
                            stored,
                        )
                    };
                let info = crate::keeper::code_info_of(
                    answer->Ok_0@,
                    sender@,
                    crate::keeper::permission_or(None, default),
                );
                if info is Some && next_code_id(mid) < u64::MAX {
                    lemma_unmetered_record(st, keeper.store(), info->0, wasm);
                    lemma_genesis_step(
                        before,
                        codes,
                        i as int,
                        mid,
                        info->0,
                        ctx@.namespace(keeper.store()),
                    );
                }
                if info is Some {
                    assert forall|other: StoreKey|
                        old(ctx)@.registered(other) && other.index != keeper.store().index implies #[trigger] ctx@.namespace(
                        other,
                    ) == st.namespace(other) by {
                        lemma_record_elsewhere(st, keeper.store(), info->0, wasm, other);
                    }
                }
            }
            if stored is Err {
                assert(ctx@ == st);
                assert(store_code_result(*keeper, st, sender@, wasm, None, ctx@, stored));
            }
        }
        match stored {
            Ok(_) => {},
            Err(e) => {
                assert(partly_applied(
                    before,
                    genesis@.codes,
                    i as int,
                    ctx@.namespace(keeper.store()),
                ));
                return Err(e);
            },
        }
        i = i + 1;
    }
    let name = key_seq_code_id();
    let key = sequence_key(name.as_slice());
    let ghost st = ctx@;
    let ghost mid = st.namespace(keeper.store());
    proof {
        lemma_written_namespace(
            st.store,
            Layer::Block,
            keeper.store(),
            key@,
            Some(be_bytes(genesis.next_code_id)),
        );
    }
    let _ = ctx.set(&store_key, key.as_slice(), u64_to_be(genesis.next_code_id));
    proof {
        let after = ctx@.namespace(keeper.store());
        assert(after == mid.insert(key@, be_bytes(genesis.next_code_id)));
        assert forall|j: int| 0 <= j < codes.len() implies lookup(
            after,
            #[trigger] code_key_of((next_code_id(before) + j) as u64),
        ) == Some(codes[j]) by {
            lemma_keys_differ((next_code_id(before) + j) as u64, 0);
        }
        assert forall|j: int| 0 <= j < codes.len() implies after.contains_key(
            #[trigger] code_info_key_of((next_code_id(before) + j) as u64),
        ) by {
            lemma_keys_differ((next_code_id(before) + j) as u64, 0);
        }
        assert forall|other: StoreKey|
            old(ctx)@.registered(other) && other.index != keeper.store().index implies #[trigger] ctx@.namespace(
            other,
        ) == st.namespace(other) by {
            lemma_namespace_isolation(
                st.store,
                Layer::Block,
                keeper.store(),
                other,
                key@,
                Some(be_bytes(genesis.next_code_id)),
                st.source,
            );
        }
    }
    Ok(())
}

/// The genesis state that stands for what the module's namespace holds
/// at the height of the query: the codes, found by a scan of the code
/// prefix, in the order of their ids, and the sequence of code ids.
pub fn export_genesis<E: WasmEngine, C: AccessConfigCodec>(
    ctx: &QueryContext<'_>,
    keeper: &Keeper<E, C>,
) -> (g: GenesisState)
    requires
        ctx@.wf(),
        ctx@.registered(keeper.store()),
    ensures
        g@ == exported(ctx@.namespace(keeper.store())),
{
    let store_key = keeper.store_key();
    let view = ctx.kv_store(&store_key);
    let mut prefix: Vec<u8> = Vec::new();
    prefix.push(CODE_STORE_PREFIX);
    assert(prefix@ =~= seq![CODE_STORE_PREFIX]);
    let entries = view.iterate(prefix.as_slice());
    let ghost listing = entry_models(entries@);
    proof {
        lemma_listing_unique(listing, listing_of(stored_codes(ctx@.namespace(keeper.store()))));
    }
    let mut codes: Vec<Vec<u8>> = Vec::new();
    let mut i: usize = 0;
    while i < entries.len()
        invariant
            0 <= i <= entries@.len(),
            listing == entry_models(entries@),
            codes@.len() == i,
            forall|j: int| 0 <= j < i ==> key_models(codes@)[j] == values_of(listing)[j],
        decreases entries@.len() - i,
    {
        codes.push(crate::bytes::copy_bytes(entries[i].1.as_slice()));
        i = i + 1;
    }
    assert(key_models(codes@) =~= values_of(listing));
    let name = key_seq_code_id();
    let key = sequence_key(name.as_slice());
    let next_code_id = match view.get(key.as_slice()) {
        Some(v) => u64_from_be(v.as_slice()),
        None => 0,
    };
    GenesisState { codes, next_code_id }
}

} // verus!
