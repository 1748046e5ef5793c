//! The dispatcher: what the application does with a handler when the
//! consensus engine hands it a transaction. Each message runs behind a
//! checkpoint, and a transaction that fails leaves no write behind.

use vstd::prelude::*;
use crate::context::{ContextState, Event, Header, event_models, tx_step};
use crate::context::init::InitContext;
use crate::context::query::QueryContext;
use crate::context::tx::TxContext;
use crate::error::{QueryError, TxError};
use crate::gas::GasState;
use crate::store::multi::{Layer, MultiStore, StoreState};
use crate::store::view::Source;

verus! {

/// A transaction: its messages, the gas it may use, and the bytes it
/// came as.
#[derive(Debug)]
pub struct TxWithRaw<M> {
    pub messages: Vec<M>,
    pub gas_limit: u64,
    pub raw: Vec<u8>,
}

/// A change of the power of a validator, as a module may ask for at
/// genesis.
#[derive(Debug, PartialEq, Eq)]
pub struct ValidatorUpdate {
    pub pub_key: Vec<u8>,
    pub power: u64,
}

/// A query as it comes from the consensus engine.
#[derive(Debug)]
pub struct RequestQuery {
    pub data: Vec<u8>,
    pub path: String,
    pub height: u32,
    pub prove: bool,
}

/// What the application reports of a transaction: the code is 0 exactly
/// if it succeeded.
#[derive(Debug)]
pub struct TxResponse {
    pub code: u32,
    pub codespace: String,
    pub log: String,
    pub gas_wanted: u64,
    pub gas_used: u64,
    pub events: Vec<Event>,
}

/// What a module offers to the application.
pub trait ABCIHandler {
    type Message;

    type Genesis;

    type QReq;

    type QRes;

    /// Answers a query from the state at the height of the context.
    fn typed_query(&self, ctx: &QueryContext<'_>, query: Self::QReq) -> Result<
        Self::QRes,
        QueryError,
    >
        requires
            ctx@.wf(),
    ;

    /// What the module says of its checks: whether checking `tx` in a
    /// context in the state `before` can leave the state `after` and
    /// return `r`. A module that says nothing of its checks leaves this
    /// as it is.
    open spec fn checks(
        &self,
        before: ContextState,
        tx: TxWithRaw<Self::Message>,
        is_check: bool,
        after: ContextState,
        r: Result<(), TxError>,
    ) -> bool {
        true
    }

    /// The checks that are made of a transaction before any of its
    /// messages runs. What they do is a step of the transaction, and is
    /// what the module says of its checks.
    fn run_ante_checks(
        &self,
        ctx: &mut TxContext,
        tx: &TxWithRaw<Self::Message>,
        is_check: bool,
    ) -> (r: Result<(), TxError>)
        requires
            old(ctx)@.wf(),
        ensures
            tx_step(old(ctx)@, final(ctx)@),
            self.checks(old(ctx)@, *tx, is_check, final(ctx)@, r),
    ;

    /// What the module says of its messages: whether running `msg` in a
    /// context in the state `before` can leave the state `after` and
    /// return `r`. A module that says nothing of its messages leaves this
    /// as it is.
    open spec fn runs(
        &self,
        before: ContextState,
        msg: Self::Message,
        after: ContextState,
        r: Result<(), TxError>,
    ) -> bool {
        true
    }

    /// Runs one message. What it does is a step of the transaction, and
    /// is what the module says of the message.
    fn msg(&self, ctx: &mut TxContext, msg: &Self::Message) -> (r: Result<(), TxError>)
        requires
            old(ctx)@.wf(),
        ensures
            tx_step(old(ctx)@, final(ctx)@),
            self.runs(old(ctx)@, *msg, final(ctx)@, r),
    ;

    /// Applies the module's genesis state. A failure is fatal to the
    /// start of the node: the caller must not go on.
    fn init_genesis(&self, ctx: &mut InitContext, genesis: Self::Genesis) -> (r: Result<
        Vec<ValidatorUpdate>,
        TxError,
    >)
        requires
            old(ctx)@.wf(),
        ensures
            final(ctx)@.wf(),
            final(ctx)@.store.names == old(ctx)@.store.names,
            final(ctx)@.store.versions == old(ctx)@.store.versions,
    ;

    /// Answers a query that comes as bytes under a path.
    fn query(&self, ctx: &QueryContext<'_>, query: RequestQuery) -> Result<Vec<u8>, QueryError>
        requires
            ctx@.wf(),
    ;
}

/// The state `left` with what was written and emitted since the state
/// `before` taken back: the store and the events are those of `before`,
/// and all else, the gas that was drawn too, stays as in `left`.
pub open spec fn taken_back(before: ContextState, left: ContextState) -> ContextState {
    ContextState { store: before.store, events: before.events, ..left }
}

/// Runs one message of a transaction behind a checkpoint, and returns
/// what the handler returned. If the message succeeds, the context is as
/// the handler left it: its writes stay pending. If the message fails,
/// all that it wrote and emitted is taken back: the store and the events
/// are then what they were before; only the gas stays drawn.
pub fn run_msg<H: ABCIHandler>(handler: &H, ctx: &mut TxContext, msg: &H::Message) -> (r: Result<
    (),
    TxError,
>)
    requires
        old(ctx)@.wf(),
    ensures
        tx_step(old(ctx)@, final(ctx)@),
        r is Err ==> final(ctx)@.store == old(ctx)@.store && final(ctx)@.events == old(ctx)@.events,
        exists|left: ContextState|
            {
                &&& #[trigger] handler.runs(old(ctx)@, *msg, left, r)
                &&& tx_step(old(ctx)@, left)
                &&& final(ctx)@ == if r is Ok {
                    left
                } else {
                    taken_back(old(ctx)@, left)
                }
            },
{
    let checkpoint = ctx.checkpoint();
    let outcome = handler.msg(ctx, msg);
    let ghost left = ctx@;
    if outcome.is_err() {
        ctx.rollback(checkpoint);
        assert(ctx@.store == old(ctx)@.store);
        assert(ctx@ == taken_back(old(ctx)@, left));
    }
    assert(handler.runs(old(ctx)@, *msg, left, outcome));
    outcome
}

/// The store after a transaction that failed: the writes of the
/// transaction are gone, and all else is as before.
pub open spec fn without_tx(s: StoreState) -> StoreState {
    StoreState { tx: Map::empty(), ..s }
}

/// The store after a transaction that succeeded: its writes are laid
/// over those of the block, where they stay pending until the block is
/// committed.
pub open spec fn handed_over(s: StoreState) -> StoreState {
    StoreState { block: s.block.union_prefer_right(s.tx), tx: Map::empty(), ..s }
}

/// The gas that a transaction in the state `st` has used.
pub open spec fn gas_used(st: ContextState) -> nat {
    match st.gas {
        Some(g) => g.consumed,
        None => 0,
    }
}

/// Whether `store` and `response` are what is left and reported of a
/// transaction that ended in the state `st`, with `failure` or with none.
///
/// A failure is reported with its code, which is not 0, its codespace and
/// its words; no write of the transaction is left and no event is
/// reported. A success is reported with the code 0 and the events of the
/// transaction, and its writes are handed over to the block. Either way
/// the gas that was drawn is reported as used.
pub open spec fn concluded(
    st: ContextState,
    gas_wanted: u64,
    failure: Option<TxError>,
    store: StoreState,
    response: TxResponse,
) -> bool {
    &&& response.gas_wanted == gas_wanted
    &&& response.gas_used == gas_used(st)
    &&& match failure {
        Some(e) => {
            &&& store == without_tx(st.store)
            &&& response.code == e.code()
            &&& response.code != 0
            &&& response.codespace@ == e.codespace()
            &&& response.log@ == e.message()
            &&& response.events@.len() == 0
        },
        None => {
            &&& store == handed_over(st.store)
            &&& response.code == 0
            &&& response.codespace@.len() == 0
            &&& response.log@.len() == 0
            &&& event_models(response.events@) == st.events
        },
    }
}

/// Ends a transaction, with the failure that ended it or with none, and
/// makes the response: see [`concluded`].
pub fn conclude(ctx: TxContext, gas_wanted: u64, failure: Option<TxError>) -> (r: (
    MultiStore,
    TxResponse,
))
    requires
        ctx@.wf(),
    ensures
        concluded(ctx@, gas_wanted, failure, r.0@, r.1),
        r.0.wf(),
        ctx@.gas matches Some(g) && r.1.gas_used <= g.limit,
{
    proof {
        ctx.lemma_phase();
    }
    match failure {
        Some(e) => {
            let (store, gas) = ctx.abort();
            let response = TxResponse {
                code: e.response_code() as u32,
                codespace: String::from_str(e.response_codespace()),
                log: e.response_message().clone(),
                gas_wanted,
                gas_used: gas.consumed(),
                events: Vec::new(),
            };
            (store, response)
        },
        None => {
            let (store, events, gas) = ctx.finish();
            let response = TxResponse {
                code: 0,
                codespace: String::new(),
                log: String::new(),
                gas_wanted,
                gas_used: gas.consumed(),
                events,
            };
            (store, response)
        },
    }
}

/// The state in which a transaction starts in a block: no write and no
/// event of its own yet, and all its gas.
pub open spec fn tx_start(
    store: StoreState,
    height: u32,
    header: Header,
    gas_limit: u64,
    tx_index: u32,
    tx_hash: Seq<u8>,
) -> ContextState {
    ContextState {
        store: without_tx(store),
        source: Source::Pending(Layer::Tx),
        gas: Some(GasState { limit: gas_limit as nat, consumed: 0 }),
        events: Seq::empty(),
        chain_id: header.chain_id@,
        height,
        time: header.time,
        tx_index,
        tx_hash,
    }
}

/// Whether the message at `i` ran with success from the state `s[i]` to
/// the state `s[i + 1]`.
pub open spec fn ran_at<H: ABCIHandler>(
    handler: H,
    msgs: Seq<H::Message>,
    s: Seq<ContextState>,
    i: int,
) -> bool {
    handler.runs(s[i], msgs[i], s[i + 1], Ok(())) && tx_step(s[i], s[i + 1])
}

/// Whether the first messages of `msgs` ran with success, one after the
/// other, through the states `s`: the first from `s[0]` to `s[1]`, and
/// so on to the last state of `s`.
pub open spec fn ran<H: ABCIHandler>(handler: H, msgs: Seq<H::Message>, s: Seq<ContextState>)
    -> bool {
    &&& 1 <= s.len() <= msgs.len() + 1
    &&& forall|i: int| 0 <= i < s.len() - 1 ==> #[trigger] ran_at(handler, msgs, s, i)
}

/// Whether `store` and `response` are what is left and reported of the
/// messages `msgs`, run from the state `checked` on.
///
/// The messages run in their order, each from the state that the one
/// before left. If all succeed, the transaction ends with success in the
/// state that the last one left. Else the first that fails ends the
/// transaction with its failure, after what it wrote and emitted was
/// taken back; no later message runs.
pub open spec fn messages_result<H: ABCIHandler>(
    handler: H,
    checked: ContextState,
    msgs: Seq<H::Message>,
    gas_wanted: u64,
    store: StoreState,
    response: TxResponse,
) -> bool {
    exists|s: Seq<ContextState>|
        {
            &&& #[trigger] ran(handler, msgs, s)
            &&& s[0] == checked
            &&& if s.len() == msgs.len() + 1 {
                concluded(s.last(), gas_wanted, None, store, response)
            } else {
                exists|left: ContextState, e: TxError|
                    {
                        &&& #[trigger] handler.runs(
                            s.last(),
                            msgs[s.len() - 1],
                            left,
                            Err::<(), TxError>(e),
                        )
                        &&& tx_step(s.last(), left)
                        &&& concluded(
                            taken_back(s.last(), left),
                            gas_wanted,
                            Some(e),
                            store,
                            response,
                        )
                    }
            }
        }
}

/// Whether `store` and `response` are what is left and reported of the
/// transaction `tx`, run with `handler` from the state `start` on.
///
/// The checks run first. If they fail, the transaction ends with their
/// failure and no message runs. Else the messages run: see
/// [`messages_result`].
pub open spec fn tx_result<H: ABCIHandler>(
    handler: H,
    start: ContextState,
    tx: TxWithRaw<H::Message>,
    store: StoreState,
    response: TxResponse,
) -> bool {
    exists|checked: ContextState, verdict: Result<(), TxError>|
        {
            &&& #[trigger] handler.checks(start, tx, false, checked, verdict)
            &&& tx_step(start, checked)
            &&& match verdict {
                Err(e) => concluded(checked, tx.gas_limit, Some(e), store, response),
                Ok(()) => messages_result(
                    handler,
                    checked,
                    tx.messages@,
                    tx.gas_limit,
                    store,
                    response,
                ),
            }
        }
}

/// Messages that ran one after the other made steps of one transaction:
/// the state that the last one left comes of the first state by what a
/// transaction does.
pub proof fn lemma_ran_steps<H: ABCIHandler>(
    handler: H,
    msgs: Seq<H::Message>,
    s: Seq<ContextState>,
    n: int,
)
    requires
        ran(handler, msgs, s),
        0 <= n < s.len(),
    ensures
        tx_step(s[0], s[n]),
    decreases n,
{
    if n > 0 {
        lemma_ran_steps(handler, msgs, s, n - 1);
        assert(ran_at(handler, msgs, s, n - 1));
    }
}

/// A transaction is all or nothing. Where it is reported with a code
/// that is not 0, none of its writes is left, those of the messages that
/// succeeded before the failure neither, and no event is reported: the
/// store is the one of the start. Where it is reported with the code 0,
/// the checks passed and every message ran with success, each from the
/// state that the one before left, and the writes of all of them are
/// handed over to the block.
pub proof fn lemma_all_or_nothing<H: ABCIHandler>(
    handler: H,
    start: ContextState,
    tx: TxWithRaw<H::Message>,
    store: StoreState,
    response: TxResponse,
)
    requires
        tx_result(handler, start, tx, store, response),
    ensures
        response.code != 0 ==> store == without_tx(start.store) && response.events@.len() == 0,
        response.code == 0 ==> exists|s: Seq<ContextState>|
            {
                &&& #[trigger] ran(handler, tx.messages@, s)
                &&& s.len() == tx.messages@.len() + 1
                &&& tx_step(start, s[0])
                &&& store == handed_over(s.last().store)
            },
{
    let (checked, verdict) = choose|checked: ContextState, verdict: Result<(), TxError>|
        {
            &&& #[trigger] handler.checks(start, tx, false, checked, verdict)
            &&& tx_step(start, checked)
            &&& match verdict {
                Err(e) => concluded(checked, tx.gas_limit, Some(e), store, response),
                Ok(()) => messages_result(
                    handler,
                    checked,
                    tx.messages@,
                    tx.gas_limit,
                    store,
                    response,
                ),
            }
        };
    if verdict is Ok {
        let s = choose|s: Seq<ContextState>|
            {
                &&& #[trigger] ran(handler, tx.messages@, s)
                &&& s[0] == checked
                &&& if s.len() == tx.messages@.len() + 1 {
                    concluded(s.last(), tx.gas_limit, None, store, response)
                } else {
                    exists|left: ContextState, e: TxError|
                        {
                            &&& #[trigger] handler.runs(
                                s.last(),
                                tx.messages@[s.len() - 1],
                                left,
                                Err::<(), TxError>(e),
                            )
                            &&& tx_step(s.last(), left)
                            &&& concluded(
                                taken_back(s.last(), left),
                                tx.gas_limit,
                                Some(e),
                                store,
                                response,
                            )
                        }
                }
            };
        lemma_ran_steps(handler, tx.messages@, s, s.len() - 1);
    }
}

/// Runs a transaction: the checks, and then its messages in their order,
/// each behind a checkpoint. The first failure ends the transaction and
/// drops all its writes, those of the messages that succeeded before
/// too; its response then has a code that is not 0. A transaction that
/// succeeds hands its writes over to the block.
///
/// The gas that was drawn stays drawn whatever happens: a transaction
/// that fails, in its checks or in a message, is reported with the gas
/// that it used up to the failure.
pub fn run_tx<H: ABCIHandler>(
    handler: &H,
    store: MultiStore,
    height: u32,
    header: Header,
    tx_index: u32,
    tx_hash: [u8; 32],
    tx: &TxWithRaw<H::Message>,
) -> (r: (MultiStore, TxResponse))
    requires
        store.wf(),
    ensures
        r.0.wf(),
        r.0@.names == store@.names,
        r.0@.versions == store@.versions,
        r.0@.tx == Map::<Seq<u8>, Option<Seq<u8>>>::empty(),
        r.1.code != 0 ==> r.0@ == without_tx(store@),
        r.1.code != 0 ==> r.1.events@.len() == 0,
        r.1.gas_wanted == tx.gas_limit,
        r.1.gas_used <= tx.gas_limit,
        tx_result(
            *handler,
            tx_start(store@, height, header, tx.gas_limit, tx_index, tx_hash@),
            *tx,
            r.0@,
            r.1,
        ),
{
    let ghost start = tx_start(store@, height, header, tx.gas_limit, tx_index, tx_hash@);
    let mut base = store;
    base.discard_tx();
    let mut ctx = TxContext::new(base, height, header, tx.gas_limit, tx_index, tx_hash);
    assert(ctx@ == start);
    let checks = handler.run_ante_checks(&mut ctx, tx, false);
    let ghost checked = ctx@;
    match checks {
        Ok(()) => {
            assert(checks->Ok_0 =~= ());
        },
        Err(e) => {
            return conclude(ctx, tx.gas_limit, Some(e));
        },
    }
    let ghost mut s: Seq<ContextState> = seq![checked];
    let mut i: usize = 0;
    while i < tx.messages.len()
        invariant
            0 <= i <= tx.messages@.len(),
            start == tx_start(store@, height, header, tx.gas_limit, tx_index, tx_hash@),
            store.wf(),
            tx_step(start, checked),
            tx_step(start, ctx@),
            ctx@.wf(),
            handler.checks(start, *tx, false, checked, Ok::<(), TxError>(())),
            ran(*handler, tx.messages@, s),
            s.len() == i + 1,
            s[0] == checked,
            s.last() == ctx@,
        decreases tx.messages@.len() - i,
    {
        let ghost before = ctx@;
        let done = run_msg(handler, &mut ctx, &tx.messages[i]);
        let ghost left = choose|left: ContextState|
            {
                &&& #[trigger] handler.runs(before, tx.messages@[i as int], left, done)
                &&& tx_step(before, left)
                &&& ctx@ == if done is Ok {
                    left
                } else {
                    taken_back(before, left)
                }
            };
        match done {
            Ok(()) => {
                proof {
                    let earlier = s;
                    s = s.push(ctx@);
                    assert(done->Ok_0 =~= ());
                    assert(s[i as int] == before);
                    assert(s[i + 1] == left);
                    assert(ran_at(*handler, tx.messages@, s, i as int));
                    assert forall|j: int| 0 <= j < s.len() - 1 implies #[trigger] ran_at(
                        *handler,
                        tx.messages@,
                        s,
                        j,
                    ) by {
                        if j < i {
                            assert(ran_at(*handler, tx.messages@, earlier, j));
                            assert(s[j] == earlier[j]);
                            assert(s[j + 1] == earlier[j + 1]);
                        }
                    }
                }
            },
            Err(e) => {
                assert(handler.runs(before, tx.messages@[i as int], left, Err::<(), TxError>(e)));
                let r = conclude(ctx, tx.gas_limit, Some(e));
                assert(messages_result(
                    *handler,
                    checked,
                    tx.messages@,
                    tx.gas_limit,
                    r.0@,
                    r.1,
                ));
                return r;
            },
        }
        i = i + 1;
    }
    let r = conclude(ctx, tx.gas_limit, None);
    assert(messages_result(*handler, checked, tx.messages@, tx.gas_limit, r.0@, r.1));
    r
}

} // verus!
