//! What is indexed, and in which order.
use vstd::prelude::*;
use vstd::string::*;
use crate::cache::{change_is, changes_are, lists_amounts, BalanceDiff, ErcCache, Model};
use crate::engine::{
    at_head, engine_next, event_routed, heads_of, range_steps, round_next, seen_before,
    transaction_steps, Cursors, Engine, EngineAction, EngineEvent, Event, EventPlace, EventRoute,
    FetchedBlock, RoundAction, RoundStage, TaskOffer,
};
use crate::felt::Felt;
use crate::ledger::{account_of, token_of, Cell, CellKey};
use crate::processors::{
    external_indexed, model_indexed, model_is, read_of, resolved, updates_processed,
    EventProcessorConfig, ModelContents, ProcessorError,
};
use crate::schema::Ty;
use crate::sql::errors::StorageError;
use crate::sql::writes::QueryType;
use crate::text::views;

verus! {

// ---------------------------------------------------------------------------
// The loop
// ---------------------------------------------------------------------------

/// A failure to fetch waits as long as was last set, and doubles that for the next one until it is a
/// minute or more; a success sets it back to a second. What concerns processing is left.
pub proof fn failures_to_fetch_back_off(s: Engine)
    requires
        s.wf(),
    ensures
        ({
            let failed = engine_next(s, EngineEvent::FetchFailed);
            let fetched = engine_next(failed.0, EngineEvent::Fetched);
            &&& failed.1 == EngineAction::Wait { wait: s.fetching_delay }
            &&& s.fetching_delay < 60 ==> failed.0.fetching_delay == s.fetching_delay + s.fetching_delay
            &&& s.fetching_delay >= 60 ==> failed.0.fetching_delay == s.fetching_delay
            &&& failed.0.processing_delay == s.processing_delay
            &&& failed.0.processing_failing == s.processing_failing
            &&& !failed.0.cached_fetch
            &&& engine_next(failed.0, EngineEvent::Round).1 == EngineAction::Fetch
            &&& fetched.0.fetching_delay == 1
            &&& fetched.1 == EngineAction::Process
            &&& fetched.0.cached_fetch
            &&& fetched.0.processing_delay == s.processing_delay
        }),
{
}

/// A failure to process takes the changes back and waits as long as was last set, and doubles that
/// for the next one until it is a minute or more; a success commits and sets it back to a second.
/// What was fetched is kept until it was processed. What concerns fetching is left.
pub proof fn failures_to_process_back_off(s: Engine)
    requires
        s.wf(),
    ensures
        ({
            let failed = engine_next(s, EngineEvent::ProcessFailed);
            let processed = engine_next(failed.0, EngineEvent::Processed);
            &&& failed.1 == EngineAction::Recover { wait: s.processing_delay }
            &&& s.processing_delay < 60 ==> failed.0.processing_delay == s.processing_delay
                + s.processing_delay
            &&& s.processing_delay >= 60 ==> failed.0.processing_delay == s.processing_delay
            &&& failed.0.fetching_delay == s.fetching_delay
            &&& failed.0.fetching_failing == s.fetching_failing
            &&& failed.0.cached_fetch == s.cached_fetch
            &&& processed.0.processing_delay == 1
            &&& processed.1 == EngineAction::Commit
            &&& !processed.0.cached_fetch
            &&& processed.0.fetching_delay == s.fetching_delay
        }),
{
}

/// A round fetches where nothing is kept, and processes what is kept. Changes that can be neither
/// committed nor taken back end the loop, and so does being told to; a round that is done is
/// followed by a rest.
pub proof fn rounds_fetch_what_they_lack(s: Engine)
    ensures
        engine_next(s, EngineEvent::Round) == (s, if s.cached_fetch {
            EngineAction::Process
        } else {
            EngineAction::Fetch
        }),
        engine_next(s, EngineEvent::CommitFailed) == (s, EngineAction::Fail),
        engine_next(s, EngineEvent::RecoverFailed) == (s, EngineAction::Fail),
        engine_next(s, EngineEvent::Shutdown) == (s, EngineAction::Stop),
        engine_next(s, EngineEvent::RoundDone) == (s, EngineAction::Rest),
{
}

/// The indexer is at the head with a block that is not yet confirmed; without one exactly where some
/// head is known and no known head lies below another.
pub proof fn heads_decide(heads: Seq<Option<u64>>)
    ensures
        at_head(true, heads),
        at_head(false, heads) ==> exists|i: int| 0 <= i < heads.len() && (#[trigger] heads[i]) is Some,
        forall|i: int, j: int|
            0 <= i < heads.len() && 0 <= j < heads.len() && (#[trigger] heads[i]) is Some && (
            #[trigger] heads[j]) is Some && heads[i]->0 < heads[j]->0 ==> !at_head(false, heads),
        !at_head(false, heads) && (exists|i: int|
            0 <= i < heads.len() && (#[trigger] heads[i]) is Some) ==> exists|i: int, j: int|
            0 <= i < heads.len() && 0 <= j < heads.len() && (#[trigger] heads[i]) is Some && (
            #[trigger] heads[j]) is Some && heads[i]->0 < heads[j]->0,
{
    if !at_head(false, heads) && (exists|i: int|
        0 <= i < heads.len() && (#[trigger] heads[i]) is Some) {
        let (i, j) = choose|i: int, j: int|
            0 <= i < heads.len() && 0 <= j < heads.len() && (#[trigger] heads[i]) is Some && (
            #[trigger] heads[j]) is Some && heads[i] != heads[j];
        if heads[i]->0 < heads[j]->0 {
            assert(heads[i]->0 < heads[j]->0);
        } else {
            assert(heads[j]->0 < heads[i]->0);
        }
    }
}

// ---------------------------------------------------------------------------
// Blocks and transactions
// ---------------------------------------------------------------------------

/// The transactions of a block that are processed are those with events, in their order.
pub proof fn transactions_with_events_are_processed(block: int, counts: Seq<usize>, n: nat)
    requires
        n <= counts.len(),
    ensures
        ({
            let steps = transaction_steps(block, counts, n);
            &&& forall|t: int|
                0 <= t < n && (#[trigger] counts[t]) > 0 ==> exists|k: int|
                    0 <= k < steps.len() && #[trigger] steps[k] == (block, t)
            &&& forall|k: int|
                0 <= k < steps.len() ==> (#[trigger] steps[k]).0 == block && 0 <= steps[k].1 < n
                    && counts[steps[k].1] > 0
            &&& forall|k: int, l: int|
                0 <= k < l < steps.len() ==> (#[trigger] steps[k]).1 < (#[trigger] steps[l]).1
        }),
    decreases n,
{
    if n > 0 {
        let m = (n - 1) as nat;
        transactions_with_events_are_processed(block, counts, m);
        let before = transaction_steps(block, counts, m);
        let steps = transaction_steps(block, counts, n);
        assert forall|t: int| 0 <= t < n && (#[trigger] counts[t]) > 0 implies exists|k: int|
            0 <= k < steps.len() && #[trigger] steps[k] == (block, t) by {
            if t < m {
                let k = choose|k: int| 0 <= k < before.len() && #[trigger] before[k] == (block, t);
                assert(steps[k] == (block, t));
            } else {
                assert(steps[before.len() as int] == (block, t));
            }
        }
        assert forall|k: int| 0 <= k < steps.len() implies (#[trigger] steps[k]).0 == block && 0
            <= steps[k].1 < n && counts[steps[k].1] > 0 by {
            if k < before.len() {
                assert(steps[k] == before[k]);
            }
        }
        assert forall|k: int, l: int| 0 <= k < l < steps.len() implies (#[trigger] steps[k]).1 < (
        #[trigger] steps[l]).1 by {
            assert(steps[k] == before[k]);
            if l < before.len() {
                assert(steps[l] == before[l]);
            }
        }
    }
}

/// Whether a step stands before another: in an earlier block, or in the same block an earlier
/// transaction, or a transaction before the block itself.
pub open spec fn goes_before(a: (int, int), b: (int, int)) -> bool {
    a.0 < b.0 || (a.0 == b.0 && a.1 >= 0 && (b.1 < 0 || a.1 < b.1))
}

/// The steps over blocks are the transactions with events, and each block once for its number, block
/// after block, the block itself after its transactions.
pub proof fn blocks_follow_their_transactions(blocks: Seq<FetchedBlock>, n: nat)
    requires
        n <= blocks.len(),
    ensures
        ({
            let steps = range_steps(blocks, n);
            &&& forall|b: int, t: int|
                0 <= b < n && 0 <= t < blocks[b].event_counts@.len() && (
                #[trigger] blocks[b].event_counts@[t]) > 0 ==> exists|k: int|
                    0 <= k < steps.len() && #[trigger] steps[k] == (b, t)
            &&& forall|b: int|
                0 <= b < n && (forall|j: int|
                    0 <= j < b ==> (#[trigger] blocks[j]).number != blocks[b].number) ==> exists|k: int|
                    0 <= k < steps.len() && #[trigger] steps[k] == (b, #[trigger] minus_one(b))
            &&& forall|k: int|
                0 <= k < steps.len() ==> 0 <= (#[trigger] steps[k]).0 < n && (if steps[k].1 >= 0 {
                    steps[k].1 < blocks[steps[k].0].event_counts@.len()
                        && blocks[steps[k].0].event_counts@[steps[k].1] > 0
                } else {
                    steps[k].1 == -1 && forall|j: int|
                        0 <= j < steps[k].0 ==> (#[trigger] blocks[j]).number
                            != blocks[steps[k].0].number
                })
            &&& forall|k: int, l: int|
                0 <= k < l < steps.len() ==> goes_before(#[trigger] steps[k], #[trigger] steps[l])
        }),
    decreases n,
{
    if n > 0 {
        let m = (n - 1) as nat;
        let b = n - 1;
        blocks_follow_their_transactions(blocks, m);
        let counts = blocks[b].event_counts@;
        transactions_with_events_are_processed(b, counts, counts.len());
        let before = range_steps(blocks, m);
        let txs = transaction_steps(b, counts, counts.len());
        let steps = range_steps(blocks, n);
        let x = before.len();
        let y = txs.len();
        assert forall|k: int| 0 <= k < x implies #[trigger] steps[k] == before[k] by {}
        assert forall|k: int| 0 <= k < y implies steps[x + k] == #[trigger] txs[k] by {}
        assert(steps.len() == x + y || (steps.len() == x + y + 1 && steps[(x + y) as int] == (b, -1int)));
        assert forall|c: int, t: int|
            0 <= c < n && 0 <= t < blocks[c].event_counts@.len() && (
            #[trigger] blocks[c].event_counts@[t]) > 0 implies exists|k: int|
            0 <= k < steps.len() && #[trigger] steps[k] == (c, t) by {
            if c < m {
                let k = choose|k: int| 0 <= k < before.len() && #[trigger] before[k] == (c, t);
                assert(steps[k] == (c, t));
            } else {
                let k = choose|k: int| 0 <= k < txs.len() && #[trigger] txs[k] == (c, t);
                assert(steps[x + k] == (c, t));
            }
        }
        assert forall|c: int|
            0 <= c < n && (forall|j: int|
                0 <= j < c ==> (#[trigger] blocks[j]).number != blocks[c].number) implies exists|k: int|
            0 <= k < steps.len() && #[trigger] steps[k] == (c, #[trigger] minus_one(c)) by {
            if c < m {
                let k = choose|k: int| 0 <= k < before.len() && #[trigger] before[k] == (c, minus_one(c));
                assert(steps[k] == (c, minus_one(c)));
            } else {
                assert(!seen_before(blocks, c));
                assert(steps[(x + y) as int] == (c, minus_one(c)));
            }
        }
        assert forall|k: int| 0 <= k < steps.len() implies 0 <= (#[trigger] steps[k]).0 < n && (
        if steps[k].1 >= 0 {
            steps[k].1 < blocks[steps[k].0].event_counts@.len()
                && blocks[steps[k].0].event_counts@[steps[k].1] > 0
        } else {
            steps[k].1 == -1 && forall|j: int|
                0 <= j < steps[k].0 ==> (#[trigger] blocks[j]).number != blocks[steps[k].0].number
        }) by {
            if k < x {
                assert(steps[k] == before[k]);
            } else if k < x + y {
                assert(txs[k - x] == steps[k]);
            } else {
                assert(!seen_before(blocks, b));
            }
        }
        assert forall|k: int, l: int| 0 <= k < l < steps.len() implies goes_before(
            #[trigger] steps[k],
            #[trigger] steps[l],
        ) by {
            if k < x {
                assert(steps[k] == before[k]);
            } else if k < x + y {
                assert(txs[k - x] == steps[k]);
            }
            if l < x {
                assert(steps[l] == before[l]);
            } else if l < x + y {
                assert(txs[l - x] == steps[l]);
            }
        }
    }
}

/// The place of a block among its transactions: none.
pub open spec fn minus_one(b: int) -> int {
    -1
}

/// Whether the change is the amount of a key, under its account and token.
pub open spec fn tells_amount(d: BalanceDiff, m: Map<CellKey, int>, k: CellKey) -> bool {
    m.dom().contains(k) && d.id.account_address == account_of(k) && d.id.token_id == token_of(k)
        && d.diff.amount() == m[k]
}

/// Whether the change is the amount of some key.
pub open spec fn tells_some_amount(d: BalanceDiff, m: Map<CellKey, int>) -> bool {
    exists|k: CellKey| tells_amount(d, m, k)
}

/// A list of changes holds every amount, under its account and token, and nothing else.
pub proof fn changes_hold_every_amount(v: Seq<BalanceDiff>, m: Map<CellKey, int>)
    requires
        changes_are(v, m),
    ensures
        forall|k: CellKey| #[trigger]
            m.dom().contains(k) ==> exists|i: int|
                0 <= i < v.len() && tells_amount(#[trigger] v[i], m, k),
        forall|i: int|
            0 <= i < v.len() ==> tells_some_amount(#[trigger] v[i], m),
{
    let l = choose|l: Seq<(CellKey, Cell)>| #[trigger]
        lists_amounts(l, m) && v.len() == l.len() && forall|i: int|
            0 <= i < l.len() ==> change_is(#[trigger] v[i], l[i]);
    assert forall|k: CellKey| #[trigger] m.dom().contains(k) implies exists|i: int|
        0 <= i < v.len() && tells_amount(#[trigger] v[i], m, k) by {
        let i = choose|i: int| 0 <= i < l.len() && (#[trigger] l[i]).0 == k;
        assert(change_is(v[i], l[i]));
        assert(m[l[i].0] == crate::ledger::amount_of(l[i].1));
        assert(tells_amount(v[i], m, k));
    }
    assert forall|i: int| 0 <= i < v.len() implies tells_some_amount(#[trigger] v[i], m) by {
        assert(change_is(v[i], l[i]));
        assert(m[l[i].0] == crate::ledger::amount_of(l[i].1));
        assert(m.dom().contains(l[i].0));
        assert(tells_amount(v[i], m, l[i].0));
    }
}

/// The storage is told the balances as balances and the supplies as supplies, and both times how far
/// every contract is indexed; with the cursors it is told the transactions of each contract.
pub proof fn rounds_tell_what_changed(
    ok: bool,
    preconfirmed: bool,
    c: Cursors,
    cache: ErcCache,
    next: RoundStage,
    action: RoundAction,
)
    ensures
        round_next(RoundStage::Tasks, true, preconfirmed, c, cache, next, action) ==> (
        action matches RoundAction::Store(m) && (m.query_type matches QueryType::ApplyBalanceDiff {
            balances,
            supplies,
            cursors,
        } && changes_are(balances@, cache.balances()) && changes_are(supplies@, cache.supplies())
            && cursors@.len() == c.cursors@.len() && forall|i: int|
            0 <= i < cursors@.len() ==> #[trigger] cursors@[i] == c.cursors@[i])),
        round_next(RoundStage::Balances, true, preconfirmed, c, cache, next, action) ==> (
        action matches RoundAction::Store(m) && (m.query_type matches QueryType::UpdateCursors {
            cursors,
            cursor_transactions,
        } && cursors@.len() == c.cursors@.len() && (forall|i: int|
            0 <= i < cursors@.len() ==> #[trigger] cursors@[i] == c.cursors@[i])
            && cursor_transactions@.len() == c.cursor_transactions@.len() && forall|i: int|
            0 <= i < cursor_transactions@.len() ==> (#[trigger] cursor_transactions@[i]).0
                == c.cursor_transactions@[i].0 && cursor_transactions@[i].1@
                == c.cursor_transactions@[i].1@)),
        round_next(RoundStage::Begin, ok, preconfirmed, c, cache, next, action) ==> (
        action matches RoundAction::Range { is_at_head } && is_at_head == at_head(
            preconfirmed,
            Seq::new(c.cursors@.len(), |i: int| c.cursors@[i].head),
        )),
        round_next(RoundStage::Range, true, preconfirmed, c, cache, next, action) ==> (preconfirmed
            <==> action is Pending),
{
    assert(heads_of(c.cursors@) =~= Seq::new(c.cursors@.len(), |i: int| c.cursors@[i].head));
    if round_next(RoundStage::Balances, true, preconfirmed, c, cache, next, action) {
        let t = action->Store_0.query_type->cursor_transactions;
        let u = c.cursor_transactions;
        let (x, y) = (
            crate::engine::transactions_view(t@),
            crate::engine::transactions_view(u@),
        );
        assert(x.len() == t@.len() && y.len() == u@.len());
        assert forall|i: int| 0 <= i < t@.len() implies (#[trigger] t@[i]).0 == u@[i].0 && t@[i].1@
            == u@[i].1@ by {
            assert(x[i] == (t@[i].0, t@[i].1@));
            assert(y[i] == (u@[i].0, u@[i].1@));
        }
    }
}

/// An event is handed on as it is, with where and when it happened: to the first processor that
/// accepts it, as the task of the number, dependencies and mode that the processor told.
pub proof fn events_are_handed_on(
    route: EventRoute,
    event: Event,
    at: EventPlace,
    offers: Seq<Option<TaskOffer>>,
    i: int,
    catch_all: bool,
)
    requires
        0 <= i < offers.len(),
        offers[i] is Some,
        forall|j: int| 0 <= j < i ==> (#[trigger] offers[j]) is None,
        event_routed(route, event, at, Some(offers), catch_all),
    ensures
        route matches EventRoute::Task {
            processor,
            identifier,
            dependencies,
            indexing_mode,
            event: p,
        } && processor == i && identifier == offers[i]->0.identifier && dependencies@
            == offers[i]->0.dependencies@ && indexing_mode == offers[i]->0.indexing_mode
            && p.contract_address == event.from_address && p.event.from_address == event.from_address
            && p.event.keys@ == event.keys@ && p.event.data@ == event.data@ && p.event_id@
            == at.event_id@ && p.contract_type == at.contract_type && p.block_number
            == at.block_number && p.block_timestamp == at.block_timestamp && p.is_at_head
            == at.is_at_head,
{
    let k = route->Task_processor;
    if k < i {
        assert(offers[k as int] is None);
    } else if i < k {
        assert(offers[i] is None);
    }
}

/// An event without processors of its key goes, as it is, to the processor for all events where that
/// accepts it, and to none where it does not.
pub proof fn other_events_are_caught(route: EventRoute, event: Event, at: EventPlace, catch_all: bool)
    requires
        event_routed(route, event, at, None, catch_all),
    ensures
        catch_all ==> (route matches EventRoute::CatchAll(p) && p.contract_address
            == event.from_address && p.event.keys@ == event.keys@ && p.event.data@ == event.data@
            && p.event_id@ == at.event_id@ && p.block_number == at.block_number
            && p.block_timestamp == at.block_timestamp && p.is_at_head == at.is_at_head),
        !catch_all ==> route is Unprocessed,
{
}

// ---------------------------------------------------------------------------
// Models and contracts
// ---------------------------------------------------------------------------

/// Whether a list of texts holds the text.
pub open spec fn holds(list: Seq<String>, s: Seq<char>) -> bool {
    exists|i: int| 0 <= i < list.len() && (#[trigger] list[i])@ == s
}

/// What the views of texts contain.
proof fn views_hold(list: Seq<String>, s: Seq<char>)
    ensures
        views(list).contains(s) <==> holds(list, s),
{
    if views(list).contains(s) {
        let i = choose|i: int| 0 <= i < views(list).len() && views(list)[i] == s;
        assert(list[i]@ == s);
    }
    if holds(list, s) {
        let i = choose|i: int| 0 <= i < list.len() && (#[trigger] list[i])@ == s;
        assert(views(list)[i] == s);
    }
}

/// A model is left out exactly where namespaces are listed without its own, or models are listed
/// that name it neither alone nor with its namespace.
pub proof fn models_are_left_out_by_lists(
    c: EventProcessorConfig,
    namespace: Seq<char>,
    name: Seq<char>,
)
    ensures
        !model_indexed(c, namespace, name) <==> (c.namespaces@.len() > 0 && !holds(
            c.namespaces@,
            namespace,
        )) || (c.models@.len() > 0 && !holds(c.models@, name) && !holds(
            c.models@,
            namespace + seq!['-'] + name,
        )),
{
    reveal_strlit("-");
    assert("-"@ =~= seq!['-']);
    views_hold(c.namespaces@, namespace);
    views_hold(c.models@, name);
    views_hold(c.models@, namespace + "-"@ + name);
}

/// An external contract is left out exactly where external contracts are, or namespaces are listed
/// without its own, or instances are listed without it.
pub proof fn external_contracts_are_left_out_by_lists(
    c: EventProcessorConfig,
    namespace: Seq<char>,
    instance: Seq<char>,
)
    ensures
        !external_indexed(c, namespace, instance) <==> !c.external_contracts || (c.namespaces@.len()
            > 0 && !holds(c.namespaces@, namespace)) || (c.external_contract_whitelist@.len() > 0
            && !holds(c.external_contract_whitelist@, instance)),
{
    views_hold(c.namespaces@, namespace);
    views_hold(c.external_contract_whitelist@, instance);
}

/// Updates of the metadata of a contract are left out exactly where all are, the contract is on the
/// blacklist, or there is a whitelist without it.
pub proof fn metadata_updates_are_left_out_by_lists(c: EventProcessorConfig, address: Felt)
    ensures
        !updates_processed(c, address) <==> !c.metadata_updates || (exists|i: int|
            0 <= i < c.metadata_update_blacklist@.len() && #[trigger] c.metadata_update_blacklist@[i]
                == address) || (c.metadata_update_whitelist@.len() > 0 && forall|i: int|
            0 <= i < c.metadata_update_whitelist@.len()
                ==> #[trigger] c.metadata_update_whitelist@[i] != address),
{
    let b = c.metadata_update_blacklist@;
    let w = c.metadata_update_whitelist@;
    assert(b.contains(address) <==> exists|i: int| 0 <= i < b.len() && #[trigger] b[i] == address);
    assert(w.contains(address) <==> exists|i: int| 0 <= i < w.len() && #[trigger] w[i] == address);
}

/// A model that was found is used, whatever is listed. One that is missing is passed over where
/// namespaces are listed, and an error where they are not; a look-up that failed is an error either
/// way.
pub proof fn missing_models_are_errors_without_namespaces<'a>(
    c: EventProcessorConfig,
    found: Option<&'a Model>,
    e: StorageError,
    selector: Felt,
)
    ensures
        found is Some ==> resolved(c, Ok(found), selector) == Ok::<Option<&'a Model>, ProcessorError>(
            found,
        ),
        c.namespaces@.len() > 0 ==> resolved(c, Ok(None), selector) == Ok::<
            Option<&'a Model>,
            ProcessorError,
        >(None),
        c.namespaces@.len() == 0 ==> resolved(c, Ok(None), selector) == Err::<
            Option<&'a Model>,
            ProcessorError,
        >(ProcessorError::ModelNotFound(selector)),
        resolved(c, Err::<Option<&'a Model>, StorageError>(e), selector) == Err::<
            Option<&'a Model>,
            ProcessorError,
        >(ProcessorError::Storage(e)),
{
}

/// A strict reader reads a model at the block of its event, and any other at the newest.
pub proof fn strict_readers_read_at_the_block(c: EventProcessorConfig, block: u64)
    ensures
        c.strict_model_reader ==> read_of(c, block).at_block == Some(block),
        !c.strict_model_reader ==> read_of(c, block).at_block is None,
{
}

/// A registered model is named by the namespace and name of its event, has its members as they were
/// read under that name, and is of the class and contract of the event.
pub proof fn registered_models_are_those_of_their_events(
    m: Model,
    world: Felt,
    selector: Felt,
    namespace: Seq<char>,
    name: Seq<char>,
    address: Felt,
    class_hash: Felt,
    c: ModelContents,
    legacy: bool,
)
    requires
        model_is(m, world, selector, namespace, name, address, class_hash, c, legacy),
    ensures
        m.world_address == world && m.selector == selector,
        m.namespace@ == namespace && m.name@ == name,
        m.contract_address == address && m.class_hash == class_hash,
        m.packed_size == c.packed_size && m.unpacked_size == c.unpacked_size,
        m.layout_json == c.layout_json && m.use_legacy_store == legacy,
        c.schema matches Ty::Struct(before) && m.schema matches Ty::Struct(after) && after.name@
            == namespace + seq!['-'] + before.name@ && after.children == before.children,
{
    reveal_strlit("-");
    assert("-"@ =~= seq!['-']);
}

/// A round goes from the range, over the pending block where there is one, to the tasks, the
/// balances and the cursors; it ends well after those, and at the first step that fails.
pub proof fn rounds_go_from_step_to_step(
    preconfirmed: bool,
    c: Cursors,
    cache: ErcCache,
    stage: RoundStage,
    next: RoundStage,
    action: RoundAction,
)
    ensures
        round_next(RoundStage::Cursors, true, preconfirmed, c, cache, next, action) ==> next
            == RoundStage::Done && action == (RoundAction::End { ok: true }),
        stage != RoundStage::Begin && stage != RoundStage::Done && round_next(
            stage,
            false,
            preconfirmed,
            c,
            cache,
            next,
            action,
        ) ==> next == RoundStage::Done && action == (RoundAction::End { ok: false }),
        round_next(RoundStage::Range, true, preconfirmed, c, cache, next, action) ==> next == (
        if preconfirmed {
            RoundStage::Pending
        } else {
            RoundStage::Tasks
        }),
        round_next(RoundStage::Pending, true, preconfirmed, c, cache, next, action) ==> next
            == RoundStage::Tasks && action is Tasks,
        round_next(RoundStage::Tasks, true, preconfirmed, c, cache, next, action) ==> next
            == RoundStage::Balances && (action matches RoundAction::Store(m) && m.statement@.len()
            == 0 && m.arguments@.len() == 0),
        round_next(RoundStage::Balances, true, preconfirmed, c, cache, next, action) ==> next
            == RoundStage::Cursors && (action matches RoundAction::Store(m) && m.statement@.len()
            == 0 && m.arguments@.len() == 0),
{
}

} // verus!
