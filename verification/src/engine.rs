//! The indexer: when it fetches, processes, commits and recovers, and what it makes of what it
//! fetched.
use vstd::prelude::*;
use vstd::string::*;
use crate::abi::{entry_selector, selector_from_name};
use crate::cache::{changes_are, ErcCache};
use crate::felt::Felt;
use crate::ids::{event_id, format_event_id};
use crate::ledger::{cells, no_cells, CellKey};
use crate::options::ContractType;
use crate::processors::{indexes_all, EventProcessorConfig, IndexingMode, TaskId};
use crate::sql::writes::{
    apply_balances_diff, copy_felts, update_cursors, ContractCursor, QueryMessage, QueryType,
};
use crate::text::{all_ascii, without_repeats, without_repeats_is_a_set};

verus! {

// ---------------------------------------------------------------------------
// The loop
// ---------------------------------------------------------------------------

/// The state of the loop.
#[derive(Clone, Copy, Debug, PartialEq, Eq, Structural)]
pub struct Engine {
    /// Seconds to wait after the next failure to fetch.
    pub fetching_delay: u64,
    /// Seconds to wait after the next failure to process.
    pub processing_delay: u64,
    pub fetching_failing: bool,
    pub processing_failing: bool,
    /// Whether fetched data is kept that was not yet processed.
    pub cached_fetch: bool,
}

/// How the loop is set up.
#[derive(Debug)]
pub struct EngineConfig {
    pub max_concurrent_tasks: usize,
    /// Milliseconds between rounds.
    pub polling_interval_ms: u64,
    pub raw_events: bool,
    pub event_processor_config: EventProcessorConfig,
    pub world_block: u64,
}

impl Default for EngineConfig {
    fn default() -> (r: Self)
        ensures
            r.max_concurrent_tasks == 100,
            r.polling_interval_ms == 500,
            !r.raw_events,
            r.world_block == 0,
            indexes_all(r.event_processor_config),
    {
        EngineConfig {
            max_concurrent_tasks: 100,
            polling_interval_ms: 500,
            raw_events: false,
            event_processor_config: EventProcessorConfig::default(),
            world_block: 0,
        }
    }
}

/// What happened.
#[derive(Clone, Copy, Debug, PartialEq, Eq, Structural)]
pub enum EngineEvent {
    /// A new round begins.
    Round,
    Fetched,
    FetchFailed,
    Processed,
    ProcessFailed,
    /// The changes could not be committed.
    CommitFailed,
    /// The changes could not be taken back.
    RecoverFailed,
    /// What was to be done in the round is done.
    RoundDone,
    Shutdown,
}

/// What is to be done.
#[derive(Clone, Copy, Debug, PartialEq, Eq, Structural)]
pub enum EngineAction {
    Fetch,
    /// The fetched data, just now or in an earlier round, is processed.
    Process,
    /// Controllers are joined and the changes are committed.
    Commit,
    /// The changes are taken back, and the loop waits so many seconds.
    Recover { wait: u64 },
    /// The loop waits so many seconds.
    Wait { wait: u64 },
    /// The loop waits for the time between rounds.
    Rest,
    /// The loop ends with an error.
    Fail,
    Stop,
}

/// The greatest delay that is still doubled, in seconds.
pub const MAX_BACKOFF_DELAY: u64 = 60;

/// The delay after a delay.
pub open spec fn doubled(delay: u64) -> u64 {
    if delay < 60 {
        (delay * 2) as u64
    } else {
        delay
    }
}

/// The next state and what is to be done. A failure doubles its delay and a success sets it back;
/// data that could not be processed is kept for the next round.
pub open spec fn engine_next(s: Engine, e: EngineEvent) -> (Engine, EngineAction) {
    match e {
        EngineEvent::Round => (s, if s.cached_fetch {
            EngineAction::Process
        } else {
            EngineAction::Fetch
        }),
        EngineEvent::Fetched => (
            Engine {
                fetching_failing: false,
                fetching_delay: if s.fetching_failing {
                    1
                } else {
                    s.fetching_delay
                },
                cached_fetch: true,
                ..s
            },
            EngineAction::Process,
        ),
        EngineEvent::FetchFailed => (
            Engine {
                fetching_failing: true,
                fetching_delay: doubled(s.fetching_delay),
                cached_fetch: false,
                ..s
            },
            EngineAction::Wait { wait: s.fetching_delay },
        ),
        EngineEvent::Processed => (
            Engine {
                processing_failing: false,
                processing_delay: if s.processing_failing {
                    1
                } else {
                    s.processing_delay
                },
                cached_fetch: false,
                ..s
            },
            EngineAction::Commit,
        ),
        EngineEvent::ProcessFailed => (
            Engine {
                processing_failing: true,
                processing_delay: doubled(s.processing_delay),
                ..s
            },
            EngineAction::Recover { wait: s.processing_delay },
        ),
        EngineEvent::CommitFailed => (s, EngineAction::Fail),
        EngineEvent::RecoverFailed => (s, EngineAction::Fail),
        EngineEvent::RoundDone => (s, EngineAction::Rest),
        EngineEvent::Shutdown => (s, EngineAction::Stop),
    }
}

/// Whether a delay is one that the loop comes to.
pub open spec fn is_delay(d: u64) -> bool {
    d == 1 || d == 2 || d == 4 || d == 8 || d == 16 || d == 32 || d == 64
}

impl Engine {
    /// The delays are among those the loop comes to, and a delay that was not set back belongs to
    /// a failure.
    pub open spec fn wf(self) -> bool {
        &&& is_delay(self.fetching_delay)
        &&& is_delay(self.processing_delay)
        &&& !self.fetching_failing ==> self.fetching_delay == 1
        &&& !self.processing_failing ==> self.processing_delay == 1
    }

    /// The loop at its beginning.
    pub fn new() -> (r: Engine)
        ensures
            r.wf(),
            r == (Engine {
                fetching_delay: 1,
                processing_delay: 1,
                fetching_failing: false,
                processing_failing: false,
                cached_fetch: false,
            }),
    {
        Engine {
            fetching_delay: 1,
            processing_delay: 1,
            fetching_failing: false,
            processing_failing: false,
            cached_fetch: false,
        }
    }

    /// The next state and what is to be done.
    pub fn start(&self, event: EngineEvent) -> (r: (Engine, EngineAction))
        requires
            self.wf(),
        ensures
            r == engine_next(*self, event),
            r.0.wf(),
    {
        let s = *self;
        match event {
            EngineEvent::Round => (s, if s.cached_fetch {
                EngineAction::Process
            } else {
                EngineAction::Fetch
            }),
            EngineEvent::Fetched => (
                Engine {
                    fetching_failing: false,
                    fetching_delay: if s.fetching_failing {
                        1
                    } else {
                        s.fetching_delay
                    },
                    cached_fetch: true,
                    ..s
                },
                EngineAction::Process,
            ),
            EngineEvent::FetchFailed => (
                Engine {
                    fetching_failing: true,
                    fetching_delay: next_delay(s.fetching_delay),
                    cached_fetch: false,
                    ..s
                },
                EngineAction::Wait { wait: s.fetching_delay },
            ),
            EngineEvent::Processed => (
                Engine {
                    processing_failing: false,
                    processing_delay: if s.processing_failing {
                        1
                    } else {
                        s.processing_delay
                    },
                    cached_fetch: false,
                    ..s
                },
                EngineAction::Commit,
            ),
            EngineEvent::ProcessFailed => (
                Engine {
                    processing_failing: true,
                    processing_delay: next_delay(s.processing_delay),
                    ..s
                },
                EngineAction::Recover { wait: s.processing_delay },
            ),
            EngineEvent::CommitFailed => (s, EngineAction::Fail),
            EngineEvent::RecoverFailed => (s, EngineAction::Fail),
            EngineEvent::RoundDone => (s, EngineAction::Rest),
            EngineEvent::Shutdown => (s, EngineAction::Stop),
        }
    }
}

/// The delay after a delay.
fn next_delay(delay: u64) -> (r: u64)
    requires
        is_delay(delay),
    ensures
        r == doubled(delay),
        is_delay(r),
{
    if delay < MAX_BACKOFF_DELAY {
        delay * 2
    } else {
        delay
    }
}

/// The steps of a recovery, in order.
#[derive(Clone, Copy, Debug, PartialEq, Eq, Structural)]
pub enum RecoveryStep {
    AbortControllers,
    Rollback,
    ClearBalances,
    ClearModels,
    ResetTokens,
    ClearTasks,
}

/// The steps of a recovery: the database first, then everything in memory that may hold what was
/// taken back.
pub fn recovery_steps() -> (r: Vec<RecoveryStep>)
    ensures
        r@ == seq![
            RecoveryStep::AbortControllers,
            RecoveryStep::Rollback,
            RecoveryStep::ClearBalances,
            RecoveryStep::ClearModels,
            RecoveryStep::ResetTokens,
            RecoveryStep::ClearTasks,
        ],
{
    let r: Vec<RecoveryStep> = vec![
        RecoveryStep::AbortControllers,
        RecoveryStep::Rollback,
        RecoveryStep::ClearBalances,
        RecoveryStep::ClearModels,
        RecoveryStep::ResetTokens,
        RecoveryStep::ClearTasks,
    ];
    proof {
        assert(r@ =~= seq![
            RecoveryStep::AbortControllers,
            RecoveryStep::Rollback,
            RecoveryStep::ClearBalances,
            RecoveryStep::ClearModels,
            RecoveryStep::ResetTokens,
            RecoveryStep::ClearTasks,
        ]);
    }
    r
}

/// Data that could not be processed is processed again in the next round, and not fetched again.
pub proof fn failed_data_is_retried(s: Engine)
    requires
        s.cached_fetch,
    ensures
        ({
            let after = engine_next(s, EngineEvent::ProcessFailed).0;
            after.cached_fetch && engine_next(after, EngineEvent::Round).1 == EngineAction::Process
        }),
{
}

/// The loop never waits longer than 64 seconds, and a success sets its wait back to one second.
pub proof fn waits_are_bounded(s: Engine, e: EngineEvent)
    requires
        s.wf(),
    ensures
        engine_next(s, e).1 matches EngineAction::Wait { wait } ==> 1 <= wait <= 64,
        engine_next(s, e).1 matches EngineAction::Recover { wait } ==> 1 <= wait <= 64,
        engine_next(s, EngineEvent::Fetched).0.fetching_delay == 1,
        engine_next(s, EngineEvent::Processed).0.processing_delay == 1,
{
}

// ---------------------------------------------------------------------------
// Rounds
// ---------------------------------------------------------------------------

/// Whether two known heads differ.
pub open spec fn heads_agree(heads: Seq<Option<u64>>) -> bool {
    forall|i: int, j: int|
        0 <= i < heads.len() && 0 <= j < heads.len() && (#[trigger] heads[i]) is Some && (
        #[trigger] heads[j]) is Some ==> heads[i] == heads[j]
}

/// Whether the indexer has caught up: it sees the block that is not yet confirmed, or all contracts
/// whose head is known, at least one, are at the same block.
pub open spec fn at_head(preconfirmed: bool, heads: Seq<Option<u64>>) -> bool {
    preconfirmed || (heads_agree(heads) && exists|i: int|
        0 <= i < heads.len() && (#[trigger] heads[i]) is Some)
}

/// Whether the indexer has caught up.
pub fn is_at_head(preconfirmed: bool, heads: &Vec<Option<u64>>) -> (r: bool)
    ensures
        r == at_head(preconfirmed, heads@),
{
    if preconfirmed {
        return true;
    }
    let mut known: Option<u64> = None;
    let mut i: usize = 0;
    let ghost mut at: int = 0;
    while i < heads.len()
        invariant
            i <= heads@.len(),
            !preconfirmed,
            known is None ==> forall|k: int| 0 <= k < i ==> (#[trigger] heads@[k]) is None,
            known is Some ==> 0 <= at < i && heads@[at] == known && forall|k: int|
                0 <= k < i && (#[trigger] heads@[k]) is Some ==> heads@[k] == known,
        decreases heads@.len() - i,
    {
        match heads[i] {
            Some(h) => match known {
                Some(k) => {
                    if h != k {
                        proof {
                            assert(heads@[at] != heads@[i as int]);
                            assert(!heads_agree(heads@));
                        }
                        return false;
                    }
                },
                None => {
                    known = Some(h);
                    proof {
                        at = i as int;
                    }
                },
            },
            None => {},
        }
        i = i + 1;
    }
    proof {
        if known is Some {
            assert(heads@[at] is Some);
        }
    }
    known.is_some()
}

/// How far the contracts are indexed after a round, and the transactions that moved each of them.
#[derive(Debug)]
pub struct Cursors {
    pub cursors: Vec<ContractCursor>,
    pub cursor_transactions: Vec<(Felt, Vec<Felt>)>,
}

/// The transactions by contract.
pub open spec fn transactions_view(t: Seq<(Felt, Vec<Felt>)>) -> Seq<(Felt, Seq<Felt>)> {
    t.map_values(|x: (Felt, Vec<Felt>)| (x.0, x.1@))
}

/// The heads of the contracts.
pub open spec fn heads_of(c: Seq<ContractCursor>) -> Seq<Option<u64>> {
    c.map_values(|x: ContractCursor| x.head)
}

/// What was done last in a round.
#[derive(Clone, Copy, Debug, PartialEq, Eq, Structural)]
pub enum RoundStage {
    Begin,
    Range,
    Pending,
    Tasks,
    Balances,
    Cursors,
    Done,
}

/// What is to be done next in a round.
#[derive(Debug)]
pub enum RoundAction {
    /// The confirmed blocks are processed.
    Range { is_at_head: bool },
    /// The block that is not yet confirmed is processed.
    Pending,
    /// The events that wait for their turn are processed.
    Tasks,
    /// The storage is told of it.
    Store(QueryMessage),
    /// The round ends, well or with the error of the last step.
    End { ok: bool },
    /// Nothing: the round has ended.
    Nothing,
}

/// Whether the message writes the changes of balances and supplies, with the cursors.
pub open spec fn writes_balances(
    m: QueryMessage,
    balances: Map<CellKey, int>,
    supplies: Map<CellKey, int>,
    c: Cursors,
) -> bool {
    &&& m.statement@.len() == 0
    &&& m.arguments@.len() == 0
    &&& m.query_type matches QueryType::ApplyBalanceDiff { balances: b, supplies: s, cursors }
        && changes_are(b@, balances) && changes_are(s@, supplies) && cursors@ == c.cursors@
}

/// Whether the message moves the cursors.
pub open spec fn moves_cursors(m: QueryMessage, c: Cursors) -> bool {
    &&& m.statement@.len() == 0
    &&& m.arguments@.len() == 0
    &&& m.query_type matches QueryType::UpdateCursors { cursors, cursor_transactions } && cursors@
        == c.cursors@ && transactions_view(cursor_transactions@) == transactions_view(
        c.cursor_transactions@,
    )
}

/// Whether a round goes on from a stage in that way: the confirmed blocks, the block that is not yet
/// confirmed where there is one, the events that wait for their turn, the balances, and last the
/// cursors. The first step that fails ends it.
pub open spec fn round_next(
    stage: RoundStage,
    ok: bool,
    preconfirmed: bool,
    c: Cursors,
    cache: ErcCache,
    next: RoundStage,
    action: RoundAction,
) -> bool {
    if stage == RoundStage::Done {
        next == RoundStage::Done && action is Nothing
    } else if stage == RoundStage::Begin {
        next == RoundStage::Range && (action matches RoundAction::Range { is_at_head } && is_at_head
            == at_head(preconfirmed, heads_of(c.cursors@)))
    } else if !ok {
        next == RoundStage::Done && action == (RoundAction::End { ok: false })
    } else {
        match stage {
            RoundStage::Range => if preconfirmed {
                next == RoundStage::Pending && action is Pending
            } else {
                next == RoundStage::Tasks && action is Tasks
            },
            RoundStage::Pending => next == RoundStage::Tasks && action is Tasks,
            RoundStage::Tasks => next == RoundStage::Balances && (action matches RoundAction::Store(m)
                && writes_balances(m, cache.balances(), cache.supplies(), c)),
            RoundStage::Balances => next == RoundStage::Cursors && (
            action matches RoundAction::Store(m) && moves_cursors(m, c)),
            _ => next == RoundStage::Done && action == (RoundAction::End { ok: true }),
        }
    }
}

/// The transactions by contract, once more.
fn copy_transactions(t: &Vec<(Felt, Vec<Felt>)>) -> (r: Vec<(Felt, Vec<Felt>)>)
    ensures
        transactions_view(r@) == transactions_view(t@),
{
    let mut out: Vec<(Felt, Vec<Felt>)> = Vec::new();
    let mut i: usize = 0;
    while i < t.len()
        invariant
            i <= t@.len(),
            out@.len() == i,
            forall|k: int| 0 <= k < i ==> (#[trigger] out@[k]).0 == t@[k].0 && out@[k].1@ == t@[k].1@,
        decreases t@.len() - i,
    {
        out.push((t[i].0, copy_felts(&t[i].1)));
        i = i + 1;
    }
    proof {
        assert(transactions_view(out@) =~= transactions_view(t@));
    }
    out
}

/// The cursors, once more, and their heads.
fn copy_cursors(c: &Vec<ContractCursor>) -> (r: (Vec<ContractCursor>, Vec<Option<u64>>))
    ensures
        r.0@ == c@,
        r.1@ == heads_of(c@),
{
    let mut out: Vec<ContractCursor> = Vec::new();
    let mut heads: Vec<Option<u64>> = Vec::new();
    let mut i: usize = 0;
    while i < c.len()
        invariant
            i <= c@.len(),
            out@ =~= c@.take(i as int),
            heads@ =~= heads_of(c@.take(i as int)),
        decreases c@.len() - i,
    {
        out.push(c[i]);
        heads.push(c[i].head);
        i = i + 1;
    }
    proof {
        assert(c@.take(i as int) =~= c@);
    }
    (out, heads)
}

impl Engine {
    /// What a round does next, after a stage that went well or not. The changes of balances and
    /// supplies are forgotten when the storage has taken them.
    pub fn process(
        stage: RoundStage,
        ok: bool,
        preconfirmed: bool,
        cursors: &Cursors,
        cache: &mut ErcCache,
    ) -> (r: (RoundStage, RoundAction))
        ensures
            round_next(stage, ok, preconfirmed, *cursors, *old(cache), r.0, r.1),
            if stage == RoundStage::Balances && ok {
                &&& cells(final(cache).balances_diff) == no_cells()
                &&& cells(final(cache).total_supply_diff) == no_cells()
                &&& final(cache).token_id_registry == old(cache).token_id_registry
                &&& final(cache).next_lock == old(cache).next_lock
                &&& old(cache).wf() ==> final(cache).wf()
            } else {
                *final(cache) == *old(cache)
            },
    {
        match stage {
            RoundStage::Done => {
                return (RoundStage::Done, RoundAction::Nothing);
            },
            RoundStage::Begin => {
                let heads = copy_cursors(&cursors.cursors).1;
                let is_at_head = is_at_head(preconfirmed, &heads);
                return (RoundStage::Range, RoundAction::Range { is_at_head });
            },
            _ => {},
        }
        if !ok {
            return (RoundStage::Done, RoundAction::End { ok: false });
        }
        match stage {
            RoundStage::Range => if preconfirmed {
                (RoundStage::Pending, RoundAction::Pending)
            } else {
                (RoundStage::Tasks, RoundAction::Tasks)
            },
            RoundStage::Pending => (RoundStage::Tasks, RoundAction::Tasks),
            RoundStage::Tasks => {
                let (balances, supplies) = cache.unwritten();
                let copied = copy_cursors(&cursors.cursors).0;
                (
                    RoundStage::Balances,
                    RoundAction::Store(apply_balances_diff(balances, supplies, copied)),
                )
            },
            RoundStage::Balances => {
                cache.clear_balances_diff();
                let copied = copy_cursors(&cursors.cursors).0;
                let transactions = copy_transactions(&cursors.cursor_transactions);
                (RoundStage::Cursors, RoundAction::Store(update_cursors(copied, transactions)))
            },
            _ => (RoundStage::Done, RoundAction::End { ok: true }),
        }
    }
}

/// The place of a stage in a round.
pub open spec fn stage_rank(s: RoundStage) -> int {
    match s {
        RoundStage::Begin => 0,
        RoundStage::Range => 1,
        RoundStage::Pending => 2,
        RoundStage::Tasks => 3,
        RoundStage::Balances => 4,
        RoundStage::Cursors => 5,
        RoundStage::Done => 6,
    }
}

/// A round never goes back, so that nothing is done twice in it. The storage is told something only
/// after the blocks and events went well: first the balances, and then, when they were taken, the
/// cursors, after which the round only ends. A step that fails ends it, and nothing is stored
/// afterwards.
pub proof fn rounds_go_forward(
    stage: RoundStage,
    ok: bool,
    preconfirmed: bool,
    c: Cursors,
    cache: ErcCache,
    next: RoundStage,
    action: RoundAction,
)
    requires
        round_next(stage, ok, preconfirmed, c, cache, next, action),
    ensures
        stage != RoundStage::Done ==> stage_rank(stage) < stage_rank(next),
        stage == RoundStage::Done ==> next == RoundStage::Done && action is Nothing,
        action is Store ==> ok && (stage == RoundStage::Tasks || stage == RoundStage::Balances),
        action matches RoundAction::Store(m) ==> (m.query_type is UpdateCursors <==> stage
            == RoundStage::Balances),
        next == RoundStage::Done ==> !(action is Store),
        action == (RoundAction::End { ok: true }) ==> ok && stage == RoundStage::Cursors,
        !ok && stage != RoundStage::Begin ==> next == RoundStage::Done,
{
}

/// A block that was fetched: its number, and for each of its transactions how many events it has.
#[derive(Debug)]
pub struct FetchedBlock {
    pub number: u64,
    pub event_counts: Vec<usize>,
}

/// A step of processing confirmed blocks.
#[derive(Clone, Copy, Debug, PartialEq, Eq, Structural)]
pub enum RangeStep {
    /// The transaction at an index of the block at an index.
    Transaction { block: usize, transaction: usize },
    /// The block at an index.
    Block { block: usize },
}

/// The steps for the first `n` transactions of a block: those that have events.
pub open spec fn transaction_steps(block: int, counts: Seq<usize>, n: nat) -> Seq<(int, int)>
    decreases n,
{
    if n == 0 || n > counts.len() {
        Seq::empty()
    } else {
        let before = transaction_steps(block, counts, (n - 1) as nat);
        if counts[n - 1] > 0 {
            before.push((block, n - 1))
        } else {
            before
        }
    }
}

/// The steps for the first `n` blocks: of each the transactions that have events, then the block
/// itself, unless a block of its number came before.
pub open spec fn range_steps(blocks: Seq<FetchedBlock>, n: nat) -> Seq<(int, int)>
    decreases n,
{
    if n == 0 || n > blocks.len() {
        Seq::empty()
    } else {
        let b = blocks[n - 1];
        let with_txs = range_steps(blocks, (n - 1) as nat) + transaction_steps(
            n - 1,
            b.event_counts@,
            b.event_counts@.len(),
        );
        if seen_before(blocks, n - 1) {
            with_txs
        } else {
            with_txs.push((n - 1, -1))
        }
    }
}

/// Whether a block of that number came before the one at the index.
pub open spec fn seen_before(blocks: Seq<FetchedBlock>, i: int) -> bool {
    exists|j: int| 0 <= j < i && (#[trigger] blocks[j]).number == blocks[i].number
}

/// A step as a pair of indices; the block itself has no index of a transaction.
pub open spec fn step_pair(s: RangeStep) -> (int, int) {
    match s {
        RangeStep::Transaction { block, transaction } => (block as int, transaction as int),
        RangeStep::Block { block } => (block as int, -1),
    }
}

/// The steps as pairs of indices.
pub open spec fn step_pairs(s: Seq<RangeStep>) -> Seq<(int, int)> {
    s.map_values(|x: RangeStep| step_pair(x))
}

impl Engine {
    /// The steps of processing confirmed blocks.
    pub fn process_range(blocks: &Vec<FetchedBlock>) -> (r: Vec<RangeStep>)
        ensures
            step_pairs(r@) == range_steps(blocks@, blocks@.len()),
    {
        let mut out: Vec<RangeStep> = Vec::new();
        let mut i: usize = 0;
        proof {
            assert(step_pairs(out@) =~= Seq::<(int, int)>::empty());
        }
        while i < blocks.len()
            invariant
                i <= blocks@.len(),
                step_pairs(out@) == range_steps(blocks@, i as nat),
            decreases blocks@.len() - i,
        {
            let b = &blocks[i];
            let ghost before = step_pairs(out@);
            let mut t: usize = 0;
            proof {
                assert(before + Seq::<(int, int)>::empty() =~= before);
            }
            while t < b.event_counts.len()
                invariant
                    i < blocks@.len(),
                    t <= b.event_counts@.len(),
                    step_pairs(out@) == before + transaction_steps(
                        i as int,
                        b.event_counts@,
                        t as nat,
                    ),
                decreases b.event_counts@.len() - t,
            {
                if b.event_counts[t] > 0 {
                    let ghost now = step_pairs(out@);
                    out.push(RangeStep::Transaction { block: i, transaction: t });
                    proof {
                        assert(step_pairs(out@) =~= now.push((i as int, t as int)));
                        assert(step_pairs(out@) =~= before + transaction_steps(
                            i as int,
                            b.event_counts@,
                            (t + 1) as nat,
                        ));
                    }
                }
                t = t + 1;
            }
            let mut seen = false;
            let mut j: usize = 0;
            while j < i
                invariant
                    j <= i < blocks@.len(),
                    b.number == blocks@[i as int].number,
                    seen == exists|k: int| 0 <= k < j && (#[trigger] blocks@[k]).number == b.number,
                decreases i - j,
            {
                if blocks[j].number == b.number {
                    seen = true;
                }
                j = j + 1;
            }
            let ghost now = step_pairs(out@);
            if !seen {
                out.push(RangeStep::Block { block: i });
                proof {
                    assert(step_pairs(out@) =~= now.push((i as int, -1)));
                }
            }
            i = i + 1;
        }
        out
    }
}

impl Engine {
    /// The transactions of the block that is not yet confirmed that are processed: those with events.
    pub fn process_pending(event_counts: &Vec<usize>) -> (r: Vec<usize>)
        ensures
            r@.map_values(|t: usize| (0int, t as int)) == transaction_steps(
                0,
                event_counts@,
                event_counts@.len(),
            ),
    {
        let mut out: Vec<usize> = Vec::new();
        let mut t: usize = 0;
        proof {
            assert(out@.map_values(|t: usize| (0int, t as int)) =~= Seq::<(int, int)>::empty());
        }
        while t < event_counts.len()
            invariant
                t <= event_counts@.len(),
                out@.map_values(|t: usize| (0int, t as int)) == transaction_steps(
                    0,
                    event_counts@,
                    t as nat,
                ),
            decreases event_counts@.len() - t,
        {
            if event_counts[t] > 0 {
                let ghost now = out@.map_values(|t: usize| (0int, t as int));
                out.push(t);
                proof {
                    assert(out@.map_values(|t: usize| (0int, t as int)) =~= now.push((0int, t as int)));
                }
            }
            t = t + 1;
        }
        out
    }
}

// ---------------------------------------------------------------------------
// Transactions and events
// ---------------------------------------------------------------------------

/// An event of a contract.
#[derive(Debug)]
pub struct Event {
    pub from_address: Felt,
    pub keys: Vec<Felt>,
    pub data: Vec<Felt>,
}

/// A contract that is indexed, and its kind.
#[derive(Clone, Copy, Debug, PartialEq, Eq, Structural)]
pub struct IndexedContract {
    pub address: Felt,
    pub kind: ContractType,
}

/// The kind of a contract, if it is indexed.
pub open spec fn kind_of(c: Seq<IndexedContract>, address: Felt) -> Option<ContractType>
    decreases c.len(),
{
    if c.len() == 0 {
        None
    } else {
        match kind_of(c.drop_last(), address) {
            Some(k) => Some(k),
            None => if c.last().address == address {
                Some(c.last().kind)
            } else {
                None
            },
        }
    }
}

/// The kind of a contract, if it is indexed.
fn find_kind(c: &Vec<IndexedContract>, address: Felt) -> (r: Option<ContractType>)
    ensures
        r == kind_of(c@, address),
{
    let mut i: usize = 0;
    let mut found: Option<ContractType> = None;
    proof {
        assert(c@.take(0) =~= Seq::<IndexedContract>::empty());
    }
    while i < c.len()
        invariant
            i <= c@.len(),
            found == kind_of(c@.take(i as int), address),
        decreases c@.len() - i,
    {
        proof {
            assert(c@.take(i + 1).drop_last() =~= c@.take(i as int));
        }
        if found.is_none() && c[i].address == address {
            found = Some(c[i].kind);
        }
        i = i + 1;
    }
    proof {
        assert(c@.take(i as int) =~= c@);
    }
    found
}

/// The keys of the events of a world that are about a model.
pub open spec fn model_events() -> Seq<Felt> {
    seq![
        entry_selector("StoreSetRecord"@),
        entry_selector("StoreUpdateRecord"@),
        entry_selector("StoreDelRecord"@),
        entry_selector("StoreUpdateMember"@),
        entry_selector("EventEmitted"@),
    ]
}

/// The key of an event with a name of ASCII.
fn event_key(name: &str) -> (r: Felt)
    requires
        all_ascii(name@),
    ensures
        r == entry_selector(name@),
{
    selector_from_name(name).unwrap()
}

/// The keys of the events of a world that are about a model.
pub fn model_event_keys() -> (r: Vec<Felt>)
    ensures
        r@ == model_events(),
{
    proof {
        reveal_strlit("StoreSetRecord");
        reveal_strlit("StoreUpdateRecord");
        reveal_strlit("StoreDelRecord");
        reveal_strlit("StoreUpdateMember");
        reveal_strlit("EventEmitted");
    }
    let r: Vec<Felt> = vec![
        event_key("StoreSetRecord"),
        event_key("StoreUpdateRecord"),
        event_key("StoreDelRecord"),
        event_key("StoreUpdateMember"),
        event_key("EventEmitted"),
    ];
    proof {
        assert(r@ =~= model_events());
    }
    r
}

/// An event to process.
#[derive(Debug)]
pub struct EventPlan {
    pub index: usize,
    pub event_id: String,
    pub kind: ContractType,
}

/// What is to be done for a transaction: its events in order, then the transaction with the
/// contracts and models it touches, then its receipt.
#[derive(Debug)]
pub struct TransactionPlan {
    pub events: Vec<EventPlan>,
    pub contracts: Vec<Felt>,
    pub models: Vec<Felt>,
    /// The transaction was fetched, and is processed after its events.
    pub process_transaction: bool,
    /// The receipt was fetched, and is stored after all.
    pub store_receipt: bool,
}

/// Whether the event is one of a world about a model.
pub open spec fn touches_model(kind: ContractType, e: Event, model_events: Seq<Felt>) -> bool {
    kind == ContractType::WORLD && model_events.contains(e.keys@[0])
}

/// Whether the keys that are read of an event are there.
pub open spec fn event_readable(
    c: Seq<IndexedContract>,
    e: Event,
    model_events: Seq<Felt>,
) -> bool {
    kind_of(c, e.from_address) matches Some(k) ==> e.keys@.len() >= 1 && (touches_model(
        k,
        e,
        model_events,
    ) ==> e.keys@.len() >= 2)
}

/// The indices of the first `n` events whose contract is indexed.
pub open spec fn events_taken(events: Seq<Event>, c: Seq<IndexedContract>, n: nat) -> Seq<int>
    decreases n,
{
    if n == 0 || n > events.len() {
        Seq::empty()
    } else {
        let before = events_taken(events, c, (n - 1) as nat);
        if kind_of(c, events[n - 1].from_address) is Some {
            before.push(n - 1)
        } else {
            before
        }
    }
}

/// The contracts of the first `n` events that are indexed.
pub open spec fn contracts_touched(events: Seq<Event>, c: Seq<IndexedContract>, n: nat) -> Seq<Felt>
    decreases n,
{
    if n == 0 || n > events.len() {
        Seq::empty()
    } else {
        let before = contracts_touched(events, c, (n - 1) as nat);
        if kind_of(c, events[n - 1].from_address) is Some {
            before.push(events[n - 1].from_address)
        } else {
            before
        }
    }
}

/// The models of the first `n` events that are indexed.
pub open spec fn models_touched(
    events: Seq<Event>,
    c: Seq<IndexedContract>,
    model_events: Seq<Felt>,
    n: nat,
) -> Seq<Felt>
    decreases n,
{
    if n == 0 || n > events.len() {
        Seq::empty()
    } else {
        let before = models_touched(events, c, model_events, (n - 1) as nat);
        let e = events[n - 1];
        match kind_of(c, e.from_address) {
            Some(k) => if touches_model(k, e, model_events) {
                before.push(e.keys@[1])
            } else {
                before
            },
            None => before,
        }
    }
}

/// Whether the entry at a place is the first of the address.
pub open spec fn is_first_of(c: Seq<IndexedContract>, j: int, address: Felt) -> bool {
    &&& 0 <= j < c.len()
    &&& c[j].address == address
    &&& forall|h: int| 0 <= h < j ==> (#[trigger] c[h]).address != address
}

/// The kind of a contract is that of the first entry of its address, and there is none without an
/// entry.
pub proof fn kind_is_of_the_first(c: Seq<IndexedContract>, address: Felt)
    ensures
        kind_of(c, address) matches Some(k) ==> exists|j: int| #[trigger]
            is_first_of(c, j, address) && c[j].kind == k,
        kind_of(c, address) is None ==> forall|j: int|
            0 <= j < c.len() ==> (#[trigger] c[j]).address != address,
    decreases c.len(),
{
    if c.len() > 0 {
        let d = c.drop_last();
        kind_is_of_the_first(d, address);
        if kind_of(d, address) is Some {
            let j = choose|j: int| #[trigger]
                is_first_of(d, j, address) && d[j].kind == kind_of(d, address)->0;
            assert forall|h: int| 0 <= h < j implies (#[trigger] c[h]).address != address by {
                assert(d[h].address != address);
            }
            assert(is_first_of(c, j, address));
        } else {
            assert forall|h: int| 0 <= h < c.len() - 1 implies (#[trigger] c[h]).address
                != address by {
                assert(d[h].address != address);
            }
            if c.last().address == address {
                assert(is_first_of(c, c.len() - 1, address));
            }
        }
    }
}

/// The first entry of an address tells its kind.
pub proof fn the_first_tells_the_kind(c: Seq<IndexedContract>, j: int, address: Felt)
    requires
        is_first_of(c, j, address),
    ensures
        kind_of(c, address) == Some(c[j].kind),
{
    kind_is_of_the_first(c, address);
    if kind_of(c, address) is None {
        assert(c[j].address != address);
    } else {
        let i = choose|i: int| #[trigger]
            is_first_of(c, i, address) && c[i].kind == kind_of(c, address)->0;
        if i < j {
            assert(c[i].address != address);
        } else if j < i {
            assert(c[j].address != address);
        }
    }
}

/// The contract of an event, where it is indexed, is touched, and no other is.
proof fn contract_touched_by(events: Seq<Event>, c: Seq<IndexedContract>, n: nat, a: Felt)
    requires
        n <= events.len(),
    ensures
        contracts_touched(events, c, n).contains(a) <==> exists|i: int|
            0 <= i < n && (#[trigger] events[i]).from_address == a && kind_of(c, a) is Some,
    decreases n,
{
    if n > 0 {
        let m = (n - 1) as nat;
        contract_touched_by(events, c, m, a);
        let before = contracts_touched(events, c, m);
        let after = contracts_touched(events, c, n);
        let e = events[n - 1];
        if kind_of(c, e.from_address) is Some {
            assert(after == before.push(e.from_address));
            pushed_contains(before, e.from_address, a);
        }
        if before.contains(a) {
            let i = choose|i: int|
                0 <= i < m && (#[trigger] events[i]).from_address == a && kind_of(c, a) is Some;
            assert(0 <= i < n && events[i].from_address == a);
        }
        if e.from_address == a && kind_of(c, a) is Some {
            assert(events[n - 1].from_address == a);
        }
        if exists|i: int|
            0 <= i < n && (#[trigger] events[i]).from_address == a && kind_of(c, a) is Some {
            let i = choose|i: int|
                0 <= i < n && (#[trigger] events[i]).from_address == a && kind_of(c, a) is Some;
            if i < m {
                assert(events[i].from_address == a);
            }
        }
    }
}

/// What a sequence contains after a push.
proof fn pushed_contains<T>(s: Seq<T>, x: T, y: T)
    ensures
        s.push(x).contains(y) <==> s.contains(y) || x == y,
{
    let t = s.push(x);
    assert(t[s.len() as int] == x);
    if s.contains(y) {
        let k = choose|k: int| 0 <= k < s.len() && s[k] == y;
        assert(t[k] == y);
    }
    if t.contains(y) {
        let k = choose|k: int| 0 <= k < t.len() && t[k] == y;
        if k < s.len() {
            assert(s[k] == y);
        }
    }
}

/// Whether the event is one of an indexed world whose first key is that of a model, and whose second
/// is the model.
spec fn writes_model(e: Event, c: Seq<IndexedContract>, model_events: Seq<Felt>, m: Felt) -> bool {
    kind_of(c, e.from_address) == Some(ContractType::WORLD) && model_events.contains(e.keys@[0])
        && e.keys@[1] == m
}

/// The second key of an event of an indexed world about a model is a model touched, and nothing else
/// is.
proof fn model_touched_by(
    events: Seq<Event>,
    c: Seq<IndexedContract>,
    model_events: Seq<Felt>,
    n: nat,
    x: Felt,
)
    requires
        n <= events.len(),
    ensures
        models_touched(events, c, model_events, n).contains(x) <==> exists|i: int|
            0 <= i < n && writes_model(#[trigger] events[i], c, model_events, x),
    decreases n,
{
    if n > 0 {
        let m = (n - 1) as nat;
        model_touched_by(events, c, model_events, m, x);
        let before = models_touched(events, c, model_events, m);
        let after = models_touched(events, c, model_events, n);
        let e = events[n - 1];
        if kind_of(c, e.from_address) == Some(ContractType::WORLD) && model_events.contains(
            e.keys@[0],
        ) {
            assert(after == before.push(e.keys@[1]));
            pushed_contains(before, e.keys@[1], x);
        }
        if before.contains(x) {
            let i = choose|i: int|
                0 <= i < m && writes_model(#[trigger] events[i], c, model_events, x);
            assert(0 <= i < n && writes_model(events[i], c, model_events, x));
        }
        if writes_model(e, c, model_events, x) {
            assert(writes_model(events[n - 1], c, model_events, x));
        }
        if exists|i: int| 0 <= i < n && writes_model(#[trigger] events[i], c, model_events, x) {
            let i = choose|i: int|
                0 <= i < n && writes_model(#[trigger] events[i], c, model_events, x);
            if i < m {
                assert(writes_model(events[i], c, model_events, x));
            }
        }
    }
}

/// The events taken are those of indexed contracts, in their order.
proof fn taken_events_are_indexed(events: Seq<Event>, c: Seq<IndexedContract>, n: nat)
    requires
        n <= events.len(),
    ensures
        forall|i: int|
            0 <= i < n && kind_of(c, (#[trigger] events[i]).from_address) is Some ==> events_taken(
                events,
                c,
                n,
            ).contains(i),
        forall|k: int, l: int|
            0 <= k < l < events_taken(events, c, n).len() ==> #[trigger] events_taken(events, c, n)[k]
                < #[trigger] events_taken(events, c, n)[l],
        forall|k: int|
            0 <= k < events_taken(events, c, n).len() ==> 0 <= #[trigger] events_taken(
                events,
                c,
                n,
            )[k] < n,
    decreases n,
{
    if n > 0 {
        let m = (n - 1) as nat;
        taken_events_are_indexed(events, c, m);
        let before = events_taken(events, c, m);
        let after = events_taken(events, c, n);
        assert forall|i: int|
            0 <= i < n && kind_of(c, (#[trigger] events[i]).from_address) is Some implies after.contains(
            i,
        ) by {
            if kind_of(c, events[m as int].from_address) is Some {
                pushed_contains(before, m as int, i);
            }
        }
    }
}

/// The plan of a transaction is that of the events of indexed contracts.
proof fn plan_is_of_indexed_events(
    events: Seq<Event>,
    c: Seq<IndexedContract>,
    model_events: Seq<Felt>,
    plans: Seq<EventPlan>,
    touched: Seq<Felt>,
    models: Seq<Felt>,
)
    requires
        plans.map_values(|p: EventPlan| p.index as int) == events_taken(events, c, events.len()),
        touched == without_repeats(contracts_touched(events, c, events.len())),
        models == without_repeats(models_touched(events, c, model_events, events.len())),
    ensures
        models.no_duplicates(),
        forall|m: Felt| #[trigger]
            models.contains(m) <==> exists|i: int, j: int| #[trigger]
                is_first_of(c, j, events[i].from_address) && 0 <= i < events.len() && c[j].kind
                    == ContractType::WORLD && model_events.contains(events[i].keys@[0])
                    && events[i].keys@[1] == m,
        touched.no_duplicates(),
        forall|a: Felt| #[trigger]
            touched.contains(a) <==> exists|i: int, j: int| #[trigger]
                is_first_of(c, j, events[i].from_address) && 0 <= i < events.len()
                    && events[i].from_address == a,
        forall|i: int, j: int| #[trigger]
            is_first_of(c, j, events[i].from_address) && 0 <= i < events.len() ==> exists|k: int|
                0 <= k < plans.len() && (#[trigger] plans[k]).index == i,
        forall|k: int, l: int|
            0 <= k < l < plans.len() ==> (#[trigger] plans[k]).index < (#[trigger] plans[l]).index,
{
    let n = events.len();
    let taken = events_taken(events, c, n);
    taken_events_are_indexed(events, c, n);
    without_repeats_is_a_set(contracts_touched(events, c, n));
    without_repeats_is_a_set(models_touched(events, c, model_events, n));
    assert forall|k: int| 0 <= k < plans.len() implies (#[trigger] plans[k]).index as int
        == taken[k] by {
        assert(plans.map_values(|p: EventPlan| p.index as int)[k] == plans[k].index);
    }
    assert(plans.map_values(|p: EventPlan| p.index as int).len() == plans.len());
    assert forall|m: Felt| #[trigger] models.contains(m) <==> exists|i: int, j: int| #[trigger]
        is_first_of(c, j, events[i].from_address) && 0 <= i < events.len() && c[j].kind
            == ContractType::WORLD && model_events.contains(events[i].keys@[0])
            && events[i].keys@[1] == m by {
        model_touched_by(events, c, model_events, n, m);
        if models.contains(m) {
            let i = choose|i: int|
                0 <= i < n && writes_model(#[trigger] events[i], c, model_events, m);
            kind_is_of_the_first(c, events[i].from_address);
            let j = choose|j: int| #[trigger]
                is_first_of(c, j, events[i].from_address) && c[j].kind == ContractType::WORLD;
            assert(is_first_of(c, j, events[i].from_address));
        }
        if exists|i: int, j: int| #[trigger]
            is_first_of(c, j, events[i].from_address) && 0 <= i < events.len() && c[j].kind
                == ContractType::WORLD && model_events.contains(events[i].keys@[0])
                && events[i].keys@[1] == m {
            let (i, j) = choose|i: int, j: int| #[trigger]
                is_first_of(c, j, events[i].from_address) && 0 <= i < events.len() && c[j].kind
                    == ContractType::WORLD && model_events.contains(events[i].keys@[0])
                    && events[i].keys@[1] == m;
            the_first_tells_the_kind(c, j, events[i].from_address);
            assert(writes_model(events[i], c, model_events, m));
        }
    }
    assert forall|a: Felt| #[trigger] touched.contains(a) <==> exists|i: int, j: int| #[trigger]
        is_first_of(c, j, events[i].from_address) && 0 <= i < events.len()
            && events[i].from_address == a by {
        contract_touched_by(events, c, n, a);
        if touched.contains(a) {
            let i = choose|i: int|
                0 <= i < n && (#[trigger] events[i]).from_address == a && kind_of(c, a) is Some;
            kind_is_of_the_first(c, a);
            let j = choose|j: int| #[trigger]
                is_first_of(c, j, a) && c[j].kind == kind_of(c, a)->0;
            assert(is_first_of(c, j, events[i].from_address));
        }
        if exists|i: int, j: int| #[trigger]
            is_first_of(c, j, events[i].from_address) && 0 <= i < events.len()
                && events[i].from_address == a {
            let (i, j) = choose|i: int, j: int| #[trigger]
                is_first_of(c, j, events[i].from_address) && 0 <= i < events.len()
                    && events[i].from_address == a;
            the_first_tells_the_kind(c, j, a);
            assert(events[i].from_address == a);
        }
    }
    assert forall|i: int, j: int| #[trigger]
        is_first_of(c, j, events[i].from_address) && 0 <= i < events.len() implies exists|k: int|
        0 <= k < plans.len() && (#[trigger] plans[k]).index == i by {
        the_first_tells_the_kind(c, j, events[i].from_address);
        assert(taken.contains(i));
        let k = choose|k: int| 0 <= k < taken.len() && taken[k] == i;
        assert(plans[k].index == i);
    }
    assert forall|k: int, l: int| 0 <= k < l < plans.len() implies (#[trigger] plans[k]).index < (
    #[trigger] plans[l]).index by {
        assert(taken[k] < taken[l]);
    }
}

/// Whether an element stands in the list.
fn has_felt(list: &Vec<Felt>, f: Felt) -> (r: bool)
    ensures
        r == list@.contains(f),
{
    let mut i: usize = 0;
    while i < list.len()
        invariant
            i <= list@.len(),
            forall|k: int| 0 <= k < i ==> list@[k] != f,
        decreases list@.len() - i,
    {
        if list[i] == f {
            return true;
        }
        i = i + 1;
    }
    false
}

/// Whether the plan of an event is the one for it.
pub open spec fn event_planned(
    p: EventPlan,
    block: u64,
    transaction: Felt,
    events: Seq<Event>,
    c: Seq<IndexedContract>,
) -> bool {
    &&& p.index < events.len()
    &&& kind_of(c, events[p.index as int].from_address) == Some(p.kind)
    &&& p.event_id@ == event_id(
        block as nat,
        transaction.value(),
        events[p.index as int].from_address.value(),
        p.index as nat,
    )
}

impl Engine {
    /// What is to be done for a transaction with events. `model_events` are the keys of the events of a
    /// world that are about a model. Events of contracts that are not indexed are passed over.
    pub fn process_transaction_with_events(
        block_number: u64,
        transaction_hash: &Felt,
        events: &Vec<Event>,
        contracts: &Vec<IndexedContract>,
        model_events: &Vec<Felt>,
        has_transaction: bool,
        has_receipt: bool,
    ) -> (r: TransactionPlan)
        requires
            transaction_hash.wf(),
            forall|i: int|
                0 <= i < events@.len() ==> (#[trigger] events@[i]).from_address.wf() && event_readable(
                    contracts@,
                    events@[i],
                    model_events@,
                ),
        ensures
            r.events@.map_values(|p: EventPlan| p.index as int) == events_taken(
                events@,
                contracts@,
                events@.len(),
            ),
            forall|k: int|
                0 <= k < r.events@.len() ==> event_planned(
                    #[trigger] r.events@[k],
                    block_number,
                    *transaction_hash,
                    events@,
                    contracts@,
                ),
            r.contracts@ == without_repeats(contracts_touched(events@, contracts@, events@.len())),
            r.models@ == without_repeats(
                models_touched(events@, contracts@, model_events@, events@.len()),
            ),
            r.process_transaction == has_transaction,
            r.store_receipt == has_receipt,
            r.models@.no_duplicates(),
            forall|m: Felt| #[trigger]
                r.models@.contains(m) <==> exists|i: int, j: int| #[trigger]
                    is_first_of(contracts@, j, events@[i].from_address) && 0 <= i < events@.len()
                        && contracts@[j].kind == ContractType::WORLD && model_events@.contains(
                        events@[i].keys@[0],
                    ) && events@[i].keys@[1] == m,
            r.contracts@.no_duplicates(),
            forall|a: Felt| #[trigger]
                r.contracts@.contains(a) <==> exists|i: int, j: int| #[trigger]
                    is_first_of(contracts@, j, events@[i].from_address) && 0 <= i < events@.len()
                        && events@[i].from_address == a,
            forall|k: int|
                0 <= k < r.events@.len() ==> exists|j: int| #[trigger]
                    is_first_of(
                        contracts@,
                        j,
                        events@[(#[trigger] r.events@[k]).index as int].from_address,
                    ) && contracts@[j].kind == r.events@[k].kind,
            forall|i: int, j: int| #[trigger]
                is_first_of(contracts@, j, events@[i].from_address) && 0 <= i < events@.len()
                    ==> exists|k: int| 0 <= k < r.events@.len() && (#[trigger] r.events@[k]).index == i,
            forall|k: int, l: int|
                0 <= k < l < r.events@.len() ==> (#[trigger] r.events@[k]).index < (
                #[trigger] r.events@[l]).index,
    {
        let mut plans: Vec<EventPlan> = Vec::new();
        let mut touched: Vec<Felt> = Vec::new();
        let mut models: Vec<Felt> = Vec::new();
        let mut i: usize = 0;
        proof {
            assert(plans@.map_values(|p: EventPlan| p.index as int) =~= Seq::<int>::empty());
        }
        while i < events.len()
            invariant
                i <= events@.len(),
                transaction_hash.wf(),
                forall|i: int|
                    0 <= i < events@.len() ==> (#[trigger] events@[i]).from_address.wf()
                        && event_readable(contracts@, events@[i], model_events@),
                plans@.map_values(|p: EventPlan| p.index as int) == events_taken(
                    events@,
                    contracts@,
                    i as nat,
                ),
                forall|k: int|
                    0 <= k < plans@.len() ==> event_planned(
                        #[trigger] plans@[k],
                        block_number,
                        *transaction_hash,
                        events@,
                        contracts@,
                    ),
                touched@ == without_repeats(contracts_touched(events@, contracts@, i as nat)),
                models@ == without_repeats(
                    models_touched(events@, contracts@, model_events@, i as nat),
                ),
            decreases events@.len() - i,
        {
            let e = &events[i];
            proof {
                assert(events@[i as int].from_address.wf());
            }
            match find_kind(contracts, e.from_address) {
                None => {},
                Some(kind) => {
                    let id = format_event_id(
                        block_number,
                        transaction_hash,
                        &e.from_address,
                        i as u64,
                    );
                    let ghost before = plans@.map_values(|p: EventPlan| p.index as int);
                    plans.push(EventPlan { index: i, event_id: id, kind });
                    proof {
                        assert(plans@.map_values(|p: EventPlan| p.index as int) =~= before.push(
                            i as int,
                        ));
                        let t0 = contracts_touched(events@, contracts@, i as nat);
                        let t1 = contracts_touched(events@, contracts@, (i + 1) as nat);
                        assert(t1.drop_last() =~= t0);
                        assert(t1.last() == e.from_address);
                    }
                    if !has_felt(&touched, e.from_address) {
                        touched.push(e.from_address);
                    }
                    if kind == ContractType::WORLD && has_felt(model_events, e.keys[0]) {
                        proof {
                            let m0 = models_touched(events@, contracts@, model_events@, i as nat);
                            let m1 = models_touched(
                                events@,
                                contracts@,
                                model_events@,
                                (i + 1) as nat,
                            );
                            assert(m1.drop_last() =~= m0);
                            assert(m1.last() == e.keys@[1]);
                        }
                        if !has_felt(&models, e.keys[1]) {
                            models.push(e.keys[1]);
                        }
                    }
                },
            }
            i = i + 1;
        }
        proof {
            plan_is_of_indexed_events(
                events@,
                contracts@,
                model_events@,
                plans@,
                touched@,
                models@,
            );
            assert forall|k: int| 0 <= k < plans@.len() implies exists|j: int| #[trigger]
                is_first_of(
                    contracts@,
                    j,
                    events@[(#[trigger] plans@[k]).index as int].from_address,
                ) && contracts@[j].kind == plans@[k].kind by {
                assert(event_planned(
                    plans@[k],
                    block_number,
                    *transaction_hash,
                    events@,
                    contracts@,
                ));
                kind_is_of_the_first(contracts@, events@[plans@[k].index as int].from_address);
            }
        }
        TransactionPlan {
            events: plans,
            contracts: touched,
            models,
            process_transaction: has_transaction,
            store_receipt: has_receipt,
        }
    }
}

/// What a processor that accepts an event tells of it: the number of its task, those that the task
/// waits for, and which of several events are processed.
#[derive(Debug)]
pub struct TaskOffer {
    pub identifier: TaskId,
    pub dependencies: Vec<TaskId>,
    pub indexing_mode: IndexingMode,
}

/// An event with where and when it happened.
#[derive(Debug)]
pub struct PlacedEvent {
    pub contract_address: Felt,
    pub contract_type: ContractType,
    pub event_id: String,
    pub event: Event,
    pub block_number: u64,
    pub block_timestamp: u64,
    pub is_at_head: bool,
}

/// Where and when an event happened.
#[derive(Debug)]
pub struct EventPlace {
    pub contract_type: ContractType,
    pub event_id: String,
    pub block_number: u64,
    pub block_timestamp: u64,
    pub is_at_head: bool,
}

/// Whether the event is placed there.
pub open spec fn placed(p: PlacedEvent, e: Event, at: EventPlace) -> bool {
    &&& p.contract_address == e.from_address
    &&& p.contract_type == at.contract_type
    &&& p.event_id@ == at.event_id@
    &&& p.event.from_address == e.from_address
    &&& p.event.keys@ == e.keys@
    &&& p.event.data@ == e.data@
    &&& p.block_number == at.block_number
    &&& p.block_timestamp == at.block_timestamp
    &&& p.is_at_head == at.is_at_head
}

/// Which processor takes an event.
#[derive(Debug)]
pub enum EventRoute {
    /// The processor at an index, when its turn comes: a task of that number, after those it waits
    /// for.
    Task {
        processor: usize,
        identifier: TaskId,
        dependencies: Vec<TaskId>,
        indexing_mode: IndexingMode,
        event: PlacedEvent,
    },
    /// The processor for events without one of their own, at once.
    CatchAll(PlacedEvent),
    /// No processor.
    Unprocessed,
}

/// What is to be done for an event.
#[derive(Debug)]
pub struct EventStep {
    pub store_raw: bool,
    pub route: EventRoute,
}

/// Whether the event goes that way: to the first processor of its key that accepts it, as the task
/// that the processor tells of; without processors of its key to the one for all events, if that
/// accepts it.
pub open spec fn event_routed(
    route: EventRoute,
    event: Event,
    at: EventPlace,
    offers: Option<Seq<Option<TaskOffer>>>,
    catch_all: bool,
) -> bool {
    match offers {
        None => if catch_all {
            route matches EventRoute::CatchAll(p) && placed(p, event, at)
        } else {
            route is Unprocessed
        },
        Some(v) => {
            &&& route matches EventRoute::Task {
                processor,
                identifier,
                dependencies,
                indexing_mode,
                event: p,
            } && processor < v.len() && placed(p, event, at) && (forall|j: int|
                0 <= j < processor ==> (#[trigger] v[j]) is None) && (
            v[processor as int] matches Some(o) && identifier == o.identifier && dependencies@
                == o.dependencies@ && indexing_mode == o.indexing_mode)
        },
    }
}

/// The event with where and when it happened.
fn place_event(event: &Event, at: &EventPlace) -> (r: PlacedEvent)
    ensures
        placed(r, *event, *at),
{
    PlacedEvent {
        contract_address: event.from_address,
        contract_type: at.contract_type,
        event_id: at.event_id.clone(),
        event: Event {
            from_address: event.from_address,
            keys: copy_felts(&event.keys),
            data: copy_felts(&event.data),
        },
        block_number: at.block_number,
        block_timestamp: at.block_timestamp,
        is_at_head: at.is_at_head,
    }
}

/// What the processors tell.
pub open spec fn offers_view(offers: Option<Vec<Option<TaskOffer>>>) -> Option<
    Seq<Option<TaskOffer>>,
> {
    match offers {
        Some(v) => Some(v@),
        None => None,
    }
}

/// The numbers once more.
fn copy_numbers(v: &Vec<TaskId>) -> (r: Vec<TaskId>)
    ensures
        r@ == v@,
{
    let mut out: Vec<TaskId> = Vec::new();
    let mut i: usize = 0;
    while i < v.len()
        invariant
            i <= v@.len(),
            out@ =~= v@.take(i as int),
        decreases v@.len() - i,
    {
        out.push(v[i]);
        i = i + 1;
    }
    proof {
        assert(v@.take(i as int) =~= v@);
    }
    out
}

impl Engine {
    /// What is to be done for an event: stored as it is where raw events are indexed, and handed to
    /// the first processor of its key that accepts it. `offers` holds what each processor of the key
    /// tells of the event where it accepts it, if there are any; `catch_all` tells whether the
    /// processor for all events accepts it.
    pub fn process_event(
        raw_events: bool,
        event: &Event,
        at: &EventPlace,
        offers: &Option<Vec<Option<TaskOffer>>>,
        catch_all: bool,
    ) -> (r: EventStep)
        requires
            offers matches Some(v) ==> exists|i: int| 0 <= i < v@.len() && (#[trigger] v@[i]) is Some,
        ensures
            r.store_raw == raw_events,
            event_routed(r.route, *event, *at, offers_view(*offers), catch_all),
    {
        let route = match offers {
            None => if catch_all {
                EventRoute::CatchAll(place_event(event, at))
            } else {
                EventRoute::Unprocessed
            },
            Some(v) => {
                let mut i: usize = 0;
                while i < v.len() && v[i].is_none()
                    invariant
                        i <= v@.len(),
                        forall|j: int| 0 <= j < i ==> (#[trigger] v@[j]) is None,
                    decreases v@.len() - i,
                {
                    i = i + 1;
                }
                match &v[i] {
                    Some(o) => EventRoute::Task {
                        processor: i,
                        identifier: o.identifier,
                        dependencies: copy_numbers(&o.dependencies),
                        indexing_mode: o.indexing_mode,
                        event: place_event(event, at),
                    },
                    None => EventRoute::Unprocessed,
                }
            },
        };
        EventStep { store_raw: raw_events, route }
    }
}

} // verus!
