//! The kinds of subscriptions: what each kind is asked for, and who is sent which update.
use vstd::prelude::*;
use vstd::string::*;
use crate::broker::Audience;
use crate::felt::Felt;
use crate::sql::queries::TransactionFilter;
use crate::subscriptions::registry::{
    times, undelivered, without_ids, Dropped, SendOutcome, Subscribers,
};
use crate::text::{contains, has_string, has_substring, views};

verus! {

/// The settings of the subscriptions.
#[derive(Clone, Copy, Debug, PartialEq, Eq, Structural)]
pub struct GrpcConfig {
    pub subscription_buffer_size: usize,
    /// Whether subscribers get updates before they are confirmed, in place of those confirmed.
    pub optimistic: bool,
}

impl GrpcConfig {
    /// Which updates the subscribers get.
    pub fn audience(&self) -> (r: Audience)
        ensures
            r == (if self.optimistic {
                Audience::Optimistic
            } else {
                Audience::Confirmed
            }),
    {
        if self.optimistic {
            Audience::Optimistic
        } else {
            Audience::Confirmed
        }
    }
}

/// What every kind of subscription tells of its subscribers.
pub trait SubscriberBookkeeping: Sized {
    /// The numbers of the subscribers.
    spec fn numbers(&self) -> Set<u64>;

    /// The name of the kind.
    spec fn label(&self) -> Seq<char>;

    /// The subscribers are kept in order.
    spec fn valid(&self) -> bool;

    /// The name of the kind, for metrics and logs.
    fn kind(&self) -> (r: &'static str)
        ensures
            r@ == self.label(),
    ;

    /// The number of registered subscribers, with those that have gone unnoticed.
    fn subscriber_count(&self) -> (r: usize)
        requires
            self.valid(),
        ensures
            self.numbers().finite(),
            r == self.numbers().len(),
    ;

    /// Takes the subscribers out whose receiving end is closed, and tells how many they were.
    fn prune_closed(&mut self, closed: &Vec<u64>) -> (r: usize)
        requires
            old(self).valid(),
        ensures
            final(self).valid(),
            final(self).label() == old(self).label(),
            old(self).numbers().finite(),
            final(self).numbers() == open_numbers(old(self).numbers(), closed@),
            r == old(self).numbers().len() - final(self).numbers().len(),
    ;
}

/// The numbers that stay when those that are closed are taken out.
pub open spec fn open_numbers(numbers: Set<u64>, closed: Seq<u64>) -> Set<u64> {
    numbers.difference(closed.to_set())
}

/// Taking subscribers out takes out their numbers.
proof fn numbers_stay_open<F>(m: Map<u64, F>, closed: Seq<u64>)
    ensures
        without_ids(m, closed).dom() == open_numbers(m.dom(), closed),
{
    assert(without_ids(m, closed).dom() =~= open_numbers(m.dom(), closed));
}

/// Whether the numbers are those of the subscribers that want the update, each once.
pub open spec fn are_receivers<F>(
    r: Seq<u64>,
    filters: Map<u64, F>,
    wanted: spec_fn(F) -> bool,
) -> bool {
    &&& r.no_duplicates()
    &&& forall|id: u64| #[trigger]
        r.contains(id) <==> filters.dom().contains(id) && wanted(filters[id])
}

/// The number of one more subscriber that wants the update.
proof fn receiver_added<F>(
    ids: Seq<u64>,
    out: Seq<u64>,
    i: int,
    filters: Map<u64, F>,
    wanted: spec_fn(F) -> bool,
    take: bool,
)
    requires
        0 <= i < ids.len(),
        ids.no_duplicates(),
        filters.dom().contains(ids[i]),
        take == wanted(filters[ids[i]]),
        out.no_duplicates(),
        forall|id: u64| #[trigger] out.contains(id) <==> ids.take(i).contains(id) && wanted(filters[id]),
    ensures
        take ==> out.push(ids[i]).no_duplicates(),
        take ==> forall|id: u64| #[trigger]
            out.push(ids[i]).contains(id) <==> ids.take(i + 1).contains(id) && wanted(filters[id]),
        !take ==> forall|id: u64| #[trigger]
            out.contains(id) <==> ids.take(i + 1).contains(id) && wanted(filters[id]),
{
    let next = if take {
        out.push(ids[i])
    } else {
        out
    };
    let a = ids.take(i);
    let b = ids.take(i + 1);
    assert(b =~= a.push(ids[i]));
    assert(!a.contains(ids[i])) by {
        if a.contains(ids[i]) {
            let k = choose|k: int| 0 <= k < a.len() && a[k] == ids[i];
            assert(ids[k] == ids[i]);
        }
    }
    assert forall|id: u64| b.contains(id) <==> a.contains(id) || id == ids[i] by {
        if a.contains(id) {
            let k = choose|k: int| 0 <= k < a.len() && a[k] == id;
            assert(b[k] == id);
        }
        if id == ids[i] {
            assert(b[i] == id);
        }
    }
    assert forall|id: u64| #[trigger] next.contains(id) <==> b.contains(id) && wanted(filters[id]) by {
        if take {
            if out.contains(id) {
                let k = choose|k: int| 0 <= k < out.len() && out[k] == id;
                assert(next[k] == id);
            }
            if id == ids[i] {
                assert(next[out.len() as int] == id);
            }
            if next.contains(id) {
                let k = choose|k: int| 0 <= k < next.len() && next[k] == id;
                if k < out.len() {
                    assert(out[k] == id);
                }
            }
        }
    }
    assert forall|x: int, y: int| 0 <= x < y < next.len() implies next[x] != next[y] by {
        assert(next[x] == out[x]);
        if y < out.len() {
            assert(next[y] == out[y]);
        } else {
            assert(out.contains(out[x]));
        }
    }
}

// ---------------------------------------------------------------------------
// Achievements
// ---------------------------------------------------------------------------

/// How far a player got with a task.
#[derive(Debug)]
pub struct AchievementProgression {
    pub id: String,
    pub world_address: Felt,
    pub namespace: String,
    pub player_id: Felt,
}

/// What a subscriber to achievements wants; an empty list stands for all.
#[derive(Debug)]
pub struct AchievementProgressionFilter {
    pub world_addresses: Vec<Felt>,
    pub namespaces: Vec<String>,
    pub player_addresses: Vec<Felt>,
    pub achievement_ids: Vec<String>,
}

/// Whether the list is empty or holds the element.
pub open spec fn any_or_felt(list: Seq<Felt>, f: Felt) -> bool {
    list.len() == 0 || list.contains(f)
}

/// Whether the list is empty or holds the text.
pub open spec fn any_or_text(list: Seq<String>, s: Seq<char>) -> bool {
    list.len() == 0 || views(list).contains(s)
}

/// Whether the list is empty or the element stands in it.
fn allows_felt(list: &Vec<Felt>, f: Felt) -> (r: bool)
    ensures
        r == any_or_felt(list@, f),
{
    if list.len() == 0 {
        return true;
    }
    let mut i: usize = 0;
    while i < list.len()
        invariant
            i <= list@.len(),
            list@.len() > 0,
            forall|k: int| 0 <= k < i ==> list@[k] != f,
        decreases list@.len() - i,
    {
        if list[i] == f {
            return true;
        }
        i = i + 1;
    }
    false
}

/// Whether the list is empty or the text stands in it.
fn allows_text(list: &Vec<String>, s: &str) -> (r: bool)
    ensures
        r == any_or_text(list@, s@),
{
    list.len() == 0 || has_string(list, s)
}

/// Whether the identifier holds one of the texts.
pub open spec fn names_part(list: Seq<String>, id: Seq<char>) -> bool {
    exists|i: int| 0 <= i < list.len() && has_substring(id, (#[trigger] list[i])@)
}

/// Whether the subscriber wants the progression: every list that is not empty names it.
pub open spec fn progression_wanted(
    f: AchievementProgressionFilter,
    p: AchievementProgression,
) -> bool {
    &&& any_or_felt(f.world_addresses@, p.world_address)
    &&& any_or_text(f.namespaces@, p.namespace@)
    &&& any_or_felt(f.player_addresses@, p.player_id)
    &&& f.achievement_ids@.len() == 0 || names_part(f.achievement_ids@, p.id@)
}

impl AchievementProgressionFilter {
    /// Whether the subscriber wants the progression.
    pub fn matches(&self, progression: &AchievementProgression) -> (r: bool)
        ensures
            r == progression_wanted(*self, *progression),
    {
        if !allows_felt(&self.world_addresses, progression.world_address) || !allows_text(
            &self.namespaces,
            &progression.namespace,
        ) || !allows_felt(&self.player_addresses, progression.player_id) {
            return false;
        }
        if self.achievement_ids.len() == 0 {
            return true;
        }
        let mut i: usize = 0;
        while i < self.achievement_ids.len()
            invariant
                i <= self.achievement_ids@.len(),
                any_or_felt(self.world_addresses@, progression.world_address),
                any_or_text(self.namespaces@, progression.namespace@),
                any_or_felt(self.player_addresses@, progression.player_id),
                self.achievement_ids@.len() > 0,
                forall|k: int|
                    0 <= k < i ==> !has_substring(
                        progression.id@,
                        (#[trigger] self.achievement_ids@[k])@,
                    ),
            decreases self.achievement_ids@.len() - i,
        {
            if contains(&progression.id, &self.achievement_ids[i]) {
                return true;
            }
            i = i + 1;
        }
        false
    }
}

/// The subscribers to achievements.
pub struct AchievementProgressionManager {
    pub subscribers: Subscribers<AchievementProgressionFilter>,
    pub config: GrpcConfig,
}

impl SubscriberBookkeeping for AchievementProgressionManager {
    open spec fn numbers(&self) -> Set<u64> {
        self.subscribers.filters().dom()
    }

    open spec fn label(&self) -> Seq<char> {
        "achievement_progression"@
    }

    open spec fn valid(&self) -> bool {
        self.subscribers.wf()
    }

    fn kind(&self) -> (r: &'static str) {
        "achievement_progression"
    }

    fn subscriber_count(&self) -> (r: usize) {
        proof {
            self.subscribers.keys_are_numbers();
        }
        self.subscribers.len()
    }

    fn prune_closed(&mut self, closed: &Vec<u64>) -> (r: usize) {
        proof {
            self.subscribers.keys_are_numbers();
            numbers_stay_open(self.subscribers.filters(), closed@);
        }
        self.subscribers.prune_closed(closed)
    }
}

impl AchievementProgressionManager {
    /// No subscribers.
    pub fn new(config: GrpcConfig) -> (r: AchievementProgressionManager)
        ensures
            r.valid(),
            r.subscribers.filters().dom().len() == 0,
            r.subscribers.next == 0,
            r.config == config,
    {
        AchievementProgressionManager { subscribers: Subscribers::new(), config }
    }

    /// Adds a subscriber under a number that was drawn for it.
    pub fn add_subscriber(&mut self, id: u64, filter: AchievementProgressionFilter)
        requires
            old(self).valid(),
            old(self).subscribers.next < u64::MAX,
        ensures
            final(self).valid(),
            final(self).config == old(self).config,
            final(self).subscribers.filters() == old(self).subscribers.filters().insert(id, filter),
    {
        self.subscribers.add(id, filter);
    }

    /// Changes what a subscriber wants; nothing where the number is not registered.
    pub fn update_subscriber(&mut self, id: u64, filter: AchievementProgressionFilter)
        requires
            old(self).valid(),
        ensures
            final(self).valid(),
            final(self).config == old(self).config,
            final(self).subscribers.filters() == (if old(
                self,
            ).subscribers.filters().dom().contains(id) {
                old(self).subscribers.filters().insert(id, filter)
            } else {
                old(self).subscribers.filters()
            }),
    {
        self.subscribers.update(id, filter);
    }

    /// The numbers of the subscribers that are sent the progression.
    pub fn receivers(&self, progression: &AchievementProgression) -> (r: Vec<u64>)
        requires
            self.valid(),
        ensures
            are_receivers(
                r@,
                self.subscribers.filters(),
                |f: AchievementProgressionFilter| progression_wanted(f, *progression),
            ),
    {
        let ids = self.subscribers.ids();
        let mut out: Vec<u64> = Vec::new();
        let mut i: usize = 0;
        let ghost filters = self.subscribers.filters();
        let ghost wanted = |f: AchievementProgressionFilter| progression_wanted(f, *progression);
        while i < ids.len()
            invariant
                i <= ids@.len(),
                self.valid(),
                filters == self.subscribers.filters(),
                wanted == (|f: AchievementProgressionFilter| progression_wanted(f, *progression)),
                ids@.no_duplicates(),
                forall|id: u64| #[trigger] ids@.contains(id) <==> filters.dom().contains(id),
                out@.no_duplicates(),
                forall|id: u64| #[trigger]
                    out@.contains(id) <==> ids@.take(i as int).contains(id) && wanted(filters[id]),
            decreases ids@.len() - i,
        {
            let id: u64 = ids[i];
            proof {
                assert(ids@.contains(ids@[i as int]));
            }
            let take = match self.subscribers.filter_of(id) {
                Some(f) => f.matches(progression),
                None => false,
            };
            proof {
                receiver_added(ids@, out@, i as int, filters, wanted, take);
            }
            if take {
                out.push(id);
            }
            i = i + 1;
        }
        proof {
            assert(ids@.take(i as int) =~= ids@);
        }
        out
    }

    /// Drops the subscribers that an update did not reach.
    pub fn process_progression_update(
        &mut self,
        ids: &Vec<u64>,
        outcomes: &Vec<SendOutcome>,
    ) -> (r: Dropped)
        requires
            old(self).valid(),
            ids@.len() == outcomes@.len(),
        ensures
            final(self).valid(),
            final(self).config == old(self).config,
            final(self).subscribers.filters() == without_ids(
                old(self).subscribers.filters(),
                undelivered(ids@, outcomes@),
            ),
            r.full == times(outcomes@, SendOutcome::Full),
            r.closed == times(outcomes@, SendOutcome::Closed),
    {
        self.subscribers.settle(ids, outcomes)
    }
}

// ---------------------------------------------------------------------------
// Aggregations
// ---------------------------------------------------------------------------

/// An entry of an aggregator.
#[derive(Debug)]
pub struct AggregationEntry {
    pub aggregator_id: String,
    pub entity_id: String,
}

/// What a subscriber to aggregations wants; an empty list stands for all.
#[derive(Debug)]
pub struct AggregationFilter {
    pub aggregator_ids: Vec<String>,
    pub entity_ids: Vec<String>,
}

/// Whether the subscriber wants the entry.
pub open spec fn aggregation_wanted(f: AggregationFilter, e: AggregationEntry) -> bool {
    any_or_text(f.aggregator_ids@, e.aggregator_id@) && any_or_text(f.entity_ids@, e.entity_id@)
}

impl AggregationFilter {
    /// Whether the subscriber wants the entry.
    pub fn matches(&self, entry: &AggregationEntry) -> (r: bool)
        ensures
            r == aggregation_wanted(*self, *entry),
    {
        allows_text(&self.aggregator_ids, &entry.aggregator_id) && allows_text(
            &self.entity_ids,
            &entry.entity_id,
        )
    }
}

/// The subscribers to aggregations.
pub struct AggregationManager {
    pub subscribers: Subscribers<AggregationFilter>,
    pub config: GrpcConfig,
}

impl SubscriberBookkeeping for AggregationManager {
    open spec fn numbers(&self) -> Set<u64> {
        self.subscribers.filters().dom()
    }

    open spec fn label(&self) -> Seq<char> {
        "aggregation"@
    }

    open spec fn valid(&self) -> bool {
        self.subscribers.wf()
    }

    fn kind(&self) -> (r: &'static str) {
        "aggregation"
    }

    fn subscriber_count(&self) -> (r: usize) {
        proof {
            self.subscribers.keys_are_numbers();
        }
        self.subscribers.len()
    }

    fn prune_closed(&mut self, closed: &Vec<u64>) -> (r: usize) {
        proof {
            self.subscribers.keys_are_numbers();
            numbers_stay_open(self.subscribers.filters(), closed@);
        }
        self.subscribers.prune_closed(closed)
    }
}

impl AggregationManager {
    /// No subscribers.
    pub fn new(config: GrpcConfig) -> (r: AggregationManager)
        ensures
            r.valid(),
            r.subscribers.filters().dom().len() == 0,
            r.subscribers.next == 0,
            r.config == config,
    {
        AggregationManager { subscribers: Subscribers::new(), config }
    }

    /// Adds a subscriber under a number that was drawn for it.
    pub fn add_subscriber(&mut self, id: u64, filter: AggregationFilter)
        requires
            old(self).valid(),
            old(self).subscribers.next < u64::MAX,
        ensures
            final(self).valid(),
            final(self).config == old(self).config,
            final(self).subscribers.filters() == old(self).subscribers.filters().insert(id, filter),
    {
        self.subscribers.add(id, filter);
    }

    /// Changes what a subscriber wants; nothing where the number is not registered.
    pub fn update_subscriber(&mut self, id: u64, filter: AggregationFilter)
        requires
            old(self).valid(),
        ensures
            final(self).valid(),
            final(self).config == old(self).config,
            final(self).subscribers.filters() == (if old(
                self,
            ).subscribers.filters().dom().contains(id) {
                old(self).subscribers.filters().insert(id, filter)
            } else {
                old(self).subscribers.filters()
            }),
    {
        self.subscribers.update(id, filter);
    }

    /// The numbers of the subscribers that are sent the entry.
    pub fn receivers(&self, entry: &AggregationEntry) -> (r: Vec<u64>)
        requires
            self.valid(),
        ensures
            are_receivers(
                r@,
                self.subscribers.filters(),
                |f: AggregationFilter| aggregation_wanted(f, *entry),
            ),
    {
        let ids = self.subscribers.ids();
        let mut out: Vec<u64> = Vec::new();
        let mut i: usize = 0;
        let ghost filters = self.subscribers.filters();
        let ghost wanted = |f: AggregationFilter| aggregation_wanted(f, *entry);
        while i < ids.len()
            invariant
                i <= ids@.len(),
                self.valid(),
                filters == self.subscribers.filters(),
                wanted == (|f: AggregationFilter| aggregation_wanted(f, *entry)),
                ids@.no_duplicates(),
                forall|id: u64| #[trigger] ids@.contains(id) <==> filters.dom().contains(id),
                out@.no_duplicates(),
                forall|id: u64| #[trigger]
                    out@.contains(id) <==> ids@.take(i as int).contains(id) && wanted(filters[id]),
            decreases ids@.len() - i,
        {
            let id: u64 = ids[i];
            proof {
                assert(ids@.contains(ids@[i as int]));
            }
            let take = match self.subscribers.filter_of(id) {
                Some(f) => f.matches(entry),
                None => false,
            };
            proof {
                receiver_added(ids@, out@, i as int, filters, wanted, take);
            }
            if take {
                out.push(id);
            }
            i = i + 1;
        }
        proof {
            assert(ids@.take(i as int) =~= ids@);
        }
        out
    }

    /// Drops the subscribers that an update did not reach.
    pub fn process_aggregation_update(
        &mut self,
        ids: &Vec<u64>,
        outcomes: &Vec<SendOutcome>,
    ) -> (r: Dropped)
        requires
            old(self).valid(),
            ids@.len() == outcomes@.len(),
        ensures
            final(self).valid(),
            final(self).config == old(self).config,
            final(self).subscribers.filters() == without_ids(
                old(self).subscribers.filters(),
                undelivered(ids@, outcomes@),
            ),
            r.full == times(outcomes@, SendOutcome::Full),
            r.closed == times(outcomes@, SendOutcome::Closed),
    {
        self.subscribers.settle(ids, outcomes)
    }
}

// ---------------------------------------------------------------------------
// Transactions
// ---------------------------------------------------------------------------

/// What of a call decides who is sent its transaction.
#[derive(Debug)]
pub struct CallUpdate {
    pub caller_address: Felt,
    pub contract_address: Felt,
    pub entrypoint: String,
}

/// What of a transaction decides who is sent it.
#[derive(Debug)]
pub struct TransactionUpdate {
    pub transaction_hash: Felt,
    pub block_number: u64,
    pub calls: Vec<CallUpdate>,
    /// The models that the transaction touches.
    pub unique_models: Vec<Felt>,
}

/// Whether the list is empty or holds the caller of some call.
pub open spec fn some_caller(list: Seq<Felt>, calls: Seq<CallUpdate>) -> bool {
    list.len() == 0 || exists|i: int|
        0 <= i < calls.len() && list.contains((#[trigger] calls[i]).caller_address)
}

/// Whether the list is empty or holds the contract of some call.
pub open spec fn some_contract(list: Seq<Felt>, calls: Seq<CallUpdate>) -> bool {
    list.len() == 0 || exists|i: int|
        0 <= i < calls.len() && list.contains((#[trigger] calls[i]).contract_address)
}

/// Whether the list is empty or holds the entry point of some call.
pub open spec fn some_entrypoint(list: Seq<String>, calls: Seq<CallUpdate>) -> bool {
    list.len() == 0 || exists|i: int|
        0 <= i < calls.len() && views(list).contains((#[trigger] calls[i]).entrypoint@)
}

/// Whether the list is empty or holds some model.
pub open spec fn some_model(list: Seq<Felt>, models: Seq<Felt>) -> bool {
    list.len() == 0 || exists|i: int| 0 <= i < models.len() && list.contains(#[trigger] models[i])
}

/// Whether the subscriber is sent the transaction. Each list of the filter that is not empty asks
/// for something that the transaction has: its hash, the caller, contract or entry point of one of
/// its calls, or one of its models; the bounds ask for its block.
pub open spec fn transaction_wanted(f: Option<TransactionFilter>, t: TransactionUpdate) -> bool {
    match f {
        None => true,
        Some(f) => {
            &&& any_or_felt(f.transaction_hashes@, t.transaction_hash)
            &&& some_caller(f.caller_addresses@, t.calls@)
            &&& some_contract(f.contract_addresses@, t.calls@)
            &&& some_entrypoint(f.entrypoints@, t.calls@)
            &&& some_model(f.model_selectors@, t.unique_models@)
            &&& f.from_block matches Some(b) ==> t.block_number >= b
            &&& f.to_block matches Some(b) ==> t.block_number <= b
        },
    }
}

/// Whether the calls have a caller, a contract and an entry point that the filter asks for.
fn calls_match(f: &TransactionFilter, calls: &Vec<CallUpdate>) -> (r: bool)
    ensures
        r == (some_caller(f.caller_addresses@, calls@) && some_contract(
            f.contract_addresses@,
            calls@,
        ) && some_entrypoint(f.entrypoints@, calls@)),
{
    let mut caller = f.caller_addresses.len() == 0;
    let mut contract = f.contract_addresses.len() == 0;
    let mut entrypoint = f.entrypoints.len() == 0;
    let mut i: usize = 0;
    while i < calls.len()
        invariant
            i <= calls@.len(),
            caller == (f.caller_addresses@.len() == 0 || exists|k: int|
                0 <= k < i && f.caller_addresses@.contains((#[trigger] calls@[k]).caller_address)),
            contract == (f.contract_addresses@.len() == 0 || exists|k: int|
                0 <= k < i && f.contract_addresses@.contains(
                    (#[trigger] calls@[k]).contract_address,
                )),
            entrypoint == (f.entrypoints@.len() == 0 || exists|k: int|
                0 <= k < i && views(f.entrypoints@).contains((#[trigger] calls@[k]).entrypoint@)),
        decreases calls@.len() - i,
    {
        let call = &calls[i];
        caller = caller || allows_felt(&f.caller_addresses, call.caller_address);
        contract = contract || allows_felt(&f.contract_addresses, call.contract_address);
        entrypoint = entrypoint || has_string(&f.entrypoints, &call.entrypoint);
        i = i + 1;
    }
    caller && contract && entrypoint
}

/// Whether the models have one that the list asks for.
fn models_match(list: &Vec<Felt>, models: &Vec<Felt>) -> (r: bool)
    ensures
        r == some_model(list@, models@),
{
    if list.len() == 0 {
        return true;
    }
    let mut i: usize = 0;
    while i < models.len()
        invariant
            i <= models@.len(),
            list@.len() > 0,
            forall|k: int| 0 <= k < i ==> !list@.contains(#[trigger] models@[k]),
        decreases models@.len() - i,
    {
        if allows_felt(list, models[i]) {
            return true;
        }
        i = i + 1;
    }
    false
}

/// Whether the subscriber is sent the transaction.
pub fn transaction_matches(f: &Option<TransactionFilter>, t: &TransactionUpdate) -> (r: bool)
    ensures
        r == transaction_wanted(*f, *t),
{
    match f {
        None => true,
        Some(f) => {
            if !allows_felt(&f.transaction_hashes, t.transaction_hash) {
                return false;
            }
            if !calls_match(f, &t.calls) || !models_match(&f.model_selectors, &t.unique_models) {
                return false;
            }
            match f.from_block {
                Some(b) => {
                    if t.block_number < b {
                        return false;
                    }
                },
                None => {},
            }
            match f.to_block {
                Some(b) => {
                    if t.block_number > b {
                        return false;
                    }
                },
                None => {},
            }
            true
        },
    }
}

/// The subscribers to transactions.
pub struct TransactionManager {
    pub subscribers: Subscribers<Option<TransactionFilter>>,
    pub config: GrpcConfig,
}

impl SubscriberBookkeeping for TransactionManager {
    open spec fn numbers(&self) -> Set<u64> {
        self.subscribers.filters().dom()
    }

    open spec fn label(&self) -> Seq<char> {
        "transaction"@
    }

    open spec fn valid(&self) -> bool {
        self.subscribers.wf()
    }

    fn kind(&self) -> (r: &'static str) {
        "transaction"
    }

    fn subscriber_count(&self) -> (r: usize) {
        proof {
            self.subscribers.keys_are_numbers();
        }
        self.subscribers.len()
    }

    fn prune_closed(&mut self, closed: &Vec<u64>) -> (r: usize) {
        proof {
            self.subscribers.keys_are_numbers();
            numbers_stay_open(self.subscribers.filters(), closed@);
        }
        self.subscribers.prune_closed(closed)
    }
}

impl TransactionManager {
    /// No subscribers.
    pub fn new(config: GrpcConfig) -> (r: TransactionManager)
        ensures
            r.valid(),
            r.subscribers.filters().dom().len() == 0,
            r.subscribers.next == 0,
            r.config == config,
    {
        TransactionManager { subscribers: Subscribers::new(), config }
    }

    /// Adds a subscriber under a number that was drawn for it.
    pub fn add_subscriber(&mut self, id: u64, filter: Option<TransactionFilter>)
        requires
            old(self).valid(),
            old(self).subscribers.next < u64::MAX,
        ensures
            final(self).valid(),
            final(self).config == old(self).config,
            final(self).subscribers.filters() == old(self).subscribers.filters().insert(id, filter),
    {
        self.subscribers.add(id, filter);
    }

    /// The numbers of the subscribers that are sent the transaction.
    pub fn receivers(&self, transaction: &TransactionUpdate) -> (r: Vec<u64>)
        requires
            self.valid(),
        ensures
            are_receivers(
                r@,
                self.subscribers.filters(),
                |f: Option<TransactionFilter>| transaction_wanted(f, *transaction),
            ),
    {
        let ids = self.subscribers.ids();
        let mut out: Vec<u64> = Vec::new();
        let mut i: usize = 0;
        let ghost filters = self.subscribers.filters();
        let ghost wanted = |f: Option<TransactionFilter>| transaction_wanted(f, *transaction);
        while i < ids.len()
            invariant
                i <= ids@.len(),
                self.valid(),
                filters == self.subscribers.filters(),
                wanted == (|f: Option<TransactionFilter>| transaction_wanted(f, *transaction)),
                ids@.no_duplicates(),
                forall|id: u64| #[trigger] ids@.contains(id) <==> filters.dom().contains(id),
                out@.no_duplicates(),
                forall|id: u64| #[trigger]
                    out@.contains(id) <==> ids@.take(i as int).contains(id) && wanted(filters[id]),
            decreases ids@.len() - i,
        {
            let id: u64 = ids[i];
            proof {
                assert(ids@.contains(ids@[i as int]));
            }
            let take = match self.subscribers.filter_of(id) {
                Some(f) => transaction_matches(f, transaction),
                None => false,
            };
            proof {
                receiver_added(ids@, out@, i as int, filters, wanted, take);
            }
            if take {
                out.push(id);
            }
            i = i + 1;
        }
        proof {
            assert(ids@.take(i as int) =~= ids@);
        }
        out
    }

    /// Drops the subscribers that an update did not reach.
    pub fn process_transaction(
        &mut self,
        ids: &Vec<u64>,
        outcomes: &Vec<SendOutcome>,
    ) -> (r: Dropped)
        requires
            old(self).valid(),
            ids@.len() == outcomes@.len(),
        ensures
            final(self).valid(),
            final(self).config == old(self).config,
            final(self).subscribers.filters() == without_ids(
                old(self).subscribers.filters(),
                undelivered(ids@, outcomes@),
            ),
            r.full == times(outcomes@, SendOutcome::Full),
            r.closed == times(outcomes@, SendOutcome::Closed),
    {
        self.subscribers.settle(ids, outcomes)
    }
}

// ---------------------------------------------------------------------------
// Sweeps
// ---------------------------------------------------------------------------

/// The name of a kind and a number.
#[derive(Clone, Copy, Debug)]
pub struct KindCount {
    pub kind: &'static str,
    pub count: usize,
}

/// The kinds of updates that listeners are counted for, in order.
pub open spec fn update_kinds() -> Seq<Seq<char>> {
    seq![
        "entity"@,
        "event_message"@,
        "contract"@,
        "model"@,
        "token"@,
        "token_balance"@,
        "token_transfer"@,
        "event"@,
        "transaction"@,
        "aggregation"@,
        "activity"@,
        "achievement_progression"@,
    ]
}

/// The numbers of listeners by kind of update, given in the order of the kinds.
pub fn broker_subscriber_counts(counts: [usize; 12]) -> (r: Vec<KindCount>)
    ensures
        r@.map_values(|k: KindCount| k.kind@) == update_kinds(),
        forall|i: int| 0 <= i < 12 ==> (#[trigger] r@[i]).count == counts@[i],
{
    let r: Vec<KindCount> = vec![
        KindCount { kind: "entity", count: counts[0] },
        KindCount { kind: "event_message", count: counts[1] },
        KindCount { kind: "contract", count: counts[2] },
        KindCount { kind: "model", count: counts[3] },
        KindCount { kind: "token", count: counts[4] },
        KindCount { kind: "token_balance", count: counts[5] },
        KindCount { kind: "token_transfer", count: counts[6] },
        KindCount { kind: "event", count: counts[7] },
        KindCount { kind: "transaction", count: counts[8] },
        KindCount { kind: "aggregation", count: counts[9] },
        KindCount { kind: "activity", count: counts[10] },
        KindCount { kind: "achievement_progression", count: counts[11] },
    ];
    proof {
        assert(r@.map_values(|k: KindCount| k.kind@) =~= update_kinds());
    }
    r
}

/// What pruning left of one kind.
#[derive(Clone, Copy, Debug, PartialEq, Eq, Structural)]
pub struct Swept {
    pub pruned: usize,
    pub remaining: usize,
}

/// Any kind of subscription.
pub enum Manager {
    AchievementProgression(AchievementProgressionManager),
    Aggregation(AggregationManager),
    Transaction(TransactionManager),
}

impl SubscriberBookkeeping for Manager {
    open spec fn numbers(&self) -> Set<u64> {
        match self {
            Manager::AchievementProgression(m) => m.numbers(),
            Manager::Aggregation(m) => m.numbers(),
            Manager::Transaction(m) => m.numbers(),
        }
    }

    open spec fn label(&self) -> Seq<char> {
        match self {
            Manager::AchievementProgression(m) => m.label(),
            Manager::Aggregation(m) => m.label(),
            Manager::Transaction(m) => m.label(),
        }
    }

    open spec fn valid(&self) -> bool {
        match self {
            Manager::AchievementProgression(m) => m.valid(),
            Manager::Aggregation(m) => m.valid(),
            Manager::Transaction(m) => m.valid(),
        }
    }

    fn kind(&self) -> (r: &'static str) {
        match self {
            Manager::AchievementProgression(m) => m.kind(),
            Manager::Aggregation(m) => m.kind(),
            Manager::Transaction(m) => m.kind(),
        }
    }

    fn subscriber_count(&self) -> (r: usize) {
        match self {
            Manager::AchievementProgression(m) => m.subscriber_count(),
            Manager::Aggregation(m) => m.subscriber_count(),
            Manager::Transaction(m) => m.subscriber_count(),
        }
    }

    fn prune_closed(&mut self, closed: &Vec<u64>) -> (r: usize) {
        match self {
            Manager::AchievementProgression(m) => m.prune_closed(closed),
            Manager::Aggregation(m) => m.prune_closed(closed),
            Manager::Transaction(m) => m.prune_closed(closed),
        }
    }
}

/// The numbers of the subscribers, kind by kind.
pub open spec fn numbers_of(managers: Seq<Manager>) -> Seq<Set<u64>> {
    managers.map_values(|m: Manager| m.numbers())
}

/// The numbers of those that are closed, kind by kind.
pub open spec fn closed_of(closed: Seq<Vec<u64>>) -> Seq<Seq<u64>> {
    closed.map_values(|c: Vec<u64>| c@)
}

/// The numbers that a sweep leaves, kind by kind.
pub open spec fn swept(numbers: Seq<Set<u64>>, closed: Seq<Seq<u64>>) -> Seq<Set<u64>> {
    Seq::new(numbers.len(), |i: int| open_numbers(numbers[i], closed[i]))
}

/// The subscribers over all kinds.
pub open spec fn total(numbers: Seq<Set<u64>>) -> int
    decreases numbers.len(),
{
    if numbers.len() == 0 {
        0
    } else {
        total(numbers.drop_last()) + numbers.last().len()
    }
}

/// The subscribers over all kinds that are closed.
pub open spec fn closed_total(numbers: Seq<Set<u64>>, closed: Seq<Seq<u64>>) -> int
    decreases numbers.len(),
{
    if numbers.len() == 0 {
        0
    } else {
        let n = numbers.len() - 1;
        closed_total(numbers.drop_last(), closed) + numbers[n].intersect(closed[n].to_set()).len()
    }
}

/// The listeners, over all kinds.
pub open spec fn count_total(s: Seq<KindCount>) -> int
    decreases s.len(),
{
    if s.len() == 0 {
        0
    } else {
        count_total(s.drop_last()) + s.last().count
    }
}

/// Those that are closed and those that are not are all.
proof fn closed_and_open(numbers: Set<u64>, closed: Seq<u64>)
    requires
        numbers.finite(),
    ensures
        numbers.len() == numbers.intersect(closed.to_set()).len() + open_numbers(
            numbers,
            closed,
        ).len(),
{
    let a = numbers.intersect(closed.to_set());
    let b = open_numbers(numbers, closed);
    assert(a.union(b) =~= numbers);
    assert(a.disjoint(b));
    vstd::set_lib::lemma_set_disjoint_lens(a, b);
}

/// The sum over the first is not above that over all.
proof fn total_monotone(s: Seq<Set<u64>>, n: int)
    requires
        0 <= n <= s.len(),
    ensures
        0 <= total(s.take(n)) <= total(s),
    decreases s.len(),
{
    if n == s.len() {
        assert(s.take(n) =~= s);
        if n > 0 {
            total_monotone(s.drop_last(), n - 1);
            assert(s.drop_last().take(n - 1) =~= s.drop_last());
        }
    } else {
        total_monotone(s.drop_last(), n);
        assert(s.drop_last().take(n) =~= s.take(n));
    }
}

/// The sum over the first is not above that over all.
proof fn count_monotone(s: Seq<KindCount>, n: int)
    requires
        0 <= n <= s.len(),
    ensures
        0 <= count_total(s.take(n)) <= count_total(s),
    decreases s.len(),
{
    if n == s.len() {
        assert(s.take(n) =~= s);
        if n > 0 {
            count_monotone(s.drop_last(), n - 1);
            assert(s.drop_last().take(n - 1) =~= s.drop_last());
        }
    } else {
        count_monotone(s.drop_last(), n);
        assert(s.drop_last().take(n) =~= s.take(n));
    }
}

/// Seconds between sweeps.
pub const SWEEP_INTERVAL_SECS: u64 = 30;

/// Prunes one kind, and tells what is left.
pub fn sweep_manager<M: SubscriberBookkeeping>(manager: &mut M, closed: &Vec<u64>) -> (r: Swept)
    requires
        old(manager).valid(),
    ensures
        final(manager).valid(),
        final(manager).label() == old(manager).label(),
        old(manager).numbers().finite(),
        final(manager).numbers() == open_numbers(old(manager).numbers(), closed@),
        r.remaining == final(manager).numbers().len(),
        r.pruned == old(manager).numbers().len() - final(manager).numbers().len(),
{
    let pruned: usize = manager.prune_closed(closed);
    let remaining: usize = manager.subscriber_count();
    Swept { pruned, remaining }
}

/// The listeners, over all kinds.
fn sum_counts(listeners: &Vec<KindCount>) -> (r: usize)
    requires
        count_total(listeners@) <= usize::MAX,
    ensures
        r == count_total(listeners@),
{
    let mut streams: usize = 0;
    let mut j: usize = 0;
    proof {
        assert(listeners@.take(0) =~= Seq::<KindCount>::empty());
    }
    while j < listeners.len()
        invariant
            j <= listeners@.len(),
            count_total(listeners@) <= usize::MAX,
            streams == count_total(listeners@.take(j as int)),
        decreases listeners@.len() - j,
    {
        proof {
            assert(listeners@.take(j + 1).drop_last() =~= listeners@.take(j as int));
            count_monotone(listeners@, j + 1);
        }
        streams = streams + listeners[j].count;
        j = j + 1;
    }
    proof {
        assert(listeners@.take(j as int) =~= listeners@);
    }
    streams
}

/// Prunes all kinds. `closed` holds, kind by kind, the numbers of subscribers whose receiving end is
/// closed. Gives the subscribers that remain, the listeners, and the subscribers that were pruned,
/// over all kinds.
pub fn sweep(
    managers: &mut Vec<Manager>,
    closed: &Vec<Vec<u64>>,
    listeners: &Vec<KindCount>,
) -> (r: (usize, usize, usize))
    requires
        forall|i: int| 0 <= i < old(managers)@.len() ==> (#[trigger] old(managers)@[i]).valid(),
        closed@.len() == old(managers)@.len(),
        total(numbers_of(old(managers)@)) <= usize::MAX,
        count_total(listeners@) <= usize::MAX,
    ensures
        forall|i: int| 0 <= i < final(managers)@.len() ==> (#[trigger] final(managers)@[i]).valid(),
        numbers_of(final(managers)@) == swept(numbers_of(old(managers)@), closed_of(closed@)),
        r.0 == total(numbers_of(final(managers)@)),
        r.1 == count_total(listeners@),
        r.2 == closed_total(numbers_of(old(managers)@), closed_of(closed@)),
{
    let ghost before = managers@;
    let ghost all = numbers_of(before);
    let ghost shut = closed_of(closed@);
    let ghost left = swept(all, shut);
    let mut remaining: usize = 0;
    let mut pruned: usize = 0;
    let mut i: usize = 0;
    proof {
        assert(all.take(0) =~= Seq::<Set<u64>>::empty());
        assert(left.take(0) =~= Seq::<Set<u64>>::empty());
    }
    while i < managers.len()
        invariant
            i <= managers@.len(),
            managers@.len() == before.len(),
            closed@.len() == before.len(),
            all == numbers_of(before),
            shut == closed_of(closed@),
            left == swept(all, shut),
            total(all) <= usize::MAX,
            forall|k: int| 0 <= k < managers@.len() ==> (#[trigger] managers@[k]).valid(),
            forall|k: int| 0 <= k < i ==> (#[trigger] managers@[k]).numbers() == left[k],
            forall|k: int| i <= k < managers@.len() ==> #[trigger] managers@[k] == before[k],
            remaining == total(left.take(i as int)),
            pruned == closed_total(all.take(i as int), shut),
            remaining + pruned == total(all.take(i as int)),
        decreases managers@.len() - i,
    {
        let ghost now = managers@;
        proof {
            assert(now[i as int] == before[i as int]);
            assert(all[i as int] == before[i as int].numbers());
            assert(all.take(i + 1).drop_last() =~= all.take(i as int));
            assert(left.take(i + 1).drop_last() =~= left.take(i as int));
            total_monotone(all, i + 1);
        }
        let one = sweep_manager(&mut managers[i], &closed[i]);
        proof {
            assert(managers@[i as int].numbers() == left[i as int]);
            closed_and_open(all[i as int], shut[i as int]);
            assert forall|k: int| 0 <= k < managers@.len() && k != i implies #[trigger] managers@[k]
                == now[k] by {}
        }
        remaining = remaining + one.remaining;
        pruned = pruned + one.pruned;
        i = i + 1;
    }
    proof {
        assert(all.take(i as int) =~= all);
        assert(left.take(i as int) =~= left);
        assert(numbers_of(managers@) =~= left);
    }
    (remaining, sum_counts(listeners), pruned)
}

/// A sweep leaves exactly the subscribers that are not closed, and a second one at once, with the
/// same closed, finds nothing to prune and leaves as many.
pub proof fn second_sweep_prunes_nothing(numbers: Seq<Set<u64>>, closed: Seq<Seq<u64>>)
    requires
        closed.len() == numbers.len(),
    ensures
        forall|i: int, id: u64|
            0 <= i < numbers.len() ==> (#[trigger] swept(numbers, closed)[i].contains(id)
                <==> numbers[i].contains(id) && !closed[i].contains(id)),
        swept(swept(numbers, closed), closed) == swept(numbers, closed),
        closed_total(swept(numbers, closed), closed) == 0,
        total(swept(swept(numbers, closed), closed)) == total(swept(numbers, closed)),
{
    let once = swept(numbers, closed);
    let twice = swept(once, closed);
    assert forall|i: int| 0 <= i < numbers.len() implies #[trigger] twice[i] == once[i] by {
        assert(twice[i] =~= once[i]);
    }
    assert(twice =~= once);
    nothing_closed(once, closed);
}

/// Where no subscriber is closed, none is counted.
proof fn nothing_closed(numbers: Seq<Set<u64>>, closed: Seq<Seq<u64>>)
    requires
        closed.len() >= numbers.len(),
        forall|i: int, id: u64|
            0 <= i < numbers.len() && #[trigger] numbers[i].contains(id) ==> !closed[i].contains(id),
    ensures
        closed_total(numbers, closed) == 0,
    decreases numbers.len(),
{
    if numbers.len() > 0 {
        let n = numbers.len() - 1;
        let t = numbers.drop_last();
        assert forall|i: int, id: u64| 0 <= i < t.len() && #[trigger] t[i].contains(
            id,
        ) implies !closed[i].contains(id) by {
            assert(numbers[i].contains(id));
        }
        nothing_closed(t, closed);
        assert(numbers[n].intersect(closed[n].to_set()) =~= Set::<u64>::empty());
    }
}

/// Whether a sweep is worth a line for the operator: something was pruned, or the numbers differ
/// from those of the sweep before.
pub fn worth_reporting(last: (usize, usize), current: (usize, usize), pruned: usize) -> (r: bool)
    ensures
        r == (pruned > 0 || current != last),
{
    pruned > 0 || current.0 != last.0 || current.1 != last.1
}

} // verus!
