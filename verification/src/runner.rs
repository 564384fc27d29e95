//! Starting the program: how threads, connections and endpoints are set up, and in which order.
use vstd::prelude::*;
use vstd::string::*;
use vstd::utf8::encode_utf8;
use crate::digits::{decimal, digits_of, signed_decimal, signed_text};
use crate::felt::{felt_from_hex, Felt};
use crate::naming::{model_selector, try_compute_selector_from_tag};
use crate::options::{
    AchievementOptions, ActivityOptions, ContractDefinition, ContractType, ErcOptions, EventsOptions,
    GrpcOptions, IndexingOptions, MessagingOptions, MetricsOptions, RelayOptions, RunnerOptions,
    SearchOptions, ServerOptions, SnapshotOptions, SqlOptions,
};
use crate::text::{
    concat, copy_opt, distinct_strings, has_prefix, lowercase, opt_view, replace, replaced,
    split, starts_with, str_eq, to_lowercase, trim, trimmed, views, without_repeats,
};

verus! {

/// How the threads are shared between queries and the indexer.
#[derive(Clone, Copy, Debug, PartialEq, Eq, Structural)]
pub enum AllocationStrategy {
    Adaptive,
    QueryPriority,
    IndexerPriority,
    Balanced,
}

/// The strategy that a lower-case name stands for; adaptive for any other text.
pub open spec fn strategy_named(l: Seq<char>) -> AllocationStrategy {
    if l == "query_priority"@ {
        AllocationStrategy::QueryPriority
    } else if l == "indexer_priority"@ {
        AllocationStrategy::IndexerPriority
    } else if l == "balanced"@ {
        AllocationStrategy::Balanced
    } else {
        AllocationStrategy::Adaptive
    }
}

impl AllocationStrategy {
    /// The strategy that a lower-case name stands for.
    pub fn from_lowercase(l: &str) -> (r: AllocationStrategy)
        ensures
            r == strategy_named(l@),
    {
        if str_eq(l, "query_priority") {
            AllocationStrategy::QueryPriority
        } else if str_eq(l, "indexer_priority") {
            AllocationStrategy::IndexerPriority
        } else if str_eq(l, "balanced") {
            AllocationStrategy::Balanced
        } else {
            AllocationStrategy::Adaptive
        }
    }
}

impl<'a> From<&'a str> for AllocationStrategy {
    fn from(s: &'a str) -> (r: AllocationStrategy) {
        AllocationStrategy::from_lowercase(&to_lowercase(s))
    }
}

impl<'a> vstd::std_specs::convert::FromSpecImpl<&'a str> for AllocationStrategy {
    open spec fn obeys_from_spec() -> bool {
        true
    }

    open spec fn from_spec(s: &'a str) -> AllocationStrategy {
        strategy_named(lowercase(s@))
    }
}

/// The least number of threads of a runtime.
pub const MIN_THREADS: usize = 1;

/// `n` raised to one, then lowered to `limit`.
pub open spec fn at_least_one_within(n: int, limit: int) -> int {
    let raised = if n < 1 {
        1
    } else {
        n
    };
    if raised > limit {
        limit
    } else {
        raised
    }
}

/// The threads for queries and for the indexer, before overrides.
pub open spec fn shares(available: int, strategy: AllocationStrategy) -> (int, int) {
    match strategy {
        AllocationStrategy::QueryPriority => {
            let q = at_least_one_within(available * 7 / 10, available);
            (q, at_least_one_within(available - q, available))
        },
        AllocationStrategy::IndexerPriority => {
            let i = at_least_one_within(available * 7 / 10, available);
            (at_least_one_within(available - i, available), i)
        },
        AllocationStrategy::Balanced => {
            let h = at_least_one_within(available / 2, available);
            (h, h)
        },
        AllocationStrategy::Adaptive => {
            let q = at_least_one_within(available * 6 / 10, available);
            (q, at_least_one_within(available - q, available))
        },
    }
}

/// The threads of one runtime: the override within the number of processors, else the share.
pub open spec fn with_override(wanted: int, share: int, cpu_count: int) -> int {
    if wanted > 0 {
        if wanted > cpu_count {
            cpu_count
        } else {
            wanted
        }
    } else if share < 1 {
        1
    } else {
        share
    }
}

/// The processors left when one is kept for the main runtime.
pub open spec fn available_threads(cpu_count: int) -> int {
    if cpu_count >= 1 {
        cpu_count - 1
    } else {
        0
    }
}

/// The number of threads of each runtime.
#[derive(Clone, Copy, Debug, PartialEq, Eq, Structural)]
pub struct RuntimeAllocation {
    pub query_threads: usize,
    pub indexer_threads: usize,
    pub main_threads: usize,
}

/// `n` raised to one, then lowered to `limit`.
fn one_within(n: usize, limit: usize) -> (r: usize)
    ensures
        r == at_least_one_within(n as int, limit as int),
{
    let raised: usize = if n < MIN_THREADS {
        MIN_THREADS
    } else {
        n
    };
    if raised > limit {
        limit
    } else {
        raised
    }
}

impl RuntimeAllocation {
    /// The number of threads of each runtime, for that number of processors.
    pub fn calculate(
        cpu_count: usize,
        strategy: &AllocationStrategy,
        query_override: usize,
        indexer_override: usize,
    ) -> (r: RuntimeAllocation)
        requires
            *strategy == AllocationStrategy::Adaptive ==> available_threads(cpu_count as int) * 6
                <= usize::MAX,
            *strategy == AllocationStrategy::QueryPriority || *strategy
                == AllocationStrategy::IndexerPriority ==> available_threads(cpu_count as int) * 7
                <= usize::MAX,
        ensures
            r.query_threads == with_override(
                query_override as int,
                shares(available_threads(cpu_count as int), *strategy).0,
                cpu_count as int,
            ),
            r.indexer_threads == with_override(
                indexer_override as int,
                shares(available_threads(cpu_count as int), *strategy).1,
                cpu_count as int,
            ),
            r.main_threads == 1,
    {
        let available: usize = if cpu_count >= 1 {
            cpu_count - 1
        } else {
            0
        };
        let (query, indexer): (usize, usize) = match strategy {
            AllocationStrategy::QueryPriority => {
                let q: usize = one_within(available * 7 / 10, available);
                (q, one_within(available - q, available))
            },
            AllocationStrategy::IndexerPriority => {
                let i: usize = one_within(available * 7 / 10, available);
                (one_within(available - i, available), i)
            },
            AllocationStrategy::Balanced => {
                let h: usize = one_within(available / 2, available);
                (h, h)
            },
            AllocationStrategy::Adaptive => {
                let q: usize = one_within(available * 6 / 10, available);
                (q, one_within(available - q, available))
            },
        };
        RuntimeAllocation {
            query_threads: if query_override > 0 {
                if query_override > cpu_count {
                    cpu_count
                } else {
                    query_override
                }
            } else if query < 1 {
                1
            } else {
                query
            },
            indexer_threads: if indexer_override > 0 {
                if indexer_override > cpu_count {
                    cpu_count
                } else {
                    indexer_override
                }
            } else if indexer < 1 {
                1
            } else {
                indexer
            },
            main_threads: 1,
        }
    }
}

/// On a machine with a processor every runtime has a thread and none has more than the machine.
pub proof fn every_runtime_has_threads(
    cpu_count: usize,
    strategy: AllocationStrategy,
    wanted_query: usize,
    wanted_indexer: usize,
)
    requires
        cpu_count >= 1,
    ensures
        ({
            let s = shares(available_threads(cpu_count as int), strategy);
            &&& 1 <= with_override(wanted_query as int, s.0, cpu_count as int) <= cpu_count
            &&& 1 <= with_override(wanted_indexer as int, s.1, cpu_count as int) <= cpu_count
        }),
{
}

/// With three processors or more, and no override, queries and indexer together leave one
/// processor to the main runtime.
pub proof fn one_processor_is_reserved(cpu_count: usize, strategy: AllocationStrategy)
    requires
        cpu_count >= 3,
    ensures
        ({
            let s = shares(available_threads(cpu_count as int), strategy);
            with_override(0, s.0, cpu_count as int) + with_override(0, s.1, cpu_count as int) + 1
                <= cpu_count
        }),
{
}

// ---------------------------------------------------------------------------
// Progress of a download
// ---------------------------------------------------------------------------

/// The widths of the bar and of the message on a terminal of that width.
pub open spec fn progress_widths(width: Option<u16>) -> (int, int) {
    match width {
        Some(w) => {
            let effective = if w < 80 {
                80int
            } else if w > 120 {
                120int
            } else {
                w as int
            };
            let msg = if effective / 8 > 20 {
                20int
            } else if effective / 8 < 8 {
                8int
            } else {
                effective / 8
            };
            let bar = if effective > 45 + msg {
                let b = (effective - (45 + msg)) * 8 / 10;
                if b > 60 {
                    60int
                } else {
                    b
                }
            } else {
                30int
            };
            (bar, msg)
        },
        None => (40, 20),
    }
}

/// The template of the progress bar on a terminal of that width; default widths where it is not
/// known.
pub fn create_progress_bar_template(width: Option<u16>) -> (r: String)
    ensures
        r@ == " {spinner:.yellow} snapshot [{bar:"@ + digits_of(
            progress_widths(width).0 as nat,
            10,
        ) + ".cyan/blue}] {bytes}/{total_bytes} Downloading{wide_msg:>"@ + digits_of(
            progress_widths(width).1 as nat,
            10,
        ) + ".blue}"@,
{
    let (bar, msg): (u64, u64) = match width {
        Some(w) => {
            let effective: u64 = if w < 80 {
                80
            } else if w > 120 {
                120
            } else {
                w as u64
            };
            let eighth: u64 = effective / 8;
            let msg: u64 = if eighth > 20 {
                20
            } else if eighth < 8 {
                8
            } else {
                eighth
            };
            let bar: u64 = if effective > 45 + msg {
                let b: u64 = (effective - (45 + msg)) * 8 / 10;
                if b > 60 {
                    60
                } else {
                    b
                }
            } else {
                30
            };
            (bar, msg)
        },
        None => (40, 20),
    };
    let mut out = " {spinner:.yellow} snapshot [{bar:".to_owned();
    out.append(decimal(bar).as_str());
    out.append(".cyan/blue}] {bytes}/{total_bytes} Downloading{wide_msg:>");
    out.append(decimal(msg).as_str());
    out.append(".blue}");
    out
}

/// The bytes of a download that count as received: never more than its announced size.
pub fn download_position(downloaded: u64, chunk: u64, total_size: u64) -> (r: u64)
    ensures
        r == (if downloaded + chunk > total_size {
            total_size as int
        } else {
            downloaded + chunk
        }),
{
    match downloaded.checked_add(chunk) {
        Some(n) => if n > total_size {
            total_size
        } else {
            n
        },
        None => total_size,
    }
}

// ---------------------------------------------------------------------------
// Configuration
// ---------------------------------------------------------------------------

/// All that the operator sets.
#[derive(Debug)]
pub struct ToriiArgs {
    pub world_address: Option<Felt>,
    pub rpc: String,
    pub db_dir: Option<String>,
    pub config: Option<String>,
    pub dump_config: Option<String>,
    pub indexing: IndexingOptions,
    pub events: EventsOptions,
    pub erc: ErcOptions,
    pub sql: SqlOptions,
    pub activity: ActivityOptions,
    pub achievement: AchievementOptions,
    pub search: SearchOptions,
    pub snapshot: SnapshotOptions,
    pub runner: RunnerOptions,
    pub server: ServerOptions,
    pub relay: RelayOptions,
    pub metrics: MetricsOptions,
    pub messaging: MessagingOptions,
    pub grpc: GrpcOptions,
}

/// The contracts to index: those listed, and the world after them where it is given.
pub open spec fn contracts_of(args: ToriiArgs) -> Seq<ContractDefinition> {
    match args.world_address {
        Some(a) => args.indexing.contracts@.push(
            ContractDefinition { address: a, kind: ContractType::WORLD, starting_block: None },
        ),
        None => args.indexing.contracts@,
    }
}

/// The contracts to index.
pub fn contracts_to_index(args: &ToriiArgs) -> (r: Vec<ContractDefinition>)
    ensures
        r@ == contracts_of(*args),
{
    let list = &args.indexing.contracts;
    let mut out: Vec<ContractDefinition> = Vec::new();
    let mut i: usize = 0;
    while i < list.len()
        invariant
            i <= list@.len(),
            out@ =~= list@.take(i as int),
        decreases list@.len() - i,
    {
        out.push(list[i]);
        i = i + 1;
    }
    proof {
        assert(list@.take(i as int) =~= list@);
    }
    match args.world_address {
        Some(a) => {
            out.push(
                ContractDefinition { address: a, kind: ContractType::WORLD, starting_block: None },
            );
        },
        None => {},
    }
    out
}

/// Whether the version of the provider's interface is a supported one.
pub fn spec_version_supported(version: &str) -> (r: bool)
    ensures
        r == has_prefix(version@, "0.9"@),
{
    starts_with(version, "0.9")
}

/// The contracts for which no class was found.
pub open spec fn missing(
    contracts: Seq<ContractDefinition>,
    deployed: Seq<bool>,
) -> Seq<ContractDefinition>
    decreases contracts.len(),
{
    if contracts.len() == 0 {
        Seq::empty()
    } else {
        let n = (contracts.len() - 1) as int;
        let before = missing(contracts.drop_last(), deployed);
        if n < deployed.len() && deployed[n] {
            before
        } else {
            before.push(contracts[n])
        }
    }
}

/// The contracts for which no class was found; `deployed` tells for each whether one was.
pub fn undeployed_contracts(
    contracts: &Vec<ContractDefinition>,
    deployed: &Vec<bool>,
) -> (r: Vec<ContractDefinition>)
    ensures
        r@ == missing(contracts@, deployed@),
{
    let mut out: Vec<ContractDefinition> = Vec::new();
    let mut i: usize = 0;
    proof {
        assert(contracts@.take(0) =~= Seq::<ContractDefinition>::empty());
    }
    while i < contracts.len()
        invariant
            i <= contracts@.len(),
            out@ == missing(contracts@.take(i as int), deployed@),
        decreases contracts@.len() - i,
    {
        proof {
            assert(contracts@.take(i + 1).drop_last() =~= contracts@.take(i as int));
        }
        if !(i < deployed.len() && deployed[i]) {
            out.push(contracts[i]);
        }
        i = i + 1;
    }
    proof {
        assert(contracts@.take(i as int) =~= contracts@);
    }
    out
}

/// A contract is reported missing exactly when no class was found for one of its entries.
pub proof fn missing_are_the_undeployed(
    contracts: Seq<ContractDefinition>,
    deployed: Seq<bool>,
    c: ContractDefinition,
)
    ensures
        missing(contracts, deployed).contains(c) <==> exists|i: int|
            0 <= i < contracts.len() && #[trigger] contracts[i] == c && !(i < deployed.len()
                && deployed[i]),
    decreases contracts.len(),
{
    if contracts.len() > 0 {
        let n = (contracts.len() - 1) as int;
        let t = contracts.drop_last();
        missing_are_the_undeployed(t, deployed, c);
        let before = missing(t, deployed);
        let all = missing(contracts, deployed);
        if all.contains(c) {
            let j = choose|j: int| 0 <= j < all.len() && all[j] == c;
            if j < before.len() {
                assert(before[j] == c);
                assert(before.contains(c));
                let i = choose|i: int|
                    0 <= i < t.len() && #[trigger] t[i] == c && !(i < deployed.len()
                        && deployed[i]);
                assert(contracts[i] == c);
            } else {
                assert(contracts[n] == c);
            }
        }
        if exists|i: int|
            0 <= i < contracts.len() && #[trigger] contracts[i] == c && !(i < deployed.len()
                && deployed[i]) {
            let i = choose|i: int|
                0 <= i < contracts.len() && #[trigger] contracts[i] == c && !(i < deployed.len()
                    && deployed[i]);
            if i < n {
                assert(t[i] == c);
                assert(before.contains(c));
                let j = choose|j: int| 0 <= j < before.len() && before[j] == c;
                assert(all[j] == c);
            } else {
                assert(all[all.len() - 1] == c);
            }
        }
    }
}

/// What is done about a snapshot.
#[derive(Clone, Copy, Debug, PartialEq, Eq, Structural)]
pub enum SnapshotPlan {
    /// None is asked for.
    Skip,
    /// It is downloaded; `version_differs` asks for a warning.
    Download { version_differs: bool },
    /// A database exists already at the path.
    Refuse,
}

/// What is done about a snapshot: it is downloaded where one is asked for, unless a directory is
/// given that holds a database.
pub open spec fn snapshot_planned(
    o: SnapshotOptions,
    db_dir: Option<String>,
    database_exists: bool,
    version_spec: Seq<char>,
) -> SnapshotPlan {
    if o.url is None {
        SnapshotPlan::Skip
    } else if db_dir is None || !database_exists {
        SnapshotPlan::Download {
            version_differs: o.version is Some && o.version->0@ != version_spec,
        }
    } else {
        SnapshotPlan::Refuse
    }
}

/// What is done about a snapshot.
pub fn plan_snapshot(
    o: &SnapshotOptions,
    db_dir: &Option<String>,
    database_exists: bool,
    version_spec: &str,
) -> (r: SnapshotPlan)
    ensures
        r == snapshot_planned(*o, *db_dir, database_exists, version_spec@),
{
    if o.url.is_none() {
        return SnapshotPlan::Skip;
    }
    if db_dir.is_none() || !database_exists {
        let version_differs = match &o.version {
            Some(v) => !str_eq(v, version_spec),
            None => false,
        };
        SnapshotPlan::Download { version_differs }
    } else {
        SnapshotPlan::Refuse
    }
}

/// A setting of the database, by name and value.
#[derive(Debug)]
pub struct Pragma {
    pub name: &'static str,
    pub value: String,
}

/// The settings of the database, by name and value, in the order in which they are made.
pub open spec fn pragmas_of(o: SqlOptions, cpu_count: nat) -> Seq<(Seq<char>, Seq<char>)> {
    seq![
        ("threads"@, digits_of(cpu_count, 10)),
        ("cache_size"@, signed_text(o.cache_size as int)),
        ("page_size"@, digits_of(o.page_size as nat, 10)),
        ("wal_autocheckpoint"@, digits_of(o.wal_autocheckpoint as nat, 10)),
        ("busy_timeout"@, digits_of(o.busy_timeout as nat, 10)),
        ("soft_heap_limit"@, digits_of(o.soft_memory_limit as nat, 10)),
        ("hard_heap_limit"@, digits_of(o.hard_memory_limit as nat, 10)),
        ("temp_store"@, o.temp_store@),
        ("mmap_size"@, digits_of(o.mmap_size as nat, 10)),
        ("journal_size_limit"@, digits_of(o.journal_size_limit as nat, 10)),
    ]
}

/// The settings as pairs of texts.
pub open spec fn pragma_views(p: Seq<Pragma>) -> Seq<(Seq<char>, Seq<char>)> {
    p.map_values(|x: Pragma| (x.name@, x.value@))
}

/// The settings of the database.
pub fn database_pragmas(o: &SqlOptions, cpu_count: usize) -> (r: Vec<Pragma>)
    ensures
        pragma_views(r@) == pragmas_of(*o, cpu_count as nat),
{
    let mut out: Vec<Pragma> = Vec::new();
    out.push(Pragma { name: "threads", value: decimal(cpu_count as u64) });
    out.push(Pragma { name: "cache_size", value: signed_decimal(o.cache_size) });
    out.push(Pragma { name: "page_size", value: decimal(o.page_size) });
    out.push(Pragma { name: "wal_autocheckpoint", value: decimal(o.wal_autocheckpoint) });
    out.push(Pragma { name: "busy_timeout", value: decimal(o.busy_timeout) });
    out.push(Pragma { name: "soft_heap_limit", value: decimal(o.soft_memory_limit) });
    out.push(Pragma { name: "hard_heap_limit", value: decimal(o.hard_memory_limit) });
    out.push(Pragma { name: "temp_store", value: o.temp_store.clone() });
    out.push(Pragma { name: "mmap_size", value: decimal(o.mmap_size) });
    out.push(Pragma { name: "journal_size_limit", value: decimal(o.journal_size_limit) });
    proof {
        assert(pragma_views(out@) =~= pragmas_of(*o, cpu_count as nat));
    }
    out
}

/// The least and the greatest number of connections for queries: two for each query thread, as a
/// number of 32 bits, not under the number set, of which at most four are kept open.
pub fn readonly_connections(o: &SqlOptions, query_threads: usize) -> (r: (u32, u32))
    requires
        query_threads * 2 <= usize::MAX,
    ensures
        r.1 == (if o.max_connections >= query_threads * 2 % 0x1_0000_0000 {
            o.max_connections as int
        } else {
            query_threads * 2 % 0x1_0000_0000
        }),
        r.0 == (if r.1 < 4 {
            r.1
        } else {
            4
        }),
{
    let wanted: u32 = (query_threads as u64 * 2 % 0x1_0000_0000) as u32;
    let max: u32 = if o.max_connections >= wanted {
        o.max_connections
    } else {
        wanted
    };
    let min: u32 = if max < 4 {
        max
    } else {
        4
    };
    (min, max)
}

/// The tasks that run at once: the number set, or, where it is the default, eight for each thread
/// of the indexer within fifty and five hundred.
pub fn concurrent_tasks(max_concurrent_tasks: usize, indexer_threads: usize) -> (r: usize)
    requires
        indexer_threads * 8 <= usize::MAX,
    ensures
        r == (if max_concurrent_tasks != 100 {
            max_concurrent_tasks as int
        } else if indexer_threads * 8 < 50 {
            50
        } else if indexer_threads * 8 > 500 {
            500
        } else {
            indexer_threads * 8
        }),
{
    if max_concurrent_tasks == 100 {
        let n: usize = indexer_threads * 8;
        if n < 50 {
            50
        } else if n > 500 {
            500
        } else {
            n
        }
    } else {
        max_concurrent_tasks
    }
}

/// Why the program stops.
#[derive(Debug)]
pub enum RunError {
    ContractsNotDeployed(Vec<ContractDefinition>),
    SnapshotFailed,
    DatabaseExists,
    ActivityNeedsTransactions,
    InvalidModelTag(String),
    TlsFailed(String),
    TaskFailed { task: &'static str, error: String },
    TaskPanicked { task: &'static str, error: String },
}

/// The selectors of tags.
pub open spec fn selectors_of(tags: Seq<Seq<char>>) -> Seq<Felt> {
    tags.map_values(|t: Seq<char>| model_selector(split(t, '-')[0], split(t, '-')[1]))
}

/// Whether every text is a tag: two parts around one dash.
pub open spec fn all_tags(tags: Seq<Seq<char>>) -> bool {
    forall|i: int| 0 <= i < tags.len() ==> split(#[trigger] tags[i], '-').len() == 2
}

/// The first text that is not a tag.
pub open spec fn first_invalid(tags: Seq<Seq<char>>) -> Option<Seq<char>>
    decreases tags.len(),
{
    if tags.len() == 0 {
        None
    } else {
        match first_invalid(tags.drop_last()) {
            Some(t) => Some(t),
            None => if split(tags.last(), '-').len() != 2 {
                Some(tags.last())
            } else {
                None
            },
        }
    }
}

/// A text is not a tag exactly when there is a first such text.
pub proof fn first_invalid_is_first(tags: Seq<Seq<char>>)
    ensures
        first_invalid(tags) is None <==> all_tags(tags),
        first_invalid(tags) matches Some(t) ==> tags.contains(t) && split(t, '-').len() != 2,
    decreases tags.len(),
{
    if tags.len() > 0 {
        let b = tags.drop_last();
        first_invalid_is_first(b);
        if first_invalid(b) is Some {
            let t = first_invalid(b)->0;
            let i = choose|i: int| 0 <= i < b.len() && b[i] == t;
            assert(tags[i] == t);
        } else {
            assert forall|i: int| 0 <= i < tags.len() - 1 implies split(
                #[trigger] tags[i],
                '-',
            ).len() == 2 by {
                assert(b[i] == tags[i]);
            }
            if split(tags.last(), '-').len() != 2 {
                assert(tags[tags.len() - 1] == tags.last());
            }
        }
    }
}

/// What was found among the first texts is what is found among all.
proof fn first_invalid_stays(tags: Seq<Seq<char>>, n: int)
    requires
        0 <= n <= tags.len(),
        first_invalid(tags.take(n)) is Some,
    ensures
        first_invalid(tags) == first_invalid(tags.take(n)),
    decreases tags.len(),
{
    if n == tags.len() {
        assert(tags.take(n) =~= tags);
    } else {
        assert(tags.drop_last().take(n) =~= tags.take(n));
        first_invalid_stays(tags.drop_last(), n);
    }
}

/// Whether an element stands in the list.
fn has_felt(list: &Vec<Felt>, f: Felt) -> (r: bool)
    ensures
        r == list@.contains(f),
{
    let mut i: usize = 0;
    while i < list.len()
        invariant
            i <= list@.len(),
            forall|k: int| 0 <= k < i ==> list@[k] != f,
        decreases list@.len() - i,
    {
        if list[i] == f {
            return true;
        }
        i = i + 1;
    }
    false
}

/// The selectors of the models whose history is kept, each once; the first text that is not a tag
/// is an error.
pub fn historical_selectors(tags: &Vec<String>) -> (r: Result<Vec<Felt>, RunError>)
    ensures
        match r {
            Ok(v) => first_invalid(views(tags@)) is None && v@ == without_repeats(
                selectors_of(views(tags@)),
            ),
            Err(e) => e matches RunError::InvalidModelTag(t) && first_invalid(views(tags@)) == Some(
                t@,
            ),
        },
{
    let mut out: Vec<Felt> = Vec::new();
    let mut i: usize = 0;
    let ghost all = views(tags@);
    let ghost sel = selectors_of(all);
    proof {
        assert(sel.take(0) =~= Seq::<Felt>::empty());
    }
    while i < tags.len()
        invariant
            i <= tags@.len(),
            all == views(tags@),
            sel == selectors_of(all),
            first_invalid(all.take(i as int)) is None,
            out@ == without_repeats(sel.take(i as int)),
        decreases tags@.len() - i,
    {
        proof {
            assert(all[i as int] == tags@[i as int]@);
            assert(all.take(i + 1).drop_last() =~= all.take(i as int));
            assert(sel.take(i + 1).drop_last() =~= sel.take(i as int));
        }
        match try_compute_selector_from_tag(&tags[i]) {
            Some(f) => {
                proof {
                    assert(sel.take(i + 1).last() == f);
                }
                if !has_felt(&out, f) {
                    out.push(f);
                }
            },
            None => {
                proof {
                    first_invalid_stays(all, i + 1);
                }
                return Err(RunError::InvalidModelTag(tags[i].clone()));
            },
        }
        i = i + 1;
    }
    proof {
        assert(all.take(i as int) =~= all);
        assert(sel.take(i as int) =~= sel);
    }
    Ok(out)
}

/// The entry points that count as no activity unless the operator lists others.
pub open spec fn default_excluded() -> Seq<Seq<char>> {
    seq![
        "execute_from_outside_v3"@,
        "request_random"@,
        "submit_random"@,
        "assert_consumed"@,
        "deployContract"@,
        "set_name"@,
        "register_model"@,
        "entities"@,
        "init_contract"@,
        "upgrade_model"@,
        "emit_events"@,
        "emit_event"@,
        "set_metadata"@,
    ]
}

/// The entry points that count as no activity: those listed, each once, or the default ones.
pub fn excluded_entrypoints(o: &ActivityOptions) -> (r: Vec<String>)
    ensures
        views(r@) == (if o.excluded_entrypoints@.len() == 0 {
            default_excluded()
        } else {
            without_repeats(views(o.excluded_entrypoints@))
        }),
{
    if o.excluded_entrypoints.len() != 0 {
        return distinct_strings(&o.excluded_entrypoints);
    }
    let mut out: Vec<String> = Vec::new();
    out.push("execute_from_outside_v3".to_owned());
    out.push("request_random".to_owned());
    out.push("submit_random".to_owned());
    out.push("assert_consumed".to_owned());
    out.push("deployContract".to_owned());
    out.push("set_name".to_owned());
    out.push("register_model".to_owned());
    out.push("entities".to_owned());
    out.push("init_contract".to_owned());
    out.push("upgrade_model".to_owned());
    out.push("emit_events".to_owned());
    out.push("emit_event".to_owned());
    out.push("set_metadata".to_owned());
    proof {
        assert(views(out@) =~= default_excluded());
    }
    out
}

/// The elements that the entries of a list, trimmed, write in hexadecimal; other entries are
/// passed over.
pub open spec fn addresses_in(list: Seq<Seq<char>>) -> Seq<nat>
    decreases list.len(),
{
    if list.len() == 0 {
        Seq::empty()
    } else {
        let before = addresses_in(list.drop_last());
        match felt_from_hex(trim(list.last())) {
            Some(v) => before.push(v),
            None => before,
        }
    }
}

/// The elements that the entries of a list write.
pub fn addresses_of(list: &Vec<String>) -> (r: Vec<Felt>)
    ensures
        r@.map_values(|f: Felt| f.value()) == addresses_in(views(list@)),
        forall|i: int| 0 <= i < r@.len() ==> (#[trigger] r@[i]).wf(),
{
    let mut out: Vec<Felt> = Vec::new();
    let mut i: usize = 0;
    let ghost all = views(list@);
    proof {
        assert(all.take(0) =~= Seq::<Seq<char>>::empty());
        assert(out@.map_values(|f: Felt| f.value()) =~= Seq::<nat>::empty());
    }
    while i < list.len()
        invariant
            i <= list@.len(),
            all == views(list@),
            out@.map_values(|f: Felt| f.value()) == addresses_in(all.take(i as int)),
            forall|k: int| 0 <= k < out@.len() ==> (#[trigger] out@[k]).wf(),
        decreases list@.len() - i,
    {
        proof {
            assert(all.take(i + 1).drop_last() =~= all.take(i as int));
            assert(all.take(i + 1).last() == list@[i as int]@);
        }
        let ghost before = out@.map_values(|f: Felt| f.value());
        match Felt::from_hex(&trimmed(&list[i])) {
            Some(f) => {
                out.push(f);
                proof {
                    assert(out@.map_values(|f: Felt| f.value()) =~= before.push(f.value()));
                }
            },
            None => {},
        }
        i = i + 1;
    }
    proof {
        assert(all.take(i as int) =~= all);
    }
    out
}

// ---------------------------------------------------------------------------
// Endpoints
// ---------------------------------------------------------------------------

/// The certificate and the key of the server.
#[derive(Debug)]
pub struct TlsConfig {
    pub cert_path: String,
    pub key_path: String,
}

/// Whether certificates are to be made: asked for, with neither path given.
pub fn wants_certificates(o: &ServerOptions) -> (r: bool)
    ensures
        r == (o.mkcert && o.tls_cert_path is None && o.tls_key_path is None),
{
    o.mkcert && o.tls_cert_path.is_none() && o.tls_key_path.is_none()
}

/// The certificate and key that are used: those made, where they were asked for, else those given.
pub open spec fn tls_paths(
    o: ServerOptions,
    made: Option<(String, String)>,
) -> (Option<Seq<char>>, Option<Seq<char>>) {
    if o.mkcert && o.tls_cert_path is None && o.tls_key_path is None {
        match made {
            Some(p) => (Some(p.0@), Some(p.1@)),
            None => (None, None),
        }
    } else {
        (opt_view(o.tls_cert_path), opt_view(o.tls_key_path))
    }
}

/// The certificate and key of the server; none where one of them is missing. The flag tells that
/// only one of them is there.
pub fn tls_config(o: &ServerOptions, made: &Option<(String, String)>) -> (r: (
    Option<TlsConfig>,
    bool,
))
    ensures
        ({
            let (cert, key) = tls_paths(*o, *made);
            &&& match r.0 {
                Some(t) => cert == Some(t.cert_path@) && key == Some(t.key_path@),
                None => cert is None || key is None,
            }
            &&& r.1 == ((cert is Some) != (key is Some))
        }),
{
    let (cert, key) = if wants_certificates(o) {
        match made {
            Some(p) => (Some(p.0.clone()), Some(p.1.clone())),
            None => (None, None),
        }
    } else {
        (copy_opt(&o.tls_cert_path), copy_opt(&o.tls_key_path))
    };
    match (cert, key) {
        (Some(c), Some(k)) => (Some(TlsConfig { cert_path: c, key_path: k }), false),
        (Some(_), None) => (None, true),
        (None, Some(_)) => (None, true),
        (None, None) => (None, false),
    }
}

/// Whether a byte stands for itself in a form.
pub open spec fn form_plain(b: u8) -> bool {
    ||| b == 0x2a
    ||| b == 0x2d
    ||| b == 0x2e
    ||| 0x30 <= b <= 0x39
    ||| 0x41 <= b <= 0x5a
    ||| b == 0x5f
    ||| 0x61 <= b <= 0x7a
}

/// The upper-case hexadecimal digit of a number below sixteen.
pub open spec fn upper_digit(d: int) -> char {
    if d < 10 {
        (d + 0x30) as char
    } else {
        (d - 10 + 0x41) as char
    }
}

/// The bytes as `application/x-www-form-urlencoded` text: letters, digits and `*-._` for
/// themselves, a plus sign for a space, and a percent sign with two digits for any other byte.
pub open spec fn form_encoded(bytes: Seq<u8>) -> Seq<char>
    decreases bytes.len(),
{
    if bytes.len() == 0 {
        Seq::empty()
    } else {
        let b = bytes.last();
        form_encoded(bytes.drop_last()) + (if form_plain(b) {
            seq![b as char]
        } else if b == 0x20 {
            seq!['+']
        } else {
            seq!['%', upper_digit(b as int / 16), upper_digit(b as int % 16)]
        })
    }
}

/// `form_urlencoded::byte_serialize` writes letters, digits and `*-._` as they are, a space as a
/// plus sign and any other byte as a percent sign with two upper-case digits.
#[verifier::external_body]
fn byte_serialize(bytes: &[u8]) -> (r: String)
    ensures
        r@ == form_encoded(bytes@),
{
    url::form_urlencoded::byte_serialize(bytes).collect()
}

/// The addresses under which the program is reached.
#[derive(Debug)]
pub struct Endpoints {
    pub graphql: String,
    pub mcp: String,
    pub sql: String,
    pub explorer_url: String,
}

/// The address of a path of the server.
pub open spec fn endpoint(https: bool, addr: Seq<char>, path: Seq<char>) -> Seq<char> {
    (if https {
        "https"@
    } else {
        "http"@
    }) + "://"@ + addr + path
}

/// The address of a path of the server.
fn endpoint_of(https: bool, addr: &str, path: &str) -> (r: String)
    ensures
        r@ == endpoint(https, addr@, path@),
{
    let mut out = if https {
        "https".to_owned()
    } else {
        "http".to_owned()
    };
    out.append("://");
    out.append(addr);
    out.append(path);
    out
}

/// The addresses under which the program is reached. The explorer is given the address of the
/// GraphQL endpoint, with `localhost` for the unspecified address.
pub fn endpoints(https: bool, addr: &str) -> (r: Endpoints)
    ensures
        r.graphql@ == endpoint(https, addr@, "/graphql"@),
        r.mcp@ == endpoint(https, addr@, "/mcp"@),
        r.sql@ == endpoint(https, addr@, "/sql"@),
        r.explorer_url@ == "https://worlds.dev/torii?url="@ + form_encoded(
            encode_utf8(replaced(r.graphql@, "0.0.0.0"@, "localhost"@)),
        ),
{
    let graphql = endpoint_of(https, addr, "/graphql");
    proof {
        reveal_strlit("0.0.0.0");
    }
    let reachable = replace(&graphql, "0.0.0.0", "localhost");
    let encoded = byte_serialize(reachable.as_str().as_bytes());
    Endpoints {
        graphql,
        mcp: endpoint_of(https, addr, "/mcp"),
        sql: endpoint_of(https, addr, "/sql"),
        explorer_url: concat("https://worlds.dev/torii?url=", &encoded),
    }
}

} // verus!
