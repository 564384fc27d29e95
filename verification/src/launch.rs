//! The order in which the program starts, as a machine from stage and event to stage and action.
use vstd::prelude::*;
use vstd::string::*;
use crate::engine::EngineConfig;
use crate::felt::Felt;
use crate::options::{
    copy_aggregators, copy_hooks, copy_indices, same_aggregators, same_hooks, same_indices,
    AggregatorConfig, ContractDefinition, Hook, IpAddress, ModelIndices, ServerOptions,
};
use crate::processors::EventProcessorConfig;
use crate::runner::{
    addresses_in, addresses_of, available_threads, concurrent_tasks, contracts_of, contracts_to_index,
    database_pragmas, default_excluded, endpoint, endpoints, excluded_entrypoints, first_invalid,
    historical_selectors, missing, plan_snapshot, pragma_views, pragmas_of, readonly_connections,
    selectors_of, shares, snapshot_planned, spec_version_supported, strategy_named, tls_config, tls_paths,
    undeployed_contracts, wants_certificates, with_override, AllocationStrategy, Endpoints, Pragma,
    RunError, RuntimeAllocation, SnapshotPlan, TlsConfig, ToriiArgs,
};
use crate::server::proxy::ProxySettings;
use crate::sql::search::SearchConfig;
use crate::sql::writes::copy_felts;
use crate::text::{
    concat, copy_opt, copy_strings, distinct_strings, ends_with, has_prefix, has_suffix, lowercase,
    opt_view, views, without_repeats,
};

verus! {

/// The program: what the operator set, and the version it was built as.
#[derive(Debug)]
pub struct Runner {
    pub args: ToriiArgs,
    pub version_spec: String,
}

/// How far the program has started.
#[derive(Clone, Copy, Debug, PartialEq, Eq, Structural)]
pub enum Stage {
    Begin,
    SpecVersion,
    Contracts,
    Location,
    Snapshot,
    Database,
    Engine,
    Certificates,
    Serving,
    Stopped,
}

/// The tasks of the running program.
#[derive(Clone, Copy, Debug, PartialEq, Eq, Structural)]
pub enum Task {
    Engine,
    Executor,
    Proxy,
    GraphQl,
    Grpc,
    Relay,
}

/// How a task ended.
#[derive(Debug)]
pub enum TaskEnd {
    Finished,
    Failed(String),
    Panicked(String),
}

/// What the surroundings report.
#[derive(Debug)]
pub enum LaunchEvent {
    Started,
    /// The version of the provider's interface, if it told.
    SpecVersion(Option<String>),
    /// For each contract whether its class was found.
    Deployed(Vec<bool>),
    /// Whether a database exists at the path.
    Located { exists: bool },
    /// Whether the snapshot was downloaded.
    SnapshotDone(bool),
    /// The pools are open and the migrations have run.
    DatabaseReady,
    EngineReady,
    /// The paths of certificate and key, if they were made.
    CertificatesDone(Option<(String, String)>),
    /// The certificates could not be used, for that reason.
    TlsFailed(String),
    TaskEnded { task: Task, end: TaskEnd },
    Signal,
}

/// How the database is opened. It writes ahead to a log, is never vacuumed on its own, and is
/// synchronised in the normal way.
#[derive(Debug)]
pub struct DatabasePlan {
    pub allocation: RuntimeAllocation,
    pub pragmas: Vec<Pragma>,
    pub shared_cache: bool,
    /// Milliseconds to wait for a connection.
    pub acquire_timeout_ms: u64,
    /// Milliseconds after which an idle connection is closed.
    pub idle_timeout_ms: u64,
    /// Connections for queries; there is one for writes.
    pub min_connections: u32,
    pub max_connections: u32,
    /// A directory of migrations that run together with those built in.
    pub migrations: Option<String>,
}

/// How the storage is set up.
#[derive(Debug)]
pub struct StoragePlan {
    /// The contracts to index.
    pub contracts: Vec<ContractDefinition>,
    pub all_model_indices: bool,
    pub model_indices: Vec<ModelIndices>,
    pub hooks: Vec<Hook>,
    pub aggregators: Vec<AggregatorConfig>,
    /// Indices are listed although all members get one.
    pub warn_indices: bool,
    pub historical_models: Vec<Felt>,
    pub wal_truncate_size_threshold: u64,
    pub optimize_interval: u64,
    pub activity_enabled: bool,
    pub activity_session_timeout: u64,
    pub activity_excluded_entrypoints: Vec<String>,
    pub token_attributes: bool,
    pub trait_counts: bool,
    pub achievement_registration_model_name: String,
    pub achievement_progression_model_name: String,
    pub search: SearchConfig,
}

/// How blocks and events are fetched.
#[derive(Clone, Copy, Debug, PartialEq, Eq, Structural)]
pub struct FetcherConfig {
    pub batch_chunk_size: usize,
    pub blocks_chunk_size: u64,
    pub events_chunk_size: u64,
    pub world_block: u64,
    pub transactions: bool,
    pub transaction_receipts: bool,
    pub preconfirmed: bool,
}

/// How the engine is set up.
#[derive(Debug)]
pub struct EnginePlan {
    pub config: EngineConfig,
    pub fetcher: FetcherConfig,
    pub controllers: bool,
}

/// A runtime of its own: its threads, their name and the bytes of their stacks.
#[derive(Debug)]
pub struct RuntimePlan {
    pub threads: usize,
    pub name: &'static str,
    pub stack_size: usize,
}

/// How the gRPC server is set up.
#[derive(Clone, Copy, Debug, PartialEq, Eq, Structural)]
pub struct GrpcPlan {
    pub addr: IpAddress,
    pub port: u16,
    pub subscription_buffer_size: usize,
    pub optimistic: bool,
    /// Seconds, as the two after it.
    pub tcp_keepalive_interval: u64,
    pub http2_keepalive_interval: u64,
    pub http2_keepalive_timeout: u64,
    pub max_message_size: usize,
    pub raw_sql: bool,
}

/// Which messages are taken: their age in milliseconds, how far they may lie ahead, and whether they
/// need a time.
#[derive(Clone, Copy, Debug, PartialEq, Eq, Structural)]
pub struct MessagingPlan {
    pub max_age: u64,
    pub future_tolerance: u64,
    pub require_timestamp: bool,
}

/// How the relay is set up.
#[derive(Debug)]
pub struct RelayPlan {
    pub port: u16,
    pub webrtc_port: u16,
    pub websocket_port: u16,
    pub local_key_path: Option<String>,
    pub cert_path: Option<String>,
    pub peers: Vec<String>,
}

/// How the servers are set up.
#[derive(Debug)]
pub struct ServePlan {
    /// Where images are kept; in a temporary directory where no path is given.
    pub artifacts_path: Option<String>,
    pub messaging: MessagingPlan,
    pub relay: RelayPlan,
    pub grpc: GrpcPlan,
    pub tls: Option<TlsConfig>,
    /// Only one of certificate and key is there.
    pub tls_incomplete: bool,
    /// Certificates were to be made, but paths are given.
    pub warn_explicit_paths: bool,
    /// Who may read the answers; nobody else where the list is empty.
    pub cors_origins: Option<Vec<String>>,
    pub proxy_settings: ProxySettings,
    /// The version that the servers tell.
    pub version_spec: String,
    pub endpoints: Endpoints,
    pub serve_sql: bool,
    pub open_explorer: bool,
    /// Address and port of the metrics, where they are on.
    pub metrics: Option<(IpAddress, u16)>,
    pub query_runtime: RuntimePlan,
    pub indexer_runtime: RuntimePlan,
}

/// What the surroundings are to do.
#[derive(Debug)]
pub enum LaunchAction {
    /// The event does not belong to the stage.
    Ignore,
    /// The options are written down where that is asked for, and the provider is asked for its
    /// version under that name.
    QuerySpecVersion { dump_config: bool, user_agent: String },
    CheckContracts { contracts: Vec<ContractDefinition>, warn_version: bool },
    /// The database is at the path, or in a temporary file.
    LocateDatabase { path: Option<String>, warn_version: bool },
    DownloadSnapshot { warn_version: bool },
    OpenDatabase(DatabasePlan),
    StartEngine { storage: StoragePlan, engine: EnginePlan },
    MakeCertificates,
    Serve(ServePlan),
    Stop(Result<(), RunError>),
}

/// The name of a task.
pub open spec fn task_label(t: Task) -> Seq<char> {
    match t {
        Task::Engine => "Engine"@,
        Task::Executor => "Executor"@,
        Task::Proxy => "Proxy server"@,
        Task::GraphQl => "GraphQL server"@,
        Task::Grpc => "gRPC server"@,
        Task::Relay => "LibP2P relay"@,
    }
}

/// The name of a task.
pub fn task_name(t: Task) -> (r: &'static str)
    ensures
        r@ == task_label(t),
{
    match t {
        Task::Engine => "Engine",
        Task::Executor => "Executor",
        Task::Proxy => "Proxy server",
        Task::GraphQl => "GraphQL server",
        Task::Grpc => "gRPC server",
        Task::Relay => "LibP2P relay",
    }
}

/// Whether the outcome is the one of a task that ended so.
pub open spec fn outcome_of(t: Task, end: TaskEnd, r: Result<(), RunError>) -> bool {
    match end {
        TaskEnd::Finished => r is Ok,
        TaskEnd::Failed(e) => r matches Err(RunError::TaskFailed { task, error }) && task@
            == task_label(t) && error@ == e@,
        TaskEnd::Panicked(e) => r matches Err(RunError::TaskPanicked { task, error }) && task@
            == task_label(t) && error@ == e@,
    }
}

/// What the program ends with when a task ended.
pub fn handle_task(t: Task, end: &TaskEnd) -> (r: Result<(), RunError>)
    ensures
        outcome_of(t, *end, r),
{
    match end {
        TaskEnd::Finished => Ok(()),
        TaskEnd::Failed(e) => Err(RunError::TaskFailed { task: task_name(t), error: e.clone() }),
        TaskEnd::Panicked(e) => Err(RunError::TaskPanicked { task: task_name(t), error: e.clone() }),
    }
}

impl RunError {
    /// The fixed part of the message for the operator.
    pub open spec fn text(self) -> Seq<char> {
        match self {
            RunError::ContractsNotDeployed(_) => "The following contracts are not deployed: "@,
            RunError::SnapshotFailed => "Failed to download snapshot."@,
            RunError::DatabaseExists => "Database file already exists at the specified path."@,
            RunError::ActivityNeedsTransactions =>
                "Activity tracking is enabled but transaction indexing is disabled. Activity tracking requires transaction data to function. Please enable transaction indexing with --indexing.transactions or disable activity tracking with --activity.enabled=false"@,
            RunError::InvalidModelTag(t) => "Invalid model tag: "@ + t@,
            RunError::TlsFailed(e) => "Failed to configure TLS: "@ + e@,
            RunError::TaskFailed { task, error } => task@ + " failed: "@ + error@,
            RunError::TaskPanicked { task, error } => task@ + " task panicked: "@ + error@,
        }
    }

    /// The message for the operator; for contracts that are not deployed, what stands before their
    /// list.
    pub fn message(&self) -> (r: String)
        ensures
            r@ == self.text(),
    {
        match self {
            RunError::ContractsNotDeployed(_) =>
                "The following contracts are not deployed: ".to_owned(),
            RunError::SnapshotFailed => "Failed to download snapshot.".to_owned(),
            RunError::DatabaseExists =>
                "Database file already exists at the specified path.".to_owned(),
            RunError::ActivityNeedsTransactions =>
                "Activity tracking is enabled but transaction indexing is disabled. Activity tracking requires transaction data to function. Please enable transaction indexing with --indexing.transactions or disable activity tracking with --activity.enabled=false".to_owned(),
            RunError::InvalidModelTag(t) => concat("Invalid model tag: ", t),
            RunError::TlsFailed(e) => concat("Failed to configure TLS: ", e),
            RunError::TaskFailed { task, error } => concat(&concat(task, " failed: "), error),
            RunError::TaskPanicked { task, error } => concat(
                &concat(task, " task panicked: "),
                error,
            ),
        }
    }
}

/// The number of threads of each runtime that the options lead to.
pub open spec fn allocation_of(args: ToriiArgs, cpu_count: int) -> (int, int) {
    let s = shares(
        available_threads(cpu_count),
        strategy_named(lowercase(args.runner.allocation_strategy@)),
    );
    (
        with_override(args.runner.query_threads as int, s.0, cpu_count),
        with_override(args.runner.indexer_threads as int, s.1, cpu_count),
    )
}

/// The path of the database in a directory.
pub open spec fn database_path(dir: Seq<char>) -> Seq<char> {
    if dir.len() == 0 || has_suffix(dir, "/"@) {
        dir + "torii.db"@
    } else {
        dir + "/"@ + "torii.db"@
    }
}

/// The path of the database, where a directory is given.
pub open spec fn path_located(args: ToriiArgs) -> Option<Seq<char>> {
    match args.db_dir {
        Some(d) => Some(database_path(d@)),
        None => None,
    }
}

/// Whether the plan opens the database as the options say.
pub open spec fn database_planned(args: ToriiArgs, cpu_count: int, p: DatabasePlan) -> bool {
    let threads = allocation_of(args, cpu_count);
    let wanted = threads.0 * 2 % 0x1_0000_0000;
    let max = if args.sql.max_connections >= wanted {
        args.sql.max_connections as int
    } else {
        wanted
    };
    &&& p.allocation.query_threads == threads.0
    &&& p.allocation.indexer_threads == threads.1
    &&& p.allocation.main_threads == 1
    &&& pragma_views(p.pragmas@) == pragmas_of(args.sql, cpu_count as nat)
    &&& p.shared_cache == args.sql.shared_cache
    &&& p.acquire_timeout_ms == args.sql.acquire_timeout
    &&& p.idle_timeout_ms == args.sql.idle_timeout
    &&& p.max_connections == max
    &&& p.min_connections == (if max < 4 {
        max
    } else {
        4
    })
    &&& opt_view(p.migrations) == opt_view(args.sql.migrations)
}

/// Whether the plan sets the storage up as the options say.
pub open spec fn storage_planned(args: ToriiArgs, p: StoragePlan) -> bool {
    &&& p.contracts@ == contracts_of(args)
    &&& p.all_model_indices == args.sql.all_model_indices
    &&& same_indices(p.model_indices@, args.sql.model_indices@)
    &&& same_hooks(p.hooks@, args.sql.hooks@)
    &&& same_aggregators(p.aggregators@, args.sql.aggregators@)
    &&& p.warn_indices == (args.sql.all_model_indices && args.sql.model_indices@.len() > 0)
    &&& first_invalid(views(args.sql.historical@)) is None
    &&& p.historical_models@ == without_repeats(selectors_of(views(args.sql.historical@)))
    &&& p.wal_truncate_size_threshold == args.sql.wal_truncate_size_threshold
    &&& p.optimize_interval == args.sql.optimize_interval
    &&& p.activity_enabled == args.activity.activity_enabled
    &&& p.activity_session_timeout == args.activity.session_timeout
    &&& views(p.activity_excluded_entrypoints@) == (if args.activity.excluded_entrypoints@.len()
        == 0 {
        default_excluded()
    } else {
        without_repeats(views(args.activity.excluded_entrypoints@))
    })
    &&& p.token_attributes == args.erc.token_attributes
    &&& p.trait_counts == args.erc.trait_counts
    &&& p.achievement_registration_model_name@ == args.achievement.registration_model_name@
    &&& p.achievement_progression_model_name@ == args.achievement.progression_model_name@
    &&& p.search == (SearchConfig {
        max_results: args.search.max_results,
        min_query_length: args.search.min_query_length,
        prefix_matching: args.search.prefix_matching,
        return_snippets: args.search.return_snippets,
        snippet_length: args.search.snippet_length,
    })
}

/// Whether the plan lets the processors index what the options say.
pub open spec fn processors_planned(args: ToriiArgs, c: EventProcessorConfig) -> bool {
    &&& c.strict_model_reader == args.indexing.strict_model_reader
    &&& views(c.namespaces@) == without_repeats(views(args.indexing.namespaces@))
    &&& c.historical_models@ == without_repeats(selectors_of(views(args.sql.historical@)))
    &&& c.max_metadata_tasks == args.erc.max_metadata_tasks
    &&& views(c.models@) == without_repeats(views(args.indexing.models@))
    &&& c.external_contracts == args.indexing.external_contracts
    &&& views(c.external_contract_whitelist@) == without_repeats(
        views(args.indexing.external_contract_whitelist@),
    )
    &&& c.metadata_updates == args.erc.metadata_updates
    &&& c.metadata_update_whitelist@.map_values(|f: Felt| f.value()) == addresses_in(
        views(args.erc.metadata_update_whitelist@),
    )
    &&& c.metadata_update_blacklist@.map_values(|f: Felt| f.value()) == addresses_in(
        views(args.erc.metadata_update_blacklist@),
    )
    &&& c.metadata_updates_only_at_head == args.erc.metadata_updates_only_at_head
    &&& c.async_metadata_updates == args.erc.async_metadata_updates
}

/// Whether the plan sets the engine up as the options say.
pub open spec fn engine_planned(args: ToriiArgs, cpu_count: int, p: EnginePlan) -> bool {
    let wanted = allocation_of(args, cpu_count).1 * 8;
    &&& p.config.max_concurrent_tasks == (if args.indexing.max_concurrent_tasks != 100 {
        args.indexing.max_concurrent_tasks as int
    } else if wanted < 50 {
        50
    } else if wanted > 500 {
        500
    } else {
        wanted
    })
    &&& p.config.polling_interval_ms == args.indexing.polling_interval
    &&& p.config.raw_events == args.events.raw
    &&& p.config.world_block == args.indexing.world_block
    &&& processors_planned(args, p.config.event_processor_config)
    &&& p.fetcher == (FetcherConfig {
        batch_chunk_size: args.indexing.batch_chunk_size,
        blocks_chunk_size: args.indexing.blocks_chunk_size,
        events_chunk_size: args.indexing.events_chunk_size,
        world_block: args.indexing.world_block,
        transactions: args.indexing.transactions,
        transaction_receipts: args.indexing.transaction_receipts,
        preconfirmed: args.indexing.preconfirmed,
    })
    &&& p.controllers == args.indexing.controllers
}

/// The origins that may read the answers, where any are listed.
pub open spec fn origins_listed(o: ServerOptions) -> Option<Seq<Seq<char>>> {
    match o.http_cors_origins {
        Some(list) => if list@.len() == 0 {
            None
        } else {
            Some(views(list@))
        },
        None => None,
    }
}

/// The runtime for queries, with stacks of two mebibytes.
pub fn create_query_runtime(threads: usize) -> (r: RuntimePlan)
    ensures
        r.threads == threads,
        r.name@ == "torii-query"@,
        r.stack_size == 2 * 1024 * 1024,
{
    RuntimePlan { threads, name: "torii-query", stack_size: 2 * 1024 * 1024 }
}

/// The runtime for the indexer, with stacks of one mebibyte.
pub fn create_indexer_runtime(threads: usize) -> (r: RuntimePlan)
    ensures
        r.threads == threads,
        r.name@ == "torii-indexer"@,
        r.stack_size == 1024 * 1024,
{
    RuntimePlan { threads, name: "torii-indexer", stack_size: 1024 * 1024 }
}

/// Whether the plan sets the servers up as the options say.
pub open spec fn serve_planned(
    runner: Runner,
    cpu_count: int,
    addr: Seq<char>,
    made: Option<(String, String)>,
    p: ServePlan,
) -> bool {
    let args = runner.args;
    let (cert, key) = tls_paths(args.server, made);
    let https = cert is Some && key is Some;
    let threads = allocation_of(args, cpu_count);
    &&& opt_view(p.artifacts_path) == opt_view(args.erc.artifacts_path)
    &&& p.messaging == (MessagingPlan {
        max_age: args.messaging.max_age,
        future_tolerance: args.messaging.future_tolerance,
        require_timestamp: args.messaging.require_timestamp,
    })
    &&& p.relay.port == args.relay.port
    &&& p.relay.webrtc_port == args.relay.webrtc_port
    &&& p.relay.websocket_port == args.relay.websocket_port
    &&& opt_view(p.relay.local_key_path) == opt_view(args.relay.local_key_path)
    &&& opt_view(p.relay.cert_path) == opt_view(args.relay.cert_path)
    &&& views(p.relay.peers@) == views(args.relay.peers@)
    &&& p.grpc == (GrpcPlan {
        addr: args.grpc.grpc_addr,
        port: args.grpc.grpc_port,
        subscription_buffer_size: args.grpc.subscription_buffer_size,
        optimistic: args.grpc.optimistic,
        tcp_keepalive_interval: args.grpc.tcp_keepalive_interval,
        http2_keepalive_interval: args.grpc.http2_keepalive_interval,
        http2_keepalive_timeout: args.grpc.http2_keepalive_timeout,
        max_message_size: args.grpc.max_message_size,
        raw_sql: args.server.raw_sql,
    })
    &&& p.tls is Some == https
    &&& p.tls matches Some(t) ==> cert == Some(t.cert_path@) && key == Some(t.key_path@)
    &&& p.tls_incomplete == ((cert is Some) != (key is Some))
    &&& p.warn_explicit_paths == (args.server.mkcert && (args.server.tls_cert_path is Some
        || args.server.tls_key_path is Some))
    &&& match p.cors_origins {
        Some(list) => origins_listed(args.server) == Some(views(list@)),
        None => origins_listed(args.server) is None,
    }
    &&& p.proxy_settings == (ProxySettings {
        tcp_keepalive_interval: args.grpc.tcp_keepalive_interval,
        http2_keepalive_interval: args.grpc.http2_keepalive_interval,
        http2_keepalive_timeout: args.grpc.http2_keepalive_timeout,
    })
    &&& p.version_spec@ == runner.version_spec@
    &&& p.endpoints.graphql@ == endpoint(https, addr, "/graphql"@)
    &&& p.endpoints.mcp@ == endpoint(https, addr, "/mcp"@)
    &&& p.endpoints.sql@ == endpoint(https, addr, "/sql"@)
    &&& p.endpoints.explorer_url@ == "https://worlds.dev/torii?url="@ + crate::runner::form_encoded(
        vstd::utf8::encode_utf8(
            crate::text::replaced(endpoint(https, addr, "/graphql"@), "0.0.0.0"@, "localhost"@),
        ),
    )
    &&& p.serve_sql == args.server.raw_sql
    &&& p.open_explorer == args.runner.explorer
    &&& p.metrics == (if args.metrics.metrics {
        Some((args.metrics.metrics_addr, args.metrics.metrics_port))
    } else {
        None
    })
    &&& p.query_runtime.threads == threads.0
    &&& p.query_runtime.name@ == "torii-query"@
    &&& p.query_runtime.stack_size == 2 * 1024 * 1024
    &&& p.indexer_runtime.threads == threads.1
    &&& p.indexer_runtime.name@ == "torii-indexer"@
    &&& p.indexer_runtime.stack_size == 1024 * 1024
}

/// Whether the options let the engine start: activity tracking only with transactions.
pub open spec fn activity_allowed(args: ToriiArgs) -> bool {
    args.activity.activity_enabled ==> args.indexing.transactions
}

/// Whether the action locates the database.
pub open spec fn locates(args: ToriiArgs, warn: bool, action: LaunchAction) -> bool {
    action matches LaunchAction::LocateDatabase { path, warn_version } && opt_view(path)
        == path_located(args) && warn_version == warn
}

/// Whether going from `stage` on `event` to `to`, doing `action`, is the next step of the start.
pub open spec fn step_taken(
    runner: Runner,
    cpu_count: int,
    addr: Seq<char>,
    stage: Stage,
    event: LaunchEvent,
    to: Stage,
    action: LaunchAction,
) -> bool {
    let args = runner.args;
    match (stage, event) {
        (Stage::Begin, LaunchEvent::Started) => to == Stage::SpecVersion && (
        action matches LaunchAction::QuerySpecVersion { dump_config, user_agent } && dump_config
            == args.dump_config is Some && user_agent@ == "Torii/"@ + runner.version_spec@),
        (Stage::SpecVersion, LaunchEvent::SpecVersion(v)) => {
            let warn = v is None || !has_prefix(v->0@, "0.9"@);
            if args.runner.check_contracts {
                to == Stage::Contracts && (action matches LaunchAction::CheckContracts {
                    contracts,
                    warn_version,
                } && contracts@ == contracts_of(args) && warn_version == warn)
            } else {
                to == Stage::Location && locates(args, warn, action)
            }
        },
        (Stage::Contracts, LaunchEvent::Deployed(d)) => {
            let gone = missing(contracts_of(args), d@);
            if gone.len() == 0 {
                to == Stage::Location && locates(args, false, action)
            } else {
                to == Stage::Stopped && (action matches LaunchAction::Stop(
                    Err(RunError::ContractsNotDeployed(list)),
                ) && list@ == gone)
            }
        },
        (Stage::Location, LaunchEvent::Located { exists }) => match snapshot_planned(
            args.snapshot,
            args.db_dir,
            exists,
            runner.version_spec@,
        ) {
            SnapshotPlan::Skip => to == Stage::Database && (action matches LaunchAction::OpenDatabase(
                p,
            ) && database_planned(args, cpu_count, p)),
            SnapshotPlan::Download { version_differs } => to == Stage::Snapshot && action
                == LaunchAction::DownloadSnapshot { warn_version: version_differs },
            SnapshotPlan::Refuse => to == Stage::Stopped && action == LaunchAction::Stop(
                Err(RunError::DatabaseExists),
            ),
        },
        (Stage::Snapshot, LaunchEvent::SnapshotDone(ok)) => if ok {
            to == Stage::Database && (action matches LaunchAction::OpenDatabase(p)
                && database_planned(args, cpu_count, p))
        } else {
            to == Stage::Stopped && action == LaunchAction::Stop(Err(RunError::SnapshotFailed))
        },
        (Stage::Database, LaunchEvent::DatabaseReady) => if !activity_allowed(args) {
            to == Stage::Stopped && action == LaunchAction::Stop(
                Err(RunError::ActivityNeedsTransactions),
            )
        } else {
            match first_invalid(views(args.sql.historical@)) {
                None => to == Stage::Engine && (action matches LaunchAction::StartEngine {
                    storage,
                    engine,
                } && storage_planned(args, storage) && engine_planned(args, cpu_count, engine)),
                Some(tag) => to == Stage::Stopped && (action matches LaunchAction::Stop(
                    Err(RunError::InvalidModelTag(t)),
                ) && t@ == tag),
            }
        },
        (Stage::Engine, LaunchEvent::EngineReady) => if args.server.mkcert
            && args.server.tls_cert_path is None && args.server.tls_key_path is None {
            to == Stage::Certificates && action == LaunchAction::MakeCertificates
        } else {
            to == Stage::Serving && (action matches LaunchAction::Serve(p) && serve_planned(
                runner,
                cpu_count,
                addr,
                None,
                p,
            ))
        },
        (Stage::Certificates, LaunchEvent::CertificatesDone(made)) => to == Stage::Serving && (
        action matches LaunchAction::Serve(p) && serve_planned(runner, cpu_count, addr, made, p)),
        (Stage::Serving, LaunchEvent::TlsFailed(e)) => to == Stage::Stopped && (
        action matches LaunchAction::Stop(Err(RunError::TlsFailed(t))) && t@ == e@),
        (Stage::Serving, LaunchEvent::TaskEnded { task, end }) => to == Stage::Stopped && (
        action matches LaunchAction::Stop(r) && outcome_of(task, end, r)),
        (Stage::Serving, LaunchEvent::Signal) => to == Stage::Stopped && action
            == LaunchAction::Stop(Ok(())),
        _ => to == stage && action == LaunchAction::Ignore,
    }
}

/// The greatest number of processors for which all thread counts can be computed.
pub open spec fn processors_in_range(cpu_count: int) -> bool {
    cpu_count * 8 <= usize::MAX
}

impl Runner {
    /// The program with what the operator set.
    pub fn new(args: ToriiArgs, version_spec: String) -> (r: Runner)
        ensures
            r.args == args,
            r.version_spec == version_spec,
    {
        Runner { args, version_spec }
    }

    /// The number of threads of each runtime.
    pub fn allocation(&self, cpu_count: usize) -> (r: RuntimeAllocation)
        requires
            processors_in_range(cpu_count as int),
        ensures
            r.query_threads == allocation_of(self.args, cpu_count as int).0,
            r.indexer_threads == allocation_of(self.args, cpu_count as int).1,
            r.main_threads == 1,
    {
        let strategy = AllocationStrategy::from(self.args.runner.allocation_strategy.as_str());
        RuntimeAllocation::calculate(
            cpu_count,
            &strategy,
            self.args.runner.query_threads,
            self.args.runner.indexer_threads,
        )
    }

    /// How the database is opened.
    fn plan_database(&self, cpu_count: usize) -> (r: DatabasePlan)
        requires
            processors_in_range(cpu_count as int),
        ensures
            database_planned(self.args, cpu_count as int, r),
    {
        let allocation = self.allocation(cpu_count);
        let (min_connections, max_connections) = readonly_connections(
            &self.args.sql,
            allocation.query_threads,
        );
        DatabasePlan {
            allocation,
            pragmas: database_pragmas(&self.args.sql, cpu_count),
            shared_cache: self.args.sql.shared_cache,
            acquire_timeout_ms: self.args.sql.acquire_timeout,
            idle_timeout_ms: self.args.sql.idle_timeout,
            min_connections,
            max_connections,
            migrations: copy_opt(&self.args.sql.migrations),
        }
    }

    /// Where the database is.
    fn locate(&self, warn_version: bool) -> (r: LaunchAction)
        ensures
            locates(self.args, warn_version, r),
    {
        let path = match &self.args.db_dir {
            Some(dir) => if dir.as_str().is_empty() || ends_with(dir, "/") {
                Some(concat(dir, "torii.db"))
            } else {
                Some(concat(&concat(dir, "/"), "torii.db"))
            },
            None => None,
        };
        LaunchAction::LocateDatabase { path, warn_version }
    }

    /// How the storage is set up, with the models whose history is kept.
    fn plan_storage(&self, historical_models: Vec<Felt>) -> (r: StoragePlan)
        requires
            first_invalid(views(self.args.sql.historical@)) is None,
            historical_models@ == without_repeats(selectors_of(views(self.args.sql.historical@))),
        ensures
            storage_planned(self.args, r),
    {
        StoragePlan {
            contracts: contracts_to_index(&self.args),
            all_model_indices: self.args.sql.all_model_indices,
            model_indices: copy_indices(&self.args.sql.model_indices),
            hooks: copy_hooks(&self.args.sql.hooks),
            aggregators: copy_aggregators(&self.args.sql.aggregators),
            warn_indices: self.args.sql.all_model_indices && self.args.sql.model_indices.len() > 0,
            historical_models,
            wal_truncate_size_threshold: self.args.sql.wal_truncate_size_threshold,
            optimize_interval: self.args.sql.optimize_interval,
            activity_enabled: self.args.activity.activity_enabled,
            activity_session_timeout: self.args.activity.session_timeout,
            activity_excluded_entrypoints: excluded_entrypoints(&self.args.activity),
            token_attributes: self.args.erc.token_attributes,
            trait_counts: self.args.erc.trait_counts,
            achievement_registration_model_name: self.args.achievement.registration_model_name.clone(),
            achievement_progression_model_name: self.args.achievement.progression_model_name.clone(),
            search: SearchConfig {
                max_results: self.args.search.max_results,
                min_query_length: self.args.search.min_query_length,
                prefix_matching: self.args.search.prefix_matching,
                return_snippets: self.args.search.return_snippets,
                snippet_length: self.args.search.snippet_length,
            },
        }
    }

    /// How the engine is set up, with the models whose history is kept.
    fn plan_engine(&self, cpu_count: usize, historical_models: Vec<Felt>) -> (r: EnginePlan)
        requires
            processors_in_range(cpu_count as int),
            historical_models@ == without_repeats(selectors_of(views(self.args.sql.historical@))),
        ensures
            engine_planned(self.args, cpu_count as int, r),
    {
        let allocation = self.allocation(cpu_count);
        let indexing = &self.args.indexing;
        let erc = &self.args.erc;
        let event_processor_config = EventProcessorConfig {
            namespaces: distinct_strings(&indexing.namespaces),
            strict_model_reader: indexing.strict_model_reader,
            historical_models,
            max_metadata_tasks: erc.max_metadata_tasks,
            models: distinct_strings(&indexing.models),
            external_contracts: indexing.external_contracts,
            external_contract_whitelist: distinct_strings(&indexing.external_contract_whitelist),
            metadata_updates: erc.metadata_updates,
            metadata_update_whitelist: addresses_of(&erc.metadata_update_whitelist),
            metadata_update_blacklist: addresses_of(&erc.metadata_update_blacklist),
            metadata_updates_only_at_head: erc.metadata_updates_only_at_head,
            async_metadata_updates: erc.async_metadata_updates,
        };
        let config = EngineConfig {
            max_concurrent_tasks: concurrent_tasks(
                indexing.max_concurrent_tasks,
                allocation.indexer_threads,
            ),
            polling_interval_ms: indexing.polling_interval,
            raw_events: self.args.events.raw,
            event_processor_config,
            world_block: indexing.world_block,
        };
        let fetcher = FetcherConfig {
            batch_chunk_size: indexing.batch_chunk_size,
            blocks_chunk_size: indexing.blocks_chunk_size,
            events_chunk_size: indexing.events_chunk_size,
            world_block: indexing.world_block,
            transactions: indexing.transactions,
            transaction_receipts: indexing.transaction_receipts,
            preconfirmed: indexing.preconfirmed,
        };
        EnginePlan { config, fetcher, controllers: indexing.controllers }
    }

    /// How storage and engine are set up, unless the options forbid it.
    fn plan_indexing(&self, cpu_count: usize) -> (r: Result<(StoragePlan, EnginePlan), RunError>)
        requires
            processors_in_range(cpu_count as int),
        ensures
            match r {
                Ok(p) => activity_allowed(self.args) && storage_planned(self.args, p.0)
                    && engine_planned(self.args, cpu_count as int, p.1),
                Err(e) => if activity_allowed(self.args) {
                    e matches RunError::InvalidModelTag(t) && first_invalid(
                        views(self.args.sql.historical@),
                    ) == Some(t@)
                } else {
                    e == RunError::ActivityNeedsTransactions
                },
            },
    {
        if self.args.activity.activity_enabled && !self.args.indexing.transactions {
            return Err(RunError::ActivityNeedsTransactions);
        }
        let historical = match historical_selectors(&self.args.sql.historical) {
            Ok(v) => v,
            Err(e) => {
                return Err(e);
            },
        };
        let engine = self.plan_engine(cpu_count, copy_felts(&historical));
        Ok((self.plan_storage(historical), engine))
    }

    /// How the servers are set up.
    fn plan_servers(&self, cpu_count: usize, addr: &str, made: &Option<(String, String)>) -> (r:
        ServePlan)
        requires
            processors_in_range(cpu_count as int),
        ensures
            serve_planned(*self, cpu_count as int, addr@, *made, r),
    {
        let server = &self.args.server;
        let grpc = &self.args.grpc;
        let (tls, tls_incomplete) = tls_config(server, made);
        let https = tls.is_some();
        let allocation = self.allocation(cpu_count);
        let cors_origins = match &server.http_cors_origins {
            Some(list) => if list.len() == 0 {
                None
            } else {
                Some(copy_strings(list))
            },
            None => None,
        };
        let relay = &self.args.relay;
        ServePlan {
            artifacts_path: copy_opt(&self.args.erc.artifacts_path),
            messaging: MessagingPlan {
                max_age: self.args.messaging.max_age,
                future_tolerance: self.args.messaging.future_tolerance,
                require_timestamp: self.args.messaging.require_timestamp,
            },
            relay: RelayPlan {
                port: relay.port,
                webrtc_port: relay.webrtc_port,
                websocket_port: relay.websocket_port,
                local_key_path: copy_opt(&relay.local_key_path),
                cert_path: copy_opt(&relay.cert_path),
                peers: copy_strings(&relay.peers),
            },
            grpc: GrpcPlan {
                addr: grpc.grpc_addr,
                port: grpc.grpc_port,
                subscription_buffer_size: grpc.subscription_buffer_size,
                optimistic: grpc.optimistic,
                tcp_keepalive_interval: grpc.tcp_keepalive_interval,
                http2_keepalive_interval: grpc.http2_keepalive_interval,
                http2_keepalive_timeout: grpc.http2_keepalive_timeout,
                max_message_size: grpc.max_message_size,
                raw_sql: server.raw_sql,
            },
            tls,
            tls_incomplete,
            warn_explicit_paths: server.mkcert && (server.tls_cert_path.is_some()
                || server.tls_key_path.is_some()),
            cors_origins,
            proxy_settings: ProxySettings {
                tcp_keepalive_interval: grpc.tcp_keepalive_interval,
                http2_keepalive_interval: grpc.http2_keepalive_interval,
                http2_keepalive_timeout: grpc.http2_keepalive_timeout,
            },
            version_spec: self.version_spec.clone(),
            endpoints: endpoints(https, addr),
            serve_sql: server.raw_sql,
            open_explorer: self.args.runner.explorer,
            metrics: if self.args.metrics.metrics {
                Some((self.args.metrics.metrics_addr, self.args.metrics.metrics_port))
            } else {
                None
            },
            query_runtime: create_query_runtime(allocation.query_threads),
            indexer_runtime: create_indexer_runtime(allocation.indexer_threads),
        }
    }

    /// The next step of the start: the stage reached and what is to be done. `cpu_count` is the
    /// number of processors and `addr` the address of the HTTP server.
    pub fn run(
        &self,
        cpu_count: usize,
        addr: &str,
        stage: Stage,
        event: &LaunchEvent,
    ) -> (r: (Stage, LaunchAction))
        requires
            processors_in_range(cpu_count as int),
        ensures
            step_taken(*self, cpu_count as int, addr@, stage, *event, r.0, r.1),
    {
        match (stage, event) {
            (Stage::Begin, LaunchEvent::Started) => (
                Stage::SpecVersion,
                LaunchAction::QuerySpecVersion {
                    dump_config: self.args.dump_config.is_some(),
                    user_agent: concat("Torii/", &self.version_spec),
                },
            ),
            (Stage::SpecVersion, LaunchEvent::SpecVersion(v)) => {
                let warn_version = match v {
                    Some(version) => !spec_version_supported(version),
                    None => true,
                };
                if self.args.runner.check_contracts {
                    let contracts = contracts_to_index(&self.args);
                    (Stage::Contracts, LaunchAction::CheckContracts { contracts, warn_version })
                } else {
                    (Stage::Location, self.locate(warn_version))
                }
            },
            (Stage::Contracts, LaunchEvent::Deployed(d)) => {
                let contracts = contracts_to_index(&self.args);
                let gone = undeployed_contracts(&contracts, d);
                if gone.len() == 0 {
                    (Stage::Location, self.locate(false))
                } else {
                    (Stage::Stopped, LaunchAction::Stop(Err(RunError::ContractsNotDeployed(gone))))
                }
            },
            (Stage::Location, LaunchEvent::Located { exists }) => match plan_snapshot(
                &self.args.snapshot,
                &self.args.db_dir,
                *exists,
                &self.version_spec,
            ) {
                SnapshotPlan::Skip => (
                    Stage::Database,
                    LaunchAction::OpenDatabase(self.plan_database(cpu_count)),
                ),
                SnapshotPlan::Download { version_differs } => (
                    Stage::Snapshot,
                    LaunchAction::DownloadSnapshot { warn_version: version_differs },
                ),
                SnapshotPlan::Refuse => (
                    Stage::Stopped,
                    LaunchAction::Stop(Err(RunError::DatabaseExists)),
                ),
            },
            (Stage::Snapshot, LaunchEvent::SnapshotDone(ok)) => if *ok {
                (Stage::Database, LaunchAction::OpenDatabase(self.plan_database(cpu_count)))
            } else {
                (Stage::Stopped, LaunchAction::Stop(Err(RunError::SnapshotFailed)))
            },
            (Stage::Database, LaunchEvent::DatabaseReady) => match self.plan_indexing(cpu_count) {
                Ok((storage, engine)) => (
                    Stage::Engine,
                    LaunchAction::StartEngine { storage, engine },
                ),
                Err(e) => (Stage::Stopped, LaunchAction::Stop(Err(e))),
            },
            (Stage::Engine, LaunchEvent::EngineReady) => if wants_certificates(&self.args.server) {
                (Stage::Certificates, LaunchAction::MakeCertificates)
            } else {
                let made: Option<(String, String)> = None;
                (Stage::Serving, LaunchAction::Serve(self.plan_servers(cpu_count, addr, &made)))
            },
            (Stage::Certificates, LaunchEvent::CertificatesDone(made)) => (
                Stage::Serving,
                LaunchAction::Serve(self.plan_servers(cpu_count, addr, made)),
            ),
            (Stage::Serving, LaunchEvent::TlsFailed(e)) => (
                Stage::Stopped,
                LaunchAction::Stop(Err(RunError::TlsFailed(e.clone()))),
            ),
            (Stage::Serving, LaunchEvent::TaskEnded { task, end }) => (
                Stage::Stopped,
                LaunchAction::Stop(handle_task(*task, end)),
            ),
            (Stage::Serving, LaunchEvent::Signal) => (Stage::Stopped, LaunchAction::Stop(Ok(()))),
            _ => (stage, LaunchAction::Ignore),
        }
    }
}

/// The place of a stage in the order of the start.
pub open spec fn stage_rank(s: Stage) -> int {
    match s {
        Stage::Begin => 0,
        Stage::SpecVersion => 1,
        Stage::Contracts => 2,
        Stage::Location => 3,
        Stage::Snapshot => 4,
        Stage::Database => 5,
        Stage::Engine => 6,
        Stage::Certificates => 7,
        Stage::Serving => 8,
        Stage::Stopped => 9,
    }
}

/// The start only goes forward: an event is ignored, or it leads to a later stage.
pub proof fn start_goes_forward(
    runner: Runner,
    cpu_count: usize,
    addr: Seq<char>,
    stage: Stage,
    event: LaunchEvent,
    to: Stage,
    action: LaunchAction,
)
    requires
        step_taken(runner, cpu_count as int, addr, stage, event, to, action),
    ensures
        action == LaunchAction::Ignore || stage_rank(stage) < stage_rank(to),
        action == LaunchAction::Ignore ==> to == stage,
{
}

/// With activity tracking on and transactions off the engine is never started.
pub proof fn activity_needs_transactions(
    runner: Runner,
    cpu_count: usize,
    addr: Seq<char>,
    stage: Stage,
    event: LaunchEvent,
    to: Stage,
    action: LaunchAction,
)
    requires
        step_taken(runner, cpu_count as int, addr, stage, event, to, action),
        runner.args.activity.activity_enabled,
        !runner.args.indexing.transactions,
    ensures
        !(action is StartEngine),
{
}

/// A snapshot is never downloaded over the database of a directory that holds one.
pub proof fn snapshot_spares_existing_database(
    runner: Runner,
    cpu_count: usize,
    addr: Seq<char>,
    to: Stage,
    action: LaunchAction,
)
    requires
        runner.args.db_dir is Some,
        step_taken(
            runner,
            cpu_count as int,
            addr,
            Stage::Location,
            LaunchEvent::Located { exists: true },
            to,
            action,
        ),
    ensures
        !(action is DownloadSnapshot),
        runner.args.snapshot.url is Some ==> to == Stage::Stopped,
{
}

// ---------------------------------------------------------------------------
// The GraphQL server
// ---------------------------------------------------------------------------

/// What happens to the GraphQL server.
#[derive(Clone, Copy, Debug, PartialEq, Eq, Structural)]
pub enum GraphqlEvent {
    Started,
    /// A server was built and the proxy sends requests to it.
    Built,
    /// A model was registered or upgraded.
    ModelUpdated,
    Waited,
    /// There will be no more updates.
    UpdatesEnded,
}

/// What is to be done about it.
#[derive(Clone, Copy, Debug, PartialEq, Eq, Structural)]
pub enum GraphqlAction {
    /// A server is built for the models that there are, and put in the place of the last.
    Build,
    AwaitUpdate,
    /// Seconds to wait.
    Wait { secs: u64 },
    Stop,
}

/// The next step of the GraphQL server, which is built anew, a second later, for each update of the
/// models.
pub open spec fn graphql_next(event: GraphqlEvent) -> GraphqlAction {
    match event {
        GraphqlEvent::Started => GraphqlAction::Build,
        GraphqlEvent::Built => GraphqlAction::AwaitUpdate,
        GraphqlEvent::ModelUpdated => GraphqlAction::Wait { secs: 1 },
        GraphqlEvent::Waited => GraphqlAction::Build,
        GraphqlEvent::UpdatesEnded => GraphqlAction::Stop,
    }
}

/// The next step of the GraphQL server.
pub fn spawn_rebuilding_graphql_server(event: GraphqlEvent) -> (r: GraphqlAction)
    ensures
        r == graphql_next(event),
{
    match event {
        GraphqlEvent::Started => GraphqlAction::Build,
        GraphqlEvent::Built => GraphqlAction::AwaitUpdate,
        GraphqlEvent::ModelUpdated => GraphqlAction::Wait { secs: 1 },
        GraphqlEvent::Waited => GraphqlAction::Build,
        GraphqlEvent::UpdatesEnded => GraphqlAction::Stop,
    }
}

// ---------------------------------------------------------------------------
// Certificates for development
// ---------------------------------------------------------------------------

/// How far the making of certificates has come.
#[derive(Clone, Copy, Debug, PartialEq, Eq, Structural)]
pub enum CertStage {
    Begin,
    Version,
    Directory,
    Install,
    Generate,
    Done,
}

/// What is to be done.
#[derive(Clone, Copy, Debug, PartialEq, Eq, Structural)]
pub enum CertAction {
    /// The program is asked for its version.
    AskVersion,
    MakeDirectory,
    /// The authority is installed.
    InstallAuthority,
    /// Certificate and key for the local host are made.
    MakeCertificate,
    /// Certificate and key are there.
    Finish,
    NotInstalled,
    DirectoryFailed,
    InstallFailed,
    GenerateFailed,
}

/// The next step of making certificates; the first that fails ends it.
pub open spec fn cert_next(stage: CertStage, ok: bool) -> (CertStage, CertAction) {
    match stage {
        CertStage::Begin => (CertStage::Version, CertAction::AskVersion),
        CertStage::Version => if ok {
            (CertStage::Directory, CertAction::MakeDirectory)
        } else {
            (CertStage::Done, CertAction::NotInstalled)
        },
        CertStage::Directory => if ok {
            (CertStage::Install, CertAction::InstallAuthority)
        } else {
            (CertStage::Done, CertAction::DirectoryFailed)
        },
        CertStage::Install => if ok {
            (CertStage::Generate, CertAction::MakeCertificate)
        } else {
            (CertStage::Done, CertAction::InstallFailed)
        },
        CertStage::Generate => if ok {
            (CertStage::Done, CertAction::Finish)
        } else {
            (CertStage::Done, CertAction::GenerateFailed)
        },
        CertStage::Done => (CertStage::Done, CertAction::Finish),
    }
}

/// The next step of making certificates, given whether the last one went well.
pub fn generate_mkcert_certificates(stage: CertStage, ok: bool) -> (r: (CertStage, CertAction))
    ensures
        r == cert_next(stage, ok),
{
    match stage {
        CertStage::Begin => (CertStage::Version, CertAction::AskVersion),
        CertStage::Version => if ok {
            (CertStage::Directory, CertAction::MakeDirectory)
        } else {
            (CertStage::Done, CertAction::NotInstalled)
        },
        CertStage::Directory => if ok {
            (CertStage::Install, CertAction::InstallAuthority)
        } else {
            (CertStage::Done, CertAction::DirectoryFailed)
        },
        CertStage::Install => if ok {
            (CertStage::Generate, CertAction::MakeCertificate)
        } else {
            (CertStage::Done, CertAction::InstallFailed)
        },
        CertStage::Generate => if ok {
            (CertStage::Done, CertAction::Finish)
        } else {
            (CertStage::Done, CertAction::GenerateFailed)
        },
        CertStage::Done => (CertStage::Done, CertAction::Finish),
    }
}

} // verus!
