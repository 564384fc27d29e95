//! What each part of the program is started with, and what leads from one step to the next.
use vstd::prelude::*;
use vstd::string::*;
use vstd::utf8::encode_utf8;
use crate::laws::setup::{addresses_have_their_scheme, runtimes_get_their_threads};
use crate::launch::{
    allocation_of, cert_next, database_path, database_planned, engine_planned, graphql_next,
    outcome_of, serve_planned, step_taken, storage_planned, CertAction, CertStage, DatabasePlan,
    EnginePlan, GraphqlAction, GraphqlEvent, LaunchAction, LaunchEvent, Runner, ServePlan, Stage,
    StoragePlan, Task, TaskEnd,
};
use crate::options::{Aggregation, HookEvent};
use crate::runner::{first_invalid, first_invalid_is_first, form_encoded, RunError, ToriiArgs};
use crate::text::{has_prefix, opt_view, replaced, split, views};

verus! {

// ---------------------------------------------------------------------------
// Plans
// ---------------------------------------------------------------------------
/// The database is opened with the limits that the options set: two connections for each thread of
/// the queries, or more where the operator allows more.
pub proof fn databases_are_opened_as_set(args: ToriiArgs, cpu_count: int, p: DatabasePlan)
    requires
        database_planned(args, cpu_count, p),
    ensures
        p.shared_cache <==> args.sql.shared_cache,
        p.acquire_timeout_ms == args.sql.acquire_timeout,
        p.idle_timeout_ms == args.sql.idle_timeout,
        opt_view(p.migrations) == opt_view(args.sql.migrations),
        p.allocation.main_threads == 1,
        p.min_connections <= 4,
        p.min_connections <= p.max_connections,
        p.min_connections == 4 || p.min_connections == p.max_connections,
        p.max_connections >= args.sql.max_connections,
        p.allocation.query_threads * 2 < 0x1_0000_0000 ==> p.max_connections
            >= p.allocation.query_threads * 2 && (p.max_connections == args.sql.max_connections
            || p.max_connections == p.allocation.query_threads * 2),
{
}

/// The threads that the operator asks for are those of the plan.
pub proof fn plans_hold_the_asked_threads(args: ToriiArgs, cpu_count: int, p: DatabasePlan)
    requires
        cpu_count >= 3,
        database_planned(args, cpu_count, p),
    ensures
        0 < args.runner.query_threads <= cpu_count ==> p.allocation.query_threads
            == args.runner.query_threads,
        0 < args.runner.indexer_threads <= cpu_count ==> p.allocation.indexer_threads
            == args.runner.indexer_threads,
{
    runtimes_get_their_threads(args, cpu_count);
}

/// The storage is set up with the models, activities, tokens, achievements and searches that the
/// options name.
pub proof fn storages_are_set_up_as_set(args: ToriiArgs, p: StoragePlan)
    requires
        storage_planned(args, p),
    ensures
        p.all_model_indices <==> args.sql.all_model_indices,
        p.warn_indices <==> args.sql.all_model_indices && args.sql.model_indices@.len() > 0,
        p.wal_truncate_size_threshold == args.sql.wal_truncate_size_threshold,
        p.optimize_interval == args.sql.optimize_interval,
        p.activity_enabled <==> args.activity.activity_enabled,
        p.activity_session_timeout == args.activity.session_timeout,
        p.token_attributes <==> args.erc.token_attributes,
        p.trait_counts <==> args.erc.trait_counts,
        p.achievement_registration_model_name@ == args.achievement.registration_model_name@,
        p.achievement_progression_model_name@ == args.achievement.progression_model_name@,
        p.search.max_results == args.search.max_results,
        p.search.min_query_length == args.search.min_query_length,
        p.search.prefix_matching <==> args.search.prefix_matching,
        p.search.return_snippets <==> args.search.return_snippets,
        p.search.snippet_length == args.search.snippet_length,
        p.hooks@.len() == args.sql.hooks@.len(),
        p.aggregators@.len() == args.sql.aggregators@.len(),
        p.model_indices@.len() == args.sql.model_indices@.len(),
{
}

/// The hooks, indices and aggregators of the storage are those of the options, one for one.
pub proof fn storages_hold_the_listed_items(args: ToriiArgs, p: StoragePlan, i: int)
    requires
        storage_planned(args, p),
    ensures
        0 <= i < args.sql.hooks@.len() ==> {
            let (a, b) = (p.hooks@[i], args.sql.hooks@[i]);
            &&& a.statement@ == b.statement@
            &&& b.event matches HookEvent::ModelRegistered { model_tag: t } ==> (
            a.event matches HookEvent::ModelRegistered { model_tag: s } && s@ == t@)
            &&& b.event matches HookEvent::ModelUpdated { model_tag: t } ==> (
            a.event matches HookEvent::ModelUpdated { model_tag: s } && s@ == t@)
            &&& b.event matches HookEvent::ModelDeleted { model_tag: t } ==> (
            a.event matches HookEvent::ModelDeleted { model_tag: s } && s@ == t@)
        },
        0 <= i < args.sql.model_indices@.len() ==> {
            let (a, b) = (p.model_indices@[i], args.sql.model_indices@[i]);
            a.model_tag@ == b.model_tag@ && views(a.fields@) == views(b.fields@)
        },
        0 <= i < args.sql.aggregators@.len() ==> {
            let (a, b) = (p.aggregators@[i], args.sql.aggregators@[i]);
            &&& a.id@ == b.id@
            &&& a.model_tag@ == b.model_tag@
            &&& views(a.group_by@) == views(b.group_by@)
            &&& a.order == b.order
            &&& match b.aggregation {
                Aggregation::Latest(t) => a.aggregation matches Aggregation::Latest(s) && s@ == t@,
                Aggregation::Count => a.aggregation is Count,
                Aggregation::Max(t) => a.aggregation matches Aggregation::Max(s) && s@ == t@,
                Aggregation::Min(t) => a.aggregation matches Aggregation::Min(s) && s@ == t@,
                Aggregation::Sum(t) => a.aggregation matches Aggregation::Sum(s) && s@ == t@,
                Aggregation::Avg(t) => a.aggregation matches Aggregation::Avg(s) && s@ == t@,
            }
        },
{
    if 0 <= i < args.sql.hooks@.len() {
        let a = p.hooks@[i];
    }
    if 0 <= i < args.sql.model_indices@.len() {
        let a = p.model_indices@[i];
    }
    if 0 <= i < args.sql.aggregators@.len() {
        let a = p.aggregators@[i];
    }
}

/// The engine polls, fetches and processes as the options say. Tasks run at once as many as the
/// operator sets, or, where the number is left as it is, eight for each thread of the indexer,
/// between fifty and five hundred.
pub proof fn engines_run_as_set(args: ToriiArgs, cpu_count: int, p: EnginePlan)
    requires
        engine_planned(args, cpu_count, p),
    ensures
        p.config.polling_interval_ms == args.indexing.polling_interval,
        p.config.raw_events <==> args.events.raw,
        p.config.world_block == args.indexing.world_block,
        args.indexing.max_concurrent_tasks != 100 ==> p.config.max_concurrent_tasks
            == args.indexing.max_concurrent_tasks,
        args.indexing.max_concurrent_tasks == 100 ==> 50 <= p.config.max_concurrent_tasks <= 500,
        args.indexing.max_concurrent_tasks == 100 && 50 <= allocation_of(args, cpu_count).1 * 8 <= 500
            ==> p.config.max_concurrent_tasks == allocation_of(args, cpu_count).1 * 8,
        args.indexing.max_concurrent_tasks == 100 && allocation_of(args, cpu_count).1 * 8 < 50
            ==> p.config.max_concurrent_tasks == 50,
        args.indexing.max_concurrent_tasks == 100 && allocation_of(args, cpu_count).1 * 8 > 500
            ==> p.config.max_concurrent_tasks == 500,
        p.fetcher.batch_chunk_size == args.indexing.batch_chunk_size,
        p.fetcher.blocks_chunk_size == args.indexing.blocks_chunk_size,
        p.fetcher.events_chunk_size == args.indexing.events_chunk_size,
        p.fetcher.world_block == args.indexing.world_block,
        p.fetcher.transactions <==> args.indexing.transactions,
        p.fetcher.transaction_receipts <==> args.indexing.transaction_receipts,
        p.fetcher.preconfirmed <==> args.indexing.preconfirmed,
        p.controllers <==> args.indexing.controllers,
        p.config.event_processor_config.strict_model_reader <==> args.indexing.strict_model_reader,
        p.config.event_processor_config.max_metadata_tasks == args.erc.max_metadata_tasks,
        p.config.event_processor_config.external_contracts <==> args.indexing.external_contracts,
        p.config.event_processor_config.metadata_updates <==> args.erc.metadata_updates,
        p.config.event_processor_config.metadata_updates_only_at_head
            <==> args.erc.metadata_updates_only_at_head,
        p.config.event_processor_config.async_metadata_updates <==> args.erc.async_metadata_updates,
{
}

/// The servers listen, sign and answer as the options say; TLS is spoken where there are both a
/// certificate and a key.
pub proof fn servers_serve_as_set(
    runner: Runner,
    cpu_count: int,
    addr: Seq<char>,
    made: Option<(String, String)>,
    p: ServePlan,
)
    requires
        serve_planned(runner, cpu_count, addr, made, p),
    ensures
        opt_view(p.artifacts_path) == opt_view(runner.args.erc.artifacts_path),
        p.messaging.max_age == runner.args.messaging.max_age,
        p.messaging.future_tolerance == runner.args.messaging.future_tolerance,
        p.messaging.require_timestamp <==> runner.args.messaging.require_timestamp,
        p.relay.port == runner.args.relay.port,
        p.relay.webrtc_port == runner.args.relay.webrtc_port,
        p.relay.websocket_port == runner.args.relay.websocket_port,
        opt_view(p.relay.local_key_path) == opt_view(runner.args.relay.local_key_path),
        opt_view(p.relay.cert_path) == opt_view(runner.args.relay.cert_path),
        views(p.relay.peers@) == views(runner.args.relay.peers@),
        p.grpc.addr == runner.args.grpc.grpc_addr,
        p.grpc.port == runner.args.grpc.grpc_port,
        p.grpc.subscription_buffer_size == runner.args.grpc.subscription_buffer_size,
        p.grpc.optimistic <==> runner.args.grpc.optimistic,
        p.grpc.tcp_keepalive_interval == runner.args.grpc.tcp_keepalive_interval,
        p.grpc.http2_keepalive_interval == runner.args.grpc.http2_keepalive_interval,
        p.grpc.http2_keepalive_timeout == runner.args.grpc.http2_keepalive_timeout,
        p.grpc.max_message_size == runner.args.grpc.max_message_size,
        p.grpc.raw_sql <==> runner.args.server.raw_sql,
        p.proxy_settings.tcp_keepalive_interval == runner.args.grpc.tcp_keepalive_interval,
        p.proxy_settings.http2_keepalive_interval == runner.args.grpc.http2_keepalive_interval,
        p.proxy_settings.http2_keepalive_timeout == runner.args.grpc.http2_keepalive_timeout,
        p.version_spec@ == runner.version_spec@,
        p.serve_sql <==> runner.args.server.raw_sql,
        p.open_explorer <==> runner.args.runner.explorer,
        p.metrics is Some <==> runner.args.metrics.metrics,
        p.metrics matches Some((a, n)) ==> a == runner.args.metrics.metrics_addr && n
            == runner.args.metrics.metrics_port,
        p.query_runtime.name@ == "torii-query"@,
        p.indexer_runtime.name@ == "torii-indexer"@,
        p.query_runtime.stack_size == 2 * p.indexer_runtime.stack_size,
        p.indexer_runtime.stack_size == 1_048_576,
        p.warn_explicit_paths <==> runner.args.server.mkcert && (runner.args.server.tls_cert_path
            is Some || runner.args.server.tls_key_path is Some),
        !runner.args.server.mkcert ==> {
            let (cert, key) = (runner.args.server.tls_cert_path, runner.args.server.tls_key_path);
            &&& p.tls is Some <==> cert is Some && key is Some
            &&& p.tls matches Some(t) ==> t.cert_path@ == cert->0@ && t.key_path@ == key->0@
            &&& p.tls_incomplete <==> (cert is Some) != (key is Some)
        },
        p.cors_origins is None <==> runner.args.server.http_cors_origins is None
            || runner.args.server.http_cors_origins->0@.len() == 0,
        p.cors_origins matches Some(list) ==> views(list@) == views(
            runner.args.server.http_cors_origins->0@,
        ),
{
}

/// The runtime of the queries and that of the indexer get the threads that the operator asks for
/// each of them.
pub proof fn runtimes_hold_the_asked_threads(
    runner: Runner,
    cpu_count: int,
    addr: Seq<char>,
    made: Option<(String, String)>,
    p: ServePlan,
)
    requires
        cpu_count >= 3,
        serve_planned(runner, cpu_count, addr, made, p),
    ensures
        0 < runner.args.runner.query_threads <= cpu_count ==> p.query_runtime.threads
            == runner.args.runner.query_threads,
        0 < runner.args.runner.indexer_threads <= cpu_count ==> p.indexer_runtime.threads
            == runner.args.runner.indexer_threads,
{
    runtimes_get_their_threads(runner.args, cpu_count);
}

// ---------------------------------------------------------------------------
// Steps
// ---------------------------------------------------------------------------
/// The provider is asked for its version first; a version other than 0.9 is warned of. The
/// contracts are checked where that is asked for, and the database is located next where it is not
/// or where all contracts are there.
pub proof fn contracts_are_checked_where_asked(
    runner: Runner,
    cpu_count: int,
    addr: Seq<char>,
    stage: Stage,
    event: LaunchEvent,
    to: Stage,
    action: LaunchAction,
)
    requires
        step_taken(runner, cpu_count, addr, stage, event, to, action),
    ensures
        stage == Stage::Begin && event is Started ==> to == Stage::SpecVersion && (
        action matches LaunchAction::QuerySpecVersion { dump_config, user_agent } && (dump_config
            <==> runner.args.dump_config is Some) && user_agent@ == "Torii/"@
            + runner.version_spec@),
        stage == Stage::SpecVersion && event is SpecVersion && runner.args.runner.check_contracts ==> to
            == Stage::Contracts && action is CheckContracts,
        stage == Stage::SpecVersion && event is SpecVersion && !runner.args.runner.check_contracts ==> to
            == Stage::Location && action is LocateDatabase,
        stage == Stage::SpecVersion ==> (event matches LaunchEvent::SpecVersion(v) ==> {
            let warn = match v {
                Some(s) => !has_prefix(s@, "0.9"@),
                None => true,
            };
            &&& action matches LaunchAction::CheckContracts { warn_version, .. } ==> warn_version
                == warn
            &&& action matches LaunchAction::LocateDatabase { warn_version, .. } ==> warn_version
                == warn
        }),
        (stage == Stage::SpecVersion && event is SpecVersion) || (stage == Stage::Contracts && event
            is Deployed) ==> (action matches LaunchAction::LocateDatabase { path, .. } ==> match (
            runner.args.db_dir,
            path,
        ) {
            (Some(dir), Some(p)) => p@ == database_path(dir@),
            (None, None) => true,
            _ => false,
        }),
        stage == Stage::Contracts && event is Deployed ==> (to == Stage::Location && action
            is LocateDatabase) || (to == Stage::Stopped && (action matches LaunchAction::Stop(
            Err(RunError::ContractsNotDeployed(list)),
        ) && list@.len() > 0)),
{
}

/// The database is opened once it is located, after the snapshot where one is got; without the
/// snapshot asked for, or with a database in its place, the program stops and says so.
pub proof fn databases_are_opened_after_snapshots(
    runner: Runner,
    cpu_count: int,
    addr: Seq<char>,
    stage: Stage,
    event: LaunchEvent,
    to: Stage,
    action: LaunchAction,
)
    requires
        step_taken(runner, cpu_count, addr, stage, event, to, action),
    ensures
        stage == Stage::Location && event is Located && runner.args.snapshot.url is None ==> to
            == Stage::Database && action is OpenDatabase,
        stage == Stage::Location && runner.args.snapshot.url is Some && runner.args.db_dir is None && event
            is Located ==> to == Stage::Snapshot && action is DownloadSnapshot,
        stage == Stage::Location && runner.args.snapshot.url is Some && runner.args.db_dir is Some ==> (
        event matches LaunchEvent::Located { exists } ==> if exists {
            to == Stage::Stopped && action == LaunchAction::Stop(Err(RunError::DatabaseExists))
        } else {
            to == Stage::Snapshot && action is DownloadSnapshot
        }),
        stage == Stage::Snapshot ==> (event matches LaunchEvent::SnapshotDone(ok) ==> if ok {
            to == Stage::Database && action is OpenDatabase
        } else {
            to == Stage::Stopped && action == LaunchAction::Stop(Err(RunError::SnapshotFailed))
        }),
{
}

/// The engine starts once the database is open, unless activities are tracked without transactions
/// or a historical model is no tag of two parts; the first such text is told.
pub proof fn engines_start_on_sound_options(
    runner: Runner,
    cpu_count: int,
    addr: Seq<char>,
    event: LaunchEvent,
    to: Stage,
    action: LaunchAction,
)
    requires
        step_taken(runner, cpu_count, addr, Stage::Database, event, to, action),
        event is DatabaseReady,
    ensures
        runner.args.activity.activity_enabled && !runner.args.indexing.transactions ==> to
            == Stage::Stopped && action == LaunchAction::Stop(
            Err(RunError::ActivityNeedsTransactions),
        ),
        action is StartEngine ==> to == Stage::Engine && (runner.args.activity.activity_enabled
            ==> runner.args.indexing.transactions) && forall|i: int|
            0 <= i < runner.args.sql.historical@.len() ==> split(
                (#[trigger] runner.args.sql.historical@[i])@,
                '-',
            ).len() == 2,
        action is StartEngine || action is Stop,
        action matches LaunchAction::Stop(Err(RunError::InvalidModelTag(t))) ==> split(t@, '-').len()
            != 2 && views(runner.args.sql.historical@).contains(t@),
        action is Stop ==> to == Stage::Stopped && (action == LaunchAction::Stop(
            Err(RunError::ActivityNeedsTransactions),
        ) || (action matches LaunchAction::Stop(Err(RunError::InvalidModelTag(t))))),
{
    let tags = views(runner.args.sql.historical@);
    first_invalid_is_first(tags);
    if first_invalid(tags) is None {
        assert forall|i: int| 0 <= i < runner.args.sql.historical@.len() implies split(
            (#[trigger] runner.args.sql.historical@[i])@,
            '-',
        ).len() == 2 by {
            assert(tags[i] == runner.args.sql.historical@[i]@);
        }
    }
}

/// The servers start once the engine runs; certificates are made before that where they are asked
/// for and no path is given.
pub proof fn certificates_are_made_where_none_is_given(
    runner: Runner,
    cpu_count: int,
    addr: Seq<char>,
    stage: Stage,
    event: LaunchEvent,
    to: Stage,
    action: LaunchAction,
)
    requires
        step_taken(runner, cpu_count, addr, stage, event, to, action),
    ensures
        stage == Stage::Engine && event is EngineReady ==> {
            let making = runner.args.server.mkcert && runner.args.server.tls_cert_path is None
                && runner.args.server.tls_key_path is None;
            if making {
                to == Stage::Certificates && action is MakeCertificates
            } else {
                to == Stage::Serving && action is Serve
            }
        },
        stage == Stage::Certificates ==> (event matches LaunchEvent::CertificatesDone(made) ==> to
            == Stage::Serving && (action matches LaunchAction::Serve(p) && (
        runner.args.server.mkcert && runner.args.server.tls_cert_path is None
            && runner.args.server.tls_key_path is None ==> match made {
            Some((cert, key)) => p.tls matches Some(t) && t.cert_path@ == cert@ && t.key_path@
                == key@,
            None => p.tls is None,
        }))),
{
}

/// The running program stops with the first task that ends, well only where the task finished or a
/// signal came; what it tells of a failure is the task and the reason.
pub proof fn the_first_end_stops_the_program(
    runner: Runner,
    cpu_count: int,
    addr: Seq<char>,
    event: LaunchEvent,
    to: Stage,
    action: LaunchAction,
)
    requires
        step_taken(runner, cpu_count, addr, Stage::Serving, event, to, action),
    ensures
        event is Signal ==> to == Stage::Stopped && action == LaunchAction::Stop(Ok(())),
        event matches LaunchEvent::TlsFailed(e) ==> to == Stage::Stopped && (
        action matches LaunchAction::Stop(Err(RunError::TlsFailed(t))) && t@ == e@),
        event matches LaunchEvent::TaskEnded { end, .. } ==> to == Stage::Stopped && action is Stop && (
        action->Stop_0 is Ok <==> end is Finished),
        event matches LaunchEvent::TaskEnded { end: TaskEnd::Failed(e), .. } ==> (
        action matches LaunchAction::Stop(Err(RunError::TaskFailed { error, .. })) && error@ == e@),
        event matches LaunchEvent::TaskEnded { end: TaskEnd::Panicked(e), .. } ==> (
        action matches LaunchAction::Stop(Err(RunError::TaskPanicked { error, .. })) && error@
            == e@),
{
}

/// A failure is told under the name of its own task.
pub proof fn failures_name_their_task(t: Task, e: String, r: Result<(), RunError>)
    requires
        outcome_of(t, TaskEnd::Failed(e), r),
    ensures
        r matches Err(RunError::TaskFailed { task, error }) && {
            &&& error@ == e@
            &&& t == Task::Engine ==> task@ == "Engine"@
            &&& t == Task::Executor ==> task@ == "Executor"@
            &&& t == Task::Proxy ==> task@ == "Proxy server"@
            &&& t == Task::GraphQl ==> task@ == "GraphQL server"@
            &&& t == Task::Grpc ==> task@ == "gRPC server"@
            &&& t == Task::Relay ==> task@ == "LibP2P relay"@
        },
{
}

/// The GraphQL server is built at the start and a second after each update of the models, waits for
/// the next update once it is built, and stops when there will be none.
pub proof fn graphql_is_built_after_updates(event: GraphqlEvent)
    ensures
        graphql_next(event) == GraphqlAction::Build <==> event == GraphqlEvent::Started || event
            == GraphqlEvent::Waited,
        graphql_next(event) == GraphqlAction::Stop <==> event == GraphqlEvent::UpdatesEnded,
        graphql_next(event) == GraphqlAction::AwaitUpdate <==> event == GraphqlEvent::Built,
        graphql_next(event) == (GraphqlAction::Wait { secs: 1 }) <==> event
            == GraphqlEvent::ModelUpdated,
{
}

/// Certificates are made in four steps, each after the one before went well; the first that fails
/// ends the making and is told as what it is.
pub proof fn certificates_are_made_step_by_step(stage: CertStage, ok: bool)
    ensures
        ok || stage == CertStage::Begin ==> match stage {
            CertStage::Begin => cert_next(stage, ok).1 == CertAction::AskVersion && cert_next(
                cert_next(stage, ok).0,
                true,
            ).1 == CertAction::MakeDirectory,
            CertStage::Version => cert_next(cert_next(stage, ok).0, true).1
                == CertAction::InstallAuthority,
            CertStage::Directory => cert_next(cert_next(stage, ok).0, true).1
                == CertAction::MakeCertificate,
            CertStage::Install => cert_next(cert_next(stage, ok).0, true) == (
                CertStage::Done,
                CertAction::Finish,
            ),
            _ => cert_next(stage, ok).0 == CertStage::Done,
        },
        !ok && stage != CertStage::Begin ==> cert_next(stage, ok).0 == CertStage::Done,
        cert_next(stage, ok).1 == CertAction::NotInstalled <==> !ok && stage == CertStage::Version,
        cert_next(stage, ok).1 == CertAction::DirectoryFailed <==> !ok && stage
            == CertStage::Directory,
        cert_next(stage, ok).1 == CertAction::InstallFailed <==> !ok && stage == CertStage::Install,
        cert_next(stage, ok).1 == CertAction::GenerateFailed <==> !ok && stage
            == CertStage::Generate,
{
}

/// The servers are told at the address given, under the scheme that is spoken; the explorer opens
/// the GraphQL server by it, with the host that stands for all interfaces named as the local one.
pub proof fn servers_are_told_where_they_are(
    runner: Runner,
    cpu_count: int,
    addr: Seq<char>,
    made: Option<(String, String)>,
    p: ServePlan,
)
    requires
        serve_planned(runner, cpu_count, addr, made, p),
    ensures
        ({
            let scheme = if p.tls is Some {
                "https://"@
            } else {
                "http://"@
            };
            &&& p.endpoints.graphql@ == scheme + addr + "/graphql"@
            &&& p.endpoints.sql@ == scheme + addr + "/sql"@
            &&& p.endpoints.mcp@ == scheme + addr + "/mcp"@
            &&& p.endpoints.explorer_url@ == "https://worlds.dev/torii?url="@ + form_encoded(
                encode_utf8(replaced(scheme + addr + "/graphql"@, "0.0.0.0"@, "localhost"@)),
            )
        }),
{
    addresses_have_their_scheme(addr, "/graphql"@);
    addresses_have_their_scheme(addr, "/sql"@);
    addresses_have_their_scheme(addr, "/mcp"@);
}

} // verus!
