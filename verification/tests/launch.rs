use torii::felt::Felt;
use torii::launch::{
    generate_mkcert_certificates, handle_task, spawn_rebuilding_graphql_server, CertAction,
    CertStage, GraphqlAction, GraphqlEvent, LaunchAction, LaunchEvent, Runner, Stage, Task, TaskEnd,
};
use torii::options::{
    parse_aggregator_config, parse_hook, parse_model_indices, ActivityOptions, AchievementOptions, ContractDefinition, ContractType, ErcOptions,
    EventsOptions, GrpcOptions, IndexingOptions, MessagingOptions, MetricsOptions, RelayOptions,
    RunnerOptions, SearchOptions, ServerOptions, SnapshotOptions, SqlOptions,
};
use torii::runner::{
    addresses_of, concurrent_tasks, contracts_to_index, create_progress_bar_template,
    database_pragmas, download_position, endpoints, excluded_entrypoints, historical_selectors,
    plan_snapshot, readonly_connections, spec_version_supported, tls_config, undeployed_contracts,
    AllocationStrategy, RunError, RuntimeAllocation, SnapshotPlan, ToriiArgs,
};

fn felt(v: u128) -> Felt {
    Felt::from_u128(v)
}

fn args() -> ToriiArgs {
    ToriiArgs {
        world_address: Some(felt(0xdead)),
        rpc: "http://0.0.0.0:5050".to_string(),
        db_dir: None,
        config: None,
        dump_config: None,
        indexing: IndexingOptions::default(),
        events: EventsOptions::default(),
        erc: ErcOptions::default(),
        sql: SqlOptions::default(),
        activity: ActivityOptions::default(),
        achievement: AchievementOptions::default(),
        search: SearchOptions::default(),
        snapshot: SnapshotOptions::default(),
        runner: RunnerOptions::default(),
        server: ServerOptions::default(),
        relay: RelayOptions::default(),
        metrics: MetricsOptions::default(),
        messaging: MessagingOptions::default(),
        grpc: GrpcOptions::default(),
    }
}

fn counts(cpus: usize, s: AllocationStrategy, q: usize, i: usize) -> (usize, usize, usize) {
    let r = RuntimeAllocation::calculate(cpus, &s, q, i);
    (r.query_threads, r.indexer_threads, r.main_threads)
}

#[test]
fn strategies_are_named() {
    assert_eq!(AllocationStrategy::from("Query_Priority"), AllocationStrategy::QueryPriority);
    assert_eq!(AllocationStrategy::from("indexer_priority"), AllocationStrategy::IndexerPriority);
    assert_eq!(AllocationStrategy::from("BALANCED"), AllocationStrategy::Balanced);
    assert_eq!(AllocationStrategy::from("adaptive"), AllocationStrategy::Adaptive);
    assert_eq!(AllocationStrategy::from("whatever"), AllocationStrategy::Adaptive);
}

#[test]
fn threads_are_shared_by_strategy() {
    assert_eq!(counts(11, AllocationStrategy::Adaptive, 0, 0), (6, 4, 1));
    assert_eq!(counts(11, AllocationStrategy::QueryPriority, 0, 0), (7, 3, 1));
    assert_eq!(counts(11, AllocationStrategy::IndexerPriority, 0, 0), (3, 7, 1));
    assert_eq!(counts(12, AllocationStrategy::Balanced, 0, 0), (5, 5, 1));
    assert_eq!(counts(8, AllocationStrategy::Adaptive, 3, 100), (3, 8, 1));
    for cpus in 1..=3 {
        assert_eq!(counts(cpus, AllocationStrategy::Adaptive, 0, 0), (1, 1, 1));
    }
    assert_eq!(counts(0, AllocationStrategy::Balanced, 0, 0), (1, 1, 1));
    assert_eq!(counts(0, AllocationStrategy::Balanced, 2, 2), (0, 0, 1));
}

#[test]
fn the_progress_bar_fits_the_terminal() {
    let t = |bar: u32, msg: u32| {
        format!(
            " {{spinner:.yellow}} snapshot [{{bar:{}.cyan/blue}}] {{bytes}}/{{total_bytes}} Downloading{{wide_msg:>{}.blue}}",
            bar, msg
        )
    };
    assert_eq!(create_progress_bar_template(None), t(40, 20));
    assert_eq!(create_progress_bar_template(Some(40)), t(20, 10));
    assert_eq!(create_progress_bar_template(Some(80)), t(20, 10));
    assert_eq!(create_progress_bar_template(Some(200)), t(48, 15));
    assert_eq!(download_position(10, 20, 25), 25);
    assert_eq!(download_position(10, 20, 40), 30);
    assert_eq!(download_position(u64::MAX, 20, 40), 40);
}

#[test]
fn the_world_is_indexed_after_the_listed_contracts() {
    let mut a = args();
    let c = ContractDefinition {
        address: felt(1),
        kind: ContractType::ERC20,
        starting_block: Some(3),
    };
    a.indexing.contracts = vec![c];
    let world = ContractDefinition {
        address: felt(0xdead),
        kind: ContractType::WORLD,
        starting_block: None,
    };
    assert_eq!(contracts_to_index(&a), vec![c, world]);
    assert_eq!(undeployed_contracts(&vec![c, world], &vec![true, false]), vec![world]);
    assert_eq!(undeployed_contracts(&vec![c, world], &vec![true]), vec![world]);
    a.world_address = None;
    assert_eq!(contracts_to_index(&a), vec![c]);
    assert!(spec_version_supported("0.9.1"));
    assert!(!spec_version_supported("0.8.1"));
}

#[test]
fn snapshots_spare_existing_databases() {
    let mut o = SnapshotOptions::default();
    let dir = Some("/db".to_string());
    assert_eq!(plan_snapshot(&o, &dir, true, "v"), SnapshotPlan::Skip);
    o.url = Some("http://x".to_string());
    assert_eq!(plan_snapshot(&o, &dir, true, "v"), SnapshotPlan::Refuse);
    assert_eq!(
        plan_snapshot(&o, &dir, false, "v"),
        SnapshotPlan::Download { version_differs: false }
    );
    o.version = Some("w".to_string());
    assert_eq!(
        plan_snapshot(&o, &None, true, "v"),
        SnapshotPlan::Download { version_differs: true }
    );
}

#[test]
fn the_database_is_set_up_in_order() {
    let mut o = SqlOptions::default();
    o.cache_size = -7;
    let p = database_pragmas(&o, 6);
    let names: Vec<&str> = p.iter().map(|x| x.name).collect();
    assert_eq!(
        names,
        vec![
            "threads",
            "cache_size",
            "page_size",
            "wal_autocheckpoint",
            "busy_timeout",
            "soft_heap_limit",
            "hard_heap_limit",
            "temp_store",
            "mmap_size",
            "journal_size_limit"
        ]
    );
    assert_eq!(p[0].value, "6");
    assert_eq!(p[1].value, "-7");
    assert_eq!(p[3].value, "10000");
    assert_eq!(readonly_connections(&o, 6), (4, 100));
    assert_eq!(readonly_connections(&o, 60), (4, 120));
    o.max_connections = 1;
    assert_eq!(readonly_connections(&o, 1), (2, 2));
    assert_eq!(readonly_connections(&o, 1 << 31), (1, 1));
}

#[test]
fn concurrent_tasks_follow_the_indexer() {
    assert_eq!(concurrent_tasks(100, 2), 50);
    assert_eq!(concurrent_tasks(100, 10), 80);
    assert_eq!(concurrent_tasks(100, 100), 500);
    assert_eq!(concurrent_tasks(7, 100), 7);
}

#[test]
fn historical_models_are_tags() {
    let tags = |l: &[&str]| -> Vec<String> { l.iter().map(|s| s.to_string()).collect() };
    let v = historical_selectors(&tags(&["ns-A", "ns-B", "ns-A"])).unwrap();
    assert_eq!(v.len(), 2);
    assert!(v[0] != v[1]);
    let e = historical_selectors(&tags(&["ns-A", "bad", "a-b-c"])).unwrap_err();
    assert_eq!(e.message(), "Invalid model tag: bad");
    let o = ActivityOptions::default();
    assert_eq!(excluded_entrypoints(&o).len(), 13);
    let o = ActivityOptions { excluded_entrypoints: tags(&["a", "b", "a"]), ..o };
    assert_eq!(excluded_entrypoints(&o), tags(&["a", "b"]));
    assert_eq!(addresses_of(&tags(&[" 0x1 ", "zz", "a"])), vec![felt(1), felt(10)]);
}

#[test]
fn endpoints_are_addressed_by_scheme() {
    let e = endpoints(true, "0.0.0.0:8080");
    assert_eq!(e.graphql, "https://0.0.0.0:8080/graphql");
    assert_eq!(e.mcp, "https://0.0.0.0:8080/mcp");
    assert_eq!(e.sql, "https://0.0.0.0:8080/sql");
    assert_eq!(
        e.explorer_url,
        "https://worlds.dev/torii?url=https%3A%2F%2Flocalhost%3A8080%2Fgraphql"
    );
    assert_eq!(endpoints(false, "a b").graphql, "http://a b/graphql");
    assert!(endpoints(false, "a b").explorer_url.contains("a+b"));
}

#[test]
fn certificates_come_in_pairs() {
    let made = Some(("c".to_string(), "k".to_string()));
    let mut o = ServerOptions::default();
    assert!(tls_config(&o, &made).0.is_none());
    o.mkcert = true;
    assert_eq!(tls_config(&o, &made).0.unwrap().key_path, "k");
    o.tls_cert_path = Some("x".to_string());
    let (t, incomplete) = tls_config(&o, &made);
    assert!(t.is_none() && incomplete);
    o.tls_key_path = Some("y".to_string());
    let (t, incomplete) = tls_config(&o, &made);
    assert_eq!(t.unwrap().cert_path, "x");
    assert!(!incomplete);
}

#[test]
fn certificates_are_made_step_by_step() {
    let (s, a) = generate_mkcert_certificates(CertStage::Begin, true);
    assert_eq!(a, CertAction::AskVersion);
    assert_eq!(generate_mkcert_certificates(s, false).1, CertAction::NotInstalled);
    let (s, a) = generate_mkcert_certificates(s, true);
    assert_eq!(a, CertAction::MakeDirectory);
    assert_eq!(generate_mkcert_certificates(s, false).1, CertAction::DirectoryFailed);
    let (s, a) = generate_mkcert_certificates(s, true);
    assert_eq!(a, CertAction::InstallAuthority);
    assert_eq!(generate_mkcert_certificates(s, false).1, CertAction::InstallFailed);
    let (s, a) = generate_mkcert_certificates(s, true);
    assert_eq!(a, CertAction::MakeCertificate);
    assert_eq!(generate_mkcert_certificates(s, false).1, CertAction::GenerateFailed);
    assert_eq!(generate_mkcert_certificates(s, true), (CertStage::Done, CertAction::Finish));
}

#[test]
fn the_program_starts_stage_by_stage() {
    let r = Runner::new(args(), "v".to_string());
    let step = |s: Stage, e: LaunchEvent| r.run(8, "127.0.0.1:8080", s, &e);
    let (s, a) = step(Stage::Begin, LaunchEvent::Started);
    assert!(matches!(
        a,
        LaunchAction::QuerySpecVersion { dump_config: false, user_agent } if user_agent == "Torii/v"
    ));
    let (same, a) = step(s, LaunchEvent::EngineReady);
    assert_eq!(same, s);
    assert!(matches!(a, LaunchAction::Ignore));
    let (s, a) = step(s, LaunchEvent::SpecVersion(Some("0.9.0".to_string())));
    assert!(matches!(a, LaunchAction::LocateDatabase { path: None, warn_version: false }));
    let (s, a) = step(s, LaunchEvent::Located { exists: true });
    match a {
        LaunchAction::OpenDatabase(p) => {
            assert_eq!((p.min_connections, p.max_connections), (4, 100));
            assert_eq!(p.allocation.query_threads, 4);
            assert_eq!(p.allocation.indexer_threads, 3);
        }
        other => panic!("{:?}", other),
    }
    let (s, a) = step(s, LaunchEvent::DatabaseReady);
    match a {
        LaunchAction::StartEngine { storage, engine } => {
            assert_eq!(engine.config.max_concurrent_tasks, 50);
            assert!(engine.fetcher.preconfirmed && !engine.fetcher.transactions);
            assert_eq!(engine.fetcher.events_chunk_size, 1024);
            assert_eq!(engine.config.polling_interval_ms, 500);
            assert_eq!(storage.activity_excluded_entrypoints.len(), 13);
            assert!(!storage.warn_indices && !storage.all_model_indices);
            assert_eq!(storage.contracts.len(), 1);
            assert_eq!(storage.contracts[0].address, felt(0xdead));
            assert!(storage.hooks.is_empty() && storage.aggregators.is_empty());
        }
        other => panic!("{:?}", other),
    }
    let (s, a) = step(s, LaunchEvent::EngineReady);
    assert_eq!(s, Stage::Serving);
    match a {
        LaunchAction::Serve(p) => {
            assert!(p.tls.is_none() && p.serve_sql);
            assert!(p.metrics.is_none() && p.cors_origins.is_none());
            assert_eq!((p.query_runtime.threads, p.query_runtime.name), (4, "torii-query"));
            assert_eq!(p.indexer_runtime.stack_size, 1024 * 1024);
            assert_eq!(p.proxy_settings.tcp_keepalive_interval, 60);
            assert_eq!(p.version_spec, "v");
            assert_eq!((p.grpc.port, p.grpc.max_message_size), (50051, 16 * 1024 * 1024));
            assert!(p.grpc.raw_sql && !p.grpc.optimistic);
            assert_eq!((p.relay.port, p.relay.websocket_port), (9090, 9092));
            assert_eq!((p.messaging.max_age, p.messaging.require_timestamp), (300_000, false));
            assert!(p.artifacts_path.is_none());
            assert_eq!(p.endpoints.graphql, "http://127.0.0.1:8080/graphql");
        }
        other => panic!("{:?}", other),
    }
    let (s2, a) = step(s, LaunchEvent::Signal);
    assert_eq!(s2, Stage::Stopped);
    assert!(matches!(a, LaunchAction::Stop(Ok(()))));
    let end = TaskEnd::Failed("boom".to_string());
    let (_, a) = step(s, LaunchEvent::TaskEnded { task: Task::Engine, end });
    match a {
        LaunchAction::Stop(Err(e)) => assert_eq!(e.message(), "Engine failed: boom"),
        other => panic!("{:?}", other),
    }
}

#[test]
fn the_start_stops_on_what_the_options_forbid() {
    let mut a = args();
    a.activity.activity_enabled = true;
    a.runner.check_contracts = true;
    a.snapshot.url = Some("http://x".to_string());
    let r = Runner::new(a, "v".to_string());
    let step = |s: Stage, e: LaunchEvent| r.run(8, "h", s, &e);
    let (_, a) = step(Stage::Database, LaunchEvent::DatabaseReady);
    assert!(matches!(a, LaunchAction::Stop(Err(RunError::ActivityNeedsTransactions))));
    let (s, a) = step(Stage::SpecVersion, LaunchEvent::SpecVersion(None));
    assert!(matches!(a, LaunchAction::CheckContracts { warn_version: true, .. }));
    let (_, a) = step(s, LaunchEvent::Deployed(vec![false]));
    assert!(matches!(a, LaunchAction::Stop(Err(RunError::ContractsNotDeployed(l))) if l.len() == 1));
    let (s, _) = step(s, LaunchEvent::Deployed(vec![true]));
    let (s, a) = step(s, LaunchEvent::Located { exists: true });
    assert!(matches!(a, LaunchAction::DownloadSnapshot { warn_version: false }));
    let (_, a) = step(s, LaunchEvent::SnapshotDone(false));
    match a {
        LaunchAction::Stop(Err(e)) => assert_eq!(e.message(), "Failed to download snapshot."),
        other => panic!("{:?}", other),
    }
}

#[test]
fn the_database_lies_in_its_directory() {
    let located = |dir: &str| {
        let mut a = args();
        a.db_dir = Some(dir.to_string());
        let r = Runner::new(a, "v".to_string());
        match r.run(8, "h", Stage::SpecVersion, &LaunchEvent::SpecVersion(None)).1 {
            LaunchAction::LocateDatabase { path, .. } => path.unwrap(),
            other => panic!("{:?}", other),
        }
    };
    assert_eq!(located("/var/torii"), "/var/torii/torii.db");
    assert_eq!(located("/var/"), "/var/torii.db");
    assert_eq!(located(""), "torii.db");
}

#[test]
fn the_storage_gets_what_the_options_list() {
    let mut a = args();
    a.sql.all_model_indices = true;
    a.sql.model_indices = vec![parse_model_indices("ns-A:x,y").unwrap()];
    a.sql.hooks = vec![parse_hook("model_updated:ns-A:DELETE FROM t").unwrap()];
    a.sql.aggregators = vec![parse_aggregator_config("top:ns-A:player:max:score:desc").unwrap()];
    let told = format!("{:?} {:?} {:?}", a.sql.model_indices, a.sql.hooks, a.sql.aggregators);
    a.relay.peers = vec!["p".to_string()];
    a.relay.cert_path = Some("c".to_string());
    a.erc.artifacts_path = Some("art".to_string());
    let r = Runner::new(a, "v".to_string());
    match r.run(8, "h", Stage::Database, &LaunchEvent::DatabaseReady).1 {
        LaunchAction::StartEngine { storage, .. } => {
            assert!(storage.warn_indices && storage.all_model_indices);
            assert_eq!(
                format!("{:?} {:?} {:?}", storage.model_indices, storage.hooks, storage.aggregators),
                told
            );
        }
        other => panic!("{:?}", other),
    }
    match r.run(8, "h", Stage::Engine, &LaunchEvent::EngineReady).1 {
        LaunchAction::Serve(p) => {
            assert_eq!(p.relay.peers, vec!["p"]);
            assert_eq!(p.relay.cert_path.as_deref(), Some("c"));
            assert!(p.relay.local_key_path.is_none());
            assert_eq!(p.artifacts_path.as_deref(), Some("art"));
        }
        other => panic!("{:?}", other),
    }
}

#[test]
fn empty_lists_of_origins_allow_none() {
    let mut a = args();
    a.server.http_cors_origins = Some(vec![]);
    a.server.mkcert = true;
    a.server.tls_cert_path = Some("c".to_string());
    a.metrics.metrics = true;
    let r = Runner::new(a, "v".to_string());
    let (s, a) = r.run(8, "h", Stage::Engine, &LaunchEvent::EngineReady);
    match a {
        LaunchAction::Serve(p) => {
            assert!(p.cors_origins.is_none());
            assert!(p.tls_incomplete && p.warn_explicit_paths && p.tls.is_none());
            assert_eq!(p.metrics.unwrap().1, 9200);
        }
        other => panic!("{:?}", other),
    }
    let (_, a) = r.run(8, "h", s, &LaunchEvent::TlsFailed("no key".to_string()));
    match a {
        LaunchAction::Stop(Err(e)) => assert_eq!(e.message(), "Failed to configure TLS: no key"),
        other => panic!("{:?}", other),
    }
}

#[test]
fn the_graphql_server_is_rebuilt_after_updates() {
    assert_eq!(spawn_rebuilding_graphql_server(GraphqlEvent::Started), GraphqlAction::Build);
    assert_eq!(spawn_rebuilding_graphql_server(GraphqlEvent::Built), GraphqlAction::AwaitUpdate);
    assert_eq!(
        spawn_rebuilding_graphql_server(GraphqlEvent::ModelUpdated),
        GraphqlAction::Wait { secs: 1 }
    );
    assert_eq!(spawn_rebuilding_graphql_server(GraphqlEvent::Waited), GraphqlAction::Build);
    assert_eq!(spawn_rebuilding_graphql_server(GraphqlEvent::UpdatesEnded), GraphqlAction::Stop);
}

#[test]
fn tasks_end_the_program_with_their_name() {
    assert!(handle_task(Task::Grpc, &TaskEnd::Finished).is_ok());
    let end = TaskEnd::Panicked("p".to_string());
    let names = [
        (Task::Engine, "Engine"),
        (Task::Executor, "Executor"),
        (Task::Proxy, "Proxy server"),
        (Task::GraphQl, "GraphQL server"),
        (Task::Grpc, "gRPC server"),
        (Task::Relay, "LibP2P relay"),
    ];
    for (t, n) in names {
        let e = handle_task(t, &end).unwrap_err();
        assert_eq!(e.message(), format!("{} task panicked: p", n));
    }
}
