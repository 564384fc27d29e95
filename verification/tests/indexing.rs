use torii::cache::{CacheError, ErcCache, InMemoryCache, Model};
use torii::engine::{
    is_at_head, model_event_keys, recovery_steps, Engine, EngineAction, EngineConfig, EngineEvent,
    Cursors, Event, EventPlace, EventRoute, FetchedBlock, IndexedContract, RangeStep, RecoveryStep,
    RoundAction, RoundStage, TaskOffer,
};
use torii::felt::Felt;
use torii::ids::format_event_id;
use torii::options::ContractType;
use torii::processors::{
    event_keys_as_string, resolve_model_or_skip, store_registration, task_id, task_id_from_address_and_key, Deleted,
    EventContext, EventProcessorConfig, ExternalContract, IndexingMode, LegacyAnswer,
    MetadataUpdateProcessor, ModelContents, ProcessorError, RegisterEventProcessor,
    RegisterExternalContractProcessor, RegisterModelProcessor, Registered, StoreDelRecordProcessor,
    Upgrade, UpgradeEventProcessor, Upgraded,
};
use torii::schema::{Enum, EnumOption, Member, Primitive, Struct, Ty, U256};
use torii::sql::errors::{SqlError, StorageError};
use torii::sql::models::{model_optional, model_optional_told, ModelStep};
use torii::sql::writes::{ContractCursor, QueryMessage, QueryType, SqlConfig, Step};
use torii::tokens::TokenId;

fn felt(v: u128) -> Felt {
    Felt::from_u128(v)
}

fn texts(list: &[&str]) -> Vec<String> {
    list.iter().map(|s| s.to_string()).collect()
}

#[test]
fn the_loop_backs_off_and_keeps_what_it_fetched() {
    let e = Engine::new();
    let (e, a) = e.start(EngineEvent::Round);
    assert_eq!(a, EngineAction::Fetch);
    let (e, a) = e.start(EngineEvent::FetchFailed);
    assert_eq!(a, EngineAction::Wait { wait: 1 });
    let (e, _) = e.start(EngineEvent::Round);
    let (e, a) = e.start(EngineEvent::FetchFailed);
    assert_eq!(a, EngineAction::Wait { wait: 2 });
    let (e, _) = e.start(EngineEvent::Round);
    let (e, a) = e.start(EngineEvent::Fetched);
    assert_eq!(a, EngineAction::Process);
    let (e, a) = e.start(EngineEvent::ProcessFailed);
    assert_eq!(a, EngineAction::Recover { wait: 1 });
    assert!(e.cached_fetch);
    let (e, a) = e.start(EngineEvent::Round);
    assert_eq!(a, EngineAction::Process);
    let (e, a) = e.start(EngineEvent::Processed);
    assert_eq!(a, EngineAction::Commit);
    assert!(!e.cached_fetch);
    assert_eq!(e.start(EngineEvent::RoundDone).1, EngineAction::Rest);
    assert_eq!(e.start(EngineEvent::CommitFailed).1, EngineAction::Fail);
    assert_eq!(e.start(EngineEvent::RecoverFailed).1, EngineAction::Fail);
    assert_eq!(e.start(EngineEvent::Shutdown).1, EngineAction::Stop);
}

#[test]
fn waits_grow_up_to_about_a_minute() {
    let mut e = Engine::new();
    let mut waits = vec![];
    for _ in 0..9 {
        e = e.start(EngineEvent::Round).0;
        let (next, a) = e.start(EngineEvent::FetchFailed);
        e = next;
        if let EngineAction::Wait { wait } = a {
            waits.push(wait);
        }
    }
    assert_eq!(waits, vec![1, 2, 4, 8, 16, 32, 64, 64, 64]);
}

#[test]
fn recovery_takes_everything_back() {
    assert_eq!(
        recovery_steps(),
        vec![
            RecoveryStep::AbortControllers,
            RecoveryStep::Rollback,
            RecoveryStep::ClearBalances,
            RecoveryStep::ClearModels,
            RecoveryStep::ResetTokens,
            RecoveryStep::ClearTasks,
        ]
    );
    assert_eq!(EngineConfig::default().polling_interval_ms, 500);
}

#[test]
fn a_round_has_its_order() {
    assert!(is_at_head(true, &vec![]));
    let blocks = vec![
        FetchedBlock { number: 4, event_counts: vec![1, 0, 2] },
        FetchedBlock { number: 5, event_counts: vec![0] },
    ];
    assert_eq!(
        Engine::process_range(&blocks),
        vec![
            RangeStep::Transaction { block: 0, transaction: 0 },
            RangeStep::Transaction { block: 0, transaction: 2 },
            RangeStep::Block { block: 0 },
            RangeStep::Block { block: 1 },
        ]
    );
    assert_eq!(Engine::process_pending(&vec![0, 3, 0, 1]), vec![1, 3]);
}

fn cursor(address: u128, head: Option<u64>) -> ContractCursor {
    ContractCursor {
        contract_address: felt(address),
        head,
        last_block_timestamp: Some(7),
        last_pending_block_tx: None,
    }
}

fn moved_cursors() -> Cursors {
    Cursors {
        cursors: vec![cursor(1, Some(4)), cursor(2, Some(4))],
        cursor_transactions: vec![(felt(1), vec![felt(21), felt(22)])],
    }
}

#[test]
fn a_round_writes_balances_and_then_cursors() {
    let token = TokenId::Contract(felt(9));
    let mut cache = ErcCache::new(&vec![]);
    cache.update_balance_diff(token, felt(0), felt(5), U256 { hi: 0, lo: 3 });
    let cursors = moved_cursors();
    let go = |stage, cache: &mut ErcCache| Engine::process(stage, true, true, &cursors, cache);
    let (stage, a) = go(RoundStage::Begin, &mut cache);
    assert!(matches!(a, RoundAction::Range { is_at_head: true }));
    let (stage, a) = go(stage, &mut cache);
    assert!(matches!(a, RoundAction::Pending));
    let (stage, a) = go(stage, &mut cache);
    assert!(matches!(a, RoundAction::Tasks));
    let (stage, a) = go(stage, &mut cache);
    match a {
        RoundAction::Store(QueryMessage {
            query_type: QueryType::ApplyBalanceDiff { balances, supplies, cursors: c },
            ..
        }) => {
            assert_eq!((balances.len(), supplies.len()), (1, 1));
            assert_eq!(balances[0].id.account_address, felt(5));
            assert_eq!(balances[0].id.token_id, token);
            assert_eq!(balances[0].diff.value, U256 { hi: 0, lo: 3 });
            assert_eq!(c, cursors.cursors);
        }
        other => panic!("{:?}", other),
    }
    assert_eq!(cache.balances_diff().len(), 1);
    let (stage, a) = go(stage, &mut cache);
    match a {
        RoundAction::Store(QueryMessage {
            query_type: QueryType::UpdateCursors { cursors: c, cursor_transactions },
            ..
        }) => {
            assert_eq!(c, cursors.cursors);
            assert_eq!(cursor_transactions, cursors.cursor_transactions);
        }
        other => panic!("{:?}", other),
    }
    assert!(cache.balances_diff().is_empty() && cache.total_supply_diff().is_empty());
    let (stage, a) = go(stage, &mut cache);
    assert!(matches!(a, RoundAction::End { ok: true }));
    assert!(matches!(go(stage, &mut cache), (RoundStage::Done, RoundAction::Nothing)));
    // Without a block that is not yet confirmed, heads that differ are not the head.
    let apart = Cursors { cursors: vec![cursor(1, Some(4)), cursor(2, Some(5))], ..moved_cursors() };
    let (stage, a) = Engine::process(RoundStage::Begin, true, false, &apart, &mut cache);
    assert!(matches!(a, RoundAction::Range { is_at_head: false }));
    let (_, a) = Engine::process(stage, true, false, &apart, &mut cache);
    assert!(matches!(a, RoundAction::Tasks));
}

#[test]
fn a_failed_step_ends_the_round() {
    let cursors = moved_cursors();
    let mut cache = ErcCache::new(&vec![]);
    cache.update_balance_diff(
        TokenId::Contract(felt(9)),
        felt(0),
        felt(5),
        U256 { hi: 0, lo: 3 },
    );
    for stage in [
        RoundStage::Range,
        RoundStage::Pending,
        RoundStage::Tasks,
        RoundStage::Balances,
        RoundStage::Cursors,
    ] {
        let (next, a) = Engine::process(stage, false, true, &cursors, &mut cache);
        assert_eq!(next, RoundStage::Done);
        assert!(matches!(a, RoundAction::End { ok: false }));
        assert_eq!(cache.balances_diff().len(), 1);
    }
}

#[test]
fn the_events_of_a_transaction_are_numbered() {
    let model_events = model_event_keys();
    assert_eq!(model_events.len(), 5);
    let event = |from: u128, keys: Vec<Felt>| Event {
        from_address: felt(from),
        keys,
        data: vec![],
    };
    let world = IndexedContract { address: felt(1), kind: ContractType::WORLD };
    let token = IndexedContract { address: felt(2), kind: ContractType::ERC20 };
    let events = vec![
        event(1, vec![model_events[0], felt(77)]),
        event(9, vec![felt(5)]),
        event(2, vec![felt(6)]),
        event(1, vec![model_events[0], felt(77)]),
    ];
    let p = Engine::process_transaction_with_events(
        8,
        &felt(3),
        &events,
        &vec![world, token],
        &model_events,
        true,
        false,
    );
    assert!(p.process_transaction && !p.store_receipt);
    assert_eq!(p.events.iter().map(|e| e.index).collect::<Vec<_>>(), vec![0, 2, 3]);
    assert_eq!(p.events[1].event_id, format_event_id(8, &felt(3), &felt(2), 2));
    assert_eq!(p.events[1].kind, ContractType::ERC20);
    assert_eq!(p.contracts, vec![felt(1), felt(2)]);
    assert_eq!(p.models, vec![felt(77)]);
}

#[test]
fn events_go_to_the_first_processor_that_takes_them() {
    let offer = |n: u64| {
        Some(TaskOffer {
            identifier: n,
            dependencies: vec![n + 1],
            indexing_mode: IndexingMode::Latest(n + 2),
        })
    };
    let e = event(vec![felt(100), felt(5)], vec![felt(6)]);
    let at = EventPlace {
        contract_type: ContractType::WORLD,
        event_id: "id".to_string(),
        block_number: 8,
        block_timestamp: 9,
        is_at_head: true,
    };
    let s = Engine::process_event(true, &e, &at, &Some(vec![None, offer(40), offer(50)]), true);
    assert!(s.store_raw);
    match s.route {
        EventRoute::Task { processor, identifier, dependencies, indexing_mode, event } => {
            assert_eq!((processor, identifier), (1, 40));
            assert_eq!(dependencies, vec![41]);
            assert_eq!(indexing_mode, IndexingMode::Latest(42));
            assert_eq!(event.contract_address, felt(1));
            assert_eq!(event.contract_type, ContractType::WORLD);
            assert_eq!(event.event_id, "id");
            assert_eq!(event.event.keys, vec![felt(100), felt(5)]);
            assert_eq!(event.event.data, vec![felt(6)]);
            assert_eq!((event.block_number, event.block_timestamp), (8, 9));
            assert!(event.is_at_head);
        }
        other => panic!("{:?}", other),
    }
    let s = Engine::process_event(false, &e, &at, &None, true);
    assert!(!s.store_raw);
    assert!(matches!(s.route, EventRoute::CatchAll(p) if p.event.keys == e.keys));
    let s = Engine::process_event(false, &e, &at, &None, false);
    assert!(matches!(s.route, EventRoute::Unprocessed));
}

#[test]
fn namespaces_and_models_choose_what_is_indexed() {
    let mut c = EventProcessorConfig::default();
    assert!(c.should_index("a", "B"));
    c.namespaces = texts(&["ns"]);
    assert!(c.should_index("ns", "B"));
    assert!(!c.should_index("a", "B"));
    c.namespaces = vec![];
    c.models = texts(&["ns-B"]);
    assert!(c.should_index("ns", "B"));
    assert!(!c.should_index("ns", "C"));
    c.historical_models = vec![felt(3)];
    assert!(c.is_historical(&felt(3)));
    assert!(!c.is_historical(&felt(4)));
    c.metadata_update_blacklist = vec![felt(1)];
    c.metadata_update_whitelist = vec![felt(1), felt(2)];
    assert!(!c.should_process_metadata_updates(&felt(1)));
    assert!(c.should_process_metadata_updates(&felt(2)));
    assert!(!c.should_process_metadata_updates(&felt(3)));
}

fn fields(name: &str, names: &[&str]) -> Ty {
    let member = |n: &&str| Member {
        name: n.to_string(),
        ty: Ty::Primitive(Primitive::U32(None)),
        key: false,
    };
    Ty::Struct(Struct { name: name.to_string(), children: names.iter().map(member).collect() })
}

fn model() -> Model {
    Model {
        world_address: felt(1),
        namespace: "ns".into(),
        name: "M".into(),
        selector: felt(5),
        class_hash: felt(0),
        contract_address: felt(0),
        packed_size: 1,
        unpacked_size: 2,
        layout_json: "[]".into(),
        schema: fields("ns-M", &["a"]),
        use_legacy_store: true,
    }
}

#[test]
fn missing_models_are_skipped_only_when_filtered() {
    let m = model();
    let all = EventProcessorConfig::default();
    assert!(matches!(resolve_model_or_skip(&all, Ok(Some(&m)), felt(5)), Ok(Some(_))));
    assert!(matches!(
        resolve_model_or_skip(&all, Ok(None), felt(5)),
        Err(ProcessorError::ModelNotFound(f)) if f == felt(5)
    ));
    let some = EventProcessorConfig { namespaces: texts(&["other"]), ..EventProcessorConfig::default() };
    assert!(matches!(resolve_model_or_skip(&some, Ok(None), felt(5)), Ok(None)));
    // A model that could not be looked up is not skipped.
    let failed = || Err(StorageError::Sql(SqlError::Database("disk".to_string())));
    for c in [&all, &some] {
        assert!(matches!(
            resolve_model_or_skip(c, failed(), felt(5)),
            Err(ProcessorError::Storage(StorageError::Sql(SqlError::Database(_))))
        ));
    }
}

fn event(keys: Vec<Felt>, data: Vec<Felt>) -> Event {
    Event { from_address: felt(1), keys, data }
}

#[test]
fn tasks_are_told_apart() {
    assert_eq!(task_id(&vec![felt(1), felt(2)]), task_id(&vec![felt(1), felt(2)]));
    assert!(task_id(&vec![felt(1), felt(2)]) != task_id(&vec![felt(2), felt(1)]));
    assert_eq!(task_id_from_address_and_key(felt(1), felt(2)), task_id(&vec![felt(1), felt(2)]));
    assert_eq!(
        event_keys_as_string(&event(vec![felt(1), felt(0xab)], vec![])),
        format!("{:#064x},{:#064x}", 1, 0xab)
    );
}

fn registered() -> Registered {
    Registered {
        namespace: "ns".into(),
        name: "M".into(),
        address: felt(6),
        class_hash: felt(7),
    }
}

#[test]
fn models_are_read_at_their_block_when_strict() {
    let p = RegisterModelProcessor;
    let mut c = EventProcessorConfig::default();
    assert_eq!(p.event_key(), "ModelRegistered");
    assert_eq!(p.process(&c, &registered(), 9).unwrap().at_block, None);
    c.strict_model_reader = true;
    assert_eq!(p.process(&c, &registered(), 9).unwrap().at_block, Some(9));
    c.namespaces = texts(&["other"]);
    assert!(p.process(&c, &registered(), 9).is_none());
    let ctx = EventContext { contract_address: felt(1), block_number: 9, block_timestamp: 5 };
    let contents = || ModelContents {
        schema: fields("M", &["a"]),
        layout_json: "[]".into(),
        packed_size: 3,
        unpacked_size: 4,
    };
    let m = p.register(&ctx, registered(), contents(), LegacyAnswer::Known(false)).unwrap();
    assert!(!m.use_legacy_store);
    assert_eq!(m.world_address, felt(1));
    assert_eq!(m.packed_size, 3);
    let m = p.register(&ctx, registered(), contents(), LegacyAnswer::EntrypointNotFound).unwrap();
    assert!(m.use_legacy_store);
    assert!(p.register(&ctx, registered(), contents(), LegacyAnswer::Failed).is_err());
    let p = RegisterEventProcessor;
    assert_eq!(p.event_key(), "EventRegistered");
    let m = p.register(&ctx, registered(), fields("M", &["a"]), "[]".into());
    assert_eq!(m.packed_size, 0);
}

#[test]
fn upgrades_replace_only_what_changed() {
    let p = UpgradeEventProcessor;
    let known = model();
    let up = Upgraded { selector: felt(5), address: felt(6), class_hash: felt(7) };
    let c = EventProcessorConfig::default();
    assert!(matches!(p.process(&c, Ok(Some(&known)), &up, 9), Ok(Some(_))));
    assert!(p.process(&c, Ok(None), &up, 9).is_err());
    let ctx = EventContext { contract_address: felt(1), block_number: 9, block_timestamp: 5 };
    let schema = |names: &[&str]| fields("M", names);
    assert!(p.upgrade(&ctx, &known, &up, schema(&["a"]), "[]".into()).is_none());
    let u = p.upgrade(&ctx, &known, &up, schema(&["a", "b"]), "[1]".into()).unwrap();
    assert_eq!(shape(&u.schema_diff), shape(&fields("ns-M", &["b"])));
    assert!(u.upgrade_diff.is_none());
    assert_eq!(u.model.class_hash, felt(7));
    assert_eq!(u.model.name, "M");
    assert_eq!(u.model.layout_json, "[1]");
    assert_eq!(u.model.schema.name(), "ns-M");
    let u = p.upgrade(&ctx, &known, &up, schema(&["b"]), "[1]".into()).unwrap();
    assert_eq!(shape(&u.schema_diff), shape(&fields("ns-M", &["b"])));
    assert_eq!(shape(&u.upgrade_diff.unwrap()), shape(&fields("ns-M", &["a"])));
}

#[test]
fn a_rolled_back_upgrade_is_made_again() {
    let p = UpgradeEventProcessor;
    let up = Upgraded { selector: felt(5), address: felt(6), class_hash: felt(7) };
    let ctx = EventContext { contract_address: felt(1), block_number: 9, block_timestamp: 5 };
    let mut cache = InMemoryCache::new(vec![model()], &vec![]);
    let upgrade = |cache: &InMemoryCache, committed: &Model| -> Option<Upgrade> {
        let known = match model_optional(Some(&cache.model_cache), felt(1), felt(5)) {
            ModelStep::Cached(m) => m,
            ModelStep::Ask(_) => committed,
        };
        p.upgrade(&ctx, known, &up, fields("M", &["a", "b"]), "[1]".into())
    };
    let committed = model();
    let first = upgrade(&cache, &committed).unwrap();
    let added = shape(&fields("ns-M", &["b"]));
    assert_eq!(shape(&first.schema_diff), added);
    cache.model_cache.set(felt(1), felt(5), first.model);
    assert!(upgrade(&cache, &committed).is_none());
    // The chunk fails later on: what was written is taken back, and so is what is in memory.
    let (engine, action) = Engine { cached_fetch: true, ..Engine::new() }.start(EngineEvent::ProcessFailed);
    assert!(matches!(action, EngineAction::Recover { .. }));
    cache.forget_uncommitted(Ok(&vec![])).unwrap();
    assert_eq!(engine.start(EngineEvent::Round).1, EngineAction::Process);
    // The column is added again.
    let again = upgrade(&cache, &committed).unwrap();
    assert_eq!(shape(&again.schema_diff), added);
    assert!(again.upgrade_diff.is_none());
    let sql = SqlConfig { hooks: vec![], historical_models: vec![] };
    let steps = again.store(&sql, "{}".to_string(), 5);
    match &steps[1] {
        Step::BuildModel { table, model, schema_diff: Some(d), upgrade_diff: None } => {
            assert_eq!(table, "ns-M");
            assert_eq!(shape(model), shape(&fields("ns-M", &["a", "b"])));
            assert_eq!(shape(d), added);
        }
        other => panic!("{:?}", other),
    }
    // A model that is registered has nothing to be added to.
    let steps = store_registration(&sql, &committed, "{}".to_string(), 5);
    assert!(matches!(
        &steps[1],
        Step::BuildModel { schema_diff: None, upgrade_diff: None, .. }
    ));
}

#[test]
fn deletions_wait_for_the_registration() {
    let p = StoreDelRecordProcessor;
    assert_eq!(p.event_key(), "StoreDelRecord");
    let e = event(vec![felt(100), felt(5), felt(8)], vec![]);
    assert_eq!(p.task_dependencies(&e), vec![task_id(&vec![felt(1), felt(5)])]);
    let mut c = EventProcessorConfig::default();
    assert!(matches!(p.indexing_mode(&e, &c), IndexingMode::Latest(_)));
    c.historical_models = vec![felt(5)];
    assert_eq!(p.indexing_mode(&e, &c), IndexingMode::Historical);
    let m = model();
    let d = Deleted { selector: felt(5), entity_id: felt(8) };
    assert!(matches!(p.process(&c, Ok(Some(&m)), &d), Ok(Some(_))));
    let sql = SqlConfig { hooks: vec![], historical_models: vec![] };
    let ctx = EventContext { contract_address: felt(1), block_number: 9, block_timestamp: 5 };
    let steps = p.store(&sql, &ctx, "e", &m, &d);
    assert_eq!(steps.len(), 1);
    match &steps[0] {
        Step::Query(QueryMessage { statement, query_type: QueryType::DeleteEntity(e), .. }) => {
            assert_eq!(statement, "DELETE FROM [ns-M] WHERE internal_id = ?");
            assert_eq!(shape(&e.ty), shape(&m.schema));
            assert_eq!(e.event_id, "e");
        }
        other => panic!("{:?}", other),
    }
}

#[test]
fn external_contracts_are_registered_from_their_block() {
    let p = RegisterExternalContractProcessor;
    let e = |name: &str| ExternalContract {
        namespace: "ns".into(),
        contract_name: name.into(),
        instance_name: "Wood".into(),
        contract_address: felt(6),
        block_number: 10,
    };
    let mut c = EventProcessorConfig::default();
    let r = p.process(&c, &e("ERC20")).unwrap();
    assert_eq!((r.address, r.kind), (felt(6), ContractType::ERC20));
    assert_eq!(r.head, 9);
    c.external_contract_whitelist = texts(&["Stone"]);
    assert!(p.process(&c, &e("ERC20")).is_none());
    c.external_contract_whitelist = vec![];
    c.external_contracts = false;
    assert!(p.process(&c, &e("ERC20")).is_none());
}

#[test]
fn images_of_metadata_are_kept_as_data_addresses() {
    let p = MetadataUpdateProcessor;
    assert_eq!(p.event_key(), "MetadataUpdate");
    assert!(p.fetch_image(&None).is_none());
    assert_eq!(p.fetch_image(&Some(b"abc".to_vec())), Some("YWJj".to_string()));
}

fn shape(t: &Ty) -> String {
    format!("{:?}", t)
}

fn difference(a: Ty, b: Ty) -> Option<String> {
    a.diff(&b).map(|t| shape(&t))
}

#[test]
fn schemas_differ_by_what_is_new() {
    let told = |t: Ty| Some(shape(&t));
    let number = |v: Option<u32>| Ty::Primitive(Primitive::U32(v));
    assert_eq!(difference(number(None), number(None)), None);
    assert_eq!(difference(number(Some(1)), number(None)), told(number(Some(1))));
    let text = |s: &str| Ty::ByteArray(s.into());
    assert_eq!(difference(text("a"), text("b")), told(text("a")));
    assert_eq!(difference(fields("A", &["x"]), fields("B", &["x", "y"])), None);
    assert_eq!(
        difference(fields("A", &["x", "y"]), fields("B", &["x"])),
        told(fields("A", &["y"]))
    );
    let tuple = |n: usize| Ty::Tuple((0..n).map(|_| number(None)).collect());
    assert_eq!(difference(tuple(0), tuple(1)), told(tuple(0)));
    assert_eq!(difference(tuple(2), tuple(2)), None);
    let array = |t: Ty| Ty::Array(vec![t]);
    assert_eq!(difference(array(fields("A", &["x"])), array(fields("A", &["x"]))), None);
    assert_eq!(
        difference(array(fields("A", &["x"])), array(fields("B", &["x"]))),
        told(array(fields("A", &["x"])))
    );
    let option = |names: &[&str], selected: Option<u8>| {
        Ty::Enum(Enum {
            name: "E".into(),
            option: selected,
            options: names
                .iter()
                .map(|n| EnumOption { name: n.to_string(), ty: Ty::Tuple(vec![]) })
                .collect(),
        })
    };
    assert_eq!(difference(option(&["p"], Some(0)), option(&["p", "q"], None)), None);
    assert_eq!(
        difference(option(&["p", "q"], Some(1)), option(&["p"], None)),
        told(option(&["q"], Some(1)))
    );
    let fixed = |n: u32| Ty::FixedSizeArray(vec![number(None)], n);
    assert_eq!(difference(fixed(3), fixed(3)), None);
    assert_eq!(difference(fixed(3), fixed(4)), told(fixed(3)));
}

#[test]
fn primitives_keep_their_values() {
    let big = Felt { hi: 3, lo: u128::MAX - 1 };
    let wide = U256 { hi: u128::MAX, lo: 5 };
    let primitives = vec![
        Primitive::I8(Some(-1)),
        Primitive::I16(Some(-2)),
        Primitive::I32(Some(-3)),
        Primitive::I64(Some(-4)),
        Primitive::I128(Some(i128::MIN)),
        Primitive::U8(Some(1)),
        Primitive::U16(Some(2)),
        Primitive::U32(Some(3)),
        Primitive::U64(Some(4)),
        Primitive::U128(Some(u128::MAX)),
        Primitive::U256(Some(wide)),
        Primitive::U256(None),
        Primitive::Bool(Some(true)),
        Primitive::Felt252(Some(big)),
        Primitive::ClassHash(Some(big)),
        Primitive::ContractAddress(None),
        Primitive::EthAddress(Some(felt(1))),
    ];
    // A primitive of another type or value differs as a whole.
    for p in primitives {
        let other = Ty::Primitive(Primitive::Bool(Some(false)));
        assert_eq!(difference(Ty::Primitive(p), other), Some(shape(&Ty::Primitive(p))));
        assert_eq!(difference(Ty::Primitive(p), Ty::Primitive(p)), None);
        assert_eq!(shape(&Ty::Primitive(p).copy()), shape(&Ty::Primitive(p)));
    }
}

/// The tables of a database that knows only which columns are committed.
struct Tables {
    committed: Model,
    columns: Vec<String>,
    pending: Vec<Step>,
}

impl Tables {
    fn commit(&mut self) {
        for step in self.pending.drain(..) {
            if let Step::BuildModel { schema_diff: Some(Ty::Struct(s)), .. } = step {
                self.columns.extend(s.children.into_iter().map(|m| m.name));
            }
        }
    }

    fn has_column(&self, name: &str) -> bool {
        self.columns.iter().any(|c| c == name)
    }
}

fn has_member(t: &Ty, name: &str) -> bool {
    matches!(t, Ty::Struct(s) if s.children.iter().any(|m| m.name == name))
}

fn copy_model(m: &Model) -> Model {
    Model {
        world_address: m.world_address,
        selector: m.selector,
        namespace: m.namespace.clone(),
        name: m.name.clone(),
        class_hash: m.class_hash,
        contract_address: m.contract_address,
        packed_size: m.packed_size,
        unpacked_size: m.unpacked_size,
        layout_json: m.layout_json.clone(),
        schema: m.schema.copy(),
        use_legacy_store: m.use_legacy_store,
    }
}

/// Processes the task that adds a member and the task that fails once; tells whether both went well.
fn process_upgrade(
    added: &str,
    tables: &mut Tables,
    cache: &mut InMemoryCache,
    failures: &mut usize,
) -> bool {
    let (world, selector) = (felt(0x111), felt(0x222));
    let row = Ok(Some(copy_model(&tables.committed)));
    let current =
        model_optional_told(&mut cache.model_cache, world, selector, row).unwrap().unwrap();
    let mut model = copy_model(current);
    let known = current.schema.copy();
    match &mut model.schema {
        Ty::Struct(s) if s.children.iter().all(|m| m.name != added) => s.children.push(Member {
            name: added.to_string(),
            ty: Ty::Primitive(Primitive::U32(None)),
            key: false,
        }),
        _ => {}
    }
    if let Some(schema_diff) = model.schema.diff(&known) {
        model.packed_size += 1;
        model.unpacked_size += 1;
        let upgrade = Upgrade { upgrade_diff: known.diff(&model.schema), schema_diff, model };
        let sql = SqlConfig { hooks: vec![], historical_models: vec![] };
        tables.pending = upgrade.store(&sql, "{}".to_string(), 1_715_000_123);
        cache.model_cache.set(world, selector, upgrade.model);
    }
    *failures += 1;
    *failures > 1
}

/// Runs a round; tells whether it went well.
fn run_round(cursors: &Cursors, cache: &mut InMemoryCache, mut tasks: impl FnMut(&mut InMemoryCache) -> bool) -> bool {
    let (mut stage, mut ok) = (RoundStage::Begin, true);
    loop {
        let (next, action) = Engine::process(stage, ok, false, cursors, &mut cache.erc_cache);
        stage = next;
        ok = match action {
            RoundAction::Tasks => tasks(cache),
            RoundAction::End { ok } => return ok,
            RoundAction::Range { .. } | RoundAction::Store(_) => true,
            other => panic!("{:?}", other),
        };
    }
}

fn at_start(address: Felt) -> Cursors {
    Cursors {
        cursors: vec![ContractCursor {
            contract_address: address,
            head: Some(0),
            last_block_timestamp: None,
            last_pending_block_tx: None,
        }],
        cursor_transactions: vec![],
    }
}

#[test]
fn test_rollback_replays_model_upgrade_after_cache_reset() {
    let (world, selector) = (felt(0x111), felt(0x222));
    let member = |name: &str, p: Primitive, key: bool| Member {
        name: name.to_string(),
        ty: Ty::Primitive(p),
        key,
    };
    let initial = Ty::Struct(Struct {
        name: "ns-RollbackProbe".to_string(),
        children: vec![
            member("player", Primitive::ContractAddress(None), true),
            member("score", Primitive::U32(None), false),
        ],
    });
    let mut tables = Tables {
        committed: Model {
            world_address: world,
            selector,
            namespace: "ns".into(),
            name: "RollbackProbe".into(),
            class_hash: felt(0x333),
            contract_address: felt(0x444),
            packed_size: 1,
            unpacked_size: 2,
            layout_json: "{\"Fixed\":[]}".into(),
            schema: initial,
            use_legacy_store: true,
        },
        columns: texts(&["player", "score"]),
        pending: vec![],
    };
    let mut cache = InMemoryCache::new(vec![], &vec![]);
    let added = "rollback_probe";
    assert!(!tables.has_column(added));
    assert!(matches!(
        cache.model_cache.model(world, selector),
        Err(CacheError::ModelNotFound(s)) if s == selector
    ));

    let mut failures = 0;
    let cursors = at_start(world);
    assert!(!run_round(&cursors, &mut cache, |c| {
        process_upgrade(added, &mut tables, c, &mut failures)
    }));

    assert!(has_member(&cache.model_cache.model(world, selector).unwrap().schema, added));
    assert!(!tables.has_column(added));

    tables.pending.clear();
    cache.forget_uncommitted(Ok(&vec![])).unwrap();
    assert!(matches!(
        cache.model_cache.model(world, selector),
        Err(CacheError::ModelNotFound(s)) if s == selector
    ));

    assert!(run_round(&cursors, &mut cache, |c| {
        process_upgrade(added, &mut tables, c, &mut failures)
    }));
    tables.commit();

    assert!(tables.has_column(added));
    assert!(has_member(&cache.model_cache.model(world, selector).unwrap().schema, added));
    assert_eq!(failures, 2);
}

#[test]
fn test_rollback_resets_token_registry_for_retry() {
    let token_address = felt(0x700d);
    let token = TokenId::Contract(token_address);
    let mut cache = InMemoryCache::new(vec![], &vec![]);
    let (mut pending, mut tokens) = (vec![], vec![]);
    let mut failures = 0;
    let mut transfer_and_fail = |cache: &mut InMemoryCache, pending: &mut Vec<TokenId>| {
        if cache.erc_cache.get_token_registration_lock(token).is_some() {
            pending.push(token);
            cache.erc_cache.mark_token_registered(token);
        }
        let amount = U256 { hi: 0, lo: 12345 };
        cache.erc_cache.update_balance_diff(token, felt(0xabc), felt(0xdef), amount);
        failures += 1;
        failures > 1
    };
    let cursors = at_start(token_address);

    assert!(!run_round(&cursors, &mut cache, |c| transfer_and_fail(c, &mut pending)));
    assert!(cache.erc_cache.is_token_registered(&token));
    assert_eq!(tokens.len(), 0);

    pending.clear();
    cache.forget_uncommitted(Ok(&tokens)).unwrap();
    assert!(!cache.erc_cache.is_token_registered(&token));
    assert!(cache.erc_cache.balances_diff().is_empty());

    assert!(run_round(&cursors, &mut cache, |c| transfer_and_fail(c, &mut pending)));
    tokens.append(&mut pending);
    assert_eq!(tokens, vec![token]);
    assert_eq!(failures, 2);
}
