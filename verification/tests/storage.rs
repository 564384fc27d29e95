use torii::cache::{InMemoryCache, Model, ModelCache};
use torii::felt::Felt;
use torii::ids::format_world_scoped_id;
use torii::options::{ContractType, Hook, HookEvent};
use torii::schema::{Member, Primitive, Struct, Ty, U256};
use torii::sql::builder::{Argument, OrderDirection};
use torii::sql::errors::{
    Error, OtherError, ParseError, QueryError, SqlError, StorageError,
};
use torii::sql::models::{
    keep_model, model_optional, model_optional_told, models_step, ModelStep, ModelsStep,
};
use torii::sql::queries::{
    achievement_tasks_statement, achievements, activities, aggregations, composite_of, contracts,
    controllers, entities, entity_model, entity_table, event_messages, events, models, namespace_achievements_statement,
    player_achievements, player_namespaces, player_progressions, token_balances, token_contracts,
    token_ids_statement, token_transfers, tokens, transaction_calls_statement,
    transaction_models_statement, transactions, AchievementQuery,
    ActivityQuery, AggregationQuery, AttributeFilter, ContractQuery, ControllerQuery, EntityKind, EntityTable, Query,
    PageQuery, PlayerAchievementQuery, TokenBalanceQuery, TokenContractQuery, TokenQuery,
    TokenTransferQuery, TransactionFilter,
};
use torii::sql::rows::{
    achievement_of, player_entries, transaction_calls, transaction_models, transaction_of,
    AchievementRow, AchievementText, CallRow, NamespaceAchievements, PlayerRow, ProgressionRow,
    RowError, StoredAchievement, TaskRow, TransactionRow,
};
use torii::sql::search::{
    fields_of, group_rows, plan_search, response_of, type_to_table, SearchConfig, SearchRow,
};
use torii::sql::writes::{
    add_controller, apply_balances_diff, delete_entity, execute, register_contract,
    register_model, register_nft_token, register_token_contract, rollback, set_entity,
    set_event_message, set_metadata, store_event, store_token_transfer, store_transaction,
    store_transaction_receipt, update_cursors, update_metadata, update_token_metadata, ContractCursor, EntityChange,
    FeeUnit, FinalityStatus, ModelRegistration, QueryType, ReceiptBlock, ReceiptRecord, SqlConfig,
    Step, TokenContractRecord, TransactionLinks, TransactionRecord,
};
use torii::subscriptions::matching::{Clause, CompositeClause, LogicalOperator};
use torii::time::Timestamp;
use torii::tokens::TokenId;

fn felt(v: u128) -> Felt {
    Felt::from_u128(v)
}

fn texts(list: &[&str]) -> Vec<String> {
    list.iter().map(|s| s.to_string()).collect()
}

fn u256(v: u128) -> U256 {
    U256 { hi: 0, lo: v }
}

fn shown(args: &[Argument]) -> Vec<String> {
    args.iter()
        .map(|a| match a {
            Argument::Text(s) => s.clone(),
            Argument::FeltText(f) => format!("felt {}", f.lo),
            Argument::FieldElement(f) => format!("element {}", f.lo),
            Argument::Bool(b) => format!("bool {}", b),
            Argument::Int(i) => format!("int {}", i),
            Argument::FeltsText(v) => format!("felts {}", v.len()),
            Argument::U256Text(v) => format!("u256 {}", v.lo),
            Argument::TimeText(t) => format!("time {}", t),
            Argument::TokenText(t) => format!("token {}", t.contract_address().lo),
            Argument::EventTokenText(e, t) => format!("{} {}", e, t.contract_address().lo),
        })
        .collect()
}

fn asked(q: &PageQuery) -> (Vec<String>, Vec<String>) {
    (q.query.conditions.clone(), shown(&q.query.bind_values))
}

#[test]
fn storage_error_conversion_preserves_sql_errors() {
    let error = StorageError::from(Error::Sql(SqlError::RowNotFound));

    assert!(matches!(error, StorageError::Sql(SqlError::RowNotFound)));
}

#[test]
fn storage_error_conversion_preserves_nested_storage_errors() {
    let world_address = felt(0xa);
    let selector = felt(0xb);

    let error =
        StorageError::from(Error::Storage(StorageError::model_not_found(world_address, selector)));

    assert!(matches!(
        error,
        StorageError::ModelNotFound {
            world_address: missing_world,
            selector: missing_selector,
        } if missing_world == world_address && missing_selector == selector
    ));
}

#[test]
fn other_errors_are_wrapped() {
    let e = StorageError::from(Error::Other(OtherError::Query(QueryError::SqliteJoinLimit)));
    assert!(matches!(e, StorageError::Other(OtherError::Query(QueryError::SqliteJoinLimit))));
    let m = |e: QueryError| e.message();
    assert_eq!(m(QueryError::SqliteJoinLimit), "Exceeds sqlite `JOIN` limit (64)");
    assert_eq!(m(QueryError::UnsupportedQuery("q".into())), "Unsupported query: q");
    assert_eq!(m(QueryError::MissingParam("q".into())), "Missing param: q");
    assert_eq!(m(QueryError::UnsupportedValue("q".into())), "Unsupported value for primitive: q");
    assert_eq!(m(QueryError::ModelNotFound("q".into())), "Model not found: q");
    assert_eq!(m(QueryError::InvalidNamespacedModel("q".into())), "Invalid namespaced model: q");
    assert_eq!(m(QueryError::InvalidCursor("q".into())), "Invalid cursor: q");
    let p = |e: ParseError| e.message();
    assert_eq!(p(ParseError::Refused("x".into())), "x");
    assert_eq!(p(ParseError::InvalidTyEntity), "Entity is not a struct");
    assert_eq!(p(ParseError::InvalidFixedSizeArray("x".into())), "Invalid FixedSizeArray format: x");
    assert_eq!(p(ParseError::InvalidWorldScopedId("x".into())), "Invalid world-scoped ID format: x");
}

fn model(world: Felt, selector: Felt) -> Model {
    Model {
        world_address: world,
        namespace: "ns".into(),
        name: "Model".into(),
        selector,
        class_hash: felt(0x123),
        contract_address: felt(0x456),
        packed_size: 0,
        unpacked_size: 0,
        layout_json: "{\"Fixed\":[]}".into(),
        schema: Ty::Tuple(vec![]),
        use_legacy_store: true,
    }
}

fn ask_database(step: ModelStep, row: Option<Model>) -> Option<Model> {
    match step {
        ModelStep::Cached(_) => panic!("not in memory"),
        ModelStep::Ask(s) => {
            assert_eq!(s.sql, "SELECT * FROM models WHERE id = ?");
            row.filter(|m| {
                shown(&s.bind_values)
                    == vec![format_world_scoped_id(&m.world_address, &m.selector)]
            })
        }
    }
}

#[test]
fn model_optional_returns_none_when_model_is_missing() {
    let world = felt(0xa);
    let selector = felt(0xb);

    let found = ask_database(model_optional(None, world, selector), None);
    assert!(found.is_none());

    let err = torii::sql::models::model(Ok(found)).unwrap_err();
    assert!(matches!(err, StorageError::Sql(SqlError::RowNotFound)));
}

#[test]
fn model_optional_repopulates_cache_after_database_fallback() {
    let mut cache = InMemoryCache::new(vec![], &vec![]).model_cache;
    let world = felt(0xc);
    let selector = felt(0xd);

    assert!(cache.model(world, selector).is_err());

    let row = Some(model(world, selector));
    let fetched = ask_database(model_optional(Some(&cache), world, selector), row).unwrap();
    assert_eq!(fetched.world_address, world);
    assert_eq!(fetched.selector, selector);
    assert_eq!(fetched.namespace, "ns");
    assert_eq!(fetched.name, "Model");
    assert!(keep_model(&mut cache, world, selector, Ok(Some(fetched))).unwrap());

    let cached = cache.model(world, selector).unwrap();
    assert_eq!(cached.selector, selector);
    assert_eq!(cached.name, "Model");

    // The row is gone from the database; the model is still in memory.
    match model_optional(Some(&cache), world, selector) {
        ModelStep::Cached(m) => {
            assert_eq!(m.selector, selector);
            assert_eq!(m.name, "Model");
        }
        ModelStep::Ask(_) => panic!("asked the database"),
    }
}

#[test]
fn failed_reads_never_tell_that_a_model_is_missing() {
    let failed = || StorageError::Sql(SqlError::Database("disk".to_string()));
    let is_failed = |e: StorageError| matches!(e, StorageError::Sql(SqlError::Database(_)));
    let (world, selector) = (felt(1), felt(2));
    let mut cache = ModelCache::new(vec![]);
    assert!(is_failed(keep_model(&mut cache, world, selector, Err(failed())).unwrap_err()));
    assert!(is_failed(
        model_optional_told(&mut cache, world, selector, Err(failed())).unwrap_err()
    ));
    assert!(cache.model(world, selector).is_err());
    assert!(model_optional_told(&mut cache, world, selector, Ok(None)).unwrap().is_none());
    assert!(!keep_model(&mut cache, world, selector, Ok(None)).unwrap());
    let row = Ok(Some(model(world, selector)));
    assert!(model_optional_told(&mut cache, world, selector, row).unwrap().is_some());
    // It is in memory now, whatever the database answers.
    for row in [Ok(None), Err(failed())] {
        let told = model_optional_told(&mut cache, world, selector, row).unwrap().unwrap();
        assert_eq!(told.name, "Model");
    }
    assert_eq!(torii::sql::models::model(Ok(Some(7))).unwrap(), 7);
    assert!(is_failed(torii::sql::models::model::<u32>(Err(failed())).unwrap_err()));
}

#[test]
fn models_come_from_memory_or_the_database() {
    let cache = ModelCache::new(vec![model(felt(1), felt(2))]);
    match models_step(Some(&cache), &vec![felt(1)], &vec![]) {
        ModelsStep::Cached(v) => assert_eq!(v.len(), 1),
        ModelsStep::Ask(_) => panic!("asked the database"),
    }
    match models_step(None, &vec![felt(1)], &vec![felt(2), felt(3)]) {
        ModelsStep::Ask(s) => {
            assert_eq!(
                s.sql,
                "SELECT * FROM models WHERE world_address IN (?) AND model_selector IN (?, ?)"
            );
            assert_eq!(shown(&s.bind_values), vec!["felt 1", "felt 2", "felt 3"]);
        }
        ModelsStep::Cached(_) => panic!("nothing is in memory"),
    }
    assert_eq!(models(&vec![], &vec![]).sql, "SELECT * FROM models");
}

#[test]
fn controllers_are_asked_by_name_and_address() {
    let q = controllers(&ControllerQuery {
        contract_addresses: vec![felt(0xab)],
        usernames: texts(&["a", "b"]),
    });
    assert_eq!(q.query.table, "controllers");
    let (c, b) = asked(&q);
    assert_eq!(c, vec!["id IN (?, ?)", "address IN (?)"]);
    assert_eq!(b, vec!["a".to_string(), "b".to_string(), format!("{:#064x}", 0xab)]);
    assert_eq!(q.order.field, "address");
    assert_eq!(q.order.direction, OrderDirection::Desc);
}

#[test]
fn contracts_are_asked_in_one_statement() {
    let s = contracts(&ContractQuery {
        contract_addresses: vec![felt(1)],
        contract_types: vec![ContractType::ERC20, ContractType::WORLD],
    });
    assert_eq!(
        s.sql,
        "SELECT * FROM contracts WHERE contract_address IN (?) AND contract_type IN (?, ?) ORDER BY created_at DESC"
    );
    assert_eq!(shown(&s.bind_values), vec!["felt 1", "ERC20", "WORLD"]);
    let s = contracts(&ContractQuery { contract_addresses: vec![], contract_types: vec![] });
    assert_eq!(s.sql, "SELECT * FROM contracts ORDER BY created_at DESC");
}

#[test]
fn tokens_are_joined_to_each_attribute() {
    let trait_of = |n: &str, v: &str| AttributeFilter {
        trait_name: n.to_string(),
        trait_value: v.to_string(),
    };
    let q = tokens(&TokenQuery {
        contract_addresses: vec![felt(1)],
        token_ids: vec![u256(2)],
        attribute_filters: vec![trait_of("Rank", "S"), trait_of("Hat", "Red")],
    });
    assert_eq!(
        q.query.joins,
        vec![
            "JOIN token_attributes ta0 ON t.id = ta0.token_id",
            "JOIN token_attributes ta1 ON t.id = ta1.token_id"
        ]
    );
    let (c, b) = asked(&q);
    assert_eq!(
        c.join(" AND "),
        "t.token_id != '' AND t.token_id IS NOT NULL AND t.contract_address IN (?) AND t.token_id IN (?) AND ta0.trait_name = ? AND ta0.trait_value = ? AND ta1.trait_name = ? AND ta1.trait_value = ?"
    );
    assert_eq!(b, vec!["felt 1", "u256 2", "Rank", "S", "Hat", "Red"]);
    assert_eq!(q.order.field, "ordering");
}

#[test]
fn balances_and_transfers_are_asked_by_the_number_of_the_token() {
    let q = token_balances(&TokenBalanceQuery {
        account_addresses: vec![felt(1)],
        contract_addresses: vec![],
        token_ids: vec![u256(3)],
    });
    let (c, b) = asked(&q);
    assert_eq!(
        c,
        vec!["account_address IN (?)", "SUBSTR(token_id, INSTR(token_id, ':') + 1) IN (?)"]
    );
    assert_eq!(b, vec!["felt 1", "u256 3"]);
    let q = token_transfers(&TokenTransferQuery {
        account_addresses: vec![felt(1), felt(2)],
        contract_addresses: vec![felt(4)],
        token_ids: vec![],
    });
    let (c, b) = asked(&q);
    assert_eq!(
        c,
        vec![
            "((from_address IN (?, ?)) OR (to_address IN (?, ?)))",
            "contract_address IN (?)"
        ]
    );
    assert_eq!(b, vec!["felt 1", "felt 2", "felt 1", "felt 2", "felt 4"]);
}

#[test]
fn token_contracts_are_tokens_without_a_number() {
    let q = token_contracts(&TokenContractQuery {
        contract_addresses: vec![],
        contract_types: vec![ContractType::ERC1155],
    });
    let (c, b) = asked(&q);
    assert_eq!(c, vec!["t.token_id = '' OR t.token_id IS NULL", "c.contract_type IN (?)"]);
    assert_eq!(b, vec!["ERC1155"]);
    assert_eq!(
        q.query.joins,
        vec!["JOIN contracts c ON c.contract_address = t.contract_address"]
    );
}

#[test]
fn transactions_are_asked_by_calls_models_and_blocks() {
    let q = transactions(&Some(TransactionFilter {
        transaction_hashes: vec![felt(1)],
        caller_addresses: vec![felt(2)],
        contract_addresses: vec![],
        entrypoints: texts(&["spawn", "move"]),
        model_selectors: vec![felt(3)],
        from_block: Some(10),
        to_block: Some(20),
    }));
    let (c, b) = asked(&q);
    assert_eq!(
        c,
        vec![
            "t.transaction_hash IN (?)",
            "(tc.entrypoint IN (?, ?) AND tc.caller_address IN (?))",
            "tm.model_id IN (?)",
            "t.block_number >= ?",
            "t.block_number <= ?"
        ]
    );
    assert_eq!(b, vec!["felt 1", "spawn", "move", "felt 2", "felt 3", "10", "20"]);
    assert_eq!(q.query.joins.len(), 2);
    assert!(transactions(&None).query.conditions.is_empty());
}

#[test]
fn events_are_asked_by_pattern() {
    let q = events(&Some("^0x1/.*$".to_string()));
    assert_eq!(asked(&q), (texts(&["keys REGEXP ?"]), texts(&["^0x1/.*$"])));
    assert!(events(&Some(String::new())).query.conditions.is_empty());
    assert!(events(&None).query.conditions.is_empty());
}

#[test]
fn aggregations_have_positions() {
    let q = aggregations(&AggregationQuery {
        aggregator_ids: texts(&["top"]),
        entity_ids: texts(&["e"]),
    });
    assert!(q
        .query
        .columns
        .contains(&"ROW_NUMBER() OVER (PARTITION BY a.aggregator_id ORDER BY a.value DESC) as position".to_string()));
    assert_eq!(
        asked(&q),
        (texts(&["a.aggregator_id IN (?)", "a.entity_id IN (?)"]), texts(&["top", "e"]))
    );
    assert_eq!(q.order.direction, OrderDirection::Asc);
}

#[test]
fn activities_are_asked_by_time() {
    let q = activities(&ActivityQuery {
        world_addresses: vec![],
        namespaces: texts(&["ns"]),
        caller_addresses: vec![felt(5)],
        from_time: Some(Timestamp { secs: 86400, nanos: 5_000_000 }),
        to_time: Some(Timestamp { secs: 1_431_648_000, nanos: 0 }),
    });
    assert_eq!(
        asked(&q),
        (
            texts(&[
                "namespace IN (?)",
                "caller_address IN (?)",
                "session_end >= ?",
                "session_end <= ?"
            ]),
            texts(&[
                "ns",
                "felt 5",
                "1970-01-02T00:00:00.005+00:00",
                "2015-05-15T00:00:00+00:00"
            ])
        )
    );
}

#[test]
fn valid_times_are_those_that_can_be_written() {
    let valid = |secs: i64, nanos: u32| Timestamp { secs, nanos }.is_valid();
    assert!(valid(0, 999_999_999));
    assert!(!valid(0, 1_000_000_000));
    assert!(valid(59, 1_000_000_000));
    assert!(valid(-1, 1_999_999_999));
    assert!(!valid(-2, 1_000_000_000));
    assert!(!valid(59, 2_000_000_000));
    for secs in [-8334601228801, -8334601228800, 8210266876799, 8210266876800, i64::MIN] {
        assert_eq!(valid(secs, 0), chrono::DateTime::from_timestamp(secs, 0).is_some());
    }
    assert_eq!(valid(-61, 1_500_000_000), chrono::DateTime::from_timestamp(-61, 1_500_000_000).is_some());
}

#[test]
fn achievements_are_asked_by_visibility() {
    let q = achievements(&AchievementQuery {
        world_addresses: vec![felt(1)],
        namespaces: vec![],
        hidden: Some(false),
    });
    assert_eq!(
        asked(&q),
        (texts(&["world_address IN (?)", "hidden = ?"]), texts(&["felt 1", "0"]))
    );
    let players = PlayerAchievementQuery {
        world_addresses: vec![felt(1)],
        namespaces: texts(&["ns"]),
        player_addresses: vec![felt(2)],
    };
    let q = player_achievements(&players);
    assert_eq!(q.query.group_by, "player_id");
    assert_eq!(q.order.field, "total_points");
    let s = player_namespaces(&texts(&["p", "q"]), &players);
    assert_eq!(
        s.sql,
        "SELECT DISTINCT world_address, namespace FROM player_achievements WHERE player_id IN (?, ?) AND world_address IN (?) AND namespace IN (?)"
    );
    assert_eq!(shown(&s.bind_values), vec!["p", "q", "felt 1", "ns"]);
    let s = player_progressions(&texts(&["p"]), &players);
    assert!(s.sql.ends_with(
        "FROM achievement_progressions WHERE player_id IN (?) AND world_address IN (?) AND namespace IN (?)"
    ));
}

#[test]
fn clauses_become_composite() {
    let c = composite_of(None);
    assert_eq!(c.operator, LogicalOperator::And);
    assert!(c.clauses.is_empty());
    let c = composite_of(Some(Clause::HashedKeys(vec![felt(1)])));
    assert_eq!(c.clauses.len(), 1);
    let c = composite_of(Some(Clause::Composite(CompositeClause {
        operator: LogicalOperator::Or,
        clauses: vec![],
    })));
    assert_eq!(c.operator, LogicalOperator::Or);
    assert_eq!(entity_table(false, true), EntityTable::EntitiesHistorical);
    assert_eq!(entity_table(true, false), EntityTable::EventMessages);
}

#[test]
fn requests_for_entities_hand_everything_on() {
    let query = |historical: bool| Query {
        clause: Some(Clause::HashedKeys(vec![felt(1)])),
        pagination: 17,
        no_hashed_keys: true,
        models: texts(&["ns-A"]),
        historical,
        world_addresses: vec![felt(3)],
    };
    let r = entities(query(true));
    assert_eq!(r.table, EntityTable::EntitiesHistorical);
    assert_eq!(r.model_relation_table, EntityKind::Entities);
    assert_eq!(r.entity_relation_column, EntityKind::Entities);
    assert_eq!(r.composite.clauses.len(), 1);
    assert_eq!(r.pagination, 17);
    assert!(r.no_hashed_keys && r.historical);
    assert_eq!(r.models, texts(&["ns-A"]));
    assert_eq!(r.world_addresses, vec![felt(3)]);
    let r = event_messages(query(false));
    assert_eq!(r.table, EntityTable::EventMessages);
    assert_eq!(r.model_relation_table, EntityKind::EventMessages);
    assert_eq!(r.entity_relation_column, EntityKind::EventMessages);
    assert!(!r.historical);
}

fn position() -> Ty {
    Ty::Struct(Struct {
        name: "ns-Position".to_string(),
        children: vec![Member {
            name: "x".to_string(),
            ty: Ty::Primitive(Primitive::U32(Some(1))),
            key: true,
        }],
    })
}

#[test]
fn the_state_of_a_model_is_found_by_its_entity() {
    let s = entity_model(&position(), &felt(1), &felt(2));
    assert_eq!(s.sql, "SELECT * FROM [ns-Position] WHERE internal_id = ?");
    assert_eq!(shown(&s.bind_values), vec![format_world_scoped_id(&felt(1), &felt(2))]);
}

fn text_of_achievement() -> AchievementText {
    AchievementText {
        start: "0".into(),
        end: "1".into(),
        group: "g".into(),
        icon: "i".into(),
        title: "t".into(),
        description: "d".into(),
        data: "x".into(),
        created_at: "c".into(),
        updated_at: "u".into(),
    }
}

fn achievement_row() -> AchievementRow {
    AchievementRow {
        id: "0x1:ns:hero".into(),
        world_address: "0x1".into(),
        hidden: 2,
        index_num: -1,
        points: 30,
        text: text_of_achievement(),
    }
}

fn task(id: &str, completions: i32) -> TaskRow {
    TaskRow {
        task_id: id.into(),
        description: "d".into(),
        total: 3,
        total_completions: completions,
        created_at: "c".into(),
    }
}

#[test]
fn achievements_are_read_from_their_rows() {
    let a = achievement_of(&achievement_row(), &vec![task("a", 3), task("b", 4)]).unwrap();
    assert_eq!(a.world_address, felt(1));
    assert_eq!(a.namespace, "ns");
    assert_eq!(a.entity_id, "hero");
    assert!(a.hidden);
    assert_eq!(a.index, u32::MAX);
    assert_eq!(a.total_completions, 3);
    assert_eq!(a.tasks.len(), 2);
    assert_eq!(a.text.title, "t");
    let none = achievement_of(&achievement_row(), &vec![]).unwrap();
    assert_eq!(none.total_completions, 0);
    let bad = AchievementRow { world_address: "zz".into(), ..achievement_row() };
    assert_eq!(achievement_of(&bad, &vec![]).unwrap_err(), RowError::Felt);
}

#[test]
fn players_complete_achievements_with_all_their_tasks() {
    let ns = vec![NamespaceAchievements {
        world_address: "0x1".into(),
        namespace: "ns".into(),
        achievements: vec![
            StoredAchievement {
                row: achievement_row(),
                tasks: vec![task("a", 1), task("b", 1)],
            },
            StoredAchievement { row: achievement_row(), tasks: vec![task("a", 1)] },
            StoredAchievement { row: achievement_row(), tasks: vec![] },
        ],
    }];
    let row = |t: &str, p: &str, count: i32, completed: i32| ProgressionRow {
        task_id: t.into(),
        player_id: p.into(),
        count,
        completed,
    };
    let rows = vec![
        row("a", "0x7", 5, 1),
        row("a", "0x7", 9, 0),
        row("b", "0x8", 9, 1),
        row("b", "0x7", 2, 0),
    ];
    let player = PlayerRow {
        player_id: "0x7".into(),
        total_points: 10,
        completed_achievements: 1,
        total_achievements: 3,
        last_achievement_at: Some("1970-01-02T00:00:00+01:00".into()),
        created_at: "never".into(),
        updated_at: "1970-01-01T00:00:01Z".into(),
    };
    let now = Timestamp { secs: 77, nanos: 0 };
    let e = player_entries(&vec![player], &ns, &rows, now).unwrap();
    assert_eq!(e.len(), 1);
    assert_eq!(e[0].player_address, felt(7));
    assert_eq!(e[0].stats.last_achievement_at, Some(Timestamp { secs: 82800, nanos: 0 }));
    assert_eq!(e[0].stats.created_at, now);
    assert_eq!(e[0].stats.updated_at, Timestamp { secs: 1, nanos: 0 });
    let a = &e[0].achievements;
    assert_eq!(a.len(), 3);
    assert_eq!((a[0].task_progress[0].count, a[0].task_progress[0].completed), (5, true));
    assert_eq!((a[0].task_progress[1].count, a[0].task_progress[1].completed), (2, false));
    assert_eq!((a[0].completed_tasks, a[0].completed), (1, false));
    assert!(a[1].completed);
    assert!(!a[2].completed);
}

#[test]
fn transactions_are_read_from_their_rows() {
    let call = |a: &str| CallRow {
        contract_address: a.into(),
        entrypoint: "move".into(),
        calldata: vec![felt(1)],
        call_type: Some("EXECUTE".into()),
        caller_address: "0x3".into(),
    };
    let calls = transaction_calls(vec![call("0x2")]).unwrap();
    assert_eq!(calls[0].contract_address, felt(2));
    assert_eq!(calls[0].caller_address, felt(3));
    assert_eq!(calls[0].call_type, "EXECUTE");
    assert_eq!(transaction_calls(vec![call("x")]).unwrap_err(), RowError::Felt);
    let unknown = |a: &str| CallRow { call_type: None, ..call(a) };
    assert_eq!(
        transaction_calls(vec![call("0x2"), unknown("0x2")]).unwrap_err(),
        RowError::CallType
    );
    assert_eq!(transaction_calls(vec![unknown("x")]).unwrap_err(), RowError::Felt);
    let caller = |c: CallRow| CallRow { caller_address: "x".into(), ..c };
    assert_eq!(transaction_calls(vec![caller(call("0x2"))]).unwrap_err(), RowError::Felt);
    assert_eq!(
        transaction_calls(vec![caller(unknown("0x2"))]).unwrap_err(),
        RowError::CallType
    );
    assert_eq!(transaction_models(&texts(&["0x5"])), Ok(vec![felt(5)]));
    let row = |nonce: &str| TransactionRow {
        transaction_hash: "0x1".into(),
        sender_address: "0x2".into(),
        calldata: vec![],
        max_fee: "0x0".into(),
        signature: vec![felt(9)],
        nonce: nonce.into(),
        block_number: 4,
        transaction_type: "INVOKE".into(),
        executed_at: "now".into(),
    };
    let t = transaction_of(row("0x7"), calls, vec![felt(5)]).unwrap();
    assert_eq!(t.nonce, felt(7));
    assert_eq!(t.block_timestamp, "now");
    assert_eq!(t.calls.len(), 1);
    assert_eq!(transaction_of(row(""), vec![], vec![]).unwrap_err(), RowError::Felt);
}

fn search_config() -> SearchConfig {
    SearchConfig {
        max_results: 10,
        min_query_length: 2,
        prefix_matching: true,
        return_snippets: true,
        snippet_length: 4,
    }
}

#[test]
fn searches_are_planned() {
    let c = search_config();
    let p = plan_search(&c, "  dragon ", 3).unwrap();
    assert_eq!(p.fts_query, "dragon*");
    assert_eq!(p.limit, 3);
    assert!(p.sql.ends_with("ORDER BY rank ASC LIMIT 9"));
    assert_eq!(plan_search(&c, "dra*", 0).unwrap().fts_query, "dra*");
    assert_eq!(plan_search(&c, "dra", 11).unwrap().limit, 10);
    assert!(plan_search(&c, " d ", 1).is_none());
    assert!(plan_search(&c, "  ", 1).is_none());
    assert!(plan_search(&c, "\u{e9}", 1).is_some());
    let c = SearchConfig { prefix_matching: false, ..c };
    assert_eq!(plan_search(&c, "dragon", 1).unwrap().fts_query, "dragon");
}

fn search_row(kind: &str, id: &str, secondary: &str, metadata: &str) -> SearchRow {
    SearchRow {
        entity_type: kind.into(),
        entity_id: id.into(),
        primary_text: "primary".into(),
        secondary_text: secondary.into(),
        metadata: metadata.into(),
    }
}

fn field(f: &[torii::sql::search::Field], name: &str) -> Option<String> {
    f.iter().rev().find(|x| x.name == name).map(|x| x.value.clone())
}

#[test]
fn matches_hold_their_texts() {
    let c = search_config();
    let f = fields_of(&c, &search_row("token", "1", "", "{\"symbol\":\"X\",\"entity_id\":\"9\"}"));
    assert_eq!(field(&f, "symbol"), Some("X".to_string()));
    assert_eq!(field(&f, "entity_id"), Some("1".to_string()));
    assert_eq!(field(&f, "secondary_text"), None);
    assert_eq!(field(&f, "snippet"), Some("prim...".to_string()));
    let f = fields_of(&c, &search_row("token", "1", "abc", "{\"n\":1}"));
    assert_eq!(field(&f, "n"), None);
    assert_eq!(field(&f, "snippet"), Some("abc".to_string()));
    assert_eq!(field(&f, "secondary_text"), Some("abc".to_string()));
}

#[test]
fn matches_are_grouped_within_the_limit() {
    let c = search_config();
    let rows = vec![
        search_row("token", "1", "", "{}"),
        search_row("achievement", "2", "", "{}"),
        search_row("token", "3", "", "{}"),
        search_row("token", "4", "", "{}"),
    ];
    let r = response_of(group_rows(&c, &rows, 2));
    assert_eq!(r.total, 3);
    assert_eq!(r.results.len(), 2);
    assert_eq!(r.results[0].table, "tokens");
    assert_eq!(r.results[0].count, 2);
    assert_eq!(r.results[0].matches[1].id, "3");
    assert_eq!(r.results[1].table, "achievements");
    assert_eq!(type_to_table("controller"), "controllers");
    assert_eq!(type_to_table("token_attribute"), "token_attributes");
    assert_eq!(type_to_table("other"), "other");
}

fn sql_config() -> SqlConfig {
    SqlConfig {
        hooks: vec![
            Hook {
                event: HookEvent::ModelUpdated { model_tag: "ns-Position".into() },
                statement: "U".into(),
            },
            Hook {
                event: HookEvent::ModelRegistered { model_tag: "ns-Position".into() },
                statement: "R".into(),
            },
            Hook {
                event: HookEvent::ModelDeleted { model_tag: "ns-Other".into() },
                statement: "D".into(),
            },
        ],
        historical_models: vec![felt(3)],
    }
}

fn shape(t: &Ty) -> String {
    format!("{:?}", t)
}

fn statements(steps: &[Step]) -> Vec<String> {
    steps
        .iter()
        .map(|s| match s {
            Step::Query(q) => q.statement.clone(),
            Step::BuildModel { table, .. } => format!("build {}", table),
            Step::SetEntityModel { table, .. } => format!("set {}", table),
        })
        .collect()
}

fn change(selector: u128) -> EntityChange {
    EntityChange {
        world_address: felt(1),
        entity_id: felt(2),
        model_selector: felt(selector),
        event_id: "e".into(),
        block_timestamp: 5,
    }
}

#[test]
fn models_are_registered_with_their_hooks() {
    let m = ModelRegistration {
        world_address: felt(1),
        selector: felt(3),
        class_hash: felt(4),
        contract_address: felt(5),
        layout_json: "L".into(),
        schema_json: "S".into(),
        packed_size: 6,
        unpacked_size: 7,
        legacy_store: true,
        block_timestamp: 8,
    };
    let steps = register_model(&sql_config(), &position(), &m, None, None);
    assert!(matches!(
        &steps[1],
        Step::BuildModel { schema_diff: None, upgrade_diff: None, .. }
    ));
    let (more, less) = (Ty::ByteArray("more".into()), Ty::ByteArray("less".into()));
    match &register_model(&sql_config(), &position(), &m, Some(&more), Some(&less))[1] {
        Step::BuildModel { model, schema_diff: Some(a), upgrade_diff: Some(b), .. } => {
            assert_eq!(shape(model), shape(&position()));
            assert_eq!((shape(a), shape(b)), (shape(&more), shape(&less)));
        }
        other => panic!("{:?}", other),
    }
    let s = statements(&steps);
    assert!(s[0].starts_with("INSERT INTO models (id, world_address"));
    assert_eq!(s[1..].to_vec(), texts(&["build ns-Position", "R"]));
    match &steps[0] {
        Step::Query(q) => {
            let a = shown(&q.arguments);
            assert_eq!(a[0], format_world_scoped_id(&felt(1), &felt(3)));
            assert_eq!(
                a[1..].to_vec(),
                texts(&[
                    "felt 1", "felt 3", "ns", "Position", "element 4", "element 5", "L",
                    "bool true", "S", "int 6", "int 7", "time 8"
                ])
            );
        }
        other => panic!("{:?}", other),
    }
}

#[test]
fn entities_are_set_and_deleted() {
    let steps = set_entity(&sql_config(), &position(), &change(3), &Some(vec![felt(9)]));
    let s = statements(&steps);
    assert_eq!(s.len(), 4);
    assert!(s[0].starts_with("INSERT INTO entities"));
    assert!(s[1].starts_with("INSERT INTO entity_model"));
    assert_eq!(s[2], "set ns-Position");
    assert_eq!(s[3], "U");
    match &steps[0] {
        Step::Query(q) => match &q.query_type {
            QueryType::SetEntity(e) => {
                assert!(e.is_historical);
                assert_eq!(e.keys, Some(vec![felt(9)]));
                assert_eq!(e.model_id, format_world_scoped_id(&felt(1), &felt(3)));
                assert_eq!(shape(&e.ty), shape(&position()));
            }
            other => panic!("{:?}", other),
        },
        other => panic!("{:?}", other),
    }
    match &steps[2] {
        Step::SetEntityModel { ty, entity_id, .. } => {
            assert_eq!(shape(ty), shape(&position()));
            assert_eq!(*entity_id, format_world_scoped_id(&felt(1), &felt(2)));
        }
        other => panic!("{:?}", other),
    }
    let steps = delete_entity(&sql_config(), &position(), &change(4));
    assert_eq!(statements(&steps), texts(&["DELETE FROM [ns-Position] WHERE internal_id = ?"]));
    match &steps[0] {
        Step::Query(q) => match &q.query_type {
            QueryType::DeleteEntity(e) => {
                assert!(!e.is_historical);
                assert_eq!(shape(&e.ty), shape(&position()));
            }
            other => panic!("{:?}", other),
        },
        other => panic!("{:?}", other),
    }
}

#[test]
fn event_messages_are_keyed_by_the_hash_of_their_keys() {
    let keys = vec![felt(1), felt(2)];
    let steps = set_event_message(&sql_config(), &position(), &felt(1), "e", 5, &keys);
    // The hash of the two keys, and the selector of the tag.
    let one = starknet::core::types::Felt::from(1u8);
    let two = starknet::core::types::Felt::from(2u8);
    let hash = starknet_crypto::poseidon_hash_many(&[one, two]);
    match &steps[0] {
        Step::Query(q) => match &q.query_type {
            QueryType::EventMessage { world_address, entity } => {
                assert_eq!(*world_address, felt(1));
                assert_eq!(entity.entity_id, format!("{:#064x}:{:#064x}", 1, hash));
                let selector =
                    dojo_types::naming::compute_selector_from_names("ns", "Position");
                assert_eq!(entity.model_id, format!("{:#064x}:{:#064x}", 1, selector));
                assert_eq!(shape(&entity.ty), shape(&position()));
            }
            other => panic!("{:?}", other),
        },
        other => panic!("{:?}", other),
    }
}

#[test]
fn metadata_is_set_and_updated() {
    let q = set_metadata(&felt(1), "ipfs://x", 5);
    assert_eq!(
        q.statement,
        "INSERT INTO metadata (id, uri, executed_at) VALUES (?, ?, ?) ON CONFLICT(id) DO UPDATE SET \
         id=excluded.id, uri=excluded.uri, executed_at=excluded.executed_at, \
         updated_at=CURRENT_TIMESTAMP"
    );
    assert_eq!(q.arguments.len(), 3);
    assert_eq!(shown(&q.arguments)[..2], texts(&["element 1", "ipfs://x"]));
    let q = update_metadata(&felt(1), "u", "{}", &Some("i".into()), &None);
    assert_eq!(
        q.statement,
        "UPDATE metadata SET uri=?,json=?,updated_at=CURRENT_TIMESTAMP,icon_img=? WHERE id = ?"
    );
    assert_eq!(shown(&q.arguments), texts(&["u", "{}", "i", "element 1"]));
}

#[test]
fn receipts_tell_reverts() {
    let record = |reverted: Option<String>| ReceiptRecord {
        transaction_hash: felt(1),
        fee_amount: felt(0x1f),
        fee_unit: FeeUnit::Fri,
        finality_status: FinalityStatus::AcceptedOnL2,
        reverted,
        execution_resources_json: "{}".into(),
        block: ReceiptBlock::PreConfirmed { block_number: 9 },
        block_timestamp: 5,
    };
    let ok = shown(&store_transaction_receipt(&record(None)).arguments);
    assert!(ok.contains(&"SUCCEEDED".to_string()));
    assert!(ok.contains(&"0x1f".to_string()));
    let bad = shown(&store_transaction_receipt(&record(Some("why".into()))).arguments);
    assert!(bad.contains(&"REVERTED".to_string()));
    assert!(bad.contains(&"why".to_string()));
}

#[test]
fn messages_without_a_statement_tell_what_to_do() {
    let t = TokenId::Contract(felt(4));
    assert!(matches!(execute().query_type, QueryType::Execute));
    assert!(matches!(rollback().query_type, QueryType::Rollback));
    let moved = ContractCursor {
        contract_address: felt(1),
        head: Some(5),
        last_block_timestamp: Some(6),
        last_pending_block_tx: Some(felt(7)),
    };
    match update_cursors(vec![moved], vec![(felt(1), vec![felt(8)])]).query_type {
        QueryType::UpdateCursors { cursors, cursor_transactions } => {
            assert_eq!(cursors, vec![moved]);
            assert_eq!(cursor_transactions, vec![(felt(1), vec![felt(8)])]);
        }
        other => panic!("{:?}", other),
    }
    match apply_balances_diff(vec![], vec![], vec![moved]).query_type {
        QueryType::ApplyBalanceDiff { balances, supplies, cursors } => {
            assert!(balances.is_empty() && supplies.is_empty());
            assert_eq!(cursors, vec![moved]);
        }
        other => panic!("{:?}", other),
    }
    assert!(matches!(
        register_nft_token(felt(4), u256(1), "{}".into()).query_type,
        QueryType::RegisterNftToken { .. }
    ));
    assert!(matches!(
        update_token_metadata(t, "{}".into()).query_type,
        QueryType::UpdateTokenMetadata { .. }
    ));
    let q = register_contract(&felt(1), &ContractType::ERC20, 7);
    assert!(matches!(q.query_type, QueryType::RegisterContract));
    assert!(shown(&q.arguments).contains(&"ERC20".to_string()));
    let q = store_event("e", &vec![felt(1)], &vec![], &felt(2), 5);
    assert!(matches!(q.query_type, QueryType::StoreEvent));
    let q = register_contract(&felt(1), &ContractType::OTHER, u64::MAX);
    assert_eq!(shown(&q.arguments), texts(&["element 1", "element 1", "OTHER", "int -1"]));
    let q = add_controller("name", "0x1", Timestamp { secs: 0, nanos: 0 });
    assert_eq!(
        shown(&q.arguments),
        texts(&["name", "name", "0x1", "1970-01-01T00:00:00+00:00"])
    );
    let q = store_token_transfer("token_transfers", &t, &felt(1), &felt(2), &u256(3), 5, "e");
    assert!(matches!(q.query_type, QueryType::StoreTokenTransfer));
    assert!(shown(&q.arguments).contains(&"e 4".to_string()));
}

#[test]
fn transactions_are_stored_with_their_links() {
    let t = TransactionRecord {
        transaction_hash: felt(1),
        sender_address: felt(2),
        calldata: vec![felt(3)],
        max_fee: felt(4),
        signature: vec![],
        nonce: felt(5),
        block_number: 6,
        transaction_type: "INVOKE".into(),
        block_timestamp: 7,
    };
    let links = TransactionLinks {
        contract_addresses: vec![felt(8)],
        calls: vec![],
        unique_models: vec![felt(9)],
    };
    let q = store_transaction(&t, links);
    assert!(q.statement.starts_with("INSERT INTO transactions"));
    assert_eq!(
        shown(&q.arguments),
        texts(&[
            "element 1", "element 1", "element 2", "felts 1", "element 4", "felts 0", "element 5",
            "INVOKE", "time 7", "6"
        ])
    );
    assert!(matches!(q.query_type, QueryType::StoreTransaction(l) if l.unique_models == vec![felt(9)]));
    let q = register_token_contract(TokenContractRecord {
        contract_address: felt(1),
        name: "Wood".into(),
        symbol: "WOOD".into(),
        decimals: 18,
        metadata: None,
    });
    assert!(matches!(q.query_type, QueryType::RegisterTokenContract(r) if r.decimals == 18));
}

#[test]
fn rows_of_one_thing_are_asked_by_its_identifier() {
    assert_eq!(token_ids_statement(), "SELECT id FROM tokens");
    for s in [
        achievement_tasks_statement(),
        transaction_calls_statement(),
        transaction_models_statement(),
    ] {
        assert_eq!(s.matches('?').count(), 1);
    }
    assert_eq!(namespace_achievements_statement().matches('?').count(), 2);
}
