use torii::felt::Felt;
use torii::options::{
    deserialize_contracts, parse_aggregator_config, parse_erc_contract, parse_hook,
    parse_model_indices, serialize_contracts, AchievementOptions, ActivityOptions, Aggregation,
    ContractDefinition, ContractType, ErcOptions, GrpcOptions, HookEvent, IndexingOptions,
    IpAddress, MessagingOptions, MetricsOptions, OptionError, RelayOptions, RunnerOptions,
    SearchOptions, ServerOptions, SnapshotOptions, SortOrder, SqlOptions,
};

fn felt(v: u128) -> Felt {
    Felt::from_u128(v)
}

fn texts(list: &[&str]) -> Vec<String> {
    list.iter().map(|s| s.to_string()).collect()
}

#[test]
fn model_indices_are_a_tag_and_fields() {
    let m = parse_model_indices("ns-Position:x,y").unwrap();
    assert_eq!(m.model_tag, "ns-Position");
    assert_eq!(m.fields, vec!["x", "y"]);
    assert_eq!(parse_model_indices("ns-Position").unwrap_err(), OptionError::ModelIndicesFormat);
    assert_eq!(parse_model_indices("a:b:c").unwrap_err(), OptionError::ModelIndicesFormat);
    assert_eq!(OptionError::ModelIndicesFormat.message(), "Invalid model indices format");
}

#[test]
fn hooks_name_an_event_and_a_model() {
    let h = parse_hook("model_updated:ns-Player:UPDATE t SET a = 1").unwrap();
    assert!(matches!(h.event, HookEvent::ModelUpdated { model_tag } if model_tag == "ns-Player"));
    assert_eq!(h.statement, "UPDATE t SET a = 1");
    let h = parse_hook("model_registered:ns-A:S").unwrap();
    assert!(matches!(h.event, HookEvent::ModelRegistered { model_tag } if model_tag == "ns-A"));
    let h = parse_hook("model_deleted:ns-B:S").unwrap();
    assert!(matches!(h.event, HookEvent::ModelDeleted { model_tag } if model_tag == "ns-B"));
    assert_eq!(parse_hook("a:b").unwrap_err(), OptionError::HookFormat);
    assert_eq!(parse_hook("model_updated::S").unwrap_err(), OptionError::HookDataEmpty);
    assert_eq!(parse_hook("model_registered:a,b:S").unwrap_err(), OptionError::RegisteredTagCount);
    assert_eq!(parse_hook("model_updated:a,b:S").unwrap_err(), OptionError::UpdatedTagCount);
    assert_eq!(parse_hook("model_deleted:a,b:S").unwrap_err(), OptionError::DeletedTagCount);
    assert_eq!(parse_hook("other:a:S").unwrap_err(), OptionError::HookEventType);
}

#[test]
fn contracts_are_kind_address_and_block() {
    assert_eq!(
        parse_erc_contract("ERC20:0x10"),
        Ok(ContractDefinition {
            address: felt(16),
            kind: ContractType::ERC20,
            starting_block: None
        })
    );
    assert_eq!(
        parse_erc_contract("erc721:17:42"),
        Ok(ContractDefinition {
            address: felt(17),
            kind: ContractType::ERC721,
            starting_block: Some(42)
        })
    );
    assert_eq!(parse_erc_contract("erc20"), Err(OptionError::ContractFormat));
    assert_eq!(parse_erc_contract("a:b:c:d"), Err(OptionError::ContractFormat));
    assert_eq!(parse_erc_contract("erc99:0x1"), Err(OptionError::ContractKind));
    assert_eq!(parse_erc_contract("erc20:zz"), Err(OptionError::ContractAddress));
    assert_eq!(parse_erc_contract("erc20:0x1:-1"), Err(OptionError::ContractBlock));
    assert_eq!(
        parse_erc_contract("erc20:0x1:18446744073709551616"),
        Err(OptionError::ContractBlock)
    );
}

#[test]
fn written_contracts_read_back() {
    let kinds = [
        ContractType::WORLD,
        ContractType::ERC20,
        ContractType::ERC721,
        ContractType::ERC1155,
        ContractType::UDC,
        ContractType::OTHER,
    ];
    let mut list = Vec::new();
    for (i, kind) in kinds.into_iter().enumerate() {
        list.push(ContractDefinition {
            address: felt(0xabc + i as u128),
            kind,
            starting_block: if i % 2 == 0 { Some(i as u64) } else { None },
        });
    }
    let written = serialize_contracts(&list);
    assert_eq!(written[0], "WORLD:0xabc:0");
    assert_eq!(written[1], "ERC20:0xabd");
    assert_eq!(deserialize_contracts(&written), Ok(list));
    assert_eq!(
        deserialize_contracts(&texts(&["erc20:0x1", "erc20:", "x"])),
        Err(OptionError::ContractAddress)
    );
}

#[test]
fn kinds_are_read_in_any_case() {
    assert_eq!(ContractType::parse("WoRlD"), Some(ContractType::WORLD));
    assert_eq!(ContractType::parse("udc"), Some(ContractType::UDC));
    assert_eq!(ContractType::parse("other"), Some(ContractType::OTHER));
    assert_eq!(ContractType::parse("ERC1155"), Some(ContractType::ERC1155));
    assert_eq!(ContractType::parse("ERC\u{212A}"), None);
}

#[test]
fn aggregators_take_five_or_six_parts() {
    let a = parse_aggregator_config("top:ns-Score:player, day:points:DESC").unwrap();
    assert_eq!(a.id, "top");
    assert_eq!(a.model_tag, "ns-Score");
    assert_eq!(a.group_by, vec!["player", "day"]);
    assert!(matches!(a.aggregation, Aggregation::Latest(f) if f == "points"));
    assert_eq!(a.order, SortOrder::Desc);
    for word in ["+1", "increment", "count"] {
        let a = parse_aggregator_config(&format!("t:m:g:{}:asc", word)).unwrap();
        assert!(matches!(a.aggregation, Aggregation::Count));
        assert_eq!(a.order, SortOrder::Asc);
    }
    let a = parse_aggregator_config("t:m:g:MAX:f.x:asc").unwrap();
    assert!(matches!(a.aggregation, Aggregation::Max(f) if f == "f.x"));
    let a = parse_aggregator_config("t:m:g:min:f:asc").unwrap();
    assert!(matches!(a.aggregation, Aggregation::Min(_)));
    let a = parse_aggregator_config("t:m:g:sum:f:asc").unwrap();
    assert!(matches!(a.aggregation, Aggregation::Sum(_)));
    let a = parse_aggregator_config("t:m:g:Average:f:asc").unwrap();
    assert!(matches!(a.aggregation, Aggregation::Avg(_)));
    assert_eq!(parse_aggregator_config("t:m").unwrap_err(), OptionError::AggregatorFormat);
    assert_eq!(
        parse_aggregator_config("t:m:g:med:f:asc").unwrap_err(),
        OptionError::AggregationType
    );
    assert_eq!(parse_aggregator_config("t:m:g:f:up").unwrap_err(), OptionError::AggregatorOrder);
    assert_eq!(parse_aggregator_config("t:m: , :f:asc").unwrap_err(), OptionError::GroupByEmpty);
}

#[test]
fn metadata_updates_follow_the_lists() {
    let mut o = ErcOptions::default();
    assert!(o.should_process_metadata_updates(&felt(0xab)));
    o.metadata_update_whitelist = texts(&[" 0xAB ", "cd"]);
    assert!(o.should_process_metadata_updates(&felt(0xab)));
    assert!(o.should_process_metadata_updates(&felt(0xcd)));
    assert!(!o.should_process_metadata_updates(&felt(0xef)));
    o.metadata_update_blacklist = texts(&["AB"]);
    assert!(!o.should_process_metadata_updates(&felt(0xab)));
    o.metadata_update_blacklist = vec![];
    o.metadata_updates = false;
    assert!(!o.should_process_metadata_updates(&felt(0xab)));
}

#[test]
fn zero_switches_keepalives_off() {
    let mut o = GrpcOptions::default();
    assert_eq!(o.tcp_keepalive_duration(), Some(60));
    assert_eq!(o.http2_keepalive_interval_duration(), Some(30));
    assert_eq!(o.http2_keepalive_timeout_duration(), Some(10));
    o.tcp_keepalive_interval = 0;
    o.http2_keepalive_interval = 0;
    o.http2_keepalive_timeout = 0;
    assert_eq!(o.tcp_keepalive_duration(), None);
    assert_eq!(o.http2_keepalive_interval_duration(), None);
    assert_eq!(o.http2_keepalive_timeout_duration(), None);
}

#[test]
fn defaults_are_the_documented_ones() {
    let r = RelayOptions::default();
    assert_eq!((r.port, r.webrtc_port, r.websocket_port), (9090, 9091, 9092));
    let i = IndexingOptions::default();
    assert_eq!((i.events_chunk_size, i.blocks_chunk_size, i.polling_interval), (1024, 10240, 500));
    assert_eq!(i.max_concurrent_tasks, 100);
    assert!(i.preconfirmed && !i.transactions);
    let s = ServerOptions::default();
    assert_eq!(s.http_addr, IpAddress::V4(0x7f00_0001));
    assert_eq!(s.http_port, 8080);
    assert!(s.raw_sql);
    assert_eq!(MetricsOptions::default().metrics_port, 9200);
    let q = SqlOptions::default();
    assert_eq!((q.wal_autocheckpoint, q.busy_timeout, q.max_connections), (10000, 60_000, 100));
    assert_eq!(q.hard_memory_limit, 2 * 1024 * 1024 * 1024);
    assert_eq!(ActivityOptions::default().session_timeout, 3600);
    assert!(!AchievementOptions::default().registration_model_name.is_empty());
    assert!(SearchOptions::default().prefix_matching);
    assert!(SnapshotOptions::default().url.is_none());
    assert_eq!(RunnerOptions::default().allocation_strategy, "adaptive");
    assert_eq!(MessagingOptions::default().max_age, 300_000);
}
