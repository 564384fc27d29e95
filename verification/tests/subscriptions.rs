use torii::felt::Felt;
use torii::sql::queries::TransactionFilter;
use torii::subscriptions::managers::{
    broker_subscriber_counts, sweep, sweep_manager, transaction_matches, worth_reporting,
    AchievementProgression, AchievementProgressionFilter, AchievementProgressionManager,
    AggregationEntry, AggregationFilter, AggregationManager, CallUpdate, GrpcConfig, Manager,
    SubscriberBookkeeping, Swept, TransactionManager, TransactionUpdate,
};
use torii::subscriptions::registry::{SendOutcome, Subscribers};

fn felt(v: u128) -> Felt {
    Felt::from_u128(v)
}

fn config() -> GrpcConfig {
    GrpcConfig { subscription_buffer_size: 16384, optimistic: false }
}

fn texts(list: &[&str]) -> Vec<String> {
    list.iter().map(|s| s.to_string()).collect()
}

#[test]
fn prune_removes_only_subscribers_whose_receiver_is_gone() {
    let mut manager = TransactionManager::new(config());

    manager.add_subscriber(1, None);
    manager.add_subscriber(2, None);
    assert_eq!(manager.subscriber_count(), 2);

    // Nothing to prune while both clients are attached.
    assert_eq!(manager.prune_closed(&vec![]), 0);
    assert_eq!(manager.subscriber_count(), 2);

    assert_eq!(manager.prune_closed(&vec![2]), 1);
    assert_eq!(manager.subscriber_count(), 1);

    let mut managers = vec![Manager::Transaction(manager)];
    let listeners = broker_subscriber_counts([0; 12]);
    let (grpc_subscribers, _, pruned) = sweep(&mut managers, &vec![vec![1]], &listeners);
    assert_eq!(pruned, 1);
    assert_eq!(grpc_subscribers, 0);
    assert_eq!(managers[0].subscriber_count(), 0);
}

fn anything() -> AggregationFilter {
    AggregationFilter { aggregator_ids: vec![], entity_ids: vec![] }
}

#[test]
fn sweeps_add_up() {
    let mut transactions = TransactionManager::new(config());
    let mut aggregations = AggregationManager::new(config());
    for id in 1..=5 {
        transactions.add_subscriber(id, None);
    }
    for id in 1..=7 {
        aggregations.add_subscriber(id, anything());
    }
    let mut managers =
        vec![Manager::Transaction(transactions), Manager::Aggregation(aggregations)];
    let mut counts = [0usize; 12];
    counts[0] = 3;
    counts[11] = 4;
    let listeners = broker_subscriber_counts(counts);
    assert_eq!(listeners.len(), 12);
    // Numbers of clients that are not there are passed over.
    let closed = vec![vec![2, 9], vec![7, 1]];
    assert_eq!(sweep(&mut managers, &closed, &listeners), (9, 7, 3));
    assert_eq!(managers[0].subscriber_count(), 4);
    assert_eq!(managers[1].subscriber_count(), 5);
    // Whoever is gone is not pruned again.
    assert_eq!(sweep(&mut managers, &closed, &listeners), (9, 7, 0));
    assert!(worth_reporting((9, 7), (9, 7), 1));
    assert!(worth_reporting((9, 7), (9, 8), 0));
    assert!(!worth_reporting((9, 7), (9, 7), 0));
}

#[test]
fn one_manager_is_swept() {
    let mut m = AggregationManager::new(config());
    m.add_subscriber(3, anything());
    m.add_subscriber(4, anything());
    assert_eq!(sweep_manager(&mut m, &vec![4, 5]), Swept { pruned: 1, remaining: 1 });
    assert_eq!(sweep_manager(&mut m, &vec![4, 5]), Swept { pruned: 0, remaining: 1 });
}

#[test]
fn registered_subscribers_keep_their_filters() {
    let mut s: Subscribers<u32> = Subscribers::new();
    assert_eq!(s.len(), 0);
    s.add(7, 70);
    s.add(u64::MAX, 1);
    s.add(7, 71);
    assert_eq!(s.len(), 2);
    assert!(s.contains(7) && !s.contains(8));
    s.update(8, 80);
    assert!(!s.contains(8));
    s.update(u64::MAX, 2);
    let mut ids = s.ids();
    ids.sort();
    assert_eq!(ids, vec![7, u64::MAX]);
    s.remove(7);
    s.remove(7);
    assert_eq!(s.ids(), vec![u64::MAX]);
    assert_eq!(s.prune_closed(&vec![u64::MAX, 3]), 1);
    assert_eq!(s.len(), 0);
}

fn transaction() -> TransactionUpdate {
    TransactionUpdate {
        transaction_hash: felt(5),
        block_number: 10,
        calls: vec![
            CallUpdate {
                caller_address: felt(21),
                contract_address: felt(31),
                entrypoint: "move".to_string(),
            },
            CallUpdate {
                caller_address: felt(22),
                contract_address: felt(32),
                entrypoint: "spawn".to_string(),
            },
        ],
        unique_models: vec![felt(41), felt(42)],
    }
}

fn every_transaction() -> TransactionFilter {
    TransactionFilter {
        transaction_hashes: vec![],
        caller_addresses: vec![],
        contract_addresses: vec![],
        entrypoints: vec![],
        model_selectors: vec![],
        from_block: None,
        to_block: None,
    }
}

#[test]
fn transactions_are_filtered_by_hash_and_block() {
    let t = transaction();
    let filter = |hashes: Vec<Felt>, from: Option<u64>, to: Option<u64>| {
        Some(TransactionFilter {
            transaction_hashes: hashes,
            from_block: from,
            to_block: to,
            ..every_transaction()
        })
    };
    assert!(transaction_matches(&None, &t));
    assert!(transaction_matches(&Some(every_transaction()), &t));
    assert!(transaction_matches(&filter(vec![felt(5)], None, None), &t));
    assert!(!transaction_matches(&filter(vec![felt(6)], None, None), &t));
    assert!(transaction_matches(&filter(vec![], Some(10), Some(10)), &t));
    assert!(!transaction_matches(&filter(vec![], Some(11), None), &t));
    assert!(!transaction_matches(&filter(vec![], None, Some(9)), &t));
}

#[test]
fn transactions_are_filtered_by_calls_and_models() {
    let t = transaction();
    let matches_filter = |f: TransactionFilter| transaction_matches(&Some(f), &t);
    // Some call, or some model, is to be listed.
    let callers = |v: Vec<Felt>| TransactionFilter { caller_addresses: v, ..every_transaction() };
    assert!(matches_filter(callers(vec![felt(9), felt(22)])));
    assert!(!matches_filter(callers(vec![felt(9), felt(31)])));
    let contracts =
        |v: Vec<Felt>| TransactionFilter { contract_addresses: v, ..every_transaction() };
    assert!(matches_filter(contracts(vec![felt(31)])));
    assert!(!matches_filter(contracts(vec![felt(21)])));
    let entrypoints =
        |v: &[&str]| TransactionFilter { entrypoints: texts(v), ..every_transaction() };
    assert!(matches_filter(entrypoints(&["jump", "spawn"])));
    assert!(!matches_filter(entrypoints(&["Spawn", "mov"])));
    let models = |v: Vec<Felt>| TransactionFilter { model_selectors: v, ..every_transaction() };
    assert!(matches_filter(models(vec![felt(42)])));
    assert!(!matches_filter(models(vec![felt(43)])));
    // Every list that is not empty asks for its own, each of any call.
    let two = TransactionFilter { entrypoints: texts(&["spawn"]), ..callers(vec![felt(21)]) };
    assert!(matches_filter(two));
    let two = TransactionFilter { model_selectors: vec![felt(1)], ..callers(vec![felt(21)]) };
    assert!(!matches_filter(two));
    let none = TransactionUpdate { calls: vec![], unique_models: vec![], ..transaction() };
    assert!(!transaction_matches(&Some(callers(vec![felt(21)])), &none));
    assert!(!transaction_matches(&Some(models(vec![felt(41)])), &none));
    assert!(transaction_matches(&Some(every_transaction()), &none));
}

#[test]
fn slow_and_lost_subscribers_are_dropped() {
    let mut m = TransactionManager::new(config());
    for id in 1..=3 {
        m.add_subscriber(id, None);
    }
    let t = transaction();
    let mut ids = m.receivers(&t);
    ids.sort();
    assert_eq!(ids, vec![1, 2, 3]);
    let d = m.process_transaction(
        &ids,
        &vec![SendOutcome::Sent, SendOutcome::Full, SendOutcome::Closed],
    );
    assert_eq!((d.full, d.closed), (1, 1));
    assert_eq!(m.receivers(&t), vec![1]);
}

fn progression(world: u128, namespace: &str, player: u128, id: &str) -> AchievementProgression {
    AchievementProgression {
        id: id.to_string(),
        world_address: felt(world),
        namespace: namespace.to_string(),
        player_id: felt(player),
    }
}

#[test]
fn progressions_reach_those_who_asked() {
    let all = || AchievementProgressionFilter {
        world_addresses: vec![],
        namespaces: vec![],
        player_addresses: vec![],
        achievement_ids: vec![],
    };
    let mut m = AchievementProgressionManager::new(config());
    m.add_subscriber(1, all());
    m.add_subscriber(2, AchievementProgressionFilter { player_addresses: vec![felt(7)], ..all() });
    m.add_subscriber(3, AchievementProgressionFilter { namespaces: texts(&["ns"]), ..all() });
    let sorted = |mut v: Vec<u64>| {
        v.sort();
        v
    };
    assert_eq!(sorted(m.receivers(&progression(1, "ns", 7, "a"))), vec![1, 2, 3]);
    assert_eq!(sorted(m.receivers(&progression(1, "other", 8, "a"))), vec![1]);
    m.update_subscriber(1, AchievementProgressionFilter { world_addresses: vec![felt(2)], ..all() });
    m.update_subscriber(9, all());
    assert_eq!(sorted(m.receivers(&progression(1, "other", 8, "a"))), Vec::<u64>::new());
    assert_eq!(m.subscriber_count(), 3);
    let d = m.process_progression_update(&vec![2, 3], &vec![SendOutcome::Full, SendOutcome::Sent]);
    assert_eq!((d.full, d.closed), (1, 0));
    assert_eq!(m.subscriber_count(), 2);
}

#[test]
fn aggregations_reach_those_who_asked() {
    let mut m = AggregationManager::new(config());
    m.add_subscriber(4, AggregationFilter { aggregator_ids: texts(&["a"]), entity_ids: vec![] });
    let e = |a: &str, i: &str| AggregationEntry {
        aggregator_id: a.to_string(),
        entity_id: i.to_string(),
    };
    assert_eq!(m.receivers(&e("a", "x")), vec![4]);
    assert!(m.receivers(&e("b", "x")).is_empty());
    m.update_subscriber(
        4,
        AggregationFilter { aggregator_ids: vec![], entity_ids: texts(&["x"]) },
    );
    assert_eq!(m.receivers(&e("b", "x")), vec![4]);
    assert!(m.receivers(&e("b", "y")).is_empty());
    let d = m.process_aggregation_update(&vec![4], &vec![SendOutcome::Closed]);
    assert_eq!((d.full, d.closed), (0, 1));
    assert_eq!(m.subscriber_count(), 0);
}
