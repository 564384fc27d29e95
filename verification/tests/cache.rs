use torii::abi::{
    class_abi, flatten_abi_funcs_recursive, get_entrypoint_name_from_class,
    readable_entrypoint_name, AbiEntry, BlockRef, ClassAbi, ClassAction, ClassEvent, ClassStage,
    ContractClassCache, EntryPoint, LegacyEntry, ReadClass,
};
use torii::cache::{balance_change, CacheError, ErcCache, InMemoryCache, Model, ModelCache};
use torii::felt::Felt;
use torii::ledger::{add_amounts, sub_amounts, I256};
use torii::schema::{Ty, U256};
use torii::sql::errors::{SqlError, StorageError};
use torii::tokens::TokenId;

fn felt(v: u128) -> Felt {
    Felt::from_u128(v)
}

fn token_id(byte: u8) -> TokenId {
    TokenId::Contract(felt(byte as u128))
}

fn u256(v: u128) -> U256 {
    U256 { hi: 0, lo: v }
}

fn signed(v: i128) -> I256 {
    I256 { value: u256(v.unsigned_abs()), is_negative: v < 0 }
}

fn model(world: Felt, selector: Felt, name: &str) -> Model {
    Model {
        world_address: world,
        namespace: "ns".into(),
        name: name.into(),
        selector,
        class_hash: felt(0),
        contract_address: felt(0),
        packed_size: 0,
        unpacked_size: 0,
        layout_json: "[]".into(),
        schema: Ty::Tuple(vec![]),
        use_legacy_store: true,
    }
}

#[test]
fn reset_token_registry_drops_uncommitted_marks() {
    let committed = vec![token_id(1)];
    let mut cache = InMemoryCache::new(vec![], &committed);

    cache.erc_cache.mark_token_registered(token_id(2));
    assert!(cache.erc_cache.is_token_registered(&token_id(1)));
    assert!(cache.erc_cache.is_token_registered(&token_id(2)));

    cache.erc_cache.reset_token_registry(Ok(&committed)).unwrap();

    assert!(cache.erc_cache.is_token_registered(&token_id(1)));
    assert!(!cache.erc_cache.is_token_registered(&token_id(2)));
}

#[test]
fn clear_models_empties_the_cache() {
    let mut cache = InMemoryCache::new(vec![], &vec![]);
    let world = felt(0xa);
    let selector = felt(0xb);
    cache.model_cache.set(world, selector, model(world, selector, "M"));
    assert!(cache.model_cache.model(world, selector).is_ok());

    cache.model_cache.clear();

    assert!(matches!(
        cache.model_cache.model(world, selector),
        Err(CacheError::ModelNotFound(s)) if s == selector
    ));
}

#[test]
fn models_are_listed_by_world_and_selector() {
    let mut cache = ModelCache::new(vec![
        model(felt(1), felt(10), "A"),
        model(felt(2), felt(10), "B"),
        model(felt(1), felt(11), "C"),
        model(felt(1), felt(10), "D"),
    ]);
    let names = |w: &[Felt], s: &[Felt], c: &ModelCache| -> Vec<String> {
        c.models(w, s).iter().map(|m| m.name.clone()).collect()
    };
    assert_eq!(names(&[], &[], &cache), vec!["D", "C", "B"]);
    assert_eq!(names(&[felt(2), felt(1)], &[], &cache), vec!["B", "D", "C"]);
    assert_eq!(names(&[felt(1)], &[felt(11), felt(9), felt(10)], &cache), vec!["C", "D"]);
    assert_eq!(names(&[], &[felt(10)], &cache), vec!["D", "B"]);
    assert_eq!(names(&[felt(3)], &[], &cache), Vec::<String>::new());
    cache.set(felt(3), felt(1), model(felt(3), felt(1), "E"));
    assert_eq!(names(&[felt(3)], &[], &cache), vec!["E"]);
}

#[test]
fn a_token_is_registered_under_one_lock() {
    let mut cache = ErcCache::new(&vec![token_id(1)]);
    assert_eq!(cache.get_token_registration_lock(token_id(1)), None);
    let lock = cache.get_token_registration_lock(token_id(2)).unwrap();
    assert_eq!(cache.get_token_registration_lock(token_id(2)), Some(lock));
    let other = cache.get_token_registration_lock(token_id(3)).unwrap();
    assert!(other != lock);
    assert!(!cache.is_token_registered(&token_id(2)));
    cache.mark_token_registered(token_id(2));
    assert_eq!(cache.get_token_registration_lock(token_id(2)), None);
}

fn balances(cache: &ErcCache) -> Vec<(Felt, TokenId, I256)> {
    let mut v: Vec<(Felt, TokenId, I256)> = cache
        .balances_diff()
        .into_iter()
        .map(|c| {
            let d = balance_change(c);
            (d.id.account_address, d.id.token_id, d.diff)
        })
        .collect();
    v.sort_by_key(|x| x.0.lo);
    v
}

#[test]
fn transfers_move_balances_and_supplies() {
    let mut cache = ErcCache::new(&vec![]);
    let t = token_id(9);
    // Minted, moved on and burned in part.
    cache.update_balance_diff(t, felt(0), felt(1), u256(1000));
    cache.update_balance_diff(t, felt(1), felt(2), u256(300));
    cache.update_balance_diff(t, felt(2), felt(0), u256(200));
    cache.update_balance_diff(t, felt(3), felt(3), u256(5));
    cache.update_balance_diff(t, felt(0), felt(0), u256(7));
    assert_eq!(
        balances(&cache),
        vec![
            (felt(1), t, signed(700)),
            (felt(2), t, signed(100)),
            (felt(3), t, signed(0)),
        ]
    );
    let supply = cache.total_supply_diff();
    assert_eq!(supply.len(), 1);
    assert_eq!(balance_change(supply[0]).diff, signed(800));
    cache.clear_balances_diff();
    assert!(cache.balances_diff().is_empty());
    assert!(cache.total_supply_diff().is_empty());
}

#[test]
fn a_first_transfer_away_is_negative() {
    let mut cache = ErcCache::new(&vec![]);
    let nft = TokenId::Nft(felt(4), U256 { hi: 1, lo: 2 });
    cache.update_balance_diff(nft, felt(6), felt(0), u256(1));
    assert_eq!(balances(&cache), vec![(felt(6), nft, signed(-1))]);
    assert_eq!(balance_change(cache.total_supply_diff()[0]).diff, signed(-1));
    let mut cache = ErcCache::new(&vec![]);
    cache.update_balance_diff(nft, felt(6), felt(7), u256(0));
    let d = balances(&cache);
    assert!(d[0].2.is_negative);
    assert!(!d[1].2.is_negative);
    assert_eq!(d[0].2.value, u256(0));
}

#[test]
fn nothing_uncommitted_is_left_after_a_rollback() {
    let mut cache = InMemoryCache::new(vec![model(felt(1), felt(2), "A")], &vec![token_id(1)]);
    cache.erc_cache.update_balance_diff(token_id(1), felt(0), felt(5), u256(1));
    cache.erc_cache.mark_token_registered(token_id(2));
    cache.forget_uncommitted(Ok(&vec![token_id(1)])).unwrap();
    assert!(cache.erc_cache.balances_diff().is_empty());
    assert!(cache.model_cache.model(felt(1), felt(2)).is_err());
    assert!(cache.erc_cache.is_token_registered(&token_id(1)));
    assert!(!cache.erc_cache.is_token_registered(&token_id(2)));
}

fn unreadable() -> StorageError {
    StorageError::Sql(SqlError::Database("disk".to_string()))
}

#[test]
fn a_failed_read_leaves_the_registry() {
    let mut cache = InMemoryCache::new(vec![model(felt(1), felt(2), "A")], &vec![token_id(1)]);
    cache.erc_cache.mark_token_registered(token_id(2));
    let lock = cache.erc_cache.get_token_registration_lock(token_id(3));
    let told = cache.erc_cache.reset_token_registry(Err(unreadable()));
    match told {
        Err(CacheError::Storage(e)) => {
            assert!(matches!(*e, StorageError::Sql(SqlError::Database(s)) if s == "disk"))
        }
        other => panic!("{:?}", other),
    }
    assert!(cache.erc_cache.is_token_registered(&token_id(1)));
    assert!(cache.erc_cache.is_token_registered(&token_id(2)));
    assert_eq!(cache.erc_cache.get_token_registration_lock(token_id(3)), lock);
    assert!(cache.forget_uncommitted(Err(unreadable())).is_err());
    assert!(cache.model_cache.model(felt(1), felt(2)).is_err());
    assert!(cache.erc_cache.is_token_registered(&token_id(2)));
}

#[test]
fn locks_are_never_given_twice() {
    let mut cache = ErcCache::new(&vec![]);
    let first = cache.get_token_registration_lock(token_id(1)).unwrap();
    cache.mark_token_registered(token_id(1));
    cache.reset_token_registry(Ok(&vec![])).unwrap();
    let second = cache.get_token_registration_lock(token_id(1)).unwrap();
    let third = cache.get_token_registration_lock(token_id(2)).unwrap();
    assert!(first != second && second != third && first != third);
}

#[test]
fn amounts_carry_between_halves() {
    let top = I256 { value: U256 { hi: 0, lo: u128::MAX }, is_negative: false };
    assert_eq!(
        add_amounts(top, signed(1)),
        I256 { value: U256 { hi: 1, lo: 0 }, is_negative: false }
    );
    assert_eq!(
        sub_amounts(signed(-1), top),
        I256 { value: U256 { hi: 1, lo: 0 }, is_negative: true }
    );
    let wide = I256 { value: U256 { hi: 1, lo: 0 }, is_negative: false };
    assert_eq!(sub_amounts(wide, signed(1)), top);
    assert_eq!(sub_amounts(signed(5), signed(7)), signed(-2));
    assert_eq!(add_amounts(signed(-5), signed(5)), signed(0));
}

#[test]
fn interfaces_are_flattened_in_place() {
    let abi = vec![
        AbiEntry::Other,
        AbiEntry::Function("a".into()),
        AbiEntry::Interface(vec![
            AbiEntry::Function("b".into()),
            AbiEntry::Interface(vec![AbiEntry::L1Handler("c".into())]),
        ]),
        AbiEntry::Constructor("d".into()),
    ];
    assert_eq!(flatten_abi_funcs_recursive(&abi), vec!["a", "b", "c", "d"]);
}

#[test]
fn entry_points_are_named_by_selector() {
    let class = ClassAbi::Sierra {
        entry_points: vec![
            EntryPoint { selector: felt(7), function_idx: 1 },
            EntryPoint { selector: felt(8), function_idx: 5 },
        ],
        functions: vec!["x".into(), "y".into()],
    };
    assert_eq!(get_entrypoint_name_from_class(&class, felt(7)), Some("y".to_string()));
    assert_eq!(get_entrypoint_name_from_class(&class, felt(8)), None);
    assert_eq!(get_entrypoint_name_from_class(&class, felt(9)), None);
}

#[test]
fn classes_are_kept_by_kind_of_entry_point() {
    let point = |s: u128, i: u64| EntryPoint { selector: felt(s), function_idx: i };
    let kept = class_abi(ReadClass::Sierra {
        external: vec![point(1, 2), point(2, 1)],
        l1_handler: vec![point(1, 0)],
        constructor: vec![point(3, 0)],
        abi: vec![
            AbiEntry::Constructor("c".into()),
            AbiEntry::Interface(vec![AbiEntry::Function("f".into()), AbiEntry::Function("g".into())]),
        ],
    });
    match &kept {
        ClassAbi::Sierra { entry_points, functions } => {
            assert_eq!(
                *entry_points,
                vec![point(1, 2), point(2, 1), point(1, 0), point(3, 0)]
            );
            assert_eq!(*functions, vec!["c", "f", "g"]);
        }
        other => panic!("{:?}", other),
    }
    assert_eq!(get_entrypoint_name_from_class(&kept, felt(1)), Some("g".to_string()));
    assert!(matches!(
        class_abi(ReadClass::Legacy(None)),
        ClassAbi::Legacy(e) if e.is_empty()
    ));
}

#[test]
fn older_classes_are_searched_by_the_hash_of_names() {
    let transfer =
        Felt::from_hex("0x83afd3f4caedc6eebf44246fe54e38c95e3179a5ec9ea81740eca5b482d12e").unwrap();
    let class = ClassAbi::Legacy(vec![
        LegacyEntry::Other,
        LegacyEntry::Function("approve".into()),
        LegacyEntry::Function("transfer".into()),
    ]);
    assert_eq!(get_entrypoint_name_from_class(&class, transfer), Some("transfer".to_string()));
    assert_eq!(get_entrypoint_name_from_class(&class, felt(0)), None);
    // Names after the first of the selector are not read.
    let late = ClassAbi::Legacy(vec![
        LegacyEntry::Function("transfer".into()),
        LegacyEntry::Function("\u{e9}".into()),
    ]);
    assert_eq!(get_entrypoint_name_from_class(&late, transfer), Some("transfer".to_string()));
    assert_eq!(readable_entrypoint_name(&late, transfer), Some(Some("transfer".to_string())));
    assert_eq!(readable_entrypoint_name(&late, felt(5)), None);
    assert_eq!(readable_entrypoint_name(&class, felt(5)), Some(None));
    let class = ClassAbi::Legacy(vec![LegacyEntry::Function("__default__".into())]);
    assert_eq!(get_entrypoint_name_from_class(&class, felt(0)), Some("__default__".to_string()));
}

#[test]
fn an_unknown_block_is_asked_for_once_more() {
    let mut cache = ContractClassCache::new();
    let block = BlockRef::Number(5);
    let (s, a) = cache.get(felt(1), ClassStage::Begin, ClassEvent::Started { block });
    assert_eq!(a, ClassAction::AskHash { block });
    let (s, a) = cache.get(felt(1), s, ClassEvent::BlockNotFound);
    assert_eq!(a, ClassAction::AskHash { block: BlockRef::PreConfirmed });
    assert_eq!(cache.get(felt(1), s, ClassEvent::BlockNotFound).1, ClassAction::Fail);
    let (s, a) = cache.get(felt(1), s, ClassEvent::Hash(felt(3)));
    assert_eq!(a, ClassAction::AskClass { block: BlockRef::PreConfirmed });
    let (s, a) = cache.get(felt(1), s, ClassEvent::Class);
    assert_eq!(a, ClassAction::Keep { class_hash: felt(3) });
    assert_eq!(s, ClassStage::Done);
    cache.insert(felt(1), felt(3), ClassAbi::Legacy(vec![]));
    assert!(cache.cached(felt(1)).is_some());
    assert!(cache.cached(felt(2)).is_none());
    // A class that is kept again takes the place of the one before.
    cache.insert(felt(2), felt(4), ClassAbi::Legacy(vec![]));
    cache.insert(felt(1), felt(5), ClassAbi::Legacy(vec![LegacyEntry::Other]));
    assert_eq!(cache.classes.len(), 2);
    assert!(matches!(cache.cached(felt(1)), Some(ClassAbi::Legacy(e)) if e.len() == 1));
    assert!(matches!(cache.cached(felt(2)), Some(ClassAbi::Legacy(e)) if e.is_empty()));
    let (_, a) = cache.get(felt(1), ClassStage::Begin, ClassEvent::Started { block });
    assert_eq!(a, ClassAction::Known);
}
