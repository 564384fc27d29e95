use torii::felt::Felt;
use torii::schema::{Enum, EnumOption, Member, Primitive, Struct, Ty, U256};
use torii::subscriptions::matching::{
    match_entity, match_keys, Clause, ComparisonOperator, CompositeClause, KeysClause,
    LogicalOperator, MemberClause, MemberValue, PatternMatching,
};

fn felt(v: u128) -> Felt {
    Felt::from_u128(v)
}

fn create_test_model(name: &str, score: u32) -> Ty {
    Ty::Struct(Struct {
        name: name.to_string(),
        children: vec![Member {
            name: "score".to_string(),
            ty: Ty::Primitive(Primitive::U32(Some(score))),
            key: false,
        }],
    })
}

fn member(name: &str, operator: ComparisonOperator, value: MemberValue) -> Clause {
    Clause::Member(MemberClause {
        model: "Game-Player".to_string(),
        member: name.to_string(),
        operator,
        value,
    })
}

#[test]
fn test_member_clause_matches_deletion_with_matching_value() {
    let id = felt(1);
    let keys = vec![felt(1), felt(2)];
    let model = Some(create_test_model("Game-Player", 150));

    let clause = Clause::Member(MemberClause {
        model: "Game-Player".to_string(),
        member: "score".to_string(),
        operator: ComparisonOperator::Gte,
        value: MemberValue::Primitive(Primitive::U32(Some(100))),
    });

    assert!(match_entity(id, &keys, &model, &clause));
}

#[test]
fn test_member_clause_rejects_deletion_with_non_matching_value() {
    let id = felt(1);
    let keys = vec![felt(1), felt(2)];
    let model = Some(create_test_model("Game-Player", 50));

    let clause = Clause::Member(MemberClause {
        model: "Game-Player".to_string(),
        member: "score".to_string(),
        operator: ComparisonOperator::Gte,
        value: MemberValue::Primitive(Primitive::U32(Some(100))),
    });

    assert!(!match_entity(id, &keys, &model, &clause));
}

#[test]
fn test_member_clause_with_none_model_returns_false() {
    let id = felt(1);
    let keys = vec![felt(1), felt(2)];
    let model: Option<Ty> = None;

    let clause = Clause::Member(MemberClause {
        model: "Game-Player".to_string(),
        member: "score".to_string(),
        operator: ComparisonOperator::Gte,
        value: MemberValue::Primitive(Primitive::U32(Some(100))),
    });

    assert!(!match_entity(id, &keys, &model, &clause));
}

#[test]
fn test_keys_clause_matches_deletion() {
    let id = felt(1);
    let keys = vec![felt(1), felt(2)];
    let model = Some(create_test_model("Game-Player", 100));

    let clause = Clause::Keys(KeysClause {
        keys: vec![Some(felt(1)), None],
        pattern_matching: PatternMatching::VariableLen,
        models: vec![],
    });

    assert!(match_entity(id, &keys, &model, &clause));
}

#[test]
fn test_hashed_keys_clause_matches_deletion() {
    let id = felt(123);
    let keys = vec![felt(1), felt(2)];
    let model = Some(create_test_model("Game-Player", 100));

    let clause = Clause::HashedKeys(vec![felt(123), felt(456)]);

    assert!(match_entity(id, &keys, &model, &clause));
}

#[test]
fn test_hashed_keys_clause_rejects_non_matching_id() {
    let id = felt(789);
    let keys = vec![felt(1), felt(2)];
    let model = Some(create_test_model("Game-Player", 100));

    let clause = Clause::HashedKeys(vec![felt(123), felt(456)]);

    assert!(!match_entity(id, &keys, &model, &clause));
}

#[test]
fn an_empty_list_of_hashed_keys_matches_every_entity() {
    assert!(match_entity(felt(9), &[], &None, &Clause::HashedKeys(vec![])));
}

#[test]
fn models_of_a_keys_clause_take_wildcards() {
    let model = Some(create_test_model("Game-Player", 1));
    let keys = vec![felt(1)];
    for (asked, wanted) in [
        ("", true),
        ("Game", true),
        ("Game-", true),
        ("Game-*", true),
        ("*-Player", true),
        ("-Player", true),
        ("Game-Player", true),
        ("Other-Player", false),
        ("Game-Enemy", false),
        ("Player", false),
    ] {
        let clause = Clause::Keys(KeysClause {
            keys: vec![],
            pattern_matching: PatternMatching::VariableLen,
            models: vec![asked.to_string()],
        });
        assert_eq!(match_entity(felt(1), &keys, &model, &clause), wanted, "{}", asked);
    }
    let clause = Clause::Keys(KeysClause {
        keys: vec![],
        pattern_matching: PatternMatching::VariableLen,
        models: vec!["Game-Player".to_string()],
    });
    assert!(!match_entity(felt(1), &keys, &None, &clause));
}

#[test]
fn fixed_patterns_ask_for_their_own_length() {
    let fixed = KeysClause {
        keys: vec![None, Some(felt(2))],
        pattern_matching: PatternMatching::FixedLen,
        models: vec![],
    };
    assert!(match_keys(&[felt(7), felt(2)], &[fixed]));
    let fixed = KeysClause {
        keys: vec![None],
        pattern_matching: PatternMatching::FixedLen,
        models: vec![],
    };
    assert!(!match_keys(&[felt(7), felt(2)], &[fixed]));
    let variable = KeysClause {
        keys: vec![Some(felt(7))],
        pattern_matching: PatternMatching::VariableLen,
        models: vec![],
    };
    assert!(match_keys(&[felt(7), felt(2)], &[variable]));
    assert!(match_keys(&[felt(7)], &[]));
}

fn rich_model() -> Option<Ty> {
    Some(Ty::Struct(Struct {
        name: "Game-Player".to_string(),
        children: vec![
            Member {
                name: "name".to_string(),
                ty: Ty::ByteArray("bob".to_string()),
                key: false,
            },
            Member {
                name: "scores".to_string(),
                ty: Ty::Array(vec![
                    Ty::Primitive(Primitive::U8(Some(3))),
                    Ty::Primitive(Primitive::U8(Some(5))),
                ]),
                key: false,
            },
            Member {
                name: "pair".to_string(),
                ty: Ty::Tuple(vec![
                    Ty::Primitive(Primitive::Bool(Some(true))),
                    Ty::Primitive(Primitive::I8(Some(-4))),
                ]),
                key: false,
            },
            Member {
                name: "state".to_string(),
                ty: Ty::Enum(Enum {
                    name: "State".to_string(),
                    option: Some(1),
                    options: vec![
                        EnumOption { name: "Idle".to_string(), ty: Ty::Tuple(vec![]) },
                        EnumOption {
                            name: "Moving".to_string(),
                            ty: Ty::Primitive(Primitive::U256(Some(U256 { hi: 1, lo: 0 }))),
                        },
                    ],
                }),
                key: false,
            },
        ],
    }))
}

fn matches_rich(clause: Clause) -> bool {
    match_entity(felt(1), &[], &rich_model(), &clause)
}

#[test]
fn members_are_found_by_path() {
    let text = |s: &str| MemberValue::String(s.to_string());
    assert!(matches_rich(member("name", ComparisonOperator::Eq, text("bob"))));
    assert!(matches_rich(member("name", ComparisonOperator::Gt, text("alice"))));
    assert!(matches_rich(member("name", ComparisonOperator::Lte, text("bob"))));
    assert!(!matches_rich(member("name", ComparisonOperator::Lt, text("bob"))));
    assert!(matches_rich(member(
        "pair.1",
        ComparisonOperator::Lt,
        MemberValue::Primitive(Primitive::I8(Some(0)))
    )));
    assert!(!matches_rich(member(
        "pair.2",
        ComparisonOperator::Lt,
        MemberValue::Primitive(Primitive::I8(Some(0)))
    )));
    assert!(matches_rich(member("state", ComparisonOperator::Eq, text("Moving"))));
    assert!(matches_rich(member("state.anything", ComparisonOperator::Neq, text("Idle"))));
    assert!(!matches_rich(member("missing", ComparisonOperator::Neq, text("Idle"))));
}

#[test]
fn arrays_are_compared_by_contents_and_length() {
    let five = || MemberValue::Primitive(Primitive::U8(Some(5)));
    let nine = || MemberValue::Primitive(Primitive::U8(Some(9)));
    assert!(matches_rich(member("scores", ComparisonOperator::Contains, five())));
    assert!(!matches_rich(member("scores", ComparisonOperator::Contains, nine())));
    assert!(matches_rich(member(
        "scores",
        ComparisonOperator::ContainsAny,
        MemberValue::List(vec![nine(), five()])
    )));
    assert!(!matches_rich(member(
        "scores",
        ComparisonOperator::ContainsAll,
        MemberValue::List(vec![nine(), five()])
    )));
    assert!(matches_rich(member(
        "scores",
        ComparisonOperator::ArrayLengthEq,
        MemberValue::Primitive(Primitive::U32(Some(2)))
    )));
    assert!(!matches_rich(member(
        "scores",
        ComparisonOperator::ArrayLengthGt,
        MemberValue::Primitive(Primitive::U32(Some(2)))
    )));
    // An index picks the element that is compared.
    assert!(matches_rich(member("scores[1]", ComparisonOperator::Eq, five())));
    assert!(!matches_rich(member("scores[0]", ComparisonOperator::Eq, five())));
    assert!(!matches_rich(member("scores[2]", ComparisonOperator::Neq, five())));
    assert!(matches_rich(member("scores[1]", ComparisonOperator::Lt, nine())));
    assert!(matches_rich(member("scores.x[1]", ComparisonOperator::Eq, five())));
    assert!(!matches_rich(member("scores.x[1]", ComparisonOperator::Eq, nine())));
    assert!(!matches_rich(member("scores[1]", ComparisonOperator::Contains, five())));
}

#[test]
fn lists_of_values_include_and_exclude() {
    let list = || {
        MemberValue::List(vec![
            MemberValue::String("ann".to_string()),
            MemberValue::String("bob".to_string()),
        ])
    };
    assert!(matches_rich(member("name", ComparisonOperator::In, list())));
    assert!(!matches_rich(member("name", ComparisonOperator::NotIn, list())));
    assert!(matches_rich(member("name", ComparisonOperator::NotIn, MemberValue::List(vec![]))));
}

#[test]
fn composite_clauses_combine() {
    let yes = || Clause::HashedKeys(vec![]);
    let no = || Clause::HashedKeys(vec![felt(77)]);
    let both = |operator, clauses| Clause::Composite(CompositeClause { operator, clauses });
    assert!(matches_rich(both(LogicalOperator::And, vec![yes(), yes()])));
    assert!(!matches_rich(both(LogicalOperator::And, vec![yes(), no()])));
    assert!(matches_rich(both(LogicalOperator::Or, vec![no(), yes()])));
    assert!(!matches_rich(both(LogicalOperator::Or, vec![no(), no()])));
    assert!(matches_rich(both(LogicalOperator::And, vec![])));
    assert!(!matches_rich(both(LogicalOperator::Or, vec![])));
}

#[test]
fn names_of_types_are_made_of_their_parts() {
    assert_eq!(Ty::Tuple(vec![]).name(), "()");
    assert_eq!(
        Ty::Tuple(vec![
            Ty::Primitive(Primitive::U8(None)),
            Ty::Array(vec![Ty::Primitive(Primitive::ClassHash(None))]),
        ])
        .name(),
        "(u8, Array<ClassHash>)"
    );
    assert_eq!(
        Ty::FixedSizeArray(vec![Ty::ByteArray(String::new())], 12).name(),
        "[ByteArray; 12]"
    );
    assert_eq!(Ty::FixedSizeArray(vec![], 12).name(), "[; 0]");
    assert_eq!(Ty::Array(vec![]).name(), "Array");
}

#[test]
fn primitives_are_ordered_by_type_then_value() {
    assert!(Primitive::I8(Some(100)).less(&Primitive::I16(Some(-100))));
    assert!(Primitive::U8(None).less(&Primitive::U8(Some(0))));
    assert!(Primitive::I128(Some(-2)).less(&Primitive::I128(Some(-1))));
    assert!(Primitive::U256(Some(U256 { hi: 0, lo: u128::MAX }))
        .less(&Primitive::U256(Some(U256 { hi: 1, lo: 0 }))));
    assert!(!Primitive::Bool(Some(true)).less(&Primitive::Bool(Some(true))));
}
