//! Which rows the queries ask for: each filter is a condition on its own column, bound to its own
//! values.
use vstd::prelude::*;
use vstd::string::*;
use crate::digits::digits_of;
use crate::felt::Felt;
use crate::ids::hex_field;
use crate::schema::U256;
use crate::sql::builder::{
    felt_binds, in_list, placeholders, text_binds, u256_binds, ArgumentView, QueryView,
};
use crate::sql::queries::{
    achievements_asked, activities_asked, aggregations_asked, and_in_text, attribute_binds,
    attribute_conditions, condition_in, controllers_asked, events_asked, for_players,
    for_players_binds, kind_binds, padded_binds, players_asked, token_balances_asked,
    token_contracts_asked, token_transfers_asked, tokens_asked, transactions_asked, where_text,
    AchievementQuery, ActivityQuery, AggregationQuery, AttributeFilter, ControllerQuery,
    PlayerAchievementQuery, TokenBalanceQuery, TokenContractQuery, TokenQuery, TokenTransferQuery,
    TransactionFilter,
};
use crate::text::join;
use crate::time::rfc3339_text;

verus! {

/// `n` question marks, separated by commas.
pub open spec fn question_marks(n: nat) -> Seq<char>
    decreases n,
{
    if n == 0 {
        Seq::empty()
    } else if n == 1 {
        seq!['?']
    } else {
        question_marks((n - 1) as nat) + seq![',', ' ', '?']
    }
}

/// A condition with the values bound to its marks.
pub struct Part {
    pub condition: Seq<char>,
    pub values: Seq<ArgumentView>,
}

/// That a column is one of the values; nothing where there are none.
pub open spec fn one_of(column: Seq<char>, values: Seq<ArgumentView>) -> Seq<Part> {
    if values.len() == 0 {
        Seq::empty()
    } else {
        seq![Part { condition: column + " IN ("@ + question_marks(values.len()) + ")"@, values }]
    }
}

/// That a condition holds of a value, where there is one.
pub open spec fn bound_by(condition: Seq<char>, value: Option<ArgumentView>) -> Seq<Part> {
    match value {
        Some(v) => seq![Part { condition, values: seq![v] }],
        None => Seq::empty(),
    }
}

/// The conditions of the parts.
pub open spec fn conditions_in(parts: Seq<Part>) -> Seq<Seq<char>> {
    parts.map_values(|p: Part| p.condition)
}

/// The values of the parts, one after the other.
pub open spec fn values_in(parts: Seq<Part>) -> Seq<ArgumentView>
    decreases parts.len(),
{
    if parts.len() == 0 {
        Seq::empty()
    } else {
        values_in(parts.drop_last()) + parts.last().values
    }
}

/// Whether the query has exactly the parts, in their order.
pub open spec fn has_parts(q: QueryView, parts: Seq<Part>) -> bool {
    q.conditions == conditions_in(parts) && q.bind_values == values_in(parts)
}

/// Whether the query is over the table under the alias, with the joins, and gives the columns.
pub open spec fn is_over(
    q: QueryView,
    table: Seq<char>,
    alias: Seq<char>,
    joins: Seq<Seq<char>>,
    columns: Seq<Seq<char>>,
) -> bool {
    q.table == table && q.alias == alias && q.joins == joins && q.columns == columns
}

/// The elements as they are bound.
pub open spec fn felts(v: Seq<Felt>) -> Seq<ArgumentView> {
    Seq::new(v.len(), |i: int| ArgumentView::FeltText(v[i]))
}

/// The texts as they are bound.
pub open spec fn texts(v: Seq<String>) -> Seq<ArgumentView> {
    Seq::new(v.len(), |i: int| ArgumentView::Text(v[i]@))
}

/// The numbers as they are bound.
pub open spec fn numbers(v: Seq<U256>) -> Seq<ArgumentView> {
    Seq::new(v.len(), |i: int| ArgumentView::U256Text(v[i]))
}

/// Lists are bound value by value.
proof fn lists_are_bound(f: Seq<Felt>, t: Seq<String>, u: Seq<U256>)
    ensures
        felt_binds(f) == felts(f),
        text_binds(t) == texts(t),
        u256_binds(u) == numbers(u),
{
    assert(felt_binds(f) =~= felts(f));
    assert(text_binds(t) =~= texts(t));
    assert(u256_binds(u) =~= numbers(u));
}

/// A list of placeholders is one of question marks.
proof fn marks_are_question_marks(n: nat)
    ensures
        placeholders(n) == question_marks(n),
    decreases n,
{
    reveal_strlit("?");
    reveal_strlit(", ");
    let all = Seq::new(n, |i: int| "?"@);
    if n == 1 {
        assert("?"@ =~= seq!['?']);
    } else if n > 1 {
        let m = (n - 1) as nat;
        marks_are_question_marks(m);
        assert(all.drop_last() =~= Seq::new(m, |i: int| "?"@));
        assert(placeholders(n) =~= question_marks(m) + seq![',', ' ', '?']);
    }
}

/// That a column is one of some values has one mark for each, and says nothing else.
pub proof fn lists_have_a_mark_for_each_value(column: Seq<char>, n: nat)
    ensures
        in_list(column, n) == column + " IN ("@ + question_marks(n) + ")"@,
{
    marks_are_question_marks(n);
}

/// The values of two lists of parts follow each other.
proof fn values_add(a: Seq<Part>, b: Seq<Part>)
    ensures
        values_in(a + b) == values_in(a) + values_in(b),
        conditions_in(a + b) == conditions_in(a) + conditions_in(b),
    decreases b.len(),
{
    assert(conditions_in(a + b) =~= conditions_in(a) + conditions_in(b));
    if b.len() == 0 {
        assert(a + b =~= a);
        assert(values_in(a) + values_in(b) =~= values_in(a));
    } else {
        values_add(a, b.drop_last());
        assert((a + b).drop_last() =~= a + b.drop_last());
        assert(values_in(a + b) =~= values_in(a) + values_in(b));
    }
}

/// The values of one part alone are its own.
proof fn one_part(parts: Seq<Part>)
    requires
        parts.len() == 1,
    ensures
        values_in(parts) == parts[0].values,
{
    let none = parts.drop_last();
    assert(none =~= Seq::<Part>::empty());
    assert(values_in(none) =~= Seq::<ArgumentView>::empty());
    assert(values_in(parts) =~= parts[0].values);
}

/// A query with one more list has one more part, where the list holds something.
proof fn in_adds_a_part(q: QueryView, parts: Seq<Part>, column: Seq<char>, values: Seq<ArgumentView>)
    requires
        has_parts(q, parts),
    ensures
        has_parts(q.and_in(column, values), parts + one_of(column, values)),
{
    let more = one_of(column, values);
    values_add(parts, more);
    if values.len() == 0 {
        assert(parts + more =~= parts);
    } else {
        lists_have_a_mark_for_each_value(column, values.len());
        and_adds_a_part(q, parts, in_list(column, values.len()), values);
    }
}

/// A query with one more condition has one more part.
proof fn and_adds_a_part(
    q: QueryView,
    parts: Seq<Part>,
    condition: Seq<char>,
    values: Seq<ArgumentView>,
)
    requires
        has_parts(q, parts),
    ensures
        has_parts(q.and(condition, values), parts + seq![Part { condition, values }]),
{
    let more = seq![Part { condition, values }];
    values_add(parts, more);
    one_part(more);
    assert(conditions_in(more) =~= seq![condition]);
    assert(q.and(condition, values).conditions =~= q.conditions + seq![condition]);
}

/// The query with a condition on a value, where there is one.
pub open spec fn with_value(q: QueryView, condition: Seq<char>, value: Option<ArgumentView>) -> QueryView {
    match value {
        Some(v) => q.and(condition, seq![v]),
        None => q,
    }
}

/// A query with a condition on a value has one more part, where there is a value.
proof fn value_adds_a_part(
    q: QueryView,
    parts: Seq<Part>,
    condition: Seq<char>,
    value: Option<ArgumentView>,
)
    requires
        has_parts(q, parts),
    ensures
        has_parts(with_value(q, condition, value), parts + bound_by(condition, value)),
{
    match value {
        Some(v) => {
            and_adds_a_part(q, parts, condition, seq![v]);
        },
        None => {
            assert(parts + bound_by(condition, value) =~= parts);
        },
    }
}

/// A query without conditions has no parts.
proof fn nothing_is_asked(q: QueryView)
    requires
        q.conditions.len() == 0,
        q.bind_values.len() == 0,
    ensures
        has_parts(q, Seq::empty()),
{
    assert(q.conditions =~= conditions_in(Seq::empty()));
    assert(q.bind_values =~= values_in(Seq::empty()));
}

/// Controllers are asked for by name and by address.
pub proof fn controllers_are_asked_by_column(q: ControllerQuery)
    ensures
        ({
            let asked = controllers_asked(q);
            &&& is_over(
                asked,
                "controllers"@,
                ""@,
                Seq::<Seq<char>>::empty(),
                seq!["address"@, "username"@, "deployed_at"@],
            )
            &&& has_parts(asked, one_of("id"@, texts(q.usernames@)) + one_of("address"@, Seq::new(q.contract_addresses@.len(), |i: int| ArgumentView::Text(hex_field(q.contract_addresses@[i].value(), 62)))))
        }),
{
    lists_are_bound(Seq::<Felt>::empty(), q.usernames@, Seq::<U256>::empty());
    assert(padded_binds(q.contract_addresses@) =~= Seq::new(q.contract_addresses@.len(), |i: int| ArgumentView::Text(hex_field(q.contract_addresses@[i].value(), 62))));
    let q0 = crate::sql::builder::query_on("controllers"@, ""@, seq!["address"@, "username"@, "deployed_at"@]);
    nothing_is_asked(q0);
    let p0 = Seq::<Part>::empty();
    in_adds_a_part(q0, p0, "id"@, text_binds(q.usernames@));
    let q1 = q0.and_in("id"@, text_binds(q.usernames@));
    let p1 = p0 + one_of("id"@, text_binds(q.usernames@));
    in_adds_a_part(q1, p1, "address"@, padded_binds(q.contract_addresses@));
    let q2 = q1.and_in("address"@, padded_binds(q.contract_addresses@));
    let p2 = p1 + one_of("address"@, padded_binds(q.contract_addresses@));
    assert(p2 =~= one_of("id"@, texts(q.usernames@)) + one_of("address"@, Seq::new(q.contract_addresses@.len(), |i: int| ArgumentView::Text(hex_field(q.contract_addresses@[i].value(), 62)))));
}

/// Balances are asked for by account, contract and token.
pub proof fn balances_are_asked_by_column(q: TokenBalanceQuery)
    ensures
        ({
            let asked = token_balances_asked(q);
            &&& is_over(
                asked,
                "token_balances"@,
                ""@,
                Seq::<Seq<char>>::empty(),
                seq!["*"@],
            )
            &&& has_parts(asked, one_of("account_address"@, felts(q.account_addresses@)) + one_of("contract_address"@, felts(q.contract_addresses@)) + one_of("SUBSTR(token_id, INSTR(token_id, ':') + 1)"@, numbers(q.token_ids@)))
        }),
{
    lists_are_bound(q.account_addresses@, Seq::<String>::empty(), q.token_ids@);
    lists_are_bound(q.contract_addresses@, Seq::<String>::empty(), Seq::<U256>::empty());
    let q0 = crate::sql::builder::query_on("token_balances"@, ""@, seq!["*"@]);
    nothing_is_asked(q0);
    let p0 = Seq::<Part>::empty();
    in_adds_a_part(q0, p0, "account_address"@, felt_binds(q.account_addresses@));
    let q1 = q0.and_in("account_address"@, felt_binds(q.account_addresses@));
    let p1 = p0 + one_of("account_address"@, felt_binds(q.account_addresses@));
    in_adds_a_part(q1, p1, "contract_address"@, felt_binds(q.contract_addresses@));
    let q2 = q1.and_in("contract_address"@, felt_binds(q.contract_addresses@));
    let p2 = p1 + one_of("contract_address"@, felt_binds(q.contract_addresses@));
    in_adds_a_part(q2, p2, "SUBSTR(token_id, INSTR(token_id, ':') + 1)"@, u256_binds(q.token_ids@));
    let q3 = q2.and_in("SUBSTR(token_id, INSTR(token_id, ':') + 1)"@, u256_binds(q.token_ids@));
    let p3 = p2 + one_of("SUBSTR(token_id, INSTR(token_id, ':') + 1)"@, u256_binds(q.token_ids@));
    assert(p3 =~= one_of("account_address"@, felts(q.account_addresses@)) + one_of("contract_address"@, felts(q.contract_addresses@)) + one_of("SUBSTR(token_id, INSTR(token_id, ':') + 1)"@, numbers(q.token_ids@)));
}

/// Aggregations are asked for by aggregator and entity.
pub proof fn aggregations_are_asked_by_column(q: AggregationQuery)
    ensures
        ({
            let asked = aggregations_asked(q);
            &&& is_over(
                asked,
                "aggregations"@,
                "a"@,
                Seq::<Seq<char>>::empty(),
                seq![
        "a.id"@,
        "a.aggregator_id"@,
        "a.entity_id"@,
        "a.value"@,
        "a.display_value"@,
        "a.model_id"@,
        "a.created_at"@,
        "a.updated_at"@,
        "ROW_NUMBER() OVER (PARTITION BY a.aggregator_id ORDER BY a.value DESC) as position"@,
    ],
            )
            &&& has_parts(asked, one_of("a.aggregator_id"@, texts(q.aggregator_ids@)) + one_of("a.entity_id"@, texts(q.entity_ids@)))
        }),
{
    lists_are_bound(Seq::<Felt>::empty(), q.aggregator_ids@, Seq::<U256>::empty());
    lists_are_bound(Seq::<Felt>::empty(), q.entity_ids@, Seq::<U256>::empty());
    let q0 = crate::sql::builder::query_on("aggregations"@, "a"@, crate::sql::queries::aggregation_columns());
    nothing_is_asked(q0);
    let p0 = Seq::<Part>::empty();
    in_adds_a_part(q0, p0, "a.aggregator_id"@, text_binds(q.aggregator_ids@));
    let q1 = q0.and_in("a.aggregator_id"@, text_binds(q.aggregator_ids@));
    let p1 = p0 + one_of("a.aggregator_id"@, text_binds(q.aggregator_ids@));
    in_adds_a_part(q1, p1, "a.entity_id"@, text_binds(q.entity_ids@));
    let q2 = q1.and_in("a.entity_id"@, text_binds(q.entity_ids@));
    let p2 = p1 + one_of("a.entity_id"@, text_binds(q.entity_ids@));
    assert(p2 =~= one_of("a.aggregator_id"@, texts(q.aggregator_ids@)) + one_of("a.entity_id"@, texts(q.entity_ids@)));
}

/// The achievements of players are asked for by world, namespace and player, and summed up for each
/// player.
pub proof fn players_are_asked_by_column(q: PlayerAchievementQuery)
    ensures
        ({
            let asked = players_asked(q);
            &&& is_over(
                asked,
                "player_achievements"@,
                ""@,
                Seq::<Seq<char>>::empty(),
                seq![
        "player_id"@,
        "SUM(total_points) as total_points"@,
        "SUM(completed_achievements) as completed_achievements"@,
        "SUM(total_achievements) as total_achievements"@,
        "AVG(completion_percentage) as completion_percentage"@,
        "MAX(last_achievement_at) as last_achievement_at"@,
        "MIN(created_at) as created_at"@,
        "MAX(updated_at) as updated_at"@,
    ],
            )
            &&& has_parts(asked, one_of("world_address"@, felts(q.world_addresses@)) + one_of("namespace"@, texts(q.namespaces@)) + one_of("player_id"@, felts(q.player_addresses@)))
            &&& asked.group_by == "player_id"@
        }),
{
    lists_are_bound(q.world_addresses@, q.namespaces@, Seq::<U256>::empty());
    lists_are_bound(q.player_addresses@, Seq::<String>::empty(), Seq::<U256>::empty());
    let q0 = crate::sql::builder::query_on("player_achievements"@, ""@, crate::sql::queries::player_columns());
    nothing_is_asked(q0);
    let p0 = Seq::<Part>::empty();
    in_adds_a_part(q0, p0, "world_address"@, felt_binds(q.world_addresses@));
    let q1 = q0.and_in("world_address"@, felt_binds(q.world_addresses@));
    let p1 = p0 + one_of("world_address"@, felt_binds(q.world_addresses@));
    in_adds_a_part(q1, p1, "namespace"@, text_binds(q.namespaces@));
    let q2 = q1.and_in("namespace"@, text_binds(q.namespaces@));
    let p2 = p1 + one_of("namespace"@, text_binds(q.namespaces@));
    in_adds_a_part(q2, p2, "player_id"@, felt_binds(q.player_addresses@));
    let q3 = q2.and_in("player_id"@, felt_binds(q.player_addresses@));
    let p3 = p2 + one_of("player_id"@, felt_binds(q.player_addresses@));
    assert(p3 =~= one_of("world_address"@, felts(q.world_addresses@)) + one_of("namespace"@, texts(q.namespaces@)) + one_of("player_id"@, felts(q.player_addresses@)));
}

/// Activities are asked for by world, namespace and caller, and by the end of their session: from the
/// one time on, and up to the other.
pub proof fn activities_are_asked_by_column(q: ActivityQuery)
    ensures
        ({
            let asked = activities_asked(q);
            &&& is_over(
                asked,
                "activities"@,
                ""@,
                Seq::<Seq<char>>::empty(),
                seq![
        "id"@,
        "world_address"@,
        "namespace"@,
        "caller_address"@,
        "session_start"@,
        "session_end"@,
        "action_count"@,
        "actions"@,
        "updated_at"@,
    ],
            )
            &&& has_parts(asked, one_of("world_address"@, felts(q.world_addresses@)) + one_of("namespace"@, texts(q.namespaces@)) + one_of("caller_address"@, felts(q.caller_addresses@)) + bound_by("session_end >= ?"@, match q.from_time { Some(t) => Some(ArgumentView::Text(rfc3339_text(t))), None => None }) + bound_by("session_end <= ?"@, match q.to_time { Some(t) => Some(ArgumentView::Text(rfc3339_text(t))), None => None }))
        }),
{
    lists_are_bound(q.world_addresses@, q.namespaces@, Seq::<U256>::empty());
    lists_are_bound(q.caller_addresses@, Seq::<String>::empty(), Seq::<U256>::empty());
    let q0 = crate::sql::builder::query_on("activities"@, ""@, crate::sql::queries::activity_columns());
    nothing_is_asked(q0);
    let p0 = Seq::<Part>::empty();
    in_adds_a_part(q0, p0, "world_address"@, felt_binds(q.world_addresses@));
    let q1 = q0.and_in("world_address"@, felt_binds(q.world_addresses@));
    let p1 = p0 + one_of("world_address"@, felt_binds(q.world_addresses@));
    in_adds_a_part(q1, p1, "namespace"@, text_binds(q.namespaces@));
    let q2 = q1.and_in("namespace"@, text_binds(q.namespaces@));
    let p2 = p1 + one_of("namespace"@, text_binds(q.namespaces@));
    in_adds_a_part(q2, p2, "caller_address"@, felt_binds(q.caller_addresses@));
    let q3 = q2.and_in("caller_address"@, felt_binds(q.caller_addresses@));
    let p3 = p2 + one_of("caller_address"@, felt_binds(q.caller_addresses@));
    let from = match q.from_time { Some(t) => Some(ArgumentView::Text(rfc3339_text(t))), None => None };
    let to = match q.to_time { Some(t) => Some(ArgumentView::Text(rfc3339_text(t))), None => None };
    value_adds_a_part(q3, p3, "session_end >= ?"@, from);
    let qf = with_value(q3, "session_end >= ?"@, from);
    let pf = p3 + bound_by("session_end >= ?"@, from);
    value_adds_a_part(qf, pf, "session_end <= ?"@, to);
    let last = pf + bound_by("session_end <= ?"@, to);
    assert(last =~= one_of("world_address"@, felts(q.world_addresses@)) + one_of("namespace"@, texts(q.namespaces@)) + one_of("caller_address"@, felts(q.caller_addresses@)) + bound_by("session_end >= ?"@, match q.from_time { Some(t) => Some(ArgumentView::Text(rfc3339_text(t))), None => None }) + bound_by("session_end <= ?"@, match q.to_time { Some(t) => Some(ArgumentView::Text(rfc3339_text(t))), None => None }));
}

/// Achievements are asked for by world and namespace, and hidden ones or those that are not where that
/// is asked.
pub proof fn achievements_are_asked_by_column(q: AchievementQuery)
    ensures
        ({
            let asked = achievements_asked(q);
            &&& is_over(
                asked,
                "achievements"@,
                ""@,
                Seq::<Seq<char>>::empty(),
                seq![
        "id"@,
        "world_address"@,
        "namespace"@,
        "entity_id"@,
        "hidden"@,
        "index_num"@,
        "points"@,
        "start"@,
        "end"@,
        "group_name"@,
        "icon"@,
        "title"@,
        "description"@,
        "tasks"@,
        "data"@,
        "total_completions"@,
        "completion_rate"@,
        "created_at"@,
        "updated_at"@,
    ],
            )
            &&& has_parts(asked, one_of("world_address"@, felts(q.world_addresses@)) + one_of("namespace"@, texts(q.namespaces@)) + bound_by("hidden = ?"@, match q.hidden { Some(h) => Some(ArgumentView::Text(if h { "1"@ } else { "0"@ })), None => None }))
        }),
{
    lists_are_bound(q.world_addresses@, q.namespaces@, Seq::<U256>::empty());
    let q0 = crate::sql::builder::query_on("achievements"@, ""@, crate::sql::queries::achievement_columns());
    nothing_is_asked(q0);
    let p0 = Seq::<Part>::empty();
    in_adds_a_part(q0, p0, "world_address"@, felt_binds(q.world_addresses@));
    let q1 = q0.and_in("world_address"@, felt_binds(q.world_addresses@));
    let p1 = p0 + one_of("world_address"@, felt_binds(q.world_addresses@));
    in_adds_a_part(q1, p1, "namespace"@, text_binds(q.namespaces@));
    let q2 = q1.and_in("namespace"@, text_binds(q.namespaces@));
    let p2 = p1 + one_of("namespace"@, text_binds(q.namespaces@));
    let hidden = match q.hidden { Some(h) => Some(ArgumentView::Text(if h { "1"@ } else { "0"@ })), None => None };
    value_adds_a_part(q2, p2, "hidden = ?"@, hidden);
    let last = p2 + bound_by("hidden = ?"@, hidden);
    assert(last =~= one_of("world_address"@, felts(q.world_addresses@)) + one_of("namespace"@, texts(q.namespaces@)) + bound_by("hidden = ?"@, match q.hidden { Some(h) => Some(ArgumentView::Text(if h { "1"@ } else { "0"@ })), None => None }));
}

/// Token contracts are asked for by address and kind, among the tokens that are contracts.
pub proof fn token_contracts_are_asked_by_column(q: TokenContractQuery)
    ensures
        ({
            let asked = token_contracts_asked(q);
            &&& is_over(
                asked,
                "tokens"@,
                "t"@,
                seq!["JOIN contracts c ON c.contract_address = t.contract_address"@],
                seq![
        "t.contract_address as contract_address"@,
        "c.contract_type as contract_type"@,
        "t.name as name"@,
        "t.symbol as symbol"@,
        "t.decimals as decimals"@,
        "t.metadata as metadata"@,
        "t.total_supply as total_supply"@,
        "t.traits as traits"@,
        "COALESCE((SELECT metadata FROM tokens tk WHERE tk.contract_address = t.contract_address AND tk.token_id != '' AND tk.token_id IS NOT NULL ORDER BY tk.token_id LIMIT 1), '') as token_metadata"@,
        "t.contract_address as ordering"@,
    ],
            )
            &&& has_parts(asked, seq![Part { condition: "t.token_id = '' OR t.token_id IS NULL"@, values: Seq::empty() }] + one_of("t.contract_address"@, felts(q.contract_addresses@)) + one_of("c.contract_type"@, Seq::new(q.contract_types@.len(), |i: int| ArgumentView::Text(q.contract_types@[i].label()))))
        }),
{
    lists_are_bound(q.contract_addresses@, Seq::<String>::empty(), Seq::<U256>::empty());
    assert(kind_binds(q.contract_types@) =~= Seq::new(q.contract_types@.len(), |i: int| ArgumentView::Text(q.contract_types@[i].label())));
    let q0 = crate::sql::builder::query_on("tokens"@, "t"@, crate::sql::queries::token_contract_columns()).joined(
        "JOIN contracts c ON c.contract_address = t.contract_address"@,
    );
    nothing_is_asked(q0);
    let p0 = Seq::<Part>::empty();
    and_adds_a_part(q0, p0, "t.token_id = '' OR t.token_id IS NULL"@, Seq::<ArgumentView>::empty());
    let q1 = q0.and("t.token_id = '' OR t.token_id IS NULL"@, Seq::<ArgumentView>::empty());
    let p1 = p0 + seq![Part { condition: "t.token_id = '' OR t.token_id IS NULL"@, values: Seq::empty() }];
    in_adds_a_part(q1, p1, "t.contract_address"@, felt_binds(q.contract_addresses@));
    let q2 = q1.and_in("t.contract_address"@, felt_binds(q.contract_addresses@));
    let p2 = p1 + one_of("t.contract_address"@, felt_binds(q.contract_addresses@));
    in_adds_a_part(q2, p2, "c.contract_type"@, kind_binds(q.contract_types@));
    let q3 = q2.and_in("c.contract_type"@, kind_binds(q.contract_types@));
    let p3 = p2 + one_of("c.contract_type"@, kind_binds(q.contract_types@));
    assert(p3 =~= seq![Part { condition: "t.token_id = '' OR t.token_id IS NULL"@, values: Seq::empty() }] + one_of("t.contract_address"@, felts(q.contract_addresses@)) + one_of("c.contract_type"@, Seq::new(q.contract_types@.len(), |i: int| ArgumentView::Text(q.contract_types@[i].label()))));
}

/// Events are asked for by the pattern of their keys; without one, all are.
pub proof fn events_are_asked_by_pattern(pattern: Option<String>)
    ensures
        ({
            let asked = events_asked(pattern);
            &&& is_over(
                asked,
                "events"@,
                ""@,
                Seq::<Seq<char>>::empty(),
                seq!["id"@, "keys"@, "data"@, "transaction_hash"@, "executed_at"@, "created_at"@],
            )
            &&& has_parts(
                asked,
                bound_by(
                    "keys REGEXP ?"@,
                    match pattern {
                        Some(p) => if p@.len() == 0 {
                            None
                        } else {
                            Some(ArgumentView::Text(p@))
                        },
                        None => None,
                    },
                ),
            )
        }),
{
    let q0 = crate::sql::builder::query_on("events"@, ""@, crate::sql::queries::event_columns());
    nothing_is_asked(q0);
    let value = match pattern {
        Some(p) => if p@.len() == 0 {
            None
        } else {
            Some(ArgumentView::Text(p@))
        },
        None => None,
    };
    value_adds_a_part(q0, Seq::empty(), "keys REGEXP ?"@, value);
    assert(Seq::<Part>::empty() + bound_by("keys REGEXP ?"@, value) =~= bound_by(
        "keys REGEXP ?"@,
        value,
    ));
}

/// That one of the accounts gave or got.
pub open spec fn gave_or_got(accounts: Seq<Felt>) -> Seq<Part> {
    if accounts.len() == 0 {
        Seq::empty()
    } else {
        seq![
            Part {
                condition: "((from_address IN ("@ + question_marks(accounts.len())
                    + ")) OR (to_address IN ("@ + question_marks(accounts.len()) + ")))"@,
                values: felts(accounts) + felts(accounts),
            },
        ]
    }
}

/// Transfers are asked for by the account that gave or got, by contract and by token.
pub proof fn transfers_are_asked_by_column(q: TokenTransferQuery)
    ensures
        ({
            let asked = token_transfers_asked(q);
            &&& is_over(asked, "token_transfers"@, ""@, Seq::<Seq<char>>::empty(), seq!["*"@])
            &&& has_parts(
                asked,
                gave_or_got(q.account_addresses@) + one_of(
                    "contract_address"@,
                    felts(q.contract_addresses@),
                ) + one_of("SUBSTR(token_id, INSTR(token_id, ':') + 1)"@, numbers(q.token_ids@)),
            )
        }),
{
    lists_are_bound(q.account_addresses@, Seq::<String>::empty(), q.token_ids@);
    lists_are_bound(q.contract_addresses@, Seq::<String>::empty(), Seq::<U256>::empty());
    let q0 = crate::sql::builder::query_on("token_transfers"@, ""@, seq!["*"@]);
    nothing_is_asked(q0);
    let p0 = Seq::<Part>::empty();
    let a = q.account_addresses@;
    let n = a.len();
    let condition = "(("@ + in_list("from_address"@, n) + ") OR ("@ + in_list("to_address"@, n)
        + "))"@;
    let values = felt_binds(a) + felt_binds(a);
    let q1 = if n == 0 {
        q0
    } else {
        q0.and(condition, values)
    };
    let p1 = gave_or_got(a);
    if n > 0 {
        and_adds_a_part(q0, p0, condition, values);
        lists_have_a_mark_for_each_value("from_address"@, n);
        lists_have_a_mark_for_each_value("to_address"@, n);
        reveal_strlit("((");
        reveal_strlit(") OR (");
        reveal_strlit("))");
        reveal_strlit(" IN (");
        reveal_strlit(")");
        reveal_strlit("from_address");
        reveal_strlit("to_address");
        reveal_strlit("((from_address IN (");
        reveal_strlit(")) OR (to_address IN (");
        reveal_strlit(")))");
        assert("((from_address IN ("@ =~= "(("@ + "from_address"@ + " IN ("@);
        assert(")) OR (to_address IN ("@ =~= ")"@ + ") OR ("@ + "to_address"@ + " IN ("@);
        assert(")))"@ =~= ")"@ + "))"@);
        let m = question_marks(n);
        assert(condition =~= "((from_address IN ("@ + m + ")) OR (to_address IN ("@ + m + ")))"@);
        assert(p0 + seq![Part { condition, values }] =~= p1);
    }
    in_adds_a_part(q1, p1, "contract_address"@, felt_binds(q.contract_addresses@));
    let q2 = q1.and_in("contract_address"@, felt_binds(q.contract_addresses@));
    let p2 = p1 + one_of("contract_address"@, felts(q.contract_addresses@));
    in_adds_a_part(q2, p2, "SUBSTR(token_id, INSTR(token_id, ':') + 1)"@, u256_binds(q.token_ids@));
}

/// All of several conditions in brackets, with their values one after the other; nothing where there
/// are none.
pub open spec fn all_of(parts: Seq<Part>) -> Seq<Part> {
    if parts.len() == 0 {
        Seq::empty()
    } else {
        seq![
            Part {
                condition: "("@ + join(conditions_in(parts), " AND "@) + ")"@,
                values: values_in(parts),
            },
        ]
    }
}

/// What a filter asks of the calls of a transaction: the contract that is called, the entry point and
/// the caller, each in its own column.
pub open spec fn calls_asked(f: TransactionFilter) -> Seq<Part> {
    one_of("tc.contract_address"@, felts(f.contract_addresses@)) + one_of(
        "tc.entrypoint"@,
        texts(f.entrypoints@),
    ) + one_of("tc.caller_address"@, felts(f.caller_addresses@))
}

/// The number of a block as it is bound.
pub open spec fn block_bound(block: Option<u64>) -> Option<ArgumentView> {
    match block {
        Some(b) => Some(ArgumentView::Text(digits_of(b as nat, 10))),
        None => None,
    }
}

/// Transactions are asked for by hash, by what their calls address, by the models they touch, and by
/// block: from the one on, and up to the other. Calls and models are joined only where they are
/// asked for.
pub proof fn transactions_are_asked_by_column(f: TransactionFilter)
    ensures
        ({
            let asked = transactions_asked(Some(f));
            let calls = if calls_asked(f).len() == 0 {
                Seq::<Seq<char>>::empty()
            } else {
                seq!["JOIN transaction_calls tc ON tc.transaction_hash = t.transaction_hash"@]
            };
            let models = if f.model_selectors@.len() == 0 {
                Seq::<Seq<char>>::empty()
            } else {
                seq!["JOIN transaction_models tm ON tm.transaction_hash = t.transaction_hash"@]
            };
            &&& is_over(
                asked,
                "transactions"@,
                "t"@,
                calls + models,
                seq![
        "t.id"@,
        "t.transaction_hash"@,
        "t.sender_address"@,
        "t.calldata"@,
        "t.max_fee"@,
        "t.signature"@,
        "t.nonce"@,
        "t.block_number"@,
        "t.transaction_type"@,
        "t.executed_at"@,
        "t.created_at"@,
    ],
            )
            &&& has_parts(
                asked,
                one_of("t.transaction_hash"@, felts(f.transaction_hashes@)) + all_of(calls_asked(f))
                    + one_of("tm.model_id"@, felts(f.model_selectors@)) + bound_by(
                    "t.block_number >= ?"@,
                    block_bound(f.from_block),
                ) + bound_by("t.block_number <= ?"@, block_bound(f.to_block)),
            )
        }),
{
    lists_are_bound(f.transaction_hashes@, f.entrypoints@, Seq::<U256>::empty());
    lists_are_bound(f.contract_addresses@, Seq::<String>::empty(), Seq::<U256>::empty());
    lists_are_bound(f.caller_addresses@, Seq::<String>::empty(), Seq::<U256>::empty());
    lists_are_bound(f.model_selectors@, Seq::<String>::empty(), Seq::<U256>::empty());
    let q0 = crate::sql::builder::query_on(
        "transactions"@,
        "t"@,
        crate::sql::queries::transaction_columns(),
    );
    nothing_is_asked(q0);
    let p0 = Seq::<Part>::empty();
    in_adds_a_part(q0, p0, "t.transaction_hash"@, felt_binds(f.transaction_hashes@));
    let q1 = q0.and_in("t.transaction_hash"@, felt_binds(f.transaction_hashes@));
    let p1 = one_of("t.transaction_hash"@, felts(f.transaction_hashes@));
    assert(p0 + p1 =~= p1);
    let a = one_of("tc.contract_address"@, felts(f.contract_addresses@));
    let b = one_of("tc.entrypoint"@, texts(f.entrypoints@));
    let c = one_of("tc.caller_address"@, felts(f.caller_addresses@));
    let q2 = crate::sql::queries::with_calls(q1, f);
    let p2 = p1 + all_of(calls_asked(f));
    values_add(a + b, c);
    values_add(a, b);
    one_of_is_its_values("tc.contract_address"@, felts(f.contract_addresses@));
    one_of_is_its_values("tc.entrypoint"@, texts(f.entrypoints@));
    one_of_is_its_values("tc.caller_address"@, felts(f.caller_addresses@));
    if calls_asked(f).len() == 0 {
        assert(a.len() + b.len() + c.len() == 0);
        assert(q2 == q1);
        assert(p2 =~= p1);
    } else {
        let joined = q1.joined(
            "JOIN transaction_calls tc ON tc.transaction_hash = t.transaction_hash"@,
        );
        let conditions = crate::sql::queries::call_conditions(f);
        assert(conditions =~= conditions_in(calls_asked(f)));
        let condition = "("@ + join(conditions, " AND "@) + ")"@;
        let values = felt_binds(f.contract_addresses@) + text_binds(f.entrypoints@) + felt_binds(
            f.caller_addresses@,
        );
        assert(values =~= values_in(calls_asked(f)));
        and_adds_a_part(joined, p1, condition, values);
        assert(q2 == joined.and(condition, values));
        assert(q2.joins =~= seq![
            "JOIN transaction_calls tc ON tc.transaction_hash = t.transaction_hash"@,
        ]);
    }
    let q3 = crate::sql::queries::with_models(q2, f);
    let p3 = p2 + one_of("tm.model_id"@, felts(f.model_selectors@));
    if f.model_selectors@.len() == 0 {
        assert(p3 =~= p2);
    } else {
        let joined = q2.joined(
            "JOIN transaction_models tm ON tm.transaction_hash = t.transaction_hash"@,
        );
        in_adds_a_part(joined, p2, "tm.model_id"@, felt_binds(f.model_selectors@));
    }
    value_adds_a_part(q3, p3, "t.block_number >= ?"@, block_bound(f.from_block));
    let q4 = with_value(q3, "t.block_number >= ?"@, block_bound(f.from_block));
    let p4 = p3 + bound_by("t.block_number >= ?"@, block_bound(f.from_block));
    value_adds_a_part(q4, p4, "t.block_number <= ?"@, block_bound(f.to_block));
    let q5 = with_value(q4, "t.block_number <= ?"@, block_bound(f.to_block));
    assert(transactions_asked(Some(f)) == q5);
    let calls = if calls_asked(f).len() == 0 {
        Seq::<Seq<char>>::empty()
    } else {
        seq!["JOIN transaction_calls tc ON tc.transaction_hash = t.transaction_hash"@]
    };
    let models = if f.model_selectors@.len() == 0 {
        Seq::<Seq<char>>::empty()
    } else {
        seq!["JOIN transaction_models tm ON tm.transaction_hash = t.transaction_hash"@]
    };
    assert(q2.joins =~= calls);
    assert(q5.joins =~= calls + models);
}

/// The one part of a list has its condition and values.
proof fn one_of_is_its_values(column: Seq<char>, values: Seq<ArgumentView>)
    ensures
        values_in(one_of(column, values)) == values,
        conditions_in(one_of(column, values)) == condition_in(column, values.len()),
{
    let parts = one_of(column, values);
    if values.len() > 0 {
        one_part(parts);
        lists_have_a_mark_for_each_value(column, values.len());
        assert(conditions_in(parts) =~= condition_in(column, values.len()));
    } else {
        assert(values_in(parts) =~= values);
        assert(conditions_in(parts) =~= condition_in(column, values.len()));
    }
}

/// A filter by contracts alone asks for the transactions that call one of them, and for nothing else:
/// it is another question than that for the transactions of as many callers.
pub proof fn contracts_are_not_callers(f: TransactionFilter, g: TransactionFilter)
    requires
        f.contract_addresses@.len() > 0,
        f.transaction_hashes@.len() == 0,
        f.caller_addresses@.len() == 0,
        f.entrypoints@.len() == 0,
        f.model_selectors@.len() == 0,
        f.from_block is None,
        f.to_block is None,
        g.caller_addresses@ == f.contract_addresses@,
        g.transaction_hashes@.len() == 0,
        g.contract_addresses@.len() == 0,
        g.entrypoints@.len() == 0,
        g.model_selectors@.len() == 0,
        g.from_block is None,
        g.to_block is None,
    ensures
        ({
            let n = f.contract_addresses@.len();
            let called = transactions_asked(Some(f));
            let calling = transactions_asked(Some(g));
            &&& called.conditions == seq![
                "(tc.contract_address IN ("@ + question_marks(n) + "))"@,
            ]
            &&& calling.conditions == seq!["(tc.caller_address IN ("@ + question_marks(n) + "))"@]
            &&& called.bind_values == felts(f.contract_addresses@)
            &&& calling.bind_values == felts(f.contract_addresses@)
            &&& called.conditions != calling.conditions
        }),
{
    transactions_are_asked_by_column(f);
    transactions_are_asked_by_column(g);
    one_list_of_calls(f, "tc.contract_address"@, f.contract_addresses@);
    one_list_of_calls(g, "tc.caller_address"@, g.caller_addresses@);
    let n = f.contract_addresses@.len();
    reveal_strlit("(tc.contract_address IN (");
    reveal_strlit("(tc.caller_address IN (");
    reveal_strlit("tc.contract_address");
    reveal_strlit("tc.caller_address");
    reveal_strlit("(");
    reveal_strlit(" IN (");
    reveal_strlit(")");
    reveal_strlit("))");
    assert("(tc.contract_address IN ("@ =~= "("@ + "tc.contract_address"@ + " IN ("@);
    assert("(tc.caller_address IN ("@ =~= "("@ + "tc.caller_address"@ + " IN ("@);
    assert("))"@ =~= ")"@ + ")"@);
    let x = "(tc.contract_address IN ("@ + question_marks(n) + "))"@;
    let y = "(tc.caller_address IN ("@ + question_marks(n) + "))"@;
    let called = transactions_asked(Some(f));
    let calling = transactions_asked(Some(g));
    assert(called.conditions[0] =~= x);
    assert(calling.conditions[0] =~= y);
    assert(called.conditions =~= seq![x]);
    assert(calling.conditions =~= seq![y]);
    assert(x[5] != y[5]);
}

/// A filter by one list of calls alone has one part.
proof fn one_list_of_calls(f: TransactionFilter, column: Seq<char>, list: Seq<Felt>)
    requires
        list.len() > 0,
        calls_asked(f) == one_of(column, felts(list)) || calls_asked(f) =~= one_of(
            column,
            felts(list),
        ),
        f.transaction_hashes@.len() == 0,
        f.model_selectors@.len() == 0,
        f.from_block is None,
        f.to_block is None,
    ensures
        transactions_asked(Some(f)).conditions.len() == 1,
        transactions_asked(Some(f)).conditions[0] == "("@ + (column + " IN ("@ + question_marks(
            list.len(),
        ) + ")"@) + ")"@,
        transactions_asked(Some(f)).bind_values == felts(list),
{
    transactions_are_asked_by_column(f);
    let parts = one_of(column, felts(list));
    let all = all_of(calls_asked(f));
    assert(one_of("t.transaction_hash"@, felts(f.transaction_hashes@)) + all + one_of(
        "tm.model_id"@,
        felts(f.model_selectors@),
    ) + bound_by("t.block_number >= ?"@, block_bound(f.from_block)) + bound_by(
        "t.block_number <= ?"@,
        block_bound(f.to_block),
    ) =~= all);
    one_part(parts);
    one_part(all);
    assert(values_in(all) =~= felts(list));
    assert(conditions_in(parts) =~= seq![parts[0].condition]);
}

/// That the token has the trait at a place of the filters, under an alias of its own.
pub open spec fn traits_asked(f: Seq<AttributeFilter>) -> Seq<Part> {
    Seq::new(
        f.len(),
        |i: int|
            Part {
                condition: "ta"@ + digits_of(i as nat, 10) + ".trait_name = ? AND "@ + ("ta"@
                    + digits_of(i as nat, 10)) + ".trait_value = ?"@,
                values: seq![
                    ArgumentView::Text(f[i].trait_name@),
                    ArgumentView::Text(f[i].trait_value@),
                ],
            },
    )
}

/// The values of traits are their names and values in turn.
proof fn traits_are_bound(f: Seq<AttributeFilter>)
    ensures
        attribute_binds(f) == values_in(traits_asked(f)),
        attribute_conditions(f.len()) == conditions_in(traits_asked(f)),
    decreases f.len(),
{
    if f.len() > 0 {
        let g = f.drop_last();
        traits_are_bound(g);
        assert(traits_asked(f).drop_last() =~= traits_asked(g));
        assert(attribute_binds(f) =~= values_in(traits_asked(f)));
    }
    assert(attribute_conditions(f.len()) =~= conditions_in(traits_asked(f)));
}

/// Tokens are asked for by contract, by number and by the traits that they must have, among those
/// that have a number; each trait is looked up in the attributes of the token.
pub proof fn tokens_are_asked_by_column(q: TokenQuery)
    ensures
        ({
            let asked = tokens_asked(q);
            let numbered = seq![
                Part {
                    condition: "t.token_id != '' AND t.token_id IS NOT NULL"@,
                    values: Seq::<ArgumentView>::empty(),
                },
            ];
            let parts = numbered + one_of("t.contract_address"@, felts(q.contract_addresses@))
                + one_of("t.token_id"@, numbers(q.token_ids@)) + traits_asked(q.attribute_filters@);
            &&& asked.table == "tokens"@ && asked.alias == "t"@
            &&& asked.columns == seq!["t.*"@, "t.id as ordering"@]
            &&& asked.conditions == seq![join(conditions_in(parts), " AND "@)]
            &&& asked.bind_values == values_in(parts)
            &&& asked.joins.len() == q.attribute_filters@.len()
            &&& forall|i: int|
                0 <= i < asked.joins.len() ==> #[trigger] asked.joins[i]
                    == "JOIN token_attributes "@ + ("ta"@ + digits_of(i as nat, 10))
                    + " ON t.id = "@ + ("ta"@ + digits_of(i as nat, 10)) + ".token_id"@
        }),
{
    lists_are_bound(q.contract_addresses@, Seq::<String>::empty(), q.token_ids@);
    let numbered = seq![
        Part {
            condition: "t.token_id != '' AND t.token_id IS NOT NULL"@,
            values: Seq::<ArgumentView>::empty(),
        },
    ];
    let a = one_of("t.contract_address"@, felts(q.contract_addresses@));
    let b = one_of("t.token_id"@, numbers(q.token_ids@));
    let c = traits_asked(q.attribute_filters@);
    one_of_is_its_values("t.contract_address"@, felts(q.contract_addresses@));
    one_of_is_its_values("t.token_id"@, numbers(q.token_ids@));
    traits_are_bound(q.attribute_filters@);
    values_add(numbered + a + b, c);
    values_add(numbered + a, b);
    values_add(numbered, a);
    one_part(numbered);
    assert(conditions_in(numbered) =~= seq!["t.token_id != '' AND t.token_id IS NOT NULL"@]);
    let asked = tokens_asked(q);
    assert(asked.bind_values =~= values_in(numbered + a + b + c));
    assert(asked.conditions =~= seq![join(conditions_in(numbered + a + b + c), " AND "@)]);
}

/// What some players did is asked for by player, world and namespace, each in its own column.
pub proof fn deeds_are_asked_by_column(
    head: Seq<char>,
    players: Seq<String>,
    q: PlayerAchievementQuery,
)
    requires
        players.len() > 0,
    ensures
        ({
            let parts = one_of("player_id"@, texts(players)) + one_of(
                "world_address"@,
                felts(q.world_addresses@),
            ) + one_of("namespace"@, texts(q.namespaces@));
            &&& for_players(head, players.len(), q) == head + join(conditions_in(parts), " AND "@)
            &&& for_players_binds(players, q) == values_in(parts)
        }),
{
    lists_are_bound(q.world_addresses@, q.namespaces@, Seq::<U256>::empty());
    lists_are_bound(Seq::<Felt>::empty(), players, Seq::<U256>::empty());
    let a = one_of("player_id"@, texts(players));
    let b = one_of("world_address"@, felts(q.world_addresses@));
    let c = one_of("namespace"@, texts(q.namespaces@));
    one_of_is_its_values("player_id"@, texts(players));
    one_of_is_its_values("world_address"@, felts(q.world_addresses@));
    one_of_is_its_values("namespace"@, texts(q.namespaces@));
    values_add(a + b, c);
    values_add(a, b);
    let x = condition_in("player_id"@, players.len());
    let y = condition_in("world_address"@, q.world_addresses@.len());
    let z = condition_in("namespace"@, q.namespaces@.len());
    assert(x.len() == 1);
    assert((x + y).drop_last() =~= (if y.len() == 0 {
        x.drop_last()
    } else {
        x
    }));
    assert((x + y + z).drop_last() =~= (if z.len() == 0 {
        (x + y).drop_last()
    } else {
        x + y
    }));
    assert(join(x, " AND "@) == in_list("player_id"@, players.len()));
    assert(join(x + y, " AND "@) =~= in_list("player_id"@, players.len()) + and_in_text(
        "world_address"@,
        q.world_addresses@.len(),
    )) by {
        if y.len() == 0 {
            assert(x + y =~= x);
        }
    }
    assert(join(x + y + z, " AND "@) =~= join(x + y, " AND "@) + and_in_text(
        "namespace"@,
        q.namespaces@.len(),
    )) by {
        if z.len() == 0 {
            assert(x + y + z =~= x + y);
        }
    }
    assert(for_players(head, players.len(), q) =~= head + join(x + y + z, " AND "@));
    assert(for_players_binds(players, q) =~= values_in(a + b + c));
}

/// The conditions of a statement stand after `WHERE`, all of them to be met; without any there is
/// no such word.
pub proof fn statements_ask_for_all_conditions(column: Seq<char>, other: Seq<char>, n: nat, m: nat)
    ensures
        where_text(condition_in(column, 0) + condition_in(other, 0)) == Seq::<char>::empty(),
        n > 0 ==> where_text(condition_in(column, n) + condition_in(other, 0)) == " WHERE "@ + (column
            + " IN ("@ + question_marks(n) + ")"@),
        m > 0 ==> where_text(condition_in(column, 0) + condition_in(other, m)) == " WHERE "@ + (other
            + " IN ("@ + question_marks(m) + ")"@),
        n > 0 && m > 0 ==> where_text(condition_in(column, n) + condition_in(other, m)) == " WHERE "@
            + ((column + " IN ("@ + question_marks(n) + ")"@) + " AND "@ + (other + " IN ("@
            + question_marks(m) + ")"@)),
{
    lists_have_a_mark_for_each_value(column, n);
    lists_have_a_mark_for_each_value(other, m);
    let a = condition_in(column, n);
    let b = condition_in(other, m);
    let none = Seq::<Seq<char>>::empty();
    assert(condition_in(column, 0) + condition_in(other, 0) =~= none);
    assert(a + condition_in(other, 0) =~= a);
    assert(condition_in(column, 0) + b =~= b);
    if n > 0 && m > 0 {
        assert((a + b).drop_last() =~= a);
        assert((a + b).last() == b[0]);
        assert(join(a, " AND "@) == a[0]);
        assert(join(a + b, " AND "@) == a[0] + " AND "@ + b[0]);
    }
}

} // verus!
