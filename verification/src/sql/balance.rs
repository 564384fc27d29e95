//! Every query binds exactly as many values as it has placeholders.
use vstd::prelude::*;
use vstd::string::*;
use crate::digits::{digits_of, digits_write_value, is_digit};
use crate::sql::builder::{
    and_in_keeps_balance, and_keeps_balance, felt_binds, in_list, join_keeps_balance, marks, marks_add,
    marks_in, marks_none, marks_of_in_list, query_on, text_binds, u256_binds, ArgumentView, QueryView,
};
use crate::sql::queries::{
    achievement_columns, achievements_asked, activities_asked, activity_columns, aggregation_columns,
    aggregations_asked, attribute_alias, attribute_binds, attribute_conditions, attribute_joins,
    call_conditions, condition_in, controllers_asked, event_columns, events_asked, kind_binds,
    padded_binds, player_columns, players_asked, token_balances_asked, token_contract_columns,
    token_contracts_asked, token_transfers_asked, tokens_asked, transaction_columns,
    transactions_asked, with_block, with_calls, with_models, with_time, AchievementQuery, ActivityQuery,
    AggregationQuery, AttributeFilter, ControllerQuery, PlayerAchievementQuery, TokenBalanceQuery,
    TokenContractQuery, TokenQuery, TokenTransferQuery, TransactionFilter,
};
use crate::text::{join, split_append, split_single};
use crate::time::{rfc3339_text, Timestamp};

verus! {

/// A query without conditions is balanced.
proof fn plain_is_balanced(table: Seq<char>, alias: Seq<char>, columns: Seq<Seq<char>>)
    ensures
        query_on(table, alias, columns).balanced(),
{
}

/// A text with one placeholder at its end.
proof fn marks_at_end(s: Seq<char>)
    requires
        s.len() > 0,
        s.last() == '?',
        forall|i: int| 0 <= i < s.len() - 1 ==> s[i] != '?',
    ensures
        marks(s) == 1,
{
    let a = s.drop_last();
    assert(!a.contains('?'));
    split_single(a, '?');
    assert(s =~= a + seq!['?'] + Seq::<char>::empty());
    split_append(a, Seq::empty(), '?');
}

/// The placeholders of joined texts are those of the texts.
proof fn marks_of_join(parts: Seq<Seq<char>>, sep: Seq<char>)
    requires
        marks(sep) == 0,
    ensures
        marks(join(parts, sep)) == marks_in(parts),
    decreases parts.len(),
{
    if parts.len() == 0 {
        split_single(Seq::empty(), '?');
    } else if parts.len() == 1 {
        assert(parts.drop_last() =~= Seq::<Seq<char>>::empty());
        assert(marks_in(parts.drop_last()) == 0);
    } else {
        marks_of_join(parts.drop_last(), sep);
        marks_add(join(parts.drop_last(), sep), sep);
        marks_add(join(parts.drop_last(), sep) + sep, parts.last());
    }
}

/// The placeholders of two lists of texts add up.
proof fn marks_in_add(a: Seq<Seq<char>>, b: Seq<Seq<char>>)
    ensures
        marks_in(a + b) == marks_in(a) + marks_in(b),
    decreases b.len(),
{
    if b.len() == 0 {
        assert(a + b =~= a);
    } else {
        marks_in_add(a, b.drop_last());
        assert((a + b).drop_last() =~= a + b.drop_last());
        assert((a + b).last() == b.last());
    }
}

/// A condition on a column, where there is one, has a placeholder for each value.
proof fn marks_of_condition(column: Seq<char>, n: nat)
    requires
        !column.contains('?'),
    ensures
        marks_in(condition_in(column, n)) == n,
{
    if n > 0 {
        marks_of_in_list(column, n);
        let s = condition_in(column, n);
        assert(s.drop_last() =~= Seq::<Seq<char>>::empty());
        assert(marks_in(s.drop_last()) == 0);
    }
}

/// The query for controllers binds one value for each placeholder.
pub proof fn controllers_balanced(q: ControllerQuery)
    ensures
        controllers_asked(q).balanced(),
{
    let base = query_on("controllers"@, ""@, seq!["address"@, "username"@, "deployed_at"@]);
    plain_is_balanced("controllers"@, ""@, seq!["address"@, "username"@, "deployed_at"@]);
    reveal_strlit("id");
    reveal_strlit("address");
    and_in_keeps_balance(base, "id"@, text_binds(q.usernames@));
    and_in_keeps_balance(
        base.and_in("id"@, text_binds(q.usernames@)),
        "address"@,
        padded_binds(q.contract_addresses@),
    );
}

/// The query for balances binds one value for each placeholder.
pub proof fn token_balances_balanced(q: TokenBalanceQuery)
    ensures
        token_balances_asked(q).balanced(),
{
    let base = query_on("token_balances"@, ""@, seq!["*"@]);
    plain_is_balanced("token_balances"@, ""@, seq!["*"@]);
    reveal_strlit("account_address");
    reveal_strlit("contract_address");
    reveal_strlit("SUBSTR(token_id, INSTR(token_id, ':') + 1)");
    let a = base.and_in("account_address"@, felt_binds(q.account_addresses@));
    let b = a.and_in("contract_address"@, felt_binds(q.contract_addresses@));
    and_in_keeps_balance(base, "account_address"@, felt_binds(q.account_addresses@));
    and_in_keeps_balance(a, "contract_address"@, felt_binds(q.contract_addresses@));
    and_in_keeps_balance(
        b,
        "SUBSTR(token_id, INSTR(token_id, ':') + 1)"@,
        u256_binds(q.token_ids@),
    );
}

/// The query for token contracts binds one value for each placeholder.
pub proof fn token_contracts_balanced(q: TokenContractQuery)
    ensures
        token_contracts_asked(q).balanced(),
{
    let base = query_on("tokens"@, "t"@, token_contract_columns());
    plain_is_balanced("tokens"@, "t"@, token_contract_columns());
    reveal_strlit("JOIN contracts c ON c.contract_address = t.contract_address");
    reveal_strlit("t.token_id = '' OR t.token_id IS NULL");
    reveal_strlit("t.contract_address");
    reveal_strlit("c.contract_type");
    let a = base.joined("JOIN contracts c ON c.contract_address = t.contract_address"@);
    join_keeps_balance(base, "JOIN contracts c ON c.contract_address = t.contract_address"@);
    marks_none("t.token_id = '' OR t.token_id IS NULL"@);
    let b = a.and("t.token_id = '' OR t.token_id IS NULL"@, Seq::empty());
    and_keeps_balance(a, "t.token_id = '' OR t.token_id IS NULL"@, Seq::empty());
    let c = b.and_in("t.contract_address"@, felt_binds(q.contract_addresses@));
    and_in_keeps_balance(b, "t.contract_address"@, felt_binds(q.contract_addresses@));
    and_in_keeps_balance(c, "c.contract_type"@, kind_binds(q.contract_types@));
}

/// A bound on the block keeps the query balanced.
proof fn block_keeps_balance(q: QueryView, condition: Seq<char>, block: Option<u64>)
    requires
        q.balanced(),
        marks(condition) == 1,
    ensures
        with_block(q, condition, block).balanced(),
{
    match block {
        Some(b) => {
            and_keeps_balance(q, condition, seq![ArgumentView::Text(digits_of(b as nat, 10))]);
        },
        None => {},
    }
}

/// The conditions on calls keep the query balanced.
proof fn calls_keep_balance(q: QueryView, f: TransactionFilter)
    requires
        q.balanced(),
    ensures
        with_calls(q, f).balanced(),
{
    if f.contract_addresses@.len() == 0 && f.entrypoints@.len() == 0 && f.caller_addresses@.len()
        == 0 {
    } else {
        reveal_strlit("JOIN transaction_calls tc ON tc.transaction_hash = t.transaction_hash");
        reveal_strlit("tc.contract_address");
        reveal_strlit("tc.entrypoint");
        reveal_strlit("tc.caller_address");
        reveal_strlit(" AND ");
        reveal_strlit("(");
        reveal_strlit(")");
        join_keeps_balance(
            q,
            "JOIN transaction_calls tc ON tc.transaction_hash = t.transaction_hash"@,
        );
        let joined = q.joined(
            "JOIN transaction_calls tc ON tc.transaction_hash = t.transaction_hash"@,
        );
        let a = condition_in("tc.contract_address"@, f.contract_addresses@.len());
        let b = condition_in("tc.entrypoint"@, f.entrypoints@.len());
        let c = condition_in("tc.caller_address"@, f.caller_addresses@.len());
        marks_of_condition("tc.contract_address"@, f.contract_addresses@.len());
        marks_of_condition("tc.entrypoint"@, f.entrypoints@.len());
        marks_of_condition("tc.caller_address"@, f.caller_addresses@.len());
        marks_in_add(a, b);
        marks_in_add(a + b, c);
        marks_none(" AND "@);
        marks_of_join(call_conditions(f), " AND "@);
        let inner = join(call_conditions(f), " AND "@);
        marks_none("("@);
        marks_none(")"@);
        marks_add("("@, inner);
        marks_add("("@ + inner, ")"@);
        and_keeps_balance(
            joined,
            "("@ + inner + ")"@,
            felt_binds(f.contract_addresses@) + text_binds(f.entrypoints@) + felt_binds(
                f.caller_addresses@,
            ),
        );
    }
}

/// The query for transactions binds one value for each placeholder.
pub proof fn transactions_balanced(filter: Option<TransactionFilter>)
    ensures
        transactions_asked(filter).balanced(),
{
    let base = query_on("transactions"@, "t"@, transaction_columns());
    plain_is_balanced("transactions"@, "t"@, transaction_columns());
    match filter {
        Some(f) => {
            reveal_strlit("t.transaction_hash");
            reveal_strlit("JOIN transaction_models tm ON tm.transaction_hash = t.transaction_hash");
            reveal_strlit("tm.model_id");
            reveal_strlit("t.block_number >= ?");
            reveal_strlit("t.block_number <= ?");
            let a = base.and_in("t.transaction_hash"@, felt_binds(f.transaction_hashes@));
            and_in_keeps_balance(base, "t.transaction_hash"@, felt_binds(f.transaction_hashes@));
            let b = with_calls(a, f);
            calls_keep_balance(a, f);
            let c = with_models(b, f);
            if f.model_selectors@.len() > 0 {
                join_keeps_balance(
                    b,
                    "JOIN transaction_models tm ON tm.transaction_hash = t.transaction_hash"@,
                );
                and_in_keeps_balance(
                    b.joined(
                        "JOIN transaction_models tm ON tm.transaction_hash = t.transaction_hash"@,
                    ),
                    "tm.model_id"@,
                    felt_binds(f.model_selectors@),
                );
            }
            marks_at_end("t.block_number >= ?"@);
            marks_at_end("t.block_number <= ?"@);
            block_keeps_balance(c, "t.block_number >= ?"@, f.from_block);
            block_keeps_balance(
                with_block(c, "t.block_number >= ?"@, f.from_block),
                "t.block_number <= ?"@,
                f.to_block,
            );
        },
        None => {},
    }
}

/// The query for events binds one value for each placeholder.
pub proof fn events_balanced(pattern: Option<String>)
    ensures
        events_asked(pattern).balanced(),
{
    let base = query_on("events"@, ""@, event_columns());
    plain_is_balanced("events"@, ""@, event_columns());
    match pattern {
        Some(p) => {
            reveal_strlit("keys REGEXP ?");
            marks_at_end("keys REGEXP ?"@);
            and_keeps_balance(base, "keys REGEXP ?"@, seq![ArgumentView::Text(p@)]);
        },
        None => {},
    }
}

/// The query for transfers binds one value for each placeholder.
pub proof fn token_transfers_balanced(q: TokenTransferQuery)
    ensures
        token_transfers_asked(q).balanced(),
{
    let base = query_on("token_transfers"@, ""@, seq!["*"@]);
    plain_is_balanced("token_transfers"@, ""@, seq!["*"@]);
    reveal_strlit("from_address");
    reveal_strlit("to_address");
    reveal_strlit("((");
    reveal_strlit(") OR (");
    reveal_strlit("))");
    reveal_strlit("contract_address");
    reveal_strlit("SUBSTR(token_id, INSTR(token_id, ':') + 1)");
    let n = q.account_addresses@.len();
    let f = in_list("from_address"@, n);
    let t = in_list("to_address"@, n);
    marks_of_in_list("from_address"@, n);
    marks_of_in_list("to_address"@, n);
    marks_none("(("@);
    marks_none(") OR ("@);
    marks_none("))"@);
    marks_add("(("@, f);
    marks_add("(("@ + f, ") OR ("@);
    marks_add("(("@ + f + ") OR ("@, t);
    marks_add("(("@ + f + ") OR ("@ + t, "))"@);
    let binds = felt_binds(q.account_addresses@) + felt_binds(q.account_addresses@);
    let a = if n == 0 {
        base
    } else {
        base.and("(("@ + f + ") OR ("@ + t + "))"@, binds)
    };
    if n > 0 {
        and_keeps_balance(base, "(("@ + f + ") OR ("@ + t + "))"@, binds);
    }
    let b = a.and_in("contract_address"@, felt_binds(q.contract_addresses@));
    and_in_keeps_balance(a, "contract_address"@, felt_binds(q.contract_addresses@));
    and_in_keeps_balance(
        b,
        "SUBSTR(token_id, INSTR(token_id, ':') + 1)"@,
        u256_binds(q.token_ids@),
    );
}

/// The query for aggregations binds one value for each placeholder.
pub proof fn aggregations_balanced(q: AggregationQuery)
    ensures
        aggregations_asked(q).balanced(),
{
    let base = query_on("aggregations"@, "a"@, aggregation_columns());
    plain_is_balanced("aggregations"@, "a"@, aggregation_columns());
    reveal_strlit("a.aggregator_id");
    reveal_strlit("a.entity_id");
    and_in_keeps_balance(base, "a.aggregator_id"@, text_binds(q.aggregator_ids@));
    and_in_keeps_balance(
        base.and_in("a.aggregator_id"@, text_binds(q.aggregator_ids@)),
        "a.entity_id"@,
        text_binds(q.entity_ids@),
    );
}

/// A bound on the time keeps the query balanced.
proof fn time_keeps_balance(q: QueryView, condition: Seq<char>, time: Option<Timestamp>)
    requires
        q.balanced(),
        marks(condition) == 1,
    ensures
        with_time(q, condition, time).balanced(),
{
    match time {
        Some(t) => {
            and_keeps_balance(q, condition, seq![ArgumentView::Text(rfc3339_text(t))]);
        },
        None => {},
    }
}

/// The query for activities binds one value for each placeholder.
pub proof fn activities_balanced(q: ActivityQuery)
    ensures
        activities_asked(q).balanced(),
{
    let base = query_on("activities"@, ""@, activity_columns());
    plain_is_balanced("activities"@, ""@, activity_columns());
    reveal_strlit("world_address");
    reveal_strlit("namespace");
    reveal_strlit("caller_address");
    reveal_strlit("session_end >= ?");
    reveal_strlit("session_end <= ?");
    let a = base.and_in("world_address"@, felt_binds(q.world_addresses@));
    let b = a.and_in("namespace"@, text_binds(q.namespaces@));
    let c = b.and_in("caller_address"@, felt_binds(q.caller_addresses@));
    and_in_keeps_balance(base, "world_address"@, felt_binds(q.world_addresses@));
    and_in_keeps_balance(a, "namespace"@, text_binds(q.namespaces@));
    and_in_keeps_balance(b, "caller_address"@, felt_binds(q.caller_addresses@));
    marks_at_end("session_end >= ?"@);
    marks_at_end("session_end <= ?"@);
    time_keeps_balance(c, "session_end >= ?"@, q.from_time);
    time_keeps_balance(
        with_time(c, "session_end >= ?"@, q.from_time),
        "session_end <= ?"@,
        q.to_time,
    );
}

/// The query for achievements binds one value for each placeholder.
pub proof fn achievements_balanced(q: AchievementQuery)
    ensures
        achievements_asked(q).balanced(),
{
    let base = query_on("achievements"@, ""@, achievement_columns());
    plain_is_balanced("achievements"@, ""@, achievement_columns());
    reveal_strlit("world_address");
    reveal_strlit("namespace");
    reveal_strlit("hidden = ?");
    let a = base.and_in("world_address"@, felt_binds(q.world_addresses@));
    let b = a.and_in("namespace"@, text_binds(q.namespaces@));
    and_in_keeps_balance(base, "world_address"@, felt_binds(q.world_addresses@));
    and_in_keeps_balance(a, "namespace"@, text_binds(q.namespaces@));
    marks_at_end("hidden = ?"@);
    match q.hidden {
        Some(h) => {
            let flag = if h {
                "1"@
            } else {
                "0"@
            };
            and_keeps_balance(b, "hidden = ?"@, seq![ArgumentView::Text(flag)]);
        },
        None => {},
    }
}

/// The query for the totals of players binds one value for each placeholder.
pub proof fn players_balanced(q: PlayerAchievementQuery)
    ensures
        players_asked(q).balanced(),
{
    let base = query_on("player_achievements"@, ""@, player_columns());
    plain_is_balanced("player_achievements"@, ""@, player_columns());
    reveal_strlit("world_address");
    reveal_strlit("namespace");
    reveal_strlit("player_id");
    let a = base.and_in("world_address"@, felt_binds(q.world_addresses@));
    let b = a.and_in("namespace"@, text_binds(q.namespaces@));
    and_in_keeps_balance(base, "world_address"@, felt_binds(q.world_addresses@));
    and_in_keeps_balance(a, "namespace"@, text_binds(q.namespaces@));
    and_in_keeps_balance(b, "player_id"@, felt_binds(q.player_addresses@));
}

/// The name of the joined attributes holds no placeholder.
proof fn alias_is_plain(i: nat)
    ensures
        marks(attribute_alias(i)) == 0,
{
    reveal_strlit("ta");
    digits_write_value(i, 10);
    let d = digits_of(i, 10);
    assert forall|k: int| 0 <= k < d.len() implies d[k] != '?' by {
        assert(is_digit(d[k], 10));
    }
    marks_none("ta"@);
    marks_none(d);
    marks_add("ta"@, d);
}

/// The joins of the attribute filters hold no placeholder.
proof fn attribute_joins_plain(n: nat)
    ensures
        marks_in(attribute_joins(n)) == 0,
    decreases n,
{
    if n > 0 {
        let m = (n - 1) as nat;
        attribute_joins_plain(m);
        assert(attribute_joins(n).drop_last() =~= attribute_joins(m));
        alias_is_plain(m);
        let x = attribute_alias(m);
        reveal_strlit("JOIN token_attributes ");
        reveal_strlit(" ON t.id = ");
        reveal_strlit(".token_id");
        marks_none("JOIN token_attributes "@);
        marks_none(" ON t.id = "@);
        marks_none(".token_id"@);
        marks_add("JOIN token_attributes "@, x);
        marks_add("JOIN token_attributes "@ + x, " ON t.id = "@);
        marks_add("JOIN token_attributes "@ + x + " ON t.id = "@, x);
        marks_add("JOIN token_attributes "@ + x + " ON t.id = "@ + x, ".token_id"@);
    }
}

/// Each attribute filter has two placeholders.
proof fn attribute_conditions_marks(n: nat)
    ensures
        marks_in(attribute_conditions(n)) == 2 * n,
    decreases n,
{
    if n > 0 {
        let m = (n - 1) as nat;
        attribute_conditions_marks(m);
        assert(attribute_conditions(n).drop_last() =~= attribute_conditions(m));
        alias_is_plain(m);
        let x = attribute_alias(m);
        reveal_strlit(".trait_name = ? AND ");
        reveal_strlit(".trait_value = ?");
        let h = ".trait_name = ? AND "@;
        assert(marks(h) == 1) by {
            let a = h.take(14);
            let b = h.skip(15);
            assert(h =~= a + seq!['?'] + b);
            assert(!a.contains('?'));
            assert(!b.contains('?'));
            split_single(a, '?');
            split_append(a, b, '?');
        }
        marks_at_end(".trait_value = ?"@);
        marks_add(x, h);
        marks_add(x + h, x);
        marks_add(x + h + x, ".trait_value = ?"@);
    }
}

/// Each attribute filter binds two values.
proof fn attribute_binds_len(f: Seq<AttributeFilter>)
    ensures
        attribute_binds(f).len() == 2 * f.len(),
    decreases f.len(),
{
    if f.len() > 0 {
        attribute_binds_len(f.drop_last());
    }
}

/// The query for tokens binds one value for each placeholder.
pub proof fn tokens_balanced(q: TokenQuery)
    ensures
        tokens_asked(q).balanced(),
{
    let base = query_on("tokens"@, "t"@, seq!["t.*"@, "t.id as ordering"@]);
    plain_is_balanced("tokens"@, "t"@, seq!["t.*"@, "t.id as ordering"@]);
    reveal_strlit("t.token_id != '' AND t.token_id IS NOT NULL");
    reveal_strlit("t.contract_address");
    reveal_strlit("t.token_id");
    reveal_strlit(" AND ");
    let n = q.attribute_filters@.len();
    let z = seq!["t.token_id != '' AND t.token_id IS NOT NULL"@];
    let a = condition_in("t.contract_address"@, q.contract_addresses@.len());
    let b = condition_in("t.token_id"@, q.token_ids@.len());
    let c = attribute_conditions(n);
    marks_none("t.token_id != '' AND t.token_id IS NOT NULL"@);
    assert(marks_in(z) == 0) by {
        assert(z.drop_last() =~= Seq::<Seq<char>>::empty());
    }
    marks_of_condition("t.contract_address"@, q.contract_addresses@.len());
    marks_of_condition("t.token_id"@, q.token_ids@.len());
    attribute_conditions_marks(n);
    attribute_joins_plain(n);
    attribute_binds_len(q.attribute_filters@);
    marks_in_add(z, a);
    marks_in_add(z + a, b);
    marks_in_add(z + a + b, c);
    marks_none(" AND "@);
    marks_of_join(z + a + b + c, " AND "@);
    let binds = felt_binds(q.contract_addresses@) + u256_binds(q.token_ids@) + attribute_binds(
        q.attribute_filters@,
    );
    and_keeps_balance(base, join(z + a + b + c, " AND "@), binds);
}

} // verus!
