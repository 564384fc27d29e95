//! The queries of the storage: what each request asks of the database.
use vstd::prelude::*;
use vstd::string::*;
use crate::digits::{decimal, digits_of};
use crate::felt::Felt;
use crate::ids::{format_world_scoped_id, hex_field, padded_felt, world_scoped_id};
use crate::options::ContractType;
use crate::schema::{ty_name, Ty, U256};
use crate::sql::builder::{
    argument_views, felt_args, felt_binds, in_list, in_list_of, query_on, text_args, text_binds,
    u256_args, u256_binds, Argument, ArgumentView, OrderBy, OrderDirection, QueryBuilder, QueryView,
};
use crate::subscriptions::matching::{Clause, CompositeClause, LogicalOperator};
use crate::text::{concat, join, join_with, views};
use crate::time::{rfc3339_text, to_rfc3339, Timestamp};

verus! {

/// A query for a page of rows, with the order of the page.
#[derive(Debug)]
pub struct PageQuery {
    pub query: QueryBuilder,
    pub order: OrderBy,
}

impl PageQuery {
    /// The query is the one described, ordered by that column.
    pub open spec fn asks(&self, q: QueryView, field: Seq<char>, direction: OrderDirection) -> bool {
        self.query.view() == q && self.order.field@ == field && self.order.direction == direction
    }
}

/// A statement with the values bound to its placeholders.
#[derive(Debug)]
pub struct Statement {
    pub sql: String,
    pub bind_values: Vec<Argument>,
}

/// What a controller request asks for.
#[derive(Debug)]
pub struct ControllerQuery {
    pub contract_addresses: Vec<Felt>,
    pub usernames: Vec<String>,
}

/// The elements bound as text of 62 digits.
pub open spec fn padded_binds(v: Seq<Felt>) -> Seq<ArgumentView> {
    v.map_values(|f: Felt| ArgumentView::Text(hex_field(f.value(), 62)))
}

/// All elements are below the order of the field.
pub open spec fn all_wf(v: Seq<Felt>) -> bool {
    forall|i: int| 0 <= i < v.len() ==> (#[trigger] v[i]).wf()
}

/// The elements bound as text of 62 digits.
fn padded_args(v: &Vec<Felt>) -> (r: Vec<Argument>)
    requires
        all_wf(v@),
    ensures
        argument_views(r@) == padded_binds(v@),
{
    let mut out: Vec<Argument> = Vec::new();
    let mut i: usize = 0;
    while i < v.len()
        invariant
            i <= v@.len(),
            out@.len() == i,
            all_wf(v@),
            forall|k: int|
                0 <= k < i ==> (#[trigger] out@[k]).view() == ArgumentView::Text(
                    hex_field(v@[k].value(), 62),
                ),
        decreases v@.len() - i,
    {
        out.push(Argument::Text(padded_felt(&v[i], 62)));
        i = i + 1;
    }
    proof {
        assert(argument_views(out@) =~= padded_binds(v@));
    }
    out
}

/// The query for controllers by name and address.
pub open spec fn controllers_asked(q: ControllerQuery) -> QueryView {
    query_on("controllers"@, ""@, seq!["address"@, "username"@, "deployed_at"@]).and_in(
        "id"@,
        text_binds(q.usernames@),
    ).and_in("address"@, padded_binds(q.contract_addresses@))
}

/// The query for controllers by name and address.
pub fn controllers(q: &ControllerQuery) -> (r: PageQuery)
    requires
        all_wf(q.contract_addresses@),
    ensures
        r.asks(controllers_asked(*q), "address"@, OrderDirection::Desc),
{
    let columns: Vec<&'static str> = vec!["address", "username", "deployed_at"];
    let b = QueryBuilder::new("controllers", "", &columns);
    proof {
        assert(columns@.map_values(|s: &'static str| s@) =~= seq![
            "address"@,
            "username"@,
            "deployed_at"@,
        ]);
    }
    let query = b.and_in("id", text_args(&q.usernames)).and_in(
        "address",
        padded_args(&q.contract_addresses),
    );
    PageQuery { query, order: OrderBy { field: "address", direction: OrderDirection::Desc } }
}

/// A trait that a token must have.
#[derive(Debug)]
pub struct AttributeFilter {
    pub trait_name: String,
    pub trait_value: String,
}

/// What a token request asks for.
#[derive(Debug)]
pub struct TokenQuery {
    pub contract_addresses: Vec<Felt>,
    pub token_ids: Vec<U256>,
    pub attribute_filters: Vec<AttributeFilter>,
}

/// The name under which the attributes of the filter at `i` are joined.
pub open spec fn attribute_alias(i: nat) -> Seq<char> {
    "ta"@ + digits_of(i, 10)
}

/// The joins of the first `n` attribute filters.
pub open spec fn attribute_joins(n: nat) -> Seq<Seq<char>> {
    Seq::new(
        n,
        |i: int|
            "JOIN token_attributes "@ + attribute_alias(i as nat) + " ON t.id = "@ + attribute_alias(
                i as nat,
            ) + ".token_id"@,
    )
}

/// The conditions of the first `n` attribute filters.
pub open spec fn attribute_conditions(n: nat) -> Seq<Seq<char>> {
    Seq::new(
        n,
        |i: int|
            attribute_alias(i as nat) + ".trait_name = ? AND "@ + attribute_alias(i as nat)
                + ".trait_value = ?"@,
    )
}

/// The values of the attribute filters, name and value in turn.
pub open spec fn attribute_binds(f: Seq<AttributeFilter>) -> Seq<ArgumentView>
    decreases f.len(),
{
    if f.len() == 0 {
        Seq::empty()
    } else {
        attribute_binds(f.drop_last()).push(ArgumentView::Text(f.last().trait_name@)).push(
            ArgumentView::Text(f.last().trait_value@),
        )
    }
}

/// The condition on a column, where there are values.
pub open spec fn condition_in(column: Seq<char>, n: nat) -> Seq<Seq<char>> {
    if n == 0 {
        Seq::empty()
    } else {
        seq![in_list(column, n)]
    }
}

/// The query for non-fungible tokens by contract, number and traits.
pub open spec fn tokens_asked(q: TokenQuery) -> QueryView {
    let conditions = seq!["t.token_id != '' AND t.token_id IS NOT NULL"@] + condition_in(
        "t.contract_address"@,
        q.contract_addresses@.len(),
    ) + condition_in("t.token_id"@, q.token_ids@.len()) + attribute_conditions(
        q.attribute_filters@.len(),
    );
    QueryView {
        joins: attribute_joins(q.attribute_filters@.len()),
        ..query_on("tokens"@, "t"@, seq!["t.*"@, "t.id as ordering"@]).and(
            join(conditions, " AND "@),
            felt_binds(q.contract_addresses@) + u256_binds(q.token_ids@) + attribute_binds(
                q.attribute_filters@,
            ),
        )
    }
}

/// The joins and conditions of the attribute filters, and the values bound to them.
fn attribute_parts(f: &Vec<AttributeFilter>) -> (r: (Vec<String>, Vec<String>, Vec<Argument>))
    ensures
        views(r.0@) == attribute_joins(f@.len()),
        views(r.1@) == attribute_conditions(f@.len()),
        argument_views(r.2@) == attribute_binds(f@),
{
    let mut joins: Vec<String> = Vec::new();
    let mut conditions: Vec<String> = Vec::new();
    let mut binds: Vec<Argument> = Vec::new();
    let mut i: usize = 0;
    proof {
        assert(f@.take(0) =~= Seq::<AttributeFilter>::empty());
        assert(argument_views(binds@) =~= attribute_binds(f@.take(0)));
    }
    while i < f.len()
        invariant
            i <= f@.len(),
            joins@.len() == i,
            conditions@.len() == i,
            forall|k: int|
                0 <= k < i ==> (#[trigger] joins@[k])@ == attribute_joins(f@.len())[k],
            forall|k: int|
                0 <= k < i ==> (#[trigger] conditions@[k])@ == attribute_conditions(f@.len())[k],
            argument_views(binds@) == attribute_binds(f@.take(i as int)),
        decreases f@.len() - i,
    {
        let alias = concat("ta", &decimal(i as u64));
        let mut j = "JOIN token_attributes ".to_owned();
        j.append(alias.as_str());
        j.append(" ON t.id = ");
        j.append(alias.as_str());
        j.append(".token_id");
        joins.push(j);
        let mut c = alias.clone();
        c.append(".trait_name = ? AND ");
        c.append(alias.as_str());
        c.append(".trait_value = ?");
        conditions.push(c);
        let ghost before = argument_views(binds@);
        binds.push(Argument::Text(f[i].trait_name.clone()));
        binds.push(Argument::Text(f[i].trait_value.clone()));
        proof {
            assert(f@.take(i + 1).drop_last() =~= f@.take(i as int));
            assert(argument_views(binds@) =~= before.push(
                ArgumentView::Text(f@[i as int].trait_name@),
            ).push(ArgumentView::Text(f@[i as int].trait_value@)));
        }
        i = i + 1;
    }
    proof {
        assert(f@.take(i as int) =~= f@);
        assert(views(joins@) =~= attribute_joins(f@.len()));
        assert(views(conditions@) =~= attribute_conditions(f@.len()));
    }
    (joins, conditions, binds)
}

/// The query for non-fungible tokens by contract, number and traits.
pub fn tokens(q: &TokenQuery) -> (r: PageQuery)
    ensures
        r.asks(tokens_asked(*q), "ordering"@, OrderDirection::Desc),
{
    let columns: Vec<&'static str> = vec!["t.*", "t.id as ordering"];
    let b = QueryBuilder::new("tokens", "t", &columns);
    let mut conditions: Vec<String> = Vec::new();
    conditions.push("t.token_id != '' AND t.token_id IS NOT NULL".to_owned());
    let n: usize = q.contract_addresses.len();
    if n > 0 {
        conditions.push(in_list_of("t.contract_address", n));
    }
    let m: usize = q.token_ids.len();
    if m > 0 {
        conditions.push(in_list_of("t.token_id", m));
    }
    let mut binds = felt_args(&q.contract_addresses);
    let mut ids = u256_args(&q.token_ids);
    let (joins, mut more, mut values) = attribute_parts(&q.attribute_filters);
    let ghost some = conditions@;
    let ghost tail = more@;
    let ghost b0 = binds@;
    let ghost b1 = ids@;
    let ghost b2 = values@;
    conditions.append(&mut more);
    binds.append(&mut ids);
    binds.append(&mut values);
    proof {
        assert(columns@.map_values(|s: &'static str| s@) =~= seq!["t.*"@, "t.id as ordering"@]);
        assert(views(some) =~= seq!["t.token_id != '' AND t.token_id IS NOT NULL"@] + condition_in(
            "t.contract_address"@,
            q.contract_addresses@.len(),
        ) + condition_in("t.token_id"@, q.token_ids@.len()));
        assert(views(conditions@) =~= views(some) + views(tail));
        assert(argument_views(binds@) =~= argument_views(b0) + argument_views(b1) + argument_views(
            b2,
        ));
    }
    let mut query = b.and(join_with(&conditions, " AND "), binds);
    query.joins = joins;
    PageQuery { query, order: OrderBy { field: "ordering", direction: OrderDirection::Desc } }
}

/// What a balance request asks for.
#[derive(Debug)]
pub struct TokenBalanceQuery {
    pub account_addresses: Vec<Felt>,
    pub contract_addresses: Vec<Felt>,
    pub token_ids: Vec<U256>,
}

/// The query for balances by account, contract and token.
pub open spec fn token_balances_asked(q: TokenBalanceQuery) -> QueryView {
    query_on("token_balances"@, ""@, seq!["*"@]).and_in(
        "account_address"@,
        felt_binds(q.account_addresses@),
    ).and_in("contract_address"@, felt_binds(q.contract_addresses@)).and_in(
        "SUBSTR(token_id, INSTR(token_id, ':') + 1)"@,
        u256_binds(q.token_ids@),
    )
}

/// The query for balances by account, contract and token.
pub fn token_balances(q: &TokenBalanceQuery) -> (r: PageQuery)
    ensures
        r.asks(token_balances_asked(*q), "id"@, OrderDirection::Desc),
{
    let columns: Vec<&'static str> = vec!["*"];
    let b = QueryBuilder::new("token_balances", "", &columns);
    proof {
        assert(columns@.map_values(|s: &'static str| s@) =~= seq!["*"@]);
    }
    let query = b.and_in("account_address", felt_args(&q.account_addresses)).and_in(
        "contract_address",
        felt_args(&q.contract_addresses),
    ).and_in("SUBSTR(token_id, INSTR(token_id, ':') + 1)", u256_args(&q.token_ids));
    PageQuery { query, order: OrderBy { field: "id", direction: OrderDirection::Desc } }
}

/// What a request for token contracts asks for.
#[derive(Debug)]
pub struct TokenContractQuery {
    pub contract_addresses: Vec<Felt>,
    pub contract_types: Vec<ContractType>,
}

/// The names of the kinds bound as text.
pub open spec fn kind_binds(v: Seq<ContractType>) -> Seq<ArgumentView> {
    v.map_values(|t: ContractType| ArgumentView::Text(t.label()))
}

/// The names of the kinds bound as text.
fn kind_args(v: &Vec<ContractType>) -> (r: Vec<Argument>)
    ensures
        argument_views(r@) == kind_binds(v@),
{
    let mut out: Vec<Argument> = Vec::new();
    let mut i: usize = 0;
    while i < v.len()
        invariant
            i <= v@.len(),
            out@.len() == i,
            forall|k: int|
                0 <= k < i ==> (#[trigger] out@[k]).view() == ArgumentView::Text(v@[k].label()),
        decreases v@.len() - i,
    {
        out.push(Argument::Text(v[i].name().to_owned()));
        i = i + 1;
    }
    proof {
        assert(argument_views(out@) =~= kind_binds(v@));
    }
    out
}

/// The columns of a token contract.
pub open spec fn token_contract_columns() -> Seq<Seq<char>> {
    seq![
        "t.contract_address as contract_address"@,
        "c.contract_type as contract_type"@,
        "t.name as name"@,
        "t.symbol as symbol"@,
        "t.decimals as decimals"@,
        "t.metadata as metadata"@,
        "t.total_supply as total_supply"@,
        "t.traits as traits"@,
        "COALESCE((SELECT metadata FROM tokens tk WHERE tk.contract_address = t.contract_address AND tk.token_id != '' AND tk.token_id IS NOT NULL ORDER BY tk.token_id LIMIT 1), '') as token_metadata"@,
        "t.contract_address as ordering"@,
    ]
}

/// The query for token contracts by address and kind.
pub open spec fn token_contracts_asked(q: TokenContractQuery) -> QueryView {
    query_on("tokens"@, "t"@, token_contract_columns()).joined(
        "JOIN contracts c ON c.contract_address = t.contract_address"@,
    ).and("t.token_id = '' OR t.token_id IS NULL"@, Seq::empty()).and_in(
        "t.contract_address"@,
        felt_binds(q.contract_addresses@),
    ).and_in("c.contract_type"@, kind_binds(q.contract_types@))
}

/// The query for token contracts by address and kind.
pub fn token_contracts(q: &TokenContractQuery) -> (r: PageQuery)
    ensures
        r.asks(token_contracts_asked(*q), "ordering"@, OrderDirection::Desc),
{
    let columns: Vec<&'static str> = vec![
        "t.contract_address as contract_address",
        "c.contract_type as contract_type",
        "t.name as name",
        "t.symbol as symbol",
        "t.decimals as decimals",
        "t.metadata as metadata",
        "t.total_supply as total_supply",
        "t.traits as traits",
        "COALESCE((SELECT metadata FROM tokens tk WHERE tk.contract_address = t.contract_address AND tk.token_id != '' AND tk.token_id IS NOT NULL ORDER BY tk.token_id LIMIT 1), '') as token_metadata",
        "t.contract_address as ordering",
    ];
    let b = QueryBuilder::new("tokens", "t", &columns);
    let none: Vec<Argument> = Vec::new();
    proof {
        assert(columns@.map_values(|s: &'static str| s@) =~= token_contract_columns());
        assert(argument_views(none@) =~= Seq::<ArgumentView>::empty());
    }
    let query = b.joined(
        "JOIN contracts c ON c.contract_address = t.contract_address".to_owned(),
    ).and("t.token_id = '' OR t.token_id IS NULL".to_owned(), none).and_in(
        "t.contract_address",
        felt_args(&q.contract_addresses),
    ).and_in("c.contract_type", kind_args(&q.contract_types));
    PageQuery { query, order: OrderBy { field: "ordering", direction: OrderDirection::Desc } }
}

/// What a transaction must meet.
#[derive(Debug)]
pub struct TransactionFilter {
    pub transaction_hashes: Vec<Felt>,
    pub caller_addresses: Vec<Felt>,
    pub contract_addresses: Vec<Felt>,
    pub entrypoints: Vec<String>,
    pub model_selectors: Vec<Felt>,
    pub from_block: Option<u64>,
    pub to_block: Option<u64>,
}

/// The columns of a transaction.
pub open spec fn transaction_columns() -> Seq<Seq<char>> {
    seq![
        "t.id"@,
        "t.transaction_hash"@,
        "t.sender_address"@,
        "t.calldata"@,
        "t.max_fee"@,
        "t.signature"@,
        "t.nonce"@,
        "t.block_number"@,
        "t.transaction_type"@,
        "t.executed_at"@,
        "t.created_at"@,
    ]
}

/// The conditions on the calls of a transaction.
pub open spec fn call_conditions(f: TransactionFilter) -> Seq<Seq<char>> {
    condition_in("tc.contract_address"@, f.contract_addresses@.len()) + condition_in(
        "tc.entrypoint"@,
        f.entrypoints@.len(),
    ) + condition_in("tc.caller_address"@, f.caller_addresses@.len())
}

/// The query with the conditions on calls, where there are any.
pub open spec fn with_calls(q: QueryView, f: TransactionFilter) -> QueryView {
    if f.contract_addresses@.len() == 0 && f.entrypoints@.len() == 0 && f.caller_addresses@.len()
        == 0 {
        q
    } else {
        q.joined(
            "JOIN transaction_calls tc ON tc.transaction_hash = t.transaction_hash"@,
        ).and(
            "("@ + join(call_conditions(f), " AND "@) + ")"@,
            felt_binds(f.contract_addresses@) + text_binds(f.entrypoints@) + felt_binds(
                f.caller_addresses@,
            ),
        )
    }
}

/// The query with the condition on models, where there is one.
pub open spec fn with_models(q: QueryView, f: TransactionFilter) -> QueryView {
    if f.model_selectors@.len() == 0 {
        q
    } else {
        q.joined(
            "JOIN transaction_models tm ON tm.transaction_hash = t.transaction_hash"@,
        ).and_in("tm.model_id"@, felt_binds(f.model_selectors@))
    }
}

/// The query with a bound on the block, where there is one.
pub open spec fn with_block(q: QueryView, condition: Seq<char>, block: Option<u64>) -> QueryView {
    match block {
        Some(b) => q.and(condition, seq![ArgumentView::Text(digits_of(b as nat, 10))]),
        None => q,
    }
}

/// The query for transactions: by hash, by what their calls address, by the models they touch and
/// by block.
pub open spec fn transactions_asked(filter: Option<TransactionFilter>) -> QueryView {
    let q = query_on("transactions"@, "t"@, transaction_columns());
    match filter {
        Some(f) => with_block(
            with_block(
                with_models(
                    with_calls(
                        q.and_in("t.transaction_hash"@, felt_binds(f.transaction_hashes@)),
                        f,
                    ),
                    f,
                ),
                "t.block_number >= ?"@,
                f.from_block,
            ),
            "t.block_number <= ?"@,
            f.to_block,
        ),
        None => q,
    }
}

/// The query with the conditions on calls, where there are any.
fn add_calls(b: QueryBuilder, f: &TransactionFilter) -> (r: QueryBuilder)
    ensures
        r.view() == with_calls(b.view(), *f),
{
    let n: usize = f.contract_addresses.len();
    let m: usize = f.entrypoints.len();
    let k: usize = f.caller_addresses.len();
    if n == 0 && m == 0 && k == 0 {
        return b;
    }
    let mut conditions: Vec<String> = Vec::new();
    if n > 0 {
        conditions.push(in_list_of("tc.contract_address", n));
    }
    if m > 0 {
        conditions.push(in_list_of("tc.entrypoint", m));
    }
    if k > 0 {
        conditions.push(in_list_of("tc.caller_address", k));
    }
    let mut binds = felt_args(&f.contract_addresses);
    let mut names = text_args(&f.entrypoints);
    let mut callers = felt_args(&f.caller_addresses);
    let ghost b0 = binds@;
    let ghost b1 = names@;
    let ghost b2 = callers@;
    binds.append(&mut names);
    binds.append(&mut callers);
    proof {
        assert(views(conditions@) =~= call_conditions(*f));
        assert(argument_views(binds@) =~= argument_views(b0) + argument_views(b1) + argument_views(
            b2,
        ));
    }
    let mut text = "(".to_owned();
    text.append(join_with(&conditions, " AND ").as_str());
    text.append(")");
    b.joined(
        "JOIN transaction_calls tc ON tc.transaction_hash = t.transaction_hash".to_owned(),
    ).and(text, binds)
}

/// The query with a bound on the block, where there is one.
fn add_block(b: QueryBuilder, condition: &str, block: Option<u64>) -> (r: QueryBuilder)
    ensures
        r.view() == with_block(b.view(), condition@, block),
{
    match block {
        Some(n) => {
            let binds: Vec<Argument> = vec![Argument::Text(decimal(n))];
            proof {
                assert(argument_views(binds@) =~= seq![
                    ArgumentView::Text(digits_of(n as nat, 10)),
                ]);
            }
            b.and(condition.to_owned(), binds)
        },
        None => b,
    }
}

/// The query for transactions.
pub fn transactions(filter: &Option<TransactionFilter>) -> (r: PageQuery)
    ensures
        r.asks(transactions_asked(*filter), "id"@, OrderDirection::Desc),
{
    let columns: Vec<&'static str> = vec![
        "t.id",
        "t.transaction_hash",
        "t.sender_address",
        "t.calldata",
        "t.max_fee",
        "t.signature",
        "t.nonce",
        "t.block_number",
        "t.transaction_type",
        "t.executed_at",
        "t.created_at",
    ];
    let b = QueryBuilder::new("transactions", "t", &columns);
    proof {
        assert(columns@.map_values(|s: &'static str| s@) =~= transaction_columns());
    }
    let query = match filter {
        Some(f) => {
            let with_hashes = b.and_in("t.transaction_hash", felt_args(&f.transaction_hashes));
            let called = add_calls(with_hashes, f);
            let modelled = if f.model_selectors.len() == 0 {
                called
            } else {
                called.joined(
                    "JOIN transaction_models tm ON tm.transaction_hash = t.transaction_hash".to_owned(),
                ).and_in("tm.model_id", felt_args(&f.model_selectors))
            };
            let from = add_block(modelled, "t.block_number >= ?", f.from_block);
            add_block(from, "t.block_number <= ?", f.to_block)
        },
        None => b,
    };
    PageQuery { query, order: OrderBy { field: "id", direction: OrderDirection::Desc } }
}

/// The columns of an event.
pub open spec fn event_columns() -> Seq<Seq<char>> {
    seq!["id"@, "keys"@, "data"@, "transaction_hash"@, "executed_at"@, "created_at"@]
}

/// The query for events: those whose keys match the pattern, where there is one.
pub open spec fn events_asked(pattern: Option<String>) -> QueryView {
    let q = query_on("events"@, ""@, event_columns());
    match pattern {
        Some(p) => if p@.len() == 0 {
            q
        } else {
            q.and("keys REGEXP ?"@, seq![ArgumentView::Text(p@)])
        },
        None => q,
    }
}

/// The query for events. The pattern is the regular expression that the keys are to match.
pub fn events(pattern: &Option<String>) -> (r: PageQuery)
    ensures
        r.asks(events_asked(*pattern), "id"@, OrderDirection::Desc),
{
    let columns: Vec<&'static str> = vec![
        "id",
        "keys",
        "data",
        "transaction_hash",
        "executed_at",
        "created_at",
    ];
    let b = QueryBuilder::new("events", "", &columns);
    proof {
        assert(columns@.map_values(|s: &'static str| s@) =~= event_columns());
    }
    let query = match pattern {
        Some(p) => if p.as_str().is_empty() {
            b
        } else {
            let binds: Vec<Argument> = vec![Argument::Text(p.clone())];
            proof {
                assert(argument_views(binds@) =~= seq![ArgumentView::Text(p@)]);
            }
            b.and("keys REGEXP ?".to_owned(), binds)
        },
        None => b,
    };
    PageQuery { query, order: OrderBy { field: "id", direction: OrderDirection::Desc } }
}

/// What a transfer request asks for.
#[derive(Debug)]
pub struct TokenTransferQuery {
    pub account_addresses: Vec<Felt>,
    pub contract_addresses: Vec<Felt>,
    pub token_ids: Vec<U256>,
}

/// The query for transfers: of an account, whether it gave or got, of a contract and of a token.
pub open spec fn token_transfers_asked(q: TokenTransferQuery) -> QueryView {
    let base = query_on("token_transfers"@, ""@, seq!["*"@]);
    let n = q.account_addresses@.len();
    let accounts = if n == 0 {
        base
    } else {
        base.and(
            "(("@ + in_list("from_address"@, n) + ") OR ("@ + in_list("to_address"@, n) + "))"@,
            felt_binds(q.account_addresses@) + felt_binds(q.account_addresses@),
        )
    };
    accounts.and_in("contract_address"@, felt_binds(q.contract_addresses@)).and_in(
        "SUBSTR(token_id, INSTR(token_id, ':') + 1)"@,
        u256_binds(q.token_ids@),
    )
}

/// The query for transfers.
pub fn token_transfers(q: &TokenTransferQuery) -> (r: PageQuery)
    ensures
        r.asks(token_transfers_asked(*q), "id"@, OrderDirection::Desc),
{
    let columns: Vec<&'static str> = vec!["*"];
    let b = QueryBuilder::new("token_transfers", "", &columns);
    proof {
        assert(columns@.map_values(|s: &'static str| s@) =~= seq!["*"@]);
    }
    let n: usize = q.account_addresses.len();
    let accounts = if n == 0 {
        b
    } else {
        let mut text = "((".to_owned();
        text.append(in_list_of("from_address", n).as_str());
        text.append(") OR (");
        text.append(in_list_of("to_address", n).as_str());
        text.append("))");
        let mut binds = felt_args(&q.account_addresses);
        let mut again = felt_args(&q.account_addresses);
        let ghost b0 = binds@;
        let ghost b1 = again@;
        binds.append(&mut again);
        proof {
            assert(argument_views(binds@) =~= argument_views(b0) + argument_views(b1));
        }
        b.and(text, binds)
    };
    let query = accounts.and_in("contract_address", felt_args(&q.contract_addresses)).and_in(
        "SUBSTR(token_id, INSTR(token_id, ':') + 1)",
        u256_args(&q.token_ids),
    );
    PageQuery { query, order: OrderBy { field: "id", direction: OrderDirection::Desc } }
}

/// What an aggregation request asks for.
#[derive(Debug)]
pub struct AggregationQuery {
    pub aggregator_ids: Vec<String>,
    pub entity_ids: Vec<String>,
}

/// The columns of an aggregation, with its place among those of its aggregator.
pub open spec fn aggregation_columns() -> Seq<Seq<char>> {
    seq![
        "a.id"@,
        "a.aggregator_id"@,
        "a.entity_id"@,
        "a.value"@,
        "a.display_value"@,
        "a.model_id"@,
        "a.created_at"@,
        "a.updated_at"@,
        "ROW_NUMBER() OVER (PARTITION BY a.aggregator_id ORDER BY a.value DESC) as position"@,
    ]
}

/// The query for aggregations by aggregator and entity.
pub open spec fn aggregations_asked(q: AggregationQuery) -> QueryView {
    query_on("aggregations"@, "a"@, aggregation_columns()).and_in(
        "a.aggregator_id"@,
        text_binds(q.aggregator_ids@),
    ).and_in("a.entity_id"@, text_binds(q.entity_ids@))
}

/// The query for aggregations.
pub fn aggregations(q: &AggregationQuery) -> (r: PageQuery)
    ensures
        r.asks(aggregations_asked(*q), "position"@, OrderDirection::Asc),
{
    let columns: Vec<&'static str> = vec![
        "a.id",
        "a.aggregator_id",
        "a.entity_id",
        "a.value",
        "a.display_value",
        "a.model_id",
        "a.created_at",
        "a.updated_at",
        "ROW_NUMBER() OVER (PARTITION BY a.aggregator_id ORDER BY a.value DESC) as position",
    ];
    let b = QueryBuilder::new("aggregations", "a", &columns);
    proof {
        assert(columns@.map_values(|s: &'static str| s@) =~= aggregation_columns());
    }
    let query = b.and_in("a.aggregator_id", text_args(&q.aggregator_ids)).and_in(
        "a.entity_id",
        text_args(&q.entity_ids),
    );
    PageQuery { query, order: OrderBy { field: "position", direction: OrderDirection::Asc } }
}

/// What an activity request asks for.
#[derive(Debug)]
pub struct ActivityQuery {
    pub world_addresses: Vec<Felt>,
    pub namespaces: Vec<String>,
    pub caller_addresses: Vec<Felt>,
    pub from_time: Option<Timestamp>,
    pub to_time: Option<Timestamp>,
}

/// The columns of an activity.
pub open spec fn activity_columns() -> Seq<Seq<char>> {
    seq![
        "id"@,
        "world_address"@,
        "namespace"@,
        "caller_address"@,
        "session_start"@,
        "session_end"@,
        "action_count"@,
        "actions"@,
        "updated_at"@,
    ]
}

/// The query with a bound on the time, as text of RFC 3339, where there is one.
pub open spec fn with_time(
    q: QueryView,
    condition: Seq<char>,
    time: Option<Timestamp>,
) -> QueryView {
    match time {
        Some(t) => q.and(condition, seq![ArgumentView::Text(rfc3339_text(t))]),
        None => q,
    }
}

/// The query for activities by world, namespace, caller and time.
pub open spec fn activities_asked(q: ActivityQuery) -> QueryView {
    with_time(
        with_time(
            query_on("activities"@, ""@, activity_columns()).and_in(
                "world_address"@,
                felt_binds(q.world_addresses@),
            ).and_in("namespace"@, text_binds(q.namespaces@)).and_in(
                "caller_address"@,
                felt_binds(q.caller_addresses@),
            ),
            "session_end >= ?"@,
            q.from_time,
        ),
        "session_end <= ?"@,
        q.to_time,
    )
}

/// The query with a bound on the time, where there is one.
fn add_time(b: QueryBuilder, condition: &str, time: Option<Timestamp>) -> (r: QueryBuilder)
    requires
        time matches Some(t) ==> t.valid(),
    ensures
        r.view() == with_time(b.view(), condition@, time),
{
    match time {
        Some(t) => {
            let binds: Vec<Argument> = vec![Argument::Text(to_rfc3339(t))];
            proof {
                assert(argument_views(binds@) =~= seq![ArgumentView::Text(rfc3339_text(t))]);
            }
            b.and(condition.to_owned(), binds)
        },
        None => b,
    }
}

/// The query for activities.
pub fn activities(q: &ActivityQuery) -> (r: PageQuery)
    requires
        q.from_time matches Some(t) ==> t.valid(),
        q.to_time matches Some(t) ==> t.valid(),
    ensures
        r.asks(activities_asked(*q), "session_end"@, OrderDirection::Desc),
{
    let columns: Vec<&'static str> = vec![
        "id",
        "world_address",
        "namespace",
        "caller_address",
        "session_start",
        "session_end",
        "action_count",
        "actions",
        "updated_at",
    ];
    let b = QueryBuilder::new("activities", "", &columns);
    proof {
        assert(columns@.map_values(|s: &'static str| s@) =~= activity_columns());
    }
    let filtered = b.and_in("world_address", felt_args(&q.world_addresses)).and_in(
        "namespace",
        text_args(&q.namespaces),
    ).and_in("caller_address", felt_args(&q.caller_addresses));
    let from = add_time(filtered, "session_end >= ?", q.from_time);
    let query = add_time(from, "session_end <= ?", q.to_time);
    PageQuery { query, order: OrderBy { field: "session_end", direction: OrderDirection::Desc } }
}

/// What an achievement request asks for.
#[derive(Debug)]
pub struct AchievementQuery {
    pub world_addresses: Vec<Felt>,
    pub namespaces: Vec<String>,
    pub hidden: Option<bool>,
}

/// The columns of an achievement.
pub open spec fn achievement_columns() -> Seq<Seq<char>> {
    seq![
        "id"@,
        "world_address"@,
        "namespace"@,
        "entity_id"@,
        "hidden"@,
        "index_num"@,
        "points"@,
        "start"@,
        "end"@,
        "group_name"@,
        "icon"@,
        "title"@,
        "description"@,
        "tasks"@,
        "data"@,
        "total_completions"@,
        "completion_rate"@,
        "created_at"@,
        "updated_at"@,
    ]
}

/// The query for achievements by world, namespace and whether they are hidden.
pub open spec fn achievements_asked(q: AchievementQuery) -> QueryView {
    let base = query_on("achievements"@, ""@, achievement_columns()).and_in(
        "world_address"@,
        felt_binds(q.world_addresses@),
    ).and_in("namespace"@, text_binds(q.namespaces@));
    match q.hidden {
        Some(h) => base.and(
            "hidden = ?"@,
            seq![
                ArgumentView::Text(
                    if h {
                        "1"@
                    } else {
                        "0"@
                    },
                ),
            ],
        ),
        None => base,
    }
}

/// The query for achievements.
pub fn achievements(q: &AchievementQuery) -> (r: PageQuery)
    ensures
        r.asks(achievements_asked(*q), "index_num"@, OrderDirection::Asc),
{
    let columns: Vec<&'static str> = vec![
        "id",
        "world_address",
        "namespace",
        "entity_id",
        "hidden",
        "index_num",
        "points",
        "start",
        "end",
        "group_name",
        "icon",
        "title",
        "description",
        "tasks",
        "data",
        "total_completions",
        "completion_rate",
        "created_at",
        "updated_at",
    ];
    let b = QueryBuilder::new("achievements", "", &columns);
    proof {
        assert(columns@.map_values(|s: &'static str| s@) =~= achievement_columns());
    }
    let filtered = b.and_in("world_address", felt_args(&q.world_addresses)).and_in(
        "namespace",
        text_args(&q.namespaces),
    );
    let query = match q.hidden {
        Some(h) => {
            let flag = if h {
                "1".to_owned()
            } else {
                "0".to_owned()
            };
            let binds: Vec<Argument> = vec![Argument::Text(flag)];
            proof {
                assert(argument_views(binds@) =~= seq![ArgumentView::Text(flag@)]);
            }
            filtered.and("hidden = ?".to_owned(), binds)
        },
        None => filtered,
    };
    PageQuery { query, order: OrderBy { field: "index_num", direction: OrderDirection::Asc } }
}

/// What a request for the achievements of players asks for.
#[derive(Debug)]
pub struct PlayerAchievementQuery {
    pub world_addresses: Vec<Felt>,
    pub namespaces: Vec<String>,
    pub player_addresses: Vec<Felt>,
}

/// The columns of the totals of a player.
pub open spec fn player_columns() -> Seq<Seq<char>> {
    seq![
        "player_id"@,
        "SUM(total_points) as total_points"@,
        "SUM(completed_achievements) as completed_achievements"@,
        "SUM(total_achievements) as total_achievements"@,
        "AVG(completion_percentage) as completion_percentage"@,
        "MAX(last_achievement_at) as last_achievement_at"@,
        "MIN(created_at) as created_at"@,
        "MAX(updated_at) as updated_at"@,
    ]
}

/// The query for the totals of players by world, namespace and address.
pub open spec fn players_asked(q: PlayerAchievementQuery) -> QueryView {
    QueryView {
        group_by: "player_id"@,
        ..query_on("player_achievements"@, ""@, player_columns()).and_in(
            "world_address"@,
            felt_binds(q.world_addresses@),
        ).and_in("namespace"@, text_binds(q.namespaces@)).and_in(
            "player_id"@,
            felt_binds(q.player_addresses@),
        )
    }
}

/// The query for the totals of players, the highest first.
pub fn player_achievements(q: &PlayerAchievementQuery) -> (r: PageQuery)
    ensures
        r.asks(players_asked(*q), "total_points"@, OrderDirection::Desc),
{
    let columns: Vec<&'static str> = vec![
        "player_id",
        "SUM(total_points) as total_points",
        "SUM(completed_achievements) as completed_achievements",
        "SUM(total_achievements) as total_achievements",
        "AVG(completion_percentage) as completion_percentage",
        "MAX(last_achievement_at) as last_achievement_at",
        "MIN(created_at) as created_at",
        "MAX(updated_at) as updated_at",
    ];
    let b = QueryBuilder::new("player_achievements", "", &columns);
    proof {
        assert(columns@.map_values(|s: &'static str| s@) =~= player_columns());
    }
    let query = b.and_in("world_address", felt_args(&q.world_addresses)).and_in(
        "namespace",
        text_args(&q.namespaces),
    ).and_in("player_id", felt_args(&q.player_addresses)).grouped("player_id");
    PageQuery { query, order: OrderBy { field: "total_points", direction: OrderDirection::Desc } }
}

/// A condition that is added to a statement where there are values.
pub open spec fn and_in_text(column: Seq<char>, n: nat) -> Seq<char> {
    if n == 0 {
        Seq::empty()
    } else {
        " AND "@ + in_list(column, n)
    }
}

/// A statement for some players, restricted to the worlds and namespaces asked for.
pub open spec fn for_players(head: Seq<char>, players: nat, q: PlayerAchievementQuery) -> Seq<char> {
    head + in_list("player_id"@, players) + and_in_text("world_address"@, q.world_addresses@.len())
        + and_in_text("namespace"@, q.namespaces@.len())
}

/// The values bound in a statement for some players.
pub open spec fn for_players_binds(players: Seq<String>, q: PlayerAchievementQuery) -> Seq<
    ArgumentView,
> {
    text_binds(players) + felt_binds(q.world_addresses@) + text_binds(q.namespaces@)
}

/// A statement for some players, restricted to the worlds and namespaces asked for.
fn player_statement(head: &str, players: &Vec<String>, q: &PlayerAchievementQuery) -> (r: Statement)
    ensures
        r.sql@ == for_players(head@, players@.len(), *q),
        argument_views(r.bind_values@) == for_players_binds(players@, *q),
{
    let mut sql = head.to_owned();
    sql.append(in_list_of("player_id", players.len()).as_str());
    let n: usize = q.world_addresses.len();
    let ghost s0 = sql@;
    if n > 0 {
        sql.append(" AND ");
        sql.append(in_list_of("world_address", n).as_str());
    }
    let ghost s1 = sql@;
    let m: usize = q.namespaces.len();
    if m > 0 {
        sql.append(" AND ");
        sql.append(in_list_of("namespace", m).as_str());
    }
    proof {
        assert(s1 =~= s0 + and_in_text("world_address"@, q.world_addresses@.len()));
        assert(sql@ =~= s1 + and_in_text("namespace"@, q.namespaces@.len()));
    }
    let mut binds = text_args(players);
    let mut worlds = felt_args(&q.world_addresses);
    let mut names = text_args(&q.namespaces);
    let ghost b0 = binds@;
    let ghost b1 = worlds@;
    let ghost b2 = names@;
    binds.append(&mut worlds);
    binds.append(&mut names);
    proof {
        assert(argument_views(binds@) =~= argument_views(b0) + argument_views(b1) + argument_views(
            b2,
        ));
    }
    Statement { sql, bind_values: binds }
}

/// The statement for the worlds and namespaces in which the players have achievements.
pub fn player_namespaces(players: &Vec<String>, q: &PlayerAchievementQuery) -> (r: Statement)
    ensures
        r.sql@ == for_players(
            "SELECT DISTINCT world_address, namespace FROM player_achievements WHERE "@,
            players@.len(),
            *q,
        ),
        argument_views(r.bind_values@) == for_players_binds(players@, *q),
{
    player_statement(
        "SELECT DISTINCT world_address, namespace FROM player_achievements WHERE ",
        players,
        q,
    )
}

/// The statement for the progressions of the players.
pub fn player_progressions(players: &Vec<String>, q: &PlayerAchievementQuery) -> (r: Statement)
    ensures
        r.sql@ == for_players(
            "SELECT id, task_id, world_address, namespace, player_id, count, completed, completed_at, created_at, updated_at FROM achievement_progressions WHERE "@,
            players@.len(),
            *q,
        ),
        argument_views(r.bind_values@) == for_players_binds(players@, *q),
{
    player_statement(
        "SELECT id, task_id, world_address, namespace, player_id, count, completed, completed_at, created_at, updated_at FROM achievement_progressions WHERE ",
        players,
        q,
    )
}

/// The condition of a statement: none, or the conditions after `WHERE`.
pub open spec fn where_text(conditions: Seq<Seq<char>>) -> Seq<char> {
    if conditions.len() == 0 {
        Seq::empty()
    } else {
        " WHERE "@ + join(conditions, " AND "@)
    }
}

/// The statement for the models of the worlds and selectors; all worlds, or all selectors, where
/// none is given.
pub fn models(world_addresses: &Vec<Felt>, selectors: &Vec<Felt>) -> (r: Statement)
    ensures
        r.sql@ == "SELECT * FROM models"@ + where_text(
            condition_in("world_address"@, world_addresses@.len()) + condition_in(
                "model_selector"@,
                selectors@.len(),
            ),
        ),
        argument_views(r.bind_values@) == felt_binds(world_addresses@) + felt_binds(selectors@),
{
    let mut sql = "SELECT * FROM models".to_owned();
    let mut conditions: Vec<String> = Vec::new();
    let n: usize = world_addresses.len();
    let m: usize = selectors.len();
    if n > 0 {
        conditions.push(in_list_of("world_address", n));
    }
    if m > 0 {
        conditions.push(in_list_of("model_selector", m));
    }
    proof {
        assert(views(conditions@) =~= condition_in("world_address"@, n as nat) + condition_in(
            "model_selector"@,
            m as nat,
        ));
    }
    let ghost s0 = sql@;
    if conditions.len() > 0 {
        sql.append(" WHERE ");
        sql.append(join_with(&conditions, " AND ").as_str());
    }
    let mut binds = felt_args(world_addresses);
    let mut more = felt_args(selectors);
    let ghost b0 = binds@;
    let ghost b1 = more@;
    binds.append(&mut more);
    proof {
        assert(sql@ =~= s0 + where_text(views(conditions@)));
        assert(argument_views(binds@) =~= argument_views(b0) + argument_views(b1));
    }
    Statement { sql, bind_values: binds }
}

/// What a contract request asks for.
#[derive(Debug)]
pub struct ContractQuery {
    pub contract_addresses: Vec<Felt>,
    pub contract_types: Vec<ContractType>,
}

/// The statement for contracts by address and kind, the newest first.
pub fn contracts(q: &ContractQuery) -> (r: Statement)
    ensures
        r.sql@ == "SELECT * FROM contracts"@ + where_text(
            condition_in("contract_address"@, q.contract_addresses@.len()) + condition_in(
                "contract_type"@,
                q.contract_types@.len(),
            ),
        ) + " ORDER BY created_at DESC"@,
        argument_views(r.bind_values@) == felt_binds(q.contract_addresses@) + kind_binds(
            q.contract_types@,
        ),
{
    let mut sql = "SELECT * FROM contracts".to_owned();
    let mut conditions: Vec<String> = Vec::new();
    let n: usize = q.contract_addresses.len();
    let m: usize = q.contract_types.len();
    if n > 0 {
        conditions.push(in_list_of("contract_address", n));
    }
    if m > 0 {
        conditions.push(in_list_of("contract_type", m));
    }
    proof {
        assert(views(conditions@) =~= condition_in("contract_address"@, n as nat) + condition_in(
            "contract_type"@,
            m as nat,
        ));
    }
    let ghost s0 = sql@;
    if conditions.len() > 0 {
        sql.append(" WHERE ");
        sql.append(join_with(&conditions, " AND ").as_str());
    }
    proof {
        assert(sql@ =~= s0 + where_text(views(conditions@)));
    }
    sql.append(" ORDER BY created_at DESC");
    let mut binds = felt_args(&q.contract_addresses);
    let mut more = kind_args(&q.contract_types);
    let ghost b0 = binds@;
    let ghost b1 = more@;
    binds.append(&mut more);
    proof {
        assert(argument_views(binds@) =~= argument_views(b0) + argument_views(b1));
    }
    Statement { sql, bind_values: binds }
}

/// The tables that entities are read from.
#[derive(Clone, Copy, Debug, PartialEq, Eq, Structural)]
pub enum EntityTable {
    Entities,
    EntitiesHistorical,
    EventMessages,
    EventMessagesHistorical,
}

/// The clause of a request for entities as a composite clause: itself, or the conjunction of what
/// is asked.
pub fn composite_of(clause: Option<Clause>) -> (r: CompositeClause)
    ensures
        match clause {
            Some(Clause::Composite(c)) => r == c,
            Some(c) => r.operator == LogicalOperator::And && r.clauses@ == seq![c],
            None => r.operator == LogicalOperator::And && r.clauses@.len() == 0,
        },
{
    match clause {
        Some(Clause::Composite(c)) => c,
        Some(c) => {
            let mut clauses: Vec<Clause> = Vec::new();
            clauses.push(c);
            CompositeClause { operator: LogicalOperator::And, clauses }
        },
        None => CompositeClause { operator: LogicalOperator::And, clauses: Vec::new() },
    }
}

/// The tables that tell which models an entity has, and the columns that name the entity in the
/// tables of models.
#[derive(Clone, Copy, Debug, PartialEq, Eq, Structural)]
pub enum EntityKind {
    Entities,
    EventMessages,
}

/// What a request for entities asks for, a page at a time.
#[derive(Debug)]
pub struct Query<P> {
    pub clause: Option<Clause>,
    pub pagination: P,
    pub no_hashed_keys: bool,
    pub models: Vec<String>,
    pub historical: bool,
    pub world_addresses: Vec<Felt>,
}

/// A request for the entities that meet a composite clause.
#[derive(Debug)]
pub struct EntityRequest<P> {
    pub table: EntityTable,
    /// The table that tells the models of an entity.
    pub model_relation_table: EntityKind,
    /// The column of the tables of models that names the entity.
    pub entity_relation_column: EntityKind,
    pub composite: CompositeClause,
    pub pagination: P,
    pub no_hashed_keys: bool,
    pub models: Vec<String>,
    pub historical: bool,
    pub world_addresses: Vec<Felt>,
}

/// Whether the request is that of the query for entities of a kind.
pub open spec fn request_is<P>(r: EntityRequest<P>, q: Query<P>, kind: EntityKind) -> bool {
    &&& r.table == (match (kind, q.historical) {
        (EntityKind::Entities, false) => EntityTable::Entities,
        (EntityKind::Entities, true) => EntityTable::EntitiesHistorical,
        (EntityKind::EventMessages, false) => EntityTable::EventMessages,
        (EntityKind::EventMessages, true) => EntityTable::EventMessagesHistorical,
    })
    &&& r.model_relation_table == kind
    &&& r.entity_relation_column == kind
    &&& match q.clause {
        Some(Clause::Composite(c)) => r.composite == c,
        Some(c) => r.composite.operator == LogicalOperator::And && r.composite.clauses@ == seq![c],
        None => r.composite.operator == LogicalOperator::And && r.composite.clauses@.len() == 0,
    }
    &&& r.pagination == q.pagination
    &&& r.no_hashed_keys == q.no_hashed_keys
    &&& r.models == q.models
    &&& r.historical == q.historical
    &&& r.world_addresses == q.world_addresses
}

/// The request for the entities of a query.
pub fn entities<P>(q: Query<P>) -> (r: EntityRequest<P>)
    ensures
        request_is(r, q, EntityKind::Entities),
{
    EntityRequest {
        table: entity_table(false, q.historical),
        model_relation_table: EntityKind::Entities,
        entity_relation_column: EntityKind::Entities,
        composite: composite_of(q.clause),
        pagination: q.pagination,
        no_hashed_keys: q.no_hashed_keys,
        models: q.models,
        historical: q.historical,
        world_addresses: q.world_addresses,
    }
}

/// The request for the event messages of a query.
pub fn event_messages<P>(q: Query<P>) -> (r: EntityRequest<P>)
    ensures
        request_is(r, q, EntityKind::EventMessages),
{
    EntityRequest {
        table: entity_table(true, q.historical),
        model_relation_table: EntityKind::EventMessages,
        entity_relation_column: EntityKind::EventMessages,
        composite: composite_of(q.clause),
        pagination: q.pagination,
        no_hashed_keys: q.no_hashed_keys,
        models: q.models,
        historical: q.historical,
        world_addresses: q.world_addresses,
    }
}

/// The table that a request for entities, or for event messages, reads.
pub fn entity_table(event_messages: bool, historical: bool) -> (r: EntityTable)
    ensures
        r == (if event_messages {
            if historical {
                EntityTable::EventMessagesHistorical
            } else {
                EntityTable::EventMessages
            }
        } else if historical {
            EntityTable::EntitiesHistorical
        } else {
            EntityTable::Entities
        }),
{
    if event_messages {
        if historical {
            EntityTable::EventMessagesHistorical
        } else {
            EntityTable::EventMessages
        }
    } else if historical {
        EntityTable::EntitiesHistorical
    } else {
        EntityTable::Entities
    }
}

/// The statement for the model of a world and selector.
pub fn model(world_address: &Felt, selector: &Felt) -> (r: Statement)
    requires
        world_address.wf(),
        selector.wf(),
    ensures
        r.sql@ == "SELECT * FROM models WHERE id = ?"@,
        argument_views(r.bind_values@) == seq![
            ArgumentView::Text(world_scoped_id(world_address.value(), selector.value())),
        ],
{
    let id = format_world_scoped_id(world_address, selector);
    let bind_values: Vec<Argument> = vec![Argument::Text(id)];
    proof {
        assert(argument_views(bind_values@) =~= seq![ArgumentView::Text(id@)]);
    }
    Statement { sql: "SELECT * FROM models WHERE id = ?".to_owned(), bind_values }
}

/// The statement for the state of a model of an entity.
pub fn entity_model(schema: &Ty, world_address: &Felt, entity_id: &Felt) -> (r: Statement)
    requires
        world_address.wf(),
        entity_id.wf(),
    ensures
        r.sql@ == "SELECT * FROM ["@ + ty_name(*schema) + "] WHERE internal_id = ?"@,
        argument_views(r.bind_values@) == seq![
            ArgumentView::Text(world_scoped_id(world_address.value(), entity_id.value())),
        ],
{
    let id = format_world_scoped_id(world_address, entity_id);
    let bind_values: Vec<Argument> = vec![Argument::Text(id)];
    proof {
        assert(argument_views(bind_values@) =~= seq![ArgumentView::Text(id@)]);
    }
    Statement {
        sql: concat(&concat("SELECT * FROM [", &schema.name()), "] WHERE internal_id = ?"),
        bind_values,
    }
}

/// The statement for the identifiers of all tokens.
pub fn token_ids_statement() -> (r: &'static str)
    ensures
        r@ == "SELECT id FROM tokens"@,
{
    "SELECT id FROM tokens"
}

/// The statement for the tasks of an achievement, which is bound to its placeholder.
pub fn achievement_tasks_statement() -> (r: &'static str)
    ensures
        r@ == "SELECT id, achievement_id, task_id, world_address, namespace, description, total, total_completions, completion_rate, created_at FROM achievement_tasks WHERE achievement_id = ? ORDER BY created_at ASC"@,
{
    "SELECT id, achievement_id, task_id, world_address, namespace, description, total, total_completions, completion_rate, created_at FROM achievement_tasks WHERE achievement_id = ? ORDER BY created_at ASC"
}

/// The statement for the achievements of a world and namespace, which are bound to its placeholders.
pub fn namespace_achievements_statement() -> (r: &'static str)
    ensures
        r@ == "SELECT id, world_address, hidden, index_num, points, start, end, group_name, icon, title, description, tasks, data, created_at, updated_at FROM achievements WHERE world_address = ? AND namespace = ? ORDER BY index_num ASC"@,
{
    "SELECT id, world_address, hidden, index_num, points, start, end, group_name, icon, title, description, tasks, data, created_at, updated_at FROM achievements WHERE world_address = ? AND namespace = ? ORDER BY index_num ASC"
}

/// The statement for the calls of a transaction, whose hash is bound to its placeholder.
pub fn transaction_calls_statement() -> (r: &'static str)
    ensures
        r@ == "SELECT contract_address, entrypoint, calldata, call_type, caller_address FROM transaction_calls WHERE transaction_hash = ?"@,
{
    "SELECT contract_address, entrypoint, calldata, call_type, caller_address FROM transaction_calls WHERE transaction_hash = ?"
}

/// The statement for the models that a transaction touches, whose hash is bound to its placeholder.
pub fn transaction_models_statement() -> (r: &'static str)
    ensures
        r@ == "SELECT model_id FROM transaction_models WHERE transaction_hash = ?"@,
{
    "SELECT model_id FROM transaction_models WHERE transaction_hash = ?"
}

} // verus!
