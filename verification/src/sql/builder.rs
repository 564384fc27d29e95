//! Queries as they are put together: columns, joins, conditions and the values bound to them.
use vstd::prelude::*;
use vstd::string::*;
use crate::felt::Felt;
use crate::schema::U256;
use crate::text::{join, join_with, split, split_append, split_not_empty, split_single, views};
use crate::tokens::TokenId;

verus! {

/// A value bound to a placeholder. The storage renders elements, lists of elements, integers of
/// 256 bits and times in its own forms.
#[derive(Debug)]
pub enum Argument {
    Text(String),
    /// An element bound as an element.
    FieldElement(Felt),
    Bool(bool),
    Int(i64),
    /// An element bound as text.
    FeltText(Felt),
    /// A list of elements bound as text.
    FeltsText(Vec<Felt>),
    /// An integer of 256 bits bound as text.
    U256Text(U256),
    /// Seconds since the epoch bound as the text of a time.
    TimeText(u64),
    /// A token bound as text.
    TokenText(TokenId),
    /// The identifier of an event, a colon and a token, bound as one text.
    EventTokenText(String, TokenId),
}

/// What is bound to a placeholder.
pub enum ArgumentView {
    Text(Seq<char>),
    FieldElement(Felt),
    Bool(bool),
    Int(int),
    FeltText(Felt),
    FeltsText(Seq<Felt>),
    U256Text(U256),
    TimeText(int),
    TokenText(TokenId),
    EventTokenText(Seq<char>, TokenId),
}

impl Argument {
    /// What is bound.
    pub open spec fn view(&self) -> ArgumentView {
        match self {
            Argument::Text(s) => ArgumentView::Text(s@),
            Argument::FieldElement(f) => ArgumentView::FieldElement(*f),
            Argument::Bool(b) => ArgumentView::Bool(*b),
            Argument::Int(i) => ArgumentView::Int(*i as int),
            Argument::FeltText(f) => ArgumentView::FeltText(*f),
            Argument::FeltsText(v) => ArgumentView::FeltsText(v@),
            Argument::U256Text(u) => ArgumentView::U256Text(*u),
            Argument::TimeText(t) => ArgumentView::TimeText(*t as int),
            Argument::TokenText(t) => ArgumentView::TokenText(*t),
            Argument::EventTokenText(e, t) => ArgumentView::EventTokenText(e@, *t),
        }
    }
}

/// What is bound to a sequence of placeholders.
pub open spec fn argument_views(v: Seq<Argument>) -> Seq<ArgumentView> {
    v.map_values(|a: Argument| a.view())
}

/// The direction of an order.
#[derive(Clone, Copy, Debug, PartialEq, Eq, Structural)]
pub enum OrderDirection {
    Asc,
    Desc,
}

/// The column that a page is ordered by.
#[derive(Debug)]
pub struct OrderBy {
    pub field: &'static str,
    pub direction: OrderDirection,
}

/// A query over a table.
#[derive(Debug)]
pub struct QueryBuilder {
    pub table: &'static str,
    pub alias: &'static str,
    pub columns: Vec<String>,
    pub joins: Vec<String>,
    pub conditions: Vec<String>,
    pub group_by: &'static str,
    pub bind_values: Vec<Argument>,
}

/// What a query asks for.
pub struct QueryView {
    pub table: Seq<char>,
    pub alias: Seq<char>,
    pub columns: Seq<Seq<char>>,
    pub joins: Seq<Seq<char>>,
    pub conditions: Seq<Seq<char>>,
    pub group_by: Seq<char>,
    pub bind_values: Seq<ArgumentView>,
}

/// The query for columns of a table.
pub open spec fn query_on(table: Seq<char>, alias: Seq<char>, columns: Seq<Seq<char>>) -> QueryView {
    QueryView {
        table,
        alias,
        columns,
        joins: Seq::empty(),
        conditions: Seq::empty(),
        group_by: Seq::empty(),
        bind_values: Seq::empty(),
    }
}

/// `n` placeholders separated by commas.
pub open spec fn placeholders(n: nat) -> Seq<char> {
    join(Seq::new(n, |i: int| "?"@), ", "@)
}

/// The condition that a column is one of `n` values.
pub open spec fn in_list(column: Seq<char>, n: nat) -> Seq<char> {
    column + " IN ("@ + placeholders(n) + ")"@
}

impl QueryView {
    /// The query with a condition and the values bound to its placeholders.
    pub open spec fn and(self, condition: Seq<char>, values: Seq<ArgumentView>) -> QueryView {
        QueryView {
            conditions: self.conditions.push(condition),
            bind_values: self.bind_values + values,
            ..self
        }
    }

    /// The query with the condition that a column is one of the values; without values the query
    /// as it is.
    pub open spec fn and_in(self, column: Seq<char>, values: Seq<ArgumentView>) -> QueryView {
        if values.len() == 0 {
            self
        } else {
            self.and(in_list(column, values.len()), values)
        }
    }

    /// The query with one more join.
    pub open spec fn joined(self, clause: Seq<char>) -> QueryView {
        QueryView { joins: self.joins.push(clause), ..self }
    }
}

/// `n` placeholders separated by commas.
pub fn placeholder_list(n: usize) -> (r: String)
    ensures
        r@ == placeholders(n as nat),
{
    let mut marks: Vec<String> = Vec::new();
    let mut i: usize = 0;
    while i < n
        invariant
            i <= n,
            marks@.len() == i,
            forall|k: int| 0 <= k < i ==> (#[trigger] marks@[k])@ == "?"@,
        decreases n - i,
    {
        marks.push("?".to_owned());
        i = i + 1;
    }
    proof {
        assert(views(marks@) =~= Seq::new(n as nat, |i: int| "?"@));
    }
    join_with(&marks, ", ")
}

/// The condition that a column is one of `n` values.
pub fn in_list_of(column: &str, n: usize) -> (r: String)
    ensures
        r@ == in_list(column@, n as nat),
{
    let mut out = column.to_owned();
    out.append(" IN (");
    let p = placeholder_list(n);
    out.append(p.as_str());
    out.append(")");
    out
}

/// The texts as strings.
pub fn owned(list: &Vec<&'static str>) -> (r: Vec<String>)
    ensures
        views(r@) == list@.map_values(|s: &'static str| s@),
{
    let mut out: Vec<String> = Vec::new();
    let mut i: usize = 0;
    while i < list.len()
        invariant
            i <= list@.len(),
            out@.len() == i,
            forall|k: int| 0 <= k < i ==> (#[trigger] out@[k])@ == list@[k]@,
        decreases list@.len() - i,
    {
        out.push(list[i].to_owned());
        i = i + 1;
    }
    proof {
        assert(views(out@) =~= list@.map_values(|s: &'static str| s@));
    }
    out
}

/// The elements bound as text.
pub open spec fn felt_binds(v: Seq<Felt>) -> Seq<ArgumentView> {
    v.map_values(|f: Felt| ArgumentView::FeltText(f))
}

/// The texts bound as they are.
pub open spec fn text_binds(v: Seq<String>) -> Seq<ArgumentView> {
    v.map_values(|s: String| ArgumentView::Text(s@))
}

/// The integers of 256 bits bound as text.
pub open spec fn u256_binds(v: Seq<U256>) -> Seq<ArgumentView> {
    v.map_values(|u: U256| ArgumentView::U256Text(u))
}

/// The elements bound as text.
pub fn felt_args(v: &Vec<Felt>) -> (r: Vec<Argument>)
    ensures
        argument_views(r@) == felt_binds(v@),
{
    let mut out: Vec<Argument> = Vec::new();
    let mut i: usize = 0;
    while i < v.len()
        invariant
            i <= v@.len(),
            out@.len() == i,
            forall|k: int|
                0 <= k < i ==> (#[trigger] out@[k]).view() == ArgumentView::FeltText(v@[k]),
        decreases v@.len() - i,
    {
        out.push(Argument::FeltText(v[i]));
        i = i + 1;
    }
    proof {
        assert(argument_views(out@) =~= felt_binds(v@));
    }
    out
}

/// The texts bound as they are.
pub fn text_args(v: &Vec<String>) -> (r: Vec<Argument>)
    ensures
        argument_views(r@) == text_binds(v@),
{
    let mut out: Vec<Argument> = Vec::new();
    let mut i: usize = 0;
    while i < v.len()
        invariant
            i <= v@.len(),
            out@.len() == i,
            forall|k: int|
                0 <= k < i ==> (#[trigger] out@[k]).view() == ArgumentView::Text(v@[k]@),
        decreases v@.len() - i,
    {
        out.push(Argument::Text(v[i].clone()));
        i = i + 1;
    }
    proof {
        assert(argument_views(out@) =~= text_binds(v@));
    }
    out
}

/// The integers of 256 bits bound as text.
pub fn u256_args(v: &Vec<U256>) -> (r: Vec<Argument>)
    ensures
        argument_views(r@) == u256_binds(v@),
{
    let mut out: Vec<Argument> = Vec::new();
    let mut i: usize = 0;
    while i < v.len()
        invariant
            i <= v@.len(),
            out@.len() == i,
            forall|k: int|
                0 <= k < i ==> (#[trigger] out@[k]).view() == ArgumentView::U256Text(v@[k]),
        decreases v@.len() - i,
    {
        out.push(Argument::U256Text(v[i]));
        i = i + 1;
    }
    proof {
        assert(argument_views(out@) =~= u256_binds(v@));
    }
    out
}

impl QueryBuilder {
    /// What the query asks for.
    pub open spec fn view(&self) -> QueryView {
        QueryView {
            table: self.table@,
            alias: self.alias@,
            columns: views(self.columns@),
            joins: views(self.joins@),
            conditions: views(self.conditions@),
            group_by: self.group_by@,
            bind_values: argument_views(self.bind_values@),
        }
    }

    /// The query for columns of a table.
    pub fn new(table: &'static str, alias: &'static str, columns: &Vec<&'static str>) -> (r: QueryBuilder)
        ensures
            r.view() == query_on(table@, alias@, columns@.map_values(|s: &'static str| s@)),
    {
        let r = QueryBuilder {
            table,
            alias,
            columns: owned(columns),
            joins: Vec::new(),
            conditions: Vec::new(),
            group_by: "",
            bind_values: Vec::new(),
        };
        proof {
            reveal_strlit("");
            assert(r.group_by@ =~= Seq::<char>::empty());
            assert(views(r.joins@) =~= Seq::<Seq<char>>::empty());
            assert(views(r.conditions@) =~= Seq::<Seq<char>>::empty());
            assert(argument_views(r.bind_values@) =~= Seq::<ArgumentView>::empty());
        }
        r
    }

    /// The query with a condition and the values bound to its placeholders.
    pub fn and(self, condition: String, values: Vec<Argument>) -> (r: QueryBuilder)
        ensures
            r.view() == self.view().and(condition@, argument_views(values@)),
    {
        let mut q = self;
        let mut more = values;
        q.conditions.push(condition);
        q.bind_values.append(&mut more);
        proof {
            assert(views(q.conditions@) =~= views(self.conditions@).push(condition@));
            assert(argument_views(q.bind_values@) =~= argument_views(self.bind_values@)
                + argument_views(values@));
        }
        q
    }

    /// The query with the condition that a column is one of the values.
    pub fn and_in(self, column: &str, values: Vec<Argument>) -> (r: QueryBuilder)
        ensures
            r.view() == self.view().and_in(column@, argument_views(values@)),
    {
        let n: usize = values.len();
        if n == 0 {
            self
        } else {
            self.and(in_list_of(column, n), values)
        }
    }

    /// The query with one more join.
    pub fn joined(self, clause: String) -> (r: QueryBuilder)
        ensures
            r.view() == self.view().joined(clause@),
    {
        let mut q = self;
        q.joins.push(clause);
        proof {
            assert(views(q.joins@) =~= views(self.joins@).push(clause@));
        }
        q
    }

    /// The query with its rows grouped by a column.
    pub fn grouped(self, column: &'static str) -> (r: QueryBuilder)
        ensures
            r.view() == (QueryView { group_by: column@, ..self.view() }),
    {
        let mut q = self;
        q.group_by = column;
        q
    }
}

// ---------------------------------------------------------------------------
// Placeholders and values
// ---------------------------------------------------------------------------

/// The number of placeholders in a text.
pub open spec fn marks(s: Seq<char>) -> int {
    split(s, '?').len() - 1
}

/// The placeholders of two texts add up.
pub proof fn marks_add(a: Seq<char>, b: Seq<char>)
    ensures
        marks(a + b) == marks(a) + marks(b),
    decreases b.len(),
{
    split_not_empty(a, '?');
    if b.len() == 0 {
        assert(a + b =~= a);
    } else {
        let t = b.drop_last();
        marks_add(a, t);
        assert((a + b).drop_last() =~= a + t);
        assert((a + b).last() == b.last());
        split_not_empty(t, '?');
        split_not_empty(a + t, '?');
    }
}

/// A text without a placeholder has none.
pub proof fn marks_none(s: Seq<char>)
    requires
        !s.contains('?'),
    ensures
        marks(s) == 0,
{
    split_single(s, '?');
}

/// `n` placeholders are `n` placeholders.
pub proof fn marks_of_placeholders(n: nat)
    ensures
        marks(placeholders(n)) == n,
    decreases n,
{
    let all = Seq::new(n, |i: int| "?"@);
    reveal_strlit("?");
    reveal_strlit(", ");
    assert(marks("?"@) == 1) by {
        assert("?"@ =~= Seq::<char>::empty() + seq!['?'] + Seq::<char>::empty());
        split_append(Seq::empty(), Seq::empty(), '?');
        split_single(Seq::empty(), '?');
    }
    assert(marks(", "@) == 0) by {
        marks_none(", "@);
    }
    if n == 0 {
        split_single(Seq::empty(), '?');
    } else if n == 1 {
    } else {
        let m = (n - 1) as nat;
        marks_of_placeholders(m);
        assert(all.drop_last() =~= Seq::new(m, |i: int| "?"@));
        marks_add(placeholders(m), ", "@);
        marks_add(placeholders(m) + ", "@, "?"@);
    }
}

/// The condition on a column has a placeholder for each value.
pub proof fn marks_of_in_list(column: Seq<char>, n: nat)
    requires
        !column.contains('?'),
    ensures
        marks(in_list(column, n)) == n,
{
    marks_of_placeholders(n);
    marks_none(column);
    reveal_strlit(" IN (");
    reveal_strlit(")");
    marks_none(" IN ("@);
    marks_none(")"@);
    marks_add(column, " IN ("@);
    marks_add(column + " IN ("@, placeholders(n));
    marks_add(column + " IN ("@ + placeholders(n), ")"@);
}

/// The placeholders of all the texts together.
pub open spec fn marks_in(texts: Seq<Seq<char>>) -> int
    decreases texts.len(),
{
    if texts.len() == 0 {
        0
    } else {
        marks_in(texts.drop_last()) + marks(texts.last())
    }
}

impl QueryView {
    /// The query has exactly one bound value for each placeholder of its conditions, and no
    /// placeholder in its joins.
    pub open spec fn balanced(self) -> bool {
        &&& marks_in(self.conditions) == self.bind_values.len()
        &&& marks_in(self.joins) == 0
    }
}

/// A condition with as many values as placeholders keeps the query balanced.
pub proof fn and_keeps_balance(q: QueryView, condition: Seq<char>, values: Seq<ArgumentView>)
    requires
        q.balanced(),
        marks(condition) == values.len(),
    ensures
        q.and(condition, values).balanced(),
{
    assert(q.conditions.push(condition).drop_last() =~= q.conditions);
}

/// The condition on a column keeps the query balanced.
pub proof fn and_in_keeps_balance(q: QueryView, column: Seq<char>, values: Seq<ArgumentView>)
    requires
        q.balanced(),
        !column.contains('?'),
    ensures
        q.and_in(column, values).balanced(),
{
    if values.len() > 0 {
        marks_of_in_list(column, values.len());
        and_keeps_balance(q, in_list(column, values.len()), values);
    }
}

/// A join without placeholders keeps the query balanced.
pub proof fn join_keeps_balance(q: QueryView, clause: Seq<char>)
    requires
        q.balanced(),
        !clause.contains('?'),
    ensures
        q.joined(clause).balanced(),
{
    marks_none(clause);
    assert(q.joins.push(clause).drop_last() =~= q.joins);
}

} // verus!
