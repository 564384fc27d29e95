//! Full-text search: what is asked of the index, and how its rows are grouped.
use vstd::prelude::*;
use vstd::string::*;
use vstd::utf8::{decode_utf8, encode_utf8, encode_utf8_decode_utf8, is_char_boundary};
use crate::digits::{decimal, digits_of};
use crate::text::{concat, ends_with, has_suffix, str_eq, trim, trimmed};

verus! {

/// How search is set up.
#[derive(Clone, Copy, Debug, PartialEq, Eq, Structural)]
pub struct SearchConfig {
    pub max_results: usize,
    pub min_query_length: usize,
    pub prefix_matching: bool,
    pub return_snippets: bool,
    pub snippet_length: usize,
}

/// What is asked of the index.
#[derive(Debug)]
pub struct SearchPlan {
    pub sql: String,
    pub fts_query: String,
    pub limit: u32,
}

/// The greatest number of results of a type, as set.
pub open spec fn max_results(c: SearchConfig) -> int {
    c.max_results as int % 0x1_0000_0000
}

/// The number of results of a type: the number asked for where it is set and not above the
/// greatest, else the greatest.
pub open spec fn search_limit(c: SearchConfig, wanted: u32) -> int {
    if 0 < wanted && wanted <= max_results(c) {
        wanted as int
    } else {
        max_results(c)
    }
}

/// Whether the text is searched for: it is not blank, and not shorter, in bytes, than the least
/// length.
pub open spec fn searchable(c: SearchConfig, query: Seq<char>) -> bool {
    trim(query).len() > 0 && encode_utf8(trim(query)).len() >= c.min_query_length
}

/// The term of the index: the trimmed text, with a star at its end where prefixes match.
pub open spec fn search_term(c: SearchConfig, query: Seq<char>) -> Seq<char> {
    let t = trim(query);
    if c.prefix_matching && !has_suffix(t, "*"@) {
        t + "*"@
    } else {
        t
    }
}

/// What is asked of the index; nothing where the text is not searched for.
pub fn plan_search(c: &SearchConfig, query: &str, wanted: u32) -> (r: Option<SearchPlan>)
    requires
        search_limit(*c, wanted) * 3 <= u32::MAX,
    ensures
        match r {
            Some(p) => searchable(*c, query@) && p.fts_query@ == search_term(*c, query@) && p.limit
                == search_limit(*c, wanted) && p.sql@
                == "SELECT entity_type, entity_id, primary_text, secondary_text, metadata, bm25(search_index) as rank FROM search_index WHERE search_index MATCH ? ORDER BY rank ASC LIMIT "@
                + digits_of((search_limit(*c, wanted) * 3) as nat, 10),
            None => !searchable(*c, query@),
        },
{
    let term = trimmed(query);
    if term.as_str().is_empty() {
        return None;
    }
    if term.as_str().as_bytes().len() < c.min_query_length {
        return None;
    }
    let fts_query = if c.prefix_matching && !ends_with(&term, "*") {
        concat(&term, "*")
    } else {
        term
    };
    let max: u32 = (c.max_results as u64 % 0x1_0000_0000) as u32;
    let limit: u32 = if wanted > 0 && wanted <= max {
        wanted
    } else {
        max
    };
    let sql = concat(
        "SELECT entity_type, entity_id, primary_text, secondary_text, metadata, bm25(search_index) as rank FROM search_index WHERE search_index MATCH ? ORDER BY rank ASC LIMIT ",
        &decimal((limit * 3) as u64),
    );
    Some(SearchPlan { sql, fts_query, limit })
}

/// A row of the index.
#[derive(Debug)]
pub struct SearchRow {
    pub entity_type: String,
    pub entity_id: String,
    pub primary_text: String,
    pub secondary_text: String,
    pub metadata: String,
}

/// A named text of a match.
#[derive(Debug)]
pub struct Field {
    pub name: String,
    pub value: String,
}

/// The texts by name. A later field of a name takes the place of an earlier one.
pub open spec fn fields_map(f: Seq<Field>) -> Map<Seq<char>, Seq<char>>
    decreases f.len(),
{
    if f.len() == 0 {
        Map::empty()
    } else {
        fields_map(f.drop_last()).insert(f.last().name@, f.last().value@)
    }
}

/// The texts by name that `serde_json::from_str` reads out of a text, for a map of texts; none
/// where it refuses the text.
pub uninterp spec fn json_texts(s: Seq<char>) -> Map<Seq<char>, Seq<char>>;

/// `serde_json::from_str` reads a map of texts out of a text, or refuses it; which of both, and
/// which map, depends on the text alone. The order of the fields is left open.
#[verifier::external_body]
fn parse_json_texts(s: &str) -> (r: Vec<Field>)
    ensures
        fields_map(r@) == json_texts(s@),
{
    let map: std::collections::HashMap<String, String> =
        serde_json::from_str(s).unwrap_or_default();
    map.into_iter().map(|(name, value)| Field { name, value }).collect()
}

/// The beginning of a text: all of it where it has at most `n` bytes, else its first `n` bytes and
/// three dots.
pub open spec fn snippet(text: Seq<char>, n: nat) -> Seq<char> {
    if encode_utf8(text).len() > n {
        decode_utf8(encode_utf8(text).subrange(0, n as int)) + "..."@
    } else {
        text
    }
}

/// The text that a snippet of the row is taken from.
pub open spec fn snippet_source(row: SearchRow) -> Seq<char> {
    if row.secondary_text@.len() > 0 {
        row.secondary_text@
    } else {
        row.primary_text@
    }
}

/// Whether a snippet of the row can be cut: it is short, or the cut is between two characters.
pub open spec fn cut_between_chars(c: SearchConfig, row: SearchRow) -> bool {
    let bytes = encode_utf8(snippet_source(row));
    c.return_snippets && bytes.len() > c.snippet_length ==> is_char_boundary(
        bytes,
        c.snippet_length as int,
    )
}

/// The texts of a match by name.
pub open spec fn match_fields(c: SearchConfig, row: SearchRow) -> Map<Seq<char>, Seq<char>> {
    let base = json_texts(row.metadata@).insert("entity_id"@, row.entity_id@).insert(
        "primary_text"@,
        row.primary_text@,
    );
    let more = if row.secondary_text@.len() > 0 {
        base.insert("secondary_text"@, row.secondary_text@)
    } else {
        base
    };
    if c.return_snippets {
        more.insert("snippet"@, snippet(snippet_source(row), c.snippet_length as nat))
    } else {
        more
    }
}

/// Adds a field.
fn put(f: &mut Vec<Field>, name: &str, value: String)
    ensures
        fields_map(final(f)@) == fields_map(old(f)@).insert(name@, value@),
{
    let ghost before = f@;
    f.push(Field { name: name.to_owned(), value });
    proof {
        assert(f@.drop_last() =~= before);
    }
}

/// The beginning of a text.
fn snippet_of(text: &str, n: usize) -> (r: String)
    requires
        encode_utf8(text@).len() > n ==> is_char_boundary(encode_utf8(text@), n as int),
    ensures
        r@ == snippet(text@, n as nat),
{
    if text.as_bytes().len() > n {
        let (head, _) = text.split_at(n);
        proof {
            encode_utf8_decode_utf8(head@);
        }
        concat(head, "...")
    } else {
        text.to_owned()
    }
}

/// The texts of a match.
pub fn fields_of(c: &SearchConfig, row: &SearchRow) -> (r: Vec<Field>)
    requires
        cut_between_chars(*c, *row),
    ensures
        fields_map(r@) == match_fields(*c, *row),
{
    let mut f = parse_json_texts(&row.metadata);
    put(&mut f, "entity_id", row.entity_id.clone());
    put(&mut f, "primary_text", row.primary_text.clone());
    let secondary = !row.secondary_text.as_str().is_empty();
    if secondary {
        put(&mut f, "secondary_text", row.secondary_text.clone());
    }
    if c.return_snippets {
        let text = if secondary {
            &row.secondary_text
        } else {
            &row.primary_text
        };
        let s = snippet_of(text, c.snippet_length);
        put(&mut f, "snippet", s);
    }
    f
}

/// A match: the index of its row, its identifier and its texts.
#[derive(Debug)]
pub struct SearchMatch {
    pub row: usize,
    pub id: String,
    pub fields: Vec<Field>,
}

/// The matches of one type.
#[derive(Debug)]
pub struct Group {
    pub entity_type: String,
    pub matches: Vec<SearchMatch>,
}

/// The number of rows of a type.
pub open spec fn type_count(rows: Seq<SearchRow>, t: Seq<char>) -> nat
    decreases rows.len(),
{
    if rows.len() == 0 {
        0
    } else {
        type_count(rows.drop_last(), t) + (if rows.last().entity_type@ == t {
            1nat
        } else {
            0nat
        })
    }
}

/// The place of the group of a type.
pub open spec fn group_at(g: Seq<(Seq<char>, Seq<int>)>, t: Seq<char>) -> Option<int>
    decreases g.len(),
{
    if g.len() == 0 {
        None
    } else {
        match group_at(g.drop_last(), t) {
            Some(i) => Some(i),
            None => if g.last().0 == t {
                Some(g.len() - 1)
            } else {
                None
            },
        }
    }
}

/// The rows by type, in the order in which the types were met, no more than `limit` of each.
pub open spec fn grouped(rows: Seq<SearchRow>, limit: int) -> Seq<(Seq<char>, Seq<int>)>
    decreases rows.len(),
{
    if rows.len() == 0 {
        Seq::empty()
    } else {
        let before = grouped(rows.drop_last(), limit);
        let t = rows.last().entity_type@;
        let k = rows.len() - 1;
        if type_count(rows, t) > limit {
            before
        } else {
            match group_at(before, t) {
                Some(i) => before.update(i, (t, before[i].1.push(k))),
                None => before.push((t, seq![k])),
            }
        }
    }
}

/// The types and rows of groups.
pub open spec fn group_views(g: Seq<Group>) -> Seq<(Seq<char>, Seq<int>)> {
    g.map_values(
        |x: Group| (x.entity_type@, x.matches@.map_values(|m: SearchMatch| m.row as int)),
    )
}

/// Whether each match is that of its row.
pub open spec fn matches_ok(g: Seq<Group>, rows: Seq<SearchRow>, c: SearchConfig) -> bool {
    forall|i: int, j: int|
        0 <= i < g.len() && 0 <= j < g[i].matches@.len() ==> match_ok(
            #[trigger] g[i].matches@[j],
            rows,
            c,
        )
}

/// Whether the match is that of its row.
pub open spec fn match_ok(m: SearchMatch, rows: Seq<SearchRow>, c: SearchConfig) -> bool {
    m.row < rows.len() && m.id@ == rows[m.row as int].entity_id@ && fields_map(m.fields@)
        == match_fields(c, rows[m.row as int])
}

/// A group that is found is of that type.
proof fn group_at_found(g: Seq<(Seq<char>, Seq<int>)>, t: Seq<char>)
    ensures
        match group_at(g, t) {
            Some(i) => 0 <= i < g.len() && g[i].0 == t,
            None => forall|i: int| 0 <= i < g.len() ==> (#[trigger] g[i]).0 != t,
        },
    decreases g.len(),
{
    if g.len() > 0 {
        group_at_found(g.drop_last(), t);
        if group_at(g, t) is None {
            assert forall|i: int| 0 <= i < g.len() implies (#[trigger] g[i]).0 != t by {
                if i < g.len() - 1 {
                    assert(g.drop_last()[i] == g[i]);
                }
            }
        }
    }
}

/// Index of the group of a type.
fn find_group(g: &Vec<Group>, t: &str) -> (r: Option<usize>)
    ensures
        match r {
            Some(i) => group_at(group_views(g@), t@) == Some(i as int) && i < g@.len(),
            None => group_at(group_views(g@), t@) is None,
        },
{
    let mut i: usize = 0;
    let mut found: Option<usize> = None;
    let ghost v = group_views(g@);
    while i < g.len()
        invariant
            i <= g@.len(),
            v == group_views(g@),
            match found {
                Some(k) => group_at(v.take(i as int), t@) == Some(k as int) && k < i,
                None => group_at(v.take(i as int), t@) is None,
            },
        decreases g@.len() - i,
    {
        proof {
            assert(v.take(i + 1).drop_last() =~= v.take(i as int));
            assert(v.take(i + 1).last() == v[i as int]);
        }
        if found.is_none() && str_eq(&g[i].entity_type, t) {
            found = Some(i);
        }
        i = i + 1;
    }
    proof {
        assert(v.take(i as int) =~= v);
    }
    found
}

/// The number of rows, among the first `n`, of a type.
fn count_type(rows: &Vec<SearchRow>, n: usize, t: &str) -> (r: usize)
    requires
        n <= rows@.len(),
    ensures
        r == type_count(rows@.take(n as int), t@),
{
    let mut i: usize = 0;
    let mut c: usize = 0;
    while i < n
        invariant
            i <= n <= rows@.len(),
            c <= i,
            c == type_count(rows@.take(i as int), t@),
        decreases n - i,
    {
        proof {
            assert(rows@.take(i + 1).drop_last() =~= rows@.take(i as int));
        }
        if str_eq(&rows[i].entity_type, t) {
            c = c + 1;
        }
        i = i + 1;
    }
    c
}

/// The rows by type, no more than `limit` of each, each with its texts. Where snippets are cut, they
/// are cut between characters.
pub fn group_rows(c: &SearchConfig, rows: &Vec<SearchRow>, limit: u32) -> (r: Vec<Group>)
    requires
        forall|k: int|
            0 <= k < rows@.len() && type_count(
                rows@.take(k + 1),
                (#[trigger] rows@[k]).entity_type@,
            ) <= limit ==> cut_between_chars(*c, rows@[k]),
    ensures
        group_views(r@) == grouped(rows@, limit as int),
        matches_ok(r@, rows@, *c),
{
    let mut out: Vec<Group> = Vec::new();
    let mut k: usize = 0;
    proof {
        assert(rows@.take(0) =~= Seq::<SearchRow>::empty());
        assert(group_views(out@) =~= grouped(rows@.take(0), limit as int));
    }
    while k < rows.len()
        invariant
            k <= rows@.len(),
            forall|k: int|
                0 <= k < rows@.len() && type_count(
                    rows@.take(k + 1),
                    (#[trigger] rows@[k]).entity_type@,
                ) <= limit ==> cut_between_chars(*c, rows@[k]),
            group_views(out@) == grouped(rows@.take(k as int), limit as int),
            matches_ok(out@, rows@, *c),
        decreases rows@.len() - k,
    {
        let row = &rows[k];
        proof {
            assert(rows@.take(k + 1).drop_last() =~= rows@.take(k as int));
            assert(rows@.take(k + 1).last() == *row);
        }
        let n: usize = count_type(rows, k + 1, &row.entity_type);
        if n as u64 <= limit as u64 {
            let m = SearchMatch { row: k, id: row.entity_id.clone(), fields: fields_of(c, row) };
            let ghost before = out@;
            let ghost v = group_views(out@);
            match find_group(&out, &row.entity_type) {
                Some(i) => {
                    proof {
                        group_at_found(v, row.entity_type@);
                    }
                    out[i].matches.push(m);
                    proof {
                        let after = v.update(
                            i as int,
                            (row.entity_type@, v[i as int].1.push(k as int)),
                        );
                        assert(out@[i as int].matches@.map_values(|m: SearchMatch| m.row as int)
                            =~= v[i as int].1.push(k as int));
                        assert(group_views(out@) =~= after);
                        assert forall|a: int, b: int|
                            0 <= a < out@.len() && 0 <= b < out@[a].matches@.len() implies match_ok(
                            #[trigger] out@[a].matches@[b],
                            rows@,
                            *c,
                        ) by {
                            if a == i && b == before[a].matches@.len() {
                                assert(out@[a].matches@[b] == m);
                            } else {
                                assert(out@[a].matches@[b] == before[a].matches@[b]);
                            }
                        }
                    }
                },
                None => {
                    let mut matches_of: Vec<SearchMatch> = Vec::new();
                    matches_of.push(m);
                    out.push(
                        Group { entity_type: row.entity_type.clone(), matches: matches_of },
                    );
                    proof {
                        assert(out@.last().matches@.map_values(|m: SearchMatch| m.row as int)
                            =~= seq![k as int]);
                        assert(group_views(out@) =~= v.push((row.entity_type@, seq![k as int])));
                        assert forall|a: int, b: int|
                            0 <= a < out@.len() && 0 <= b < out@[a].matches@.len() implies match_ok(
                            #[trigger] out@[a].matches@[b],
                            rows@,
                            *c,
                        ) by {
                            if a < before.len() {
                                assert(out@[a].matches@[b] == before[a].matches@[b]);
                            } else {
                                assert(out@[a].matches@[b] == m);
                            }
                        }
                    }
                },
            }
        }
        k = k + 1;
    }
    proof {
        assert(rows@.take(k as int) =~= rows@);
    }
    out
}

/// The table that a type of the index stands for.
pub open spec fn table_of(t: Seq<char>) -> Seq<char> {
    if t == "achievement"@ {
        "achievements"@
    } else if t == "controller"@ {
        "controllers"@
    } else if t == "token_attribute"@ {
        "token_attributes"@
    } else if t == "token"@ {
        "tokens"@
    } else {
        t
    }
}

/// The table that a type of the index stands for.
pub fn type_to_table(t: &str) -> (r: String)
    ensures
        r@ == table_of(t@),
{
    if str_eq(t, "achievement") {
        "achievements".to_owned()
    } else if str_eq(t, "controller") {
        "controllers".to_owned()
    } else if str_eq(t, "token_attribute") {
        "token_attributes".to_owned()
    } else if str_eq(t, "token") {
        "tokens".to_owned()
    } else {
        t.to_owned()
    }
}

/// The matches of one table.
#[derive(Debug)]
pub struct TableSearchResults {
    pub table: String,
    pub count: u32,
    pub matches: Vec<SearchMatch>,
}

/// The answer to a search.
#[derive(Debug)]
pub struct SearchResponse {
    pub total: u32,
    pub results: Vec<TableSearchResults>,
}

/// The number of matches of all groups together.
pub open spec fn match_total(g: Seq<Group>) -> int
    decreases g.len(),
{
    if g.len() == 0 {
        0
    } else {
        match_total(g.drop_last()) + g.last().matches@.len()
    }
}

/// The number of matches of the first groups is not above that of all.
proof fn match_total_monotone(g: Seq<Group>, n: int)
    requires
        0 <= n <= g.len(),
    ensures
        0 <= match_total(g.take(n)) <= match_total(g),
    decreases g.len(),
{
    if n == g.len() {
        assert(g.take(n) =~= g);
        if n > 0 {
            match_total_monotone(g.drop_last(), n - 1);
            assert(g.drop_last().take(n - 1) =~= g.drop_last());
        }
    } else {
        match_total_monotone(g.drop_last(), n);
        assert(g.drop_last().take(n) =~= g.take(n));
    }
}

/// The answer made of groups: the tables with their counts, and the number of all matches.
pub fn response_of(groups: Vec<Group>) -> (r: SearchResponse)
    requires
        match_total(groups@) <= u32::MAX,
    ensures
        r.total == match_total(groups@),
        r.results@.len() == groups@.len(),
        forall|i: int|
            0 <= i < groups@.len() ==> (#[trigger] r.results@[i]).table@ == table_of(
                groups@[i].entity_type@,
            ) && r.results@[i].matches == groups@[i].matches && r.results@[i].count
                == groups@[i].matches@.len(),
{
    let mut total: u32 = 0;
    let mut results: Vec<TableSearchResults> = Vec::new();
    let mut rest = groups;
    let ghost all = groups@;
    proof {
        assert(all.take(0) =~= Seq::<Group>::empty());
        assert(all.skip(0) =~= all);
    }
    while rest.len() > 0
        invariant
            match_total(all) <= u32::MAX,
            results@.len() <= all.len(),
            rest@ == all.skip(results@.len() as int),
            total == match_total(all.take(results@.len() as int)),
            forall|i: int|
                0 <= i < results@.len() ==> (#[trigger] results@[i]).table@ == table_of(
                    all[i].entity_type@,
                ) && results@[i].matches == all[i].matches && results@[i].count
                    == all[i].matches@.len(),
        decreases rest@.len(),
    {
        let ghost n = results@.len() as int;
        let g = rest.remove(0);
        proof {
            assert(g == all[n]);
            assert(all.take(n + 1).drop_last() =~= all.take(n));
            match_total_monotone(all, n + 1);
            match_total_monotone(all, n);
            assert(rest@ =~= all.skip(n + 1));
        }
        let count: u32 = g.matches.len() as u32;
        total = total + count;
        results.push(
            TableSearchResults { table: type_to_table(&g.entity_type), count, matches: g.matches },
        );
    }
    proof {
        assert(all.take(results@.len() as int) =~= all);
    }
    SearchResponse { total, results }
}

/// No type has more matches than the limit, and no match is counted twice: groups hold one entry
/// for each of their rows up to the limit.
pub proof fn groups_within_limit(rows: Seq<SearchRow>, limit: int)
    requires
        limit >= 0,
    ensures
        forall|i: int|
            0 <= i < grouped(rows, limit).len() ==> (#[trigger] grouped(rows, limit)[i]).1.len()
                <= limit,
        forall|i: int|
            0 <= i < grouped(rows, limit).len() ==> (#[trigger] grouped(rows, limit)[i]).1.len()
                <= type_count(rows, grouped(rows, limit)[i].0),
    decreases rows.len(),
{
    if rows.len() > 0 {
        let t = rows.last().entity_type@;
        let b = rows.drop_last();
        groups_within_limit(b, limit);
        let before = grouped(b, limit);
        let g = grouped(rows, limit);
        group_at_found(before, t);
        assert forall|i: int| 0 <= i < g.len() implies (#[trigger] g[i]).1.len() <= limit && g[i].1.len()
            <= type_count(rows, g[i].0) by {
            if type_count(rows, t) > limit {
                assert(g[i] == before[i]);
            } else {
                match group_at(before, t) {
                    Some(j) => {
                        if i == j {
                            assert(before[j].1.len() <= type_count(b, before[j].0));
                        } else {
                            assert(g[i] == before[i]);
                        }
                    },
                    None => {
                        if i < before.len() {
                            assert(g[i] == before[i]);
                        }
                    },
                }
            }
        }
    }
}

} // verus!
