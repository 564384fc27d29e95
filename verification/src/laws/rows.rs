//! What is told of the rows of the database, and what a search finds.
use vstd::prelude::*;
use vstd::string::*;
use vstd::utf8::{decode_utf8, encode_utf8};
use crate::felt::felt_parsed;
use crate::sql::rows::{
    achievement_is, achievement_progress_is, call_error, call_is, completions, entry_is, flattened,
    mean_completions, mean_signed_completions, progression_at, progression_found,
    signed_completions, stats_are, task_done, task_is, transaction_readable, unsigned, Achievement,
    AchievementRow, AchievementTask, CallRow, NamespaceAchievements, PlayerAchievementEntry,
    PlayerAchievementProgress, PlayerAchievementStats, PlayerRow, ProgressionRow, RowError,
    StoredAchievement, TaskRow, TransactionCall, TransactionRow,
};
use crate::sql::search::{
    group_at, grouped, json_texts, match_fields, search_limit, search_term, searchable, snippet,
    table_of, type_count, SearchConfig, SearchRow,
};
use crate::text::{split_append, trim};
use crate::time::{rfc3339_time, Timestamp};

verus! {

// ---------------------------------------------------------------------------
// Achievements
// ---------------------------------------------------------------------------

/// A number of the database is told as it is, and a negative one as the number of 32 bits without
/// sign that it is held as.
pub proof fn numbers_are_told_without_sign(v: i32)
    ensures
        v >= 0 ==> unsigned(v) == v,
        v < 0 ==> unsigned(v) == v + 4294967296,
        0 <= unsigned(v) < 4294967296,
{
}

/// A task is told as its row has it.
pub proof fn tasks_are_told_as_stored(t: AchievementTask, row: TaskRow)
    requires
        task_is(t, row),
    ensures
        t.task_id@ == row.task_id@,
        t.description@ == row.description@,
        t.created_at@ == row.created_at@,
        row.total >= 0 ==> t.total == row.total,
        row.total_completions >= 0 ==> t.total_completions == row.total_completions,
{
}

/// An achievement is told as its row has it, with its tasks in their order; its entity is what its
/// identifier ends with.
pub proof fn achievements_are_told_as_stored(
    a: Achievement,
    row: AchievementRow,
    tasks: Seq<TaskRow>,
    world: nat,
    head: Seq<char>,
    entity: Seq<char>,
)
    requires
        achievement_is(a, row, tasks, world),
        row.id@ == head + seq![':'] + entity,
        !entity.contains(':'),
    ensures
        a.id@ == row.id@,
        a.world_address.value() == world,
        a.entity_id@ == entity,
        a.hidden <==> row.hidden != 0,
        row.index_num >= 0 ==> a.index == row.index_num,
        row.points >= 0 ==> a.points == row.points,
        a.text.start@ == row.text.start@,
        a.text.end@ == row.text.end@,
        a.text.group@ == row.text.group@,
        a.text.icon@ == row.text.icon@,
        a.text.title@ == row.text.title@,
        a.text.description@ == row.text.description@,
        a.text.data@ == row.text.data@,
        a.text.created_at@ == row.text.created_at@,
        a.text.updated_at@ == row.text.updated_at@,
        a.tasks@.len() == tasks.len(),
        forall|i: int| 0 <= i < tasks.len() ==> (#[trigger] a.tasks@[i]).task_id@ == tasks[i].task_id@,
{
    split_append(head, entity, ':');
    let (x, y) = (a.text.view(), row.text.view());
    assert(x[0] == y[0] && x[1] == y[1] && x[2] == y[2] && x[3] == y[3] && x[4] == y[4] && x[5]
        == y[5] && x[6] == y[6] && x[7] == y[7] && x[8] == y[8]);
}

/// The completions of an achievement are the mean of those of its tasks, rounded down: so many for
/// each task make up what its tasks have together, but for less than one for each.
pub proof fn completions_are_the_mean(rows: Seq<TaskRow>, more: TaskRow)
    ensures
        completions(Seq::<TaskRow>::empty()) == 0,
        completions(rows.push(more)) == completions(rows) + unsigned(more.total_completions),
        signed_completions(Seq::<TaskRow>::empty()) == 0,
        signed_completions(rows.push(more)) == signed_completions(rows) + more.total_completions,
        rows.len() == 0 ==> mean_completions(rows) == 0,
        rows.len() > 0 ==> mean_completions(rows) * rows.len() <= completions(rows) < (mean_completions(
            rows,
        ) + 1) * rows.len(),
{
    assert(rows.push(more).drop_last() =~= rows);
    if rows.len() > 0 {
        let (a, n) = (completions(rows), rows.len() as int);
        vstd::arithmetic::div_mod::lemma_fundamental_div_mod(a, n);
        vstd::arithmetic::div_mod::lemma_mod_bound(a, n);
        let q = a / n;
        assert(q * n == n * q) by (nonlinear_arith);
        assert((q + 1) * n == n * q + n) by (nonlinear_arith);
    }
}

/// How far a player got with a task is told by the first row of that player and task, and is nothing
/// where there is none.
pub proof fn progress_is_that_of_the_first_row(
    rows: Seq<ProgressionRow>,
    player: Seq<char>,
    task: Seq<char>,
    i: int,
)
    ensures
        0 <= i < rows.len() && rows[i].player_id@ == player && rows[i].task_id@ == task && (forall|
            j: int,
        |
            0 <= j < i ==> (#[trigger] rows[j]).player_id@ != player || rows[j].task_id@ != task)
            ==> task_done(rows, player, task) == (unsigned(rows[i].count), rows[i].completed != 0),
        (forall|j: int|
            0 <= j < rows.len() ==> (#[trigger] rows[j]).player_id@ != player || rows[j].task_id@
                != task) ==> task_done(rows, player, task) == (0int, false),
{
    progression_found(rows, player, task);
    match progression_at(rows, player, task) {
        Some(k) => {
            if 0 <= i < rows.len() && rows[i].player_id@ == player && rows[i].task_id@ == task && (
            forall|j: int|
                0 <= j < i ==> (#[trigger] rows[j]).player_id@ != player || rows[j].task_id@ != task) {
                if k < i {
                    assert(rows[k].player_id@ != player || rows[k].task_id@ != task);
                } else if i < k {
                    assert(!(rows[i].player_id@ == player && rows[i].task_id@ == task));
                }
            }
        },
        None => {},
    }
}

/// The progress of a player on an achievement is that on each of its tasks; it is completed exactly
/// where there are tasks and all are done.
pub proof fn achievements_are_completed_by_their_tasks(
    p: PlayerAchievementProgress,
    stored: StoredAchievement,
    world: nat,
    namespace: Seq<char>,
    rows: Seq<ProgressionRow>,
    player: Seq<char>,
)
    requires
        achievement_progress_is(p, stored, world, namespace, rows, player),
    ensures
        p.achievement.id@ == stored.row.id@,
        p.achievement.namespace@ == namespace,
        p.task_progress@.len() == stored.tasks@.len(),
        forall|i: int|
            0 <= i < stored.tasks@.len() ==> (#[trigger] p.task_progress@[i]).task_id@
                == stored.tasks@[i].task_id@ && p.task_progress@[i].count == task_done(
                rows,
                player,
                stored.tasks@[i].task_id@,
            ).0 && p.task_progress@[i].completed == task_done(
                rows,
                player,
                stored.tasks@[i].task_id@,
            ).1,
        p.completed <==> stored.tasks@.len() > 0 && forall|i: int|
            0 <= i < stored.tasks@.len() ==> (#[trigger] p.task_progress@[i]).completed,
        p.completed_tasks <= stored.tasks@.len(),
{
    crate::sql::rows::completed_means_all_tasks(stored.tasks@, rows, player);
    let t = stored.tasks@;
    if forall|i: int| 0 <= i < t.len() ==> (#[trigger] p.task_progress@[i]).completed {
        assert forall|i: int| 0 <= i < t.len() implies task_done(
            rows,
            player,
            (#[trigger] t[i]).task_id@,
        ).1 by {
            assert(p.task_progress@[i].completed);
        }
    }
    if p.completed {
        assert forall|i: int| 0 <= i < t.len() implies (#[trigger] p.task_progress@[i]).completed by {
            assert(task_done(rows, player, t[i].task_id@).1);
        }
    }
}

/// The achievements of all namespaces are told namespace after namespace, each in its order, and each
/// once.
pub proof fn namespaces_are_told_in_order(ns: Seq<NamespaceAchievements>, n: nat)
    requires
        n <= ns.len(),
    ensures
        ({
            let at = flattened(ns, n);
            &&& forall|k: int|
                0 <= k < at.len() ==> 0 <= (#[trigger] at[k]).0 < n && 0 <= at[k].1
                    < ns[at[k].0].achievements@.len()
            &&& forall|a: int, b: int|
                0 <= a < n && 0 <= b < (#[trigger] achievements_beside(a, b, ns)) ==> told_at(at, a, b)
            &&& forall|k: int, l: int|
                0 <= k < l < at.len() ==> (#[trigger] at[k]).0 < (#[trigger] at[l]).0 || (at[k].0
                    == at[l].0 && at[k].1 < at[l].1)
        }),
    decreases n,
{
    if n > 0 {
        let m = (n - 1) as nat;
        namespaces_are_told_in_order(ns, m);
        let before = flattened(ns, m);
        let at = flattened(ns, n);
        let x = before.len();
        assert forall|k: int| 0 <= k < x implies #[trigger] at[k] == before[k] by {}
        assert forall|k: int| x <= k < at.len() implies #[trigger] at[k] == (n - 1, k - x) by {}
        assert(at.len() == x + ns[n - 1].achievements@.len());
        assert forall|k: int| 0 <= k < at.len() implies 0 <= (#[trigger] at[k]).0 < n && 0 <= at[k].1
            < ns[at[k].0].achievements@.len() by {
            if k < x {
                assert(at[k] == before[k]);
            }
        }
        assert forall|a: int, b: int|
            0 <= a < n && 0 <= b < (#[trigger] achievements_beside(a, b, ns)) implies told_at(at, a, b) by {
            if a < m {
                assert(0 <= b < achievements_beside(a, b, ns));
                assert(told_at(before, a, b));
                let k = choose|k: int| 0 <= k < x && #[trigger] before[k] == (a, b);
                assert(at[k] == (a, b));
            } else {
                assert(at[x + b] == (a, b));
            }
        }
        assert forall|k: int, l: int| 0 <= k < l < at.len() implies (#[trigger] at[k]).0 < (
        #[trigger] at[l]).0 || (at[k].0 == at[l].0 && at[k].1 < at[l].1) by {
            if l < x {
                assert(at[k] == before[k] && at[l] == before[l]);
            } else if k < x {
                assert(at[k] == before[k]);
            }
        }
    }
}

/// Whether the achievement of a namespace is among those told.
pub open spec fn told_at(at: Seq<(int, int)>, a: int, b: int) -> bool {
    exists|k: int| 0 <= k < at.len() && #[trigger] at[k] == (a, b)
}

/// The number of achievements of a namespace, beside the one at a place.
pub open spec fn achievements_beside(a: int, b: int, ns: Seq<NamespaceAchievements>) -> int {
    ns[a].achievements@.len() as int
}

/// The totals of a player are those of the row; a time that cannot be read is the present, but for
/// that of the last achievement.
pub proof fn totals_are_told_as_stored(s: PlayerAchievementStats, row: PlayerRow, now: Timestamp)
    requires
        stats_are(s, row, now),
    ensures
        row.total_points >= 0 ==> s.total_points == row.total_points,
        row.completed_achievements >= 0 ==> s.completed_achievements == row.completed_achievements,
        row.total_achievements >= 0 ==> s.total_achievements == row.total_achievements,
        rfc3339_time(row.created_at@) matches Some(t) ==> s.created_at == t,
        rfc3339_time(row.created_at@) is None ==> s.created_at == now,
        rfc3339_time(row.updated_at@) matches Some(t) ==> s.updated_at == t,
        rfc3339_time(row.updated_at@) is None ==> s.updated_at == now,
        row.last_achievement_at is None ==> s.last_achievement_at is None,
        row.last_achievement_at matches Some(t) ==> s.last_achievement_at == rfc3339_time(t@),
{
}

/// A player is told under the address of the row, with its totals and the progress on all
/// achievements.
pub proof fn players_are_told_with_their_progress(
    e: PlayerAchievementEntry,
    row: PlayerRow,
    ns: Seq<NamespaceAchievements>,
    rows: Seq<ProgressionRow>,
    now: Timestamp,
    k: int,
)
    requires
        entry_is(e, row, ns, rows, now),
        0 <= k < flattened(ns, ns.len()).len(),
    ensures
        felt_parsed(row.player_id@) == Some(e.player_address.value()),
        stats_are(e.stats, row, now),
        e.achievements@.len() == flattened(ns, ns.len()).len(),
        ({
            let (a, b) = flattened(ns, ns.len())[k];
            let told = e.achievements@[k];
            &&& told.achievement.id@ == ns[a].achievements@[b].row.id@
            &&& told.achievement.namespace@ == ns[a].namespace@
            &&& felt_parsed(ns[a].world_address@) matches Some(w) ==> told.achievement.world_address.value()
                == w
            &&& forall|i: int|
                0 <= i < told.task_progress@.len() ==> (#[trigger] told.task_progress@[i]).count
                    == task_done(rows, row.player_id@, ns[a].achievements@[b].tasks@[i].task_id@).0
        }),
{
    let at = flattened(ns, ns.len());
    let p = e.achievements@[k];
    assert(achievement_progress_is(
        p,
        ns[at[k].0].achievements@[at[k].1],
        felt_parsed(ns[at[k].0].world_address@)->0,
        ns[at[k].0].namespace@,
        rows,
        row.player_id@,
    ));
}

// ---------------------------------------------------------------------------
// Transactions
// ---------------------------------------------------------------------------

/// A call is told as its row has it: the contract that is called as the contract, and the caller as
/// the caller.
pub proof fn calls_are_told_as_stored(c: TransactionCall, row: CallRow)
    requires
        call_is(c, row),
    ensures
        felt_parsed(row.contract_address@) == Some(c.contract_address.value()),
        felt_parsed(row.caller_address@) == Some(c.caller_address.value()),
        c.entrypoint@ == row.entrypoint@,
        c.calldata@ == row.calldata@,
        row.call_type matches Some(t) && t@ == c.call_type@,
{
}

/// A call is refused exactly where one of its addresses is no element, or its kind is not known; what
/// stands first in the row is told.
pub proof fn calls_are_refused_for_what_is_wrong(row: CallRow)
    ensures
        call_error(row) is Some <==> felt_parsed(row.contract_address@) is None || row.call_type is None
            || felt_parsed(row.caller_address@) is None,
        call_error(row) == Some(RowError::CallType) <==> felt_parsed(row.contract_address@) is Some
            && row.call_type is None,
{
}

/// A transaction is refused exactly where its hash, sender, fee or nonce is no element.
pub proof fn transactions_are_refused_for_what_is_wrong(row: TransactionRow)
    ensures
        !transaction_readable(row) <==> felt_parsed(row.transaction_hash@) is None || felt_parsed(
            row.sender_address@,
        ) is None || felt_parsed(row.max_fee@) is None || felt_parsed(row.nonce@) is None,
{
}

// ---------------------------------------------------------------------------
// Search
// ---------------------------------------------------------------------------

/// As many results are asked for as are wanted, but never more than the greatest number, which is
/// asked for where none is wanted.
pub proof fn searches_are_limited(c: SearchConfig, wanted: u32)
    requires
        0 < c.max_results <= u32::MAX,
    ensures
        search_limit(c, wanted) <= c.max_results,
        0 < wanted <= c.max_results ==> search_limit(c, wanted) == wanted,
        wanted == 0 || wanted > c.max_results ==> search_limit(c, wanted) == c.max_results,
{
}

/// A text is searched for exactly where it is not blank and has as many bytes, without the blanks
/// around it, as are asked for.
pub proof fn short_texts_are_not_searched(c: SearchConfig, query: Seq<char>)
    ensures
        !searchable(c, query) <==> trim(query).len() == 0 || encode_utf8(trim(query)).len()
            < c.min_query_length,
{
}

/// What is searched for is the text without the blanks around it; with a star after it where the
/// beginning is enough, unless it ends in one.
pub proof fn terms_end_in_one_star(c: SearchConfig, query: Seq<char>)
    ensures
        ({
            let t = trim(query);
            let term = search_term(c, query);
            &&& !c.prefix_matching ==> term == t
            &&& c.prefix_matching && t.len() > 0 && t.last() == '*' ==> term == t
            &&& c.prefix_matching && t.len() > 0 && t.last() != '*' ==> term == t.push('*')
        }),
{
    reveal_strlit("*");
    let t = trim(query);
    assert("*"@ =~= seq!['*']);
    if t.len() > 0 {
        assert(t.skip(t.len() - 1) =~= seq![t.last()]);
        if t.last() != '*' {
            assert(t.skip(t.len() - 1)[0] != "*"@[0]);
        }
        assert(t + "*"@ =~= t.push('*'));
    }
}

/// A match tells its identifier and its first text under those names, its second text where there is
/// one, and what else the row tells of it.
pub proof fn matches_tell_their_row(c: SearchConfig, row: SearchRow)
    ensures
        ({
            let f = match_fields(c, row);
            &&& f.dom().contains("entity_id"@) && f["entity_id"@] == row.entity_id@
            &&& f.dom().contains("primary_text"@) && f["primary_text"@] == row.primary_text@
            &&& row.secondary_text@.len() > 0 ==> f.dom().contains("secondary_text"@)
                && f["secondary_text"@] == row.secondary_text@
            &&& forall|k: Seq<char>| #[trigger]
                json_texts(row.metadata@).dom().contains(k) && k != "entity_id"@ && k
                    != "primary_text"@ && k != "secondary_text"@ && k != "snippet"@
                    ==> f.dom().contains(k) && f[k] == json_texts(row.metadata@)[k]
            &&& c.return_snippets ==> f.dom().contains("snippet"@) && f["snippet"@] == snippet(
                if row.secondary_text@.len() > 0 {
                    row.secondary_text@
                } else {
                    row.primary_text@
                },
                c.snippet_length as nat,
            )
        }),
{
    reveal_strlit("entity_id");
    reveal_strlit("primary_text");
    reveal_strlit("secondary_text");
    reveal_strlit("snippet");
    assert("entity_id"@.len() == 9 && "primary_text"@.len() == 12 && "secondary_text"@.len() == 14
        && "snippet"@.len() == 7);
}

/// A snippet of a short text is the text; one of a longer text is its beginning and three dots.
pub proof fn snippets_are_beginnings(text: Seq<char>, n: nat)
    ensures
        encode_utf8(text).len() <= n ==> snippet(text, n) == text,
        encode_utf8(text).len() > n ==> snippet(text, n) == decode_utf8(encode_utf8(text).take(n as int))
            + seq!['.', '.', '.'],
{
    reveal_strlit("...");
    assert("..."@ =~= seq!['.', '.', '.']);
    if encode_utf8(text).len() > n {
        assert(encode_utf8(text).take(n as int) =~= encode_utf8(text).subrange(0, n as int));
    }
}

/// Each type of the index is told under the name of its table, and an unknown one under its own.
pub proof fn types_have_their_tables(t: Seq<char>)
    ensures
        table_of("achievement"@) == "achievements"@,
        table_of("controller"@) == "controllers"@,
        table_of("token_attribute"@) == "token_attributes"@,
        table_of("token"@) == "tokens"@,
        t != "achievement"@ && t != "controller"@ && t != "token_attribute"@ && t != "token"@
            ==> table_of(t) == t,
{
    reveal_strlit("achievement");
    reveal_strlit("controller");
    reveal_strlit("token_attribute");
    reveal_strlit("token");
    assert("achievement"@.len() == 11 && "controller"@.len() == 10 && "token_attribute"@.len() == 15
        && "token"@.len() == 5);
}

/// The rows of a group are of its type, in their order, and no two groups are of one type.
pub proof fn groups_hold_rows_of_one_type(rows: Seq<SearchRow>, limit: int)
    requires
        limit >= 0,
    ensures
        ({
            let g = grouped(rows, limit);
            &&& forall|i: int, j: int|
                0 <= i < g.len() && 0 <= j < g[i].1.len() ==> 0 <= (#[trigger] g[i].1[j]) < rows.len()
                    && rows[g[i].1[j]].entity_type@ == g[i].0
            &&& forall|i: int, j: int| 0 <= i < j < g.len() ==> (#[trigger] g[i]).0 != (#[trigger] g[j]).0
            &&& forall|i: int, j: int, k: int|
                0 <= i < g.len() && 0 <= j < k < g[i].1.len() ==> (#[trigger] g[i].1[j])
                    < #[trigger] g[i].1[k]
        }),
    decreases rows.len(),
{
    if rows.len() > 0 {
        let b = rows.drop_last();
        groups_hold_rows_of_one_type(b, limit);
        let before = grouped(b, limit);
        let g = grouped(rows, limit);
        let t = rows.last().entity_type@;
        found_group(before, t);
        assert forall|i: int| 0 <= i < b.len() implies #[trigger] rows[i] == b[i] by {}
        assert forall|i: int, j: int| 0 <= i < g.len() && 0 <= j < g[i].1.len() implies 0 <= (
        #[trigger] g[i].1[j]) < rows.len() && rows[g[i].1[j]].entity_type@ == g[i].0 by {
            if i < before.len() && j < before[i].1.len() {
                assert(before[i].1[j] == g[i].1[j]);
                assert(rows[before[i].1[j]] == b[before[i].1[j]]);
            }
        }
        assert forall|i: int, j: int, k: int|
            0 <= i < g.len() && 0 <= j < k < g[i].1.len() implies (#[trigger] g[i].1[j])
            < #[trigger] g[i].1[k] by {
            assert(before[i].1[j] == g[i].1[j]);
            if k < before[i].1.len() {
                assert(before[i].1[k] == g[i].1[k]);
            }
        }
    }
}

/// A group that is found is of the type, and without one there is none.
proof fn found_group(g: Seq<(Seq<char>, Seq<int>)>, t: Seq<char>)
    ensures
        match group_at(g, t) {
            Some(i) => 0 <= i < g.len() && g[i].0 == t,
            None => forall|i: int| 0 <= i < g.len() ==> (#[trigger] g[i]).0 != t,
        },
    decreases g.len(),
{
    if g.len() > 0 {
        found_group(g.drop_last(), t);
        if group_at(g, t) is None {
            assert forall|i: int| 0 <= i < g.len() implies (#[trigger] g[i]).0 != t by {
                if i < g.len() - 1 {
                    assert(g.drop_last()[i] == g[i]);
                }
            }
        }
    }
}

/// A group holds as many rows as there are of its type, up to the limit, and every type has one.
pub proof fn groups_hold_rows_up_to_the_limit(rows: Seq<SearchRow>, limit: int, t: Seq<char>)
    requires
        limit >= 1,
    ensures
        ({
            let g = grouped(rows, limit);
            let n = type_count(rows, t);
            match group_at(g, t) {
                Some(i) => 0 <= i < g.len() && n > 0 && g[i].1.len() == (if n <= limit {
                    n as int
                } else {
                    limit
                }),
                None => n == 0,
            }
        }),
    decreases rows.len(),
{
    if rows.len() > 0 {
        let b = rows.drop_last();
        let before = grouped(b, limit);
        let g = grouped(rows, limit);
        let u = rows.last().entity_type@;
        groups_hold_rows_up_to_the_limit(b, limit, t);
        groups_hold_rows_up_to_the_limit(b, limit, u);
        found_group(before, u);
        found_group(before, t);
        found_group(g, t);
        groups_hold_rows_of_one_type(rows, limit);
        match group_at(before, u) {
            Some(k) => {
                if type_count(rows, u) <= limit {
                    same_group(before, g, t);
                }
            },
            None => {
                assert(g.drop_last() =~= before);
            },
        }
    }
}

/// Groups of the same types, place by place, are found in the same places.
proof fn same_group(a: Seq<(Seq<char>, Seq<int>)>, b: Seq<(Seq<char>, Seq<int>)>, t: Seq<char>)
    requires
        a.len() == b.len(),
        forall|i: int| 0 <= i < a.len() ==> (#[trigger] a[i]).0 == b[i].0,
    ensures
        group_at(a, t) == group_at(b, t),
    decreases a.len(),
{
    if a.len() > 0 {
        assert forall|i: int| 0 <= i < a.len() - 1 implies (#[trigger] a.drop_last()[i]).0
            == b.drop_last()[i].0 by {
            assert(a[i].0 == b[i].0);
        }
        same_group(a.drop_last(), b.drop_last(), t);
        assert(a[a.len() - 1].0 == b[a.len() - 1].0);
    }
}

/// The rows of a type are counted one by one.
pub proof fn rows_are_counted_by_type(rows: Seq<SearchRow>, row: SearchRow, t: Seq<char>)
    ensures
        type_count(Seq::empty(), t) == 0,
        row.entity_type@ == t ==> type_count(rows.push(row), t) == type_count(rows, t) + 1,
        row.entity_type@ != t ==> type_count(rows.push(row), t) == type_count(rows, t),
{
    assert(rows.push(row).drop_last() =~= rows);
}

/// A row without a second text tells none, unless its metadata holds a text of that name.
pub proof fn absent_texts_are_not_told(c: SearchConfig, row: SearchRow)
    requires
        row.secondary_text@.len() == 0,
        !json_texts(row.metadata@).dom().contains("secondary_text"@),
    ensures
        !match_fields(c, row).dom().contains("secondary_text"@),
{
    reveal_strlit("entity_id");
    reveal_strlit("primary_text");
    reveal_strlit("secondary_text");
    reveal_strlit("snippet");
    assert("entity_id"@.len() == 9 && "primary_text"@.len() == 12 && "secondary_text"@.len() == 14
        && "snippet"@.len() == 7);
}

/// An achievement without tasks is completed by none.
pub proof fn no_tasks_are_completed_by_none(rows: Seq<TaskRow>)
    requires
        rows.len() == 0,
    ensures
        mean_completions(rows) == 0,
        mean_signed_completions(rows) == 0,
{
}

} // verus!
