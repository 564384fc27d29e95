//! What the rows of the database mean.
use vstd::prelude::*;
use vstd::string::*;
use crate::felt::{felt_parsed, Felt};
use crate::text::{split, split_on, str_eq, views};
use crate::time::{parse_rfc3339, rfc3339_time, Timestamp};

verus! {

/// Why rows were refused.
#[derive(Clone, Copy, Debug, PartialEq, Eq, Structural)]
pub enum RowError {
    /// A text that should be a field element is none.
    Felt,
    /// A text that should name a kind of call names none.
    CallType,
}

/// An integer of 32 bits taken as one without sign.
pub open spec fn unsigned(v: i32) -> int {
    if v < 0 {
        v + 0x1_0000_0000
    } else {
        v as int
    }
}

/// An integer of 32 bits taken as one without sign.
fn to_unsigned(v: i32) -> (r: u32)
    ensures
        r == unsigned(v),
{
    if v < 0 {
        (v as i64 + 0x1_0000_0000) as u32
    } else {
        v as u32
    }
}

// ---------------------------------------------------------------------------
// Achievements
// ---------------------------------------------------------------------------

/// The texts of an achievement that are handed on as they are.
#[derive(Debug)]
pub struct AchievementText {
    pub start: String,
    pub end: String,
    pub group: String,
    pub icon: String,
    pub title: String,
    pub description: String,
    pub data: String,
    pub created_at: String,
    pub updated_at: String,
}

impl AchievementText {
    /// The texts in order.
    pub open spec fn view(&self) -> Seq<Seq<char>> {
        seq![
            self.start@,
            self.end@,
            self.group@,
            self.icon@,
            self.title@,
            self.description@,
            self.data@,
            self.created_at@,
            self.updated_at@,
        ]
    }

    /// A copy of the texts.
    fn copy(&self) -> (r: AchievementText)
        ensures
            r.view() == self.view(),
    {
        AchievementText {
            start: self.start.clone(),
            end: self.end.clone(),
            group: self.group.clone(),
            icon: self.icon.clone(),
            title: self.title.clone(),
            description: self.description.clone(),
            data: self.data.clone(),
            created_at: self.created_at.clone(),
            updated_at: self.updated_at.clone(),
        }
    }
}

/// A row of an achievement.
#[derive(Debug)]
pub struct AchievementRow {
    pub id: String,
    pub world_address: String,
    pub hidden: i32,
    pub index_num: i32,
    pub points: i32,
    pub text: AchievementText,
}

/// A row of a task.
#[derive(Debug)]
pub struct TaskRow {
    pub task_id: String,
    pub description: String,
    pub total: i32,
    pub total_completions: i32,
    pub created_at: String,
}

/// A task of an achievement.
#[derive(Debug)]
pub struct AchievementTask {
    pub task_id: String,
    pub description: String,
    pub total: u32,
    pub total_completions: u32,
    pub created_at: String,
}

/// An achievement with its tasks.
#[derive(Debug)]
pub struct Achievement {
    pub id: String,
    pub world_address: Felt,
    pub namespace: String,
    pub entity_id: String,
    pub hidden: bool,
    pub index: u32,
    pub points: u32,
    pub text: AchievementText,
    pub tasks: Vec<AchievementTask>,
    pub total_completions: u32,
}

/// Whether the task is the one of the row.
pub open spec fn task_is(t: AchievementTask, row: TaskRow) -> bool {
    &&& t.task_id@ == row.task_id@
    &&& t.description@ == row.description@
    &&& t.total == unsigned(row.total)
    &&& t.total_completions == unsigned(row.total_completions)
    &&& t.created_at@ == row.created_at@
}

/// Whether the tasks are those of the rows, in order.
pub open spec fn tasks_are(t: Seq<AchievementTask>, rows: Seq<TaskRow>) -> bool {
    t.len() == rows.len() && forall|i: int| 0 <= i < t.len() ==> task_is(#[trigger] t[i], rows[i])
}

/// The tasks of the rows.
fn tasks_of(rows: &Vec<TaskRow>) -> (r: Vec<AchievementTask>)
    ensures
        tasks_are(r@, rows@),
{
    let mut out: Vec<AchievementTask> = Vec::new();
    let mut i: usize = 0;
    while i < rows.len()
        invariant
            i <= rows@.len(),
            out@.len() == i,
            forall|k: int| 0 <= k < i ==> task_is(#[trigger] out@[k], rows@[k]),
        decreases rows@.len() - i,
    {
        let row = &rows[i];
        out.push(
            AchievementTask {
                task_id: row.task_id.clone(),
                description: row.description.clone(),
                total: to_unsigned(row.total),
                total_completions: to_unsigned(row.total_completions),
                created_at: row.created_at.clone(),
            },
        );
        i = i + 1;
    }
    out
}

/// The completions of all tasks together, taken without sign.
pub open spec fn completions(rows: Seq<TaskRow>) -> int
    decreases rows.len(),
{
    if rows.len() == 0 {
        0
    } else {
        completions(rows.drop_last()) + unsigned(rows.last().total_completions)
    }
}

/// The completions of all tasks together, taken with sign.
pub open spec fn signed_completions(rows: Seq<TaskRow>) -> int
    decreases rows.len(),
{
    if rows.len() == 0 {
        0
    } else {
        signed_completions(rows.drop_last()) + rows.last().total_completions
    }
}

/// The part of an identifier after its last colon.
pub open spec fn last_part(id: Seq<char>) -> Seq<char> {
    split(id, ':').last()
}

/// The second part of an identifier; empty where there is none.
pub open spec fn second_part(id: Seq<char>) -> Seq<char> {
    let parts = split(id, ':');
    if parts.len() > 1 {
        parts[1]
    } else {
        Seq::empty()
    }
}

/// Whether the achievement is the one of the row with these tasks, but for its namespace and its
/// number of completions.
pub open spec fn achievement_is(
    a: Achievement,
    row: AchievementRow,
    tasks: Seq<TaskRow>,
    world: nat,
) -> bool {
    &&& a.id@ == row.id@
    &&& a.world_address.value() == world
    &&& a.world_address.wf()
    &&& a.entity_id@ == last_part(row.id@)
    &&& a.hidden == (row.hidden != 0)
    &&& a.index == unsigned(row.index_num)
    &&& a.points == unsigned(row.points)
    &&& a.text.view() == row.text.view()
    &&& tasks_are(a.tasks@, tasks)
}

/// The achievement of a row with these tasks, in that world and namespace.
fn build_achievement(
    row: &AchievementRow,
    tasks: &Vec<TaskRow>,
    world_address: Felt,
    namespace: String,
    total_completions: u32,
) -> (r: Achievement)
    requires
        world_address.wf(),
    ensures
        achievement_is(r, *row, tasks@, world_address.value()),
        r.namespace == namespace,
        r.total_completions == total_completions,
{
    let parts = split_on(&row.id, ':');
    let last: usize = parts.len() - 1;
    proof {
        assert(views(parts@)[last as int] == parts@[last as int]@);
    }
    Achievement {
        id: row.id.clone(),
        world_address,
        namespace,
        entity_id: parts[last].clone(),
        hidden: row.hidden != 0,
        index: to_unsigned(row.index_num),
        points: to_unsigned(row.points),
        text: row.text.copy(),
        tasks: tasks_of(tasks),
        total_completions,
    }
}

/// The mean of the completions of the tasks, rounded down; zero without tasks.
pub open spec fn mean_completions(rows: Seq<TaskRow>) -> int {
    if rows.len() == 0 {
        0
    } else {
        completions(rows) / rows.len() as int
    }
}

/// The value of the first tasks is not above that of all.
proof fn completions_monotone(rows: Seq<TaskRow>, n: int)
    requires
        0 <= n <= rows.len(),
    ensures
        0 <= completions(rows.take(n)) <= completions(rows),
    decreases rows.len(),
{
    if n == rows.len() {
        assert(rows.take(n) =~= rows);
        if n > 0 {
            completions_monotone(rows.drop_last(), n - 1);
            assert(rows.drop_last().take(n - 1) =~= rows.drop_last());
        }
    } else {
        completions_monotone(rows.drop_last(), n);
        assert(rows.drop_last().take(n) =~= rows.take(n));
    }
}

/// The achievement of a row with these tasks. The world is an element in the row, and the
/// namespace the second part of its identifier.
pub fn achievement_of(row: &AchievementRow, tasks: &Vec<TaskRow>) -> (r: Result<
    Achievement,
    RowError,
>)
    requires
        completions(tasks@) <= u32::MAX,
        tasks@.len() <= u32::MAX,
    ensures
        match r {
            Ok(a) => felt_parsed(row.world_address@) is Some && achievement_is(
                a,
                *row,
                tasks@,
                felt_parsed(row.world_address@)->0,
            ) && a.namespace@ == second_part(row.id@) && a.total_completions == mean_completions(
                tasks@,
            ),
            Err(e) => felt_parsed(row.world_address@) is None && e == RowError::Felt,
        },
{
    let mut sum: u32 = 0;
    let mut i: usize = 0;
    proof {
        assert(tasks@.take(0) =~= Seq::<TaskRow>::empty());
    }
    while i < tasks.len()
        invariant
            i <= tasks@.len(),
            completions(tasks@) <= u32::MAX,
            sum == completions(tasks@.take(i as int)),
        decreases tasks@.len() - i,
    {
        proof {
            assert(tasks@.take(i + 1).drop_last() =~= tasks@.take(i as int));
            completions_monotone(tasks@, i + 1);
        }
        sum = sum + to_unsigned(tasks[i].total_completions);
        i = i + 1;
    }
    proof {
        assert(tasks@.take(i as int) =~= tasks@);
    }
    let mean: u32 = if tasks.len() > 0 {
        sum / (tasks.len() as u32)
    } else {
        0
    };
    let parts = split_on(&row.id, ':');
    let namespace = if parts.len() > 1 {
        proof {
            assert(views(parts@)[1] == parts@[1]@);
        }
        parts[1].clone()
    } else {
        String::new()
    };
    proof {
        assert(namespace@ =~= second_part(row.id@));
    }
    match Felt::from_str(&row.world_address) {
        Some(world) => Ok(build_achievement(row, tasks, world, namespace, mean)),
        None => Err(RowError::Felt),
    }
}

// ---------------------------------------------------------------------------
// Players
// ---------------------------------------------------------------------------

/// The totals of a player.
#[derive(Debug)]
pub struct PlayerRow {
    pub player_id: String,
    pub total_points: i32,
    pub completed_achievements: i32,
    pub total_achievements: i32,
    pub last_achievement_at: Option<String>,
    pub created_at: String,
    pub updated_at: String,
}

/// How far a player got with a task.
#[derive(Debug)]
pub struct ProgressionRow {
    pub task_id: String,
    pub player_id: String,
    pub count: i32,
    pub completed: i32,
}

/// An achievement with its tasks, as it stands in the database.
#[derive(Debug)]
pub struct StoredAchievement {
    pub row: AchievementRow,
    pub tasks: Vec<TaskRow>,
}

/// A namespace of a world with its achievements.
#[derive(Debug)]
pub struct NamespaceAchievements {
    pub world_address: String,
    pub namespace: String,
    pub achievements: Vec<StoredAchievement>,
}

/// How far a player got with a task.
#[derive(Debug)]
pub struct TaskProgress {
    pub task_id: String,
    pub count: u32,
    pub completed: bool,
}

/// How far a player got with an achievement.
#[derive(Debug)]
pub struct PlayerAchievementProgress {
    pub achievement: Achievement,
    pub task_progress: Vec<TaskProgress>,
    pub completed_tasks: usize,
    pub completed: bool,
}

/// The totals of a player.
#[derive(Clone, Copy, Debug, PartialEq, Eq, Structural)]
pub struct PlayerAchievementStats {
    pub total_points: u32,
    pub completed_achievements: u32,
    pub total_achievements: u32,
    pub last_achievement_at: Option<Timestamp>,
    pub created_at: Timestamp,
    pub updated_at: Timestamp,
}

/// A player with totals and achievements.
#[derive(Debug)]
pub struct PlayerAchievementEntry {
    pub player_address: Felt,
    pub stats: PlayerAchievementStats,
    pub achievements: Vec<PlayerAchievementProgress>,
}

/// The first row of the player for the task.
pub open spec fn progression_at(
    rows: Seq<ProgressionRow>,
    player: Seq<char>,
    task: Seq<char>,
) -> Option<int>
    decreases rows.len(),
{
    if rows.len() == 0 {
        None
    } else {
        match progression_at(rows.drop_last(), player, task) {
            Some(i) => Some(i),
            None => if rows.last().player_id@ == player && rows.last().task_id@ == task {
                Some(rows.len() - 1)
            } else {
                None
            },
        }
    }
}

/// The first row of a player for a task is a row of that player and task.
pub proof fn progression_found(rows: Seq<ProgressionRow>, player: Seq<char>, task: Seq<char>)
    ensures
        match progression_at(rows, player, task) {
            Some(i) => 0 <= i < rows.len() && rows[i].player_id@ == player && rows[i].task_id@
                == task && forall|j: int|
                0 <= j < i ==> !((#[trigger] rows[j]).player_id@ == player && rows[j].task_id@
                    == task),
            None => forall|j: int|
                0 <= j < rows.len() ==> !((#[trigger] rows[j]).player_id@ == player
                    && rows[j].task_id@ == task),
        },
    decreases rows.len(),
{
    if rows.len() > 0 {
        let t = rows.drop_last();
        progression_found(t, player, task);
        match progression_at(t, player, task) {
            Some(i) => {
                assert forall|j: int| 0 <= j < i implies !((#[trigger] rows[j]).player_id@ == player
                    && rows[j].task_id@ == task) by {
                    assert(t[j] == rows[j]);
                }
            },
            None => {
                assert forall|j: int| 0 <= j < rows.len() - 1 implies !((
                #[trigger] rows[j]).player_id@ == player && rows[j].task_id@ == task) by {
                    assert(t[j] == rows[j]);
                }
            },
        }
    }
}

/// How often, and whether to the end, the player did the task.
pub open spec fn task_done(
    rows: Seq<ProgressionRow>,
    player: Seq<char>,
    task: Seq<char>,
) -> (int, bool) {
    match progression_at(rows, player, task) {
        Some(i) => (unsigned(rows[i].count), rows[i].completed != 0),
        None => (0, false),
    }
}

/// The number of tasks that the player did to the end.
pub open spec fn tasks_completed(
    tasks: Seq<TaskRow>,
    rows: Seq<ProgressionRow>,
    player: Seq<char>,
) -> int
    decreases tasks.len(),
{
    if tasks.len() == 0 {
        0
    } else {
        tasks_completed(tasks.drop_last(), rows, player) + (if task_done(
            rows,
            player,
            tasks.last().task_id@,
        ).1 {
            1int
        } else {
            0int
        })
    }
}

/// Whether the progress is that of the player on the tasks, one for one.
pub open spec fn progress_is(
    p: Seq<TaskProgress>,
    tasks: Seq<TaskRow>,
    rows: Seq<ProgressionRow>,
    player: Seq<char>,
) -> bool {
    p.len() == tasks.len() && forall|i: int|
        0 <= i < p.len() ==> (#[trigger] p[i]).task_id@ == tasks[i].task_id@ && (
        p[i].count as int,
        p[i].completed,
    ) == task_done(rows, player, tasks[i].task_id@)
}

/// A quotient rounded toward zero.
pub open spec fn toward_zero(a: int, n: int) -> int {
    if a >= 0 {
        a / n
    } else {
        -((-a) / n)
    }
}

/// The mean of the completions of the tasks, rounded toward zero and taken without sign.
pub open spec fn mean_signed_completions(rows: Seq<TaskRow>) -> int {
    if rows.len() == 0 {
        0
    } else {
        unsigned(toward_zero(signed_completions(rows), rows.len() as int) as i32)
    }
}

/// The sums over the first tasks all fit into 32 bits.
pub open spec fn sums_fit(rows: Seq<TaskRow>) -> bool {
    &&& rows.len() <= i32::MAX
    &&& forall|n: int|
        0 <= n <= rows.len() ==> i32::MIN <= #[trigger] signed_completions(rows.take(n)) <= i32::MAX
}

/// Whether the progress is that of the player on the stored achievement.
pub open spec fn achievement_progress_is(
    p: PlayerAchievementProgress,
    stored: StoredAchievement,
    world: nat,
    namespace: Seq<char>,
    rows: Seq<ProgressionRow>,
    player: Seq<char>,
) -> bool {
    let done = tasks_completed(stored.tasks@, rows, player);
    &&& achievement_is(p.achievement, stored.row, stored.tasks@, world)
    &&& p.achievement.namespace@ == namespace
    &&& p.achievement.total_completions == mean_signed_completions(stored.tasks@)
    &&& progress_is(p.task_progress@, stored.tasks@, rows, player)
    &&& p.completed_tasks == done
    &&& p.completed == (stored.tasks@.len() > 0 && done == stored.tasks@.len())
}

/// The stored achievements of the first `n` namespaces in order, each with the index of its
/// namespace.
pub open spec fn flattened(ns: Seq<NamespaceAchievements>, n: nat) -> Seq<(int, int)>
    decreases n,
{
    if n == 0 || n > ns.len() {
        Seq::empty()
    } else {
        flattened(ns, (n - 1) as nat) + Seq::new(
            ns[n - 1].achievements@.len(),
            |j: int| (n - 1, j),
        )
    }
}

/// Whether the progress is that of the player on all achievements, in the order of the namespaces.
pub open spec fn all_progress_is(
    p: Seq<PlayerAchievementProgress>,
    at: Seq<(int, int)>,
    ns: Seq<NamespaceAchievements>,
    rows: Seq<ProgressionRow>,
    player: Seq<char>,
) -> bool {
    p.len() == at.len() && forall|k: int|
        0 <= k < p.len() ==> achievement_progress_is(
            #[trigger] p[k],
            ns[at[k].0].achievements@[at[k].1],
            felt_parsed(ns[at[k].0].world_address@)->0,
            ns[at[k].0].namespace@,
            rows,
            player,
        )
}

/// The time in a text, or the time given where the text holds none.
pub open spec fn time_or(s: Seq<char>, now: Timestamp) -> Timestamp {
    match rfc3339_time(s) {
        Some(t) => t,
        None => now,
    }
}

/// Whether the totals are those of the row; a time that cannot be read is now, but for that of the
/// last achievement, which is then absent.
pub open spec fn stats_are(s: PlayerAchievementStats, row: PlayerRow, now: Timestamp) -> bool {
    &&& s.total_points == unsigned(row.total_points)
    &&& s.completed_achievements == unsigned(row.completed_achievements)
    &&& s.total_achievements == unsigned(row.total_achievements)
    &&& s.last_achievement_at == (match row.last_achievement_at {
        Some(t) => rfc3339_time(t@),
        None => None,
    })
    &&& s.created_at == time_or(row.created_at@, now)
    &&& s.updated_at == time_or(row.updated_at@, now)
}

/// Whether every namespace with achievements has an element for its world.
pub open spec fn worlds_readable(ns: Seq<NamespaceAchievements>) -> bool {
    forall|i: int|
        0 <= i < ns.len() && ns[i].achievements@.len() > 0 ==> felt_parsed(
            (#[trigger] ns[i]).world_address@,
        ) is Some
}

/// Whether the entry is that of the player.
pub open spec fn entry_is(
    e: PlayerAchievementEntry,
    row: PlayerRow,
    ns: Seq<NamespaceAchievements>,
    rows: Seq<ProgressionRow>,
    now: Timestamp,
) -> bool {
    &&& felt_parsed(row.player_id@) == Some(e.player_address.value())
    &&& e.player_address.wf()
    &&& stats_are(e.stats, row, now)
    &&& all_progress_is(e.achievements@, flattened(ns, ns.len()), ns, rows, row.player_id@)
}

/// How far the player got with a task.
fn find_progression(rows: &Vec<ProgressionRow>, player: &str, task: &str) -> (r: (u32, bool))
    ensures
        (r.0 as int, r.1) == task_done(rows@, player@, task@),
{
    let mut i: usize = 0;
    let mut found: Option<usize> = None;
    while i < rows.len()
        invariant
            i <= rows@.len(),
            match found {
                Some(k) => progression_at(rows@.take(i as int), player@, task@) == Some(k as int)
                    && k < i,
                None => progression_at(rows@.take(i as int), player@, task@) is None,
            },
        decreases rows@.len() - i,
    {
        proof {
            assert(rows@.take(i + 1).drop_last() =~= rows@.take(i as int));
        }
        if found.is_none() && str_eq(&rows[i].player_id, player) && str_eq(&rows[i].task_id, task) {
            found = Some(i);
        }
        i = i + 1;
    }
    proof {
        assert(rows@.take(i as int) =~= rows@);
    }
    match found {
        Some(k) => (to_unsigned(rows[k].count), rows[k].completed != 0),
        None => (0, false),
    }
}

/// How far the player got with a stored achievement.
fn progress_of(
    stored: &StoredAchievement,
    world: Felt,
    namespace: &str,
    rows: &Vec<ProgressionRow>,
    player: &str,
) -> (r: PlayerAchievementProgress)
    requires
        world.wf(),
        sums_fit(stored.tasks@),
    ensures
        achievement_progress_is(r, *stored, world.value(), namespace@, rows@, player@),
{
    let tasks = &stored.tasks;
    let mut progress: Vec<TaskProgress> = Vec::new();
    let mut done: usize = 0;
    let mut sum: i32 = 0;
    let mut i: usize = 0;
    proof {
        assert(tasks@.take(0) =~= Seq::<TaskRow>::empty());
    }
    while i < tasks.len()
        invariant
            i <= tasks@.len(),
            *tasks == stored.tasks,
            sums_fit(tasks@),
            progress@.len() == i,
            forall|k: int|
                0 <= k < i ==> (#[trigger] progress@[k]).task_id@ == tasks@[k].task_id@ && (
                progress@[k].count as int,
                progress@[k].completed,
            ) == task_done(rows@, player@, tasks@[k].task_id@),
            done == tasks_completed(tasks@.take(i as int), rows@, player@),
            done <= i,
            sum == signed_completions(tasks@.take(i as int)),
        decreases tasks@.len() - i,
    {
        let task = &tasks[i];
        let (count, completed) = find_progression(rows, player, &task.task_id);
        proof {
            assert(tasks@.take(i + 1).drop_last() =~= tasks@.take(i as int));
            let next = signed_completions(tasks@.take(i + 1));
            assert(i32::MIN <= next <= i32::MAX);
        }
        if completed {
            done = done + 1;
        }
        sum = sum + task.total_completions;
        progress.push(TaskProgress { task_id: task.task_id.clone(), count, completed });
        i = i + 1;
    }
    proof {
        assert(tasks@.take(i as int) =~= tasks@);
    }
    let n: usize = tasks.len();
    let mean: u32 = if n == 0 {
        0
    } else {
        let k: i64 = n as i64;
        let s: i64 = sum as i64;
        let q: i64 = if s >= 0 {
            s / k
        } else {
            -((-s) / k)
        };
        proof {
            let m: int = if s >= 0 {
                s as int
            } else {
                -s
            };
            assert(0 <= m / k as int <= m) by (nonlinear_arith)
                requires
                    m >= 0,
                    k >= 1,
            ;
        }
        to_unsigned(q as i32)
    };
    let completed = n > 0 && done == n;
    PlayerAchievementProgress {
        achievement: build_achievement(&stored.row, tasks, world, namespace.to_owned(), mean),
        task_progress: progress,
        completed_tasks: done,
        completed,
    }
}

/// The time in a text, or the time given where the text holds none.
fn time_else(s: &str, now: Timestamp) -> (r: Timestamp)
    ensures
        r == time_or(s@, now),
{
    match parse_rfc3339(s) {
        Some(t) => t,
        None => now,
    }
}

/// How far the player got with all achievements.
fn all_progress(
    ns: &Vec<NamespaceAchievements>,
    rows: &Vec<ProgressionRow>,
    player: &str,
) -> (r: Result<Vec<PlayerAchievementProgress>, RowError>)
    requires
        forall|i: int, j: int|
            0 <= i < ns@.len() && 0 <= j < ns@[i].achievements@.len() ==> sums_fit(
                (#[trigger] ns@[i].achievements@[j]).tasks@,
            ),
    ensures
        match r {
            Ok(p) => worlds_readable(ns@) && all_progress_is(
                p@,
                flattened(ns@, ns@.len()),
                ns@,
                rows@,
                player@,
            ),
            Err(e) => !worlds_readable(ns@) && e == RowError::Felt,
        },
{
    let mut out: Vec<PlayerAchievementProgress> = Vec::new();
    let mut i: usize = 0;
    while i < ns.len()
        invariant
            i <= ns@.len(),
            forall|i: int, j: int|
                0 <= i < ns@.len() && 0 <= j < ns@[i].achievements@.len() ==> sums_fit(
                    (#[trigger] ns@[i].achievements@[j]).tasks@,
                ),
            worlds_readable(ns@.take(i as int)),
            all_progress_is(out@, flattened(ns@, i as nat), ns@, rows@, player@),
        decreases ns@.len() - i,
    {
        let list = &ns[i].achievements;
        let ghost before = flattened(ns@, i as nat);
        let ghost next = flattened(ns@, (i + 1) as nat);
        let mut j: usize = 0;
        proof {
            assert(before + Seq::new(0, |j: int| (i as int, j)) =~= before);
        }
        while j < list.len()
            invariant
                i < ns@.len(),
                j <= list@.len(),
                *list == ns@[i as int].achievements,
                forall|i: int, j: int|
                    0 <= i < ns@.len() && 0 <= j < ns@[i].achievements@.len() ==> sums_fit(
                        (#[trigger] ns@[i].achievements@[j]).tasks@,
                    ),
                j > 0 ==> felt_parsed(ns@[i as int].world_address@) is Some,
                before == flattened(ns@, i as nat),
                all_progress_is(
                    out@,
                    before + Seq::new(j as nat, |j: int| (i as int, j)),
                    ns@,
                    rows@,
                    player@,
                ),
            decreases list@.len() - j,
        {
            let world = match Felt::from_str(&ns[i].world_address) {
                Some(w) => w,
                None => {
                    return Err(RowError::Felt);
                },
            };
            proof {
                assert(sums_fit(ns@[i as int].achievements@[j as int].tasks@));
            }
            let p = progress_of(&list[j], world, &ns[i].namespace, rows, player);
            let ghost old_out = out@;
            let ghost old_at = before + Seq::new(j as nat, |j: int| (i as int, j));
            out.push(p);
            proof {
                let at = before + Seq::new((j + 1) as nat, |j: int| (i as int, j));
                assert(at =~= old_at.push((i as int, j as int)));
                assert forall|k: int| 0 <= k < out@.len() implies achievement_progress_is(
                    #[trigger] out@[k],
                    ns@[at[k].0].achievements@[at[k].1],
                    felt_parsed(ns@[at[k].0].world_address@)->0,
                    ns@[at[k].0].namespace@,
                    rows@,
                    player@,
                ) by {
                    if k < old_out.len() {
                        assert(out@[k] == old_out[k]);
                        assert(at[k] == old_at[k]);
                    }
                }
            }
            j = j + 1;
        }
        proof {
            assert(next =~= before + Seq::new(j as nat, |j: int| (i as int, j)));
            assert forall|k: int|
                0 <= k < i + 1 && ns@.take(i + 1)[k].achievements@.len() > 0 implies felt_parsed(
                (#[trigger] ns@.take(i + 1)[k]).world_address@,
            ) is Some by {
                if k < i {
                    assert(ns@.take(i as int)[k] == ns@.take(i + 1)[k]);
                }
            }
        }
        i = i + 1;
    }
    proof {
        assert(ns@.take(i as int) =~= ns@);
    }
    Ok(out)
}

/// The entries of players: totals, and how far each got with every achievement of the namespaces.
pub fn player_entries(
    players: &Vec<PlayerRow>,
    ns: &Vec<NamespaceAchievements>,
    rows: &Vec<ProgressionRow>,
    now: Timestamp,
) -> (r: Result<Vec<PlayerAchievementEntry>, RowError>)
    requires
        forall|i: int, j: int|
            0 <= i < ns@.len() && 0 <= j < ns@[i].achievements@.len() ==> sums_fit(
                (#[trigger] ns@[i].achievements@[j]).tasks@,
            ),
    ensures
        match r {
            Ok(v) => v@.len() == players@.len() && (players@.len() > 0 ==> worlds_readable(ns@))
                && forall|k: int|
                0 <= k < v@.len() ==> entry_is(#[trigger] v@[k], players@[k], ns@, rows@, now),
            Err(e) => e == RowError::Felt && players@.len() > 0 && (!worlds_readable(ns@)
                || exists|k: int|
                0 <= k < players@.len() && felt_parsed((#[trigger] players@[k]).player_id@) is None),
        },
{
    let mut out: Vec<PlayerAchievementEntry> = Vec::new();
    let mut k: usize = 0;
    while k < players.len()
        invariant
            k <= players@.len(),
            out@.len() == k,
            k > 0 ==> worlds_readable(ns@),
            forall|i: int, j: int|
                0 <= i < ns@.len() && 0 <= j < ns@[i].achievements@.len() ==> sums_fit(
                    (#[trigger] ns@[i].achievements@[j]).tasks@,
                ),
            forall|m: int|
                0 <= m < k ==> entry_is(#[trigger] out@[m], players@[m], ns@, rows@, now),
        decreases players@.len() - k,
    {
        let row = &players[k];
        let player_address = match Felt::from_str(&row.player_id) {
            Some(a) => a,
            None => {
                return Err(RowError::Felt);
            },
        };
        let last_achievement_at = match &row.last_achievement_at {
            Some(t) => parse_rfc3339(t),
            None => None,
        };
        let stats = PlayerAchievementStats {
            total_points: to_unsigned(row.total_points),
            completed_achievements: to_unsigned(row.completed_achievements),
            total_achievements: to_unsigned(row.total_achievements),
            last_achievement_at,
            created_at: time_else(&row.created_at, now),
            updated_at: time_else(&row.updated_at, now),
        };
        match all_progress(ns, rows, &row.player_id) {
            Ok(achievements) => {
                out.push(PlayerAchievementEntry { player_address, stats, achievements });
            },
            Err(e) => {
                return Err(e);
            },
        }
        k = k + 1;
    }
    Ok(out)
}

/// The number of tasks done to the end is not above the number of tasks.
proof fn completed_within(tasks: Seq<TaskRow>, rows: Seq<ProgressionRow>, player: Seq<char>)
    ensures
        0 <= tasks_completed(tasks, rows, player) <= tasks.len(),
    decreases tasks.len(),
{
    if tasks.len() > 0 {
        completed_within(tasks.drop_last(), rows, player);
    }
}

/// An achievement is completed exactly when it has tasks and the player did each to the end.
pub proof fn completed_means_all_tasks(
    tasks: Seq<TaskRow>,
    rows: Seq<ProgressionRow>,
    player: Seq<char>,
)
    ensures
        tasks_completed(tasks, rows, player) == tasks.len() <==> (forall|i: int|
            0 <= i < tasks.len() ==> task_done(rows, player, (#[trigger] tasks[i]).task_id@).1),
        0 <= tasks_completed(tasks, rows, player) <= tasks.len(),
    decreases tasks.len(),
{
    completed_within(tasks, rows, player);
    if tasks.len() > 0 {
        let t = tasks.drop_last();
        completed_within(t, rows, player);
        completed_means_all_tasks(t, rows, player);
        if forall|i: int|
            0 <= i < tasks.len() ==> task_done(rows, player, (#[trigger] tasks[i]).task_id@).1 {
            assert forall|i: int| 0 <= i < t.len() implies task_done(
                rows,
                player,
                (#[trigger] t[i]).task_id@,
            ).1 by {
                assert(tasks[i] == t[i]);
            }
            assert(task_done(rows, player, tasks[tasks.len() - 1].task_id@).1);
        }
        if tasks_completed(tasks, rows, player) == tasks.len() {
            assert forall|i: int| 0 <= i < tasks.len() implies task_done(
                rows,
                player,
                (#[trigger] tasks[i]).task_id@,
            ).1 by {
                if i < t.len() {
                    assert(t[i] == tasks[i]);
                }
            }
        }
    }
}

// ---------------------------------------------------------------------------
// Transactions
// ---------------------------------------------------------------------------

/// A row of a transaction. Lists of elements are given as elements.
#[derive(Debug)]
pub struct TransactionRow {
    pub transaction_hash: String,
    pub sender_address: String,
    pub calldata: Vec<Felt>,
    pub max_fee: String,
    pub signature: Vec<Felt>,
    pub nonce: String,
    pub block_number: u64,
    pub transaction_type: String,
    pub executed_at: String,
}

/// A row of a call of a transaction.
#[derive(Debug)]
pub struct CallRow {
    pub contract_address: String,
    pub entrypoint: String,
    pub calldata: Vec<Felt>,
    /// The kind of call, if the text of the row names one.
    pub call_type: Option<String>,
    pub caller_address: String,
}

/// A call of a transaction.
#[derive(Debug)]
pub struct TransactionCall {
    pub contract_address: Felt,
    pub entrypoint: String,
    pub calldata: Vec<Felt>,
    pub call_type: String,
    pub caller_address: Felt,
}

/// A transaction with its calls and the models it touches.
#[derive(Debug)]
pub struct Transaction {
    pub transaction_hash: Felt,
    pub sender_address: Felt,
    pub calldata: Vec<Felt>,
    pub max_fee: Felt,
    pub signature: Vec<Felt>,
    pub nonce: Felt,
    pub block_number: u64,
    pub transaction_type: String,
    pub block_timestamp: String,
    pub calls: Vec<TransactionCall>,
    pub unique_models: Vec<Felt>,
}

/// Whether the element is the one that the text writes.
pub open spec fn felt_is(f: Felt, s: Seq<char>) -> bool {
    f.wf() && felt_parsed(s) == Some(f.value())
}

/// Whether the call is that of the row.
pub open spec fn call_is(c: TransactionCall, row: CallRow) -> bool {
    &&& felt_is(c.contract_address, row.contract_address@)
    &&& c.entrypoint == row.entrypoint
    &&& c.calldata == row.calldata
    &&& row.call_type == Some(c.call_type)
    &&& felt_is(c.caller_address, row.caller_address@)
}

/// Why a call cannot be read, if it cannot: its contract, its kind and its caller are read in turn.
pub open spec fn call_error(row: CallRow) -> Option<RowError> {
    if felt_parsed(row.contract_address@) is None {
        Some(RowError::Felt)
    } else if row.call_type is None {
        Some(RowError::CallType)
    } else if felt_parsed(row.caller_address@) is None {
        Some(RowError::Felt)
    } else {
        None
    }
}

/// The calls of the rows, one for one, or why the first that cannot be read cannot be.
pub fn transaction_calls(rows: Vec<CallRow>) -> (r: Result<Vec<TransactionCall>, RowError>)
    ensures
        match r {
            Ok(v) => v@.len() == rows@.len() && (forall|i: int|
                0 <= i < v@.len() ==> call_is(#[trigger] v@[i], rows@[i])) && (forall|i: int|
                0 <= i < v@.len() ==> call_error(#[trigger] rows@[i]) is None),
            Err(e) => exists|i: int|
                0 <= i < rows@.len() && call_error(#[trigger] rows@[i]) == Some(e) && forall|j: int|
                    0 <= j < i ==> call_error(#[trigger] rows@[j]) is None,
        },
{
    let ghost all = rows@;
    let mut rest = rows;
    let mut out: Vec<TransactionCall> = Vec::new();
    proof {
        assert(all.skip(0) =~= all);
    }
    while rest.len() > 0
        invariant
            all == rows@,
            out@.len() <= all.len(),
            rest@ == all.skip(out@.len() as int),
            forall|i: int| 0 <= i < out@.len() ==> call_is(#[trigger] out@[i], all[i]),
            forall|i: int| 0 <= i < out@.len() ==> call_error(#[trigger] all[i]) is None,
        decreases rest@.len(),
    {
        let ghost n = out@.len() as int;
        let row = rest.remove(0);
        proof {
            assert(row == all[n]);
            assert(rest@ =~= all.skip(n + 1));
        }
        let contract_address = match Felt::from_str(&row.contract_address) {
            Some(f) => f,
            None => {
                proof {
                    assert(call_error(all[n]) == Some(RowError::Felt));
                }
                return Err(RowError::Felt);
            },
        };
        let call_type = match row.call_type {
            Some(t) => t,
            None => {
                proof {
                    assert(call_error(all[n]) == Some(RowError::CallType));
                }
                return Err(RowError::CallType);
            },
        };
        let caller_address = match Felt::from_str(&row.caller_address) {
            Some(f) => f,
            None => {
                proof {
                    assert(call_error(all[n]) == Some(RowError::Felt));
                }
                return Err(RowError::Felt);
            },
        };
        out.push(
            TransactionCall {
                contract_address,
                entrypoint: row.entrypoint,
                calldata: row.calldata,
                call_type,
                caller_address,
            },
        );
    }
    proof {
        assert(out@.len() == all.len());
    }
    Ok(out)
}

/// The models that the texts name, one for one.
pub fn transaction_models(ids: &Vec<String>) -> (r: Result<Vec<Felt>, RowError>)
    ensures
        match r {
            Ok(v) => v@.len() == ids@.len() && forall|i: int|
                0 <= i < v@.len() ==> felt_is(#[trigger] v@[i], ids@[i]@),
            Err(e) => e == RowError::Felt && exists|i: int|
                0 <= i < ids@.len() && felt_parsed((#[trigger] ids@[i])@) is None,
        },
{
    let mut out: Vec<Felt> = Vec::new();
    let mut i: usize = 0;
    while i < ids.len()
        invariant
            i <= ids@.len(),
            out@.len() == i,
            forall|k: int| 0 <= k < i ==> felt_is(#[trigger] out@[k], ids@[k]@),
        decreases ids@.len() - i,
    {
        match Felt::from_str(&ids[i]) {
            Some(f) => {
                out.push(f);
            },
            None => {
                return Err(RowError::Felt);
            },
        }
        i = i + 1;
    }
    Ok(out)
}

/// Whether the texts of a transaction are elements.
pub open spec fn transaction_readable(row: TransactionRow) -> bool {
    felt_parsed(row.transaction_hash@) is Some && felt_parsed(row.sender_address@) is Some
        && felt_parsed(row.max_fee@) is Some && felt_parsed(row.nonce@) is Some
}

/// The transaction of a row, with its calls and models.
pub fn transaction_of(
    row: TransactionRow,
    calls: Vec<TransactionCall>,
    unique_models: Vec<Felt>,
) -> (r: Result<Transaction, RowError>)
    ensures
        match r {
            Ok(t) => {
                &&& felt_is(t.transaction_hash, row.transaction_hash@)
                &&& felt_is(t.sender_address, row.sender_address@)
                &&& t.calldata == row.calldata
                &&& felt_is(t.max_fee, row.max_fee@)
                &&& t.signature == row.signature
                &&& felt_is(t.nonce, row.nonce@)
                &&& t.block_number == row.block_number
                &&& t.transaction_type == row.transaction_type
                &&& t.block_timestamp == row.executed_at
                &&& t.calls == calls
                &&& t.unique_models == unique_models
            },
            Err(e) => !transaction_readable(row) && e == RowError::Felt,
        },
{
    match (
        Felt::from_str(&row.transaction_hash),
        Felt::from_str(&row.sender_address),
        Felt::from_str(&row.max_fee),
        Felt::from_str(&row.nonce),
    ) {
        (Some(transaction_hash), Some(sender_address), Some(max_fee), Some(nonce)) => Ok(
            Transaction {
                transaction_hash,
                sender_address,
                calldata: row.calldata,
                max_fee,
                signature: row.signature,
                nonce,
                block_number: row.block_number,
                transaction_type: row.transaction_type,
                block_timestamp: row.executed_at,
                calls,
                unique_models,
            },
        ),
        _ => Err(RowError::Felt),
    }
}

} // verus!
