//! How the texts of options are read, and how threads, contracts and settings follow from them.
use vstd::prelude::*;
use vstd::string::*;
use crate::digits::{digits_of, signed_text};
use crate::felt::felt_from_hex;
use crate::launch::{allocation_of, database_path};
use crate::naming::model_selector;
use crate::options::{
    aggregation_view, contract_type_named, field_aggregation, hook_error, hook_name, hook_tag,
    keepalive, order_named, simple_aggregation, Aggregation, ContractType, HookEvent, OptionError,
    ServerOptions, SnapshotOptions, SortOrder, SqlOptions,
};
use crate::runner::{
    addresses_in, contracts_of, default_excluded, endpoint, pragmas_of, selectors_of, shares,
    snapshot_planned, strategy_named, tls_paths, with_override, AllocationStrategy, SnapshotPlan,
    ToriiArgs,
};
use crate::text::{has_suffix, listed, lowercase, opt_view, split, split_append, split_single, trim};

verus! {

// ---------------------------------------------------------------------------
// Names
// ---------------------------------------------------------------------------
/// A kind of contract is read from its own name, in any case of its letters, and from no other.
pub proof fn kinds_are_read_by_name(s: Seq<char>)
    ensures
        contract_type_named(s) == Some(ContractType::WORLD) <==> lowercase(s) == "world"@,
        contract_type_named(s) == Some(ContractType::ERC20) <==> lowercase(s) == "erc20"@,
        contract_type_named(s) == Some(ContractType::ERC721) <==> lowercase(s) == "erc721"@,
        contract_type_named(s) == Some(ContractType::ERC1155) <==> lowercase(s) == "erc1155"@,
        contract_type_named(s) == Some(ContractType::UDC) <==> lowercase(s) == "udc"@,
        contract_type_named(s) == Some(ContractType::OTHER) <==> lowercase(s) == "other"@,
{
    reveal_strlit("world");
    reveal_strlit("erc20");
    reveal_strlit("erc721");
    reveal_strlit("erc1155");
    reveal_strlit("udc");
    reveal_strlit("other");
    assert("world"@[0] == 'w' && "other"@[0] == 'o');
    assert("world"@.len() == 5 && "erc20"@.len() == 5 && "erc20"@[0] == 'e');
    assert("erc721"@.len() == 6 && "erc1155"@.len() == 7 && "udc"@.len() == 3);
}

/// A hook runs on the event that its first part names, of the one model that its second part
/// lists, and is refused for another name, another number of models or another number of parts.
pub proof fn hooks_are_read_by_event(part: Seq<char>, e: HookEvent)
    ensures
        hook_name(e) == "model_registered"@ <==> e is ModelRegistered,
        hook_name(e) == "model_updated"@ <==> e is ModelUpdated,
        hook_name(e) == "model_deleted"@ <==> e is ModelDeleted,
        e matches HookEvent::ModelRegistered { model_tag } ==> hook_tag(e) == model_tag@,
        e matches HookEvent::ModelUpdated { model_tag } ==> hook_tag(e) == model_tag@,
        e matches HookEvent::ModelDeleted { model_tag } ==> hook_tag(e) == model_tag@,
        hook_error(part) is None <==> {
            let parts = split(part, ':');
            &&& parts.len() == 3
            &&& listed(parts[1]).len() == 1
            &&& parts[0] == "model_registered"@ || parts[0] == "model_updated"@ || parts[0]
                == "model_deleted"@
        },
        split(part, ':').len() != 3 <==> hook_error(part) == Some(OptionError::HookFormat),
        split(part, ':').len() == 3 && listed(split(part, ':')[1]).len() == 0 <==> hook_error(part)
            == Some(OptionError::HookDataEmpty),
        split(part, ':').len() == 3 && split(part, ':')[0] == "model_updated"@ && listed(
            split(part, ':')[1],
        ).len() > 1 <==> hook_error(part) == Some(OptionError::UpdatedTagCount),
        split(part, ':').len() == 3 && split(part, ':')[0] == "model_deleted"@ && listed(
            split(part, ':')[1],
        ).len() > 1 <==> hook_error(part) == Some(OptionError::DeletedTagCount),
        split(part, ':').len() == 3 && split(part, ':')[0] == "model_registered"@ && listed(
            split(part, ':')[1],
        ).len() > 1 <==> hook_error(part) == Some(OptionError::RegisteredTagCount),
{
    reveal_strlit("model_registered");
    reveal_strlit("model_updated");
    reveal_strlit("model_deleted");
    assert("model_registered"@.len() == 16);
    assert("model_updated"@.len() == 13 && "model_updated"@[6] == 'u');
    assert("model_deleted"@.len() == 13 && "model_deleted"@[6] == 'd');
}

/// The names of the aggregations are unlike.
proof fn aggregation_names_differ()
    ensures
        "max"@ != "min"@,
        "max"@ != "sum"@,
        "max"@ != "avg"@,
        "min"@ != "sum"@,
        "min"@ != "avg"@,
        "sum"@ != "avg"@,
        "count"@.len() == 5,
        "latest"@.len() == 6,
        "max"@.len() == 3,
        "min"@.len() == 3,
        "sum"@.len() == 3,
        "avg"@.len() == 3,
        "average"@.len() == 7,
{
    reveal_strlit("max");
    reveal_strlit("min");
    reveal_strlit("sum");
    reveal_strlit("avg");
    reveal_strlit("average");
    reveal_strlit("count");
    reveal_strlit("latest");
    assert("max"@[0] == 'm' && "max"@[1] == 'a');
    assert("min"@[0] == 'm' && "min"@[1] == 'i');
    assert("sum"@[0] == 's');
    assert("avg"@[0] == 'a');
}

/// A word with a field is the aggregation of that name over that field; a word alone counts, or
/// asks for the latest value of the field of that name.
pub proof fn aggregations_are_read_by_name(word: Seq<char>, field: Seq<char>, a: Aggregation)
    ensures
        field_aggregation(word, field) == Some(aggregation_view(a)) ==> {
            &&& a is Max <==> word == "max"@
            &&& a is Min <==> word == "min"@
            &&& a is Sum <==> word == "sum"@
            &&& a is Avg <==> word == "avg"@ || word == "average"@
            &&& match a {
                Aggregation::Max(f) => f@ == field,
                Aggregation::Min(f) => f@ == field,
                Aggregation::Sum(f) => f@ == field,
                Aggregation::Avg(f) => f@ == field,
                _ => false,
            }
        },
        field_aggregation(word, field) is Some <==> word == "max"@ || word == "min"@ || word
            == "sum"@ || word == "avg"@ || word == "average"@,
        simple_aggregation(word) == aggregation_view(a) ==> {
            &&& a is Count <==> word == "+1"@ || word == "increment"@ || word == "count"@
            &&& a is Count || (a matches Aggregation::Latest(f) && f@ == word)
        },
{
    aggregation_names_differ();
}

/// Each order is read from its own name, and from no other.
pub proof fn orders_are_read_by_name(word: Seq<char>)
    ensures
        order_named(word) == Some(SortOrder::Desc) <==> word == "desc"@,
        order_named(word) == Some(SortOrder::Asc) <==> word == "asc"@,
{
    reveal_strlit("desc");
    reveal_strlit("asc");
    assert("desc"@.len() == 4 && "asc"@.len() == 3);
}

/// Each strategy is read from its own name; all other names ask for the adaptive one.
pub proof fn strategies_are_read_by_name(l: Seq<char>)
    ensures
        strategy_named(l) == AllocationStrategy::QueryPriority <==> l == "query_priority"@,
        strategy_named(l) == AllocationStrategy::IndexerPriority <==> l == "indexer_priority"@,
        strategy_named(l) == AllocationStrategy::Balanced <==> l == "balanced"@,
{
    reveal_strlit("query_priority");
    reveal_strlit("indexer_priority");
    reveal_strlit("balanced");
    assert("query_priority"@.len() == 14);
    assert("indexer_priority"@.len() == 16);
    assert("balanced"@.len() == 8);
}

/// A keep-alive of no seconds is none; any other is kept as it is.
pub proof fn no_seconds_keep_nothing_alive(secs: u64)
    ensures
        keepalive(secs) is None <==> secs == 0,
        keepalive(secs) matches Some(s) ==> s == secs,
{
}

// ---------------------------------------------------------------------------
// Threads
// ---------------------------------------------------------------------------
/// Where there are two threads or more, the side with priority gets seven tenths of them, rounded
/// down, the adaptive strategy gives six tenths to queries, and the other side gets the rest; the
/// balanced strategy gives half to each.
pub proof fn threads_are_shared_by_priority(available: int)
    requires
        available >= 2,
    ensures
        shares(available, AllocationStrategy::QueryPriority).0 * 10 <= available * 7 < shares(
            available,
            AllocationStrategy::QueryPriority,
        ).0 * 10 + 10,
        shares(available, AllocationStrategy::QueryPriority).0 + shares(
            available,
            AllocationStrategy::QueryPriority,
        ).1 == available,
        shares(available, AllocationStrategy::IndexerPriority).0 == shares(
            available,
            AllocationStrategy::QueryPriority,
        ).1,
        shares(available, AllocationStrategy::IndexerPriority).1 == shares(
            available,
            AllocationStrategy::QueryPriority,
        ).0,
        shares(available, AllocationStrategy::Adaptive).0 * 10 <= available * 6 < shares(
            available,
            AllocationStrategy::Adaptive,
        ).0 * 10 + 10,
        shares(available, AllocationStrategy::Adaptive).0 + shares(
            available,
            AllocationStrategy::Adaptive,
        ).1 == available,
        shares(available, AllocationStrategy::Balanced).0 * 2 <= available < shares(
            available,
            AllocationStrategy::Balanced,
        ).0 * 2 + 2,
        shares(available, AllocationStrategy::Balanced).0 == shares(
            available,
            AllocationStrategy::Balanced,
        ).1,
{
}

/// A single thread, or none, is given to both sides.
pub proof fn a_single_thread_serves_both_sides(available: int, strategy: AllocationStrategy)
    requires
        0 <= available <= 1,
    ensures
        shares(available, strategy) == (available, available),
{
}

/// The number of threads that the operator asks for stands before the share, as far as there are
/// processors.
pub proof fn asked_threads_are_given(wanted: int, share: int, cpu_count: int)
    requires
        cpu_count >= 1,
    ensures
        0 < wanted <= cpu_count ==> with_override(wanted, share, cpu_count) == wanted,
        wanted > cpu_count ==> with_override(wanted, share, cpu_count) == cpu_count,
        wanted == 0 && share >= 1 ==> with_override(wanted, share, cpu_count) == share,
        wanted == 0 && share < 1 ==> with_override(wanted, share, cpu_count) == 1,
{
}

/// Of the processors, one is kept back; queries and the indexer get what the operator asks for
/// each of them, or else the share of the strategy named.
pub proof fn runtimes_get_their_threads(args: ToriiArgs, cpu_count: int)
    requires
        cpu_count >= 3,
    ensures
        0 < args.runner.query_threads <= cpu_count ==> allocation_of(args, cpu_count).0
            == args.runner.query_threads,
        0 < args.runner.indexer_threads <= cpu_count ==> allocation_of(args, cpu_count).1
            == args.runner.indexer_threads,
        args.runner.query_threads == 0 && args.runner.indexer_threads == 0 && lowercase(
            args.runner.allocation_strategy@,
        ) != "balanced"@ ==> allocation_of(args, cpu_count).0 + allocation_of(args, cpu_count).1
            == cpu_count - 1,
        args.runner.query_threads == 0 && lowercase(args.runner.allocation_strategy@)
            == "query_priority"@ ==> allocation_of(args, cpu_count).0 == (cpu_count - 1) * 7 / 10,
        args.runner.indexer_threads == 0 && lowercase(args.runner.allocation_strategy@)
            == "indexer_priority"@ ==> allocation_of(args, cpu_count).1 == (cpu_count - 1) * 7 / 10,
        args.runner.query_threads == 0 && lowercase(args.runner.allocation_strategy@)
            == "balanced"@ ==> allocation_of(args, cpu_count).0 == (cpu_count - 1) / 2,
        args.runner.indexer_threads == 0 && lowercase(args.runner.allocation_strategy@)
            == "balanced"@ ==> allocation_of(args, cpu_count).1 == (cpu_count - 1) / 2,
{
    strategies_are_read_by_name(lowercase(args.runner.allocation_strategy@));
    reveal_strlit("query_priority");
    reveal_strlit("indexer_priority");
    reveal_strlit("balanced");
    assert("query_priority"@.len() == 14);
    assert("indexer_priority"@.len() == 16);
    assert("balanced"@.len() == 8);
    threads_are_shared_by_priority(cpu_count - 1);
}

// ---------------------------------------------------------------------------
// Contracts, snapshots and settings
// ---------------------------------------------------------------------------
/// The listed contracts are indexed as they are listed, and after them the world, where one is
/// given, from its first block on.
pub proof fn the_world_is_indexed_last(args: ToriiArgs)
    ensures
        forall|i: int|
            0 <= i < args.indexing.contracts@.len() ==> contracts_of(args)[i]
                == #[trigger] args.indexing.contracts@[i],
        args.world_address is None ==> contracts_of(args).len() == args.indexing.contracts@.len(),
        args.world_address matches Some(a) ==> {
            let n = args.indexing.contracts@.len();
            &&& contracts_of(args).len() == n + 1
            &&& contracts_of(args)[n as int].address == a
            &&& contracts_of(args)[n as int].kind == ContractType::WORLD
            &&& contracts_of(args)[n as int].starting_block is None
        },
{
}

/// A snapshot is got where one is asked for, unless it would take the place of a database that is
/// to be kept; the operator is warned where it is of another version than the program.
pub proof fn snapshots_spare_kept_databases(
    o: SnapshotOptions,
    db_dir: Option<String>,
    database_exists: bool,
    version_spec: Seq<char>,
)
    ensures
        snapshot_planned(o, db_dir, database_exists, version_spec) == SnapshotPlan::Skip <==> o.url
            is None,
        snapshot_planned(o, db_dir, database_exists, version_spec) == SnapshotPlan::Refuse <==> o.url
            is Some && db_dir is Some && database_exists,
        snapshot_planned(o, db_dir, database_exists, version_spec) matches SnapshotPlan::Download {
            version_differs,
        } ==> version_differs == (o.version matches Some(v) && v@ != version_spec),
{
}

/// Whether the settings hold that value under that name.
pub open spec fn sets(p: Seq<(Seq<char>, Seq<char>)>, name: Seq<char>, value: Seq<char>) -> bool {
    exists|i: int| 0 <= i < p.len() && #[trigger] p[i] == (name, value)
}

/// Each setting of the database gets the value of its own option.
pub proof fn settings_get_their_values(o: SqlOptions, cpu_count: nat)
    ensures
        pragmas_of(o, cpu_count).len() == 10,
        sets(pragmas_of(o, cpu_count), "threads"@, digits_of(cpu_count, 10)),
        sets(pragmas_of(o, cpu_count), "cache_size"@, signed_text(o.cache_size as int)),
        sets(pragmas_of(o, cpu_count), "page_size"@, digits_of(o.page_size as nat, 10)),
        sets(
            pragmas_of(o, cpu_count),
            "wal_autocheckpoint"@,
            digits_of(o.wal_autocheckpoint as nat, 10),
        ),
        sets(pragmas_of(o, cpu_count), "busy_timeout"@, digits_of(o.busy_timeout as nat, 10)),
        sets(
            pragmas_of(o, cpu_count),
            "soft_heap_limit"@,
            digits_of(o.soft_memory_limit as nat, 10),
        ),
        sets(
            pragmas_of(o, cpu_count),
            "hard_heap_limit"@,
            digits_of(o.hard_memory_limit as nat, 10),
        ),
        sets(pragmas_of(o, cpu_count), "temp_store"@, o.temp_store@),
        sets(pragmas_of(o, cpu_count), "mmap_size"@, digits_of(o.mmap_size as nat, 10)),
        sets(
            pragmas_of(o, cpu_count),
            "journal_size_limit"@,
            digits_of(o.journal_size_limit as nat, 10),
        ),
{
    let p = pragmas_of(o, cpu_count);
    assert(p[0].0 == "threads"@);
    assert(p[1].0 == "cache_size"@);
    assert(p[2].0 == "page_size"@);
    assert(p[3].0 == "wal_autocheckpoint"@);
    assert(p[4].0 == "busy_timeout"@);
    assert(p[5].0 == "soft_heap_limit"@);
    assert(p[6].0 == "hard_heap_limit"@);
    assert(p[7].0 == "temp_store"@);
    assert(p[8].0 == "mmap_size"@);
    assert(p[9].0 == "journal_size_limit"@);
}

/// A tag of a namespace and a name, around one dash, stands for the selector of that model.
pub proof fn tags_stand_for_models(
    tags: Seq<Seq<char>>,
    i: int,
    namespace: Seq<char>,
    name: Seq<char>,
)
    requires
        0 <= i < tags.len(),
        tags[i] == namespace + seq!['-'] + name,
        !namespace.contains('-'),
        !name.contains('-'),
    ensures
        selectors_of(tags).len() == tags.len(),
        selectors_of(tags)[i] == model_selector(namespace, name),
{
    split_single(namespace, '-');
    split_append(namespace, name, '-');
    assert(split(tags[i], '-') =~= seq![namespace, name]);
}

/// The entries of a list that write an element in hexadecimal, once trimmed, are the addresses that
/// it holds.
pub proof fn lists_hold_the_addresses_they_write(list: Seq<Seq<char>>, v: nat)
    ensures
        addresses_in(list).contains(v) <==> exists|i: int|
            0 <= i < list.len() && felt_from_hex(trim(#[trigger] list[i])) == Some(v),
    decreases list.len(),
{
    if list.len() > 0 {
        let before = list.drop_last();
        lists_hold_the_addresses_they_write(before, v);
        let n = list.len() - 1;
        if exists|i: int|
            0 <= i < before.len() && felt_from_hex(trim(#[trigger] before[i])) == Some(v) {
            let i = choose|i: int|
                0 <= i < before.len() && felt_from_hex(trim(#[trigger] before[i])) == Some(v);
            assert(list[i] == before[i]);
        }
        if exists|i: int| 0 <= i < list.len() && felt_from_hex(trim(#[trigger] list[i])) == Some(v) {
            let i = choose|i: int|
                0 <= i < list.len() && felt_from_hex(trim(#[trigger] list[i])) == Some(v);
            if i < n {
                assert(before[i] == list[i]);
            }
        }
        match felt_from_hex(trim(list[n])) {
            Some(x) => {
                let b = addresses_in(before);
                assert(addresses_in(list) == b.push(x));
                if b.contains(v) {
                    let k = choose|k: int| 0 <= k < b.len() && b[k] == v;
                    assert(b.push(x)[k] == v);
                }
                if x == v {
                    assert(b.push(x)[b.len() as int] == v);
                }
                if b.push(x).contains(v) {
                    let k = choose|k: int| 0 <= k < b.push(x).len() && b.push(x)[k] == v;
                    if k < b.len() {
                        assert(b[k] == v);
                    } else {
                        assert(x == v);
                    }
                }
            },
            None => {},
        }
    }
}

// ---------------------------------------------------------------------------
// Paths and addresses
// ---------------------------------------------------------------------------
/// The database lies in its directory, behind one slash.
pub proof fn databases_lie_in_their_directory(dir: Seq<char>)
    requires
        dir.len() > 0,
        dir.last() != '/',
    ensures
        database_path(dir) == dir + "/torii.db"@,
        database_path(dir + seq!['/']) == dir + "/torii.db"@,
{
    reveal_strlit("/torii.db");
    reveal_strlit("torii.db");
    reveal_strlit("/");
    let with = dir + seq!['/'];
    assert("/"@ =~= seq!['/']);
    assert(with.skip(with.len() - 1) =~= "/"@);
    if has_suffix(dir, "/"@) {
        assert(dir.skip(dir.len() - 1)[0] == dir.last());
        assert(false);
    }
    assert("/"@ + "torii.db"@ =~= "/torii.db"@);
    assert(database_path(dir) =~= dir + "/torii.db"@);
    assert(database_path(with) =~= dir + "/torii.db"@);
}

/// An address of the server has the scheme that the server speaks, its host and the path.
pub proof fn addresses_have_their_scheme(addr: Seq<char>, path: Seq<char>)
    ensures
        endpoint(true, addr, path) == "https://"@ + addr + path,
        endpoint(false, addr, path) == "http://"@ + addr + path,
{
    reveal_strlit("https");
    reveal_strlit("http");
    reveal_strlit("://");
    reveal_strlit("https://");
    reveal_strlit("http://");
    assert("https"@ + "://"@ =~= "https://"@);
    assert("http"@ + "://"@ =~= "http://"@);
}

/// The paths that the operator gives are the ones used; certificates that were made are used only
/// where they were asked for and no path is given, the first of them as the certificate and the
/// second as the key.
pub proof fn given_paths_stand_first(o: ServerOptions, made: Option<(String, String)>)
    ensures
        o.tls_cert_path is Some || o.tls_key_path is Some || !o.mkcert ==> tls_paths(o, made) == (
            opt_view(o.tls_cert_path),
            opt_view(o.tls_key_path),
        ),
        o.tls_cert_path is None && o.tls_key_path is None && o.mkcert ==> match made {
            Some((cert, key)) => tls_paths(o, made) == (Some(cert@), Some(key@)),
            None => tls_paths(o, made).0 is None && tls_paths(o, made).1 is None,
        },
{
}

/// The entry points that count as no activity unless the operator lists others.
pub proof fn routine_calls_are_no_activity()
    ensures
        default_excluded() == seq![
            "execute_from_outside_v3"@,
            "request_random"@,
            "submit_random"@,
            "assert_consumed"@,
            "deployContract"@,
            "set_name"@,
            "register_model"@,
            "entities"@,
            "init_contract"@,
            "upgrade_model"@,
            "emit_events"@,
            "emit_event"@,
            "set_metadata"@,
        ],
{
}

} // verus!
