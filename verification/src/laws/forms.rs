//! How values are written and read: names, numbers, texts, and the parts of options and events.
use vstd::prelude::*;
use vstd::string::*;
use crate::abi::entry_selector;
use crate::cache::Model;
use crate::digits::{
    digit_value, digits_of, digits_write_value, is_digit, parse_of_digits, zero_padded,
};
use crate::engine::model_events;
use crate::felt::{felt_parsed, Felt};
use crate::ids::{hex_field, world_scoped_id};
use crate::laws::edges::spaces_part_words;
use crate::memory::{page_bytes, resident_pages};
use crate::naming::model_selector;
use crate::options::{
    aggregator_error, block_parsed, contract_error, contract_type_named, field_aggregation,
    metadata_updates_wanted, names_address, order_named, ContractType, ErcOptions, OptionError,
};
use crate::processors::{
    deletes, external_kind, key_texts, registers, registration_task, tagged_view, task_number,
    Deleted, EventContext,
};
use crate::runner::{form_encoded, progress_widths};
use crate::schema::{ty_name, ty_names, Primitive, Ty, TyView};
use crate::server::proxy::default_body;
use crate::server::reply::json_text;
use crate::server::static_handler::path_below;
use crate::sql::builder::ArgumentView;
use crate::sql::queries::{request_is, EntityKind, EntityRequest, EntityTable, Query};
use crate::sql::rows::{last_part, second_part};
use crate::sql::writes::{
    delete_entity_steps, entity_told, finality_label, signed_block, unit_label, EntityChange,
    FeeUnit, FinalityStatus, ModelRegistration, SqlConfig, StepView,
};
use crate::subscriptions::matching::{Clause, LogicalOperator};
use crate::text::{
    has_prefix, is_white_space, join, listed, lowercase, replaced, split, split_append,
    split_single, trim, trim_end, trim_start,
};

verus! {

// ---------------------------------------------------------------------------
// Names
// ---------------------------------------------------------------------------
/// A primitive has the name of its type, whatever it holds.
pub proof fn primitives_have_the_names_of_their_types(p: Primitive)
    ensures
        p is I8 ==> p.scalar_name() == "i8"@,
        p is I16 ==> p.scalar_name() == "i16"@,
        p is I32 ==> p.scalar_name() == "i32"@,
        p is I64 ==> p.scalar_name() == "i64"@,
        p is I128 ==> p.scalar_name() == "i128"@,
        p is U8 ==> p.scalar_name() == "u8"@,
        p is U16 ==> p.scalar_name() == "u16"@,
        p is U32 ==> p.scalar_name() == "u32"@,
        p is U64 ==> p.scalar_name() == "u64"@,
        p is U128 ==> p.scalar_name() == "u128"@,
        p is U256 ==> p.scalar_name() == "u256"@,
        p is Bool ==> p.scalar_name() == "bool"@,
        p is Felt252 ==> p.scalar_name() == "felt252"@,
        p is ClassHash ==> p.scalar_name() == "ClassHash"@,
        p is ContractAddress ==> p.scalar_name() == "ContractAddress"@,
        p is EthAddress ==> p.scalar_name() == "EthAddress"@,
{
}

/// Units and states of finality are written by their own names.
pub proof fn receipts_name_units_and_finality(u: FeeUnit, f: FinalityStatus)
    ensures
        u is Wei ==> unit_label(u) == "Wei"@,
        u is Fri ==> unit_label(u) == "Fri"@,
        f is PreConfirmed ==> finality_label(f) == "PreConfirmed"@,
        f is AcceptedOnL2 ==> finality_label(f) == "AcceptedOnL2"@,
        f is AcceptedOnL1 ==> finality_label(f) == "AcceptedOnL1"@,
{
}

/// The events that write models are the three of records, that of members, and the one of event
/// messages.
pub proof fn five_events_write_models(f: Felt)
    ensures
        model_events().contains(f) <==> f == entry_selector("StoreSetRecord"@) || f
            == entry_selector("StoreUpdateRecord"@) || f == entry_selector("StoreDelRecord"@) || f
            == entry_selector("StoreUpdateMember"@) || f == entry_selector("EventEmitted"@),
{
    let m = model_events();
    assert(m[0] == entry_selector("StoreSetRecord"@));
    assert(m[1] == entry_selector("StoreUpdateRecord"@));
    assert(m[2] == entry_selector("StoreDelRecord"@));
    assert(m[3] == entry_selector("StoreUpdateMember"@));
    assert(m[4] == entry_selector("EventEmitted"@));
}

// ---------------------------------------------------------------------------
// Numbers
// ---------------------------------------------------------------------------
/// A block is written as itself where a signed number holds it, else as the signed number of the
/// same bits.
pub proof fn blocks_are_written_by_their_bits(n: u64)
    ensures
        i64::MIN <= signed_block(n) <= i64::MAX,
        n <= i64::MAX ==> signed_block(n) == n,
        n > i64::MAX ==> n - signed_block(n) == 0x1_0000_0000_0000_0000,
{
}

/// The bar fits in the terminal beside its message, which is an eighth of the width; a terminal
/// below eighty columns counts as eighty and one above a hundred and twenty as that.
pub proof fn bars_fit_their_terminal(w: u16)
    ensures
        80 <= w <= 120 ==> progress_widths(Some(w)).1 == w as int / 8,
        80 <= w <= 120 ==> progress_widths(Some(w)).0 == (w - 45 - w as int / 8) * 8 / 10,
        w < 80 ==> progress_widths(Some(w)) == progress_widths(Some(80)),
        w > 120 ==> progress_widths(Some(w)) == progress_widths(Some(120)),
        progress_widths(None) == (40int, 20int),
{
}

/// The number of pages is the second word of what the kernel tells.
pub proof fn the_second_word_tells_the_pages(total: Seq<char>, n: nat)
    requires
        total.len() > 0,
        forall|i: int| 0 <= i < total.len() ==> !is_white_space(#[trigger] total[i]),
        n <= u64::MAX,
    ensures
        resident_pages(total + seq![' '] + digits_of(n, 10)) == Some(n),
{
    let d = digits_of(n, 10);
    parse_of_digits(n, 10, 0);
    digits_write_value(n, 10);
    assert(zero_padded(d, 0) =~= d);
    assert forall|i: int| 0 <= i < d.len() implies !is_white_space(#[trigger] d[i]) by {
        assert(is_digit(d[i], 10));
    }
    spaces_part_words(total, d);
}

/// A page has the bytes that the system tells, where it tells a positive number.
pub proof fn pages_have_the_bytes_told(page_size: i64)
    ensures
        page_size > 0 ==> page_bytes(page_size) == page_size,
        page_size <= 0 ==> page_bytes(page_size) == 4096,
{
}

// ---------------------------------------------------------------------------
// Texts
// ---------------------------------------------------------------------------
/// What is left of a text has no white space at its ends, and a text without any there is left as
/// it is.
pub proof fn trimmed_texts_have_bare_ends(s: Seq<char>)
    ensures
        trim(s).len() > 0 ==> !is_white_space(trim(s)[0]) && !is_white_space(trim(s).last()),
        s.len() > 0 && !is_white_space(s[0]) && !is_white_space(s.last()) ==> trim(s) == s,
{
    start_is_bare(s);
    end_is_bare(trim_start(s));
}

/// A text without white space at its start begins as it did.
proof fn start_is_bare(s: Seq<char>)
    ensures
        trim_start(s).len() > 0 ==> !is_white_space(trim_start(s)[0]),
        s.len() > 0 && !is_white_space(s[0]) ==> trim_start(s) == s,
    decreases s.len(),
{
    if s.len() > 0 && is_white_space(s[0]) {
        start_is_bare(s.skip(1));
    }
}

/// A text without white space at its end ends as it did, and what is left begins as before.
proof fn end_is_bare(s: Seq<char>)
    ensures
        trim_end(s).len() > 0 ==> !is_white_space(trim_end(s).last()) && trim_end(s)[0] == s[0],
        s.len() > 0 && !is_white_space(s.last()) ==> trim_end(s) == s,
    decreases s.len(),
{
    if s.len() > 0 && is_white_space(s.last()) {
        end_is_bare(s.drop_last());
    }
}

/// White space before or after a text changes nothing of what is left.
pub proof fn white_space_around_is_left_out(s: Seq<char>, c: char)
    requires
        is_white_space(c),
    ensures
        trim(seq![c] + s) == trim(s),
        s.len() > 0 && !is_white_space(s[0]) ==> trim(s.push(c)) == trim(s),
{
    assert((seq![c] + s).skip(1) =~= s);
    if s.len() > 0 && !is_white_space(s[0]) {
        assert(s.push(c)[0] == s[0]);
        assert(s.push(c).drop_last() =~= s);
        assert(trim_start(s.push(c)) == s.push(c));
        assert(trim_start(s) == s);
    }
}

/// A part that is found first is replaced, and the rest is read on behind it; a character at which
/// the part does not begin stays.
pub proof fn found_parts_are_replaced(s: Seq<char>, from: Seq<char>, to: Seq<char>)
    requires
        from.len() > 0,
    ensures
        replaced(from + s, from, to) == to + replaced(s, from, to),
        s.len() > 0 && !has_prefix(s, from) ==> replaced(s, from, to) == seq![s[0]] + replaced(
            s.skip(1),
            from,
            to,
        ),
        replaced(Seq::empty(), from, to).len() == 0,
{
    let t = from + s;
    assert(t.take(from.len() as int) =~= from);
    assert(t.skip(from.len() as int) =~= s);
}

/// Bytes are written one after the other: letters, digits and four marks for themselves, a space as
/// a plus sign, any other byte by its two digits.
pub proof fn forms_write_bytes_in_turn(bytes: Seq<u8>, b: u8)
    ensures
        form_encoded(Seq::empty()).len() == 0,
        ({
            let before = form_encoded(bytes);
            let after = form_encoded(bytes.push(b));
            let c = b as char;
            &&& ('a' <= c <= 'z') || ('A' <= c <= 'Z') || ('0' <= c <= '9') || c == '*' || c == '-'
                || c == '.' || c == '_' ==> after == before.push(c)
            &&& c == ' ' ==> after == before.push('+')
            &&& b >= 0x80 || b < 0x20 || c == '%' || c == '&' || c == '=' || c == '+' || c == '/' || c
                == ':' || c == '?' || c == '~' ==> {
                &&& after.len() == before.len() + 3
                &&& after.take(before.len() as int) == before
                &&& after[before.len() as int] == '%'
                &&& digit_value(after[after.len() - 2]) == Some((b / 16) as nat)
                &&& digit_value(after[after.len() - 1]) == Some((b % 16) as nat)
                &&& !('a' <= after[after.len() - 2]) && !('a' <= after[after.len() - 1])
            }
        }),
{
    assert(bytes.push(b).drop_last() =~= bytes);
    let before = form_encoded(bytes);
    let after = form_encoded(bytes.push(b));
    assert(after.take(before.len() as int) =~= before);
    assert(before + seq![b as char] =~= before.push(b as char));
    assert(before + seq!['+'] =~= before.push('+'));
}

// ---------------------------------------------------------------------------
// Options
// ---------------------------------------------------------------------------
/// A contract is refused for the first of its parts that cannot be read, or for their number.
pub proof fn contracts_are_refused_for_what_is_wrong(part: Seq<char>)
    ensures
        ({
            let p = split(part, ':');
            let counted = p.len() == 2 || p.len() == 3;
            let kind = contract_type_named(p[0]) is Some;
            let address = felt_parsed(p[1]) is Some;
            let block = p.len() == 2 || block_parsed(p[2]) is Some;
            &&& contract_error(part) is None <==> counted && kind && address && block
            &&& contract_error(part) == Some(OptionError::ContractFormat) <==> !counted
            &&& contract_error(part) == Some(OptionError::ContractKind) <==> counted && !kind
            &&& contract_error(part) == Some(OptionError::ContractAddress) <==> counted && kind
                && !address
            &&& contract_error(part) == Some(OptionError::ContractBlock) <==> counted && kind && address
                && !block
        }),
{
}

/// A block is any number of 64 bits in decimal.
pub proof fn blocks_are_read_in_decimal(n: nat)
    ensures
        n <= u64::MAX ==> block_parsed(digits_of(n, 10)) == Some(n),
        n > u64::MAX ==> block_parsed(digits_of(n, 10)) is None,
{
    parse_of_digits(n, 10, 0);
    digits_write_value(n, 10);
    assert(zero_padded(digits_of(n, 10), 0) =~= digits_of(n, 10));
}

/// An aggregator is refused for the number of its parts, an unknown aggregation, an unknown order,
/// which stands last, or for want of a field to group by, which stands third.
pub proof fn aggregators_are_refused_for_what_is_wrong(part: Seq<char>)
    ensures
        ({
            let p = split(part, ':');
            let counted = p.len() == 5 || p.len() == 6;
            let known = p.len() == 5 || field_aggregation(lowercase(p[3]), p[4]) is Some;
            let ordered = order_named(lowercase(p[p.len() - 1])) is Some;
            let grouped = listed(p[2]).len() > 0;
            &&& aggregator_error(part) is None <==> counted && known && ordered && grouped
            &&& aggregator_error(part) == Some(OptionError::AggregatorFormat) <==> !counted
            &&& aggregator_error(part) == Some(OptionError::AggregationType) <==> counted && !known
            &&& aggregator_error(part) == Some(OptionError::AggregatorOrder) <==> counted && known
                && !ordered
            &&& aggregator_error(part) == Some(OptionError::GroupByEmpty) <==> counted && known
                && ordered && !grouped
        }),
{
}

// ---------------------------------------------------------------------------
// Events
// ---------------------------------------------------------------------------
/// The storage registers a model with what is known of it.
pub proof fn registrations_hold_their_model(
    m: ModelRegistration,
    model: Model,
    schema_json: Seq<char>,
    time: u64,
)
    requires
        registers(m, model, schema_json, time),
    ensures
        m.world_address == model.world_address,
        m.selector == model.selector,
        m.class_hash == model.class_hash,
        m.contract_address == model.contract_address,
        m.layout_json@ == model.layout_json@,
        m.schema_json@ == schema_json,
        m.packed_size == model.packed_size,
        m.unpacked_size == model.unpacked_size,
        m.legacy_store == model.use_legacy_store,
        m.block_timestamp == time,
{
}

/// A deletion binds the identifier of the entity of its event in the world that sent it, and tells
/// the storage the identifiers of entity and model, the event and its time.
pub proof fn deletions_are_those_of_their_events(
    c: SqlConfig,
    tag: Seq<char>,
    ty: TyView,
    e: EntityChange,
    ctx: EventContext,
    event_id: Seq<char>,
    event: Deleted,
)
    requires
        deletes(e, ctx, event_id, event),
    ensures
        delete_entity_steps(c, tag, ty, e)[0] matches StepView::Query(_, arguments, _) && arguments
            == seq![
            ArgumentView::Text(
                world_scoped_id(ctx.contract_address.value(), event.entity_id.value()),
            ),
        ],
        entity_told(c, ty, e, None).entity_id == world_scoped_id(
            ctx.contract_address.value(),
            event.entity_id.value(),
        ),
        entity_told(c, ty, e, None).model_id == world_scoped_id(
            ctx.contract_address.value(),
            event.selector.value(),
        ),
        entity_told(c, ty, e, None).event_id == event_id,
        entity_told(c, ty, e, None).block_timestamp == ctx.block_timestamp,
        entity_told(c, ty, e, None).is_historical <==> c.historical_models@.contains(
            event.selector,
        ),
{
}

/// A schema is tagged with its namespace before a dash; nothing else of it changes.
pub proof fn schemas_are_tagged_with_their_namespace(schema: TyView, namespace: Seq<char>)
    ensures
        schema matches TyView::Struct(name, members) ==> tagged_view(schema, namespace)
            == TyView::Struct(namespace + "-"@ + name, members),
        !(schema is Struct) ==> tagged_view(schema, namespace) == schema,
{
}

/// An external contract is of the kind that it is named after, and of another kind where its name
/// is that of none.
pub proof fn external_contracts_are_kept_by_kind(name: Seq<char>)
    ensures
        contract_type_named(name) matches Some(k) ==> external_kind(name) == k,
        contract_type_named(name) is None ==> external_kind(name) == ContractType::OTHER,
{
}

/// A model is registered in a task of its world and selector.
pub proof fn registrations_are_numbered_by_model(
    world: Felt,
    namespace: Seq<char>,
    name: Seq<char>,
)
    ensures
        registration_task(world, namespace, name) == task_number(
            seq![world, model_selector(namespace, name)],
        ),
{
}

/// A request for entities asks for all that its query asks, in the table of its kind, with history
/// where the query wants it; a clause that is no composite stands alone in one.
pub proof fn requests_ask_what_their_query_asks<P>(r: EntityRequest<P>, q: Query<P>, kind: EntityKind)
    requires
        request_is(r, q, kind),
    ensures
        kind == EntityKind::Entities && !q.historical ==> r.table == EntityTable::Entities,
        kind == EntityKind::Entities && q.historical ==> r.table == EntityTable::EntitiesHistorical,
        kind == EntityKind::EventMessages && !q.historical ==> r.table == EntityTable::EventMessages,
        kind == EntityKind::EventMessages && q.historical ==> r.table
            == EntityTable::EventMessagesHistorical,
        r.model_relation_table == kind,
        r.entity_relation_column == kind,
        r.pagination == q.pagination,
        r.no_hashed_keys == q.no_hashed_keys,
        r.models == q.models,
        r.historical == q.historical,
        r.world_addresses == q.world_addresses,
        q.clause matches Some(Clause::Composite(c)) ==> r.composite == c,
        q.clause is None ==> r.composite.clauses@.len() == 0,
        q.clause matches Some(c) ==> !(c is Composite) ==> r.composite.clauses@.len() == 1
            && r.composite.clauses@[0] == c && r.composite.operator == LogicalOperator::And,
{
}

/// Compound types are named after their elements: tuples after all of them, arrays after the first.
pub proof fn compounds_are_named_after_their_elements(
    a: Ty,
    b: Ty,
    pair: Vec<Ty>,
    elems: Vec<Ty>,
    size: u32,
)
    requires
        pair@ == seq![a, b],
        elems@.len() > 0,
    ensures
        ty_name(Ty::Tuple(pair)) == "("@ + (ty_name(a) + ", "@ + ty_name(b)) + ")"@,
        ty_name(Ty::Array(elems)) == "Array<"@ + ty_name(elems@[0]) + ">"@,
        ty_name(Ty::FixedSizeArray(elems, size)) == "["@ + ty_name(elems@[0]) + "; "@ + digits_of(
            size as nat,
            10,
        ) + "]"@,
{
    assert(ty_names(pair, 0) == Seq::<Seq<char>>::empty());
    assert(ty_names(pair, 1) == seq![ty_name(a)]) by {
        assert(Seq::<Seq<char>>::empty().push(ty_name(a)) =~= seq![ty_name(a)]);
    }
    let l = ty_names(pair, 2);
    assert(l == seq![ty_name(a)].push(ty_name(b)));
    assert(l.drop_last() =~= seq![ty_name(a)]);
    assert(seq![ty_name(a)].drop_last() =~= Seq::<Seq<char>>::empty());
    assert(join(seq![ty_name(a)], ", "@) == ty_name(a));
    assert(join(l, ", "@) =~= ty_name(a) + ", "@ + ty_name(b));
}

// ---------------------------------------------------------------------------
// Addresses, identifiers and paths
// ---------------------------------------------------------------------------
/// Updates of metadata are wanted of a contract where they are on, no entry of the blacklist names
/// it, and the whitelist is empty or an entry of it does.
pub proof fn updates_are_wanted_of_named_contracts(o: ErcOptions, address: nat, i: int)
    ensures
        !o.metadata_updates ==> !metadata_updates_wanted(o, address),
        0 <= i < o.metadata_update_blacklist@.len() && names_address(
            o.metadata_update_blacklist@[i]@,
            address,
        ) ==> !metadata_updates_wanted(o, address),
        o.metadata_updates && o.metadata_update_blacklist@.len() == 0
            && o.metadata_update_whitelist@.len() == 0 ==> metadata_updates_wanted(o, address),
        o.metadata_updates && o.metadata_update_blacklist@.len() == 0 && 0 <= i
            < o.metadata_update_whitelist@.len() && names_address(
            o.metadata_update_whitelist@[i]@,
            address,
        ) ==> metadata_updates_wanted(o, address),
        o.metadata_update_whitelist@.len() > 0 && (forall|j: int|
            0 <= j < o.metadata_update_whitelist@.len() ==> !names_address(
                (#[trigger] o.metadata_update_whitelist@[j])@,
                address,
            )) ==> !metadata_updates_wanted(o, address),
{
    if 0 <= i < o.metadata_update_blacklist@.len() {
        let e = o.metadata_update_blacklist@[i];
    }
    if 0 <= i < o.metadata_update_whitelist@.len() {
        let e = o.metadata_update_whitelist@[i];
    }
}

/// An entry names the address that it writes in hexadecimal, with `0x` or without.
pub proof fn entries_name_what_they_write(entry: Seq<char>, address: nat)
    ensures
        trim(entry) == seq!['0', 'x'] + digits_of(address, 16) ==> names_address(entry, address),
        trim(entry) == digits_of(address, 16) ==> names_address(entry, address),
{
    assert(zero_padded(digits_of(address, 16), 0) =~= digits_of(address, 16));
}

/// A file lies below its directory, one name after the other.
pub proof fn files_lie_below_their_directory(dir: Seq<char>, a: Seq<char>, b: Seq<char>)
    ensures
        path_below(dir, seq![a]) == dir + "/"@ + a,
        path_below(dir, seq![a, b]) == dir + "/"@ + (a + "/"@ + b),
{
    assert(seq![a].drop_last() =~= Seq::<Seq<char>>::empty());
    assert(join(seq![a], "/"@) =~= a);
    assert(seq![a, b].drop_last() =~= seq![a]);
    assert(join(seq![a, b], "/"@) =~= a + "/"@ + b);
}

/// The keys of an event are written in their order, each in 62 digits.
pub proof fn keys_are_written_in_order(keys: Seq<Felt>, i: int)
    requires
        0 <= i < keys.len(),
    ensures
        key_texts(keys).len() == keys.len(),
        key_texts(keys)[i] == hex_field(keys[i].value(), 62),
{
}

/// Of an identifier of three parts the second is the namespace and the last the entity.
pub proof fn identifiers_tell_namespace_and_entity(a: Seq<char>, b: Seq<char>, c: Seq<char>)
    requires
        !a.contains(':'),
        !b.contains(':'),
        !c.contains(':'),
    ensures
        second_part(a + seq![':'] + b + seq![':'] + c) == b,
        last_part(a + seq![':'] + b + seq![':'] + c) == c,
        second_part(a).len() == 0,
        last_part(a) == a,
{
    split_single(a, ':');
    split_append(a, b, ':');
    split_append(a + seq![':'] + b, c, ':');
}

/// The answer that no handler gives tells the version of the program.
pub proof fn the_last_answer_tells_the_version(version: Seq<char>)
    ensures
        default_body(version) == "{\"service\":\"torii\",\"success\":true,\"version\":"@ + json_text(
            version,
        ) + "}"@,
{
}

} // verus!
