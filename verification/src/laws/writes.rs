//! What the changes write to the database, column by column, and what they leave out.
use vstd::prelude::*;
use vstd::string::*;
use crate::digits::digits_of;
use crate::felt::Felt;
use crate::ids::{
    hex_field, world_scoped_id, world_scoped_id_parsed, world_scoped_id_round_trip, ScopedIdError,
};
use crate::naming::{model_selector, poseidon};
use crate::options::{Hook, HookEvent};
use crate::schema::TyView;
use crate::sql::builder::ArgumentView;
use crate::sql::writes::{
    delete_entity_steps, hook_runs, hook_steps, metadata_binds, metadata_columns, receipt_binds,
    register_model_steps, set_entity_steps, set_event_message_steps, transaction_binds,
    EntityChange, FeeUnit, FinalityStatus, HookMoment, KindView, ModelRegistration, QueryType,
    ReceiptBlock, ReceiptRecord, SqlConfig, StepView, TransactionRecord,
};
use crate::text::{find_from_first, has_prefix, join, split_once};

verus! {

/// The names of a row.
pub open spec fn names_of(row: Seq<(Seq<char>, ArgumentView)>) -> Seq<Seq<char>> {
    row.map_values(|c: (Seq<char>, ArgumentView)| c.0)
}

/// The values of a row.
pub open spec fn values_of(row: Seq<(Seq<char>, ArgumentView)>) -> Seq<ArgumentView> {
    row.map_values(|c: (Seq<char>, ArgumentView)| c.1)
}

/// Whether the statement inserts the named columns of a row into a table.
pub open spec fn inserts(
    statement: Seq<char>,
    table: Seq<char>,
    row: Seq<(Seq<char>, ArgumentView)>,
) -> bool {
    has_prefix(
        statement,
        "INSERT INTO "@ + table + " ("@ + join(names_of(row), ", "@) + ") VALUES ("@,
    )
}

/// A name is listed after those before it.
proof fn listed_push(names: Seq<Seq<char>>, x: Seq<char>)
    ensures
        join(names.push(x), ", "@) == (if names.len() == 0 {
            x
        } else {
            join(names, ", "@) + ", "@ + x
        }),
{
    assert(names.push(x).drop_last() =~= names);
}

/// The first dash parts a tag.
proof fn tag_parts(namespace: Seq<char>, name: Seq<char>)
    requires
        !namespace.contains('-'),
    ensures
        split_once(namespace + seq!['-'] + name, '-') == Some((namespace, name)),
{
    let s = namespace + seq!['-'] + name;
    let n = namespace.len() as int;
    assert forall|j: int| 0 <= j < n implies s[j] != '-' by {
        assert(namespace[j] == s[j]);
    }
    assert(s[n] == '-');
    find_from_first(s, '-', n);
    assert(s.take(n) =~= namespace);
    assert(s.skip(n + 1) =~= name);
}

/// A model is registered under its world and selector, with its namespace, name, class, contract,
/// layout, schema and sizes in the columns of those names.
pub proof fn models_fill_their_columns(
    c: SqlConfig,
    namespace: Seq<char>,
    name: Seq<char>,
    model: TyView,
    m: ModelRegistration,
    schema_diff: Option<TyView>,
    upgrade_diff: Option<TyView>,
)
    requires
        !namespace.contains('-'),
    ensures
        ({
            let tag = namespace + seq!['-'] + name;
            let steps = register_model_steps(c, tag, model, m, schema_diff, upgrade_diff);
            let row = seq![
                ("id"@, ArgumentView::Text(world_scoped_id(m.world_address.value(), m.selector.value()))),
                ("world_address"@, ArgumentView::FeltText(m.world_address)),
                ("model_selector"@, ArgumentView::FeltText(m.selector)),
                ("namespace"@, ArgumentView::Text(namespace)),
                ("name"@, ArgumentView::Text(name)),
                ("class_hash"@, ArgumentView::FieldElement(m.class_hash)),
                ("contract_address"@, ArgumentView::FieldElement(m.contract_address)),
                ("layout"@, ArgumentView::Text(m.layout_json@)),
                ("legacy_store"@, ArgumentView::Bool(m.legacy_store)),
                ("schema"@, ArgumentView::Text(m.schema_json@)),
                ("packed_size"@, ArgumentView::Int(m.packed_size as int)),
                ("unpacked_size"@, ArgumentView::Int(m.unpacked_size as int)),
                ("executed_at"@, ArgumentView::TimeText(m.block_timestamp as int)),
            ];
            &&& inserts(steps[0]->Query_0, "models"@, row)
            &&& steps[0]->Query_1 == values_of(row)
            &&& steps[1] == StepView::BuildModel(tag, model, schema_diff, upgrade_diff)
        }),
{
    let tag = namespace + seq!['-'] + name;
    let steps = register_model_steps(c, tag, model, m, schema_diff, upgrade_diff);
    let row = seq![
        ("id"@, ArgumentView::Text(world_scoped_id(m.world_address.value(), m.selector.value()))),
        ("world_address"@, ArgumentView::FeltText(m.world_address)),
        ("model_selector"@, ArgumentView::FeltText(m.selector)),
        ("namespace"@, ArgumentView::Text(namespace)),
        ("name"@, ArgumentView::Text(name)),
        ("class_hash"@, ArgumentView::FieldElement(m.class_hash)),
        ("contract_address"@, ArgumentView::FieldElement(m.contract_address)),
        ("layout"@, ArgumentView::Text(m.layout_json@)),
        ("legacy_store"@, ArgumentView::Bool(m.legacy_store)),
        ("schema"@, ArgumentView::Text(m.schema_json@)),
        ("packed_size"@, ArgumentView::Int(m.packed_size as int)),
        ("unpacked_size"@, ArgumentView::Int(m.unpacked_size as int)),
        ("executed_at"@, ArgumentView::TimeText(m.block_timestamp as int)),
    ];
    reveal_strlit("INSERT INTO models (id, world_address, model_selector, namespace, name, class_hash, contract_address, layout, legacy_store, schema, packed_size, unpacked_size, executed_at) VALUES (?, ?, ?, ?, ?, ?, ?, ?, ?, ?, ?, ?, ?) ON CONFLICT(id) DO UPDATE SET world_address=EXCLUDED.world_address, model_selector=EXCLUDED.model_selector, contract_address=EXCLUDED.contract_address, class_hash=EXCLUDED.class_hash, layout=EXCLUDED.layout, legacy_store=EXCLUDED.legacy_store, schema=EXCLUDED.schema, packed_size=EXCLUDED.packed_size, unpacked_size=EXCLUDED.unpacked_size, executed_at=EXCLUDED.executed_at RETURNING *");
    reveal_strlit("INSERT INTO ");
    reveal_strlit(" (");
    reveal_strlit(", ");
    reveal_strlit(") VALUES (");
    reveal_strlit("models");
    reveal_strlit("id");
    reveal_strlit("world_address");
    reveal_strlit("model_selector");
    reveal_strlit("namespace");
    reveal_strlit("name");
    reveal_strlit("class_hash");
    reveal_strlit("contract_address");
    reveal_strlit("layout");
    reveal_strlit("legacy_store");
    reveal_strlit("schema");
    reveal_strlit("packed_size");
    reveal_strlit("unpacked_size");
    reveal_strlit("executed_at");
    tag_parts(namespace, name);
    let n0 = Seq::<Seq<char>>::empty();
    listed_push(n0, "id"@);
    let n1 = n0.push("id"@);
    listed_push(n1, "world_address"@);
    let n2 = n1.push("world_address"@);
    listed_push(n2, "model_selector"@);
    let n3 = n2.push("model_selector"@);
    listed_push(n3, "namespace"@);
    let n4 = n3.push("namespace"@);
    listed_push(n4, "name"@);
    let n5 = n4.push("name"@);
    listed_push(n5, "class_hash"@);
    let n6 = n5.push("class_hash"@);
    listed_push(n6, "contract_address"@);
    let n7 = n6.push("contract_address"@);
    listed_push(n7, "layout"@);
    let n8 = n7.push("layout"@);
    listed_push(n8, "legacy_store"@);
    let n9 = n8.push("legacy_store"@);
    listed_push(n9, "schema"@);
    let n10 = n9.push("schema"@);
    listed_push(n10, "packed_size"@);
    let n11 = n10.push("packed_size"@);
    listed_push(n11, "unpacked_size"@);
    let n12 = n11.push("unpacked_size"@);
    listed_push(n12, "executed_at"@);
    let n13 = n12.push("executed_at"@);
    assert(names_of(row) =~= n13);
    assert(join(n13, ", "@) == "id"@ + ", "@ + "world_address"@ + ", "@ + "model_selector"@ + ", "@ + "namespace"@ + ", "@ + "name"@ + ", "@ + "class_hash"@ + ", "@ + "contract_address"@ + ", "@ + "layout"@ + ", "@ + "legacy_store"@ + ", "@ + "schema"@ + ", "@ + "packed_size"@ + ", "@ + "unpacked_size"@ + ", "@ + "executed_at"@);
    let head = "INSERT INTO "@ + "models"@ + " ("@ + join(names_of(row), ", "@) + ") VALUES ("@;
    let statement = "INSERT INTO models (id, world_address, model_selector, namespace, name, class_hash, contract_address, layout, legacy_store, schema, packed_size, unpacked_size, executed_at) VALUES (?, ?, ?, ?, ?, ?, ?, ?, ?, ?, ?, ?, ?) ON CONFLICT(id) DO UPDATE SET world_address=EXCLUDED.world_address, model_selector=EXCLUDED.model_selector, contract_address=EXCLUDED.contract_address, class_hash=EXCLUDED.class_hash, layout=EXCLUDED.layout, legacy_store=EXCLUDED.legacy_store, schema=EXCLUDED.schema, packed_size=EXCLUDED.packed_size, unpacked_size=EXCLUDED.unpacked_size, executed_at=EXCLUDED.executed_at RETURNING *"@;
    assert(statement.take(head.len() as int) =~= head);
    assert(steps[0]->Query_1 =~= values_of(row));
}

/// An entity without keys is set under its world and identifier, with the event and time in the
/// columns of those names; the address of the world is bound once more.
pub proof fn entities_fill_their_columns(
    c: SqlConfig,
    tag: Seq<char>,
    ty: TyView,
    e: EntityChange,
)
    ensures
        ({
            let steps = set_entity_steps(c, tag, ty, e, None);
            let row = seq![
                ("id"@, ArgumentView::Text(world_scoped_id(e.world_address.value(), e.entity_id.value()))),
                ("world_address"@, ArgumentView::FeltText(e.world_address)),
                ("entity_id"@, ArgumentView::FeltText(e.entity_id)),
                ("event_id"@, ArgumentView::Text(e.event_id@)),
                ("executed_at"@, ArgumentView::TimeText(e.block_timestamp as int)),
            ];
            &&& inserts(steps[0]->Query_0, "entities"@, row)
            &&& steps[0]->Query_1 == values_of(row).push(ArgumentView::FeltText(e.world_address))
        }),
{
    let steps = set_entity_steps(c, tag, ty, e, None);
    let row = seq![
        ("id"@, ArgumentView::Text(world_scoped_id(e.world_address.value(), e.entity_id.value()))),
        ("world_address"@, ArgumentView::FeltText(e.world_address)),
        ("entity_id"@, ArgumentView::FeltText(e.entity_id)),
        ("event_id"@, ArgumentView::Text(e.event_id@)),
        ("executed_at"@, ArgumentView::TimeText(e.block_timestamp as int)),
    ];
    reveal_strlit("INSERT INTO entities (id, world_address, entity_id, event_id, executed_at) VALUES (?, ?, ?, ?, ?) ON CONFLICT(id) DO UPDATE SET world_address=EXCLUDED.world_address, updated_at=CURRENT_TIMESTAMP, entity_id=EXCLUDED.entity_id, executed_at=EXCLUDED.executed_at, event_id=EXCLUDED.event_id RETURNING *");
    reveal_strlit("INSERT INTO ");
    reveal_strlit(" (");
    reveal_strlit(", ");
    reveal_strlit(") VALUES (");
    reveal_strlit("entities");
    reveal_strlit("id");
    reveal_strlit("world_address");
    reveal_strlit("entity_id");
    reveal_strlit("event_id");
    reveal_strlit("executed_at");
    let n0 = Seq::<Seq<char>>::empty();
    listed_push(n0, "id"@);
    let n1 = n0.push("id"@);
    listed_push(n1, "world_address"@);
    let n2 = n1.push("world_address"@);
    listed_push(n2, "entity_id"@);
    let n3 = n2.push("entity_id"@);
    listed_push(n3, "event_id"@);
    let n4 = n3.push("event_id"@);
    listed_push(n4, "executed_at"@);
    let n5 = n4.push("executed_at"@);
    assert(names_of(row) =~= n5);
    assert(join(n5, ", "@) == "id"@ + ", "@ + "world_address"@ + ", "@ + "entity_id"@ + ", "@ + "event_id"@ + ", "@ + "executed_at"@);
    let head = "INSERT INTO "@ + "entities"@ + " ("@ + join(names_of(row), ", "@) + ") VALUES ("@;
    let statement = "INSERT INTO entities (id, world_address, entity_id, event_id, executed_at) VALUES (?, ?, ?, ?, ?) ON CONFLICT(id) DO UPDATE SET world_address=EXCLUDED.world_address, updated_at=CURRENT_TIMESTAMP, entity_id=EXCLUDED.entity_id, executed_at=EXCLUDED.executed_at, event_id=EXCLUDED.event_id RETURNING *"@;
    assert(statement.take(head.len() as int) =~= head);
    assert(steps[0]->Query_1 =~= values_of(row).push(ArgumentView::FeltText(e.world_address)));
}

/// An entity with keys is set as one without, and its keys are in their own column.
pub proof fn keyed_entities_fill_their_columns(
    c: SqlConfig,
    tag: Seq<char>,
    ty: TyView,
    e: EntityChange,
    keys: Seq<Felt>,
)
    ensures
        ({
            let steps = set_entity_steps(c, tag, ty, e, Some(keys));
            let row = seq![
                ("id"@, ArgumentView::Text(world_scoped_id(e.world_address.value(), e.entity_id.value()))),
                ("world_address"@, ArgumentView::FeltText(e.world_address)),
                ("entity_id"@, ArgumentView::FeltText(e.entity_id)),
                ("event_id"@, ArgumentView::Text(e.event_id@)),
                ("executed_at"@, ArgumentView::TimeText(e.block_timestamp as int)),
                ("keys"@, ArgumentView::FeltsText(keys)),
            ];
            &&& inserts(steps[0]->Query_0, "entities"@, row)
            &&& steps[0]->Query_1 == values_of(row).push(ArgumentView::FeltText(e.world_address))
        }),
{
    let steps = set_entity_steps(c, tag, ty, e, Some(keys));
    let row = seq![
        ("id"@, ArgumentView::Text(world_scoped_id(e.world_address.value(), e.entity_id.value()))),
        ("world_address"@, ArgumentView::FeltText(e.world_address)),
        ("entity_id"@, ArgumentView::FeltText(e.entity_id)),
        ("event_id"@, ArgumentView::Text(e.event_id@)),
        ("executed_at"@, ArgumentView::TimeText(e.block_timestamp as int)),
        ("keys"@, ArgumentView::FeltsText(keys)),
    ];
    reveal_strlit("INSERT INTO entities (id, world_address, entity_id, event_id, executed_at, keys) VALUES (?, ?, ?, ?, ?, ?) ON CONFLICT(id) DO UPDATE SET world_address=EXCLUDED.world_address, updated_at=CURRENT_TIMESTAMP, entity_id=EXCLUDED.entity_id, executed_at=EXCLUDED.executed_at, event_id=EXCLUDED.event_id, keys=EXCLUDED.keys RETURNING *");
    reveal_strlit("INSERT INTO ");
    reveal_strlit(" (");
    reveal_strlit(", ");
    reveal_strlit(") VALUES (");
    reveal_strlit("entities");
    reveal_strlit("id");
    reveal_strlit("world_address");
    reveal_strlit("entity_id");
    reveal_strlit("event_id");
    reveal_strlit("executed_at");
    reveal_strlit("keys");
    let n0 = Seq::<Seq<char>>::empty();
    listed_push(n0, "id"@);
    let n1 = n0.push("id"@);
    listed_push(n1, "world_address"@);
    let n2 = n1.push("world_address"@);
    listed_push(n2, "entity_id"@);
    let n3 = n2.push("entity_id"@);
    listed_push(n3, "event_id"@);
    let n4 = n3.push("event_id"@);
    listed_push(n4, "executed_at"@);
    let n5 = n4.push("executed_at"@);
    listed_push(n5, "keys"@);
    let n6 = n5.push("keys"@);
    assert(names_of(row) =~= n6);
    assert(join(n6, ", "@) == "id"@ + ", "@ + "world_address"@ + ", "@ + "entity_id"@ + ", "@ + "event_id"@ + ", "@ + "executed_at"@ + ", "@ + "keys"@);
    let head = "INSERT INTO "@ + "entities"@ + " ("@ + join(names_of(row), ", "@) + ") VALUES ("@;
    let statement = "INSERT INTO entities (id, world_address, entity_id, event_id, executed_at, keys) VALUES (?, ?, ?, ?, ?, ?) ON CONFLICT(id) DO UPDATE SET world_address=EXCLUDED.world_address, updated_at=CURRENT_TIMESTAMP, entity_id=EXCLUDED.entity_id, executed_at=EXCLUDED.executed_at, event_id=EXCLUDED.event_id, keys=EXCLUDED.keys RETURNING *"@;
    assert(statement.take(head.len() as int) =~= head);
    assert(steps[0]->Query_1 =~= values_of(row).push(ArgumentView::FeltText(e.world_address)));
}

/// An entity is linked to its model: the entity in the column of entities, the model in that of
/// models.
pub proof fn entities_are_linked_to_their_models(
    c: SqlConfig,
    tag: Seq<char>,
    ty: TyView,
    e: EntityChange,
    keys: Option<Seq<Felt>>,
)
    ensures
        ({
            let steps = set_entity_steps(c, tag, ty, e, keys);
            let row = seq![
                ("entity_id"@, ArgumentView::Text(world_scoped_id(e.world_address.value(), e.entity_id.value()))),
                ("model_id"@, ArgumentView::Text(world_scoped_id(e.world_address.value(), e.model_selector.value()))),
            ];
            &&& inserts(steps[1]->Query_0, "entity_model"@, row)
            &&& steps[1]->Query_1 == values_of(row)
        }),
{
    let steps = set_entity_steps(c, tag, ty, e, keys);
    let row = seq![
        ("entity_id"@, ArgumentView::Text(world_scoped_id(e.world_address.value(), e.entity_id.value()))),
        ("model_id"@, ArgumentView::Text(world_scoped_id(e.world_address.value(), e.model_selector.value()))),
    ];
    reveal_strlit("INSERT INTO entity_model (entity_id, model_id) VALUES (?, ?) ON CONFLICT(entity_id, model_id) DO NOTHING");
    reveal_strlit("INSERT INTO ");
    reveal_strlit(" (");
    reveal_strlit(", ");
    reveal_strlit(") VALUES (");
    reveal_strlit("entity_model");
    reveal_strlit("entity_id");
    reveal_strlit("model_id");
    let n0 = Seq::<Seq<char>>::empty();
    listed_push(n0, "entity_id"@);
    let n1 = n0.push("entity_id"@);
    listed_push(n1, "model_id"@);
    let n2 = n1.push("model_id"@);
    assert(names_of(row) =~= n2);
    assert(join(n2, ", "@) == "entity_id"@ + ", "@ + "model_id"@);
    let head = "INSERT INTO "@ + "entity_model"@ + " ("@ + join(names_of(row), ", "@) + ") VALUES ("@;
    let statement = "INSERT INTO entity_model (entity_id, model_id) VALUES (?, ?) ON CONFLICT(entity_id, model_id) DO NOTHING"@;
    assert(statement.take(head.len() as int) =~= head);
    assert(steps[1]->Query_1 =~= values_of(row));
}

/// An event message is set under its world and the hash of its keys.
pub proof fn event_messages_fill_their_columns(
    c: SqlConfig,
    tag: Seq<char>,
    ty: TyView,
    world: Felt,
    event_id: Seq<char>,
    time: u64,
    keys: Seq<Felt>,
)
    ensures
        ({
            let steps = set_event_message_steps(c, tag, ty, world, event_id, time, keys);
            let row = seq![
                ("id"@, ArgumentView::Text(world_scoped_id(world.value(), poseidon(keys).value()))),
                ("world_address"@, ArgumentView::FeltText(world)),
                ("entity_id"@, ArgumentView::FeltText(poseidon(keys))),
                ("keys"@, ArgumentView::FeltsText(keys)),
                ("event_id"@, ArgumentView::Text(event_id)),
                ("executed_at"@, ArgumentView::TimeText(time as int)),
            ];
            &&& inserts(steps[0]->Query_0, "event_messages"@, row)
            &&& steps[0]->Query_1 == values_of(row)
        }),
{
    let steps = set_event_message_steps(c, tag, ty, world, event_id, time, keys);
    let row = seq![
        ("id"@, ArgumentView::Text(world_scoped_id(world.value(), poseidon(keys).value()))),
        ("world_address"@, ArgumentView::FeltText(world)),
        ("entity_id"@, ArgumentView::FeltText(poseidon(keys))),
        ("keys"@, ArgumentView::FeltsText(keys)),
        ("event_id"@, ArgumentView::Text(event_id)),
        ("executed_at"@, ArgumentView::TimeText(time as int)),
    ];
    reveal_strlit("INSERT INTO event_messages (id, world_address, entity_id, keys, event_id, executed_at) VALUES (?, ?, ?, ?, ?, ?) ON CONFLICT(id) DO UPDATE SET updated_at=CURRENT_TIMESTAMP, executed_at=EXCLUDED.executed_at, event_id=EXCLUDED.event_id RETURNING *");
    reveal_strlit("INSERT INTO ");
    reveal_strlit(" (");
    reveal_strlit(", ");
    reveal_strlit(") VALUES (");
    reveal_strlit("event_messages");
    reveal_strlit("id");
    reveal_strlit("world_address");
    reveal_strlit("entity_id");
    reveal_strlit("keys");
    reveal_strlit("event_id");
    reveal_strlit("executed_at");
    let n0 = Seq::<Seq<char>>::empty();
    listed_push(n0, "id"@);
    let n1 = n0.push("id"@);
    listed_push(n1, "world_address"@);
    let n2 = n1.push("world_address"@);
    listed_push(n2, "entity_id"@);
    let n3 = n2.push("entity_id"@);
    listed_push(n3, "keys"@);
    let n4 = n3.push("keys"@);
    listed_push(n4, "event_id"@);
    let n5 = n4.push("event_id"@);
    listed_push(n5, "executed_at"@);
    let n6 = n5.push("executed_at"@);
    assert(names_of(row) =~= n6);
    assert(join(n6, ", "@) == "id"@ + ", "@ + "world_address"@ + ", "@ + "entity_id"@ + ", "@ + "keys"@ + ", "@ + "event_id"@ + ", "@ + "executed_at"@);
    let head = "INSERT INTO "@ + "event_messages"@ + " ("@ + join(names_of(row), ", "@) + ") VALUES ("@;
    let statement = "INSERT INTO event_messages (id, world_address, entity_id, keys, event_id, executed_at) VALUES (?, ?, ?, ?, ?, ?) ON CONFLICT(id) DO UPDATE SET updated_at=CURRENT_TIMESTAMP, executed_at=EXCLUDED.executed_at, event_id=EXCLUDED.event_id RETURNING *"@;
    assert(statement.take(head.len() as int) =~= head);
    assert(steps[0]->Query_1 =~= values_of(row));
}

/// A stored transaction fills the columns of its fields.
pub proof fn transactions_fill_their_columns(t: TransactionRecord)
    ensures
        ({
            let statement = "INSERT INTO transactions (id, transaction_hash, sender_address, calldata, max_fee, signature, nonce, transaction_type, executed_at, block_number) VALUES (?, ?, ?, ?, ?, ?, ?, ?, ?, ?) ON CONFLICT DO UPDATE SET transaction_hash=excluded.transaction_hash RETURNING *"@;
            let row = seq![
                ("id"@, ArgumentView::FieldElement(t.transaction_hash)),
                ("transaction_hash"@, ArgumentView::FieldElement(t.transaction_hash)),
                ("sender_address"@, ArgumentView::FieldElement(t.sender_address)),
                ("calldata"@, ArgumentView::FeltsText(t.calldata@)),
                ("max_fee"@, ArgumentView::FieldElement(t.max_fee)),
                ("signature"@, ArgumentView::FeltsText(t.signature@)),
                ("nonce"@, ArgumentView::FieldElement(t.nonce)),
                ("transaction_type"@, ArgumentView::Text(t.transaction_type@)),
                ("executed_at"@, ArgumentView::TimeText(t.block_timestamp as int)),
                ("block_number"@, ArgumentView::Text(digits_of(t.block_number as nat, 10))),
            ];
            &&& inserts(statement, "transactions"@, row)
            &&& transaction_binds(t) == values_of(row)
        }),
{
    let row = seq![
        ("id"@, ArgumentView::FieldElement(t.transaction_hash)),
        ("transaction_hash"@, ArgumentView::FieldElement(t.transaction_hash)),
        ("sender_address"@, ArgumentView::FieldElement(t.sender_address)),
        ("calldata"@, ArgumentView::FeltsText(t.calldata@)),
        ("max_fee"@, ArgumentView::FieldElement(t.max_fee)),
        ("signature"@, ArgumentView::FeltsText(t.signature@)),
        ("nonce"@, ArgumentView::FieldElement(t.nonce)),
        ("transaction_type"@, ArgumentView::Text(t.transaction_type@)),
        ("executed_at"@, ArgumentView::TimeText(t.block_timestamp as int)),
        ("block_number"@, ArgumentView::Text(digits_of(t.block_number as nat, 10))),
    ];
    reveal_strlit("INSERT INTO transactions (id, transaction_hash, sender_address, calldata, max_fee, signature, nonce, transaction_type, executed_at, block_number) VALUES (?, ?, ?, ?, ?, ?, ?, ?, ?, ?) ON CONFLICT DO UPDATE SET transaction_hash=excluded.transaction_hash RETURNING *");
    reveal_strlit("INSERT INTO ");
    reveal_strlit(" (");
    reveal_strlit(", ");
    reveal_strlit(") VALUES (");
    reveal_strlit("transactions");
    reveal_strlit("id");
    reveal_strlit("transaction_hash");
    reveal_strlit("sender_address");
    reveal_strlit("calldata");
    reveal_strlit("max_fee");
    reveal_strlit("signature");
    reveal_strlit("nonce");
    reveal_strlit("transaction_type");
    reveal_strlit("executed_at");
    reveal_strlit("block_number");
    let n0 = Seq::<Seq<char>>::empty();
    listed_push(n0, "id"@);
    let n1 = n0.push("id"@);
    listed_push(n1, "transaction_hash"@);
    let n2 = n1.push("transaction_hash"@);
    listed_push(n2, "sender_address"@);
    let n3 = n2.push("sender_address"@);
    listed_push(n3, "calldata"@);
    let n4 = n3.push("calldata"@);
    listed_push(n4, "max_fee"@);
    let n5 = n4.push("max_fee"@);
    listed_push(n5, "signature"@);
    let n6 = n5.push("signature"@);
    listed_push(n6, "nonce"@);
    let n7 = n6.push("nonce"@);
    listed_push(n7, "transaction_type"@);
    let n8 = n7.push("transaction_type"@);
    listed_push(n8, "executed_at"@);
    let n9 = n8.push("executed_at"@);
    listed_push(n9, "block_number"@);
    let n10 = n9.push("block_number"@);
    assert(names_of(row) =~= n10);
    assert(join(n10, ", "@) == "id"@ + ", "@ + "transaction_hash"@ + ", "@ + "sender_address"@ + ", "@ + "calldata"@ + ", "@ + "max_fee"@ + ", "@ + "signature"@ + ", "@ + "nonce"@ + ", "@ + "transaction_type"@ + ", "@ + "executed_at"@ + ", "@ + "block_number"@);
    let head = "INSERT INTO "@ + "transactions"@ + " ("@ + join(names_of(row), ", "@) + ") VALUES ("@;
    let statement = "INSERT INTO transactions (id, transaction_hash, sender_address, calldata, max_fee, signature, nonce, transaction_type, executed_at, block_number) VALUES (?, ?, ?, ?, ?, ?, ?, ?, ?, ?) ON CONFLICT DO UPDATE SET transaction_hash=excluded.transaction_hash RETURNING *"@;
    assert(statement.take(head.len() as int) =~= head);
    assert(transaction_binds(t) =~= values_of(row));
}

/// A stored receipt fills the columns of its fields: a reverted transaction is told with its
/// reason, and a block that is not confirmed without its hash.
pub proof fn receipts_fill_their_columns(t: ReceiptRecord)
    ensures
        ({
            let statement = "INSERT INTO transaction_receipts (id, transaction_hash, actual_fee_amount, actual_fee_unit, execution_status, finality_status, revert_reason, execution_resources, block_hash, block_number, block_timestamp) VALUES (?, ?, ?, ?, ?, ?, ?, ?, ?, ?, ?) ON CONFLICT(transaction_hash) DO UPDATE SET actual_fee_amount=excluded.actual_fee_amount, actual_fee_unit=excluded.actual_fee_unit, execution_status=excluded.execution_status, finality_status=excluded.finality_status, revert_reason=excluded.revert_reason, execution_resources=excluded.execution_resources, block_hash=excluded.block_hash, block_number=excluded.block_number, block_timestamp=excluded.block_timestamp RETURNING *"@;
            let row = seq![
                ("id"@, ArgumentView::FieldElement(t.transaction_hash)),
                ("transaction_hash"@, ArgumentView::FieldElement(t.transaction_hash)),
                ("actual_fee_amount"@, ArgumentView::Text(hex_field(t.fee_amount.value(), 0))),
                ("actual_fee_unit"@, ArgumentView::Text(match t.fee_unit { FeeUnit::Wei => "Wei"@, FeeUnit::Fri => "Fri"@ })),
                ("execution_status"@, ArgumentView::Text(if t.reverted is Some { "REVERTED"@ } else { "SUCCEEDED"@ })),
                ("finality_status"@, ArgumentView::Text(match t.finality_status { FinalityStatus::PreConfirmed => "PreConfirmed"@, FinalityStatus::AcceptedOnL2 => "AcceptedOnL2"@, FinalityStatus::AcceptedOnL1 => "AcceptedOnL1"@ })),
                ("revert_reason"@, ArgumentView::Text(match t.reverted { Some(s) => s@, None => ""@ })),
                ("execution_resources"@, ArgumentView::Text(t.execution_resources_json@)),
                ("block_hash"@, ArgumentView::Text(match t.block { ReceiptBlock::Block { block_hash, .. } => hex_field(block_hash.value(), 0), ReceiptBlock::PreConfirmed { .. } => ""@ })),
                ("block_number"@, ArgumentView::Text(digits_of(match t.block { ReceiptBlock::Block { block_number, .. } => block_number as nat, ReceiptBlock::PreConfirmed { block_number } => block_number as nat }, 10))),
                ("block_timestamp"@, ArgumentView::Text(digits_of(t.block_timestamp as nat, 10))),
            ];
            &&& inserts(statement, "transaction_receipts"@, row)
            &&& receipt_binds(t) == values_of(row)
        }),
{
    let row = seq![
        ("id"@, ArgumentView::FieldElement(t.transaction_hash)),
        ("transaction_hash"@, ArgumentView::FieldElement(t.transaction_hash)),
        ("actual_fee_amount"@, ArgumentView::Text(hex_field(t.fee_amount.value(), 0))),
        ("actual_fee_unit"@, ArgumentView::Text(match t.fee_unit { FeeUnit::Wei => "Wei"@, FeeUnit::Fri => "Fri"@ })),
        ("execution_status"@, ArgumentView::Text(if t.reverted is Some { "REVERTED"@ } else { "SUCCEEDED"@ })),
        ("finality_status"@, ArgumentView::Text(match t.finality_status { FinalityStatus::PreConfirmed => "PreConfirmed"@, FinalityStatus::AcceptedOnL2 => "AcceptedOnL2"@, FinalityStatus::AcceptedOnL1 => "AcceptedOnL1"@ })),
        ("revert_reason"@, ArgumentView::Text(match t.reverted { Some(s) => s@, None => ""@ })),
        ("execution_resources"@, ArgumentView::Text(t.execution_resources_json@)),
        ("block_hash"@, ArgumentView::Text(match t.block { ReceiptBlock::Block { block_hash, .. } => hex_field(block_hash.value(), 0), ReceiptBlock::PreConfirmed { .. } => ""@ })),
        ("block_number"@, ArgumentView::Text(digits_of(match t.block { ReceiptBlock::Block { block_number, .. } => block_number as nat, ReceiptBlock::PreConfirmed { block_number } => block_number as nat }, 10))),
        ("block_timestamp"@, ArgumentView::Text(digits_of(t.block_timestamp as nat, 10))),
    ];
    reveal_strlit("INSERT INTO transaction_receipts (id, transaction_hash, actual_fee_amount, actual_fee_unit, execution_status, finality_status, revert_reason, execution_resources, block_hash, block_number, block_timestamp) VALUES (?, ?, ?, ?, ?, ?, ?, ?, ?, ?, ?) ON CONFLICT(transaction_hash) DO UPDATE SET actual_fee_amount=excluded.actual_fee_amount, actual_fee_unit=excluded.actual_fee_unit, execution_status=excluded.execution_status, finality_status=excluded.finality_status, revert_reason=excluded.revert_reason, execution_resources=excluded.execution_resources, block_hash=excluded.block_hash, block_number=excluded.block_number, block_timestamp=excluded.block_timestamp RETURNING *");
    reveal_strlit("INSERT INTO ");
    reveal_strlit(" (");
    reveal_strlit(", ");
    reveal_strlit(") VALUES (");
    reveal_strlit("transaction_receipts");
    reveal_strlit("id");
    reveal_strlit("transaction_hash");
    reveal_strlit("actual_fee_amount");
    reveal_strlit("actual_fee_unit");
    reveal_strlit("execution_status");
    reveal_strlit("finality_status");
    reveal_strlit("revert_reason");
    reveal_strlit("execution_resources");
    reveal_strlit("block_hash");
    reveal_strlit("block_number");
    reveal_strlit("block_timestamp");
    let n0 = Seq::<Seq<char>>::empty();
    listed_push(n0, "id"@);
    let n1 = n0.push("id"@);
    listed_push(n1, "transaction_hash"@);
    let n2 = n1.push("transaction_hash"@);
    listed_push(n2, "actual_fee_amount"@);
    let n3 = n2.push("actual_fee_amount"@);
    listed_push(n3, "actual_fee_unit"@);
    let n4 = n3.push("actual_fee_unit"@);
    listed_push(n4, "execution_status"@);
    let n5 = n4.push("execution_status"@);
    listed_push(n5, "finality_status"@);
    let n6 = n5.push("finality_status"@);
    listed_push(n6, "revert_reason"@);
    let n7 = n6.push("revert_reason"@);
    listed_push(n7, "execution_resources"@);
    let n8 = n7.push("execution_resources"@);
    listed_push(n8, "block_hash"@);
    let n9 = n8.push("block_hash"@);
    listed_push(n9, "block_number"@);
    let n10 = n9.push("block_number"@);
    listed_push(n10, "block_timestamp"@);
    let n11 = n10.push("block_timestamp"@);
    assert(names_of(row) =~= n11);
    assert(join(n11, ", "@) == "id"@ + ", "@ + "transaction_hash"@ + ", "@ + "actual_fee_amount"@ + ", "@ + "actual_fee_unit"@ + ", "@ + "execution_status"@ + ", "@ + "finality_status"@ + ", "@ + "revert_reason"@ + ", "@ + "execution_resources"@ + ", "@ + "block_hash"@ + ", "@ + "block_number"@ + ", "@ + "block_timestamp"@);
    let head = "INSERT INTO "@ + "transaction_receipts"@ + " ("@ + join(names_of(row), ", "@) + ") VALUES ("@;
    let statement = "INSERT INTO transaction_receipts (id, transaction_hash, actual_fee_amount, actual_fee_unit, execution_status, finality_status, revert_reason, execution_resources, block_hash, block_number, block_timestamp) VALUES (?, ?, ?, ?, ?, ?, ?, ?, ?, ?, ?) ON CONFLICT(transaction_hash) DO UPDATE SET actual_fee_amount=excluded.actual_fee_amount, actual_fee_unit=excluded.actual_fee_unit, execution_status=excluded.execution_status, finality_status=excluded.finality_status, revert_reason=excluded.revert_reason, execution_resources=excluded.execution_resources, block_hash=excluded.block_hash, block_number=excluded.block_number, block_timestamp=excluded.block_timestamp RETURNING *"@;
    assert(statement.take(head.len() as int) =~= head);
    assert(receipt_binds(t) =~= values_of(row));
}

/// What sets an entity tells the storage of it under the identifier it is stored under, and writes
/// the state of its model under the same: it leads back to the world and the entity.
pub proof fn entities_are_set_under_one_identifier(
    c: SqlConfig,
    tag: Seq<char>,
    ty: TyView,
    e: EntityChange,
    keys: Option<Seq<Felt>>,
)
    requires
        e.world_address.wf(),
        e.entity_id.wf(),
        e.model_selector.wf(),
    ensures
        ({
            let steps = set_entity_steps(c, tag, ty, e, keys);
            &&& steps[2] matches StepView::SetEntityModel(table, event_id, id, state, time) && table
                == tag && event_id == e.event_id@ && state == ty && time == e.block_timestamp
                && steps[0]->Query_1[0] == ArgumentView::Text(id) && world_scoped_id_parsed(id) == Ok::<
                (nat, nat),
                ScopedIdError,
            >((e.world_address.value(), e.entity_id.value())) && (
            steps[0]->Query_2 matches KindView::SetEntity(told) && told.entity_id == id
                && world_scoped_id_parsed(told.model_id) == Ok::<(nat, nat), ScopedIdError>(
                (e.world_address.value(), e.model_selector.value()),
            ) && told.event_id == e.event_id@ && told.block_timestamp == e.block_timestamp
                && told.keys == keys && told.ty == ty && (told.is_historical
                <==> exists|i: int|
                0 <= i < c.historical_models@.len() && #[trigger] c.historical_models@[i]
                    == e.model_selector))
        }),
{
    world_scoped_id_round_trip(e.world_address, e.entity_id);
    world_scoped_id_round_trip(e.world_address, e.model_selector);
}

/// A deletion takes away what setting the same entity of the same world wrote: it is bound to the
/// identifier under which the state of the model was written, in the same table, and tells the
/// storage of that entity and model.
pub proof fn deletions_undo_settings(
    c: SqlConfig,
    tag: Seq<char>,
    ty: TyView,
    e: EntityChange,
    keys: Option<Seq<Felt>>,
)
    requires
        e.world_address.wf(),
        e.entity_id.wf(),
        e.model_selector.wf(),
    ensures
        ({
            let set = set_entity_steps(c, tag, ty, e, keys);
            let deleted = delete_entity_steps(c, tag, ty, e);
            &&& deleted[0]->Query_0 == "DELETE FROM ["@ + set[2]->SetEntityModel_0
                + "] WHERE internal_id = ?"@
            &&& deleted[0]->Query_1 == seq![ArgumentView::Text(set[2]->SetEntityModel_2)]
            &&& deleted[0]->Query_2 matches KindView::DeleteEntity(told) && told.entity_id
                == set[2]->SetEntityModel_2 && told.model_id
                == set[0]->Query_2->SetEntity_0.model_id && told.event_id == e.event_id@
                && told.block_timestamp == e.block_timestamp && told.ty == ty
            &&& world_scoped_id_parsed(set[2]->SetEntityModel_2) == Ok::<(nat, nat), ScopedIdError>(
                (e.world_address.value(), e.entity_id.value()),
            )
        }),
{
    world_scoped_id_round_trip(e.world_address, e.entity_id);
}

/// An event message is told and written under the hash of its keys, the state of its model after
/// `event:`; its model is that of the namespace and name of its tag.
pub proof fn event_messages_are_set_under_their_keys(
    c: SqlConfig,
    namespace: Seq<char>,
    name: Seq<char>,
    ty: TyView,
    world: Felt,
    event_id: Seq<char>,
    time: u64,
    keys: Seq<Felt>,
)
    requires
        !namespace.contains('-'),
        world.wf(),
        poseidon(keys).wf(),
        model_selector(namespace, name).wf(),
    ensures
        ({
            let tag = namespace + seq!['-'] + name;
            let steps = set_event_message_steps(c, tag, ty, world, event_id, time, keys);
            &&& steps[0]->Query_2 matches KindView::EventMessage(w, told) && w == world
                && world_scoped_id_parsed(told.entity_id) == Ok::<(nat, nat), ScopedIdError>(
                (world.value(), poseidon(keys).value()),
            ) && world_scoped_id_parsed(told.model_id) == Ok::<(nat, nat), ScopedIdError>(
                (world.value(), model_selector(namespace, name).value()),
            ) && told.event_id == event_id && told.block_timestamp == time && told.keys == Some(keys)
                && told.ty == ty && steps[1] == StepView::SetEntityModel(
                tag,
                event_id,
                "event:"@ + told.entity_id,
                ty,
                time as int,
            ) && steps[0]->Query_1[0] == ArgumentView::Text(told.entity_id) && (told.is_historical
                <==> exists|i: int|
                0 <= i < c.historical_models@.len() && #[trigger] c.historical_models@[i]
                    == model_selector(namespace, name))
        }),
{
    tag_parts(namespace, name);
    world_scoped_id_round_trip(world, poseidon(keys));
    world_scoped_id_round_trip(world, model_selector(namespace, name));
}

/// The statement of a hook, bound to an identifier.
pub open spec fn hook_query(h: Hook, id: Seq<char>) -> StepView {
    StepView::Query(
        h.statement@,
        seq![ArgumentView::Text(id)],
        KindView::Plain(QueryType::Other),
    )
}

/// Whether the steps from a place on are those of the hooks of a list that `runs` picks, and those of
/// no others.
pub open spec fn runs_hooks(
    steps: Seq<StepView>,
    from: int,
    hooks: Seq<Hook>,
    id: Seq<char>,
    runs: spec_fn(Hook) -> bool,
) -> bool {
    &&& forall|i: int|
        0 <= i < hooks.len() && runs(#[trigger] hooks[i]) ==> exists|k: int|
            from <= k < steps.len() && #[trigger] steps[k] == hook_query(hooks[i], id)
    &&& forall|k: int|
        from <= k < steps.len() ==> exists|i: int|
            0 <= i < hooks.len() && runs(#[trigger] hooks[i]) && #[trigger] steps[k] == hook_query(
                hooks[i],
                id,
            )
}

/// The steps of hooks are those of the hooks that run.
proof fn hook_steps_are_of_hooks(
    hooks: Seq<Hook>,
    moment: HookMoment,
    tag: Seq<char>,
    id: Seq<char>,
)
    ensures
        forall|i: int|
            0 <= i < hooks.len() && hook_runs(#[trigger] hooks[i], moment, tag) ==> exists|k: int|
                0 <= k < hook_steps(hooks, moment, tag, id).len() && #[trigger] hook_steps(
                    hooks,
                    moment,
                    tag,
                    id,
                )[k] == hook_query(hooks[i], id),
        forall|k: int|
            0 <= k < hook_steps(hooks, moment, tag, id).len() ==> exists|i: int|
                0 <= i < hooks.len() && hook_runs(#[trigger] hooks[i], moment, tag)
                    && #[trigger] hook_steps(hooks, moment, tag, id)[k] == hook_query(hooks[i], id),
    decreases hooks.len(),
{
    if hooks.len() > 0 {
        let t = hooks.drop_last();
        hook_steps_are_of_hooks(t, moment, tag, id);
        let before = hook_steps(t, moment, tag, id);
        let after = hook_steps(hooks, moment, tag, id);
        assert forall|i: int|
            0 <= i < hooks.len() && hook_runs(#[trigger] hooks[i], moment, tag) implies exists|k: int|
            0 <= k < after.len() && #[trigger] after[k] == hook_query(hooks[i], id) by {
            if i < t.len() {
                assert(t[i] == hooks[i]);
                let k = choose|k: int|
                    0 <= k < before.len() && #[trigger] before[k] == hook_query(t[i], id);
                assert(after[k] == hook_query(hooks[i], id));
            } else {
                assert(after[before.len() as int] == hook_query(hooks[i], id));
            }
        }
        assert forall|k: int| 0 <= k < after.len() implies exists|i: int|
            0 <= i < hooks.len() && hook_runs(#[trigger] hooks[i], moment, tag)
                && #[trigger] after[k] == hook_query(hooks[i], id) by {
            if k < before.len() {
                assert(before[k] == after[k]);
                let i = choose|i: int|
                    0 <= i < t.len() && hook_runs(#[trigger] t[i], moment, tag) && before[k]
                        == hook_query(t[i], id);
                assert(t[i] == hooks[i]);
                assert(hook_runs(hooks[i], moment, tag));
            } else {
                let i = hooks.len() - 1;
                assert(hook_runs(hooks[i], moment, tag));
            }
        }
    }
}

/// Steps that end with those of hooks run the hooks.
proof fn ends_with_hooks(
    steps: Seq<StepView>,
    first: Seq<StepView>,
    hooks: Seq<Hook>,
    moment: HookMoment,
    tag: Seq<char>,
    id: Seq<char>,
)
    requires
        steps == first + hook_steps(hooks, moment, tag, id),
    ensures
        runs_hooks(steps, first.len() as int, hooks, id, |h: Hook| hook_runs(h, moment, tag)),
{
    hook_steps_are_of_hooks(hooks, moment, tag, id);
    let tail = hook_steps(hooks, moment, tag, id);
    let runs = |h: Hook| hook_runs(h, moment, tag);
    let n = first.len() as int;
    assert forall|i: int| 0 <= i < hooks.len() && runs(#[trigger] hooks[i]) implies exists|k: int|
        n <= k < steps.len() && #[trigger] steps[k] == hook_query(hooks[i], id) by {
        let k = choose|k: int| 0 <= k < tail.len() && #[trigger] tail[k] == hook_query(hooks[i], id);
        assert(steps[n + k] == hook_query(hooks[i], id));
    }
    assert forall|k: int| n <= k < steps.len() implies exists|i: int|
        0 <= i < hooks.len() && runs(#[trigger] hooks[i]) && #[trigger] steps[k] == hook_query(
            hooks[i],
            id,
        ) by {
        assert(tail[k - n] == steps[k]);
        let i = choose|i: int|
            0 <= i < hooks.len() && hook_runs(#[trigger] hooks[i], moment, tag) && tail[k - n]
                == hook_query(hooks[i], id);
        assert(runs(hooks[i]));
    }
}

/// Hooks that ask for the same run the same.
proof fn same_hooks_run(
    steps: Seq<StepView>,
    from: int,
    hooks: Seq<Hook>,
    id: Seq<char>,
    a: spec_fn(Hook) -> bool,
    b: spec_fn(Hook) -> bool,
)
    requires
        runs_hooks(steps, from, hooks, id, a),
        forall|h: Hook| #[trigger] a(h) == b(h),
    ensures
        runs_hooks(steps, from, hooks, id, b),
{
    assert forall|k: int| from <= k < steps.len() implies exists|i: int|
        0 <= i < hooks.len() && b(#[trigger] hooks[i]) && #[trigger] steps[k] == hook_query(
            hooks[i],
            id,
        ) by {
        let i = choose|i: int|
            0 <= i < hooks.len() && a(#[trigger] hooks[i]) && steps[k] == hook_query(hooks[i], id);
        assert(b(hooks[i]));
    }
    assert forall|i: int| 0 <= i < hooks.len() && b(#[trigger] hooks[i]) implies exists|k: int|
        from <= k < steps.len() && #[trigger] steps[k] == hook_query(hooks[i], id) by {
        assert(a(hooks[i]));
    }
}

/// Setting an entity runs the hooks on updates of its model, bound to the entity, and no others.
pub proof fn settings_run_update_hooks(
    c: SqlConfig,
    tag: Seq<char>,
    ty: TyView,
    e: EntityChange,
    keys: Option<Seq<Felt>>,
)
    ensures
        runs_hooks(
            set_entity_steps(c, tag, ty, e, keys),
            3,
            c.hooks@,
            world_scoped_id(e.world_address.value(), e.entity_id.value()),
            |h: Hook| h.event matches HookEvent::ModelUpdated { model_tag } && model_tag@ == tag,
        ),
{
    let id = world_scoped_id(e.world_address.value(), e.entity_id.value());
    let steps = set_entity_steps(c, tag, ty, e, keys);
    let tail = hook_steps(c.hooks@, HookMoment::Updated, tag, id);
    assert(steps =~= steps.take(3) + tail);
    ends_with_hooks(steps, steps.take(3), c.hooks@, HookMoment::Updated, tag, id);
    same_hooks_run(
        steps,
        3,
        c.hooks@,
        id,
        |h: Hook| hook_runs(h, HookMoment::Updated, tag),
        |h: Hook| h.event matches HookEvent::ModelUpdated { model_tag } && model_tag@ == tag,
    );
}

/// Deleting an entity runs the hooks on deletions of its model, bound to the entity, and no others.
pub proof fn deletions_run_deletion_hooks(
    c: SqlConfig,
    tag: Seq<char>,
    ty: TyView,
    e: EntityChange,
)
    ensures
        runs_hooks(
            delete_entity_steps(c, tag, ty, e),
            1,
            c.hooks@,
            world_scoped_id(e.world_address.value(), e.entity_id.value()),
            |h: Hook| h.event matches HookEvent::ModelDeleted { model_tag } && model_tag@ == tag,
        ),
{
    let id = world_scoped_id(e.world_address.value(), e.entity_id.value());
    let steps = delete_entity_steps(c, tag, ty, e);
    let tail = hook_steps(c.hooks@, HookMoment::Deleted, tag, id);
    assert(steps =~= steps.take(1) + tail);
    ends_with_hooks(steps, steps.take(1), c.hooks@, HookMoment::Deleted, tag, id);
    same_hooks_run(
        steps,
        1,
        c.hooks@,
        id,
        |h: Hook| hook_runs(h, HookMoment::Deleted, tag),
        |h: Hook| h.event matches HookEvent::ModelDeleted { model_tag } && model_tag@ == tag,
    );
}

/// Registering a model runs the hooks on its registration, bound to the model, and no others.
pub proof fn registrations_run_registration_hooks(
    c: SqlConfig,
    tag: Seq<char>,
    ty: TyView,
    m: ModelRegistration,
    schema_diff: Option<TyView>,
    upgrade_diff: Option<TyView>,
)
    ensures
        runs_hooks(
            register_model_steps(c, tag, ty, m, schema_diff, upgrade_diff),
            2,
            c.hooks@,
            world_scoped_id(m.world_address.value(), m.selector.value()),
            |h: Hook| h.event matches HookEvent::ModelRegistered { model_tag } && model_tag@ == tag,
        ),
{
    let id = world_scoped_id(m.world_address.value(), m.selector.value());
    let steps = register_model_steps(c, tag, ty, m, schema_diff, upgrade_diff);
    let tail = hook_steps(c.hooks@, HookMoment::Registered, tag, id);
    assert(steps =~= steps.take(2) + tail);
    ends_with_hooks(steps, steps.take(2), c.hooks@, HookMoment::Registered, tag, id);
    same_hooks_run(
        steps,
        2,
        c.hooks@,
        id,
        |h: Hook| hook_runs(h, HookMoment::Registered, tag),
        |h: Hook| h.event matches HookEvent::ModelRegistered { model_tag } && model_tag@ == tag,
    );
}

/// Setting an event message runs the hooks on updates of its model, bound to the hash of its keys, and
/// no others.
pub proof fn event_messages_run_update_hooks(
    c: SqlConfig,
    tag: Seq<char>,
    ty: TyView,
    world: Felt,
    event_id: Seq<char>,
    time: u64,
    keys: Seq<Felt>,
)
    ensures
        runs_hooks(
            set_event_message_steps(c, tag, ty, world, event_id, time, keys),
            2,
            c.hooks@,
            world_scoped_id(world.value(), poseidon(keys).value()),
            |h: Hook| h.event matches HookEvent::ModelUpdated { model_tag } && model_tag@ == tag,
        ),
{
    let id = world_scoped_id(world.value(), poseidon(keys).value());
    let steps = set_event_message_steps(c, tag, ty, world, event_id, time, keys);
    let tail = hook_steps(c.hooks@, HookMoment::Updated, tag, id);
    assert(steps =~= steps.take(2) + tail);
    ends_with_hooks(steps, steps.take(2), c.hooks@, HookMoment::Updated, tag, id);
    same_hooks_run(
        steps,
        2,
        c.hooks@,
        id,
        |h: Hook| hook_runs(h, HookMoment::Updated, tag),
        |h: Hook| h.event matches HookEvent::ModelUpdated { model_tag } && model_tag@ == tag,
    );
}

/// An update of metadata binds each value to the column that is set to it, and last the resource;
/// an image that is not given leaves its column.
pub proof fn metadata_columns_get_their_values(
    resource: Felt,
    uri: Seq<char>,
    json: Seq<char>,
    icon: Option<Seq<char>>,
    cover: Option<Seq<char>>,
)
    ensures
        ({
            let columns = metadata_columns(icon is Some, cover is Some);
            let binds = metadata_binds(resource, uri, json, icon, cover);
            &&& columns[0] == "uri=?"@ && binds[0] == ArgumentView::Text(uri)
            &&& columns[1] == "json=?"@ && binds[1] == ArgumentView::Text(json)
            &&& columns[2] == "updated_at=CURRENT_TIMESTAMP"@
            &&& binds.last() == ArgumentView::FieldElement(resource)
            &&& columns.len() == binds.len()
            &&& icon matches Some(i) ==> columns[3] == "icon_img=?"@ && binds[2]
                == ArgumentView::Text(i)
            &&& cover matches Some(x) ==> columns.last() == "cover_img=?"@ && binds[binds.len() - 2]
                == ArgumentView::Text(x)
            &&& columns.len() == 3 + (if icon is Some {
                1int
            } else {
                0
            }) + (if cover is Some {
                1int
            } else {
                0
            })
        }),
{
}

} // verus!
