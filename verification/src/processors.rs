//! What is made of the events of worlds and tokens.
use vstd::prelude::*;
use vstd::string::*;
use vstd::bytes::{spec_u128_to_le_bytes, u128_to_le_bytes};
use vstd::std_specs::hash::DefaultHasherAdditionalSpecFns;
use std::collections::hash_map::DefaultHasher;
use std::hash::Hasher;
use crate::cache::Model;
use crate::difference::{
    comparable, difference, elements_wf, holds_new_members, member_named, names_once, opt_ty,
};
use crate::engine::Event;
use crate::felt::Felt;
use crate::ids::{hex_field, padded_felt};
use crate::naming::{compute_selector_from_names, model_selector};
use crate::options::{contract_type_named, ContractType};
use crate::schema::{ty_name, Struct, Ty, TyView};
use crate::sql::errors::StorageError;
use crate::sql::writes::{
    delete_entity, delete_entity_steps, register_model, register_model_steps, step_views,
    EntityChange, ModelRegistration, SqlConfig, Step, StepView,
};
use crate::server::svg::{base64_encode, base64_text};
use crate::text::{concat, has_string, join, join_with, split_once, views};

verus! {

/// Why an event could not be processed.
#[derive(Debug)]
pub enum ProcessorError {
    ModelNotFound(Felt),
    /// The storage could not be read.
    Storage(StorageError),
    /// The contract of a model could not be read.
    ModelRead,
}

/// What is indexed. An empty list stands for all, but in the blacklist and in the historical
/// models, where it stands for none.
#[derive(Debug)]
pub struct EventProcessorConfig {
    pub namespaces: Vec<String>,
    pub strict_model_reader: bool,
    pub historical_models: Vec<Felt>,
    pub max_metadata_tasks: usize,
    pub models: Vec<String>,
    pub external_contracts: bool,
    pub external_contract_whitelist: Vec<String>,
    pub metadata_updates: bool,
    pub metadata_update_whitelist: Vec<Felt>,
    pub metadata_update_blacklist: Vec<Felt>,
    pub metadata_updates_only_at_head: bool,
    pub async_metadata_updates: bool,
}

/// Whether everything is indexed, and no history is kept.
pub open spec fn indexes_all(c: EventProcessorConfig) -> bool {
    &&& c.namespaces@.len() == 0
    &&& !c.strict_model_reader
    &&& c.historical_models@.len() == 0
    &&& c.max_metadata_tasks == 10
    &&& c.models@.len() == 0
    &&& c.external_contracts
    &&& c.external_contract_whitelist@.len() == 0
    &&& c.metadata_updates
    &&& c.metadata_update_whitelist@.len() == 0
    &&& c.metadata_update_blacklist@.len() == 0
    &&& !c.metadata_updates_only_at_head
    &&& !c.async_metadata_updates
}

impl Default for EventProcessorConfig {
    fn default() -> (r: Self)
        ensures
            indexes_all(r),
    {
        EventProcessorConfig {
            namespaces: Vec::new(),
            strict_model_reader: false,
            historical_models: Vec::new(),
            max_metadata_tasks: 10,
            models: Vec::new(),
            external_contracts: true,
            external_contract_whitelist: Vec::new(),
            metadata_updates: true,
            metadata_update_whitelist: Vec::new(),
            metadata_update_blacklist: Vec::new(),
            metadata_updates_only_at_head: false,
            async_metadata_updates: false,
        }
    }
}

/// Whether the namespace is indexed.
pub open spec fn namespace_indexed(c: EventProcessorConfig, namespace: Seq<char>) -> bool {
    c.namespaces@.len() == 0 || views(c.namespaces@).contains(namespace)
}

/// Whether the model is indexed: its namespace is, and the models are not restricted or name it,
/// alone or after its namespace and a dash.
pub open spec fn model_indexed(
    c: EventProcessorConfig,
    namespace: Seq<char>,
    name: Seq<char>,
) -> bool {
    namespace_indexed(c, namespace) && (c.models@.len() == 0 || views(c.models@).contains(name)
        || views(c.models@).contains(namespace + "-"@ + name))
}

/// Whether the external contract is indexed: its namespace is, external contracts are, and the
/// whitelist is empty or names the instance.
pub open spec fn external_indexed(
    c: EventProcessorConfig,
    namespace: Seq<char>,
    instance: Seq<char>,
) -> bool {
    namespace_indexed(c, namespace) && c.external_contracts && (
    c.external_contract_whitelist@.len() == 0 || views(c.external_contract_whitelist@).contains(
        instance,
    ))
}

/// Whether metadata updates of the contract are processed: updates are on, the blacklist does not
/// hold the contract, and the whitelist is empty or holds it.
pub open spec fn updates_processed(c: EventProcessorConfig, address: Felt) -> bool {
    c.metadata_updates && !c.metadata_update_blacklist@.contains(address) && (
    c.metadata_update_whitelist@.len() == 0 || c.metadata_update_whitelist@.contains(address))
}

/// Whether an element stands in the list.
fn has_felt(list: &Vec<Felt>, f: Felt) -> (r: bool)
    ensures
        r == list@.contains(f),
{
    let mut i: usize = 0;
    while i < list.len()
        invariant
            i <= list@.len(),
            forall|k: int| 0 <= k < i ==> list@[k] != f,
        decreases list@.len() - i,
    {
        if list[i] == f {
            return true;
        }
        i = i + 1;
    }
    false
}

impl EventProcessorConfig {
    /// Whether the model is indexed.
    pub fn should_index(&self, namespace: &str, name: &str) -> (r: bool)
        ensures
            r == model_indexed(*self, namespace@, name@),
    {
        (self.namespaces.len() == 0 || has_string(&self.namespaces, namespace)) && (
        self.models.len() == 0 || has_string(&self.models, name) || has_string(
            &self.models,
            &concat(&concat(namespace, "-"), name),
        ))
    }

    /// Whether the history of the model is kept.
    pub fn is_historical(&self, selector: &Felt) -> (r: bool)
        ensures
            r == self.historical_models@.contains(*selector),
    {
        has_felt(&self.historical_models, *selector)
    }

    /// Whether the external contract is indexed.
    pub fn should_index_external_contract(&self, namespace: &str, instance_name: &str) -> (r: bool)
        ensures
            r == external_indexed(*self, namespace@, instance_name@),
    {
        (self.namespaces.len() == 0 || has_string(&self.namespaces, namespace))
            && self.external_contracts && (self.external_contract_whitelist.len() == 0
            || has_string(&self.external_contract_whitelist, instance_name))
    }

    /// Whether metadata updates of the contract are processed.
    pub fn should_process_metadata_updates(&self, contract_address: &Felt) -> (r: bool)
        ensures
            r == updates_processed(*self, *contract_address),
    {
        self.metadata_updates && !has_felt(&self.metadata_update_blacklist, *contract_address) && (
        self.metadata_update_whitelist.len() == 0 || has_felt(
            &self.metadata_update_whitelist,
            *contract_address,
        ))
    }
}

/// A contract on the blacklist is never processed, whatever the whitelist says.
pub proof fn blacklist_takes_precedence(c: EventProcessorConfig, address: Felt)
    requires
        c.metadata_update_blacklist@.contains(address),
    ensures
        !updates_processed(c, address),
{
}

/// What becomes of an event whose model was looked up: the model that was found, or nothing where it
/// may be missing.
pub open spec fn resolved<'a>(
    config: EventProcessorConfig,
    found: Result<Option<&'a Model>, StorageError>,
    selector: Felt,
) -> Result<Option<&'a Model>, ProcessorError> {
    match found {
        Ok(Some(m)) => Ok(Some(m)),
        Ok(None) => if config.namespaces@.len() > 0 {
            Ok(None)
        } else {
            Err(ProcessorError::ModelNotFound(selector))
        },
        Err(e) => Err(ProcessorError::Storage(e)),
    }
}

/// The model that was found, or nothing where it may be missing: only some namespaces are indexed,
/// and the model may be in another. Elsewhere a missing model is an error; a failed look-up always
/// is.
pub fn resolve_model_or_skip<'a>(
    config: &EventProcessorConfig,
    found: Result<Option<&'a Model>, StorageError>,
    selector: Felt,
) -> (r: Result<Option<&'a Model>, ProcessorError>)
    ensures
        r == resolved(*config, found, selector),
{
    match found {
        Ok(Some(m)) => Ok(Some(m)),
        Ok(None) => if config.namespaces.len() > 0 {
            Ok(None)
        } else {
            Err(ProcessorError::ModelNotFound(selector))
        },
        Err(e) => Err(ProcessorError::Storage(e)),
    }
}

/// The keys of an event in hexadecimal of 62 digits.
pub open spec fn key_texts(keys: Seq<Felt>) -> Seq<Seq<char>> {
    keys.map_values(|k: Felt| hex_field(k.value(), 62))
}

/// The keys of an event as one text, separated by commas.
pub fn event_keys_as_string(event: &Event) -> (r: String)
    requires
        forall|i: int| 0 <= i < event.keys@.len() ==> (#[trigger] event.keys@[i]).wf(),
    ensures
        r@ == join(key_texts(event.keys@), ","@),
{
    let mut texts: Vec<String> = Vec::new();
    let mut i: usize = 0;
    while i < event.keys.len()
        invariant
            i <= event.keys@.len(),
            texts@.len() == i,
            forall|k: int| 0 <= k < event.keys@.len() ==> (#[trigger] event.keys@[k]).wf(),
            forall|k: int|
                0 <= k < i ==> (#[trigger] texts@[k])@ == hex_field(event.keys@[k].value(), 62),
        decreases event.keys@.len() - i,
    {
        texts.push(padded_felt(&event.keys[i], 62));
        i = i + 1;
    }
    proof {
        assert(views(texts@) =~= key_texts(event.keys@));
    }
    join_with(&texts, ",")
}

// ---------------------------------------------------------------------------
// Tasks
// ---------------------------------------------------------------------------

/// The number of a task. Tasks of one number are processed one after the other.
pub type TaskId = u64;

/// The bytes of elements, each in two halves.
pub open spec fn element_bytes(f: Seq<Felt>) -> Seq<Seq<u8>>
    decreases f.len(),
{
    if f.len() == 0 {
        Seq::empty()
    } else {
        element_bytes(f.drop_last()).push(spec_u128_to_le_bytes(f.last().hi)).push(
            spec_u128_to_le_bytes(f.last().lo),
        )
    }
}

/// The number that the hasher of the standard library makes of elements.
pub open spec fn task_number(f: Seq<Felt>) -> TaskId {
    DefaultHasher::spec_finish(element_bytes(f))
}

/// The number that the hasher of the standard library makes of elements.
pub fn task_id(elements: &Vec<Felt>) -> (r: TaskId)
    ensures
        r == task_number(elements@),
{
    let mut hasher = DefaultHasher::new();
    let mut i: usize = 0;
    proof {
        assert(elements@.take(0) =~= Seq::<Felt>::empty());
    }
    while i < elements.len()
        invariant
            i <= elements@.len(),
            hasher@ == element_bytes(elements@.take(i as int)),
        decreases elements@.len() - i,
    {
        proof {
            assert(elements@.take(i + 1).drop_last() =~= elements@.take(i as int));
        }
        let hi = u128_to_le_bytes(elements[i].hi);
        let lo = u128_to_le_bytes(elements[i].lo);
        hasher.write(hi.as_slice());
        hasher.write(lo.as_slice());
        i = i + 1;
    }
    proof {
        assert(elements@.take(i as int) =~= elements@);
    }
    hasher.finish()
}

/// The number of the task of a contract and a key.
pub fn task_id_from_address_and_key(address: Felt, key: Felt) -> (r: TaskId)
    ensures
        r == task_number(seq![address, key]),
{
    let v: Vec<Felt> = vec![address, key];
    proof {
        assert(v@ =~= seq![address, key]);
    }
    task_id(&v)
}

/// Which of several events for the same thing are processed.
#[derive(Clone, Copy, Debug, PartialEq, Eq, Structural)]
pub enum IndexingMode {
    /// All of them.
    Historical,
    /// The last of those with that number.
    Latest(u64),
}

// ---------------------------------------------------------------------------
// Models and events
// ---------------------------------------------------------------------------

/// A model, or an event, was registered in a world.
#[derive(Debug)]
pub struct Registered {
    pub namespace: String,
    pub name: String,
    pub address: Felt,
    pub class_hash: Felt,
}

/// Where and when an event happened.
#[derive(Clone, Copy, Debug, PartialEq, Eq, Structural)]
pub struct EventContext {
    pub contract_address: Felt,
    pub block_number: u64,
    pub block_timestamp: u64,
}

/// That the contract of a model is read, at a block where that is asked for.
#[derive(Clone, Copy, Debug, PartialEq, Eq, Structural)]
pub struct ReadModel {
    pub at_block: Option<u64>,
}

/// What the contract of a model tells.
#[derive(Debug)]
pub struct ModelContents {
    pub schema: Ty,
    pub layout_json: String,
    pub packed_size: u32,
    pub unpacked_size: u32,
}

/// Whether the contract of a model stores in the older way.
#[derive(Clone, Copy, Debug, PartialEq, Eq, Structural)]
pub enum LegacyAnswer {
    Known(bool),
    /// The contract does not have the entry point, as those that store in the older way.
    EntrypointNotFound,
    Failed,
}

/// How the contract of a model is read, where the model is indexed.
pub open spec fn read_planned(
    c: EventProcessorConfig,
    namespace: Seq<char>,
    name: Seq<char>,
    block_number: u64,
) -> Option<ReadModel> {
    if model_indexed(c, namespace, name) {
        Some(read_of(c, block_number))
    } else {
        None
    }
}

/// How the contract of a model is read: at the block of the event where reading is strict.
pub open spec fn read_of(c: EventProcessorConfig, block_number: u64) -> ReadModel {
    ReadModel {
        at_block: if c.strict_model_reader {
            Some(block_number)
        } else {
            None
        },
    }
}

/// How the contract of a model is read.
fn plan_read(c: &EventProcessorConfig, block_number: u64) -> (r: ReadModel)
    ensures
        r == read_of(*c, block_number),
{
    ReadModel {
        at_block: if c.strict_model_reader {
            Some(block_number)
        } else {
            None
        },
    }
}

/// Whether the second schema is the first with its namespace before its name.
pub open spec fn tagged(before: Ty, namespace: Seq<char>, after: Ty) -> bool {
    before is Struct && (after matches Ty::Struct(s) && s.name@ == namespace + "-"@
        + before->Struct_0.name@ && s.children == before->Struct_0.children)
}

/// The schema with its namespace before its name.
pub open spec fn tagged_view(schema: TyView, namespace: Seq<char>) -> TyView {
    match schema {
        TyView::Struct(name, members) => TyView::Struct(namespace + "-"@ + name, members),
        other => other,
    }
}

/// The schema with its namespace before its name.
fn tag_schema(schema: Ty, namespace: &str) -> (r: Ty)
    requires
        schema is Struct,
    ensures
        tagged(schema, namespace@, r),
        r.view() == tagged_view(schema.view(), namespace@),
{
    match schema {
        Ty::Struct(s) => Ty::Struct(
            Struct { name: concat(&concat(namespace, "-"), &s.name), children: s.children },
        ),
        other => other,
    }
}

/// Whether the model is that of a registration, with what its contract tells.
pub open spec fn model_is(
    m: Model,
    world: Felt,
    selector: Felt,
    namespace: Seq<char>,
    name: Seq<char>,
    address: Felt,
    class_hash: Felt,
    c: ModelContents,
    legacy: bool,
) -> bool {
    &&& m.world_address == world
    &&& m.selector == selector
    &&& m.namespace@ == namespace
    &&& m.name@ == name
    &&& m.class_hash == class_hash
    &&& m.contract_address == address
    &&& m.packed_size == c.packed_size
    &&& m.unpacked_size == c.unpacked_size
    &&& m.layout_json == c.layout_json
    &&& tagged(c.schema, namespace, m.schema)
    &&& m.use_legacy_store == legacy
}

/// The number of the task that registers a model of a world.
pub open spec fn registration_task(world: Felt, namespace: Seq<char>, name: Seq<char>) -> TaskId {
    task_number(seq![world, model_selector(namespace, name)])
}

/// The numbers of the tasks that a deletion waits for.
pub open spec fn deletion_waits_for(event: Event) -> Seq<TaskId> {
    seq![task_number(seq![event.from_address, event.keys@[1]])]
}

/// Handles the registration of models.
#[derive(Clone, Copy, Debug, PartialEq, Eq, Structural)]
pub struct RegisterModelProcessor;

impl RegisterModelProcessor {
    /// The name of the event.
    pub fn event_key(&self) -> (r: String)
        ensures
            r@ == "ModelRegistered"@,
    {
        "ModelRegistered".to_owned()
    }

    /// Every event of the name is taken.
    pub fn validate(&self, _event: &Event) -> (r: bool)
        ensures
            r,
    {
        true
    }

    /// The number of the task: one for each model of a world.
    pub fn task_identifier(&self, from_address: Felt, event: &Registered) -> (r: TaskId)
        ensures
            r == registration_task(from_address, event.namespace@, event.name@),
    {
        task_id_from_address_and_key(
            from_address,
            compute_selector_from_names(&event.namespace, &event.name),
        )
    }

    /// How the contract of the model is read, where the model is indexed.
    pub fn process(
        &self,
        config: &EventProcessorConfig,
        event: &Registered,
        block_number: u64,
    ) -> (r: Option<ReadModel>)
        ensures
            r == read_planned(*config, event.namespace@, event.name@, block_number),
    {
        if config.should_index(&event.namespace, &event.name) {
            Some(plan_read(config, block_number))
        } else {
            None
        }
    }

    /// The model that is registered in storage and cache, with what its contract told.
    pub fn register(
        &self,
        ctx: &EventContext,
        event: Registered,
        contents: ModelContents,
        legacy: LegacyAnswer,
    ) -> (r: Result<Model, ProcessorError>)
        requires
            contents.schema is Struct,
        ensures
            match legacy {
                LegacyAnswer::Failed => r == Err::<Model, ProcessorError>(
                    ProcessorError::ModelRead,
                ),
                _ => r matches Ok(m) && model_is(
                    m,
                    ctx.contract_address,
                    model_selector(event.namespace@, event.name@),
                    event.namespace@,
                    event.name@,
                    event.address,
                    event.class_hash,
                    contents,
                    legacy != LegacyAnswer::Known(false),
                ),
            },
    {
        let use_legacy_store = match legacy {
            LegacyAnswer::Known(b) => b,
            LegacyAnswer::EntrypointNotFound => true,
            LegacyAnswer::Failed => {
                return Err(ProcessorError::ModelRead);
            },
        };
        let selector = compute_selector_from_names(&event.namespace, &event.name);
        let schema = tag_schema(contents.schema, &event.namespace);
        Ok(
            Model {
                world_address: ctx.contract_address,
                selector,
                namespace: event.namespace,
                name: event.name,
                class_hash: event.class_hash,
                contract_address: event.address,
                packed_size: contents.packed_size,
                unpacked_size: contents.unpacked_size,
                layout_json: contents.layout_json,
                schema,
                use_legacy_store,
            },
        )
    }
}

/// Handles the registration of events.
#[derive(Clone, Copy, Debug, PartialEq, Eq, Structural)]
pub struct RegisterEventProcessor;

impl RegisterEventProcessor {
    /// The name of the event.
    pub fn event_key(&self) -> (r: String)
        ensures
            r@ == "EventRegistered"@,
    {
        "EventRegistered".to_owned()
    }

    /// Every event of the name is taken.
    pub fn validate(&self, _event: &Event) -> (r: bool)
        ensures
            r,
    {
        true
    }

    /// The number of the task: one for each event of a world.
    pub fn task_identifier(&self, from_address: Felt, event: &Registered) -> (r: TaskId)
        ensures
            r == registration_task(from_address, event.namespace@, event.name@),
    {
        task_id_from_address_and_key(
            from_address,
            compute_selector_from_names(&event.namespace, &event.name),
        )
    }

    /// How the contract of the event is read, where the event is indexed.
    pub fn process(
        &self,
        config: &EventProcessorConfig,
        event: &Registered,
        block_number: u64,
    ) -> (r: Option<ReadModel>)
        ensures
            r == read_planned(*config, event.namespace@, event.name@, block_number),
    {
        if config.should_index(&event.namespace, &event.name) {
            Some(plan_read(config, block_number))
        } else {
            None
        }
    }

    /// The event that is registered in storage and cache: without sizes, and stored in the older
    /// way.
    pub fn register(
        &self,
        ctx: &EventContext,
        event: Registered,
        schema: Ty,
        layout_json: String,
    ) -> (r: Model)
        requires
            schema is Struct,
        ensures
            model_is(
                r,
                ctx.contract_address,
                model_selector(event.namespace@, event.name@),
                event.namespace@,
                event.name@,
                event.address,
                event.class_hash,
                ModelContents { schema, layout_json, packed_size: 0, unpacked_size: 0 },
                true,
            ),
    {
        let selector = compute_selector_from_names(&event.namespace, &event.name);
        let schema = tag_schema(schema, &event.namespace);
        Model {
            world_address: ctx.contract_address,
            selector,
            namespace: event.namespace,
            name: event.name,
            class_hash: event.class_hash,
            contract_address: event.address,
            packed_size: 0,
            unpacked_size: 0,
            layout_json,
            schema,
            use_legacy_store: true,
        }
    }
}

/// An event of a world was upgraded.
#[derive(Clone, Copy, Debug, PartialEq, Eq, Structural)]
pub struct Upgraded {
    pub selector: Felt,
    pub address: Felt,
    pub class_hash: Felt,
}

/// Handles the upgrade of events.
#[derive(Clone, Copy, Debug, PartialEq, Eq, Structural)]
pub struct UpgradeEventProcessor;

/// An upgrade that changes a schema.
#[derive(Debug)]
pub struct Upgrade {
    pub model: Model,
    /// What the new schema has that the known one has not.
    pub schema_diff: Ty,
    /// What the known schema has that the new one has not, if it has something.
    pub upgrade_diff: Option<Ty>,
}

/// Whether an upgrade of a model to a schema holds what the new schema has that the known one has
/// not, and what the known one has that the new one has not; there is none where the new schema has
/// nothing of its own. Every new member is among what the new schema has.
pub open spec fn upgrade_is(u: Option<Upgrade>, known: Model, schema: TyView) -> bool {
    let new = tagged_view(schema, known.namespace@);
    let more = match u {
        Some(x) => Some(x.schema_diff.view()),
        None => None,
    };
    &&& more == difference(new, known.schema.view())
    &&& holds_new_members(new, known.schema.view(), more)
    &&& u matches Some(x) ==> opt_ty(x.upgrade_diff) == difference(known.schema.view(), new)
}

/// An upgrade that is made again on the same known schema, as after its changes were taken back,
/// asks for the same columns: every member that the known schema has not is added both times.
pub proof fn upgrades_are_made_again(
    first: Option<Upgrade>,
    again: Option<Upgrade>,
    known: Model,
    schema: TyView,
    i: int,
)
    requires
        upgrade_is(first, known, schema),
        upgrade_is(again, known, schema),
        schema is Struct,
        known.schema is Struct,
        0 <= i < schema->Struct_1.len(),
        member_named(known.schema.view()->Struct_1, schema->Struct_1[i].name) is None,
    ensures
        first is Some,
        again is Some,
        first->0.schema_diff.view() == again->0.schema_diff.view(),
        opt_ty(first->0.upgrade_diff) == opt_ty(again->0.upgrade_diff),
        again->0.schema_diff.view() is Struct,
        again->0.schema_diff.view()->Struct_1.contains(schema->Struct_1[i]),
{
    let new = tagged_view(schema, known.namespace@);
    assert(new->Struct_1[i] == schema->Struct_1[i]);
}

impl UpgradeEventProcessor {
    /// The name of the event.
    pub fn event_key(&self) -> (r: String)
        ensures
            r@ == "EventUpgraded"@,
    {
        "EventUpgraded".to_owned()
    }

    /// Every event of the name is taken.
    pub fn validate(&self, _event: &Event) -> (r: bool)
        ensures
            r,
    {
        true
    }

    /// The number of the task: one for each event of a world, by its selector.
    pub fn task_identifier(&self, event: &Event) -> (r: TaskId)
        requires
            event.keys@.len() >= 2,
        ensures
            r == task_number(seq![event.from_address, event.keys@[1]]),
    {
        task_id_from_address_and_key(event.from_address, event.keys[1])
    }

    /// How the contract of the event is read; nothing where the event is not indexed.
    pub fn process(
        &self,
        config: &EventProcessorConfig,
        found: Result<Option<&Model>, StorageError>,
        event: &Upgraded,
        block_number: u64,
    ) -> (r: Result<Option<ReadModel>, ProcessorError>)
        ensures
            match resolved(*config, found, event.selector) {
                Ok(Some(_)) => r == Ok::<Option<ReadModel>, ProcessorError>(
                    Some(read_of(*config, block_number)),
                ),
                Ok(None) => r == Ok::<Option<ReadModel>, ProcessorError>(None),
                Err(e) => r == Err::<Option<ReadModel>, ProcessorError>(e),
            },
    {
        match resolve_model_or_skip(config, found, event.selector) {
            Ok(Some(_)) => Ok(Some(plan_read(config, block_number))),
            Ok(None) => Ok(None),
            Err(e) => Err(e),
        }
    }

    /// The event that is registered anew; nothing where its schema has nothing that the known one
    /// has not.
    pub fn upgrade(
        &self,
        ctx: &EventContext,
        known: &Model,
        event: &Upgraded,
        schema: Ty,
        layout_json: String,
    ) -> (r: Option<Upgrade>)
        requires
            schema is Struct,
            elements_wf(schema.view()),
            elements_wf(known.schema.view()),
            comparable(schema.view(), known.schema.view()),
            comparable(known.schema.view(), schema.view()),
        ensures
            upgrade_is(r, *known, schema.view()),
            r matches Some(u) ==> model_is(
                u.model,
                ctx.contract_address,
                event.selector,
                known.namespace@,
                known.name@,
                event.address,
                event.class_hash,
                ModelContents { schema, layout_json, packed_size: 0, unpacked_size: 0 },
                true,
            ),
            tagged_view(schema.view(), known.namespace@) == known.schema.view() && names_once(
                known.schema.view(),
            ) ==> r is None,
    {
        let schema = tag_schema(schema, &known.namespace);
        let schema_diff = match schema.diff(&known.schema) {
            Some(d) => d,
            None => {
                return None;
            },
        };
        let upgrade_diff = known.schema.diff(&schema);
        Some(
            Upgrade {
                model: Model {
                    world_address: ctx.contract_address,
                    selector: event.selector,
                    namespace: known.namespace.clone(),
                    name: known.name.clone(),
                    class_hash: event.class_hash,
                    contract_address: event.address,
                    packed_size: 0,
                    unpacked_size: 0,
                    layout_json,
                    schema,
                    use_legacy_store: true,
                },
                schema_diff,
                upgrade_diff,
            },
        )
    }
}

// ---------------------------------------------------------------------------
// What the storage is asked
// ---------------------------------------------------------------------------

/// Whether the registration is that of the model, with its schema in JSON.
pub open spec fn registers(m: ModelRegistration, model: Model, schema_json: Seq<char>, time: u64) -> bool {
    &&& m.world_address == model.world_address
    &&& m.selector == model.selector
    &&& m.class_hash == model.class_hash
    &&& m.contract_address == model.contract_address
    &&& m.layout_json@ == model.layout_json@
    &&& m.schema_json@ == schema_json
    &&& m.packed_size == model.packed_size
    &&& m.unpacked_size == model.unpacked_size
    &&& m.legacy_store == model.use_legacy_store
    &&& m.block_timestamp == time
}

/// Whether the steps register the model, with what is new in its schema and what was there and
/// differs.
pub open spec fn stores_model(
    steps: Seq<StepView>,
    c: SqlConfig,
    model: Model,
    schema_json: Seq<char>,
    time: u64,
    schema_diff: Option<TyView>,
    upgrade_diff: Option<TyView>,
) -> bool {
    exists|m: ModelRegistration| #[trigger]
        registers(m, model, schema_json, time) && steps == register_model_steps(
            c,
            ty_name(model.schema),
            model.schema.view(),
            m,
            schema_diff,
            upgrade_diff,
        )
}

/// The model as the storage registers it.
fn registration_of(model: &Model, schema_json: String, block_timestamp: u64) -> (r: ModelRegistration)
    ensures
        registers(r, *model, schema_json@, block_timestamp),
{
    ModelRegistration {
        world_address: model.world_address,
        selector: model.selector,
        class_hash: model.class_hash,
        contract_address: model.contract_address,
        layout_json: model.layout_json.clone(),
        schema_json,
        packed_size: model.packed_size,
        unpacked_size: model.unpacked_size,
        legacy_store: model.use_legacy_store,
        block_timestamp,
    }
}

/// What the storage is asked when a model or event is registered: its table is made anew.
pub fn store_registration(c: &SqlConfig, model: &Model, schema_json: String, block_timestamp: u64) -> (r:
    Vec<Step>)
    requires
        split_once(ty_name(model.schema), '-') is Some,
        model.world_address.wf(),
        model.selector.wf(),
    ensures
        stores_model(step_views(r@), *c, *model, schema_json@, block_timestamp, None, None),
{
    let m = registration_of(model, schema_json, block_timestamp);
    register_model(c, &model.schema, &m, None, None)
}

impl Upgrade {
    /// What the storage is asked when a model is upgraded: its table gets what is new, and what
    /// differs is altered.
    pub fn store(&self, c: &SqlConfig, schema_json: String, block_timestamp: u64) -> (r: Vec<Step>)
        requires
            split_once(ty_name(self.model.schema), '-') is Some,
            self.model.world_address.wf(),
            self.model.selector.wf(),
        ensures
            stores_model(
                step_views(r@),
                *c,
                self.model,
                schema_json@,
                block_timestamp,
                Some(self.schema_diff.view()),
                opt_ty(self.upgrade_diff),
            ),
    {
        let m = registration_of(&self.model, schema_json, block_timestamp);
        let upgrade_diff = match &self.upgrade_diff {
            Some(t) => Some(t),
            None => None,
        };
        register_model(c, &self.model.schema, &m, Some(&self.schema_diff), upgrade_diff)
    }
}

// ---------------------------------------------------------------------------
// Records
// ---------------------------------------------------------------------------

/// The state of a model of an entity was deleted.
#[derive(Clone, Copy, Debug, PartialEq, Eq, Structural)]
pub struct Deleted {
    pub selector: Felt,
    pub entity_id: Felt,
}

/// Handles the deletion of records.
#[derive(Clone, Copy, Debug, PartialEq, Eq, Structural)]
pub struct StoreDelRecordProcessor;

impl StoreDelRecordProcessor {
    /// The name of the event.
    pub fn event_key(&self) -> (r: String)
        ensures
            r@ == "StoreDelRecord"@,
    {
        "StoreDelRecord".to_owned()
    }

    /// Every event of the name is taken.
    pub fn validate(&self, _event: &Event) -> (r: bool)
        ensures
            r,
    {
        true
    }

    /// The number of the task: one for each model and entity of a world.
    pub fn task_identifier(&self, event: &Event) -> (r: TaskId)
        requires
            event.keys@.len() >= 3,
        ensures
            r == task_number(seq![event.from_address, event.keys@[1], event.keys@[2]]),
    {
        let v: Vec<Felt> = vec![event.from_address, event.keys[1], event.keys[2]];
        proof {
            assert(v@ =~= seq![event.from_address, event.keys@[1], event.keys@[2]]);
        }
        task_id(&v)
    }

    /// The tasks that come first: the registration of the model.
    pub fn task_dependencies(&self, event: &Event) -> (r: Vec<TaskId>)
        requires
            event.keys@.len() >= 2,
        ensures
            r@ == deletion_waits_for(*event),
    {
        let v: Vec<TaskId> = vec![task_id_from_address_and_key(event.from_address, event.keys[1])];
        proof {
            assert(v@ =~= seq![task_number(seq![event.from_address, event.keys@[1]])]);
        }
        v
    }

    /// All deletions where the history of the model is kept, else the last.
    pub fn indexing_mode(&self, event: &Event, config: &EventProcessorConfig) -> (r: IndexingMode)
        requires
            event.keys@.len() >= 2,
        ensures
            r == (if config.historical_models@.contains(event.keys@[1]) {
                IndexingMode::Historical
            } else {
                IndexingMode::Latest(task_number(seq![event.keys@[0]]))
            }),
    {
        if config.is_historical(&event.keys[1]) {
            IndexingMode::Historical
        } else {
            let v: Vec<Felt> = vec![event.keys[0]];
            proof {
                assert(v@ =~= seq![event.keys@[0]]);
            }
            IndexingMode::Latest(task_id(&v))
        }
    }

    /// The model whose state is deleted; nothing where the model is not indexed.
    pub fn process<'a>(
        &self,
        config: &EventProcessorConfig,
        found: Result<Option<&'a Model>, StorageError>,
        event: &Deleted,
    ) -> (r: Result<Option<&'a Model>, ProcessorError>)
        ensures
            r == resolved(*config, found, event.selector),
    {
        resolve_model_or_skip(config, found, event.selector)
    }

    /// What the storage is asked: the state of the model is deleted, with the schema as it is known.
    pub fn store(
        &self,
        c: &SqlConfig,
        ctx: &EventContext,
        event_id: &str,
        known: &Model,
        event: &Deleted,
    ) -> (r: Vec<Step>)
        requires
            ctx.contract_address.wf(),
            event.entity_id.wf(),
            event.selector.wf(),
        ensures
            exists|e: EntityChange| #[trigger]
                deletes(e, *ctx, event_id@, *event) && step_views(r@) == delete_entity_steps(
                    *c,
                    ty_name(known.schema),
                    known.schema.view(),
                    e,
                ),
    {
        let e = EntityChange {
            world_address: ctx.contract_address,
            entity_id: event.entity_id,
            model_selector: event.selector,
            event_id: event_id.to_owned(),
            block_timestamp: ctx.block_timestamp,
        };
        proof {
            assert(deletes(e, *ctx, event_id@, *event));
        }
        delete_entity(c, &known.schema, &e)
    }
}

/// Whether the change is the deletion that an event tells of.
pub open spec fn deletes(e: EntityChange, ctx: EventContext, event_id: Seq<char>, event: Deleted) -> bool {
    &&& e.world_address == ctx.contract_address
    &&& e.entity_id == event.entity_id
    &&& e.model_selector == event.selector
    &&& e.event_id@ == event_id
    &&& e.block_timestamp == ctx.block_timestamp
}

/// A deletion waits for the registration of its model.
pub proof fn deletion_follows_registration(event: Event, namespace: Seq<char>, name: Seq<char>)
    requires
        event.keys@.len() >= 2,
        event.keys@[1] == model_selector(namespace, name),
    ensures
        deletion_waits_for(event).contains(
            registration_task(event.from_address, namespace, name),
        ),
{
    assert(deletion_waits_for(event)[0] == registration_task(event.from_address, namespace, name));
}

// ---------------------------------------------------------------------------
// Contracts and resources
// ---------------------------------------------------------------------------

/// An external contract was registered in a world.
#[derive(Debug)]
pub struct ExternalContract {
    pub namespace: String,
    pub contract_name: String,
    pub instance_name: String,
    pub contract_address: Felt,
    pub block_number: u64,
}

/// A contract to register: its address, its kind, and the block up to which it is indexed.
#[derive(Clone, Copy, Debug, PartialEq, Eq, Structural)]
pub struct ContractRegistration {
    pub address: Felt,
    pub kind: ContractType,
    pub head: u64,
}

/// The kind of an external contract by its name; another where the name is that of none.
pub open spec fn external_kind(name: Seq<char>) -> ContractType {
    match contract_type_named(name) {
        Some(k) => k,
        None => ContractType::OTHER,
    }
}

/// Handles the registration of external contracts.
#[derive(Clone, Copy, Debug, PartialEq, Eq, Structural)]
pub struct RegisterExternalContractProcessor;

impl RegisterExternalContractProcessor {
    /// The name of the event.
    pub fn event_key(&self) -> (r: String)
        ensures
            r@ == "ExternalContractRegistered"@,
    {
        "ExternalContractRegistered".to_owned()
    }

    /// Every event of the name is taken.
    pub fn validate(&self, _event: &Event) -> (r: bool)
        ensures
            r,
    {
        true
    }

    /// The number of the task: one for each world.
    pub fn task_identifier(&self, event: &Event) -> (r: TaskId)
        ensures
            r == task_number(seq![event.from_address]),
    {
        let v: Vec<Felt> = vec![event.from_address];
        proof {
            assert(v@ =~= seq![event.from_address]);
        }
        task_id(&v)
    }

    /// The contract to register, given its kind by name: indexing goes on from the block in which
    /// it was registered. Nothing where the contract is not indexed.
    pub fn registration(
        &self,
        config: &EventProcessorConfig,
        event: &ExternalContract,
        named: Option<ContractType>,
    ) -> (r: Option<ContractRegistration>)
        ensures
            r == (if external_indexed(*config, event.namespace@, event.instance_name@) {
                Some(
                    ContractRegistration {
                        address: event.contract_address,
                        kind: match named {
                            Some(k) => k,
                            None => ContractType::OTHER,
                        },
                        head: if event.block_number > 0 {
                            (event.block_number - 1) as u64
                        } else {
                            0
                        },
                    },
                )
            } else {
                None
            }),
    {
        if !config.should_index_external_contract(&event.namespace, &event.instance_name) {
            return None;
        }
        Some(
            ContractRegistration {
                address: event.contract_address,
                kind: match named {
                    Some(k) => k,
                    None => ContractType::OTHER,
                },
                head: if event.block_number > 0 {
                    event.block_number - 1
                } else {
                    0
                },
            },
        )
    }

    /// The contract to register; nothing where the contract is not indexed.
    pub fn process(
        &self,
        config: &EventProcessorConfig,
        event: &ExternalContract,
    ) -> (r: Option<ContractRegistration>)
        ensures
            r == (if external_indexed(*config, event.namespace@, event.instance_name@) {
                Some(
                    ContractRegistration {
                        address: event.contract_address,
                        kind: external_kind(event.contract_name@),
                        head: if event.block_number > 0 {
                            (event.block_number - 1) as u64
                        } else {
                            0
                        },
                    },
                )
            } else {
                None
            }),
    {
        self.registration(config, event, ContractType::parse(&event.contract_name))
    }
}

/// Handles the metadata of resources.
#[derive(Clone, Copy, Debug, PartialEq, Eq, Structural)]
pub struct MetadataUpdateProcessor;

impl MetadataUpdateProcessor {
    /// The name of the event.
    pub fn event_key(&self) -> (r: String)
        ensures
            r@ == "MetadataUpdate"@,
    {
        "MetadataUpdate".to_owned()
    }

    /// Every event of the name is taken.
    pub fn validate(&self, _event: &Event) -> (r: bool)
        ensures
            r,
    {
        true
    }

    /// The number of the task: one for each list of keys.
    pub fn task_identifier(&self, event: &Event) -> (r: TaskId)
        ensures
            r == task_number(event.keys@),
    {
        task_id(&event.keys)
    }

    /// The text of an image of the metadata, if it was got.
    pub fn fetch_image(&self, data: &Option<Vec<u8>>) -> (r: Option<String>)
        ensures
            match data {
                Some(d) => r matches Some(t) && t@ == base64_text(d@),
                None => r is None,
            },
    {
        match data {
            Some(d) => Some(base64_encode(d)),
            None => None,
        }
    }

    /// Whether the metadata is retrieved from where it is found: only that of the world itself,
    /// whose resource is zero.
    pub fn process(&self, resource: &Felt) -> (r: bool)
        ensures
            r == (resource.value() == 0),
    {
        resource.is_zero()
    }
}

} // verus!
