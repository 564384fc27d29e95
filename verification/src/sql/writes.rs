//! What each change asks of the database: statements with their values, in order.
use vstd::prelude::*;
use vstd::string::*;
use crate::cache::BalanceDiff;
use crate::digits::{decimal, digits_of};
use crate::felt::Felt;
use crate::ids::{format_world_scoped_id, hex_felt, hex_field, world_scoped_id};
use crate::naming::{compute_selector_from_names, model_selector, poseidon, poseidon_hash_many};
use crate::options::{ContractType, Hook, HookEvent};
use crate::difference::opt_ty;
use crate::schema::{ty_name, Ty, TyView, U256};
use crate::sql::builder::{argument_views, Argument, ArgumentView};
use crate::sql::queries::all_wf;
use crate::sql::rows::TransactionCall;
use crate::text::{concat, join, join_with, opt_view, split_once, split_once_on, str_eq, views};
use crate::tokens::TokenId;
use crate::time::{rfc3339_text, to_rfc3339, Timestamp};

verus! {

/// An entity as the storage is told of it.
#[derive(Debug)]
pub struct EntityQuery {
    pub event_id: String,
    pub block_timestamp: u64,
    pub entity_id: String,
    pub model_id: String,
    pub keys: Option<Vec<Felt>>,
    /// The state of the model.
    pub ty: Ty,
    pub is_historical: bool,
}

/// How far a contract is indexed.
#[derive(Clone, Copy, Debug, PartialEq, Eq, Structural)]
pub struct ContractCursor {
    pub contract_address: Felt,
    pub head: Option<u64>,
    pub last_block_timestamp: Option<u64>,
    /// The last transaction of the block that is not yet confirmed.
    pub last_pending_block_tx: Option<Felt>,
}

/// What a statement is for, beside its effect on the database.
#[derive(Debug)]
pub enum QueryType {
    RegisterModel,
    RegisterContract,
    SetEntity(EntityQuery),
    EventMessage { world_address: Felt, entity: EntityQuery },
    DeleteEntity(EntityQuery),
    StoreTransaction(TransactionLinks),
    StoreEvent,
    StoreTokenTransfer,
    RegisterTokenContract(TokenContractRecord),
    RegisterNftToken { contract_address: Felt, token_id: U256, metadata: String },
    UpdateTokenMetadata { token: TokenId, metadata: String },
    /// The changes of balances and of supplies, and how far the contracts are indexed with them.
    ApplyBalanceDiff {
        balances: Vec<BalanceDiff>,
        supplies: Vec<BalanceDiff>,
        cursors: Vec<ContractCursor>,
    },
    /// How far the contracts are indexed, and the transactions of each that moved it.
    UpdateCursors {
        cursors: Vec<ContractCursor>,
        cursor_transactions: Vec<(Felt, Vec<Felt>)>,
    },
    Execute,
    Rollback,
    Other,
}

/// What a transaction is linked to: contracts, calls and models.
#[derive(Debug)]
pub struct TransactionLinks {
    pub contract_addresses: Vec<Felt>,
    pub calls: Vec<TransactionCall>,
    pub unique_models: Vec<Felt>,
}

/// A contract of tokens to register.
#[derive(Debug)]
pub struct TokenContractRecord {
    pub contract_address: Felt,
    pub name: String,
    pub symbol: String,
    pub decimals: u8,
    pub metadata: Option<String>,
}

/// A statement with its values and what it is for.
#[derive(Debug)]
pub struct QueryMessage {
    pub statement: String,
    pub arguments: Vec<Argument>,
    pub query_type: QueryType,
}

/// One step of a change.
#[derive(Debug)]
pub enum Step {
    Query(QueryMessage),
    /// The table of the model is made, or altered by what is new in its schema and what differs.
    BuildModel { table: String, model: Ty, schema_diff: Option<Ty>, upgrade_diff: Option<Ty> },
    /// The state of the model is written to its table.
    SetEntityModel {
        table: String,
        event_id: String,
        entity_id: String,
        ty: Ty,
        block_timestamp: u64,
    },
}

/// What a statement is for, beside its effect on the database.
pub enum KindView {
    SetEntity(EntityView),
    EventMessage(Felt, EntityView),
    DeleteEntity(EntityView),
    /// Any other use, by what stands in the message.
    Plain(QueryType),
}

/// An entity as the storage is told of it.
pub struct EntityView {
    pub event_id: Seq<char>,
    pub block_timestamp: int,
    pub entity_id: Seq<char>,
    pub model_id: Seq<char>,
    pub keys: Option<Seq<Felt>>,
    pub ty: TyView,
    pub is_historical: bool,
}

/// One step of a change.
pub enum StepView {
    Query(Seq<char>, Seq<ArgumentView>, KindView),
    /// The table, the model, what is new in its schema, and what was there and differs.
    BuildModel(Seq<char>, TyView, Option<TyView>, Option<TyView>),
    /// The table, the event, the entity, the state of the model, and the time.
    SetEntityModel(Seq<char>, Seq<char>, Seq<char>, TyView, int),
}

impl EntityQuery {
    /// What the storage is told.
    pub open spec fn view(&self) -> EntityView {
        EntityView {
            event_id: self.event_id@,
            block_timestamp: self.block_timestamp as int,
            entity_id: self.entity_id@,
            model_id: self.model_id@,
            keys: match self.keys {
                Some(k) => Some(k@),
                None => None,
            },
            ty: self.ty.view(),
            is_historical: self.is_historical,
        }
    }
}

impl QueryType {
    /// What the statement is for.
    pub open spec fn view(&self) -> KindView {
        match self {
            QueryType::SetEntity(e) => KindView::SetEntity(e.view()),
            QueryType::EventMessage { world_address, entity } => KindView::EventMessage(
                *world_address,
                entity.view(),
            ),
            QueryType::DeleteEntity(e) => KindView::DeleteEntity(e.view()),
            _ => KindView::Plain(*self),
        }
    }
}

impl Step {
    /// What the step does.
    pub open spec fn view(&self) -> StepView {
        match self {
            Step::Query(q) => StepView::Query(
                q.statement@,
                argument_views(q.arguments@),
                q.query_type.view(),
            ),
            Step::BuildModel { table, model, schema_diff, upgrade_diff } => StepView::BuildModel(
                table@,
                model.view(),
                opt_ty(*schema_diff),
                opt_ty(*upgrade_diff),
            ),
            Step::SetEntityModel { table, event_id, entity_id, ty, block_timestamp } =>
                StepView::SetEntityModel(
                table@,
                event_id@,
                entity_id@,
                ty.view(),
                *block_timestamp as int,
            ),
        }
    }
}

/// What a sequence of steps does.
pub open spec fn step_views(s: Seq<Step>) -> Seq<StepView> {
    s.map_values(|x: Step| x.view())
}

/// A statement without further use.
pub open spec fn plain(statement: Seq<char>, arguments: Seq<ArgumentView>) -> StepView {
    StepView::Query(statement, arguments, KindView::Plain(QueryType::Other))
}

/// When a hook runs.
#[derive(Clone, Copy, Debug, PartialEq, Eq, Structural)]
pub enum HookMoment {
    Registered,
    Updated,
    Deleted,
}

/// Whether the hook runs at that moment for the model.
pub open spec fn hook_runs(h: Hook, moment: HookMoment, tag: Seq<char>) -> bool {
    match (h.event, moment) {
        (HookEvent::ModelRegistered { model_tag }, HookMoment::Registered) => tag == model_tag@,
        (HookEvent::ModelUpdated { model_tag }, HookMoment::Updated) => tag == model_tag@,
        (HookEvent::ModelDeleted { model_tag }, HookMoment::Deleted) => tag == model_tag@,
        _ => false,
    }
}

/// The statements of the hooks that run, in the order of the hooks, each with the identifier.
pub open spec fn hook_steps(
    hooks: Seq<Hook>,
    moment: HookMoment,
    tag: Seq<char>,
    id: Seq<char>,
) -> Seq<StepView>
    decreases hooks.len(),
{
    if hooks.len() == 0 {
        Seq::empty()
    } else {
        let before = hook_steps(hooks.drop_last(), moment, tag, id);
        if hook_runs(hooks.last(), moment, tag) {
            before.push(plain(hooks.last().statement@, seq![ArgumentView::Text(id)]))
        } else {
            before
        }
    }
}

/// A statement without further use.
fn other(statement: String, arguments: Vec<Argument>) -> (r: Step)
    ensures
        r.view() == plain(statement@, argument_views(arguments@)),
{
    Step::Query(QueryMessage { statement, arguments, query_type: QueryType::Other })
}

/// Adds the statements of the hooks that run.
fn push_hooks(steps: &mut Vec<Step>, hooks: &Vec<Hook>, moment: HookMoment, tag: &str, id: &str)
    ensures
        step_views(final(steps)@) == step_views(old(steps)@) + hook_steps(
            hooks@,
            moment,
            tag@,
            id@,
        ),
{
    let ghost start = step_views(steps@);
    let mut i: usize = 0;
    proof {
        assert(hooks@.take(0) =~= Seq::<Hook>::empty());
        assert(start + Seq::<StepView>::empty() =~= start);
    }
    while i < hooks.len()
        invariant
            i <= hooks@.len(),
            step_views(steps@) == start + hook_steps(hooks@.take(i as int), moment, tag@, id@),
        decreases hooks@.len() - i,
    {
        proof {
            assert(hooks@.take(i + 1).drop_last() =~= hooks@.take(i as int));
        }
        let runs = match (&hooks[i].event, moment) {
            (HookEvent::ModelRegistered { model_tag }, HookMoment::Registered) => str_eq(
                tag,
                model_tag,
            ),
            (HookEvent::ModelUpdated { model_tag }, HookMoment::Updated) => str_eq(tag, model_tag),
            (HookEvent::ModelDeleted { model_tag }, HookMoment::Deleted) => str_eq(tag, model_tag),
            _ => false,
        };
        if runs {
            let ghost before = step_views(steps@);
            let args: Vec<Argument> = vec![Argument::Text(id.to_owned())];
            proof {
                assert(argument_views(args@) =~= seq![ArgumentView::Text(id@)]);
            }
            let s = other(hooks[i].statement.clone(), args);
            steps.push(s);
            proof {
                assert(step_views(steps@) =~= before.push(s.view()));
                assert(step_views(steps@) =~= start + hook_steps(
                    hooks@.take(i + 1),
                    moment,
                    tag@,
                    id@,
                ));
            }
        }
        i = i + 1;
    }
    proof {
        assert(hooks@.take(i as int) =~= hooks@);
    }
}

/// A hook runs exactly when its model and moment are those of the change.
pub proof fn hooks_run_for_their_model(
    hooks: Seq<Hook>,
    moment: HookMoment,
    tag: Seq<char>,
    id: Seq<char>,
)
    ensures
        hook_steps(hooks, moment, tag, id).len() == 0 <==> forall|i: int|
            0 <= i < hooks.len() ==> !hook_runs(#[trigger] hooks[i], moment, tag),
    decreases hooks.len(),
{
    if hooks.len() > 0 {
        let t = hooks.drop_last();
        hooks_run_for_their_model(t, moment, tag, id);
        if hook_steps(hooks, moment, tag, id).len() == 0 {
            assert forall|i: int| 0 <= i < hooks.len() implies !hook_runs(
                #[trigger] hooks[i],
                moment,
                tag,
            ) by {
                if i < t.len() {
                    assert(t[i] == hooks[i]);
                }
            }
        }
        if forall|i: int| 0 <= i < hooks.len() ==> !hook_runs(#[trigger] hooks[i], moment, tag) {
            assert forall|i: int| 0 <= i < t.len() implies !hook_runs(
                #[trigger] t[i],
                moment,
                tag,
            ) by {
                assert(t[i] == hooks[i]);
            }
            assert(!hook_runs(hooks[hooks.len() - 1], moment, tag));
        }
    }
}

/// How the storage is set up.
#[derive(Debug)]
pub struct SqlConfig {
    pub hooks: Vec<Hook>,
    pub historical_models: Vec<Felt>,
}

impl SqlConfig {
    /// Whether the history of the model is kept.
    pub fn is_historical(&self, selector: &Felt) -> (r: bool)
        ensures
            r == self.historical_models@.contains(*selector),
    {
        let mut i: usize = 0;
        while i < self.historical_models.len()
            invariant
                i <= self.historical_models@.len(),
                forall|k: int| 0 <= k < i ==> self.historical_models@[k] != *selector,
            decreases self.historical_models@.len() - i,
        {
            if self.historical_models[i] == *selector {
                return true;
            }
            i = i + 1;
        }
        false
    }
}

/// A model to register.
#[derive(Debug)]
pub struct ModelRegistration {
    pub world_address: Felt,
    pub selector: Felt,
    pub class_hash: Felt,
    pub contract_address: Felt,
    pub layout_json: String,
    pub schema_json: String,
    pub packed_size: u32,
    pub unpacked_size: u32,
    pub legacy_store: bool,
    pub block_timestamp: u64,
}

/// The steps that register a model, or alter it on an upgrade.
pub open spec fn register_model_steps(
    c: SqlConfig,
    tag: Seq<char>,
    model: TyView,
    m: ModelRegistration,
    schema_diff: Option<TyView>,
    upgrade_diff: Option<TyView>,
) -> Seq<StepView> {
    let id = world_scoped_id(m.world_address.value(), m.selector.value());
    let (namespace, name) = split_once(tag, '-')->0;
    seq![
        StepView::Query(
            "INSERT INTO models (id, world_address, model_selector, namespace, name, class_hash, contract_address, layout, legacy_store, schema, packed_size, unpacked_size, executed_at) VALUES (?, ?, ?, ?, ?, ?, ?, ?, ?, ?, ?, ?, ?) ON CONFLICT(id) DO UPDATE SET world_address=EXCLUDED.world_address, model_selector=EXCLUDED.model_selector, contract_address=EXCLUDED.contract_address, class_hash=EXCLUDED.class_hash, layout=EXCLUDED.layout, legacy_store=EXCLUDED.legacy_store, schema=EXCLUDED.schema, packed_size=EXCLUDED.packed_size, unpacked_size=EXCLUDED.unpacked_size, executed_at=EXCLUDED.executed_at RETURNING *"@,
            seq![
                ArgumentView::Text(id),
                ArgumentView::FeltText(m.world_address),
                ArgumentView::FeltText(m.selector),
                ArgumentView::Text(namespace),
                ArgumentView::Text(name),
                ArgumentView::FieldElement(m.class_hash),
                ArgumentView::FieldElement(m.contract_address),
                ArgumentView::Text(m.layout_json@),
                ArgumentView::Bool(m.legacy_store),
                ArgumentView::Text(m.schema_json@),
                ArgumentView::Int(m.packed_size as int),
                ArgumentView::Int(m.unpacked_size as int),
                ArgumentView::TimeText(m.block_timestamp as int),
            ],
            KindView::Plain(QueryType::RegisterModel),
        ),
        StepView::BuildModel(tag, model, schema_diff, upgrade_diff),
    ] + hook_steps(c.hooks@, HookMoment::Registered, tag, id)
}

/// What a type holds, if there is one.
pub open spec fn opt_ref_ty(t: Option<&Ty>) -> Option<TyView> {
    match t {
        Some(x) => Some(x.view()),
        None => None,
    }
}

/// A copy of a type, if there is one.
fn copy_opt(t: Option<&Ty>) -> (r: Option<Ty>)
    ensures
        opt_ty(r) == opt_ref_ty(t),
{
    match t {
        Some(x) => Some(x.copy()),
        None => None,
    }
}

/// The steps that register a model, or alter it on an upgrade by what is new in its schema and what
/// was there and differs. The name of the model is its tag.
pub fn register_model(
    c: &SqlConfig,
    model: &Ty,
    m: &ModelRegistration,
    schema_diff: Option<&Ty>,
    upgrade_diff: Option<&Ty>,
) -> (r: Vec<Step>)
    requires
        split_once(ty_name(*model), '-') is Some,
        m.world_address.wf(),
        m.selector.wf(),
    ensures
        step_views(r@) == register_model_steps(
            *c,
            ty_name(*model),
            model.view(),
            *m,
            opt_ref_ty(schema_diff),
            opt_ref_ty(upgrade_diff),
        ),
{
    let tag = model.name();
    let (namespace, name) = split_once_on(&tag, '-').unwrap();
    let id = format_world_scoped_id(&m.world_address, &m.selector);
    let arguments: Vec<Argument> = vec![
        Argument::Text(id.clone()),
        Argument::FeltText(m.world_address),
        Argument::FeltText(m.selector),
        Argument::Text(namespace),
        Argument::Text(name),
        Argument::FieldElement(m.class_hash),
        Argument::FieldElement(m.contract_address),
        Argument::Text(m.layout_json.clone()),
        Argument::Bool(m.legacy_store),
        Argument::Text(m.schema_json.clone()),
        Argument::Int(m.packed_size as i64),
        Argument::Int(m.unpacked_size as i64),
        Argument::TimeText(m.block_timestamp),
    ];
    let statement =
        "INSERT INTO models (id, world_address, model_selector, namespace, name, class_hash, contract_address, layout, legacy_store, schema, packed_size, unpacked_size, executed_at) VALUES (?, ?, ?, ?, ?, ?, ?, ?, ?, ?, ?, ?, ?) ON CONFLICT(id) DO UPDATE SET world_address=EXCLUDED.world_address, model_selector=EXCLUDED.model_selector, contract_address=EXCLUDED.contract_address, class_hash=EXCLUDED.class_hash, layout=EXCLUDED.layout, legacy_store=EXCLUDED.legacy_store, schema=EXCLUDED.schema, packed_size=EXCLUDED.packed_size, unpacked_size=EXCLUDED.unpacked_size, executed_at=EXCLUDED.executed_at RETURNING *".to_owned();
    let mut steps: Vec<Step> = vec![
        Step::Query(QueryMessage { statement, arguments, query_type: QueryType::RegisterModel }),
        Step::BuildModel {
            table: tag.clone(),
            model: model.copy(),
            schema_diff: copy_opt(schema_diff),
            upgrade_diff: copy_opt(upgrade_diff),
        },
    ];
    let ghost all = register_model_steps(
        *c,
        ty_name(*model),
        model.view(),
        *m,
        opt_ref_ty(schema_diff),
        opt_ref_ty(upgrade_diff),
    );
    let ghost hooks = hook_steps(c.hooks@, HookMoment::Registered, tag@, id@);
    proof {
        let first = all[0]->Query_1;
        assert(argument_views(arguments@) =~= first);
        assert(step_views(steps@) + hooks =~= all);
    }
    push_hooks(&mut steps, &c.hooks, HookMoment::Registered, &tag, &id);
    steps
}

/// An entity to set or delete.
#[derive(Debug)]
pub struct EntityChange {
    pub world_address: Felt,
    pub entity_id: Felt,
    pub model_selector: Felt,
    pub event_id: String,
    pub block_timestamp: u64,
}

/// The statement that inserts an entity.
pub open spec fn insert_entity(with_keys: bool) -> Seq<char> {
    if with_keys {
        "INSERT INTO entities (id, world_address, entity_id, event_id, executed_at, keys) VALUES (?, ?, ?, ?, ?, ?) ON CONFLICT(id) DO UPDATE SET world_address=EXCLUDED.world_address, updated_at=CURRENT_TIMESTAMP, entity_id=EXCLUDED.entity_id, executed_at=EXCLUDED.executed_at, event_id=EXCLUDED.event_id, keys=EXCLUDED.keys RETURNING *"@
    } else {
        "INSERT INTO entities (id, world_address, entity_id, event_id, executed_at) VALUES (?, ?, ?, ?, ?) ON CONFLICT(id) DO UPDATE SET world_address=EXCLUDED.world_address, updated_at=CURRENT_TIMESTAMP, entity_id=EXCLUDED.entity_id, executed_at=EXCLUDED.executed_at, event_id=EXCLUDED.event_id RETURNING *"@
    }
}

/// What the storage is told of an entity.
pub open spec fn entity_told(
    c: SqlConfig,
    ty: TyView,
    e: EntityChange,
    keys: Option<Seq<Felt>>,
) -> EntityView {
    EntityView {
        event_id: e.event_id@,
        block_timestamp: e.block_timestamp as int,
        entity_id: world_scoped_id(e.world_address.value(), e.entity_id.value()),
        model_id: world_scoped_id(e.world_address.value(), e.model_selector.value()),
        keys,
        ty,
        is_historical: c.historical_models@.contains(e.model_selector),
    }
}

/// The steps that set an entity: the entity, its link to the model, the state of the model, and
/// the hooks on updates. The address of the world is bound once more at the end of the first.
pub open spec fn set_entity_steps(
    c: SqlConfig,
    tag: Seq<char>,
    ty: TyView,
    e: EntityChange,
    keys: Option<Seq<Felt>>,
) -> Seq<StepView> {
    let told = entity_told(c, ty, e, keys);
    let base = seq![
        ArgumentView::Text(told.entity_id),
        ArgumentView::FeltText(e.world_address),
        ArgumentView::FeltText(e.entity_id),
        ArgumentView::Text(e.event_id@),
        ArgumentView::TimeText(e.block_timestamp as int),
    ];
    let with_keys = match keys {
        Some(k) => base.push(ArgumentView::FeltsText(k)),
        None => base,
    };
    seq![
        StepView::Query(
            insert_entity(keys is Some),
            with_keys.push(ArgumentView::FeltText(e.world_address)),
            KindView::SetEntity(told),
        ),
        plain(
            "INSERT INTO entity_model (entity_id, model_id) VALUES (?, ?) ON CONFLICT(entity_id, model_id) DO NOTHING"@,
            seq![ArgumentView::Text(told.entity_id), ArgumentView::Text(told.model_id)],
        ),
        StepView::SetEntityModel(tag, e.event_id@, told.entity_id, ty, e.block_timestamp as int),
    ] + hook_steps(c.hooks@, HookMoment::Updated, tag, told.entity_id)
}

/// A copy of a list of elements.
pub fn copy_felts(v: &Vec<Felt>) -> (r: Vec<Felt>)
    ensures
        r@ == v@,
{
    let mut out: Vec<Felt> = Vec::new();
    let mut i: usize = 0;
    while i < v.len()
        invariant
            i <= v@.len(),
            out@ =~= v@.take(i as int),
        decreases v@.len() - i,
    {
        out.push(v[i]);
        i = i + 1;
    }
    proof {
        assert(v@.take(i as int) =~= v@);
    }
    out
}

/// The keys as a sequence.
pub open spec fn keys_view(keys: Option<Vec<Felt>>) -> Option<Seq<Felt>> {
    match keys {
        Some(k) => Some(k@),
        None => None,
    }
}

/// The steps that set an entity with the state of one of its models.
pub fn set_entity(
    c: &SqlConfig,
    entity: &Ty,
    e: &EntityChange,
    keys: &Option<Vec<Felt>>,
) -> (r: Vec<Step>)
    requires
        e.world_address.wf(),
        e.entity_id.wf(),
        e.model_selector.wf(),
    ensures
        step_views(r@) == set_entity_steps(*c, ty_name(*entity), entity.view(), *e, keys_view(*keys)),
{
    let tag = entity.name();
    let entity_id = format_world_scoped_id(&e.world_address, &e.entity_id);
    let model_id = format_world_scoped_id(&e.world_address, &e.model_selector);
    let mut arguments: Vec<Argument> = vec![
        Argument::Text(entity_id.clone()),
        Argument::FeltText(e.world_address),
        Argument::FeltText(e.entity_id),
        Argument::Text(e.event_id.clone()),
        Argument::TimeText(e.block_timestamp),
    ];
    let (statement, told_keys) = match keys {
        Some(k) => {
            arguments.push(Argument::FeltsText(copy_felts(k)));
            (
                "INSERT INTO entities (id, world_address, entity_id, event_id, executed_at, keys) VALUES (?, ?, ?, ?, ?, ?) ON CONFLICT(id) DO UPDATE SET world_address=EXCLUDED.world_address, updated_at=CURRENT_TIMESTAMP, entity_id=EXCLUDED.entity_id, executed_at=EXCLUDED.executed_at, event_id=EXCLUDED.event_id, keys=EXCLUDED.keys RETURNING *".to_owned(),
                Some(copy_felts(k)),
            )
        },
        None => (
            "INSERT INTO entities (id, world_address, entity_id, event_id, executed_at) VALUES (?, ?, ?, ?, ?) ON CONFLICT(id) DO UPDATE SET world_address=EXCLUDED.world_address, updated_at=CURRENT_TIMESTAMP, entity_id=EXCLUDED.entity_id, executed_at=EXCLUDED.executed_at, event_id=EXCLUDED.event_id RETURNING *".to_owned(),
            None,
        ),
    };
    arguments.push(Argument::FeltText(e.world_address));
    let told = EntityQuery {
        event_id: e.event_id.clone(),
        block_timestamp: e.block_timestamp,
        entity_id: entity_id.clone(),
        model_id: model_id.clone(),
        keys: told_keys,
        ty: entity.copy(),
        is_historical: c.is_historical(&e.model_selector),
    };
    let link: Vec<Argument> = vec![
        Argument::Text(entity_id.clone()),
        Argument::Text(model_id.clone()),
    ];
    let ghost all = set_entity_steps(*c, ty_name(*entity), entity.view(), *e, keys_view(*keys));
    let ghost hooks = hook_steps(c.hooks@, HookMoment::Updated, tag@, entity_id@);
    proof {
        assert(argument_views(arguments@) =~= all[0]->Query_1);
        assert(argument_views(link@) =~= all[1]->Query_1);
    }
    let mut steps: Vec<Step> = vec![
        Step::Query(
            QueryMessage { statement, arguments, query_type: QueryType::SetEntity(told) },
        ),
        other(
            "INSERT INTO entity_model (entity_id, model_id) VALUES (?, ?) ON CONFLICT(entity_id, model_id) DO NOTHING".to_owned(),
            link,
        ),
        Step::SetEntityModel {
            table: tag.clone(),
            event_id: e.event_id.clone(),
            entity_id: entity_id.clone(),
            ty: entity.copy(),
            block_timestamp: e.block_timestamp,
        },
    ];
    proof {
        assert(step_views(steps@) + hooks =~= all);
    }
    push_hooks(&mut steps, &c.hooks, HookMoment::Updated, &tag, &entity_id);
    steps
}

/// The steps that set an event message. Its entity is the hash of its keys, and its model the one
/// that its tag names.
pub open spec fn set_event_message_steps(
    c: SqlConfig,
    tag: Seq<char>,
    ty: TyView,
    world_address: Felt,
    event_id: Seq<char>,
    block_timestamp: u64,
    keys: Seq<Felt>,
) -> Seq<StepView> {
    let (namespace, name) = split_once(tag, '-')->0;
    let selector = model_selector(namespace, name);
    let id = world_scoped_id(world_address.value(), poseidon(keys).value());
    let told = EntityView {
        event_id,
        block_timestamp: block_timestamp as int,
        entity_id: id,
        model_id: world_scoped_id(world_address.value(), selector.value()),
        keys: Some(keys),
        ty,
        is_historical: c.historical_models@.contains(selector),
    };
    seq![
        StepView::Query(
            "INSERT INTO event_messages (id, world_address, entity_id, keys, event_id, executed_at) VALUES (?, ?, ?, ?, ?, ?) ON CONFLICT(id) DO UPDATE SET updated_at=CURRENT_TIMESTAMP, executed_at=EXCLUDED.executed_at, event_id=EXCLUDED.event_id RETURNING *"@,
            seq![
                ArgumentView::Text(id),
                ArgumentView::FeltText(world_address),
                ArgumentView::FeltText(poseidon(keys)),
                ArgumentView::FeltsText(keys),
                ArgumentView::Text(event_id),
                ArgumentView::TimeText(block_timestamp as int),
            ],
            KindView::EventMessage(world_address, told),
        ),
        StepView::SetEntityModel(tag, event_id, "event:"@ + id, ty, block_timestamp as int),
    ] + hook_steps(c.hooks@, HookMoment::Updated, tag, id)
}

/// The steps that set an event message.
pub fn set_event_message(
    c: &SqlConfig,
    entity: &Ty,
    world_address: &Felt,
    event_id: &str,
    block_timestamp: u64,
    keys: &Vec<Felt>,
) -> (r: Vec<Step>)
    requires
        split_once(ty_name(*entity), '-') is Some,
        world_address.wf(),
        all_wf(keys@),
    ensures
        step_views(r@) == set_event_message_steps(
            *c,
            ty_name(*entity),
            entity.view(),
            *world_address,
            event_id@,
            block_timestamp,
            keys@,
        ),
{
    let tag = entity.name();
    let (namespace, name) = split_once_on(&tag, '-').unwrap();
    let hash = poseidon_hash_many(keys);
    let id = format_world_scoped_id(world_address, &hash);
    let selector = compute_selector_from_names(&namespace, &name);
    let model_id = format_world_scoped_id(world_address, &selector);
    let told = EntityQuery {
        event_id: event_id.to_owned(),
        block_timestamp,
        entity_id: id.clone(),
        model_id,
        keys: Some(copy_felts(keys)),
        ty: entity.copy(),
        is_historical: c.is_historical(&selector),
    };
    let arguments: Vec<Argument> = vec![
        Argument::Text(id.clone()),
        Argument::FeltText(*world_address),
        Argument::FeltText(hash),
        Argument::FeltsText(copy_felts(keys)),
        Argument::Text(event_id.to_owned()),
        Argument::TimeText(block_timestamp),
    ];
    let ghost all = set_event_message_steps(
        *c,
        ty_name(*entity),
        entity.view(),
        *world_address,
        event_id@,
        block_timestamp,
        keys@,
    );
    let ghost hooks = hook_steps(c.hooks@, HookMoment::Updated, tag@, id@);
    proof {
        assert(argument_views(arguments@) =~= all[0]->Query_1);
    }
    let mut steps: Vec<Step> = vec![
        Step::Query(
            QueryMessage {
                statement: "INSERT INTO event_messages (id, world_address, entity_id, keys, event_id, executed_at) VALUES (?, ?, ?, ?, ?, ?) ON CONFLICT(id) DO UPDATE SET updated_at=CURRENT_TIMESTAMP, executed_at=EXCLUDED.executed_at, event_id=EXCLUDED.event_id RETURNING *".to_owned(),
                arguments,
                query_type: QueryType::EventMessage { world_address: *world_address, entity: told },
            },
        ),
        Step::SetEntityModel {
            table: tag.clone(),
            event_id: event_id.to_owned(),
            entity_id: concat("event:", &id),
            ty: entity.copy(),
            block_timestamp,
        },
    ];
    proof {
        assert(step_views(steps@) + hooks =~= all);
    }
    push_hooks(&mut steps, &c.hooks, HookMoment::Updated, &tag, &id);
    steps
}

/// The steps that delete the state of a model of an entity.
pub open spec fn delete_entity_steps(
    c: SqlConfig,
    tag: Seq<char>,
    ty: TyView,
    e: EntityChange,
) -> Seq<StepView> {
    let id = world_scoped_id(e.world_address.value(), e.entity_id.value());
    seq![
        StepView::Query(
            "DELETE FROM ["@ + tag + "] WHERE internal_id = ?"@,
            seq![ArgumentView::Text(id)],
            KindView::DeleteEntity(entity_told(c, ty, e, None)),
        ),
    ] + hook_steps(c.hooks@, HookMoment::Deleted, tag, id)
}

/// The steps that delete the state of a model of an entity.
pub fn delete_entity(c: &SqlConfig, entity: &Ty, e: &EntityChange) -> (r: Vec<Step>)
    requires
        e.world_address.wf(),
        e.entity_id.wf(),
        e.model_selector.wf(),
    ensures
        step_views(r@) == delete_entity_steps(*c, ty_name(*entity), entity.view(), *e),
{
    let tag = entity.name();
    let id = format_world_scoped_id(&e.world_address, &e.entity_id);
    let model_id = format_world_scoped_id(&e.world_address, &e.model_selector);
    let told = EntityQuery {
        event_id: e.event_id.clone(),
        block_timestamp: e.block_timestamp,
        entity_id: id.clone(),
        model_id,
        keys: None,
        ty: entity.copy(),
        is_historical: c.is_historical(&e.model_selector),
    };
    let arguments: Vec<Argument> = vec![Argument::Text(id.clone())];
    let ghost all = delete_entity_steps(*c, ty_name(*entity), entity.view(), *e);
    let ghost hooks = hook_steps(c.hooks@, HookMoment::Deleted, tag@, id@);
    proof {
        assert(argument_views(arguments@) =~= all[0]->Query_1);
    }
    let mut steps: Vec<Step> = vec![
        Step::Query(
            QueryMessage {
                statement: concat(&concat("DELETE FROM [", &tag), "] WHERE internal_id = ?"),
                arguments,
                query_type: QueryType::DeleteEntity(told),
            },
        ),
    ];
    proof {
        assert(step_views(steps@) + hooks =~= all);
    }
    push_hooks(&mut steps, &c.hooks, HookMoment::Deleted, &tag, &id);
    steps
}

/// The block number as the database holds it, with a sign.
pub open spec fn signed_block(n: u64) -> int {
    if n <= i64::MAX {
        n as int
    } else {
        n - 0x1_0000_0000_0000_0000
    }
}

/// The statement that registers a contract, which is indexed up to the block `head`.
pub fn register_contract(address: &Felt, contract_type: &ContractType, head: u64) -> (r: QueryMessage)
    ensures
        r.statement@
            == "INSERT INTO contracts (id, contract_address, contract_type, head, updated_at, created_at) VALUES (?, ?, ?, ?, CURRENT_TIMESTAMP, CURRENT_TIMESTAMP) ON CONFLICT(id) DO UPDATE SET contract_type=EXCLUDED.contract_type, head=EXCLUDED.head, updated_at=CURRENT_TIMESTAMP RETURNING *"@,
        argument_views(r.arguments@) == seq![
            ArgumentView::FieldElement(*address),
            ArgumentView::FieldElement(*address),
            ArgumentView::Text(contract_type.label()),
            ArgumentView::Int(signed_block(head)),
        ],
        r.query_type == QueryType::RegisterContract,
{
    let signed: i64 = if head <= 0x7fff_ffff_ffff_ffff {
        head as i64
    } else {
        (head - 0x8000_0000_0000_0000) as i64 + i64::MIN
    };
    let arguments: Vec<Argument> = vec![
        Argument::FieldElement(*address),
        Argument::FieldElement(*address),
        Argument::Text(contract_type.name().to_owned()),
        Argument::Int(signed),
    ];
    proof {
        assert(argument_views(arguments@) =~= seq![
            ArgumentView::FieldElement(*address),
            ArgumentView::FieldElement(*address),
            ArgumentView::Text(contract_type.label()),
            ArgumentView::Int(signed_block(head)),
        ]);
    }
    QueryMessage {
        statement: "INSERT INTO contracts (id, contract_address, contract_type, head, updated_at, created_at) VALUES (?, ?, ?, ?, CURRENT_TIMESTAMP, CURRENT_TIMESTAMP) ON CONFLICT(id) DO UPDATE SET contract_type=EXCLUDED.contract_type, head=EXCLUDED.head, updated_at=CURRENT_TIMESTAMP RETURNING *".to_owned(),
        arguments,
        query_type: QueryType::RegisterContract,
    }
}

/// The statement that sets where the metadata of a resource is found: it inserts the metadata, or
/// updates it where the resource has some.
pub fn set_metadata(resource: &Felt, uri: &str, block_timestamp: u64) -> (r: QueryMessage)
    ensures
        r.statement@
            == "INSERT INTO metadata (id, uri, executed_at) VALUES (?, ?, ?) ON CONFLICT(id) DO UPDATE SET id=excluded.id, uri=excluded.uri, executed_at=excluded.executed_at, updated_at=CURRENT_TIMESTAMP"@,
        argument_views(r.arguments@) == seq![
            ArgumentView::FieldElement(*resource),
            ArgumentView::Text(uri@),
            ArgumentView::TimeText(block_timestamp as int),
        ],
        r.query_type == QueryType::Other,
{
    let arguments: Vec<Argument> = vec![
        Argument::FieldElement(*resource),
        Argument::Text(uri.to_owned()),
        Argument::TimeText(block_timestamp),
    ];
    proof {
        assert(argument_views(arguments@) =~= seq![
            ArgumentView::FieldElement(*resource),
            ArgumentView::Text(uri@),
            ArgumentView::TimeText(block_timestamp as int),
        ]);
    }
    QueryMessage {
        statement: "INSERT INTO metadata (id, uri, executed_at) VALUES (?, ?, ?) ON CONFLICT(id) DO UPDATE SET id=excluded.id, uri=excluded.uri, executed_at=excluded.executed_at, updated_at=CURRENT_TIMESTAMP".to_owned(),
        arguments,
        query_type: QueryType::Other,
    }
}

/// The columns that an update of metadata sets.
pub open spec fn metadata_columns(icon: bool, cover: bool) -> Seq<Seq<char>> {
    let base = seq!["uri=?"@, "json=?"@, "updated_at=CURRENT_TIMESTAMP"@];
    let with_icon = if icon {
        base.push("icon_img=?"@)
    } else {
        base
    };
    if cover {
        with_icon.push("cover_img=?"@)
    } else {
        with_icon
    }
}

/// The values that an update of metadata binds.
pub open spec fn metadata_binds(
    resource: Felt,
    uri: Seq<char>,
    json: Seq<char>,
    icon: Option<Seq<char>>,
    cover: Option<Seq<char>>,
) -> Seq<ArgumentView> {
    let base = seq![ArgumentView::Text(uri), ArgumentView::Text(json)];
    let with_icon = match icon {
        Some(i) => base.push(ArgumentView::Text(i)),
        None => base,
    };
    let with_cover = match cover {
        Some(c) => with_icon.push(ArgumentView::Text(c)),
        None => with_icon,
    };
    with_cover.push(ArgumentView::FieldElement(resource))
}

/// The statement that updates the metadata of a resource; the images only where they are given.
pub fn update_metadata(
    resource: &Felt,
    uri: &str,
    json: &str,
    icon_img: &Option<String>,
    cover_img: &Option<String>,
) -> (r: QueryMessage)
    ensures
        r.statement@ == "UPDATE metadata SET "@ + join(
            metadata_columns(icon_img is Some, cover_img is Some),
            ","@,
        ) + " WHERE id = ?"@,
        argument_views(r.arguments@) == metadata_binds(
            *resource,
            uri@,
            json@,
            opt_view(*icon_img),
            opt_view(*cover_img),
        ),
        r.query_type == QueryType::Other,
{
    let mut columns: Vec<String> = vec![
        "uri=?".to_owned(),
        "json=?".to_owned(),
        "updated_at=CURRENT_TIMESTAMP".to_owned(),
    ];
    let mut arguments: Vec<Argument> = vec![
        Argument::Text(uri.to_owned()),
        Argument::Text(json.to_owned()),
    ];
    match icon_img {
        Some(i) => {
            columns.push("icon_img=?".to_owned());
            arguments.push(Argument::Text(i.clone()));
        },
        None => {},
    }
    match cover_img {
        Some(c) => {
            columns.push("cover_img=?".to_owned());
            arguments.push(Argument::Text(c.clone()));
        },
        None => {},
    }
    arguments.push(Argument::FieldElement(*resource));
    proof {
        assert(views(columns@) =~= metadata_columns(icon_img is Some, cover_img is Some));
        assert(argument_views(arguments@) =~= metadata_binds(
            *resource,
            uri@,
            json@,
            opt_view(*icon_img),
            opt_view(*cover_img),
        ));
    }
    let set = join_with(&columns, ",");
    QueryMessage {
        statement: concat(&concat("UPDATE metadata SET ", &set), " WHERE id = ?"),
        arguments,
        query_type: QueryType::Other,
    }
}

/// A transaction to store.
#[derive(Debug)]
pub struct TransactionRecord {
    pub transaction_hash: Felt,
    pub sender_address: Felt,
    pub calldata: Vec<Felt>,
    pub max_fee: Felt,
    pub signature: Vec<Felt>,
    pub nonce: Felt,
    pub block_number: u64,
    pub transaction_type: String,
    pub block_timestamp: u64,
}

/// The values that a stored transaction binds.
pub open spec fn transaction_binds(t: TransactionRecord) -> Seq<ArgumentView> {
    seq![
        ArgumentView::FieldElement(t.transaction_hash),
        ArgumentView::FieldElement(t.transaction_hash),
        ArgumentView::FieldElement(t.sender_address),
        ArgumentView::FeltsText(t.calldata@),
        ArgumentView::FieldElement(t.max_fee),
        ArgumentView::FeltsText(t.signature@),
        ArgumentView::FieldElement(t.nonce),
        ArgumentView::Text(t.transaction_type@),
        ArgumentView::TimeText(t.block_timestamp as int),
        ArgumentView::Text(digits_of(t.block_number as nat, 10)),
    ]
}

/// The statement that stores a transaction, with what it is linked to.
pub fn store_transaction(t: &TransactionRecord, links: TransactionLinks) -> (r: QueryMessage)
    ensures
        r.statement@
            == "INSERT INTO transactions (id, transaction_hash, sender_address, calldata, max_fee, signature, nonce, transaction_type, executed_at, block_number) VALUES (?, ?, ?, ?, ?, ?, ?, ?, ?, ?) ON CONFLICT DO UPDATE SET transaction_hash=excluded.transaction_hash RETURNING *"@,
        argument_views(r.arguments@) == transaction_binds(*t),
        r.query_type == QueryType::StoreTransaction(links),
{
    let arguments: Vec<Argument> = vec![
        Argument::FieldElement(t.transaction_hash),
        Argument::FieldElement(t.transaction_hash),
        Argument::FieldElement(t.sender_address),
        Argument::FeltsText(copy_felts(&t.calldata)),
        Argument::FieldElement(t.max_fee),
        Argument::FeltsText(copy_felts(&t.signature)),
        Argument::FieldElement(t.nonce),
        Argument::Text(t.transaction_type.clone()),
        Argument::TimeText(t.block_timestamp),
        Argument::Text(decimal(t.block_number)),
    ];
    proof {
        assert(argument_views(arguments@) =~= transaction_binds(*t));
    }
    QueryMessage {
        statement: "INSERT INTO transactions (id, transaction_hash, sender_address, calldata, max_fee, signature, nonce, transaction_type, executed_at, block_number) VALUES (?, ?, ?, ?, ?, ?, ?, ?, ?, ?) ON CONFLICT DO UPDATE SET transaction_hash=excluded.transaction_hash RETURNING *".to_owned(),
        arguments,
        query_type: QueryType::StoreTransaction(links),
    }
}

/// The unit of a fee.
#[derive(Clone, Copy, Debug, PartialEq, Eq, Structural)]
pub enum FeeUnit {
    Wei,
    Fri,
}

/// How settled a transaction is.
#[derive(Clone, Copy, Debug, PartialEq, Eq, Structural)]
pub enum FinalityStatus {
    PreConfirmed,
    AcceptedOnL2,
    AcceptedOnL1,
}

/// The block of a receipt.
#[derive(Clone, Copy, Debug, PartialEq, Eq, Structural)]
pub enum ReceiptBlock {
    Block { block_hash: Felt, block_number: u64 },
    PreConfirmed { block_number: u64 },
}

/// A receipt to store.
#[derive(Debug)]
pub struct ReceiptRecord {
    pub transaction_hash: Felt,
    pub fee_amount: Felt,
    pub fee_unit: FeeUnit,
    pub finality_status: FinalityStatus,
    /// The reason for which the transaction was reverted; none where it succeeded.
    pub reverted: Option<String>,
    pub execution_resources_json: String,
    pub block: ReceiptBlock,
    pub block_timestamp: u64,
}

/// The name of a unit.
pub open spec fn unit_label(u: FeeUnit) -> Seq<char> {
    match u {
        FeeUnit::Wei => "Wei"@,
        FeeUnit::Fri => "Fri"@,
    }
}

/// The name of a status.
pub open spec fn finality_label(f: FinalityStatus) -> Seq<char> {
    match f {
        FinalityStatus::PreConfirmed => "PreConfirmed"@,
        FinalityStatus::AcceptedOnL2 => "AcceptedOnL2"@,
        FinalityStatus::AcceptedOnL1 => "AcceptedOnL1"@,
    }
}

/// The values that a stored receipt binds: without a revert its reason is empty, and so is the
/// hash of a block that is not confirmed.
pub open spec fn receipt_binds(t: ReceiptRecord) -> Seq<ArgumentView> {
    seq![
        ArgumentView::FieldElement(t.transaction_hash),
        ArgumentView::FieldElement(t.transaction_hash),
        ArgumentView::Text(hex_field(t.fee_amount.value(), 0)),
        ArgumentView::Text(unit_label(t.fee_unit)),
        ArgumentView::Text(
            if t.reverted is Some {
                "REVERTED"@
            } else {
                "SUCCEEDED"@
            },
        ),
        ArgumentView::Text(finality_label(t.finality_status)),
        ArgumentView::Text(
            match t.reverted {
                Some(s) => s@,
                None => ""@,
            },
        ),
        ArgumentView::Text(t.execution_resources_json@),
        ArgumentView::Text(
            match t.block {
                ReceiptBlock::Block { block_hash, .. } => hex_field(block_hash.value(), 0),
                ReceiptBlock::PreConfirmed { .. } => ""@,
            },
        ),
        ArgumentView::Text(
            digits_of(
                match t.block {
                    ReceiptBlock::Block { block_number, .. } => block_number as nat,
                    ReceiptBlock::PreConfirmed { block_number } => block_number as nat,
                },
                10,
            ),
        ),
        ArgumentView::Text(digits_of(t.block_timestamp as nat, 10)),
    ]
}

/// The statement that stores a receipt.
pub fn store_transaction_receipt(t: &ReceiptRecord) -> (r: QueryMessage)
    requires
        t.fee_amount.wf(),
        t.block matches ReceiptBlock::Block { block_hash, .. } ==> block_hash.wf(),
    ensures
        r.statement@
            == "INSERT INTO transaction_receipts (id, transaction_hash, actual_fee_amount, actual_fee_unit, execution_status, finality_status, revert_reason, execution_resources, block_hash, block_number, block_timestamp) VALUES (?, ?, ?, ?, ?, ?, ?, ?, ?, ?, ?) ON CONFLICT(transaction_hash) DO UPDATE SET actual_fee_amount=excluded.actual_fee_amount, actual_fee_unit=excluded.actual_fee_unit, execution_status=excluded.execution_status, finality_status=excluded.finality_status, revert_reason=excluded.revert_reason, execution_resources=excluded.execution_resources, block_hash=excluded.block_hash, block_number=excluded.block_number, block_timestamp=excluded.block_timestamp RETURNING *"@,
        argument_views(r.arguments@) == receipt_binds(*t),
        r.query_type == QueryType::Other,
{
    let unit = match t.fee_unit {
        FeeUnit::Wei => "Wei".to_owned(),
        FeeUnit::Fri => "Fri".to_owned(),
    };
    let finality = match t.finality_status {
        FinalityStatus::PreConfirmed => "PreConfirmed".to_owned(),
        FinalityStatus::AcceptedOnL2 => "AcceptedOnL2".to_owned(),
        FinalityStatus::AcceptedOnL1 => "AcceptedOnL1".to_owned(),
    };
    let (status, reason) = match &t.reverted {
        Some(s) => ("REVERTED".to_owned(), s.clone()),
        None => ("SUCCEEDED".to_owned(), "".to_owned()),
    };
    let (block_hash, block_number): (String, u64) = match &t.block {
        ReceiptBlock::Block { block_hash, block_number } => (hex_felt(block_hash), *block_number),
        ReceiptBlock::PreConfirmed { block_number } => ("".to_owned(), *block_number),
    };
    let arguments: Vec<Argument> = vec![
        Argument::FieldElement(t.transaction_hash),
        Argument::FieldElement(t.transaction_hash),
        Argument::Text(hex_felt(&t.fee_amount)),
        Argument::Text(unit),
        Argument::Text(status),
        Argument::Text(finality),
        Argument::Text(reason),
        Argument::Text(t.execution_resources_json.clone()),
        Argument::Text(block_hash),
        Argument::Text(decimal(block_number)),
        Argument::Text(decimal(t.block_timestamp)),
    ];
    proof {
        assert(argument_views(arguments@) =~= receipt_binds(*t));
    }
    QueryMessage {
        statement: "INSERT INTO transaction_receipts (id, transaction_hash, actual_fee_amount, actual_fee_unit, execution_status, finality_status, revert_reason, execution_resources, block_hash, block_number, block_timestamp) VALUES (?, ?, ?, ?, ?, ?, ?, ?, ?, ?, ?) ON CONFLICT(transaction_hash) DO UPDATE SET actual_fee_amount=excluded.actual_fee_amount, actual_fee_unit=excluded.actual_fee_unit, execution_status=excluded.execution_status, finality_status=excluded.finality_status, revert_reason=excluded.revert_reason, execution_resources=excluded.execution_resources, block_hash=excluded.block_hash, block_number=excluded.block_number, block_timestamp=excluded.block_timestamp RETURNING *".to_owned(),
        arguments,
        query_type: QueryType::Other,
    }
}

/// The statement that stores an event.
pub fn store_event(
    event_id: &str,
    keys: &Vec<Felt>,
    data: &Vec<Felt>,
    transaction_hash: &Felt,
    block_timestamp: u64,
) -> (r: QueryMessage)
    ensures
        r.statement@
            == "INSERT INTO events (id, keys, data, transaction_hash, executed_at) VALUES (?, ?, ?, ?, ?) ON CONFLICT DO NOTHING RETURNING *"@,
        argument_views(r.arguments@) == seq![
            ArgumentView::Text(event_id@),
            ArgumentView::FeltsText(keys@),
            ArgumentView::FeltsText(data@),
            ArgumentView::FieldElement(*transaction_hash),
            ArgumentView::TimeText(block_timestamp as int),
        ],
        r.query_type == QueryType::StoreEvent,
{
    let arguments: Vec<Argument> = vec![
        Argument::Text(event_id.to_owned()),
        Argument::FeltsText(copy_felts(keys)),
        Argument::FeltsText(copy_felts(data)),
        Argument::FieldElement(*transaction_hash),
        Argument::TimeText(block_timestamp),
    ];
    proof {
        assert(argument_views(arguments@) =~= seq![
            ArgumentView::Text(event_id@),
            ArgumentView::FeltsText(keys@),
            ArgumentView::FeltsText(data@),
            ArgumentView::FieldElement(*transaction_hash),
            ArgumentView::TimeText(block_timestamp as int),
        ]);
    }
    QueryMessage {
        statement: "INSERT INTO events (id, keys, data, transaction_hash, executed_at) VALUES (?, ?, ?, ?, ?) ON CONFLICT DO NOTHING RETURNING *".to_owned(),
        arguments,
        query_type: QueryType::StoreEvent,
    }
}

/// The statement that adds a controller, or renews it.
pub fn add_controller(username: &str, address: &str, deployed_at: Timestamp) -> (r: QueryMessage)
    requires
        deployed_at.valid(),
    ensures
        r.statement@
            == "INSERT INTO controllers (id, username, address, deployed_at) VALUES (?, ?, ?, ?) ON CONFLICT(id) DO UPDATE SET username=EXCLUDED.username, address=EXCLUDED.address, deployed_at=EXCLUDED.deployed_at RETURNING *"@,
        argument_views(r.arguments@) == seq![
            ArgumentView::Text(username@),
            ArgumentView::Text(username@),
            ArgumentView::Text(address@),
            ArgumentView::Text(rfc3339_text(deployed_at)),
        ],
        r.query_type == QueryType::Other,
{
    let arguments: Vec<Argument> = vec![
        Argument::Text(username.to_owned()),
        Argument::Text(username.to_owned()),
        Argument::Text(address.to_owned()),
        Argument::Text(to_rfc3339(deployed_at)),
    ];
    proof {
        assert(argument_views(arguments@) =~= seq![
            ArgumentView::Text(username@),
            ArgumentView::Text(username@),
            ArgumentView::Text(address@),
            ArgumentView::Text(rfc3339_text(deployed_at)),
        ]);
    }
    QueryMessage {
        statement: "INSERT INTO controllers (id, username, address, deployed_at) VALUES (?, ?, ?, ?) ON CONFLICT(id) DO UPDATE SET username=EXCLUDED.username, address=EXCLUDED.address, deployed_at=EXCLUDED.deployed_at RETURNING *".to_owned(),
        arguments,
        query_type: QueryType::Other,
    }
}

/// The statement that stores a transfer.
pub fn store_token_transfer(
    table: &str,
    token_id: &TokenId,
    from: &Felt,
    to: &Felt,
    amount: &U256,
    block_timestamp: u64,
    event_id: &str,
) -> (r: QueryMessage)
    ensures
        r.statement@ == "INSERT INTO "@ + table@
            + " (id, contract_address, from_address, to_address, amount, token_id, event_id, executed_at) VALUES (?, ?, ?, ?, ?, ?, ?, ?) ON CONFLICT DO NOTHING RETURNING *"@,
        argument_views(r.arguments@) == seq![
            ArgumentView::EventTokenText(event_id@, *token_id),
            ArgumentView::FieldElement(token_id.contract()),
            ArgumentView::FieldElement(*from),
            ArgumentView::FieldElement(*to),
            ArgumentView::U256Text(*amount),
            ArgumentView::TokenText(*token_id),
            ArgumentView::Text(event_id@),
            ArgumentView::TimeText(block_timestamp as int),
        ],
        r.query_type == QueryType::StoreTokenTransfer,
{
    let arguments: Vec<Argument> = vec![
        Argument::EventTokenText(event_id.to_owned(), *token_id),
        Argument::FieldElement(token_id.contract_address()),
        Argument::FieldElement(*from),
        Argument::FieldElement(*to),
        Argument::U256Text(*amount),
        Argument::TokenText(*token_id),
        Argument::Text(event_id.to_owned()),
        Argument::TimeText(block_timestamp),
    ];
    proof {
        assert(argument_views(arguments@) =~= seq![
            ArgumentView::EventTokenText(event_id@, *token_id),
            ArgumentView::FieldElement(token_id.contract()),
            ArgumentView::FieldElement(*from),
            ArgumentView::FieldElement(*to),
            ArgumentView::U256Text(*amount),
            ArgumentView::TokenText(*token_id),
            ArgumentView::Text(event_id@),
            ArgumentView::TimeText(block_timestamp as int),
        ]);
    }
    QueryMessage {
        statement: concat(
            &concat("INSERT INTO ", table),
            " (id, contract_address, from_address, to_address, amount, token_id, event_id, executed_at) VALUES (?, ?, ?, ?, ?, ?, ?, ?) ON CONFLICT DO NOTHING RETURNING *",
        ),
        arguments,
        query_type: QueryType::StoreTokenTransfer,
    }
}

/// A message without a statement.
fn without_statement(query_type: QueryType) -> (r: QueryMessage)
    ensures
        r.statement@.len() == 0,
        r.arguments@.len() == 0,
        r.query_type == query_type,
{
    QueryMessage { statement: String::new(), arguments: Vec::new(), query_type }
}

/// That a contract of tokens is to be registered.
pub fn register_token_contract(record: TokenContractRecord) -> (r: QueryMessage)
    ensures
        r.statement@.len() == 0,
        r.arguments@.len() == 0,
        r.query_type == QueryType::RegisterTokenContract(record),
{
    without_statement(QueryType::RegisterTokenContract(record))
}

/// That one token of a contract is to be registered.
pub fn register_nft_token(contract_address: Felt, token_id: U256, metadata: String) -> (r:
    QueryMessage)
    ensures
        r.statement@.len() == 0,
        r.arguments@.len() == 0,
        r.query_type == (QueryType::RegisterNftToken { contract_address, token_id, metadata }),
{
    without_statement(QueryType::RegisterNftToken { contract_address, token_id, metadata })
}

/// That the metadata of a token is to be changed.
pub fn update_token_metadata(token_id: TokenId, metadata: String) -> (r: QueryMessage)
    ensures
        r.statement@.len() == 0,
        r.arguments@.len() == 0,
        r.query_type == (QueryType::UpdateTokenMetadata { token: token_id, metadata }),
{
    without_statement(QueryType::UpdateTokenMetadata { token: token_id, metadata })
}

/// That the changes of balances and supplies are to be written, with how far the contracts are
/// indexed.
pub fn apply_balances_diff(
    balances: Vec<BalanceDiff>,
    supplies: Vec<BalanceDiff>,
    cursors: Vec<ContractCursor>,
) -> (r: QueryMessage)
    ensures
        r.statement@.len() == 0,
        r.arguments@.len() == 0,
        r.query_type == (QueryType::ApplyBalanceDiff { balances, supplies, cursors }),
{
    without_statement(QueryType::ApplyBalanceDiff { balances, supplies, cursors })
}

/// That the cursors of the contracts are to be moved, each with the transactions that moved it.
pub fn update_cursors(
    cursors: Vec<ContractCursor>,
    cursor_transactions: Vec<(Felt, Vec<Felt>)>,
) -> (r: QueryMessage)
    ensures
        r.statement@.len() == 0,
        r.arguments@.len() == 0,
        r.query_type == (QueryType::UpdateCursors { cursors, cursor_transactions }),
{
    without_statement(QueryType::UpdateCursors { cursors, cursor_transactions })
}

/// That the changes are to be committed.
pub fn execute() -> (r: QueryMessage)
    ensures
        r.statement@.len() == 0,
        r.arguments@.len() == 0,
        r.query_type == QueryType::Execute,
{
    without_statement(QueryType::Execute)
}

/// That the changes are to be taken back.
pub fn rollback() -> (r: QueryMessage)
    ensures
        r.statement@.len() == 0,
        r.arguments@.len() == 0,
        r.query_type == QueryType::Rollback,
{
    without_statement(QueryType::Rollback)
}

} // verus!
