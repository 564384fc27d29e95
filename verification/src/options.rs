//! What the operator sets: the options of the program and the texts they are read from.
use vstd::prelude::*;
use vstd::string::*;
use crate::digits::{
    decimal, digits_are_plain, digits_of, parse_of_digits, parse_u64, parsed, zero_padded,
};
use crate::felt::{felt_parsed, Felt};
use crate::ids::{hex_felt, hex_field, hex_field_reads_back};
use crate::text::{
    all_ascii, copy_strings, eq_ignore_ascii_case, list_of, listed, lowercase, same_ignoring_ascii_case, split,
    split_append, split_on, split_single, str_eq, to_lowercase, trim, trimmed, views,
};

verus! {

pub const DEFAULT_HTTP_PORT: u16 = 8080;

pub const DEFAULT_METRICS_PORT: u16 = 9200;

pub const DEFAULT_EVENTS_CHUNK_SIZE: u64 = 1024;

pub const DEFAULT_BLOCKS_CHUNK_SIZE: u64 = 10240;

pub const DEFAULT_BATCH_CHUNK_SIZE: usize = 1024;

pub const DEFAULT_POLLING_INTERVAL: u64 = 500;

pub const DEFAULT_MAX_CONCURRENT_TASKS: usize = 100;

pub const DEFAULT_RELAY_PORT: u16 = 9090;

pub const DEFAULT_RELAY_WEBRTC_PORT: u16 = 9091;

pub const DEFAULT_RELAY_WEBSOCKET_PORT: u16 = 9092;

pub const DEFAULT_GRPC_PORT: u16 = 50051;

pub const DEFAULT_GRPC_SUBSCRIPTION_BUFFER_SIZE: usize = 16384;

pub const DEFAULT_GRPC_TCP_KEEPALIVE_SECS: u64 = 60;

pub const DEFAULT_GRPC_HTTP2_KEEPALIVE_INTERVAL_SECS: u64 = 30;

pub const DEFAULT_GRPC_HTTP2_KEEPALIVE_TIMEOUT_SECS: u64 = 10;

pub const DEFAULT_GRPC_MAX_MESSAGE_SIZE: usize = 16_777_216;

pub const DEFAULT_ERC_MAX_METADATA_TASKS: usize = 100;

pub const DEFAULT_DATABASE_WAL_AUTO_CHECKPOINT: u64 = 10000;

pub const DEFAULT_DATABASE_WAL_TRUNCATE_SIZE_THRESHOLD: u64 = 104_857_600;

pub const DEFAULT_DATABASE_OPTIMIZE_INTERVAL: u64 = 3600;

pub const DEFAULT_DATABASE_BUSY_TIMEOUT: u64 = 60_000;

pub const DEFAULT_DATABASE_ACQUIRE_TIMEOUT: u64 = 30_000;

pub const DEFAULT_DATABASE_IDLE_TIMEOUT: u64 = 600_000;

pub const DEFAULT_DATABASE_MAX_CONNECTIONS: u32 = 100;

pub const DEFAULT_MESSAGING_MAX_AGE: u64 = 300_000;

pub const DEFAULT_MESSAGING_FUTURE_TOLERANCE: u64 = 60_000;

pub const DEFAULT_ACTIVITY_SESSION_TIMEOUT: u64 = 3600;

pub const DEFAULT_ACTIVITY_RETENTION_DAYS: u64 = 30;

pub const DEFAULT_ACHIEVEMENT_REGISTRATION_MODEL_NAME: &'static str = "TrophyCreation";

pub const DEFAULT_ACHIEVEMENT_PROGRESSION_MODEL_NAME: &'static str = "TrophyProgression";

pub const DEFAULT_SEARCH_MAX_RESULTS: usize = 100;

pub const DEFAULT_SEARCH_MIN_QUERY_LENGTH: usize = 2;

pub const DEFAULT_SEARCH_SNIPPET_LENGTH: usize = 64;

pub const DEFAULT_DATABASE_PAGE_SIZE: u64 = 4096;

pub const DEFAULT_DATABASE_CACHE_SIZE: i64 = -500_000;

pub const DEFAULT_DATABASE_SOFT_MEMORY_LIMIT: u64 = 1_073_741_824;

pub const DEFAULT_DATABASE_HARD_MEMORY_LIMIT: u64 = 2_147_483_648;

pub const DEFAULT_DATABASE_MMAP_SIZE: u64 = 268_435_456;

pub const DEFAULT_DATABASE_JOURNAL_SIZE_LIMIT: u64 = 67_108_864;

pub const DEFAULT_DATABASE_TEMP_STORE: &'static str = "file";

/// An address of the Internet protocol.
#[derive(Clone, Copy, Debug, PartialEq, Eq, Structural)]
pub enum IpAddress {
    /// Version four, by its 32 bits.
    V4(u32),
    /// Version six, by its 128 bits.
    V6(u128),
}

/// The loopback address 127.0.0.1.
pub const LOCALHOST: u32 = 0x7f00_0001;

/// The kind of an indexed contract.
#[derive(Clone, Copy, Debug, PartialEq, Eq, Structural)]
pub enum ContractType {
    WORLD,
    ERC20,
    ERC721,
    ERC1155,
    UDC,
    OTHER,
}

/// The kind of contract that a name stands for, in any case of its letters.
pub open spec fn contract_type_named(s: Seq<char>) -> Option<ContractType> {
    let l = lowercase(s);
    if l == "world"@ {
        Some(ContractType::WORLD)
    } else if l == "erc20"@ {
        Some(ContractType::ERC20)
    } else if l == "erc721"@ {
        Some(ContractType::ERC721)
    } else if l == "erc1155"@ {
        Some(ContractType::ERC1155)
    } else if l == "udc"@ {
        Some(ContractType::UDC)
    } else if l == "other"@ {
        Some(ContractType::OTHER)
    } else {
        None
    }
}

impl ContractType {
    /// The kind that the lower-case name `l` stands for.
    pub fn from_lowercase(l: &str) -> (r: Option<ContractType>)
        ensures
            r == (if l@ == "world"@ {
                Some(ContractType::WORLD)
            } else if l@ == "erc20"@ {
                Some(ContractType::ERC20)
            } else if l@ == "erc721"@ {
                Some(ContractType::ERC721)
            } else if l@ == "erc1155"@ {
                Some(ContractType::ERC1155)
            } else if l@ == "udc"@ {
                Some(ContractType::UDC)
            } else if l@ == "other"@ {
                Some(ContractType::OTHER)
            } else {
                None
            }),
    {
        if str_eq(l, "world") {
            Some(ContractType::WORLD)
        } else if str_eq(l, "erc20") {
            Some(ContractType::ERC20)
        } else if str_eq(l, "erc721") {
            Some(ContractType::ERC721)
        } else if str_eq(l, "erc1155") {
            Some(ContractType::ERC1155)
        } else if str_eq(l, "udc") {
            Some(ContractType::UDC)
        } else if str_eq(l, "other") {
            Some(ContractType::OTHER)
        } else {
            None
        }
    }

    /// The kind of contract that a name stands for, in any case of its letters.
    pub fn parse(s: &str) -> (r: Option<ContractType>)
        ensures
            r == contract_type_named(s@),
    {
        ContractType::from_lowercase(&to_lowercase(s))
    }
}

/// A contract to index.
#[derive(Clone, Copy, Debug, PartialEq, Eq, Structural)]
pub struct ContractDefinition {
    pub address: Felt,
    pub kind: ContractType,
    pub starting_block: Option<u64>,
}

/// The columns of a model to build indices on.
#[derive(Debug)]
pub struct ModelIndices {
    pub model_tag: String,
    pub fields: Vec<String>,
}

/// When a hook runs.
#[derive(Debug)]
pub enum HookEvent {
    ModelRegistered { model_tag: String },
    ModelUpdated { model_tag: String },
    ModelDeleted { model_tag: String },
}

/// A statement that runs on an event.
#[derive(Debug)]
pub struct Hook {
    pub event: HookEvent,
    pub statement: String,
}

/// How an aggregator combines the values of a group.
#[derive(Debug)]
pub enum Aggregation {
    Latest(String),
    Count,
    Max(String),
    Min(String),
    Sum(String),
    Avg(String),
}

/// The direction in which an aggregator ranks.
#[derive(Clone, Copy, Debug, PartialEq, Eq, Structural)]
pub enum SortOrder {
    Asc,
    Desc,
}

/// A leaderboard over the values of a model.
#[derive(Debug)]
pub struct AggregatorConfig {
    pub id: String,
    pub model_tag: String,
    pub group_by: Vec<String>,
    pub aggregation: Aggregation,
    pub order: SortOrder,
}

/// Why the text of an option was refused.
#[derive(Clone, Copy, Debug, PartialEq, Eq, Structural)]
pub enum OptionError {
    ModelIndicesFormat,
    HookFormat,
    HookDataEmpty,
    RegisteredTagCount,
    UpdatedTagCount,
    DeletedTagCount,
    HookEventType,
    ContractFormat,
    ContractKind,
    ContractAddress,
    ContractBlock,
    AggregatorFormat,
    AggregationType,
    AggregatorOrder,
    GroupByEmpty,
}

impl OptionError {
    /// The message for the operator.
    pub fn message(&self) -> (r: &'static str)
        ensures
            r@ == (match *self {
                OptionError::ModelIndicesFormat => "Invalid model indices format"@,
                OptionError::HookFormat =>
                    "Invalid hook format. Expected 'event:event_data:statement'"@,
                OptionError::HookDataEmpty => "Event data cannot be empty"@,
                OptionError::RegisteredTagCount =>
                    "model_registered event requires exactly one model tag"@,
                OptionError::UpdatedTagCount =>
                    "model_updated event requires exactly one model tag"@,
                OptionError::DeletedTagCount =>
                    "model_deleted event requires exactly one model tag"@,
                OptionError::HookEventType =>
                    "Invalid event type. Expected 'model_registered', 'model_updated' or 'model_deleted'"@,
                OptionError::ContractFormat =>
                    "Invalid contract format. Expected format: contract_type:address or contract_type:address:starting_block"@,
                OptionError::ContractKind => "Invalid ERC type"@,
                OptionError::ContractAddress => "Expected address"@,
                OptionError::ContractBlock => "Expected block number"@,
                OptionError::AggregatorFormat =>
                    "Invalid aggregator config format. Expected 'aggregator_id:model_tag:group_by:aggregation:order' or 'aggregator_id:model_tag:group_by:aggregation_type:field:order'"@,
                OptionError::AggregationType =>
                    "Invalid aggregation type. Expected 'max', 'min', 'sum', or 'avg'"@,
                OptionError::AggregatorOrder => "Invalid order. Expected 'asc' or 'desc'"@,
                OptionError::GroupByEmpty => "group_by cannot be empty"@,
            }),
    {
        match self {
            OptionError::ModelIndicesFormat => "Invalid model indices format",
            OptionError::HookFormat => "Invalid hook format. Expected 'event:event_data:statement'",
            OptionError::HookDataEmpty => "Event data cannot be empty",
            OptionError::RegisteredTagCount =>
                "model_registered event requires exactly one model tag",
            OptionError::UpdatedTagCount => "model_updated event requires exactly one model tag",
            OptionError::DeletedTagCount => "model_deleted event requires exactly one model tag",
            OptionError::HookEventType =>
                "Invalid event type. Expected 'model_registered', 'model_updated' or 'model_deleted'",
            OptionError::ContractFormat =>
                "Invalid contract format. Expected format: contract_type:address or contract_type:address:starting_block",
            OptionError::ContractKind => "Invalid ERC type",
            OptionError::ContractAddress => "Expected address",
            OptionError::ContractBlock => "Expected block number",
            OptionError::AggregatorFormat =>
                "Invalid aggregator config format. Expected 'aggregator_id:model_tag:group_by:aggregation:order' or 'aggregator_id:model_tag:group_by:aggregation_type:field:order'",
            OptionError::AggregationType =>
                "Invalid aggregation type. Expected 'max', 'min', 'sum', or 'avg'",
            OptionError::AggregatorOrder => "Invalid order. Expected 'asc' or 'desc'",
            OptionError::GroupByEmpty => "group_by cannot be empty",
        }
    }
}

/// The tag and the fields of `model-tag:field1,field2`: exactly when there is one colon.
pub fn parse_model_indices(part: &str) -> (r: Result<ModelIndices, OptionError>)
    ensures
        match r {
            Ok(m) => split(part@, ':') == seq![m.model_tag@, split(part@, ':')[1]]
                && views(m.fields@) == split(split(part@, ':')[1], ','),
            Err(e) => split(part@, ':').len() != 2 && e == OptionError::ModelIndicesFormat,
        },
{
    let parts = split_on(part, ':');
    if parts.len() != 2 {
        return Err(OptionError::ModelIndicesFormat);
    }
    let fields = split_on(&parts[1], ',');
    proof {
        assert(views(parts@)[1] == parts@[1]@);
        assert(views(parts@) =~= seq![parts@[0]@, parts@[1]@]);
    }
    Ok(ModelIndices { model_tag: parts[0].clone(), fields })
}

/// The tag that the event of a hook is about.
pub open spec fn hook_tag(e: HookEvent) -> Seq<char> {
    match e {
        HookEvent::ModelRegistered { model_tag } => model_tag@,
        HookEvent::ModelUpdated { model_tag } => model_tag@,
        HookEvent::ModelDeleted { model_tag } => model_tag@,
    }
}

/// The name of the event of a hook.
pub open spec fn hook_name(e: HookEvent) -> Seq<char> {
    match e {
        HookEvent::ModelRegistered { .. } => "model_registered"@,
        HookEvent::ModelUpdated { .. } => "model_updated"@,
        HookEvent::ModelDeleted { .. } => "model_deleted"@,
    }
}

/// Why the text of a hook is refused, if it is.
pub open spec fn hook_error(part: Seq<char>) -> Option<OptionError> {
    let parts = split(part, ':');
    if parts.len() != 3 {
        Some(OptionError::HookFormat)
    } else if listed(parts[1]).len() == 0 {
        Some(OptionError::HookDataEmpty)
    } else if parts[0] == "model_registered"@ {
        if listed(parts[1]).len() != 1 {
            Some(OptionError::RegisteredTagCount)
        } else {
            None
        }
    } else if parts[0] == "model_updated"@ {
        if listed(parts[1]).len() != 1 {
            Some(OptionError::UpdatedTagCount)
        } else {
            None
        }
    } else if parts[0] == "model_deleted"@ {
        if listed(parts[1]).len() != 1 {
            Some(OptionError::DeletedTagCount)
        } else {
            None
        }
    } else {
        Some(OptionError::HookEventType)
    }
}

/// The hook that `event:event_data:statement` writes.
pub fn parse_hook(part: &str) -> (r: Result<Hook, OptionError>)
    ensures
        match r {
            Ok(h) => hook_error(part@) is None && hook_name(h.event) == split(part@, ':')[0]
                && hook_tag(h.event) == listed(split(part@, ':')[1])[0] && h.statement@ == split(
                part@,
                ':',
            )[2],
            Err(e) => hook_error(part@) == Some(e),
        },
{
    let parts = split_on(part, ':');
    proof {
        assert forall|i: int| 0 <= i < parts@.len() implies views(parts@)[i] == parts@[i]@ by {}
    }
    if parts.len() != 3 {
        return Err(OptionError::HookFormat);
    }
    let data = list_of(&parts[1]);
    if data.len() == 0 {
        return Err(OptionError::HookDataEmpty);
    }
    proof {
        assert(views(data@)[0] == data@[0]@);
    }
    let statement = parts[2].clone();
    if str_eq(&parts[0], "model_registered") {
        if data.len() != 1 {
            return Err(OptionError::RegisteredTagCount);
        }
        Ok(Hook { event: HookEvent::ModelRegistered { model_tag: data[0].clone() }, statement })
    } else if str_eq(&parts[0], "model_updated") {
        if data.len() != 1 {
            return Err(OptionError::UpdatedTagCount);
        }
        Ok(Hook { event: HookEvent::ModelUpdated { model_tag: data[0].clone() }, statement })
    } else if str_eq(&parts[0], "model_deleted") {
        if data.len() != 1 {
            return Err(OptionError::DeletedTagCount);
        }
        Ok(Hook { event: HookEvent::ModelDeleted { model_tag: data[0].clone() }, statement })
    } else {
        Err(OptionError::HookEventType)
    }
}

/// The block number that a text writes.
pub open spec fn block_parsed(s: Seq<char>) -> Option<nat> {
    match parsed(s, 10) {
        Some(n) => if n <= u64::MAX {
            Some(n)
        } else {
            None
        },
        None => None,
    }
}

/// Why the text of a contract is refused, if it is.
pub open spec fn contract_error(part: Seq<char>) -> Option<OptionError> {
    let parts = split(part, ':');
    if parts.len() != 2 && parts.len() != 3 {
        Some(OptionError::ContractFormat)
    } else if contract_type_named(parts[0]) is None {
        Some(OptionError::ContractKind)
    } else if felt_parsed(parts[1]) is None {
        Some(OptionError::ContractAddress)
    } else if parts.len() == 3 && block_parsed(parts[2]) is None {
        Some(OptionError::ContractBlock)
    } else {
        None
    }
}

/// The contract that `contract_type:address` or `contract_type:address:starting_block` writes.
pub fn parse_erc_contract(part: &str) -> (r: Result<ContractDefinition, OptionError>)
    ensures
        match r {
            Ok(c) => {
                let parts = split(part@, ':');
                &&& contract_error(part@) is None
                &&& contract_type_named(parts[0]) == Some(c.kind)
                &&& felt_parsed(parts[1]) == Some(c.address.value())
                &&& c.address.wf()
                &&& parts.len() == 2 ==> c.starting_block is None
                &&& parts.len() == 3 ==> c.starting_block is Some && block_parsed(parts[2]) == Some(
                    c.starting_block->0 as nat,
                )
            },
            Err(e) => contract_error(part@) == Some(e),
        },
{
    let parts = split_on(part, ':');
    proof {
        assert forall|i: int| 0 <= i < parts@.len() implies views(parts@)[i] == parts@[i]@ by {}
    }
    if parts.len() != 2 && parts.len() != 3 {
        return Err(OptionError::ContractFormat);
    }
    let kind = match ContractType::parse(&parts[0]) {
        Some(k) => k,
        None => {
            return Err(OptionError::ContractKind);
        },
    };
    let address = match Felt::from_str(&parts[1]) {
        Some(a) => a,
        None => {
            return Err(OptionError::ContractAddress);
        },
    };
    if parts.len() == 2 {
        return Ok(ContractDefinition { address, kind, starting_block: None });
    }
    match parse_u64(&parts[2], 10) {
        Some(b) => Ok(ContractDefinition { address, kind, starting_block: Some(b) }),
        None => Err(OptionError::ContractBlock),
    }
}

/// What an aggregation is, by name and field.
pub open spec fn aggregation_view(a: Aggregation) -> (Seq<char>, Seq<char>) {
    match a {
        Aggregation::Latest(f) => ("latest"@, f@),
        Aggregation::Count => ("count"@, Seq::empty()),
        Aggregation::Max(f) => ("max"@, f@),
        Aggregation::Min(f) => ("min"@, f@),
        Aggregation::Sum(f) => ("sum"@, f@),
        Aggregation::Avg(f) => ("avg"@, f@),
    }
}

/// The aggregation that a single word stands for: a count, or else the latest value of that field.
pub open spec fn simple_aggregation(word: Seq<char>) -> (Seq<char>, Seq<char>) {
    if word == "+1"@ || word == "increment"@ || word == "count"@ {
        ("count"@, Seq::empty())
    } else {
        ("latest"@, word)
    }
}

/// The aggregation over a field that a lower-case word stands for.
pub open spec fn field_aggregation(word: Seq<char>, field: Seq<char>) -> Option<
    (Seq<char>, Seq<char>),
> {
    if word == "max"@ {
        Some(("max"@, field))
    } else if word == "min"@ {
        Some(("min"@, field))
    } else if word == "sum"@ {
        Some(("sum"@, field))
    } else if word == "avg"@ || word == "average"@ {
        Some(("avg"@, field))
    } else {
        None
    }
}

/// The order that a lower-case word stands for.
pub open spec fn order_named(word: Seq<char>) -> Option<SortOrder> {
    if word == "desc"@ {
        Some(SortOrder::Desc)
    } else if word == "asc"@ {
        Some(SortOrder::Asc)
    } else {
        None
    }
}

/// Why the text of an aggregator is refused, if it is.
pub open spec fn aggregator_error(part: Seq<char>) -> Option<OptionError> {
    let parts = split(part, ':');
    if parts.len() != 5 && parts.len() != 6 {
        Some(OptionError::AggregatorFormat)
    } else if parts.len() == 6 && field_aggregation(lowercase(parts[3]), parts[4]) is None {
        Some(OptionError::AggregationType)
    } else if order_named(lowercase(parts.last())) is None {
        Some(OptionError::AggregatorOrder)
    } else if listed(parts[2]).len() == 0 {
        Some(OptionError::GroupByEmpty)
    } else {
        None
    }
}

/// The aggregator that `aggregator_id:model_tag:group_by:aggregation:order`, or the same with a
/// field after the aggregation, writes.
pub fn parse_aggregator_config(part: &str) -> (r: Result<AggregatorConfig, OptionError>)
    ensures
        match r {
            Ok(c) => {
                let parts = split(part@, ':');
                &&& aggregator_error(part@) is None
                &&& c.id@ == parts[0]
                &&& c.model_tag@ == parts[1]
                &&& views(c.group_by@) == listed(parts[2])
                &&& parts.len() == 5 ==> aggregation_view(c.aggregation) == simple_aggregation(
                    parts[3],
                )
                &&& parts.len() == 6 ==> Some(aggregation_view(c.aggregation)) == field_aggregation(
                    lowercase(parts[3]),
                    parts[4],
                )
                &&& order_named(lowercase(parts.last())) == Some(c.order)
            },
            Err(e) => aggregator_error(part@) == Some(e),
        },
{
    let parts = split_on(part, ':');
    proof {
        assert forall|i: int| 0 <= i < parts@.len() implies views(parts@)[i] == parts@[i]@ by {}
    }
    if parts.len() != 5 && parts.len() != 6 {
        return Err(OptionError::AggregatorFormat);
    }
    let aggregation = if parts.len() == 5 {
        if str_eq(&parts[3], "+1") || str_eq(&parts[3], "increment") || str_eq(&parts[3], "count") {
            Aggregation::Count
        } else {
            Aggregation::Latest(parts[3].clone())
        }
    } else {
        let word = to_lowercase(&parts[3]);
        if str_eq(&word, "max") {
            Aggregation::Max(parts[4].clone())
        } else if str_eq(&word, "min") {
            Aggregation::Min(parts[4].clone())
        } else if str_eq(&word, "sum") {
            Aggregation::Sum(parts[4].clone())
        } else if str_eq(&word, "avg") || str_eq(&word, "average") {
            Aggregation::Avg(parts[4].clone())
        } else {
            return Err(OptionError::AggregationType);
        }
    };
    let word = to_lowercase(&parts[parts.len() - 1]);
    let order = if str_eq(&word, "desc") {
        SortOrder::Desc
    } else if str_eq(&word, "asc") {
        SortOrder::Asc
    } else {
        return Err(OptionError::AggregatorOrder);
    };
    let group_by = list_of(&parts[2]);
    if group_by.len() == 0 {
        return Err(OptionError::GroupByEmpty);
    }
    Ok(
        AggregatorConfig {
            id: parts[0].clone(),
            model_tag: parts[1].clone(),
            group_by,
            aggregation,
            order,
        },
    )
}

/// Options of the peer-to-peer relay.
#[derive(Debug)]
pub struct RelayOptions {
    pub port: u16,
    pub webrtc_port: u16,
    pub websocket_port: u16,
    pub local_key_path: Option<String>,
    pub cert_path: Option<String>,
    pub peers: Vec<String>,
}

impl Default for RelayOptions {
    fn default() -> (r: Self)
        ensures
            r.port == DEFAULT_RELAY_PORT,
            r.webrtc_port == DEFAULT_RELAY_WEBRTC_PORT,
            r.websocket_port == DEFAULT_RELAY_WEBSOCKET_PORT,
            r.local_key_path is None,
            r.cert_path is None,
            r.peers@.len() == 0,
    {
        RelayOptions {
            port: DEFAULT_RELAY_PORT,
            webrtc_port: DEFAULT_RELAY_WEBRTC_PORT,
            websocket_port: DEFAULT_RELAY_WEBSOCKET_PORT,
            local_key_path: None,
            cert_path: None,
            peers: Vec::new(),
        }
    }
}

/// Options of the indexer.
#[derive(Debug)]
pub struct IndexingOptions {
    pub events_chunk_size: u64,
    pub blocks_chunk_size: u64,
    pub preconfirmed: bool,
    pub polling_interval: u64,
    pub max_concurrent_tasks: usize,
    pub transactions: bool,
    pub transaction_receipts: bool,
    pub contracts: Vec<ContractDefinition>,
    pub namespaces: Vec<String>,
    pub models: Vec<String>,
    pub world_block: u64,
    pub controllers: bool,
    pub strict_model_reader: bool,
    pub batch_chunk_size: usize,
    pub external_contracts: bool,
    pub external_contract_whitelist: Vec<String>,
}

impl Default for IndexingOptions {
    fn default() -> (r: Self)
        ensures
            r.events_chunk_size == DEFAULT_EVENTS_CHUNK_SIZE,
            r.blocks_chunk_size == DEFAULT_BLOCKS_CHUNK_SIZE,
            r.preconfirmed,
            r.polling_interval == DEFAULT_POLLING_INTERVAL,
            r.max_concurrent_tasks == DEFAULT_MAX_CONCURRENT_TASKS,
            !r.transactions,
            !r.transaction_receipts,
            r.contracts@.len() == 0,
            r.namespaces@.len() == 0,
            r.models@.len() == 0,
            r.world_block == 0,
            !r.controllers,
            !r.strict_model_reader,
            r.batch_chunk_size == DEFAULT_BATCH_CHUNK_SIZE,
            r.external_contracts,
            r.external_contract_whitelist@.len() == 0,
    {
        IndexingOptions {
            events_chunk_size: DEFAULT_EVENTS_CHUNK_SIZE,
            blocks_chunk_size: DEFAULT_BLOCKS_CHUNK_SIZE,
            preconfirmed: true,
            polling_interval: DEFAULT_POLLING_INTERVAL,
            max_concurrent_tasks: DEFAULT_MAX_CONCURRENT_TASKS,
            transactions: false,
            transaction_receipts: false,
            contracts: Vec::new(),
            namespaces: Vec::new(),
            models: Vec::new(),
            world_block: 0,
            controllers: false,
            strict_model_reader: false,
            batch_chunk_size: DEFAULT_BATCH_CHUNK_SIZE,
            external_contracts: true,
            external_contract_whitelist: Vec::new(),
        }
    }
}

/// Options of the event indexing.
#[derive(Debug)]
pub struct EventsOptions {
    pub raw: bool,
}

impl Default for EventsOptions {
    fn default() -> (r: Self)
        ensures
            !r.raw,
    {
        EventsOptions {
            raw: false,
        }
    }
}

/// Options of the HTTP server.
#[derive(Debug)]
pub struct ServerOptions {
    pub http_addr: IpAddress,
    pub http_port: u16,
    pub http_cors_origins: Option<Vec<String>>,
    pub raw_sql: bool,
    pub tls_cert_path: Option<String>,
    pub tls_key_path: Option<String>,
    pub mkcert: bool,
}

impl Default for ServerOptions {
    fn default() -> (r: Self)
        ensures
            r.http_addr == IpAddress::V4(LOCALHOST),
            r.http_port == DEFAULT_HTTP_PORT,
            r.http_cors_origins is None,
            r.raw_sql,
            r.tls_cert_path is None,
            r.tls_key_path is None,
            !r.mkcert,
    {
        ServerOptions {
            http_addr: IpAddress::V4(LOCALHOST),
            http_port: DEFAULT_HTTP_PORT,
            http_cors_origins: None,
            raw_sql: true,
            tls_cert_path: None,
            tls_key_path: None,
            mkcert: false,
        }
    }
}

/// Options of the metrics endpoint.
#[derive(Debug)]
pub struct MetricsOptions {
    pub metrics: bool,
    pub metrics_addr: IpAddress,
    pub metrics_port: u16,
}

impl Default for MetricsOptions {
    fn default() -> (r: Self)
        ensures
            !r.metrics,
            r.metrics_addr == IpAddress::V4(LOCALHOST),
            r.metrics_port == DEFAULT_METRICS_PORT,
    {
        MetricsOptions {
            metrics: false,
            metrics_addr: IpAddress::V4(LOCALHOST),
            metrics_port: DEFAULT_METRICS_PORT,
        }
    }
}

/// Options of the token indexing.
#[derive(Debug)]
pub struct ErcOptions {
    pub max_metadata_tasks: usize,
    pub artifacts_path: Option<String>,
    pub token_attributes: bool,
    pub trait_counts: bool,
    pub metadata_updates: bool,
    pub metadata_update_whitelist: Vec<String>,
    pub metadata_update_blacklist: Vec<String>,
    pub metadata_updates_only_at_head: bool,
    pub async_metadata_updates: bool,
}

impl Default for ErcOptions {
    fn default() -> (r: Self)
        ensures
            r.max_metadata_tasks == DEFAULT_ERC_MAX_METADATA_TASKS,
            r.artifacts_path is None,
            r.token_attributes,
            !r.trait_counts,
            r.metadata_updates,
            r.metadata_update_whitelist@.len() == 0,
            r.metadata_update_blacklist@.len() == 0,
            !r.metadata_updates_only_at_head,
            !r.async_metadata_updates,
    {
        ErcOptions {
            max_metadata_tasks: DEFAULT_ERC_MAX_METADATA_TASKS,
            artifacts_path: None,
            token_attributes: true,
            trait_counts: false,
            metadata_updates: true,
            metadata_update_whitelist: Vec::new(),
            metadata_update_blacklist: Vec::new(),
            metadata_updates_only_at_head: false,
            async_metadata_updates: false,
        }
    }
}

/// Options of the off-chain messages.
#[derive(Debug)]
pub struct MessagingOptions {
    pub max_age: u64,
    pub future_tolerance: u64,
    pub require_timestamp: bool,
}

impl Default for MessagingOptions {
    fn default() -> (r: Self)
        ensures
            r.max_age == DEFAULT_MESSAGING_MAX_AGE,
            r.future_tolerance == DEFAULT_MESSAGING_FUTURE_TOLERANCE,
            !r.require_timestamp,
    {
        MessagingOptions {
            max_age: DEFAULT_MESSAGING_MAX_AGE,
            future_tolerance: DEFAULT_MESSAGING_FUTURE_TOLERANCE,
            require_timestamp: false,
        }
    }
}

/// Options of the database.
#[derive(Debug)]
pub struct SqlOptions {
    pub all_model_indices: bool,
    pub model_indices: Vec<ModelIndices>,
    pub historical: Vec<String>,
    pub page_size: u64,
    pub cache_size: i64,
    pub hooks: Vec<Hook>,
    pub migrations: Option<String>,
    pub aggregators: Vec<AggregatorConfig>,
    pub wal_autocheckpoint: u64,
    pub wal_truncate_size_threshold: u64,
    pub optimize_interval: u64,
    pub busy_timeout: u64,
    pub acquire_timeout: u64,
    pub idle_timeout: u64,
    pub max_connections: u32,
    pub soft_memory_limit: u64,
    pub hard_memory_limit: u64,
    pub shared_cache: bool,
    pub temp_store: String,
    pub mmap_size: u64,
    pub journal_size_limit: u64,
}

impl Default for SqlOptions {
    fn default() -> (r: Self)
        ensures
            !r.all_model_indices,
            r.model_indices@.len() == 0,
            r.historical@.len() == 0,
            r.page_size == DEFAULT_DATABASE_PAGE_SIZE,
            r.cache_size == DEFAULT_DATABASE_CACHE_SIZE,
            r.hooks@.len() == 0,
            r.migrations is None,
            r.aggregators@.len() == 0,
            r.wal_autocheckpoint == DEFAULT_DATABASE_WAL_AUTO_CHECKPOINT,
            r.wal_truncate_size_threshold == DEFAULT_DATABASE_WAL_TRUNCATE_SIZE_THRESHOLD,
            r.optimize_interval == DEFAULT_DATABASE_OPTIMIZE_INTERVAL,
            r.busy_timeout == DEFAULT_DATABASE_BUSY_TIMEOUT,
            r.acquire_timeout == DEFAULT_DATABASE_ACQUIRE_TIMEOUT,
            r.idle_timeout == DEFAULT_DATABASE_IDLE_TIMEOUT,
            r.max_connections == DEFAULT_DATABASE_MAX_CONNECTIONS,
            r.soft_memory_limit == DEFAULT_DATABASE_SOFT_MEMORY_LIMIT,
            r.hard_memory_limit == DEFAULT_DATABASE_HARD_MEMORY_LIMIT,
            !r.shared_cache,
            r.temp_store@ == DEFAULT_DATABASE_TEMP_STORE@,
            r.mmap_size == DEFAULT_DATABASE_MMAP_SIZE,
            r.journal_size_limit == DEFAULT_DATABASE_JOURNAL_SIZE_LIMIT,
    {
        SqlOptions {
            all_model_indices: false,
            model_indices: Vec::new(),
            historical: Vec::new(),
            page_size: DEFAULT_DATABASE_PAGE_SIZE,
            cache_size: DEFAULT_DATABASE_CACHE_SIZE,
            hooks: Vec::new(),
            migrations: None,
            aggregators: Vec::new(),
            wal_autocheckpoint: DEFAULT_DATABASE_WAL_AUTO_CHECKPOINT,
            wal_truncate_size_threshold: DEFAULT_DATABASE_WAL_TRUNCATE_SIZE_THRESHOLD,
            optimize_interval: DEFAULT_DATABASE_OPTIMIZE_INTERVAL,
            busy_timeout: DEFAULT_DATABASE_BUSY_TIMEOUT,
            acquire_timeout: DEFAULT_DATABASE_ACQUIRE_TIMEOUT,
            idle_timeout: DEFAULT_DATABASE_IDLE_TIMEOUT,
            max_connections: DEFAULT_DATABASE_MAX_CONNECTIONS,
            soft_memory_limit: DEFAULT_DATABASE_SOFT_MEMORY_LIMIT,
            hard_memory_limit: DEFAULT_DATABASE_HARD_MEMORY_LIMIT,
            shared_cache: false,
            temp_store: DEFAULT_DATABASE_TEMP_STORE.to_owned(),
            mmap_size: DEFAULT_DATABASE_MMAP_SIZE,
            journal_size_limit: DEFAULT_DATABASE_JOURNAL_SIZE_LIMIT,
        }
    }
}

/// Options of the activity tracking.
#[derive(Debug)]
pub struct ActivityOptions {
    pub activity_enabled: bool,
    pub session_timeout: u64,
    pub excluded_entrypoints: Vec<String>,
}

impl Default for ActivityOptions {
    fn default() -> (r: Self)
        ensures
            !r.activity_enabled,
            r.session_timeout == DEFAULT_ACTIVITY_SESSION_TIMEOUT,
            r.excluded_entrypoints@.len() == 0,
    {
        ActivityOptions {
            activity_enabled: false,
            session_timeout: DEFAULT_ACTIVITY_SESSION_TIMEOUT,
            excluded_entrypoints: Vec::new(),
        }
    }
}

/// Options of the achievement tracking.
#[derive(Debug)]
pub struct AchievementOptions {
    pub registration_model_name: String,
    pub progression_model_name: String,
}

impl Default for AchievementOptions {
    fn default() -> (r: Self)
        ensures
            r.registration_model_name@ == DEFAULT_ACHIEVEMENT_REGISTRATION_MODEL_NAME@,
            r.progression_model_name@ == DEFAULT_ACHIEVEMENT_PROGRESSION_MODEL_NAME@,
    {
        AchievementOptions {
            registration_model_name: DEFAULT_ACHIEVEMENT_REGISTRATION_MODEL_NAME.to_owned(),
            progression_model_name: DEFAULT_ACHIEVEMENT_PROGRESSION_MODEL_NAME.to_owned(),
        }
    }
}

/// Options of the full-text search.
#[derive(Debug)]
pub struct SearchOptions {
    pub search_enabled: bool,
    pub max_results: usize,
    pub min_query_length: usize,
    pub return_snippets: bool,
    pub snippet_length: usize,
    pub prefix_matching: bool,
}

impl Default for SearchOptions {
    fn default() -> (r: Self)
        ensures
            !r.search_enabled,
            r.max_results == DEFAULT_SEARCH_MAX_RESULTS,
            r.min_query_length == DEFAULT_SEARCH_MIN_QUERY_LENGTH,
            r.return_snippets,
            r.snippet_length == DEFAULT_SEARCH_SNIPPET_LENGTH,
            r.prefix_matching,
    {
        SearchOptions {
            search_enabled: false,
            max_results: DEFAULT_SEARCH_MAX_RESULTS,
            min_query_length: DEFAULT_SEARCH_MIN_QUERY_LENGTH,
            return_snippets: true,
            snippet_length: DEFAULT_SEARCH_SNIPPET_LENGTH,
            prefix_matching: true,
        }
    }
}

/// Options of the snapshot to start from.
#[derive(Debug)]
pub struct SnapshotOptions {
    pub url: Option<String>,
    pub version: Option<String>,
}

impl Default for SnapshotOptions {
    fn default() -> (r: Self)
        ensures
            r.url is None,
            r.version is None,
    {
        SnapshotOptions {
            url: None,
            version: None,
        }
    }
}

/// Options of the runner.
#[derive(Debug)]
pub struct RunnerOptions {
    pub explorer: bool,
    pub check_contracts: bool,
    pub query_threads: usize,
    pub indexer_threads: usize,
    pub allocation_strategy: String,
}

impl Default for RunnerOptions {
    fn default() -> (r: Self)
        ensures
            !r.explorer,
            !r.check_contracts,
            r.query_threads == 0,
            r.indexer_threads == 0,
            r.allocation_strategy@ == "adaptive"@,
    {
        RunnerOptions {
            explorer: false,
            check_contracts: false,
            query_threads: 0,
            indexer_threads: 0,
            allocation_strategy: "adaptive".to_owned(),
        }
    }
}

/// Options of the gRPC server.
#[derive(Debug)]
pub struct GrpcOptions {
    pub grpc_addr: IpAddress,
    pub grpc_port: u16,
    pub subscription_buffer_size: usize,
    pub optimistic: bool,
    pub tcp_keepalive_interval: u64,
    pub http2_keepalive_interval: u64,
    pub http2_keepalive_timeout: u64,
    pub max_message_size: usize,
}

impl Default for GrpcOptions {
    fn default() -> (r: Self)
        ensures
            r.grpc_addr == IpAddress::V4(LOCALHOST),
            r.grpc_port == DEFAULT_GRPC_PORT,
            r.subscription_buffer_size == DEFAULT_GRPC_SUBSCRIPTION_BUFFER_SIZE,
            !r.optimistic,
            r.tcp_keepalive_interval == DEFAULT_GRPC_TCP_KEEPALIVE_SECS,
            r.http2_keepalive_interval == DEFAULT_GRPC_HTTP2_KEEPALIVE_INTERVAL_SECS,
            r.http2_keepalive_timeout == DEFAULT_GRPC_HTTP2_KEEPALIVE_TIMEOUT_SECS,
            r.max_message_size == DEFAULT_GRPC_MAX_MESSAGE_SIZE,
    {
        GrpcOptions {
            grpc_addr: IpAddress::V4(LOCALHOST),
            grpc_port: DEFAULT_GRPC_PORT,
            subscription_buffer_size: DEFAULT_GRPC_SUBSCRIPTION_BUFFER_SIZE,
            optimistic: false,
            tcp_keepalive_interval: DEFAULT_GRPC_TCP_KEEPALIVE_SECS,
            http2_keepalive_interval: DEFAULT_GRPC_HTTP2_KEEPALIVE_INTERVAL_SECS,
            http2_keepalive_timeout: DEFAULT_GRPC_HTTP2_KEEPALIVE_TIMEOUT_SECS,
            max_message_size: DEFAULT_GRPC_MAX_MESSAGE_SIZE,
        }
    }
}

/// Whether an entry of a list, trimmed, names the address in hexadecimal, with or without `0x` and
/// in any case of its letters.
pub open spec fn names_address(entry: Seq<char>, address: nat) -> bool {
    same_ignoring_ascii_case(trim(entry), hex_field(address, 0)) || same_ignoring_ascii_case(
        trim(entry),
        digits_of(address, 16),
    )
}

/// Whether some entry of the list names the address.
pub open spec fn list_names(list: Seq<String>, address: nat) -> bool {
    exists|i: int| 0 <= i < list.len() && names_address((#[trigger] list[i])@, address)
}

/// Whether metadata updates of the contract are processed: updates are on, the blacklist does not
/// name the contract, and the whitelist is empty or names it.
pub open spec fn metadata_updates_wanted(o: ErcOptions, address: nat) -> bool {
    o.metadata_updates && !list_names(o.metadata_update_blacklist@, address) && (
    o.metadata_update_whitelist@.len() == 0 || list_names(o.metadata_update_whitelist@, address))
}

/// Whether some entry of the list names the address written in the two ways.
fn any_names(list: &Vec<String>, prefixed: &str, plain: &str, address: Ghost<nat>) -> (r: bool)
    requires
        prefixed@ == hex_field(address@, 0),
        plain@ == digits_of(address@, 16),
    ensures
        r == list_names(list@, address@),
{
    let mut i: usize = 0;
    while i < list.len()
        invariant
            i <= list@.len(),
            prefixed@ == hex_field(address@, 0),
            plain@ == digits_of(address@, 16),
            forall|k: int| 0 <= k < i ==> !names_address((#[trigger] list@[k])@, address@),
        decreases list@.len() - i,
    {
        let t = trimmed(&list[i]);
        if eq_ignore_ascii_case(&t, prefixed) || eq_ignore_ascii_case(&t, plain) {
            proof {
                assert(names_address(list@[i as int]@, address@));
            }
            return true;
        }
        i = i + 1;
    }
    false
}

impl ErcOptions {
    /// Whether metadata updates of the contract are processed.
    pub fn should_process_metadata_updates(&self, contract_address: &Felt) -> (r: bool)
        requires
            contract_address.wf(),
        ensures
            r == metadata_updates_wanted(*self, contract_address.value()),
    {
        if !self.metadata_updates {
            return false;
        }
        let prefixed = hex_felt(contract_address);
        let plain = contract_address.hex_digits();
        let ghost value = contract_address.value();
        if any_names(&self.metadata_update_blacklist, &prefixed, &plain, Ghost(value)) {
            return false;
        }
        if self.metadata_update_whitelist.len() == 0 {
            return true;
        }
        any_names(&self.metadata_update_whitelist, &prefixed, &plain, Ghost(value))
    }
}

/// A contract that the blacklist names is never processed, whatever the whitelist says.
pub proof fn blacklist_takes_precedence(o: ErcOptions, address: Felt)
    requires
        list_names(o.metadata_update_blacklist@, address.value()),
    ensures
        !metadata_updates_wanted(o, address.value()),
{
}

/// The seconds of a keep-alive, where zero switches it off.
pub open spec fn keepalive(secs: u64) -> Option<u64> {
    if secs == 0 {
        None
    } else {
        Some(secs)
    }
}

impl GrpcOptions {
    /// The seconds between probes of an idle connection.
    pub fn tcp_keepalive_duration(&self) -> (r: Option<u64>)
        ensures
            r == keepalive(self.tcp_keepalive_interval),
    {
        if self.tcp_keepalive_interval == 0 {
            None
        } else {
            Some(self.tcp_keepalive_interval)
        }
    }

    /// The seconds between pings on a connection of HTTP/2.
    pub fn http2_keepalive_interval_duration(&self) -> (r: Option<u64>)
        ensures
            r == keepalive(self.http2_keepalive_interval),
    {
        if self.http2_keepalive_interval == 0 {
            None
        } else {
            Some(self.http2_keepalive_interval)
        }
    }

    /// The seconds to wait for the answer to a ping.
    pub fn http2_keepalive_timeout_duration(&self) -> (r: Option<u64>)
        ensures
            r == keepalive(self.http2_keepalive_timeout),
    {
        if self.http2_keepalive_timeout == 0 {
            None
        } else {
            Some(self.http2_keepalive_timeout)
        }
    }
}

impl ContractType {
    /// The name of the kind.
    pub open spec fn label(self) -> Seq<char> {
        match self {
            ContractType::WORLD => "WORLD"@,
            ContractType::ERC20 => "ERC20"@,
            ContractType::ERC721 => "ERC721"@,
            ContractType::ERC1155 => "ERC1155"@,
            ContractType::UDC => "UDC"@,
            ContractType::OTHER => "OTHER"@,
        }
    }

    /// The name of the kind.
    pub fn name(&self) -> (r: &'static str)
        ensures
            r@ == self.label(),
    {
        match self {
            ContractType::WORLD => "WORLD",
            ContractType::ERC20 => "ERC20",
            ContractType::ERC721 => "ERC721",
            ContractType::ERC1155 => "ERC1155",
            ContractType::UDC => "UDC",
            ContractType::OTHER => "OTHER",
        }
    }
}

impl ContractDefinition {
    /// The text that an option for this contract holds.
    pub open spec fn text(self) -> Seq<char> {
        let head = self.kind.label() + seq![':'] + hex_field(self.address.value(), 0);
        match self.starting_block {
            Some(b) => head + seq![':'] + digits_of(b as nat, 10),
            None => head,
        }
    }

    /// The text that an option for this contract holds.
    pub fn to_text(&self) -> (r: String)
        requires
            self.address.wf(),
        ensures
            r@ == self.text(),
    {
        let mut out = self.kind.name().to_owned();
        out.push(':');
        let a = hex_felt(&self.address);
        out.append(a.as_str());
        proof {
            assert(out@ =~= self.kind.label() + seq![':'] + hex_field(self.address.value(), 0));
        }
        match self.starting_block {
            Some(b) => {
                let ghost before = out@;
                out.push(':');
                let d = decimal(b);
                out.append(d.as_str());
                proof {
                    assert(out@ =~= before + seq![':'] + digits_of(b as nat, 10));
                }
            },
            None => {},
        }
        out
    }
}

/// Whether the contract is the one that the text writes.
pub open spec fn contract_is(c: ContractDefinition, part: Seq<char>) -> bool {
    let parts = split(part, ':');
    &&& contract_error(part) is None
    &&& contract_type_named(parts[0]) == Some(c.kind)
    &&& felt_parsed(parts[1]) == Some(c.address.value())
    &&& c.address.wf()
    &&& parts.len() == 2 ==> c.starting_block is None
    &&& parts.len() == 3 ==> c.starting_block is Some && block_parsed(parts[2]) == Some(
        c.starting_block->0 as nat,
    )
}

/// The lower case of a kind's name stands for the kind.
proof fn label_reads_back(k: ContractType)
    ensures
        contract_type_named(k.label()) == Some(k),
        !k.label().contains(':'),
{
    reveal_strlit("WORLD");
    reveal_strlit("ERC20");
    reveal_strlit("ERC721");
    reveal_strlit("ERC1155");
    reveal_strlit("UDC");
    reveal_strlit("OTHER");
    reveal_strlit("world");
    reveal_strlit("erc20");
    reveal_strlit("erc721");
    reveal_strlit("erc1155");
    reveal_strlit("udc");
    reveal_strlit("other");
    let l = lowercase(k.label());
    assert(all_ascii(k.label()));
    match k {
        ContractType::WORLD => {
            assert(l =~= "world"@);
        },
        ContractType::ERC20 => {
            assert(l =~= "erc20"@);
        },
        ContractType::ERC721 => {
            assert(l =~= "erc721"@);
        },
        ContractType::ERC1155 => {
            assert(l =~= "erc1155"@);
        },
        ContractType::UDC => {
            assert(l =~= "udc"@);
        },
        ContractType::OTHER => {
            assert(l =~= "other"@);
        },
    }
    assert("erc20"@.len() == 5 && "world"@[0] == 'w' && "erc20"@[0] == 'e' && "other"@[0] == 'o');
    assert("erc721"@.len() == 6 && "erc1155"@.len() == 7 && "udc"@.len() == 3);
}

/// The text of a contract reads back as that contract.
pub proof fn contract_text_round_trip(c: ContractDefinition)
    requires
        c.address.wf(),
    ensures
        contract_is(c, c.text()),
{
    let a = c.kind.label();
    let b = hex_field(c.address.value(), 0);
    label_reads_back(c.kind);
    hex_field_reads_back(c.address.value(), 0);
    split_single(a, ':');
    split_append(a, b, ':');
    match c.starting_block {
        Some(n) => {
            let d = digits_of(n as nat, 10);
            parse_of_digits(n as nat, 10, 0);
            digits_are_plain(n as nat, 10);
            assert(zero_padded(d, 0) =~= d);
            split_append(a + seq![':'] + b, d, ':');
            assert(split(c.text(), ':') =~= seq![a, b, d]);
        },
        None => {
            assert(split(c.text(), ':') =~= seq![a, b]);
        },
    }
}

/// The contracts of a list of texts, one for one; the first text that is refused gives the error.
pub fn deserialize_contracts(list: &Vec<String>) -> (r: Result<
    Vec<ContractDefinition>,
    OptionError,
>)
    ensures
        match r {
            Ok(v) => v@.len() == list@.len() && forall|i: int|
                0 <= i < v@.len() ==> contract_is(#[trigger] v@[i], list@[i]@),
            Err(e) => exists|i: int|
                0 <= i < list@.len() && contract_error((#[trigger] list@[i])@) == Some(e)
                    && forall|j: int|
                    0 <= j < i ==> contract_error((#[trigger] list@[j])@) is None,
        },
{
    let mut out: Vec<ContractDefinition> = Vec::new();
    let mut i: usize = 0;
    while i < list.len()
        invariant
            i <= list@.len(),
            out@.len() == i,
            forall|k: int| 0 <= k < i ==> contract_is(#[trigger] out@[k], list@[k]@),
            forall|k: int| 0 <= k < i ==> contract_error((#[trigger] list@[k])@) is None,
        decreases list@.len() - i,
    {
        match parse_erc_contract(&list[i]) {
            Ok(c) => {
                out.push(c);
            },
            Err(e) => {
                proof {
                    assert(contract_error(list@[i as int]@) == Some(e));
                }
                return Err(e);
            },
        }
        i = i + 1;
    }
    Ok(out)
}

/// The texts of contracts, one for one.
pub fn serialize_contracts(contracts: &Vec<ContractDefinition>) -> (r: Vec<String>)
    requires
        forall|i: int| 0 <= i < contracts@.len() ==> (#[trigger] contracts@[i]).address.wf(),
    ensures
        views(r@) == contracts@.map_values(|c: ContractDefinition| c.text()),
{
    let mut out: Vec<String> = Vec::new();
    let mut i: usize = 0;
    while i < contracts.len()
        invariant
            i <= contracts@.len(),
            out@.len() == i,
            forall|i: int| 0 <= i < contracts@.len() ==> (#[trigger] contracts@[i]).address.wf(),
            forall|k: int| 0 <= k < i ==> (#[trigger] out@[k])@ == contracts@[k].text(),
        decreases contracts@.len() - i,
    {
        out.push(contracts[i].to_text());
        i = i + 1;
    }
    proof {
        assert(views(out@) =~= contracts@.map_values(|c: ContractDefinition| c.text()));
    }
    out
}

/// Whether the indices are the same.
pub open spec fn same_model_indices(a: ModelIndices, b: ModelIndices) -> bool {
    a.model_tag@ == b.model_tag@ && views(a.fields@) == views(b.fields@)
}

/// Whether the hooks run at the same time.
pub open spec fn same_event(a: HookEvent, b: HookEvent) -> bool {
    match (a, b) {
        (HookEvent::ModelRegistered { model_tag: s }, HookEvent::ModelRegistered { model_tag: t }) =>
            s@ == t@,
        (HookEvent::ModelUpdated { model_tag: s }, HookEvent::ModelUpdated { model_tag: t }) => s@
            == t@,
        (HookEvent::ModelDeleted { model_tag: s }, HookEvent::ModelDeleted { model_tag: t }) => s@
            == t@,
        _ => false,
    }
}

/// Whether the hooks are the same.
pub open spec fn same_hook(a: Hook, b: Hook) -> bool {
    same_event(a.event, b.event) && a.statement@ == b.statement@
}

/// Whether values are combined in the same way.
pub open spec fn same_aggregation(a: Aggregation, b: Aggregation) -> bool {
    match (a, b) {
        (Aggregation::Latest(s), Aggregation::Latest(t)) => s@ == t@,
        (Aggregation::Count, Aggregation::Count) => true,
        (Aggregation::Max(s), Aggregation::Max(t)) => s@ == t@,
        (Aggregation::Min(s), Aggregation::Min(t)) => s@ == t@,
        (Aggregation::Sum(s), Aggregation::Sum(t)) => s@ == t@,
        (Aggregation::Avg(s), Aggregation::Avg(t)) => s@ == t@,
        _ => false,
    }
}

/// Whether the aggregators are the same.
pub open spec fn same_aggregator(a: AggregatorConfig, b: AggregatorConfig) -> bool {
    &&& a.id@ == b.id@
    &&& a.model_tag@ == b.model_tag@
    &&& views(a.group_by@) == views(b.group_by@)
    &&& same_aggregation(a.aggregation, b.aggregation)
    &&& a.order == b.order
}

/// When a hook runs, once more.
fn copy_event(e: &HookEvent) -> (r: HookEvent)
    ensures
        same_event(r, *e),
{
    match e {
        HookEvent::ModelRegistered { model_tag } => HookEvent::ModelRegistered {
            model_tag: model_tag.clone(),
        },
        HookEvent::ModelUpdated { model_tag } => HookEvent::ModelUpdated {
            model_tag: model_tag.clone(),
        },
        HookEvent::ModelDeleted { model_tag } => HookEvent::ModelDeleted {
            model_tag: model_tag.clone(),
        },
    }
}

/// How values are combined, once more.
fn copy_aggregation(a: &Aggregation) -> (r: Aggregation)
    ensures
        same_aggregation(r, *a),
{
    match a {
        Aggregation::Latest(s) => Aggregation::Latest(s.clone()),
        Aggregation::Count => Aggregation::Count,
        Aggregation::Max(s) => Aggregation::Max(s.clone()),
        Aggregation::Min(s) => Aggregation::Min(s.clone()),
        Aggregation::Sum(s) => Aggregation::Sum(s.clone()),
        Aggregation::Avg(s) => Aggregation::Avg(s.clone()),
    }
}

/// Whether the lists hold the same indices, one for one.
pub open spec fn same_indices(a: Seq<ModelIndices>, b: Seq<ModelIndices>) -> bool {
    a.len() == b.len() && forall|i: int| 0 <= i < a.len() ==> same_model_indices(#[trigger] a[i], b[i])
}

/// The indices, once more.
pub fn copy_indices(v: &Vec<ModelIndices>) -> (r: Vec<ModelIndices>)
    ensures
        same_indices(r@, v@),
{
    let mut out: Vec<ModelIndices> = Vec::new();
    let mut i: usize = 0;
    while i < v.len()
        invariant
            i <= v@.len(),
            out@.len() == i,
            forall|k: int| 0 <= k < i ==> same_model_indices(#[trigger] out@[k], v@[k]),
        decreases v@.len() - i,
    {
        let x = &v[i];
        out.push(
            ModelIndices { model_tag: x.model_tag.clone(), fields: copy_strings(&x.fields) },
        );
        i = i + 1;
    }
    out
}

/// Whether the lists hold the same hooks, one for one.
pub open spec fn same_hooks(a: Seq<Hook>, b: Seq<Hook>) -> bool {
    a.len() == b.len() && forall|i: int| 0 <= i < a.len() ==> same_hook(#[trigger] a[i], b[i])
}

/// The hooks, once more.
pub fn copy_hooks(v: &Vec<Hook>) -> (r: Vec<Hook>)
    ensures
        same_hooks(r@, v@),
{
    let mut out: Vec<Hook> = Vec::new();
    let mut i: usize = 0;
    while i < v.len()
        invariant
            i <= v@.len(),
            out@.len() == i,
            forall|k: int| 0 <= k < i ==> same_hook(#[trigger] out@[k], v@[k]),
        decreases v@.len() - i,
    {
        let x = &v[i];
        out.push(Hook { event: copy_event(&x.event), statement: x.statement.clone() });
        i = i + 1;
    }
    out
}

/// Whether the lists hold the same aggregators, one for one.
pub open spec fn same_aggregators(a: Seq<AggregatorConfig>, b: Seq<AggregatorConfig>) -> bool {
    a.len() == b.len() && forall|i: int| 0 <= i < a.len() ==> same_aggregator(#[trigger] a[i], b[i])
}

/// The aggregators, once more.
pub fn copy_aggregators(v: &Vec<AggregatorConfig>) -> (r: Vec<AggregatorConfig>)
    ensures
        same_aggregators(r@, v@),
{
    let mut out: Vec<AggregatorConfig> = Vec::new();
    let mut i: usize = 0;
    while i < v.len()
        invariant
            i <= v@.len(),
            out@.len() == i,
            forall|k: int| 0 <= k < i ==> same_aggregator(#[trigger] out@[k], v@[k]),
        decreases v@.len() - i,
    {
        let x = &v[i];
        out.push(
            AggregatorConfig {
                id: x.id.clone(),
                model_tag: x.model_tag.clone(),
                group_by: copy_strings(&x.group_by),
                aggregation: copy_aggregation(&x.aggregation),
                order: x.order,
            },
        );
        i = i + 1;
    }
    out
}

} // verus!
