//! Errors of the storage.
use vstd::prelude::*;
use vstd::string::*;
use crate::cache::CacheError;
use crate::felt::Felt;
use crate::text::concat;

verus! {

/// An error of the database.
#[derive(Debug)]
pub enum SqlError {
    RowNotFound,
    Database(String),
}

/// A request that cannot be answered.
#[derive(Debug)]
pub enum QueryError {
    UnsupportedQuery(String),
    MissingParam(String),
    UnsupportedValue(String),
    ModelNotFound(String),
    SqliteJoinLimit,
    InvalidNamespacedModel(String),
    InvalidCursor(String),
}

impl QueryError {
    /// The message for a reader.
    pub open spec fn text(self) -> Seq<char> {
        match self {
            QueryError::UnsupportedQuery(s) => "Unsupported query: "@ + s@,
            QueryError::MissingParam(s) => "Missing param: "@ + s@,
            QueryError::UnsupportedValue(s) => "Unsupported value for primitive: "@ + s@,
            QueryError::ModelNotFound(s) => "Model not found: "@ + s@,
            QueryError::SqliteJoinLimit => "Exceeds sqlite `JOIN` limit (64)"@,
            QueryError::InvalidNamespacedModel(s) => "Invalid namespaced model: "@ + s@,
            QueryError::InvalidCursor(s) => "Invalid cursor: "@ + s@,
        }
    }

    /// The message for a reader.
    pub fn message(&self) -> (r: String)
        ensures
            r@ == self.text(),
    {
        match self {
            QueryError::UnsupportedQuery(s) => concat("Unsupported query: ", s),
            QueryError::MissingParam(s) => concat("Missing param: ", s),
            QueryError::UnsupportedValue(s) => concat("Unsupported value for primitive: ", s),
            QueryError::ModelNotFound(s) => concat("Model not found: ", s),
            QueryError::SqliteJoinLimit => "Exceeds sqlite `JOIN` limit (64)".to_owned(),
            QueryError::InvalidNamespacedModel(s) => concat("Invalid namespaced model: ", s),
            QueryError::InvalidCursor(s) => concat("Invalid cursor: ", s),
        }
    }
}

/// A text that cannot be read.
#[derive(Debug)]
pub enum ParseError {
    /// Refused by the reader of elements, short strings, numbers, JSON or UTF-8, with its words.
    Refused(String),
    InvalidTyEntity,
    InvalidFixedSizeArray(String),
    InvalidWorldScopedId(String),
}

impl ParseError {
    /// The message for a reader.
    pub open spec fn text(self) -> Seq<char> {
        match self {
            ParseError::Refused(s) => s@,
            ParseError::InvalidTyEntity => "Entity is not a struct"@,
            ParseError::InvalidFixedSizeArray(s) => "Invalid FixedSizeArray format: "@ + s@,
            ParseError::InvalidWorldScopedId(s) => "Invalid world-scoped ID format: "@ + s@,
        }
    }

    /// The message for a reader.
    pub fn message(&self) -> (r: String)
        ensures
            r@ == self.text(),
    {
        match self {
            ParseError::Refused(s) => s.clone(),
            ParseError::InvalidTyEntity => "Entity is not a struct".to_owned(),
            ParseError::InvalidFixedSizeArray(s) => concat("Invalid FixedSizeArray format: ", s),
            ParseError::InvalidWorldScopedId(s) => concat("Invalid world-scoped ID format: ", s),
        }
    }
}

/// What the storage tells its users.
#[derive(Debug)]
pub enum StorageError {
    Sql(SqlError),
    ModelNotFound { world_address: Felt, selector: Felt },
    Other(OtherError),
}

impl StorageError {
    /// That a model is missing.
    pub fn model_not_found(world_address: Felt, selector: Felt) -> (r: StorageError)
        ensures
            r == (StorageError::ModelNotFound { world_address, selector }),
    {
        StorageError::ModelNotFound { world_address, selector }
    }

    /// Any other error.
    pub fn other(error: OtherError) -> (r: StorageError)
        ensures
            r == StorageError::Other(error),
    {
        StorageError::Other(error)
    }
}

/// An error of the storage that is neither of the database nor told by a storage.
#[derive(Debug)]
pub enum OtherError {
    Proto(String),
    Parse(ParseError),
    Query(QueryError),
    Primitive(String),
    EnumOption(String),
    Provider(String),
    ExecutorQuery(String),
    Cache(CacheError),
}

/// An error within the storage.
#[derive(Debug)]
pub enum Error {
    Sql(SqlError),
    Storage(StorageError),
    Other(OtherError),
}

impl From<Error> for StorageError {
    fn from(error: Error) -> (r: StorageError) {
        match error {
            Error::Sql(e) => StorageError::Sql(e),
            Error::Storage(e) => e,
            Error::Other(e) => StorageError::Other(e),
        }
    }
}

impl vstd::std_specs::convert::FromSpecImpl<Error> for StorageError {
    open spec fn obeys_from_spec() -> bool {
        true
    }

    open spec fn from_spec(error: Error) -> StorageError {
        match error {
            Error::Sql(e) => StorageError::Sql(e),
            Error::Storage(e) => e,
            Error::Other(e) => StorageError::Other(e),
        }
    }
}

} // verus!
