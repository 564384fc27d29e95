//! Models: from memory where they are there, else from the database.
use vstd::prelude::*;
use vstd::string::*;
use crate::cache::{places_asked, Model, ModelCache};
use crate::felt::Felt;
use crate::ids::world_scoped_id;
use crate::sql::builder::{argument_views, felt_binds, ArgumentView};
use crate::sql::errors::{SqlError, StorageError};
use crate::sql::queries::{condition_in, models, where_text, Statement};

verus! {

/// Where a model is got.
#[derive(Debug)]
pub enum ModelStep<'a> {
    Cached(&'a Model),
    /// The database is asked, and the row it gives is kept in memory.
    Ask(Statement),
}

/// Whether the model of a world and selector is got from there: from memory, or, where it is not
/// there, from the database.
pub open spec fn model_got(
    cache: Option<&ModelCache>,
    world_address: Felt,
    selector: Felt,
    step: ModelStep,
) -> bool {
    match step {
        ModelStep::Cached(m) => cache is Some && cache->0.lookup(world_address, selector) == Some(*m),
        ModelStep::Ask(s) => (cache is None || cache->0.lookup(world_address, selector) is None)
            && s.sql@ == "SELECT * FROM models WHERE id = ?"@ && argument_views(s.bind_values@)
            == seq![ArgumentView::Text(world_scoped_id(world_address.value(), selector.value()))],
    }
}

/// Where nothing is left in memory, as after changes were taken back, every model is read from what
/// the database holds.
pub proof fn forgotten_models_are_read_again(
    cache: ModelCache,
    world_address: Felt,
    selector: Felt,
    step: ModelStep,
)
    requires
        forall|w: Felt, s: Felt| #[trigger] cache.lookup(w, s) is None,
        model_got(Some(&cache), world_address, selector, step),
    ensures
        step is Ask,
{
}

/// Where the model of a world and selector is got: from memory, or, where it is not there, from the
/// database.
pub fn model_optional<'a>(
    cache: Option<&'a ModelCache>,
    world_address: Felt,
    selector: Felt,
) -> (r: ModelStep<'a>)
    requires
        world_address.wf(),
        selector.wf(),
    ensures
        model_got(cache, world_address, selector, r),
{
    match cache {
        Some(c) => match c.model(world_address, selector) {
            Ok(m) => ModelStep::Cached(m),
            Err(_) => ModelStep::Ask(crate::sql::queries::model(&world_address, &selector)),
        },
        None => ModelStep::Ask(crate::sql::queries::model(&world_address, &selector)),
    }
}

/// Keeps the model that the database gave, if it did, so that it is in memory when it is next asked
/// for; tells whether there was one. Where the database could not be read, that is told, and nothing
/// is kept.
pub fn keep_model(
    cache: &mut ModelCache,
    world_address: Felt,
    selector: Felt,
    row: Result<Option<Model>, StorageError>,
) -> (r: Result<bool, StorageError>)
    ensures
        match row {
            Ok(Some(m)) => r == Ok::<bool, StorageError>(true) && final(cache).lookup(
                world_address,
                selector,
            ) == Some(m),
            Ok(None) => r == Ok::<bool, StorageError>(false) && *final(cache) == *old(cache),
            Err(e) => r == Err::<bool, StorageError>(e) && *final(cache) == *old(cache),
        },
        old(cache).wf() ==> final(cache).wf(),
        forall|w: Felt, s: Felt|
            (w != world_address || s != selector) ==> #[trigger] final(cache).lookup(w, s) == old(
                cache,
            ).lookup(w, s),
{
    match row {
        Ok(Some(m)) => {
            cache.set(world_address, selector, m);
            Ok(true)
        },
        Ok(None) => Ok(false),
        Err(e) => Err(e),
    }
}

/// What is told of a model, by what is in memory and what the database answers: a model in memory,
/// even where its row is gone; else what the database answers. A database that could not be read
/// never tells that there is no model.
pub open spec fn model_told(
    cached: Option<Model>,
    row: Result<Option<Model>, StorageError>,
) -> Result<Option<Model>, StorageError> {
    match cached {
        Some(m) => Ok(Some(m)),
        None => row,
    }
}

/// Whether the result refers to what is told.
pub open spec fn refers_to(
    r: Result<Option<&Model>, StorageError>,
    told: Result<Option<Model>, StorageError>,
) -> bool {
    match (r, told) {
        (Ok(Some(x)), Ok(Some(m))) => *x == m,
        (Ok(None), Ok(None)) => true,
        (Err(e), Err(f)) => e == f,
        _ => false,
    }
}

/// The model of a world and selector, by what is in memory and what the database answers. A model
/// that the database gave is in memory from then on; otherwise nothing changes there.
pub fn model_optional_told<'a>(
    cache: &'a mut ModelCache,
    world_address: Felt,
    selector: Felt,
    row: Result<Option<Model>, StorageError>,
) -> (r: Result<Option<&'a Model>, StorageError>)
    ensures
        refers_to(r, model_told(old(cache).lookup(world_address, selector), row)),
        match model_told(old(cache).lookup(world_address, selector), row) {
            Ok(told) => final(cache).lookup(world_address, selector) == told,
            Err(_) => *final(cache) == *old(cache),
        },
        old(cache).lookup(world_address, selector) is Some || !(row matches Ok(Some(_)))
            ==> *final(cache) == *old(cache),
        old(cache).wf() ==> final(cache).wf(),
        forall|w: Felt, s: Felt|
            (w != world_address || s != selector) ==> #[trigger] final(cache).lookup(w, s) == old(
                cache,
            ).lookup(w, s),
{
    if cache.model(world_address, selector).is_err() {
        match keep_model(cache, world_address, selector, row) {
            Ok(true) => {},
            Ok(false) => {
                return Ok(None);
            },
            Err(e) => {
                return Err(e);
            },
        }
    }
    match cache.model(world_address, selector) {
        Ok(m) => Ok(Some(m)),
        Err(_) => Ok(None),
    }
}

/// What is told of a model that must be there: the model; that no row was found, where there is
/// none; and the error of the look-up, where it failed.
pub fn model<T>(found: Result<Option<T>, StorageError>) -> (r: Result<T, StorageError>)
    ensures
        match found {
            Ok(Some(m)) => r == Ok::<T, StorageError>(m),
            Ok(None) => r == Err::<T, StorageError>(StorageError::Sql(SqlError::RowNotFound)),
            Err(e) => r == Err::<T, StorageError>(e),
        },
{
    match found {
        Ok(Some(m)) => Ok(m),
        Ok(None) => Err(StorageError::Sql(SqlError::RowNotFound)),
        Err(e) => Err(e),
    }
}

/// A model that was told once is told again, whatever the database answers then.
pub proof fn models_stay_told(
    before: Option<Model>,
    after: Option<Model>,
    m: Model,
    first: Result<Option<Model>, StorageError>,
    second: Result<Option<Model>, StorageError>,
)
    requires
        model_told(before, first) == Ok::<Option<Model>, StorageError>(Some(m)),
        after == Some(m),
    ensures
        model_told(after, second) == Ok::<Option<Model>, StorageError>(Some(m)),
{
}

/// Where the models of worlds and selectors are got.
#[derive(Debug)]
pub enum ModelsStep<'a> {
    Cached(Vec<&'a Model>),
    Ask(Statement),
}

/// Where the models of worlds and selectors are got: from memory where there is one, else from the
/// database.
pub fn models_step<'a>(
    cache: Option<&'a ModelCache>,
    world_addresses: &Vec<Felt>,
    selectors: &Vec<Felt>,
) -> (r: ModelsStep<'a>)
    ensures
        match r {
            ModelsStep::Cached(v) => cache is Some && v@.len() == places_asked(
                cache->0.entries@,
                world_addresses@,
                selectors@,
            ).len() && forall|k: int|
                0 <= k < v@.len() ==> *#[trigger] v@[k] == cache->0.entries@[places_asked(
                    cache->0.entries@,
                    world_addresses@,
                    selectors@,
                )[k]].model,
            ModelsStep::Ask(s) => cache is None && s.sql@ == "SELECT * FROM models"@ + where_text(
                condition_in("world_address"@, world_addresses@.len()) + condition_in(
                    "model_selector"@,
                    selectors@.len(),
                ),
            ) && argument_views(s.bind_values@) == felt_binds(world_addresses@) + felt_binds(
                selectors@,
            ),
        },
{
    match cache {
        Some(c) => ModelsStep::Cached(
            c.models(world_addresses.as_slice(), selectors.as_slice()),
        ),
        None => ModelsStep::Ask(models(world_addresses, selectors)),
    }
}

} // verus!
