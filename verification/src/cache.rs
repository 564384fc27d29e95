//! What is kept in memory: models, tokens, and balances that are not yet written.
use vstd::prelude::*;
use vstd::string::*;
use crate::sql::errors::StorageError;
use crate::felt::Felt;
use crate::ledger::{
    account_of, add_amounts, amount, amount_of, amounts, at, cell_of, cells, clear_cells, fits, get_cell, key, key_of,
    list_cells, moved, new_cells, no_cells, put_cell, sub_amounts, token_of, token_sum,
    token_sum_moved, Cell, CellKey, I256,
};
use crate::schema::{Ty, U256};
use crate::tokens::TokenId;

verus! {

/// Why the cache gives nothing.
#[derive(Debug)]
pub enum CacheError {
    ModelNotFound(Felt),
    /// The storage could not be read.
    Storage(Box<StorageError>),
}

/// A model of a world.
#[derive(Debug)]
pub struct Model {
    pub world_address: Felt,
    pub selector: Felt,
    pub namespace: String,
    pub name: String,
    pub class_hash: Felt,
    pub contract_address: Felt,
    pub packed_size: u32,
    pub unpacked_size: u32,
    pub layout_json: String,
    pub schema: Ty,
    pub use_legacy_store: bool,
}

/// A model under the world and selector it was set for.
#[derive(Debug)]
pub struct ModelEntry {
    pub world: Felt,
    pub selector: Felt,
    pub model: Model,
}

/// The models, at most one for a world and selector.
#[derive(Debug)]
pub struct ModelCache {
    pub entries: Vec<ModelEntry>,
}

/// Where the model of a world and selector stands.
pub open spec fn place(e: Seq<ModelEntry>, world: Felt, selector: Felt) -> Option<int>
    decreases e.len(),
{
    if e.len() == 0 {
        None
    } else {
        match place(e.drop_last(), world, selector) {
            Some(i) => Some(i),
            None => if e.last().world == world && e.last().selector == selector {
                Some(e.len() - 1)
            } else {
                None
            },
        }
    }
}

/// A place is one of the world and selector, and without one there is none.
pub proof fn place_found(e: Seq<ModelEntry>, world: Felt, selector: Felt)
    ensures
        match place(e, world, selector) {
            Some(i) => 0 <= i < e.len() && e[i].world == world && e[i].selector == selector,
            None => forall|i: int|
                0 <= i < e.len() ==> !((#[trigger] e[i]).world == world && e[i].selector
                    == selector),
        },
    decreases e.len(),
{
    if e.len() > 0 {
        place_found(e.drop_last(), world, selector);
        if place(e, world, selector) is None {
            assert forall|i: int| 0 <= i < e.len() implies !((#[trigger] e[i]).world == world
                && e[i].selector == selector) by {
                if i < e.len() - 1 {
                    assert(e.drop_last()[i] == e[i]);
                }
            }
        }
    }
}

/// The first place among the first entries is the first among all.
proof fn place_stays(e: Seq<ModelEntry>, n: int, world: Felt, selector: Felt)
    requires
        0 <= n <= e.len(),
        place(e.take(n), world, selector) is Some,
    ensures
        place(e, world, selector) == place(e.take(n), world, selector),
    decreases e.len(),
{
    if n == e.len() {
        assert(e.take(n) =~= e);
    } else {
        assert(e.drop_last().take(n) =~= e.take(n));
        place_stays(e.drop_last(), n, world, selector);
    }
}

/// Changing the model of an entry leaves all places.
proof fn place_kept(a: Seq<ModelEntry>, b: Seq<ModelEntry>, world: Felt, selector: Felt)
    requires
        a.len() == b.len(),
        forall|i: int|
            0 <= i < a.len() ==> (#[trigger] a[i]).world == b[i].world && a[i].selector
                == b[i].selector,
    ensures
        place(a, world, selector) == place(b, world, selector),
    decreases a.len(),
{
    if a.len() > 0 {
        assert forall|i: int| 0 <= i < a.len() - 1 implies (#[trigger] a.drop_last()[i]).world
            == b.drop_last()[i].world && a.drop_last()[i].selector == b.drop_last()[i].selector by {
            assert(a.drop_last()[i] == a[i]);
            assert(b.drop_last()[i] == b[i]);
        }
        place_kept(a.drop_last(), b.drop_last(), world, selector);
        assert(a[a.len() - 1].world == b[a.len() - 1].world);
    }
}

/// The places of the models of a world, in order.
pub open spec fn places_of_world(e: Seq<ModelEntry>, world: Felt) -> Seq<int>
    decreases e.len(),
{
    if e.len() == 0 {
        Seq::empty()
    } else {
        let before = places_of_world(e.drop_last(), world);
        if e.last().world == world {
            before.push(e.len() - 1)
        } else {
            before
        }
    }
}

/// The places of the models of a world with these selectors, in the order of the selectors.
pub open spec fn places_of_selectors(
    e: Seq<ModelEntry>,
    world: Felt,
    selectors: Seq<Felt>,
) -> Seq<int>
    decreases selectors.len(),
{
    if selectors.len() == 0 {
        Seq::empty()
    } else {
        let before = places_of_selectors(e, world, selectors.drop_last());
        match place(e, world, selectors.last()) {
            Some(i) => before.push(i),
            None => before,
        }
    }
}

/// The places of the models asked for in a world: all, or those with the selectors.
pub open spec fn places_in(e: Seq<ModelEntry>, world: Felt, selectors: Seq<Felt>) -> Seq<int> {
    if selectors.len() == 0 {
        places_of_world(e, world)
    } else {
        places_of_selectors(e, world, selectors)
    }
}

/// The places of the models asked for in some worlds, one world after the other.
pub open spec fn places_in_worlds(
    e: Seq<ModelEntry>,
    worlds: Seq<Felt>,
    selectors: Seq<Felt>,
) -> Seq<int>
    decreases worlds.len(),
{
    if worlds.len() == 0 {
        Seq::empty()
    } else {
        places_in_worlds(e, worlds.drop_last(), selectors) + places_in(e, worlds.last(), selectors)
    }
}

/// The worlds that have models.
pub open spec fn worlds_known(e: Seq<ModelEntry>) -> Seq<Felt> {
    crate::text::without_repeats(e.map_values(|x: ModelEntry| x.world))
}

/// The places of the models asked for: in the worlds given, or in all where none is given.
pub open spec fn places_asked(
    e: Seq<ModelEntry>,
    worlds: Seq<Felt>,
    selectors: Seq<Felt>,
) -> Seq<int> {
    if worlds.len() == 0 {
        places_in_worlds(e, worlds_known(e), selectors)
    } else {
        places_in_worlds(e, worlds, selectors)
    }
}

/// The entries with a model set: in the place of the entry of its world and selector, or after all.
pub open spec fn with_model(
    e: Seq<ModelEntry>,
    world: Felt,
    selector: Felt,
    model: Model,
) -> Seq<ModelEntry> {
    let entry = ModelEntry { world, selector, model };
    match place(e, world, selector) {
        Some(i) => e.update(i, entry),
        None => e.push(entry),
    }
}

/// The entries after all models were set, one after the other.
pub open spec fn entries_of(models: Seq<Model>) -> Seq<ModelEntry>
    decreases models.len(),
{
    if models.len() == 0 {
        Seq::empty()
    } else {
        let m = models.last();
        with_model(entries_of(models.drop_last()), m.world_address, m.selector, m)
    }
}

impl ModelCache {
    /// The model of a world and selector.
    pub open spec fn lookup(self, world: Felt, selector: Felt) -> Option<Model> {
        match place(self.entries@, world, selector) {
            Some(i) => Some(self.entries@[i].model),
            None => None,
        }
    }

    /// There is at most one model for a world and selector.
    pub open spec fn wf(self) -> bool {
        forall|a: int, b: int|
            0 <= a < b < self.entries@.len() ==> (#[trigger] self.entries@[a]).world != (
            #[trigger] self.entries@[b]).world || self.entries@[a].selector
                != self.entries@[b].selector
    }

    /// The cache of the models that the storage holds; a later model takes the place of an earlier
    /// one.
    pub fn new(models: Vec<Model>) -> (r: ModelCache)
        ensures
            r.wf(),
            r.entries@ == entries_of(models@),
            forall|w: Felt, s: Felt|
                (#[trigger] r.lookup(w, s)) is Some <==> exists|i: int|
                    0 <= i < models@.len() && (#[trigger] models@[i]).world_address == w
                        && models@[i].selector == s,
            forall|w: Felt, s: Felt|
                (#[trigger] r.lookup(w, s)) matches Some(m) ==> models@.contains(m)
                    && m.world_address == w && m.selector == s,
    {
        let mut cache = ModelCache { entries: Vec::new() };
        let mut rest = models;
        let ghost all = models@;
        let ghost mut n: int = 0;
        proof {
            assert(all.skip(0) =~= all);
            assert(all.take(0) =~= Seq::<Model>::empty());
            assert(cache.entries@ =~= Seq::<ModelEntry>::empty());
        }
        while rest.len() > 0
            invariant
                0 <= n <= all.len(),
                rest@ == all.skip(n),
                cache.wf(),
                cache.entries@ == entries_of(all.take(n)),
                forall|w: Felt, s: Felt|
                    (#[trigger] cache.lookup(w, s)) is Some <==> exists|i: int|
                        0 <= i < n && (#[trigger] all[i]).world_address == w && all[i].selector
                            == s,
                forall|w: Felt, s: Felt|
                    (#[trigger] cache.lookup(w, s)) matches Some(m) ==> all.contains(m)
                        && m.world_address == w && m.selector == s,
            decreases rest@.len(),
        {
            let m = rest.remove(0);
            let ghost before = cache;
            let world = m.world_address;
            let selector = m.selector;
            proof {
                assert(m == all[n]);
                assert(rest@ =~= all.skip(n + 1));
                assert(all.take(n + 1).drop_last() =~= all.take(n));
            }
            cache.set(world, selector, m);
            proof {
                assert forall|w: Felt, s: Felt| (#[trigger] cache.lookup(w, s)) is Some <==> exists|
                    i: int,
                |
                    0 <= i < n + 1 && (#[trigger] all[i]).world_address == w && all[i].selector
                        == s by {
                    if w == world && s == selector {
                        assert(all[n].world_address == w);
                    } else {
                        assert(cache.lookup(w, s) == before.lookup(w, s));
                        if before.lookup(w, s) is Some {
                            let i = choose|i: int|
                                0 <= i < n && (#[trigger] all[i]).world_address == w
                                    && all[i].selector == s;
                            assert(all[i].world_address == w);
                        }
                    }
                }
                assert forall|w: Felt, s: Felt| (#[trigger] cache.lookup(
                    w,
                    s,
                )) is Some implies all.contains(cache.lookup(w, s)->0) && cache.lookup(
                    w,
                    s,
                )->0.world_address == w && cache.lookup(w, s)->0.selector == s by {
                    if w == world && s == selector {
                        assert(all.contains(all[n]));
                    } else {
                        assert(cache.lookup(w, s) == before.lookup(w, s));
                    }
                }
                n = n + 1;
            }
        }
        proof {
            assert(all.take(n) =~= all);
        }
        cache
    }

    /// Index of the entry of a world and selector.
    fn find(&self, world: Felt, selector: Felt) -> (r: Option<usize>)
        ensures
            match r {
                Some(i) => i < self.entries@.len() && place(self.entries@, world, selector) == Some(
                    i as int,
                ),
                None => place(self.entries@, world, selector) is None,
            },
    {
        let mut i: usize = 0;
        proof {
            assert(self.entries@.take(0) =~= Seq::<ModelEntry>::empty());
        }
        while i < self.entries.len()
            invariant
                i <= self.entries@.len(),
                place(self.entries@.take(i as int), world, selector) is None,
            decreases self.entries@.len() - i,
        {
            proof {
                assert(self.entries@.take(i + 1).drop_last() =~= self.entries@.take(i as int));
            }
            if self.entries[i].world == world && self.entries[i].selector == selector {
                proof {
                    place_stays(self.entries@, i + 1, world, selector);
                }
                return Some(i);
            }
            i = i + 1;
        }
        proof {
            assert(self.entries@.take(i as int) =~= self.entries@);
        }
        None
    }

    /// The model of a world and selector, or the error that there is none.
    pub fn model(&self, world_address: Felt, selector: Felt) -> (r: Result<&Model, CacheError>)
        ensures
            match r {
                Ok(m) => self.lookup(world_address, selector) == Some(*m),
                Err(e) => self.lookup(world_address, selector) is None && e
                    == CacheError::ModelNotFound(selector),
            },
    {
        match self.find(world_address, selector) {
            Some(i) => Ok(&self.entries[i].model),
            None => Err(CacheError::ModelNotFound(selector)),
        }
    }

    /// Sets the model of a world and selector, and leaves all others.
    pub fn set(&mut self, world_address: Felt, selector: Felt, model: Model)
        ensures
            old(self).wf() ==> final(self).wf(),
            final(self).entries@ == with_model(old(self).entries@, world_address, selector, model),
            final(self).lookup(world_address, selector) == Some(model),
            forall|w: Felt, s: Felt|
                (w != world_address || s != selector) ==> #[trigger] final(self).lookup(w, s)
                    == old(self).lookup(w, s),
    {
        let ghost before = self.entries@;
        match self.find(world_address, selector) {
            Some(i) => {
                proof {
                    place_found(before, world_address, selector);
                }
                self.entries[i].model = model;
                proof {
                    let after = self.entries@;
                    assert(after =~= with_model(before, world_address, selector, model));
                    if old(self).wf() {
                        assert forall|a: int, b: int| 0 <= a < b < after.len() implies (
                        #[trigger] after[a]).world != (#[trigger] after[b]).world || after[a].selector
                            != after[b].selector by {
                            assert(before[a].world != before[b].world || before[a].selector
                                != before[b].selector);
                        }
                    }
                    assert forall|w: Felt, s: Felt| place(after, w, s) == place(before, w, s) by {
                        assert forall|j: int| 0 <= j < after.len() implies (
                        #[trigger] after[j]).world == before[j].world && after[j].selector
                            == before[j].selector by {}
                        place_kept(after, before, w, s);
                    }
                    assert forall|w: Felt, s: Felt|
                        (w != world_address || s
                            != selector) implies #[trigger] self.lookup(w, s) == old(self).lookup(w, s) by {
                        assert(place(after, w, s) == place(before, w, s));
                        place_found(before, w, s);
                    }
                    assert(place(after, world_address, selector) == place(
                        before,
                        world_address,
                        selector,
                    ));
                }
            },
            None => {
                self.entries.push(ModelEntry { world: world_address, selector, model });
                proof {
                    let after = self.entries@;
                    assert(after.drop_last() =~= before);
                    place_found(before, world_address, selector);
                    if old(self).wf() {
                        assert forall|a: int, b: int| 0 <= a < b < after.len() implies (
                        #[trigger] after[a]).world != (#[trigger] after[b]).world || after[a].selector
                            != after[b].selector by {
                            assert(after[a] == before[a]);
                            if b < before.len() {
                                assert(after[b] == before[b]);
                            }
                        }
                    }
                    assert forall|w: Felt, s: Felt|
                        (w != world_address || s
                            != selector) implies #[trigger] self.lookup(w, s) == old(self).lookup(w, s) by {
                        place_found(before, w, s);
                        assert(place(after, w, s) == place(before, w, s));
                    }
                }
            },
        }
    }

    /// Takes all models out.
    pub fn clear(&mut self)
        ensures
            final(self).wf(),
            final(self).entries@.len() == 0,
            forall|w: Felt, s: Felt| #[trigger] final(self).lookup(w, s) is None,
    {
        self.entries.clear();
    }

    /// Appends the places of the models asked for in a world.
    fn push_places(&self, world: Felt, selectors: &[Felt], out: &mut Vec<usize>)
        ensures
            final(out)@.map_values(|x: usize| x as int) == old(out)@.map_values(|x: usize| x as int)
                + places_in(self.entries@, world, selectors@),
            (forall|k: int| 0 <= k < old(out)@.len() ==> old(out)@[k] < self.entries@.len()) ==> (
            forall|k: int| 0 <= k < final(out)@.len() ==> final(out)@[k] < self.entries@.len()),
    {
        let ghost start = out@.map_values(|x: usize| x as int);
        let ghost within = forall|k: int| 0 <= k < out@.len() ==> out@[k] < self.entries@.len();
        if selectors.len() == 0 {
            let mut i: usize = 0;
            proof {
                assert(self.entries@.take(0) =~= Seq::<ModelEntry>::empty());
                assert(start + Seq::<int>::empty() =~= start);
            }
            while i < self.entries.len()
                invariant
                    i <= self.entries@.len(),
                    out@.map_values(|x: usize| x as int) == start + places_of_world(
                        self.entries@.take(i as int),
                        world,
                    ),
                    within ==> (forall|k: int|
                        0 <= k < out@.len() ==> out@[k] < self.entries@.len()),
                decreases self.entries@.len() - i,
            {
                proof {
                    assert(self.entries@.take(i + 1).drop_last() =~= self.entries@.take(i as int));
                }
                if self.entries[i].world == world {
                    let ghost before = out@.map_values(|x: usize| x as int);
                    out.push(i);
                    proof {
                        assert(out@.map_values(|x: usize| x as int) =~= before.push(i as int));
                        assert(before.push(i as int) =~= start + places_of_world(
                            self.entries@.take(i + 1),
                            world,
                        ));
                    }
                }
                i = i + 1;
            }
            proof {
                assert(self.entries@.take(i as int) =~= self.entries@);
            }
        } else {
            let mut j: usize = 0;
            proof {
                assert(selectors@.take(0) =~= Seq::<Felt>::empty());
                assert(start + Seq::<int>::empty() =~= start);
            }
            while j < selectors.len()
                invariant
                    j <= selectors@.len(),
                    out@.map_values(|x: usize| x as int) == start + places_of_selectors(
                        self.entries@,
                        world,
                        selectors@.take(j as int),
                    ),
                    within ==> (forall|k: int|
                        0 <= k < out@.len() ==> out@[k] < self.entries@.len()),
                decreases selectors@.len() - j,
            {
                proof {
                    assert(selectors@.take(j + 1).drop_last() =~= selectors@.take(j as int));
                }
                match self.find(world, selectors[j]) {
                    Some(i) => {
                        let ghost before = out@.map_values(|x: usize| x as int);
                        out.push(i);
                        proof {
                            assert(out@.map_values(|x: usize| x as int) =~= before.push(i as int));
                            assert(before.push(i as int) =~= start + places_of_selectors(
                                self.entries@,
                                world,
                                selectors@.take(j + 1),
                            ));
                        }
                    },
                    None => {},
                }
                j = j + 1;
            }
            proof {
                assert(selectors@.take(j as int) =~= selectors@);
            }
        }
    }

    /// The worlds that have models.
    fn worlds(&self) -> (r: Vec<Felt>)
        ensures
            r@ == worlds_known(self.entries@),
    {
        let mut out: Vec<Felt> = Vec::new();
        let ghost all = self.entries@.map_values(|x: ModelEntry| x.world);
        let mut i: usize = 0;
        proof {
            assert(all.take(0) =~= Seq::<Felt>::empty());
        }
        while i < self.entries.len()
            invariant
                i <= self.entries@.len(),
                all == self.entries@.map_values(|x: ModelEntry| x.world),
                out@ == crate::text::without_repeats(all.take(i as int)),
            decreases self.entries@.len() - i,
        {
            let w = self.entries[i].world;
            proof {
                assert(all.take(i + 1).drop_last() =~= all.take(i as int));
                assert(all.take(i + 1).last() == w);
            }
            let mut known = false;
            let mut k: usize = 0;
            while k < out.len()
                invariant
                    k <= out@.len(),
                    known == exists|j: int| 0 <= j < k && out@[j] == w,
                decreases out@.len() - k,
            {
                if out[k] == w {
                    known = true;
                }
                k = k + 1;
            }
            proof {
                assert(known == out@.contains(w));
            }
            if !known {
                out.push(w);
            }
            i = i + 1;
        }
        proof {
            assert(all.take(i as int) =~= all);
        }
        out
    }

    /// The models of the worlds and selectors: of all worlds where none is given, and all of a
    /// world where no selector is given. Unknown worlds and selectors are passed over.
    pub fn models(&self, world_addresses: &[Felt], selectors: &[Felt]) -> (r: Vec<&Model>)
        ensures
            r@.len() == places_asked(self.entries@, world_addresses@, selectors@).len(),
            forall|k: int|
                0 <= k < r@.len() ==> *#[trigger] r@[k] == self.entries@[places_asked(
                    self.entries@,
                    world_addresses@,
                    selectors@,
                )[k]].model,
    {
        let known = self.worlds();
        let worlds: &[Felt] = if world_addresses.len() == 0 {
            known.as_slice()
        } else {
            world_addresses
        };
        let mut places: Vec<usize> = Vec::new();
        let mut i: usize = 0;
        proof {
            assert(worlds@.take(0) =~= Seq::<Felt>::empty());
            assert(places@.map_values(|x: usize| x as int) =~= Seq::<int>::empty());
        }
        while i < worlds.len()
            invariant
                i <= worlds@.len(),
                places@.map_values(|x: usize| x as int) == places_in_worlds(
                    self.entries@,
                    worlds@.take(i as int),
                    selectors@,
                ),
                forall|k: int| 0 <= k < places@.len() ==> places@[k] < self.entries@.len(),
            decreases worlds@.len() - i,
        {
            proof {
                assert(worlds@.take(i + 1).drop_last() =~= worlds@.take(i as int));
            }
            self.push_places(worlds[i], selectors, &mut places);
            i = i + 1;
        }
        proof {
            assert(worlds@.take(i as int) =~= worlds@);
        }
        let ghost asked = places_asked(self.entries@, world_addresses@, selectors@);
        let mut out: Vec<&Model> = Vec::new();
        let mut k: usize = 0;
        while k < places.len()
            invariant
                k <= places@.len(),
                out@.len() == k,
                places@.map_values(|x: usize| x as int) == asked,
                forall|j: int| 0 <= j < places@.len() ==> places@[j] < self.entries@.len(),
                forall|j: int| 0 <= j < k ==> *#[trigger] out@[j] == self.entries@[asked[j]].model,
            decreases places@.len() - k,
        {
            proof {
                assert(asked[k as int] == places@[k as int]);
            }
            out.push(&self.entries[places[k]].model);
            k = k + 1;
        }
        out
    }
}

/// Every entry of the cache is the one that is found for its world and selector.
pub proof fn each_model_stands_once(c: ModelCache, i: int)
    requires
        c.wf(),
        0 <= i < c.entries@.len(),
    ensures
        c.lookup(c.entries@[i].world, c.entries@[i].selector) == Some(c.entries@[i].model),
{
    let e = c.entries@[i];
    place_found(c.entries@, e.world, e.selector);
    let j = place(c.entries@, e.world, e.selector)->0;
    if j < i {
        assert(c.entries@[j].world != c.entries@[i].world || c.entries@[j].selector
            != c.entries@[i].selector);
    } else if i < j {
        assert(c.entries@[i].world != c.entries@[j].world || c.entries@[i].selector
            != c.entries@[j].selector);
    }
}

// ---------------------------------------------------------------------------
// Tokens
// ---------------------------------------------------------------------------

/// How far a token is registered.
#[derive(Clone, Copy, Debug, PartialEq, Eq, Structural)]
pub enum TokenState {
    Registered,
    /// Being registered, under the lock of that number.
    Registering(u128),
    NotRegistered,
}

/// The state that a value stands for.
pub open spec fn state_of(c: Cell) -> TokenState {
    if c.2 == 0 {
        TokenState::Registered
    } else if c.2 == 1 {
        TokenState::Registering(c.0)
    } else {
        TokenState::NotRegistered
    }
}

/// The balance of an account in a token.
#[derive(Clone, Copy, Debug, PartialEq, Eq, Structural)]
pub struct BalanceId {
    pub account_address: Felt,
    pub token_id: TokenId,
}

/// A change of a balance.
#[derive(Clone, Copy, Debug, PartialEq, Eq, Structural)]
pub struct BalanceDiff {
    pub id: BalanceId,
    pub diff: I256,
}

/// Tokens, and the changes of balances and supplies that are not yet written.
pub struct ErcCache {
    pub balances_diff: dashmap::DashMap<CellKey, Cell>,
    pub total_supply_diff: dashmap::DashMap<CellKey, Cell>,
    pub token_id_registry: dashmap::DashMap<CellKey, Cell>,
    /// The number of the next lock.
    pub next_lock: u128,
}

/// The zero element.
pub open spec fn zero() -> Felt {
    Felt { hi: 0, lo: 0 }
}

/// The key of a token.
pub open spec fn token_key(t: TokenId) -> CellKey {
    key_of(zero(), t)
}

/// A key holds the token it was made of.
pub proof fn key_holds_token(account: Felt, t: TokenId)
    ensures
        token_of(key_of(account, t)) == t,
{
}

/// The changes of balances after a transfer: the giver has less and the taker has more; the zero
/// address is neither.
pub open spec fn balances_after(
    a: Map<CellKey, int>,
    token: TokenId,
    from: Felt,
    to: Felt,
    value: int,
) -> Map<CellKey, int> {
    let given = if from != zero() {
        moved(a, key_of(from, token), -value)
    } else {
        a
    };
    if to != zero() {
        moved(given, key_of(to, token), value)
    } else {
        given
    }
}

/// The changes of supplies after a transfer: more by what the zero address gives to another, less
/// by what it takes from another.
pub open spec fn supplies_after(
    a: Map<CellKey, int>,
    token: TokenId,
    from: Felt,
    to: Felt,
    value: int,
) -> Map<CellKey, int> {
    if from == zero() && to != zero() {
        moved(a, token_key(token), value)
    } else if from != zero() && to == zero() {
        moved(a, token_key(token), -value)
    } else {
        a
    }
}

/// Whether the changes after a transfer can be held.
pub open spec fn transfer_fits(
    balances: Map<CellKey, int>,
    supplies: Map<CellKey, int>,
    token: TokenId,
    from: Felt,
    to: Felt,
    value: int,
) -> bool {
    let given = if from != zero() {
        moved(balances, key_of(from, token), -value)
    } else {
        balances
    };
    &&& from != zero() ==> fits(at(balances, key_of(from, token)) - value)
    &&& to != zero() ==> fits(at(given, key_of(to, token)) + value)
    &&& from == zero() && to != zero() ==> fits(at(supplies, token_key(token)) + value)
    &&& from != zero() && to == zero() ==> fits(at(supplies, token_key(token)) - value)
}

/// Changes the amount of a key.
fn change(m: &mut dashmap::DashMap<CellKey, Cell>, k: CellKey, value: U256, less: bool)
    requires
        less ==> fits(at(amounts(cells(*old(m))), k) - value.value()),
        !less ==> fits(at(amounts(cells(*old(m))), k) + value.value()),
    ensures
        amounts(cells(*final(m))) == moved(
            amounts(cells(*old(m))),
            k,
            if less {
                -(value.value() as int)
            } else {
                value.value() as int
            },
        ),
        cells(*old(m)).dom().finite() ==> cells(*final(m)).dom().finite(),
{
    let ghost before = cells(*m);
    let step = I256::from_u256(value);
    let new = match get_cell(m, k) {
        Some(c) => {
            proof {
                assert(at(amounts(before), k) == amount_of(c));
            }
            if less {
                sub_amounts(amount(c), step)
            } else {
                add_amounts(amount(c), step)
            }
        },
        None => {
            proof {
                assert(!amounts(before).dom().contains(k));
            }
            I256 { value, is_negative: less }
        },
    };
    let cell = cell_of(new);
    put_cell(m, k, cell);
    proof {
        assert(amounts(before.insert(k, cell)) =~= moved(
            amounts(before),
            k,
            if less {
                -(value.value() as int)
            } else {
                value.value() as int
            },
        ));
    }
}

/// A listed change, by account and token.
pub fn balance_change(listed: (CellKey, Cell)) -> (r: BalanceDiff)
    ensures
        r.id.account_address == account_of(listed.0),
        r.id.token_id == token_of(listed.0),
        r.diff.amount() == amount_of(listed.1),
{
    let (k, c) = listed;
    let contract = Felt { hi: k.2, lo: k.3 };
    let token_id = if k.4 {
        TokenId::Nft(contract, U256 { hi: k.5, lo: k.6 })
    } else {
        TokenId::Contract(contract)
    };
    BalanceDiff {
        id: BalanceId { account_address: Felt { hi: k.0, lo: k.1 }, token_id },
        diff: amount(c),
    }
}

/// Whether the list holds every amount once, under its key.
pub open spec fn lists_amounts(l: Seq<(CellKey, Cell)>, m: Map<CellKey, int>) -> bool {
    &&& forall|k: CellKey|
        #[trigger] m.dom().contains(k) <==> exists|i: int| 0 <= i < l.len() && (#[trigger] l[i]).0 == k
    &&& forall|i: int| 0 <= i < l.len() ==> m[(#[trigger] l[i]).0] == amount_of(l[i].1)
    &&& forall|i: int, j: int| 0 <= i < j < l.len() ==> (#[trigger] l[i]).0 != (#[trigger] l[j]).0
}

/// Whether the change is that of a listed amount.
pub open spec fn change_is(d: BalanceDiff, listed: (CellKey, Cell)) -> bool {
    &&& d.id.account_address == account_of(listed.0)
    &&& d.id.token_id == token_of(listed.0)
    &&& d.diff.amount() == amount_of(listed.1)
}

/// Whether the changes are those of a listing of the amounts, one for one.
pub open spec fn changes_are(v: Seq<BalanceDiff>, m: Map<CellKey, int>) -> bool {
    exists|l: Seq<(CellKey, Cell)>| #[trigger]
        lists_amounts(l, m) && v.len() == l.len() && forall|i: int|
            0 <= i < l.len() ==> change_is(#[trigger] v[i], l[i])
}

/// The listed changes, by account and token.
fn changes_of(listed: &Vec<(CellKey, Cell)>) -> (r: Vec<BalanceDiff>)
    ensures
        r@.len() == listed@.len(),
        forall|i: int| 0 <= i < r@.len() ==> change_is(#[trigger] r@[i], listed@[i]),
{
    let mut out: Vec<BalanceDiff> = Vec::new();
    let mut i: usize = 0;
    while i < listed.len()
        invariant
            i <= listed@.len(),
            out@.len() == i,
            forall|k: int| 0 <= k < i ==> change_is(#[trigger] out@[k], listed@[k]),
        decreases listed@.len() - i,
    {
        out.push(balance_change(listed[i]));
        i = i + 1;
    }
    out
}

impl ErcCache {
    /// The state of a token; one that was never seen is not registered.
    pub open spec fn state(self, t: TokenId) -> TokenState {
        let m = cells(self.token_id_registry);
        if m.dom().contains(token_key(t)) {
            state_of(m[token_key(t)])
        } else {
            TokenState::NotRegistered
        }
    }

    /// The tokens that are being registered have locks of their own, and none has the next.
    pub open spec fn wf(self) -> bool {
        &&& forall|t: TokenId| (#[trigger] self.state(t)) matches TokenState::Registering(l) ==> l
            < self.next_lock
        &&& forall|a: TokenId, b: TokenId|
            a != b && (#[trigger] self.state(a)) is Registering && (#[trigger] self.state(
                b,
            )) is Registering ==> self.state(a) != self.state(b)
    }

    /// The changes of balances.
    pub open spec fn balances(self) -> Map<CellKey, int> {
        amounts(cells(self.balances_diff))
    }

    /// The changes of supplies.
    pub open spec fn supplies(self) -> Map<CellKey, int> {
        amounts(cells(self.total_supply_diff))
    }

    /// The cache when the storage holds these tokens: they are registered, and nothing is changed.
    pub fn new(token_ids: &Vec<TokenId>) -> (r: ErcCache)
        ensures
            r.wf(),
            forall|t: TokenId|
                #[trigger] r.state(t) == (if token_ids@.contains(t) {
                    TokenState::Registered
                } else {
                    TokenState::NotRegistered
                }),
            cells(r.balances_diff) == no_cells(),
            cells(r.total_supply_diff) == no_cells(),
            r.next_lock == 0,
    {
        let mut c = ErcCache {
            balances_diff: new_cells(),
            total_supply_diff: new_cells(),
            token_id_registry: new_cells(),
            next_lock: 0,
        };
        c.register_all(token_ids);
        c
    }

    /// Sets the registry back to the tokens that the storage holds: those are registered and no
    /// others. Where the storage could not be read, that is told, and nothing changes. Balances and
    /// supplies are left.
    pub fn reset_token_registry(&mut self, committed: Result<&Vec<TokenId>, StorageError>) -> (r:
        Result<(), CacheError>)
        ensures
            match committed {
                Ok(v) => r is Ok && final(self).wf() && forall|t: TokenId|
                    #[trigger] final(self).state(t) == (if v@.contains(t) {
                        TokenState::Registered
                    } else {
                        TokenState::NotRegistered
                    }),
                Err(e) => r matches Err(CacheError::Storage(b)) && *b == e && *final(self) == *old(
                    self,
                ),
            },
            final(self).balances_diff == old(self).balances_diff,
            final(self).total_supply_diff == old(self).total_supply_diff,
            final(self).next_lock == old(self).next_lock,
    {
        match committed {
            Ok(v) => {
                self.register_all(v);
                Ok(())
            },
            Err(e) => Err(CacheError::Storage(Box::new(e))),
        }
    }

    /// Sets the registry to these tokens: those are registered and no others.
    fn register_all(&mut self, committed: &Vec<TokenId>)
        ensures
            forall|t: TokenId|
                #[trigger] final(self).state(t) == (if committed@.contains(t) {
                    TokenState::Registered
                } else {
                    TokenState::NotRegistered
                }),
            final(self).wf(),
            final(self).balances_diff == old(self).balances_diff,
            final(self).total_supply_diff == old(self).total_supply_diff,
            final(self).next_lock == old(self).next_lock,
    {
        clear_cells(&mut self.token_id_registry);
        let mut i: usize = 0;
        while i < committed.len()
            invariant
                i <= committed@.len(),
                self.balances_diff == old(self).balances_diff,
                self.total_supply_diff == old(self).total_supply_diff,
                self.next_lock == old(self).next_lock,
                forall|t: TokenId|
                    #[trigger] self.state(t) == (if committed@.take(i as int).contains(t) {
                        TokenState::Registered
                    } else {
                        TokenState::NotRegistered
                    }),
            decreases committed@.len() - i,
        {
            let ghost before = *self;
            let t0 = committed[i];
            let k = key(Felt { hi: 0, lo: 0 }, t0);
            put_cell(&mut self.token_id_registry, k, (0, 0, 0));
            proof {
                assert forall|t: TokenId|
                    #[trigger] self.state(t) == (if committed@.take(i + 1).contains(t) {
                        TokenState::Registered
                    } else {
                        TokenState::NotRegistered
                    }) by {
                    key_holds_token(zero(), t);
                    key_holds_token(zero(), t0);
                    let _ = before.state(t);
                    if t == t0 {
                        assert(committed@.take(i + 1)[i as int] == t);
                    } else {
                        assert(token_key(t) != token_key(t0));
                        let a = committed@.take(i as int);
                        let b = committed@.take(i + 1);
                        if a.contains(t) {
                            let j = choose|j: int| 0 <= j < a.len() && a[j] == t;
                            assert(b[j] == t);
                        }
                        if b.contains(t) {
                            let j = choose|j: int| 0 <= j < b.len() && b[j] == t;
                            assert(a[j] == t);
                        }
                    }
                }
            }
            i = i + 1;
        }
        proof {
            assert(committed@.take(i as int) =~= committed@);
        }
    }

    /// The number of the lock under which a token is registered; none where it is registered. A
    /// token that was not yet being registered gets a lock of its own, which no other token has.
    pub fn get_token_registration_lock(&mut self, token_id: TokenId) -> (r: Option<u128>)
        requires
            old(self).wf(),
            old(self).next_lock < u128::MAX,
        ensures
            final(self).wf(),
            r is None <==> old(self).state(token_id) == TokenState::Registered,
            r matches Some(l) ==> l < final(self).next_lock && forall|t: TokenId|
                t != token_id ==> #[trigger] old(self).state(t) != TokenState::Registering(l),
            match old(self).state(token_id) {
                TokenState::Registered => r is None && final(self).state(token_id)
                    == TokenState::Registered && final(self).next_lock == old(self).next_lock,
                TokenState::Registering(l) => r == Some(l) && final(self).state(token_id)
                    == TokenState::Registering(l) && final(self).next_lock == old(self).next_lock,
                TokenState::NotRegistered => r == Some(old(self).next_lock) && final(self).state(
                    token_id,
                ) == TokenState::Registering(old(self).next_lock) && final(self).next_lock
                    == old(self).next_lock + 1,
            },
            forall|t: TokenId|
                t != token_id ==> #[trigger] final(self).state(t) == old(self).state(t),
            final(self).balances_diff == old(self).balances_diff,
            final(self).total_supply_diff == old(self).total_supply_diff,
    {
        let k = key(Felt { hi: 0, lo: 0 }, token_id);
        let state = get_cell(&self.token_id_registry, k);
        match state {
            Some(c) => {
                if c.2 == 0 {
                    return None;
                } else if c.2 == 1 {
                    return Some(c.0);
                }
            },
            None => {},
        }
        let lock: u128 = self.next_lock;
        put_cell(&mut self.token_id_registry, k, (lock, 0, 1));
        self.next_lock = lock + 1;
        proof {
            assert forall|t: TokenId| t != token_id implies #[trigger] self.state(t) == old(
                self,
            ).state(t) by {
                key_holds_token(zero(), t);
                key_holds_token(zero(), token_id);
                assert(token_key(t) != token_key(token_id));
            }
            assert(self.state(token_id) == TokenState::Registering(lock));
            assert forall|t: TokenId| (#[trigger] self.state(t)) is Registering implies self.state(
                t,
            )->Registering_0 < self.next_lock by {
                if t != token_id {
                    assert(self.state(t) == old(self).state(t));
                }
            }
            assert forall|a: TokenId, b: TokenId|
                a != b && (#[trigger] self.state(a)) is Registering && (#[trigger] self.state(
                    b,
                )) is Registering implies self.state(a) != self.state(b) by {
                if a != token_id {
                    assert(self.state(a) == old(self).state(a));
                }
                if b != token_id {
                    assert(self.state(b) == old(self).state(b));
                }
            }
            assert forall|t: TokenId| t != token_id implies #[trigger] old(self).state(t)
                != TokenState::Registering(lock) by {
                assert(self.state(t) == old(self).state(t));
            }
        }
        Some(lock)
    }

    /// Notes that a token is registered.
    pub fn mark_token_registered(&mut self, token_id: TokenId)
        ensures
            final(self).state(token_id) == TokenState::Registered,
            old(self).wf() ==> final(self).wf(),
            forall|t: TokenId|
                t != token_id ==> #[trigger] final(self).state(t) == old(self).state(t),
            final(self).balances_diff == old(self).balances_diff,
            final(self).total_supply_diff == old(self).total_supply_diff,
            final(self).next_lock == old(self).next_lock,
    {
        let k = key(Felt { hi: 0, lo: 0 }, token_id);
        put_cell(&mut self.token_id_registry, k, (0, 0, 0));
        proof {
            assert forall|t: TokenId| t != token_id implies #[trigger] self.state(t) == old(
                self,
            ).state(t) by {
                key_holds_token(zero(), t);
                key_holds_token(zero(), token_id);
                assert(token_key(t) != token_key(token_id));
            }
            assert(self.state(token_id) == TokenState::Registered);
            if old(self).wf() {
                locks_stay_apart(*old(self), *self);
            }
        }
    }

    /// Whether a token is registered.
    pub fn is_token_registered(&self, token_id: &TokenId) -> (r: bool)
        ensures
            r == (self.state(*token_id) == TokenState::Registered),
    {
        match get_cell(&self.token_id_registry, key(Felt { hi: 0, lo: 0 }, *token_id)) {
            Some(c) => c.2 == 0,
            None => false,
        }
    }

    /// Takes a transfer into the changes of balances and supplies.
    pub fn update_balance_diff(&mut self, token_id: TokenId, from: Felt, to: Felt, value: U256)
        requires
            transfer_fits(
                old(self).balances(),
                old(self).supplies(),
                token_id,
                from,
                to,
                value.value() as int,
            ),
        ensures
            final(self).balances() == balances_after(
                old(self).balances(),
                token_id,
                from,
                to,
                value.value() as int,
            ),
            final(self).supplies() == supplies_after(
                old(self).supplies(),
                token_id,
                from,
                to,
                value.value() as int,
            ),
            final(self).token_id_registry == old(self).token_id_registry,
            final(self).next_lock == old(self).next_lock,
            old(self).wf() ==> final(self).wf(),
    {
        let none = Felt { hi: 0, lo: 0 };
        if from != none {
            change(&mut self.balances_diff, key(from, token_id), value, true);
        }
        if to != none {
            change(&mut self.balances_diff, key(to, token_id), value, false);
        }
        if from == none && to != none {
            change(&mut self.total_supply_diff, key(none, token_id), value, false);
        } else if from != none && to == none {
            change(&mut self.total_supply_diff, key(none, token_id), value, true);
        }
        proof {
            if old(self).wf() {
                locks_stay_apart(*old(self), *self);
            }
        }
    }

    /// Forgets the changes of balances and supplies.
    pub fn clear_balances_diff(&mut self)
        ensures
            cells(final(self).balances_diff) == no_cells(),
            cells(final(self).total_supply_diff) == no_cells(),
            final(self).token_id_registry == old(self).token_id_registry,
            final(self).next_lock == old(self).next_lock,
            old(self).wf() ==> final(self).wf(),
    {
        clear_cells(&mut self.balances_diff);
        clear_cells(&mut self.total_supply_diff);
        proof {
            if old(self).wf() {
                locks_stay_apart(*old(self), *self);
            }
        }
    }

    /// The changes of balances, in no stated order.
    pub fn balances_diff(&self) -> (r: Vec<(CellKey, Cell)>)
        ensures
            lists_amounts(r@, self.balances()),
    {
        let r = list_cells(&self.balances_diff);
        proof {
            let m = cells(self.balances_diff);
            assert(self.balances().dom() =~= m.dom());
            assert forall|k: CellKey| #[trigger] self.balances().dom().contains(k) <==> exists|
                i: int,
            |
                0 <= i < r@.len() && (#[trigger] r@[i]).0 == k by {
                assert(m.dom().contains(k) <==> self.balances().dom().contains(k));
            }
            assert forall|i: int| 0 <= i < r@.len() implies self.balances()[(#[trigger] r@[i]).0]
                == amount_of(r@[i].1) by {
                assert(m.dom().contains(r@[i].0));
            }
        }
        r
    }

    /// The changes of supplies, in no stated order.
    pub fn total_supply_diff(&self) -> (r: Vec<(CellKey, Cell)>)
        ensures
            lists_amounts(r@, self.supplies()),
    {
        let r = list_cells(&self.total_supply_diff);
        proof {
            let m = cells(self.total_supply_diff);
            assert(self.supplies().dom() =~= m.dom());
            assert forall|k: CellKey| #[trigger] self.supplies().dom().contains(k) <==> exists|
                i: int,
            |
                0 <= i < r@.len() && (#[trigger] r@[i]).0 == k by {
                assert(m.dom().contains(k) <==> self.supplies().dom().contains(k));
            }
            assert forall|i: int| 0 <= i < r@.len() implies self.supplies()[(#[trigger] r@[i]).0]
                == amount_of(r@[i].1) by {
                assert(m.dom().contains(r@[i].0));
            }
        }
        r
    }
}

impl ErcCache {
    /// The changes of balances and of supplies that are to be written, each in no stated order.
    pub fn unwritten(&self) -> (r: (Vec<BalanceDiff>, Vec<BalanceDiff>))
        ensures
            changes_are(r.0@, self.balances()),
            changes_are(r.1@, self.supplies()),
    {
        let balances = self.balances_diff();
        let supplies = self.total_supply_diff();
        (changes_of(&balances), changes_of(&supplies))
    }
}

/// Where no lock is given anew, locks stay apart.
proof fn locks_stay_apart(before: ErcCache, after: ErcCache)
    requires
        before.wf(),
        after.next_lock == before.next_lock,
        forall|t: TokenId|
            #[trigger] after.state(t) == before.state(t) || after.state(t)
                == TokenState::Registered,
    ensures
        after.wf(),
{
    assert forall|t: TokenId| (#[trigger] after.state(t)) is Registering implies after.state(
        t,
    )->Registering_0 < after.next_lock by {
        let _ = before.state(t);
    }
    assert forall|a: TokenId, b: TokenId|
        a != b && (#[trigger] after.state(a)) is Registering && (#[trigger] after.state(
            b,
        )) is Registering implies after.state(a) != after.state(b) by {
        assert(after.state(a) == before.state(a));
        assert(after.state(b) == before.state(b));
    }
}

/// Two tokens that are being registered have different locks, and none has the next one.
pub proof fn registrations_have_their_own_locks(c: ErcCache, a: TokenId, b: TokenId, l: u128, m: u128)
    requires
        c.wf(),
        c.state(a) == TokenState::Registering(l),
        c.state(b) == TokenState::Registering(m),
    ensures
        l == m <==> a == b,
        l < c.next_lock,
{
}

/// All that is kept in memory.
pub struct InMemoryCache {
    pub model_cache: ModelCache,
    pub erc_cache: ErcCache,
}

impl InMemoryCache {
    /// The cache when the storage holds these models and tokens.
    pub fn new(models: Vec<Model>, token_ids: &Vec<TokenId>) -> (r: InMemoryCache)
        ensures
            r.model_cache.wf(),
            r.erc_cache.wf(),
            r.model_cache.entries@ == entries_of(models@),
            forall|t: TokenId|
                #[trigger] r.erc_cache.state(t) == (if token_ids@.contains(t) {
                    TokenState::Registered
                } else {
                    TokenState::NotRegistered
                }),
            cells(r.erc_cache.balances_diff) == no_cells(),
            cells(r.erc_cache.total_supply_diff) == no_cells(),
    {
        InMemoryCache { model_cache: ModelCache::new(models), erc_cache: ErcCache::new(token_ids) }
    }

    /// Sets the cache back after changes were taken back in the storage: nothing is left of what
    /// was not committed. Models are read again from the storage when they are needed. Where the
    /// tokens could not be read, that is told, and the registry is left.
    pub fn forget_uncommitted(&mut self, committed: Result<&Vec<TokenId>, StorageError>) -> (r:
        Result<(), CacheError>)
        ensures
            final(self).model_cache.wf(),
            forall|w: Felt, s: Felt| #[trigger] final(self).model_cache.lookup(w, s) is None,
            match committed {
                Ok(v) => r is Ok && final(self).erc_cache.wf() && forall|t: TokenId|
                    #[trigger] final(self).erc_cache.state(t) == (if v@.contains(t) {
                        TokenState::Registered
                    } else {
                        TokenState::NotRegistered
                    }),
                Err(e) => r matches Err(CacheError::Storage(b)) && *b == e
                    && final(self).erc_cache.token_id_registry == old(
                    self,
                ).erc_cache.token_id_registry,
            },
            final(self).erc_cache.next_lock == old(self).erc_cache.next_lock,
            cells(final(self).erc_cache.balances_diff) == no_cells(),
            cells(final(self).erc_cache.total_supply_diff) == no_cells(),
    {
        self.erc_cache.clear_balances_diff();
        self.model_cache.clear();
        self.erc_cache.reset_token_registry(committed)
    }
}

/// The change of the supply of every token is the sum of the changes of its balances.
pub open spec fn conserved(balances: Map<CellKey, int>, supplies: Map<CellKey, int>) -> bool {
    &&& balances.dom().finite()
    &&& forall|t: TokenId| #[trigger] token_sum(balances, t) == at(supplies, token_key(t))
}

/// Without changes, supplies and balances agree.
pub proof fn nothing_is_conserved()
    ensures
        conserved(Map::empty(), Map::empty()),
{
}

/// A transfer keeps the changes of supplies and of balances in agreement: what is made or destroyed
/// is what the accounts have more or less.
pub proof fn transfers_conserve(
    balances: Map<CellKey, int>,
    supplies: Map<CellKey, int>,
    token: TokenId,
    from: Felt,
    to: Felt,
    value: int,
)
    requires
        conserved(balances, supplies),
    ensures
        conserved(
            balances_after(balances, token, from, to, value),
            supplies_after(supplies, token, from, to, value),
        ),
{
    let b = balances_after(balances, token, from, to, value);
    let s = supplies_after(supplies, token, from, to, value);
    let given = if from != zero() {
        moved(balances, key_of(from, token), -value)
    } else {
        balances
    };
    if from != zero() {
        token_sum_moved(balances, token, key_of(from, token), -value);
    }
    if to != zero() {
        token_sum_moved(given, token, key_of(to, token), value);
    }
    assert forall|t: TokenId| #[trigger] token_sum(b, t) == at(s, token_key(t)) by {
        assert(token_sum(balances, t) == at(supplies, token_key(t)));
        key_holds_token(from, token);
        key_holds_token(to, token);
        key_holds_token(zero(), token);
        key_holds_token(zero(), t);
        if from != zero() {
            token_sum_moved(balances, t, key_of(from, token), -value);
        }
        if to != zero() {
            token_sum_moved(given, t, key_of(to, token), value);
        }
        if t != token {
            assert(token_key(t) != token_key(token));
        }
    }
}

} // verus!
