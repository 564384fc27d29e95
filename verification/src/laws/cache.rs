//! What is kept in memory of models, balances and supplies.
use vstd::prelude::*;
use crate::cache::{
    balances_after, entries_of, place, place_found, places_asked, places_in, places_in_worlds,
    places_of_selectors, places_of_world, supplies_after, with_model, worlds_known, zero, Model,
    ModelCache, ModelEntry,
};
use crate::felt::Felt;
use crate::ledger::{account_of, at, key_of, token_of, CellKey};
use crate::text::without_repeats_is_a_set;
use crate::tokens::TokenId;

verus! {

// ---------------------------------------------------------------------------
// Balances
// ---------------------------------------------------------------------------

/// The changes of an account in a token are kept apart from all others.
pub proof fn accounts_are_kept_apart(a: Felt, t: TokenId, b: Felt, u: TokenId)
    ensures
        key_of(a, t) == key_of(b, u) <==> a == b && t == u,
        account_of(key_of(a, t)) == a,
        token_of(key_of(a, t)) == t,
{
    assert(account_of(key_of(a, t)) == a && token_of(key_of(a, t)) == t);
    assert(account_of(key_of(b, u)) == b && token_of(key_of(b, u)) == u);
}

/// A transfer takes what it moves from the giver and gives it to the taker, in the token that is
/// moved; no other account and no other token changes. The zero address has no balance.
pub proof fn transfers_move_the_amount(
    balances: Map<CellKey, int>,
    token: TokenId,
    from: Felt,
    to: Felt,
    value: int,
    account: Felt,
    other: TokenId,
)
    ensures
        ({
            let after = balances_after(balances, token, from, to, value);
            let none = Felt { hi: 0, lo: 0 };
            let change = at(after, key_of(account, other)) - at(balances, key_of(account, other));
            &&& other == token && account == from && account != to && account != none ==> change
                == -value
            &&& other == token && account == to && account != from && account != none ==> change
                == value
            &&& other != token || (account != from && account != to) || account == none || from == to
                ==> change == 0
        }),
{
    accounts_are_kept_apart(account, other, from, token);
    accounts_are_kept_apart(account, other, to, token);
    accounts_are_kept_apart(from, token, to, token);
}

/// A transfer from the zero address makes what it moves, one to the zero address destroys it, and
/// every other transfer leaves the supply; the supply of another token is never changed.
pub proof fn supplies_follow_the_zero_address(
    supplies: Map<CellKey, int>,
    token: TokenId,
    from: Felt,
    to: Felt,
    value: int,
    other: TokenId,
)
    ensures
        ({
            let after = supplies_after(supplies, token, from, to, value);
            let none = Felt { hi: 0, lo: 0 };
            let change = at(after, key_of(none, other)) - at(supplies, key_of(none, other));
            &&& other == token && from == none && to != none ==> change == value
            &&& other == token && from != none && to == none ==> change == -value
            &&& other != token || (from == none) == (to == none) ==> change == 0
        }),
{
    accounts_are_kept_apart(zero(), other, zero(), token);
}

// ---------------------------------------------------------------------------
// Models
// ---------------------------------------------------------------------------

/// Setting a model makes it the one of its world and selector, and leaves every other.
proof fn set_models_are_found(e: Seq<ModelEntry>, world: Felt, selector: Felt, m: Model, w: Felt, s: Felt)
    ensures
        ({
            let after = with_model(e, world, selector, m);
            &&& w == world && s == selector ==> (place(after, w, s) matches Some(i) && after[i].model
                == m)
            &&& w != world || s != selector ==> match place(e, w, s) {
                Some(i) => place(after, w, s) == Some(i) && after[i] == e[i],
                None => place(after, w, s) is None,
            }
        }),
    decreases e.len(),
{
    let after = with_model(e, world, selector, m);
    place_found(e, world, selector);
    place_found(e, w, s);
    place_found(after, w, s);
    match place(e, world, selector) {
        Some(i) => {
            same_places(e, after, w, s);
        },
        None => {
            assert(after.drop_last() =~= e);
        },
    }
}

/// Entries of the same worlds and selectors have the same places.
proof fn same_places(a: Seq<ModelEntry>, b: Seq<ModelEntry>, world: Felt, selector: Felt)
    requires
        a.len() == b.len(),
        forall|i: int|
            0 <= i < a.len() ==> (#[trigger] a[i]).world == b[i].world && a[i].selector
                == b[i].selector,
    ensures
        place(a, world, selector) == place(b, world, selector),
    decreases a.len(),
{
    if a.len() > 0 {
        let (x, y) = (a.drop_last(), b.drop_last());
        assert forall|i: int| 0 <= i < x.len() implies (#[trigger] x[i]).world == y[i].world
            && x[i].selector == y[i].selector by {
            assert(a[i].world == b[i].world);
        }
        same_places(x, y, world, selector);
        assert(a[a.len() - 1].world == b[a.len() - 1].world);
    }
}

/// Of the models that the storage holds, the last of a world and selector is kept.
pub proof fn the_last_model_is_kept(models: Seq<Model>, i: int)
    requires
        0 <= i < models.len(),
        forall|j: int|
            i < j < models.len() ==> (#[trigger] models[j]).world_address != models[i].world_address
                || models[j].selector != models[i].selector,
    ensures
        ({
            let e = entries_of(models);
            place(e, models[i].world_address, models[i].selector) matches Some(k) && e[k].model
                == models[i]
        }),
    decreases models.len(),
{
    let n = models.len() - 1;
    let t = models.drop_last();
    let (w, s) = (models[i].world_address, models[i].selector);
    let m = models[n];
    set_models_are_found(entries_of(t), m.world_address, m.selector, m, w, s);
    if i < n {
        assert(models[n].world_address != w || models[n].selector != s);
        assert forall|j: int| i < j < t.len() implies (#[trigger] t[j]).world_address
            != t[i].world_address || t[j].selector != t[i].selector by {
            assert(models[j].world_address != w || models[j].selector != s);
        }
        the_last_model_is_kept(t, i);
        place_found(entries_of(t), w, s);
    }
}

/// The places of a world are those of its entries.
proof fn world_places(e: Seq<ModelEntry>, world: Felt, p: int)
    ensures
        places_of_world(e, world).contains(p) <==> 0 <= p < e.len() && e[p].world == world,
    decreases e.len(),
{
    if e.len() > 0 {
        let t = e.drop_last();
        world_places(t, world, p);
        let before = places_of_world(t, world);
        let after = places_of_world(e, world);
        if 0 <= p < t.len() {
            assert(t[p] == e[p]);
        }
        pushed(before, e.len() - 1, p);
        assert(after == before || after == before.push(e.len() - 1));
    }
}

/// What a sequence contains after a push.
proof fn pushed(s: Seq<int>, x: int, y: int)
    ensures
        s.push(x).contains(y) <==> s.contains(y) || x == y,
{
    let t = s.push(x);
    assert(t[s.len() as int] == x);
    if s.contains(y) {
        let k = choose|k: int| 0 <= k < s.len() && s[k] == y;
        assert(t[k] == y);
    }
    if t.contains(y) {
        let k = choose|k: int| 0 <= k < t.len() && t[k] == y;
        if k < s.len() {
            assert(s[k] == y);
        }
    }
}

/// The places of selectors in a world are those of its entries with one of them.
proof fn selector_places(c: ModelCache, world: Felt, selectors: Seq<Felt>, p: int)
    requires
        c.wf(),
    ensures
        places_of_selectors(c.entries@, world, selectors).contains(p) <==> 0 <= p < c.entries@.len()
            && c.entries@[p].world == world && selectors.contains(c.entries@[p].selector),
    decreases selectors.len(),
{
    if selectors.len() > 0 {
        let e = c.entries@;
        let t = selectors.drop_last();
        let last = selectors.last();
        selector_places(c, world, t, p);
        let before = places_of_selectors(e, world, t);
        place_found(e, world, last);
        if 0 <= p < e.len() {
            let s = e[p].selector;
            assert(selectors.contains(s) <==> t.contains(s) || s == last) by {
                assert(selectors =~= t.push(last));
                if t.contains(s) {
                    let k = choose|k: int| 0 <= k < t.len() && t[k] == s;
                    assert(selectors[k] == s);
                }
                if selectors.contains(s) {
                    let k = choose|k: int| 0 <= k < selectors.len() && selectors[k] == s;
                    if k < t.len() {
                        assert(t[k] == s);
                    }
                }
                assert(selectors[selectors.len() - 1] == last);
            }
        }
        match place(e, world, last) {
            Some(i) => {
                pushed(before, i, p);
                if 0 <= p < e.len() && e[p].world == world && e[p].selector == last && p != i {
                    if p < i {
                        assert(e[p].world != e[i].world || e[p].selector != e[i].selector);
                    } else {
                        assert(e[i].world != e[p].world || e[i].selector != e[p].selector);
                    }
                }
            },
            None => {},
        }
    }
}

/// The models asked for are those of one of the worlds, where worlds are given, and with one of the
/// selectors, where selectors are given, and no others.
pub proof fn models_are_asked_by_world_and_selector(
    c: ModelCache,
    worlds: Seq<Felt>,
    selectors: Seq<Felt>,
    p: int,
)
    requires
        c.wf(),
    ensures
        places_asked(c.entries@, worlds, selectors).contains(p) <==> 0 <= p < c.entries@.len() && (
        worlds.len() == 0 || worlds.contains(c.entries@[p].world)) && (selectors.len() == 0
            || selectors.contains(c.entries@[p].selector)),
{
    let e = c.entries@;
    if worlds.len() == 0 {
        let all = e.map_values(|x: ModelEntry| x.world);
        without_repeats_is_a_set(all);
        in_worlds(c, worlds_known(e), selectors, p);
        if 0 <= p < e.len() {
            assert(all[p] == e[p].world);
            assert(all.contains(e[p].world));
        }
    } else {
        in_worlds(c, worlds, selectors, p);
    }
}

/// The places in some worlds are those in one of them.
proof fn in_worlds(c: ModelCache, worlds: Seq<Felt>, selectors: Seq<Felt>, p: int)
    requires
        c.wf(),
    ensures
        places_in_worlds(c.entries@, worlds, selectors).contains(p) <==> 0 <= p < c.entries@.len()
            && worlds.contains(c.entries@[p].world) && (selectors.len() == 0 || selectors.contains(
            c.entries@[p].selector,
        )),
    decreases worlds.len(),
{
    if worlds.len() > 0 {
        let e = c.entries@;
        let t = worlds.drop_last();
        let last = worlds.last();
        in_worlds(c, t, selectors, p);
        world_places(e, last, p);
        selector_places(c, last, selectors, p);
        let a = places_in_worlds(e, t, selectors);
        let b = places_in(e, last, selectors);
        let both = a + b;
        if a.contains(p) {
            let k = choose|k: int| 0 <= k < a.len() && a[k] == p;
            assert(both[k] == p);
        }
        if b.contains(p) {
            let k = choose|k: int| 0 <= k < b.len() && b[k] == p;
            assert(both[a.len() + k] == p);
        }
        if both.contains(p) {
            let k = choose|k: int| 0 <= k < both.len() && both[k] == p;
            if k < a.len() {
                assert(a[k] == p);
            } else {
                assert(b[k - a.len()] == p);
            }
        }
        if 0 <= p < e.len() {
            let w = e[p].world;
            if t.contains(w) {
                let k = choose|k: int| 0 <= k < t.len() && t[k] == w;
                assert(worlds[k] == w);
            }
            assert(worlds[worlds.len() - 1] == last);
            if worlds.contains(w) {
                let k = choose|k: int| 0 <= k < worlds.len() && worlds[k] == w;
                if k < t.len() {
                    assert(t[k] == w);
                }
            }
        }
    }
}

} // verus!
