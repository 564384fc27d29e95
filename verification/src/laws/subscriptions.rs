//! Whom an update reaches, and who stays subscribed.
use vstd::prelude::*;
use vstd::string::*;
use crate::broker::{hears, Audience};
use crate::felt::Felt;
use crate::sql::queries::TransactionFilter;
use crate::subscriptions::managers::{
    aggregation_wanted, closed_total, progression_wanted, swept, total, transaction_wanted,
    AchievementProgression, AchievementProgressionFilter, AggregationEntry, AggregationFilter,
    CallUpdate, TransactionUpdate,
};
use crate::subscriptions::registry::{times, undelivered, without_ids, SendOutcome};
use crate::text::{has_substring, views};

verus! {

/// Whether a list restricts to something other than the element: it holds elements, and not this
/// one.
pub open spec fn bars_felt(list: Seq<Felt>, f: Felt) -> bool {
    list.len() > 0 && forall|i: int| 0 <= i < list.len() ==> #[trigger] list[i] != f
}

/// Whether a list restricts to something other than the text.
pub open spec fn bars_text(list: Seq<String>, s: Seq<char>) -> bool {
    list.len() > 0 && forall|i: int| 0 <= i < list.len() ==> (#[trigger] list[i])@ != s
}

/// What the views of texts contain.
proof fn views_contain(list: Seq<String>, s: Seq<char>)
    ensures
        views(list).contains(s) <==> exists|i: int| 0 <= i < list.len() && (#[trigger] list[i])@ == s,
{
    if views(list).contains(s) {
        let i = choose|i: int| 0 <= i < views(list).len() && views(list)[i] == s;
        assert(list[i]@ == s);
    }
    if exists|i: int| 0 <= i < list.len() && (#[trigger] list[i])@ == s {
        let i = choose|i: int| 0 <= i < list.len() && (#[trigger] list[i])@ == s;
        assert(views(list)[i] == s);
    }
}

/// A progression reaches a subscriber unless one of the lists bars its world, namespace or player, or
/// lists achievements of which none is part of its identifier.
pub proof fn progressions_reach_unless_barred(
    f: AchievementProgressionFilter,
    p: AchievementProgression,
)
    ensures
        progression_wanted(f, p) <==> !bars_felt(f.world_addresses@, p.world_address) && !bars_text(
            f.namespaces@,
            p.namespace@,
        ) && !bars_felt(f.player_addresses@, p.player_id) && !(f.achievement_ids@.len() > 0 && forall|
            i: int,
        |
            0 <= i < f.achievement_ids@.len() ==> !has_substring(
                p.id@,
                (#[trigger] f.achievement_ids@[i])@,
            )),
{
    views_contain(f.namespaces@, p.namespace@);
    let w = f.world_addresses@;
    let l = f.player_addresses@;
    assert(w.contains(p.world_address) <==> exists|i: int|
        0 <= i < w.len() && #[trigger] w[i] == p.world_address);
    assert(l.contains(p.player_id) <==> exists|i: int|
        0 <= i < l.len() && #[trigger] l[i] == p.player_id);
}

/// An aggregation reaches a subscriber unless one of the lists bars its aggregator or its entity.
pub proof fn aggregations_reach_unless_barred(f: AggregationFilter, e: AggregationEntry)
    ensures
        aggregation_wanted(f, e) <==> !bars_text(f.aggregator_ids@, e.aggregator_id@) && !bars_text(
            f.entity_ids@,
            e.entity_id@,
        ),
{
    views_contain(f.aggregator_ids@, e.aggregator_id@);
    views_contain(f.entity_ids@, e.entity_id@);
}

/// Whether every call of a transaction is barred by a list of contracts.
pub open spec fn bars_contracts(list: Seq<Felt>, calls: Seq<CallUpdate>) -> bool {
    list.len() > 0 && forall|i: int|
        0 <= i < calls.len() ==> bars_felt(list, (#[trigger] calls[i]).contract_address)
}

/// Whether every call of a transaction is barred by a list of callers.
pub open spec fn bars_callers(list: Seq<Felt>, calls: Seq<CallUpdate>) -> bool {
    list.len() > 0 && forall|i: int|
        0 <= i < calls.len() ==> bars_felt(list, (#[trigger] calls[i]).caller_address)
}

/// Whether every call of a transaction is barred by a list of entry points.
pub open spec fn bars_entrypoints(list: Seq<String>, calls: Seq<CallUpdate>) -> bool {
    list.len() > 0 && forall|i: int|
        0 <= i < calls.len() ==> bars_text(list, (#[trigger] calls[i]).entrypoint@)
}

/// Whether every model of a transaction is barred by a list of models.
pub open spec fn bars_models(list: Seq<Felt>, models: Seq<Felt>) -> bool {
    list.len() > 0 && forall|i: int| 0 <= i < models.len() ==> bars_felt(list, #[trigger] models[i])
}

/// A transaction reaches a subscriber without a filter. It reaches one with a filter unless its hash
/// is barred, all its calls are by their callers, contracts or entry points, all its models are, or
/// its block lies before the first or after the last that are asked for.
pub proof fn transactions_reach_unless_barred(f: TransactionFilter, t: TransactionUpdate)
    ensures
        transaction_wanted(None, t),
        transaction_wanted(Some(f), t) <==> !bars_felt(f.transaction_hashes@, t.transaction_hash)
            && !bars_callers(f.caller_addresses@, t.calls@) && !bars_contracts(
            f.contract_addresses@,
            t.calls@,
        ) && !bars_entrypoints(f.entrypoints@, t.calls@) && !bars_models(
            f.model_selectors@,
            t.unique_models@,
        ) && !(f.from_block matches Some(b) && t.block_number < b) && !(f.to_block matches Some(b)
            && t.block_number > b),
{
    let h = f.transaction_hashes@;
    assert(h.contains(t.transaction_hash) <==> exists|i: int|
        0 <= i < h.len() && #[trigger] h[i] == t.transaction_hash);
    assert forall|i: int| 0 <= i < t.calls@.len() implies (f.caller_addresses@.len() == 0 || (
    f.caller_addresses@.contains((#[trigger] t.calls@[i]).caller_address) <==> !bars_felt(
        f.caller_addresses@,
        t.calls@[i].caller_address,
    ))) by {}
    assert forall|i: int| 0 <= i < t.calls@.len() implies (f.contract_addresses@.len() == 0 || (
    f.contract_addresses@.contains((#[trigger] t.calls@[i]).contract_address) <==> !bars_felt(
        f.contract_addresses@,
        t.calls@[i].contract_address,
    ))) by {}
    assert forall|i: int| 0 <= i < t.calls@.len() implies (f.entrypoints@.len() == 0 || (views(
        f.entrypoints@,
    ).contains((#[trigger] t.calls@[i]).entrypoint@) <==> !bars_text(
        f.entrypoints@,
        t.calls@[i].entrypoint@,
    ))) by {
        views_contain(f.entrypoints@, t.calls@[i].entrypoint@);
    }
    assert forall|i: int| 0 <= i < t.unique_models@.len() implies (f.model_selectors@.len() == 0 || (
    f.model_selectors@.contains(#[trigger] t.unique_models@[i]) <==> !bars_felt(
        f.model_selectors@,
        t.unique_models@[i],
    ))) by {}
}

/// A number is among those that an update did not reach exactly where one of its sends did not go
/// through.
proof fn undelivered_is_what_failed(ids: Seq<u64>, outcomes: Seq<SendOutcome>, id: u64)
    requires
        ids.len() <= outcomes.len(),
    ensures
        undelivered(ids, outcomes).contains(id) <==> exists|i: int|
            0 <= i < ids.len() && #[trigger] ids[i] == id && outcomes[i] != SendOutcome::Sent,
    decreases ids.len(),
{
    if ids.len() > 0 {
        let n = ids.len() - 1;
        let t = ids.drop_last();
        undelivered_is_what_failed(t, outcomes, id);
        let before = undelivered(t, outcomes);
        let after = undelivered(ids, outcomes);
        if after.contains(id) {
            let k = choose|k: int| 0 <= k < after.len() && after[k] == id;
            if k < before.len() {
                assert(before[k] == id);
                let i = choose|i: int|
                    0 <= i < t.len() && #[trigger] t[i] == id && outcomes[i] != SendOutcome::Sent;
                assert(ids[i] == id);
            } else {
                assert(ids[n] == id);
            }
        }
        if exists|i: int|
            0 <= i < ids.len() && #[trigger] ids[i] == id && outcomes[i] != SendOutcome::Sent {
            let i = choose|i: int|
                0 <= i < ids.len() && #[trigger] ids[i] == id && outcomes[i] != SendOutcome::Sent;
            if i < n {
                assert(t[i] == id);
                let k = choose|k: int| 0 <= k < before.len() && before[k] == id;
                assert(after[k] == id);
            } else {
                assert(after[before.len() as int] == id);
            }
        }
    }
}

/// After an update, the subscribers stay whose sends all went through, with what they asked for, and
/// so do those that were not sent to; the others are dropped.
pub proof fn reached_subscribers_stay<F>(
    filters: Map<u64, F>,
    ids: Seq<u64>,
    outcomes: Seq<SendOutcome>,
    id: u64,
)
    requires
        ids.len() == outcomes.len(),
    ensures
        ({
            let after = without_ids(filters, undelivered(ids, outcomes));
            &&& after.dom().contains(id) <==> filters.dom().contains(id) && forall|i: int|
                0 <= i < ids.len() && #[trigger] ids[i] == id ==> outcomes[i] == SendOutcome::Sent
            &&& after.dom().contains(id) ==> after[id] == filters[id]
        }),
{
    undelivered_is_what_failed(ids, outcomes, id);
}

/// Every send goes through, finds a full buffer or finds the subscriber gone, and is counted once.
pub proof fn sends_are_counted_once(outcomes: Seq<SendOutcome>)
    ensures
        times(outcomes, SendOutcome::Sent) + times(outcomes, SendOutcome::Full) + times(
            outcomes,
            SendOutcome::Closed,
        ) == outcomes.len(),
        times(outcomes, SendOutcome::Full) == outcomes.to_multiset().count(SendOutcome::Full),
        times(outcomes, SendOutcome::Closed) == outcomes.to_multiset().count(SendOutcome::Closed),
    decreases outcomes.len(),
{
    broadcast use vstd::seq_lib::group_to_multiset_ensures;

    if outcomes.len() > 0 {
        let t = outcomes.drop_last();
        sends_are_counted_once(t);
        assert(outcomes =~= t.push(outcomes.last()));
    }
}

/// A sweep prunes as many subscribers as are fewer after it.
pub proof fn pruned_are_gone(numbers: Seq<Set<u64>>, closed: Seq<Seq<u64>>)
    requires
        closed.len() == numbers.len(),
        forall|i: int| 0 <= i < numbers.len() ==> (#[trigger] numbers[i]).finite(),
    ensures
        closed_total(numbers, closed) == total(numbers) - total(swept(numbers, closed)),
{
    pruned_upto(numbers, closed);
}

/// A sweep of the first kinds prunes as many as are fewer after it.
proof fn pruned_upto(numbers: Seq<Set<u64>>, closed: Seq<Seq<u64>>)
    requires
        closed.len() >= numbers.len(),
        forall|i: int| 0 <= i < numbers.len() ==> (#[trigger] numbers[i]).finite(),
    ensures
        closed_total(numbers, closed) == total(numbers) - total(swept(numbers, closed)),
    decreases numbers.len(),
{
    let left = swept(numbers, closed);
    if numbers.len() > 0 {
        let n = numbers.len() - 1;
        let t = numbers.drop_last();
        assert forall|i: int| 0 <= i < t.len() implies (#[trigger] t[i]).finite() by {
            assert(numbers[i].finite());
        }
        pruned_upto(t, closed);
        assert(left.drop_last() =~= swept(t, closed));
        let a = numbers[n];
        let c = closed[n].to_set();
        let gone = a.intersect(c);
        let stays = a.difference(c);
        assert(gone + stays =~= a);
        assert(gone.disjoint(stays));
        vstd::set_lib::lemma_set_disjoint_lens(gone, stays);
    }
}

/// Those who listen for confirmed updates hear no optimistic one, those who listen for optimistic
/// updates no confirmed one, and the others hear all.
pub proof fn audiences_hear_their_updates(optimistic: bool)
    ensures
        hears(Audience::All, optimistic),
        hears(Audience::Confirmed, optimistic) <==> !optimistic,
        hears(Audience::Optimistic, optimistic) <==> optimistic,
{
}

} // verus!
