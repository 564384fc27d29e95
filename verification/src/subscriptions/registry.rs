//! Subscribers by number: who is registered, who is sent an update, and who is dropped.
use vstd::prelude::*;
use vstd::string::*;
use crate::ledger::{
    cells, count_cells, get_cell, list_cells, new_cells, put_cell, remove_cell, Cell, CellKey,
};

verus! {

/// What a subscriber wants, under the number of its slot.
#[derive(Debug)]
pub struct Slot<F> {
    pub number: u64,
    pub filter: F,
}

/// The subscribers of one kind.
pub struct Subscribers<F> {
    /// The slot of every subscriber, by the number of the subscriber.
    pub index: dashmap::DashMap<CellKey, Cell>,
    pub slots: Vec<Slot<F>>,
    /// The number of the next slot.
    pub next: u64,
}

/// The key of a number.
pub open spec fn id_key(id: u64) -> CellKey {
    (id as u128, 0, 0, 0, false, 0, 0)
}

/// The key of a number.
fn key_of_id(id: u64) -> (r: CellKey)
    ensures
        r == id_key(id),
{
    (id as u128, 0, 0, 0, false, 0, 0)
}

/// The subscribers that are not among the numbers.
pub open spec fn without_ids<F>(m: Map<u64, F>, gone: Seq<u64>) -> Map<u64, F> {
    Map::new(|id: u64| m.dom().contains(id) && !gone.contains(id), |id: u64| m[id])
}

/// How an update was received.
#[derive(Clone, Copy, Debug, PartialEq, Eq, Structural)]
pub enum SendOutcome {
    Sent,
    /// The subscriber is slow and its buffer is full.
    Full,
    /// The subscriber has gone.
    Closed,
}

/// How many subscribers were dropped, and why.
#[derive(Clone, Copy, Debug, PartialEq, Eq, Structural)]
pub struct Dropped {
    pub full: usize,
    pub closed: usize,
}

/// The numbers whose update did not arrive.
pub open spec fn undelivered(ids: Seq<u64>, outcomes: Seq<SendOutcome>) -> Seq<u64>
    decreases ids.len(),
{
    if ids.len() == 0 {
        Seq::empty()
    } else {
        let n = ids.len() - 1;
        let before = undelivered(ids.drop_last(), outcomes);
        if n < outcomes.len() && outcomes[n] != SendOutcome::Sent {
            before.push(ids[n])
        } else {
            before
        }
    }
}

/// How often an outcome came.
pub open spec fn times(outcomes: Seq<SendOutcome>, o: SendOutcome) -> int
    decreases outcomes.len(),
{
    if outcomes.len() == 0 {
        0
    } else {
        times(outcomes.drop_last(), o) + (if outcomes.last() == o {
            1int
        } else {
            0int
        })
    }
}

/// The place of a slot.
pub open spec fn slot_at<F>(l: Seq<Slot<F>>, number: u64) -> int {
    choose|i: int| 0 <= i < l.len() && (#[trigger] l[i]).number == number
}

/// Whether there is a slot of that number.
pub open spec fn has_slot<F>(l: Seq<Slot<F>>, number: u64) -> bool {
    exists|i: int| 0 <= i < l.len() && (#[trigger] l[i]).number == number
}

/// No two slots share a number.
pub open spec fn slots_distinct<F>(l: Seq<Slot<F>>) -> bool {
    forall|i: int, j: int|
        0 <= i < j < l.len() ==> (#[trigger] l[i]).number != (#[trigger] l[j]).number
}

/// A slot is at the place of its number.
proof fn slot_found<F>(l: Seq<Slot<F>>, i: int)
    requires
        slots_distinct(l),
        0 <= i < l.len(),
    ensures
        has_slot(l, l[i].number),
        slot_at(l, l[i].number) == i,
{
    let n = l[i].number;
    assert(l[i].number == n);
    let j = slot_at(l, n);
    assert(0 <= j < l.len() && l[j].number == n);
    if i < j {
        assert(l[i].number != l[j].number);
    } else if j < i {
        assert(l[j].number != l[i].number);
    }
}

impl<F> Subscribers<F> {
    /// Whether a number is registered.
    pub open spec fn registered(self, id: u64) -> bool {
        cells(self.index).dom().contains(id_key(id))
    }

    /// The slot of a number.
    pub open spec fn slot_of(self, id: u64) -> u64 {
        cells(self.index)[id_key(id)].0 as u64
    }

    /// What the subscribers want, by their numbers.
    pub open spec fn filters(self) -> Map<u64, F> {
        Map::new(
            |id: u64| self.registered(id),
            |id: u64| self.slots@[slot_at(self.slots@, self.slot_of(id))].filter,
        )
    }

    /// Every number that is registered has a slot of its own.
    pub open spec fn wf(self) -> bool {
        &&& cells(self.index).dom().finite()
        &&& forall|k: CellKey| #[trigger]
            cells(self.index).dom().contains(k) ==> k == id_key(k.0 as u64)
        &&& forall|id: u64| #[trigger]
            self.registered(id) ==> has_slot(self.slots@, self.slot_of(id)) && cells(
                self.index,
            )[id_key(id)].0 == self.slot_of(id)
        &&& forall|a: u64, b: u64|
            #![trigger self.registered(a), self.registered(b)]
            self.registered(a) && self.registered(b) && a != b ==> self.slot_of(a) != self.slot_of(b)
        &&& slots_distinct(self.slots@)
        &&& forall|i: int| 0 <= i < self.slots@.len() ==> (#[trigger] self.slots@[i]).number < self.next
        &&& self.slots@.len() == cells(self.index).dom().len()
    }

    /// There are as many keys as numbers.
    pub proof fn keys_are_numbers(self)
        requires
            self.wf(),
        ensures
            self.filters().dom().finite(),
            self.filters().dom().len() == cells(self.index).dom().len(),
    {
        let x = cells(self.index).dom();
        let y = self.filters().dom();
        let f = |k: CellKey| k.0 as u64;
        assert(x.map(f) =~= y) by {
            assert forall|id: u64| y.contains(id) implies x.map(f).contains(id) by {
                assert(x.contains(id_key(id)) && f(id_key(id)) == id);
            }
            assert forall|id: u64| x.map(f).contains(id) implies y.contains(id) by {
                let k = choose|k: CellKey| x.contains(k) && f(k) == id;
                assert(k == id_key(id));
            }
        }
        assert(vstd::relations::injective_on(f, x)) by {
            assert forall|a: CellKey, b: CellKey|
                x.contains(a) && x.contains(b) && #[trigger] f(a) == #[trigger] f(b) implies a == b by {
                assert(a == id_key(a.0 as u64));
                assert(b == id_key(b.0 as u64));
            }
        }
        vstd::set_lib::lemma_map_size(x, y, f);
    }

    /// No subscribers.
    pub fn new() -> (r: Subscribers<F>)
        ensures
            r.wf(),
            r.filters() == Map::<u64, F>::empty(),
            r.next == 0,
    {
        let r = Subscribers { index: new_cells(), slots: Vec::new(), next: 0 };
        proof {
            assert(cells(r.index).dom() =~= Set::empty());
            assert(r.filters() =~= Map::<u64, F>::empty());
        }
        r
    }

    /// The number of subscribers.
    pub fn len(&self) -> (r: usize)
        requires
            self.wf(),
        ensures
            r == self.filters().dom().len(),
    {
        proof {
            self.keys_are_numbers();
        }
        count_cells(&self.index)
    }

    /// Whether a number is registered.
    pub fn contains(&self, id: u64) -> (r: bool)
        ensures
            r == self.filters().dom().contains(id),
    {
        get_cell(&self.index, key_of_id(id)).is_some()
    }

    /// Index of the slot of a number, if the number is registered.
    fn find(&self, id: u64) -> (r: Option<usize>)
        requires
            self.wf(),
        ensures
            match r {
                Some(i) => self.registered(id) && i < self.slots@.len() && slot_at(
                    self.slots@,
                    self.slot_of(id),
                ) == i && self.slots@[i as int].number == self.slot_of(id),
                None => !self.registered(id),
            },
    {
        match get_cell(&self.index, key_of_id(id)) {
            None => None,
            Some(c) => {
                let number: u64 = c.0 as u64;
                let mut i: usize = 0;
                proof {
                    assert(self.registered(id));
                }
                while i < self.slots.len()
                    invariant
                        self.wf(),
                        self.registered(id),
                        number == self.slot_of(id),
                        i <= self.slots@.len(),
                        forall|k: int| 0 <= k < i ==> (#[trigger] self.slots@[k]).number != number,
                    decreases self.slots@.len() - i,
                {
                    if self.slots[i].number == number {
                        proof {
                            slot_found(self.slots@, i as int);
                        }
                        return Some(i);
                    }
                    i = i + 1;
                }
                proof {
                    assert(has_slot(self.slots@, number));
                    assert(false);
                }
                None
            },
        }
    }

    /// What a registered subscriber wants.
    pub fn filter_of(&self, id: u64) -> (r: Option<&F>)
        requires
            self.wf(),
        ensures
            match r {
                Some(f) => self.filters().dom().contains(id) && *f == self.filters()[id],
                None => !self.filters().dom().contains(id),
            },
    {
        match self.find(id) {
            Some(i) => Some(&self.slots[i].filter),
            None => None,
        }
    }

    /// The numbers of the subscribers, each once, in no stated order.
    pub fn ids(&self) -> (r: Vec<u64>)
        requires
            self.wf(),
        ensures
            r@.no_duplicates(),
            forall|id: u64| #[trigger] r@.contains(id) <==> self.filters().dom().contains(id),
    {
        let listed = list_cells(&self.index);
        let mut out: Vec<u64> = Vec::new();
        let mut i: usize = 0;
        while i < listed.len()
            invariant
                i <= listed@.len(),
                out@.len() == i,
                forall|k: int| 0 <= k < i ==> #[trigger] out@[k] == (listed@[k].0).0 as u64,
            decreases listed@.len() - i,
        {
            let entry = listed[i];
            let key: CellKey = entry.0;
            out.push(key.0 as u64);
            i = i + 1;
        }
        proof {
            assert forall|k: int| 0 <= k < listed@.len() implies (#[trigger] listed@[k]).0 == id_key(
                out@[k],
            ) by {
                assert(cells(self.index).dom().contains(listed@[k].0));
            }
            assert forall|a: int, b: int| 0 <= a < b < out@.len() implies out@[a] != out@[b] by {
                assert(listed@[a].0 != listed@[b].0);
            }
            assert forall|id: u64| #[trigger] out@.contains(id) <==> self.filters().dom().contains(
                id,
            ) by {
                if out@.contains(id) {
                    let k = choose|k: int| 0 <= k < out@.len() && out@[k] == id;
                    assert(listed@[k].0 == id_key(id));
                    assert(cells(self.index).dom().contains(listed@[k].0));
                }
                if self.filters().dom().contains(id) {
                    assert(cells(self.index).dom().contains(id_key(id)));
                    let k = choose|k: int|
                        0 <= k < listed@.len() && (#[trigger] listed@[k]).0 == id_key(id);
                    assert(out@[k] == id);
                }
            }
        }
        out
    }

    /// Changes what the subscriber of a slot wants.
    fn set_filter(&mut self, i: usize, Ghost(id): Ghost<u64>, filter: F)
        requires
            old(self).wf(),
            old(self).registered(id),
            i < old(self).slots@.len(),
            slot_at(old(self).slots@, old(self).slot_of(id)) == i,
            old(self).slots@[i as int].number == old(self).slot_of(id),
        ensures
            final(self).wf(),
            final(self).next == old(self).next,
            final(self).filters() == old(self).filters().insert(id, filter),
    {
        let ghost before = *self;
        self.slots[i].filter = filter;
        proof {
            let a = before.slots@;
            let b = self.slots@;
            assert forall|k: int| 0 <= k < b.len() implies (#[trigger] b[k]).number == a[k].number by {}
            assert forall|k: int, j: int| 0 <= k < j < b.len() implies (#[trigger] b[k]).number != (
            #[trigger] b[j]).number by {
                assert(a[k].number != a[j].number);
            }
            assert forall|x: u64| #[trigger] self.registered(x) implies has_slot(
                b,
                self.slot_of(x),
            ) && cells(self.index)[id_key(x)].0 == self.slot_of(x) && slot_at(
                b,
                self.slot_of(x),
            ) == slot_at(a, before.slot_of(x)) by {
                assert(before.registered(x));
                let k = slot_at(a, before.slot_of(x));
                assert(0 <= k < a.len() && a[k].number == before.slot_of(x));
                assert(b[k].number == self.slot_of(x));
                slot_found(b, k);
            }
            assert forall|x: u64, y: u64|
                #![trigger self.registered(x), self.registered(y)]
                self.registered(x) && self.registered(y) && x != y implies self.slot_of(x)
                != self.slot_of(y) by {
                assert(before.registered(x) && before.registered(y));
            }
            assert forall|k: int| 0 <= k < b.len() implies (#[trigger] b[k]).number < self.next by {
                assert(a[k].number < before.next);
            }
            assert forall|x: u64| self.registered(x) implies #[trigger] self.filters()[x]
                == before.filters().insert(id, filter)[x] by {
                assert(before.registered(x));
                let k = slot_at(a, before.slot_of(x));
                assert(0 <= k < a.len() && a[k].number == before.slot_of(x));
                if x != id {
                    assert(before.slot_of(x) != before.slot_of(id));
                    assert(k != i);
                    assert(b[k] == a[k]);
                }
            }
            assert(self.filters() =~= before.filters().insert(id, filter));
        }
    }

    /// Registers a subscriber under a number, in the place of the one of that number, if there is
    /// one.
    pub fn add(&mut self, id: u64, filter: F)
        requires
            old(self).wf(),
            old(self).next < u64::MAX,
        ensures
            final(self).wf(),
            final(self).filters() == old(self).filters().insert(id, filter),
            old(self).next <= final(self).next <= old(self).next + 1,
    {
        match self.find(id) {
            Some(i) => {
                self.set_filter(i, Ghost(id), filter);
            },
            None => {
                let ghost before = *self;
                let number: u64 = self.next;
                put_cell(&mut self.index, key_of_id(id), (number as u128, 0, 0));
                self.slots.push(Slot { number, filter });
                self.next = number + 1;
                proof {
                    let a = before.slots@;
                    let b = self.slots@;
                    let ghost k0 = id_key(id);
                    assert(cells(self.index).dom() =~= cells(before.index).dom().insert(k0));
                    assert forall|k: int, j: int| 0 <= k < j < b.len() implies (
                    #[trigger] b[k]).number != (#[trigger] b[j]).number by {
                        assert(b[k] == a[k]);
                        assert(a[k].number < before.next);
                        if j < a.len() {
                            assert(b[j] == a[j]);
                        }
                    }
                    assert forall|k: int| 0 <= k < b.len() implies (#[trigger] b[k]).number
                        < self.next by {
                        if k < a.len() {
                            assert(b[k] == a[k]);
                        }
                    }
                    assert forall|x: u64| x != id implies (#[trigger] self.registered(x)
                        == before.registered(x)) && (self.registered(x) ==> self.slot_of(x)
                        == before.slot_of(x)) by {
                        assert(id_key(x) != id_key(id));
                    }
                    assert(self.slot_of(id) == number);
                    assert forall|x: u64| #[trigger] self.registered(x) implies has_slot(
                        b,
                        self.slot_of(x),
                    ) && cells(self.index)[id_key(x)].0 == self.slot_of(x) && (x != id ==> slot_at(
                        b,
                        self.slot_of(x),
                    ) == slot_at(a, before.slot_of(x)) && self.slot_of(x) < number) && (x == id
                        ==> slot_at(b, self.slot_of(x)) == a.len()) by {
                        if x == id {
                            assert(b[a.len() as int].number == number);
                            slot_found(b, a.len() as int);
                        } else {
                            assert(before.registered(x));
                            let k = slot_at(a, before.slot_of(x));
                            assert(0 <= k < a.len() && a[k].number == before.slot_of(x));
                            assert(b[k] == a[k]);
                            slot_found(b, k);
                            assert(id_key(x) != id_key(id));
                        }
                    }
                    assert forall|x: u64, y: u64|
                        #![trigger self.registered(x), self.registered(y)]
                        self.registered(x) && self.registered(y) && x != y implies self.slot_of(x)
                        != self.slot_of(y) by {
                        if x != id && y != id {
                            assert(before.registered(x) && before.registered(y));
                        }
                    }
                    assert forall|k: CellKey| #[trigger] cells(self.index).dom().contains(
                        k,
                    ) implies k == id_key(k.0 as u64) by {
                        if k != k0 {
                            assert(cells(before.index).dom().contains(k));
                        }
                    }
                    assert(self.filters().dom() =~= before.filters().insert(id, filter).dom());
                    assert forall|x: u64| self.registered(x) implies #[trigger] self.filters()[x]
                        == before.filters().insert(id, filter)[x] by {
                        if x != id {
                            assert(before.registered(x));
                            let k = slot_at(a, before.slot_of(x));
                            assert(0 <= k < a.len() && a[k].number == before.slot_of(x));
                            assert(b[k] == a[k]);
                        }
                    }
                    assert(self.filters() =~= before.filters().insert(id, filter));
                }
            },
        }
    }

    /// Changes what a subscriber wants; nothing where the number is not registered.
    pub fn update(&mut self, id: u64, filter: F)
        requires
            old(self).wf(),
        ensures
            final(self).wf(),
            final(self).next == old(self).next,
            final(self).filters() == (if old(self).filters().dom().contains(id) {
                old(self).filters().insert(id, filter)
            } else {
                old(self).filters()
            }),
    {
        match self.find(id) {
            Some(i) => {
                self.set_filter(i, Ghost(id), filter);
            },
            None => {},
        }
    }

    /// Takes a subscriber out; nothing where the number is not registered.
    pub fn remove(&mut self, id: u64)
        requires
            old(self).wf(),
        ensures
            final(self).wf(),
            final(self).next == old(self).next,
            final(self).filters() == old(self).filters().remove(id),
    {
        let ghost before = *self;
        match self.find(id) {
            None => {
                proof {
                    assert(self.filters() =~= before.filters().remove(id));
                }
            },
            Some(i) => {
                remove_cell(&mut self.index, key_of_id(id));
                let _gone = self.slots.remove(i);
                proof {
                    let a = before.slots@;
                    let b = self.slots@;
                    let k0 = id_key(id);
                    assert(b =~= a.remove(i as int));
                    assert(cells(self.index).dom() =~= cells(before.index).dom().remove(k0));
                    assert forall|k: int, j: int| 0 <= k < j < b.len() implies (
                    #[trigger] b[k]).number != (#[trigger] b[j]).number by {
                        let k1 = if k < i {
                            k
                        } else {
                            k + 1
                        };
                        let j1 = if j < i {
                            j
                        } else {
                            j + 1
                        };
                        assert(a[k1].number != a[j1].number);
                    }
                    assert forall|k: int| 0 <= k < b.len() implies (#[trigger] b[k]).number
                        < self.next by {
                        let k1 = if k < i {
                            k
                        } else {
                            k + 1
                        };
                        assert(a[k1].number < before.next);
                    }
                    assert forall|x: u64| #[trigger] self.registered(x) implies x != id
                        && before.registered(x) && self.slot_of(x) == before.slot_of(x) && has_slot(
                        b,
                        self.slot_of(x),
                    ) && cells(self.index)[id_key(x)].0 == self.slot_of(x) && b[slot_at(
                        b,
                        self.slot_of(x),
                    )] == a[slot_at(a, before.slot_of(x))] by {
                        assert(id_key(x) != k0);
                        assert(before.registered(x));
                        assert(before.registered(id));
                        let k = slot_at(a, before.slot_of(x));
                        assert(0 <= k < a.len() && a[k].number == before.slot_of(x));
                        assert(before.slot_of(x) != before.slot_of(id));
                        assert(k != i);
                        let k1 = if k < i {
                            k
                        } else {
                            k - 1
                        };
                        assert(b[k1] == a[k]);
                        slot_found(b, k1);
                    }
                    assert forall|x: u64| x != id && before.registered(
                        x,
                    ) implies #[trigger] self.registered(x) by {
                        assert(id_key(x) != k0);
                    }
                    assert forall|x: u64, y: u64|
                        #![trigger self.registered(x), self.registered(y)]
                        self.registered(x) && self.registered(y) && x != y implies self.slot_of(x)
                        != self.slot_of(y) by {
                        assert(before.registered(x) && before.registered(y));
                    }
                    assert forall|k: CellKey| #[trigger] cells(self.index).dom().contains(
                        k,
                    ) implies k == id_key(k.0 as u64) by {
                        assert(cells(before.index).dom().contains(k));
                    }
                    assert(self.filters() =~= before.filters().remove(id));
                }
            },
        }
    }

    /// Takes subscribers out.
    pub fn remove_all(&mut self, gone: &Vec<u64>)
        requires
            old(self).wf(),
        ensures
            final(self).wf(),
            final(self).next == old(self).next,
            final(self).filters() == without_ids(old(self).filters(), gone@),
    {
        let ghost start = self.filters();
        let mut i: usize = 0;
        proof {
            assert(without_ids(start, gone@.take(0)) =~= start);
        }
        while i < gone.len()
            invariant
                i <= gone@.len(),
                self.wf(),
                self.next == old(self).next,
                self.filters() == without_ids(start, gone@.take(i as int)),
            decreases gone@.len() - i,
        {
            self.remove(gone[i]);
            proof {
                let a = gone@.take(i as int);
                let b = gone@.take(i + 1);
                assert(b =~= a.push(gone@[i as int]));
                assert forall|id: u64| b.contains(id) <==> a.contains(id) || id == gone@[i as int] by {
                    if a.contains(id) {
                        let k = choose|k: int| 0 <= k < a.len() && a[k] == id;
                        assert(b[k] == id);
                    }
                    if id == gone@[i as int] {
                        assert(b[i as int] == id);
                    }
                }
                assert(without_ids(start, a).remove(gone@[i as int]) =~= without_ids(start, b));
            }
            i = i + 1;
        }
        proof {
            assert(gone@.take(i as int) =~= gone@);
        }
    }

    /// Takes the subscribers out whose number is among those closed, and tells how many they were.
    pub fn prune_closed(&mut self, closed: &Vec<u64>) -> (r: usize)
        requires
            old(self).wf(),
        ensures
            final(self).wf(),
            final(self).next == old(self).next,
            final(self).filters() == without_ids(old(self).filters(), closed@),
            r == old(self).filters().dom().len() - final(self).filters().dom().len(),
    {
        let ghost start = self.filters();
        proof {
            self.keys_are_numbers();
        }
        let before: usize = self.len();
        self.remove_all(closed);
        let after: usize = self.len();
        proof {
            assert(without_ids(start, closed@).dom().subset_of(start.dom()));
            vstd::set_lib::lemma_len_subset(without_ids(start, closed@).dom(), start.dom());
        }
        before - after
    }

    /// Takes the subscribers out whose update did not arrive, and tells how many were slow and how
    /// many had gone. `outcomes` tells for each number how its update was received.
    pub fn settle(&mut self, ids: &Vec<u64>, outcomes: &Vec<SendOutcome>) -> (r: Dropped)
        requires
            old(self).wf(),
            ids@.len() == outcomes@.len(),
        ensures
            final(self).wf(),
            final(self).next == old(self).next,
            final(self).filters() == without_ids(
                old(self).filters(),
                undelivered(ids@, outcomes@),
            ),
            r.full == times(outcomes@, SendOutcome::Full),
            r.closed == times(outcomes@, SendOutcome::Closed),
    {
        let mut gone: Vec<u64> = Vec::new();
        let mut full: usize = 0;
        let mut closed: usize = 0;
        let mut i: usize = 0;
        proof {
            assert(ids@.take(0) =~= Seq::<u64>::empty());
            assert(outcomes@.take(0) =~= Seq::<SendOutcome>::empty());
        }
        while i < ids.len()
            invariant
                i <= ids@.len(),
                ids@.len() == outcomes@.len(),
                self == old(self),
                gone@ == undelivered(ids@.take(i as int), outcomes@),
                full == times(outcomes@.take(i as int), SendOutcome::Full),
                closed == times(outcomes@.take(i as int), SendOutcome::Closed),
                full <= i,
                closed <= i,
            decreases ids@.len() - i,
        {
            proof {
                assert(ids@.take(i + 1).drop_last() =~= ids@.take(i as int));
                assert(outcomes@.take(i + 1).drop_last() =~= outcomes@.take(i as int));
            }
            match outcomes[i] {
                SendOutcome::Sent => {},
                SendOutcome::Full => {
                    full = full + 1;
                    gone.push(ids[i]);
                },
                SendOutcome::Closed => {
                    closed = closed + 1;
                    gone.push(ids[i]);
                },
            }
            i = i + 1;
        }
        proof {
            assert(ids@.take(i as int) =~= ids@);
            assert(outcomes@.take(i as int) =~= outcomes@);
        }
        self.remove_all(&gone);
        Dropped { full, closed }
    }
}

/// A subscriber stays, with what it wants, exactly when it is not among the numbers taken out.
pub proof fn only_those_taken_out_go<F>(m: Map<u64, F>, gone: Seq<u64>, id: u64)
    ensures
        without_ids(m, gone).dom().contains(id) <==> m.dom().contains(id) && !gone.contains(id),
        without_ids(m, gone).dom().contains(id) ==> without_ids(m, gone)[id] == m[id],
{
}

} // verus!
