//! Updates within the program: who publishes, and who listens.
use vstd::prelude::*;

verus! {

/// Something that happened, before or after it was confirmed.
#[derive(Debug, PartialEq, Eq)]
pub struct Update<T> {
    pub inner: T,
    pub optimistic: bool,
}

impl<T> Update<T> {
    /// An update, and whether it was not yet confirmed.
    pub fn new(inner: T, optimistic: bool) -> (r: Update<T>)
        ensures
            r == (Update { inner, optimistic }),
    {
        Update { inner, optimistic }
    }

    /// Whether the update was not yet confirmed.
    pub fn is_optimistic(&self) -> (r: bool)
        ensures
            r == self.optimistic,
    {
        self.optimistic
    }

    /// What happened.
    pub fn into_inner(self) -> (r: T)
        ensures
            r == self.inner,
    {
        self.inner
    }
}

#[verifier::external_type_specification]
#[verifier::external_body]
#[verifier::reject_recursive_types(T)]
pub struct ExSlab<T>(slab::Slab<T>);

/// What a slab holds, by key.
pub uninterp spec fn slab_items(s: slab::Slab<u64>) -> Map<usize, u64>;

/// A slab that holds nothing.
pub open spec fn no_items() -> Map<usize, u64> {
    Map::empty()
}

/// `slab::Slab::new` makes a slab that holds nothing.
#[verifier::external_body]
fn slab_new() -> (r: slab::Slab<u64>)
    ensures
        slab_items(r) == no_items(),
{
    slab::Slab::new()
}

/// `slab::Slab::insert` puts a value under a key that was free, and gives the key.
#[verifier::external_body]
fn slab_insert(s: &mut slab::Slab<u64>, v: u64) -> (r: usize)
    ensures
        !slab_items(*old(s)).dom().contains(r),
        slab_items(*final(s)) == slab_items(*old(s)).insert(r, v),
{
    s.insert(v)
}

/// `slab::Slab::remove` takes out the value of a key that is not free, and gives it.
#[verifier::external_body]
fn slab_remove(s: &mut slab::Slab<u64>, k: usize) -> (r: u64)
    requires
        slab_items(*old(s)).dom().contains(k),
    ensures
        r == slab_items(*old(s))[k],
        slab_items(*final(s)) == slab_items(*old(s)).remove(k),
{
    s.remove(k)
}

/// `slab::Slab::get` gives the value of a key, if the key is not free.
#[verifier::external_body]
fn slab_get(s: &slab::Slab<u64>, k: usize) -> (r: Option<u64>)
    ensures
        r == (if slab_items(*s).dom().contains(k) {
            Some(slab_items(*s)[k])
        } else {
            None
        }),
{
    s.get(k).copied()
}

/// `slab::Slab::len` gives the number of values.
#[verifier::external_body]
fn slab_len(s: &slab::Slab<u64>) -> (r: usize)
    ensures
        r == slab_items(*s).dom().len(),
{
    s.len()
}

/// Which updates a listener gets.
#[derive(Clone, Copy, Debug, PartialEq, Eq, Structural)]
pub enum Audience {
    All,
    Confirmed,
    Optimistic,
}

/// Whether a listener gets the updates of that kind.
pub open spec fn hears(a: Audience, optimistic: bool) -> bool {
    match a {
        Audience::All => true,
        Audience::Confirmed => !optimistic,
        Audience::Optimistic => optimistic,
    }
}

/// Whether a listener gets the updates of that kind.
fn is_heard(a: Audience, optimistic: bool) -> (r: bool)
    ensures
        r == hears(a, optimistic),
{
    match a {
        Audience::All => true,
        Audience::Confirmed => !optimistic,
        Audience::Optimistic => optimistic,
    }
}

/// The channels of the listeners, by their keys.
pub struct Senders(pub slab::Slab<u64>);

/// A channel: its number, which updates its listener gets, and those not yet taken.
pub struct Channel<T> {
    pub number: u64,
    pub audience: Audience,
    pub queue: Vec<Update<T>>,
}

/// The listeners to updates of one type.
pub struct MemoryBroker<T> {
    pub senders: Senders,
    pub channels: Vec<Channel<T>>,
    /// The number of the next channel.
    pub next_channel: u64,
}

/// What a listener gets, and what it was sent and has not yet taken.
pub struct Stream<T> {
    pub audience: Audience,
    pub queue: Seq<Update<T>>,
}

/// The updates of a queue that the listener gets.
pub open spec fn heard<T>(q: Seq<Update<T>>, a: Audience) -> Seq<Update<T>>
    decreases q.len(),
{
    if q.len() == 0 {
        Seq::empty()
    } else if hears(a, q[0].optimistic) {
        seq![q[0]] + heard(q.skip(1), a)
    } else {
        heard(q.skip(1), a)
    }
}

/// What is left of a queue when the first update that the listener gets is taken.
pub open spec fn rest_of<T>(q: Seq<Update<T>>, a: Audience) -> Seq<Update<T>>
    decreases q.len(),
{
    if q.len() == 0 {
        Seq::empty()
    } else if hears(a, q[0].optimistic) {
        q.skip(1)
    } else {
        rest_of(q.skip(1), a)
    }
}

/// The first update of a queue that the listener gets.
pub open spec fn first_of<T>(q: Seq<Update<T>>, a: Audience) -> Option<Update<T>> {
    if heard(q, a).len() == 0 {
        None
    } else {
        Some(heard(q, a)[0])
    }
}

/// Whether the second update is a copy of the first.
pub open spec fn is_copy<T: Clone>(m: Update<T>, c: Update<T>) -> bool {
    cloned(m.inner, c.inner) && c.optimistic == m.optimistic
}

/// Whether the second updates are copies of the first, one for one.
pub open spec fn are_copies<T: Clone>(m: Seq<Update<T>>, c: Seq<Update<T>>) -> bool {
    m.len() == c.len() && forall|i: int| 0 <= i < m.len() ==> is_copy(m[i], #[trigger] c[i])
}

/// The place of a channel.
pub open spec fn channel_at<T>(l: Seq<Channel<T>>, number: u64) -> int {
    choose|i: int| 0 <= i < l.len() && (#[trigger] l[i]).number == number
}

/// Whether there is a channel of that number.
pub open spec fn has_channel<T>(l: Seq<Channel<T>>, number: u64) -> bool {
    exists|i: int| 0 <= i < l.len() && (#[trigger] l[i]).number == number
}

/// No two channels share a number.
pub open spec fn channels_distinct<T>(l: Seq<Channel<T>>) -> bool {
    forall|i: int, j: int|
        0 <= i < j < l.len() ==> (#[trigger] l[i]).number != (#[trigger] l[j]).number
}

/// A channel is at the place of its number.
proof fn channel_found<T>(l: Seq<Channel<T>>, i: int)
    requires
        channels_distinct(l),
        0 <= i < l.len(),
    ensures
        has_channel(l, l[i].number),
        channel_at(l, l[i].number) == i,
{
    let n = l[i].number;
    assert(l[i].number == n);
    let j = channel_at(l, n);
    assert(0 <= j < l.len() && l[j].number == n);
    if i < j {
        assert(l[i].number != l[j].number);
    } else if j < i {
        assert(l[j].number != l[i].number);
    }
}

impl<T: Clone> MemoryBroker<T> {
    /// The channels by the keys of their listeners.
    pub open spec fn items(self) -> Map<usize, u64> {
        slab_items(self.senders.0)
    }

    /// What the listeners get and were sent, by their keys.
    pub open spec fn streams(self) -> Map<usize, Stream<T>> {
        Map::new(
            |k: usize| self.items().dom().contains(k),
            |k: usize|
                {
                    let c = self.channels@[channel_at(self.channels@, self.items()[k])];
                    Stream { audience: c.audience, queue: c.queue@ }
                },
        )
    }

    /// Every listener has a channel of its own.
    pub open spec fn wf(self) -> bool {
        &&& self.items().dom().finite()
        &&& forall|k: usize| #[trigger]
            self.items().dom().contains(k) ==> has_channel(self.channels@, self.items()[k])
        &&& forall|a: usize, b: usize|
            #![trigger self.items()[a], self.items()[b]]
            self.items().dom().contains(a) && self.items().dom().contains(b) && a != b
                ==> self.items()[a] != self.items()[b]
        &&& channels_distinct(self.channels@)
        &&& forall|i: int|
            0 <= i < self.channels@.len() ==> (#[trigger] self.channels@[i]).number
                < self.next_channel
        &&& self.channels@.len() == self.items().dom().len()
    }

    /// The broker without listeners.
    pub fn new() -> (r: MemoryBroker<T>)
        ensures
            r.wf(),
            r.streams() == Map::<usize, Stream<T>>::empty(),
            r.next_channel == 0,
    {
        let r = MemoryBroker {
            senders: Senders(slab_new()),
            channels: Vec::new(),
            next_channel: 0,
        };
        proof {
            assert(r.items().dom() =~= Set::empty());
            assert(r.streams() =~= Map::<usize, Stream<T>>::empty());
        }
        r
    }

    /// Adds a listener.
    fn listen(&mut self, audience: Audience) -> (r: usize)
        requires
            old(self).wf(),
            old(self).next_channel < u64::MAX,
        ensures
            final(self).wf(),
            !old(self).streams().dom().contains(r),
            final(self).streams() == old(self).streams().insert(
                r,
                Stream { audience, queue: Seq::empty() },
            ),
            final(self).next_channel == old(self).next_channel + 1,
    {
        let ghost before = *self;
        let number: u64 = self.next_channel;
        let key: usize = slab_insert(&mut self.senders.0, number);
        self.channels.push(Channel { number, audience, queue: Vec::new() });
        self.next_channel = number + 1;
        proof {
            let a = before.channels@;
            let b = self.channels@;
            assert(self.items().dom() =~= before.items().dom().insert(key));
            assert forall|i: int, j: int| 0 <= i < j < b.len() implies (#[trigger] b[i]).number != (
            #[trigger] b[j]).number by {
                assert(b[i] == a[i]);
                assert(a[i].number < before.next_channel);
                if j < a.len() {
                    assert(b[j] == a[j]);
                }
            }
            assert forall|i: int| 0 <= i < b.len() implies (#[trigger] b[i]).number
                < self.next_channel by {
                if i < a.len() {
                    assert(b[i] == a[i]);
                }
            }
            assert forall|k: usize| #[trigger] self.items().dom().contains(k) implies has_channel(
                b,
                self.items()[k],
            ) && (k != key ==> self.items()[k] == before.items()[k] && self.items()[k] < number
                && b[channel_at(b, self.items()[k])] == a[channel_at(a, before.items()[k])]) && (k
                == key ==> b[channel_at(b, self.items()[k])] == b[a.len() as int]) by {
                if k == key {
                    assert(b[a.len() as int].number == number);
                    channel_found(b, a.len() as int);
                } else {
                    assert(before.items().dom().contains(k));
                    let i = channel_at(a, before.items()[k]);
                    assert(0 <= i < a.len() && a[i].number == before.items()[k]);
                    assert(b[i] == a[i]);
                    channel_found(b, i);
                }
            }
            assert forall|x: usize, y: usize|
                #![trigger self.items()[x], self.items()[y]]
                self.items().dom().contains(x) && self.items().dom().contains(y) && x
                    != y implies self.items()[x] != self.items()[y] by {
                if x != key && y != key {
                    assert(before.items()[x] != before.items()[y]);
                }
            }
            assert(b[a.len() as int].queue@ =~= Seq::<Update<T>>::empty());
            assert(self.streams() =~= before.streams().insert(
                key,
                Stream { audience, queue: Seq::empty() },
            ));
        }
        key
    }

    /// Adds a listener to all updates, and gives its key.
    pub fn subscribe_raw(&mut self) -> (r: usize)
        requires
            old(self).wf(),
            old(self).next_channel < u64::MAX,
        ensures
            final(self).wf(),
            !old(self).streams().dom().contains(r),
            final(self).streams() == old(self).streams().insert(
                r,
                (Stream { audience: Audience::All, queue: Seq::empty() }),
            ),
            final(self).next_channel == old(self).next_channel + 1,
    {
        self.listen(Audience::All)
    }

    /// Adds a listener to confirmed updates, and gives its key.
    pub fn subscribe(&mut self) -> (r: usize)
        requires
            old(self).wf(),
            old(self).next_channel < u64::MAX,
        ensures
            final(self).wf(),
            !old(self).streams().dom().contains(r),
            final(self).streams() == old(self).streams().insert(
                r,
                (Stream { audience: Audience::Confirmed, queue: Seq::empty() }),
            ),
            final(self).next_channel == old(self).next_channel + 1,
    {
        self.listen(Audience::Confirmed)
    }

    /// Adds a listener to updates that are not yet confirmed, and gives its key.
    pub fn subscribe_optimistic(&mut self) -> (r: usize)
        requires
            old(self).wf(),
            old(self).next_channel < u64::MAX,
        ensures
            final(self).wf(),
            !old(self).streams().dom().contains(r),
            final(self).streams() == old(self).streams().insert(
                r,
                (Stream { audience: Audience::Optimistic, queue: Seq::empty() }),
            ),
            final(self).next_channel == old(self).next_channel + 1,
    {
        self.listen(Audience::Optimistic)
    }

    /// The number of listeners.
    pub fn subscriber_count(&self) -> (r: usize)
        requires
            self.wf(),
        ensures
            r == self.streams().dom().len(),
    {
        proof {
            assert(self.streams().dom() =~= self.items().dom());
        }
        slab_len(&self.senders.0)
    }

    /// Hands an update to every listener.
    pub fn publish(&mut self, msg: Update<T>)
        requires
            old(self).wf(),
        ensures
            final(self).wf(),
            final(self).next_channel == old(self).next_channel,
            final(self).streams().dom() == old(self).streams().dom(),
            forall|k: usize| #[trigger]
                final(self).streams().dom().contains(k) ==> sent(
                    msg,
                    old(self).streams()[k],
                    final(self).streams()[k],
                ),
    {
        let ghost before = *self;
        let mut i: usize = 0;
        while i < self.channels.len()
            invariant
                i <= self.channels@.len(),
                self.senders == before.senders,
                self.next_channel == before.next_channel,
                self.channels@.len() == before.channels@.len(),
                forall|k: int|
                    0 <= k < i ==> {
                        let a = before.channels@[k];
                        let b = #[trigger] self.channels@[k];
                        &&& b.number == a.number
                        &&& b.audience == a.audience
                        &&& b.queue@.len() == a.queue@.len() + 1
                        &&& b.queue@.drop_last() == a.queue@
                        &&& is_copy(msg, b.queue@.last())
                    },
                forall|k: int|
                    i <= k < self.channels@.len() ==> #[trigger] self.channels@[k]
                        == before.channels@[k],
            decreases self.channels@.len() - i,
        {
            let copy = Update { inner: msg.inner.clone(), optimistic: msg.optimistic };
            let ghost old_queue = self.channels@[i as int].queue@;
            self.channels[i].queue.push(copy);
            proof {
                assert(self.channels@[i as int].queue@.drop_last() =~= old_queue);
            }
            i = i + 1;
        }
        proof {
            broker_stays_wf(before, *self);
            assert(self.streams().dom() =~= before.streams().dom());
            assert forall|k: usize| #[trigger] self.streams().dom().contains(k) implies sent(
                msg,
                before.streams()[k],
                self.streams()[k],
            ) by {
                assert(before.items().dom().contains(k));
                let j = channel_at(self.channels@, self.items()[k]);
                assert(self.channels@[j].number == before.channels@[j].number);
            }
        }
    }

    /// Index of the channel of a key.
    fn find(&self, key: usize) -> (r: Option<usize>)
        requires
            self.wf(),
        ensures
            match r {
                Some(i) => self.items().dom().contains(key) && i < self.channels@.len()
                    && channel_at(self.channels@, self.items()[key]) == i
                    && self.channels@[i as int].number == self.items()[key],
                None => !self.items().dom().contains(key),
            },
    {
        match slab_get(&self.senders.0, key) {
            None => None,
            Some(number) => {
                let mut i: usize = 0;
                while i < self.channels.len()
                    invariant
                        self.wf(),
                        self.items().dom().contains(key),
                        number == self.items()[key],
                        i <= self.channels@.len(),
                        forall|k: int| 0 <= k < i ==> (#[trigger] self.channels@[k]).number != number,
                    decreases self.channels@.len() - i,
                {
                    if self.channels[i].number == number {
                        proof {
                            channel_found(self.channels@, i as int);
                        }
                        return Some(i);
                    }
                    i = i + 1;
                }
                proof {
                    assert(has_channel(self.channels@, number));
                    assert(false);
                }
                None
            },
        }
    }

    /// Takes a listener away; nothing where there is none of that key.
    pub fn unsubscribe(&mut self, key: usize)
        requires
            old(self).wf(),
        ensures
            final(self).wf(),
            final(self).next_channel == old(self).next_channel,
            final(self).streams() == old(self).streams().remove(key),
    {
        let ghost before = *self;
        match self.find(key) {
            Some(i) => {
                let _v: u64 = slab_remove(&mut self.senders.0, key);
                let _gone = self.channels.remove(i);
                proof {
                    let a = before.channels@;
                    let b = self.channels@;
                    assert(b =~= a.remove(i as int));
                    assert(self.items().dom() =~= before.items().dom().remove(key));
                    assert forall|k: int, m: int| 0 <= k < m < b.len() implies (
                    #[trigger] b[k]).number != (#[trigger] b[m]).number by {
                        let x = if k < i {
                            k
                        } else {
                            k + 1
                        };
                        let y = if m < i {
                            m
                        } else {
                            m + 1
                        };
                        assert(a[x].number != a[y].number);
                    }
                    assert forall|k: int| 0 <= k < b.len() implies (#[trigger] b[k]).number
                        < self.next_channel by {
                        let x = if k < i {
                            k
                        } else {
                            k + 1
                        };
                        assert(a[x].number < before.next_channel);
                    }
                    assert forall|k: usize| #[trigger] self.items().dom().contains(
                        k,
                    ) implies has_channel(b, self.items()[k]) && b[channel_at(b, self.items()[k])]
                        == a[channel_at(a, before.items()[k])] by {
                        assert(before.items().dom().contains(k));
                        assert(before.items()[k] != before.items()[key]);
                        let j = channel_at(a, before.items()[k]);
                        assert(0 <= j < a.len() && a[j].number == before.items()[k]);
                        let x = if j < i {
                            j
                        } else {
                            j - 1
                        };
                        assert(j != i);
                        assert(b[x] == a[j]);
                        channel_found(b, x);
                    }
                    assert forall|x: usize, y: usize|
                        #![trigger self.items()[x], self.items()[y]]
                        self.items().dom().contains(x) && self.items().dom().contains(y) && x
                            != y implies self.items()[x] != self.items()[y] by {
                        assert(before.items()[x] != before.items()[y]);
                    }
                    assert(self.streams() =~= before.streams().remove(key));
                }
            },
            None => {
                proof {
                    assert(self.streams() =~= before.streams().remove(key));
                }
            },
        }
    }

    /// The next update that the listener gets, with whether it was confirmed; those it does not get
    /// are passed over. Nothing where there is no listener of that key.
    pub fn next_raw(&mut self, key: usize) -> (r: Option<Update<T>>)
        requires
            old(self).wf(),
        ensures
            final(self).wf(),
            final(self).next_channel == old(self).next_channel,
            if old(self).streams().dom().contains(key) {
                let s = old(self).streams()[key];
                &&& r == first_of(s.queue, s.audience)
                &&& final(self).streams() == old(self).streams().insert(
                    key,
                    (Stream { audience: s.audience, queue: rest_of(s.queue, s.audience) }),
                )
            } else {
                r is None && final(self).streams() == old(self).streams()
            },
    {
        let ghost before = *self;
        match self.find(key) {
            None => None,
            Some(i) => {
                let audience = self.channels[i].audience;
                let ghost q = before.channels@[i as int].queue@;
                while self.channels[i].queue.len() > 0
                    invariant
                        before == *old(self),
                        before.wf(),
                        i < self.channels@.len(),
                        self.senders == before.senders,
                        self.next_channel == before.next_channel,
                        self.channels@.len() == before.channels@.len(),
                        before.items().dom().contains(key),
                        channel_at(before.channels@, before.items()[key]) == i,
                        self.channels@[i as int].number == before.channels@[i as int].number,
                        self.channels@[i as int].audience == before.channels@[i as int].audience,
                        audience == before.channels@[i as int].audience,
                        q == before.channels@[i as int].queue@,
                        heard(self.channels@[i as int].queue@, audience) == heard(q, audience),
                        rest_of(self.channels@[i as int].queue@, audience) == rest_of(q, audience),
                        forall|k: int|
                            0 <= k < self.channels@.len() && k != i
                                ==> #[trigger] self.channels@[k] == before.channels@[k],
                    decreases self.channels@[i as int].queue@.len(),
                {
                    let ghost now = self.channels@[i as int].queue@;
                    let u = self.channels[i].queue.remove(0);
                    proof {
                        assert(self.channels@[i as int].queue@ =~= now.skip(1));
                    }
                    if is_heard(audience, u.optimistic) {
                        proof {
                            let h = heard(q, audience);
                            assert(h =~= seq![u] + heard(now.skip(1), audience));
                            one_queue_changed(before, *self, key, i as int);
                        }
                        return Some(u);
                    }
                }
                proof {
                    let now = self.channels@[i as int].queue@;
                    assert(now =~= Seq::<Update<T>>::empty());
                    assert(rest_of(now, audience) =~= now);
                    one_queue_changed(before, *self, key, i as int);
                }
                None
            },
        }
    }

    /// The next update that the listener gets, if there is one.
    pub fn next(&mut self, key: usize) -> (r: Option<T>)
        requires
            old(self).wf(),
        ensures
            final(self).wf(),
            final(self).next_channel == old(self).next_channel,
            if old(self).streams().dom().contains(key) {
                let s = old(self).streams()[key];
                &&& r == (match first_of(s.queue, s.audience) {
                    Some(u) => Some(u.inner),
                    None => None,
                })
                &&& final(self).streams() == old(self).streams().insert(
                    key,
                    (Stream { audience: s.audience, queue: rest_of(s.queue, s.audience) }),
                )
            } else {
                r is None && final(self).streams() == old(self).streams()
            },
    {
        match self.next_raw(key) {
            Some(u) => Some(u.into_inner()),
            None => None,
        }
    }
}

/// Whether the stream was sent a copy of the update, after all that it was sent before.
pub open spec fn sent<T: Clone>(msg: Update<T>, before: Stream<T>, after: Stream<T>) -> bool {
    &&& after.audience == before.audience
    &&& after.queue.len() == before.queue.len() + 1
    &&& after.queue.drop_last() == before.queue
    &&& is_copy(msg, after.queue.last())
}

/// Changing queues keeps the broker well-formed, and the places of its channels.
proof fn broker_stays_wf<T: Clone>(before: MemoryBroker<T>, after: MemoryBroker<T>)
    requires
        before.wf(),
        after.senders == before.senders,
        after.next_channel == before.next_channel,
        after.channels@.len() == before.channels@.len(),
        forall|k: int|
            0 <= k < after.channels@.len() ==> (#[trigger] after.channels@[k]).number
                == before.channels@[k].number,
    ensures
        after.wf(),
        forall|k: usize| #[trigger]
            after.items().dom().contains(k) ==> channel_at(after.channels@, after.items()[k])
                == channel_at(before.channels@, before.items()[k]) && 0 <= channel_at(
                after.channels@,
                after.items()[k],
            ) < after.channels@.len(),
{
    let a = before.channels@;
    let b = after.channels@;
    assert forall|k: int, m: int| 0 <= k < m < b.len() implies (#[trigger] b[k]).number != (
    #[trigger] b[m]).number by {
        assert(a[k].number != a[m].number);
    }
    assert forall|k: int| 0 <= k < b.len() implies (#[trigger] b[k]).number < after.next_channel by {
        assert(a[k].number < before.next_channel);
    }
    assert forall|k: usize| #[trigger] after.items().dom().contains(k) implies has_channel(
        b,
        after.items()[k],
    ) && channel_at(b, after.items()[k]) == channel_at(a, before.items()[k]) && 0 <= channel_at(
        b,
        after.items()[k],
    ) < b.len() by {
        assert(before.items().dom().contains(k));
        let i = channel_at(a, before.items()[k]);
        assert(0 <= i < a.len() && a[i].number == before.items()[k]);
        assert(b[i].number == a[i].number);
        channel_found(b, i);
    }
    assert forall|x: usize, y: usize|
        #![trigger after.items()[x], after.items()[y]]
        after.items().dom().contains(x) && after.items().dom().contains(y) && x
            != y implies after.items()[x] != after.items()[y] by {
        assert(before.items()[x] != before.items()[y]);
    }
}

/// Changing the queue of one listener changes its stream and no other.
proof fn one_queue_changed<T: Clone>(
    before: MemoryBroker<T>,
    after: MemoryBroker<T>,
    key: usize,
    i: int,
)
    requires
        before.wf(),
        after.senders == before.senders,
        after.next_channel == before.next_channel,
        after.channels@.len() == before.channels@.len(),
        0 <= i < after.channels@.len(),
        before.items().dom().contains(key),
        channel_at(before.channels@, before.items()[key]) == i,
        after.channels@[i].number == before.channels@[i].number,
        after.channels@[i].audience == before.channels@[i].audience,
        forall|k: int|
            0 <= k < after.channels@.len() && k != i ==> #[trigger] after.channels@[k]
                == before.channels@[k],
    ensures
        after.wf(),
        after.streams() == before.streams().insert(
            key,
            Stream { audience: before.channels@[i].audience, queue: after.channels@[i].queue@ },
        ),
{
    broker_stays_wf(before, after);
    let new = Stream {
        audience: before.channels@[i].audience,
        queue: after.channels@[i].queue@,
    };
    assert(after.streams().dom() =~= before.streams().insert(key, new).dom());
    assert forall|k: usize| after.streams().dom().contains(k) implies #[trigger] after.streams()[k]
        == before.streams().insert(key, new)[k] by {
        assert(after.items().dom().contains(k));
        assert(before.items().dom().contains(k));
        let j = channel_at(after.channels@, after.items()[k]);
        if k != key {
            assert(before.items()[k] != before.items()[key]);
            assert(has_channel(before.channels@, before.items()[k]));
            assert(has_channel(before.channels@, before.items()[key]));
            assert(before.channels@[j].number == before.items()[k]);
            assert(before.channels@[i].number == before.items()[key]);
            assert(j != i);
        }
    }
    assert(after.streams() =~= before.streams().insert(key, new));
}

/// Whether the updates that a listener took, followed by those that it is still to get, are copies
/// of the published updates of its kind, in the order in which they were published.
pub open spec fn delivers<T: Clone>(
    published: Seq<Update<T>>,
    taken: Seq<Update<T>>,
    s: Stream<T>,
) -> bool {
    are_copies(
        published.filter(|u: Update<T>| hears(s.audience, u.optimistic)),
        taken + heard(s.queue, s.audience),
    )
}

/// The updates of a queue that the listener gets are those of its kind, in their order.
pub proof fn heard_is_of_its_kind<T>(q: Seq<Update<T>>, a: Audience)
    ensures
        heard(q, a) == q.filter(|u: Update<T>| hears(a, u.optimistic)),
    decreases q.len(),
{
    let kind = |u: Update<T>| hears(a, u.optimistic);
    if q.len() == 0 {
        assert(q.filter(kind) =~= Seq::<Update<T>>::empty()) by {
            reveal(Seq::filter);
        }
    } else {
        heard_is_of_its_kind(q.skip(1), a);
        q.skip(1).lemma_filter_prepend(q[0], kind);
        assert(q =~= seq![q[0]] + q.skip(1));
        assert(heard(q, a) =~= q.filter(kind));
    }
}

/// A new listener delivers what is published after it came.
pub proof fn new_listeners_deliver<T: Clone>(a: Audience)
    ensures
        delivers(
            Seq::<Update<T>>::empty(),
            Seq::empty(),
            (Stream { audience: a, queue: Seq::empty() }),
        ),
{
    heard_is_of_its_kind(Seq::<Update<T>>::empty(), a);
}

/// A listener goes on delivering when one more update is published: it gets a copy of an update of
/// its kind after all others, and none of another kind.
pub proof fn publishing_keeps_delivery<T: Clone>(
    published: Seq<Update<T>>,
    taken: Seq<Update<T>>,
    msg: Update<T>,
    before: Stream<T>,
    after: Stream<T>,
)
    requires
        delivers(published, taken, before),
        sent(msg, before, after),
    ensures
        delivers(published.push(msg), taken, after),
{
    let a = before.audience;
    let kind = |u: Update<T>| hears(a, u.optimistic);
    let last = after.queue.last();
    assert(after.queue =~= before.queue.push(last));
    heard_is_of_its_kind(before.queue, a);
    heard_is_of_its_kind(after.queue, a);
    before.queue.lemma_filter_push(last, kind);
    published.lemma_filter_push(msg, kind);
    let m = published.filter(kind);
    let c = taken + heard(before.queue, a);
    let m2 = published.push(msg).filter(kind);
    let c2 = taken + heard(after.queue, a);
    if kind(msg) {
        assert(m2 =~= m.push(msg));
        assert(c2 =~= c.push(last));
        assert forall|i: int| 0 <= i < m2.len() implies is_copy(m2[i], #[trigger] c2[i]) by {
            if i < m.len() {
                assert(c2[i] == c[i]);
            }
        }
    } else {
        assert(m2 =~= m);
        assert(c2 =~= c);
    }
}

/// A listener goes on delivering when it takes the next update. Where there is none, it has taken
/// copies of all that was published of its kind, and of nothing else.
pub proof fn taking_keeps_delivery<T: Clone>(
    published: Seq<Update<T>>,
    taken: Seq<Update<T>>,
    before: Stream<T>,
)
    requires
        delivers(published, taken, before),
    ensures
        ({
            let after = Stream {
                audience: before.audience,
                queue: rest_of(before.queue, before.audience),
            };
            match first_of(before.queue, before.audience) {
                Some(u) => delivers(published, taken.push(u), after),
                None => delivers(published, taken, after) && are_copies(
                    published.filter(|u: Update<T>| hears(before.audience, u.optimistic)),
                    taken,
                ),
            }
        }),
{
    let a = before.audience;
    let h = heard(before.queue, a);
    let rest = rest_of(before.queue, a);
    taking_goes_in_order(before.queue, a);
    if h.len() > 0 {
        assert(taken.push(h[0]) + heard(rest, a) =~= taken + h);
    } else {
        assert(taken + h =~= taken);
        assert(taken + heard(rest, a) =~= taken);
    }
}

/// Taking the next update gives the first that the listener gets, and leaves those after it.
pub proof fn taking_goes_in_order<T>(q: Seq<Update<T>>, a: Audience)
    ensures
        heard(q, a).len() > 0 ==> heard(rest_of(q, a), a) == heard(q, a).skip(1),
        heard(q, a).len() == 0 ==> rest_of(q, a).len() == 0,
    decreases q.len(),
{
    if q.len() > 0 {
        if hears(a, q[0].optimistic) {
            assert(heard(q, a).skip(1) =~= heard(q.skip(1), a));
        } else {
            taking_goes_in_order(q.skip(1), a);
        }
    }
}

/// Every update is one that a listener to all gets, and one that exactly one gets of a listener to
/// confirmed updates and a listener to those not confirmed.
pub proof fn audiences_divide_updates<T>(q: Seq<Update<T>>)
    ensures
        heard(q, Audience::All) == q,
        heard(q, Audience::Confirmed).len() + heard(q, Audience::Optimistic).len() == q.len(),
        forall|u: Update<T>| hears(Audience::Confirmed, u.optimistic) != #[trigger] hears(
            Audience::Optimistic,
            u.optimistic,
        ),
    decreases q.len(),
{
    if q.len() > 0 {
        audiences_divide_updates(q.skip(1));
        assert(seq![q[0]] + q.skip(1) =~= q);
    } else {
        assert(heard(q, Audience::All) =~= q);
    }
}

} // verus!
