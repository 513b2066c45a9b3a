//! The status notifier: who has subscribed to the status value, and what each
//! subscriber is still to be sent.

use vstd::prelude::*;

verus! {

/// One subscriber and the status values that wait to be delivered to it, oldest
/// first.
struct Subscription {
    subscriber: u64,
    pending: Vec<Vec<u8>>,
}

/// The subscriptions to the status value. A subscriber has at most one.
pub struct StatusNotifier {
    subscriptions: Vec<Subscription>,
}

/// The values of a queue, oldest first.
spec fn queue_view(pending: Seq<Vec<u8>>) -> Seq<Seq<u8>> {
    pending.map_values(|v: Vec<u8>| v@)
}

/// The queues after `value` was handed to every subscriber: it stands at the end
/// of each.
pub open spec fn published(queues: Map<u64, Seq<Seq<u8>>>, value: Seq<u8>) -> Map<
    u64,
    Seq<Seq<u8>>,
> {
    queues.map_values(|queue: Seq<Seq<u8>>| queue.push(value))
}

/// The queues after the given values were published, first to last.
pub open spec fn published_all(queues: Map<u64, Seq<Seq<u8>>>, values: Seq<Seq<u8>>) -> Map<
    u64,
    Seq<Seq<u8>>,
>
    decreases values.len(),
{
    if values.len() == 0 {
        queues
    } else {
        published(published_all(queues, values.drop_last()), values.last())
    }
}

/// A subscriber that has taken nothing out of its queue since it subscribed
/// finds there the status value of the time it subscribed, then every value
/// published since, in the order of publication.
pub proof fn lemma_deliveries_in_publish_order(
    queues: Map<u64, Seq<Seq<u8>>>,
    subscriber: u64,
    current: Seq<u8>,
    values: Seq<Seq<u8>>,
)
    ensures
        published_all(queues.insert(subscriber, seq![current]), values).contains_key(subscriber),
        published_all(queues.insert(subscriber, seq![current]), values)[subscriber] == seq![
            current,
        ] + values,
    decreases values.len(),
{
    if values.len() == 0 {
        assert(seq![current] + values =~= seq![current]);
    } else {
        lemma_deliveries_in_publish_order(queues, subscriber, current, values.drop_last());
        assert((seq![current] + values.drop_last()).push(values.last()) =~= seq![current]
            + values);
    }
}

/// No subscriber has two of the given subscriptions.
spec fn unique(subs: Seq<Subscription>) -> bool {
    forall|i: int, j: int|
        0 <= i < j < subs.len() ==> (#[trigger] subs[i]).subscriber != (#[trigger] subs[j]).subscriber
}

/// The last index at which `subscriber` has a subscription, or -1.
spec fn position(subs: Seq<Subscription>, subscriber: u64) -> int
    decreases subs.len(),
{
    if subs.len() == 0 {
        -1
    } else if subs.last().subscriber == subscriber {
        subs.len() - 1
    } else {
        position(subs.drop_last(), subscriber)
    }
}

/// The queue of each subscriber.
spec fn to_map(subs: Seq<Subscription>) -> Map<u64, Seq<Seq<u8>>>
    decreases subs.len(),
{
    if subs.len() == 0 {
        Map::empty()
    } else {
        to_map(subs.drop_last()).insert(subs.last().subscriber, queue_view(subs.last().pending@))
    }
}

/// A subscriber has a queue exactly where it has a subscription, and the queue
/// is that of its last subscription.
proof fn lemma_lookup(subs: Seq<Subscription>, subscriber: u64)
    ensures
        to_map(subs).contains_key(subscriber) <==> position(subs, subscriber) >= 0,
        -1 <= position(subs, subscriber) < subs.len(),
        position(subs, subscriber) >= 0 ==> {
            &&& subs[position(subs, subscriber)].subscriber == subscriber
            &&& to_map(subs)[subscriber] == queue_view(subs[position(subs, subscriber)].pending@)
        },
        forall|i: int|
            position(subs, subscriber) < i < subs.len() ==> (#[trigger] subs[i]).subscriber
                != subscriber,
    decreases subs.len(),
{
    if subs.len() > 0 {
        lemma_lookup(subs.drop_last(), subscriber);
        if subs.last().subscriber != subscriber {
            assert forall|i: int| position(subs, subscriber) < i < subs.len() implies (
            #[trigger] subs[i]).subscriber != subscriber by {
                if i < subs.len() - 1 {
                    assert(subs.drop_last()[i] == subs[i]);
                }
            }
        }
    }
}

/// Where subscriptions are unique, a subscriber's subscription is at its
/// position.
proof fn lemma_position_unique(subs: Seq<Subscription>, subscriber: u64, i: int)
    requires
        unique(subs),
        0 <= i < subs.len(),
        subs[i].subscriber == subscriber,
    ensures
        position(subs, subscriber) == i,
{
    lemma_lookup(subs, subscriber);
    let p = position(subs, subscriber);
    if p < i {
        assert(subs[i].subscriber != subscriber);
    }
}

/// What taking one subscription out of unique subscriptions does to the queue of
/// one subscriber.
proof fn lemma_remove_at(subs: Seq<Subscription>, at: int, k: u64)
    requires
        unique(subs),
        0 <= at < subs.len(),
    ensures
        to_map(subs.remove(at)).contains_key(k) <==> (to_map(subs).contains_key(k) && k
            != subs[at].subscriber),
        to_map(subs.remove(at)).contains_key(k) ==> to_map(subs.remove(at))[k] == to_map(subs)[k],
{
    let rest = subs.remove(at);
    lemma_lookup(subs, k);
    lemma_lookup(rest, k);
    let p = position(subs, k);
    let q = position(rest, k);
    if q >= 0 {
        let from_q = if q < at {
            q
        } else {
            q + 1
        };
        assert(rest[q] == subs[from_q]);
        lemma_position_unique(subs, k, from_q);
    }
    if p >= 0 && p != at {
        let to_p = if p < at {
            p
        } else {
            p - 1
        };
        assert(rest[to_p] == subs[p]);
        assert(rest[to_p].subscriber == k);
        if q < 0 {
            assert(rest[to_p].subscriber != k);
        }
    }
    if k == subs[at].subscriber {
        lemma_position_unique(subs, k, at);
    }
}

/// Taking one subscription out of unique subscriptions takes its subscriber's
/// queue out and leaves the others.
proof fn lemma_remove(subs: Seq<Subscription>, at: int)
    requires
        unique(subs),
        0 <= at < subs.len(),
    ensures
        unique(subs.remove(at)),
        to_map(subs.remove(at)) == to_map(subs).remove(subs[at].subscriber),
{
    let rest = subs.remove(at);
    let gone = subs[at].subscriber;
    assert forall|i: int, j: int| 0 <= i < j < rest.len() implies (#[trigger] rest[i]).subscriber
        != (#[trigger] rest[j]).subscriber by {
        let from_i = if i < at {
            i
        } else {
            i + 1
        };
        let from_j = if j < at {
            j
        } else {
            j + 1
        };
        assert(rest[i] == subs[from_i]);
        assert(rest[j] == subs[from_j]);
    }
    assert forall|k: u64| #[trigger]
        to_map(rest).dom().contains(k) == to_map(subs).remove(gone).dom().contains(k) by {
        lemma_remove_at(subs, at, k);
    }
    assert forall|k: u64| to_map(rest).dom().contains(k) implies #[trigger] to_map(rest)[k]
        == to_map(subs).remove(gone)[k] by {
        lemma_remove_at(subs, at, k);
    }
    assert(to_map(rest) =~= to_map(subs).remove(gone));
}

/// Adding a subscription of a subscriber that has none adds its queue.
proof fn lemma_push(subs: Seq<Subscription>, sub: Subscription)
    requires
        unique(subs),
        position(subs, sub.subscriber) < 0,
    ensures
        unique(subs.push(sub)),
        to_map(subs.push(sub)) == to_map(subs).insert(sub.subscriber, queue_view(sub.pending@)),
{
    lemma_lookup(subs, sub.subscriber);
    assert(subs.push(sub).drop_last() =~= subs);
}

/// What replacing a subscription by one of the same subscriber does to the queue
/// of one subscriber.
proof fn lemma_update_at(subs: Seq<Subscription>, at: int, sub: Subscription, k: u64)
    requires
        unique(subs),
        0 <= at < subs.len(),
        sub.subscriber == subs[at].subscriber,
    ensures
        to_map(subs.update(at, sub)).contains_key(k) <==> to_map(subs).contains_key(k),
        k == sub.subscriber ==> to_map(subs.update(at, sub))[k] == queue_view(sub.pending@),
        k != sub.subscriber && to_map(subs).contains_key(k) ==> to_map(subs.update(at, sub))[k]
            == to_map(subs)[k],
{
    let next = subs.update(at, sub);
    assert forall|i: int, j: int| 0 <= i < j < next.len() implies (#[trigger] next[i]).subscriber
        != (#[trigger] next[j]).subscriber by {
        assert(next[i].subscriber == subs[i].subscriber);
        assert(next[j].subscriber == subs[j].subscriber);
    }
    lemma_lookup(subs, k);
    lemma_lookup(next, k);
    let p = position(subs, k);
    let q = position(next, k);
    if p >= 0 {
        assert(next[p].subscriber == subs[p].subscriber);
        lemma_position_unique(next, k, p);
    }
    if q >= 0 {
        assert(next[q].subscriber == subs[q].subscriber);
        lemma_position_unique(subs, k, q);
    }
    if k == sub.subscriber {
        lemma_position_unique(subs, k, at);
        lemma_position_unique(next, k, at);
    }
}

/// Replacing a subscription by one of the same subscriber replaces its queue.
proof fn lemma_update(subs: Seq<Subscription>, at: int, sub: Subscription)
    requires
        unique(subs),
        0 <= at < subs.len(),
        sub.subscriber == subs[at].subscriber,
    ensures
        unique(subs.update(at, sub)),
        to_map(subs.update(at, sub)) == to_map(subs).insert(
            sub.subscriber,
            queue_view(sub.pending@),
        ),
{
    let next = subs.update(at, sub);
    let expected = to_map(subs).insert(sub.subscriber, queue_view(sub.pending@));
    assert forall|i: int, j: int| 0 <= i < j < next.len() implies (#[trigger] next[i]).subscriber
        != (#[trigger] next[j]).subscriber by {
        assert(next[i].subscriber == subs[i].subscriber);
        assert(next[j].subscriber == subs[j].subscriber);
    }
    lemma_lookup(subs, sub.subscriber);
    lemma_position_unique(subs, sub.subscriber, at);
    assert forall|k: u64| #[trigger] to_map(next).dom().contains(k) == expected.dom().contains(
        k,
    ) by {
        lemma_update_at(subs, at, sub, k);
    }
    assert forall|k: u64| to_map(next).dom().contains(k) implies #[trigger] to_map(next)[k]
        == expected[k] by {
        lemma_update_at(subs, at, sub, k);
    }
    assert(to_map(next) =~= expected);
}

/// Where the subscription of `subscriber` stands among unique subscriptions, if
/// it has one.
fn find(subs: &Vec<Subscription>, subscriber: u64) -> (at: Option<usize>)
    requires
        unique(subs@),
    ensures
        match at {
            Some(i) => i < subs@.len() && position(subs@, subscriber) == i,
            None => position(subs@, subscriber) < 0,
        },
{
    let mut i: usize = 0;
    while i < subs.len()
        invariant
            i <= subs@.len(),
            unique(subs@),
            forall|j: int| 0 <= j < i ==> (#[trigger] subs@[j]).subscriber != subscriber,
        decreases subs.len() - i,
    {
        if subs[i].subscriber == subscriber {
            proof {
                lemma_position_unique(subs@, subscriber, i as int);
            }
            return Some(i);
        }
        i += 1;
    }
    proof {
        lemma_lookup(subs@, subscriber);
    }
    None
}

/// Appends `value` to the queue of every subscription.
fn push_to_all(subs: &mut Vec<Subscription>, value: &Vec<u8>)
    requires
        unique(old(subs)@),
    ensures
        unique(final(subs)@),
        to_map(final(subs)@) == published(to_map(old(subs)@), value@),
{
    let ghost before = subs@;
    let ghost grow = |queue: Seq<Seq<u8>>| queue.push(value@);
    let mut i: usize = 0;
    while i < subs.len()
        invariant
            i <= subs@.len(),
            subs@.len() == before.len(),
            unique(before),
            unique(subs@),
            forall|j: int|
                0 <= j < subs@.len() ==> (#[trigger] subs@[j]).subscriber == before[j].subscriber,
            forall|j: int|
                0 <= j < i ==> queue_view((#[trigger] subs@[j]).pending@) == queue_view(
                    before[j].pending@,
                ).push(value@),
            forall|j: int| i <= j < subs@.len() ==> (#[trigger] subs@[j]) == before[j],
        decreases subs.len() - i,
    {
        let ghost earlier = subs@;
        let ghost queue = queue_view(subs@[i as int].pending@);
        subs[i].pending.push(value.clone());
        proof {
            assert(queue_view(subs@[i as int].pending@) =~= queue.push(value@));
            assert(subs@ =~= earlier.update(i as int, subs@[i as int]));
            lemma_update(earlier, i as int, subs@[i as int]);
        }
        i += 1;
    }
    proof {
        assert forall|k: u64|
            to_map(subs@).contains_key(k) == to_map(before).contains_key(k) && (to_map(
                subs@,
            ).contains_key(k) ==> to_map(subs@)[k] == grow(to_map(before)[k])) by {
            lemma_lookup(before, k);
            lemma_lookup(subs@, k);
            let p = position(before, k);
            let q = position(subs@, k);
            if p >= 0 {
                assert(subs@[p].subscriber == before[p].subscriber);
                lemma_position_unique(subs@, k, p);
            }
            if q >= 0 {
                assert(subs@[q].subscriber == before[q].subscriber);
                lemma_position_unique(before, k, q);
            }
        }
        assert(to_map(subs@) =~= to_map(before).map_values(grow));
    }
}

impl View for StatusNotifier {
    type V = Map<u64, Seq<Seq<u8>>>;

    /// The queue of each subscriber.
    closed spec fn view(&self) -> Map<u64, Seq<Seq<u8>>> {
        to_map(self.subscriptions@)
    }
}

impl StatusNotifier {
    #[verifier::type_invariant]
    spec fn well_formed(self) -> bool {
        unique(self.subscriptions@)
    }

    /// A notifier without subscribers.
    pub fn new() -> (notifier: StatusNotifier)
        ensures
            notifier@ == Map::<u64, Seq<Seq<u8>>>::empty(),
    {
        StatusNotifier { subscriptions: Vec::new() }
    }

    /// Whether `subscriber` has a subscription.
    pub fn is_subscribed(&self, subscriber: u64) -> (subscribed: bool)
        ensures
            subscribed == self@.contains_key(subscriber),
    {
        proof {
            use_type_invariant(self);
            lemma_lookup(self.subscriptions@, subscriber);
        }
        find(&self.subscriptions, subscriber).is_some()
    }

    /// The number of values that wait for `subscriber`; zero where it has no
    /// subscription.
    pub fn pending(&self, subscriber: u64) -> (count: usize)
        ensures
            count == if self@.contains_key(subscriber) {
                self@[subscriber].len()
            } else {
                0
            },
    {
        proof {
            use_type_invariant(self);
            lemma_lookup(self.subscriptions@, subscriber);
        }
        match find(&self.subscriptions, subscriber) {
            Some(i) => self.subscriptions[i].pending.len(),
            None => 0,
        }
    }

    /// Registers `subscriber`, whose first delivery is `current`: the status value
    /// at the time of subscribing. A subscription that the subscriber already had
    /// is dropped first, with whatever waited in it.
    pub fn subscribe(&mut self, subscriber: u64, current: Vec<u8>)
        ensures
            final(self)@ == old(self)@.insert(subscriber, seq![current@]),
    {
        proof {
            use_type_invariant(&*self);
        }
        let mut subs: Vec<Subscription> = Vec::new();
        core::mem::swap(&mut self.subscriptions, &mut subs);
        let found = find(&subs, subscriber);
        proof {
            lemma_lookup(subs@, subscriber);
        }
        let mut pending: Vec<Vec<u8>> = Vec::new();
        pending.push(current);
        assert(queue_view(pending@) =~= seq![current@]);
        let sub = Subscription { subscriber, pending };
        match found {
            Some(at) => {
                proof {
                    lemma_update(subs@, at as int, sub);
                }
                subs.set(at, sub);
            },
            None => {
                proof {
                    lemma_push(subs@, sub);
                }
                subs.push(sub);
            },
        }
        self.subscriptions = subs;
    }

    /// Drops the subscription of `subscriber` with whatever waited in it, and
    /// tells whether there was one.
    pub fn unsubscribe(&mut self, subscriber: u64) -> (was_subscribed: bool)
        ensures
            was_subscribed == old(self)@.contains_key(subscriber),
            final(self)@ == old(self)@.remove(subscriber),
    {
        proof {
            use_type_invariant(&*self);
        }
        let mut subs: Vec<Subscription> = Vec::new();
        core::mem::swap(&mut self.subscriptions, &mut subs);
        let found = find(&subs, subscriber);
        proof {
            lemma_lookup(subs@, subscriber);
        }
        let was_subscribed = match found {
            Some(at) => {
                proof {
                    lemma_remove(subs@, at as int);
                }
                let _ = subs.remove(at);
                true
            },
            None => {
                assert(to_map(subs@).remove(subscriber) =~= to_map(subs@));
                false
            },
        };
        self.subscriptions = subs;
        was_subscribed
    }

    /// Hands `value` to every subscriber: it joins each queue at its end.
    pub fn publish(&mut self, value: &Vec<u8>)
        ensures
            final(self)@ == published(old(self)@, value@),
    {
        proof {
            use_type_invariant(&*self);
        }
        let mut subs: Vec<Subscription> = Vec::new();
        core::mem::swap(&mut self.subscriptions, &mut subs);
        push_to_all(&mut subs, value);
        self.subscriptions = subs;
    }

    /// Takes the oldest value that waits for `subscriber` out of its queue, if
    /// one waits.
    pub fn next_delivery(&mut self, subscriber: u64) -> (delivery: Option<Vec<u8>>)
        ensures
            match delivery {
                Some(value) => {
                    &&& old(self)@.contains_key(subscriber)
                    &&& old(self)@[subscriber].len() > 0
                    &&& value@ == old(self)@[subscriber][0]
                    &&& final(self)@ == old(self)@.insert(
                        subscriber,
                        old(self)@[subscriber].drop_first(),
                    )
                },
                None => {
                    &&& old(self)@.contains_key(subscriber) ==> old(self)@[subscriber].len() == 0
                    &&& final(self)@ == old(self)@
                },
            },
    {
        proof {
            use_type_invariant(&*self);
        }
        let mut subs: Vec<Subscription> = Vec::new();
        core::mem::swap(&mut self.subscriptions, &mut subs);
        let found = find(&subs, subscriber);
        proof {
            lemma_lookup(subs@, subscriber);
        }
        let delivery = match found {
            Some(at) => {
                if subs[at].pending.len() == 0 {
                    None
                } else {
                    let ghost before = subs@;
                    let mut sub = subs.remove(at);
                    proof {
                        lemma_remove(before, at as int);
                        lemma_lookup(subs@, subscriber);
                    }
                    let ghost queue = queue_view(sub.pending@);
                    let value = sub.pending.remove(0);
                    proof {
                        assert(queue_view(sub.pending@) =~= queue.drop_first());
                        lemma_push(subs@, sub);
                    }
                    subs.push(sub);
                    assert(to_map(subs@) =~= to_map(before).insert(
                        subscriber,
                        to_map(before)[subscriber].drop_first(),
                    ));
                    Some(value)
                }
            },
            None => None,
        };
        self.subscriptions = subs;
        delivery
    }
}

} // verus!
