//! A fan-out bus: one publisher, any number of subscribers that come and go.
//!
//! Every subscriber owns the receiving half of an unbounded queue; the bus
//! keeps the sending halves. A published value is offered to every queue that
//! is registered at that moment, and a queue that refuses it is dropped from
//! the bus. The model records, per subscriber, the values its queue accepted.

use tokio::sync::mpsc::UnboundedReceiver;
use tokio::sync::mpsc::UnboundedSender;
use vstd::prelude::*;

verus! {

#[verifier::external_type_specification]
#[verifier::external_body]
#[verifier::reject_recursive_types(T)]
pub struct ExUnboundedSender<T>(UnboundedSender<T>);

#[verifier::external_type_specification]
#[verifier::external_body]
#[verifier::reject_recursive_types(T)]
pub struct ExUnboundedReceiver<T>(UnboundedReceiver<T>);

/// The entries of `ids` whose delivery succeeded, in their order.
pub open spec fn retained(ids: Seq<u64>, delivered: Seq<bool>) -> Seq<u64>
    recommends
        ids.len() == delivered.len(),
    decreases ids.len(),
{
    if ids.len() == 0 || delivered.len() == 0 {
        Seq::empty()
    } else if delivered.last() {
        retained(ids.drop_last(), delivered.drop_last()).push(ids.last())
    } else {
        retained(ids.drop_last(), delivered.drop_last())
    }
}

/// Whether `id` stands in `ids` at a place where delivery succeeded.
pub open spec fn reached(ids: Seq<u64>, delivered: Seq<bool>, id: u64) -> bool {
    exists|i: int| 0 <= i < ids.len() && i < delivered.len() && ids[i] == id && delivered[i]
}

/// What a bus is, mathematically.
pub struct BusModel<T> {
    /// The registered subscribers, oldest first.
    pub live: Seq<u64>,
    /// The identifier the next subscriber gets.
    pub next_id: u64,
    /// For every subscriber ever registered, the values its queue accepted,
    /// in the order in which they were published.
    pub accepted: Map<u64, Seq<T>>,
}

impl<T> BusModel<T> {
    /// A bus without subscribers.
    pub open spec fn empty() -> Self {
        BusModel { live: Seq::empty(), next_id: 0, accepted: Map::empty() }
    }

    /// Identifiers are issued in increasing order, so no two subscribers
    /// share one, and every registered subscriber has a history.
    pub open spec fn wf(self) -> bool {
        &&& forall|i: int| 0 <= i < self.live.len() ==> #[trigger] self.live[i] < self.next_id
        &&& forall|i: int, j: int|
            0 <= i < j < self.live.len() ==> #[trigger] self.live[i] < #[trigger] self.live[j]
        &&& forall|id: u64| #[trigger] self.accepted.dom().contains(id) <==> id < self.next_id
    }

    /// The bus after one more subscriber registered.
    pub open spec fn subscribe(self) -> Self
        recommends
            self.next_id < u64::MAX,
    {
        BusModel {
            live: self.live.push(self.next_id),
            next_id: (self.next_id + 1) as u64,
            accepted: self.accepted.insert(self.next_id, Seq::empty()),
        }
    }

    /// The bus after `value` was offered to every registered queue, where
    /// `delivered[i]` says whether the queue of `live[i]` accepted it.
    pub open spec fn record(self, value: T, delivered: Seq<bool>) -> Self {
        BusModel {
            accepted: Map::new(
                |id: u64| self.accepted.dom().contains(id),
                |id: u64|
                    if reached(self.live, delivered, id) {
                        self.accepted[id].push(value)
                    } else {
                        self.accepted[id]
                    },
            ),
            ..self
        }
    }

    /// The bus after the subscribers whose queue refused a value were dropped.
    pub open spec fn prune(self, delivered: Seq<bool>) -> Self {
        BusModel { live: retained(self.live, delivered), ..self }
    }

    /// The bus after one publish with the given outcomes.
    pub open spec fn publish(self, value: T, delivered: Seq<bool>) -> Self {
        self.record(value, delivered).prune(delivered)
    }
}

/// How many deliveries failed.
pub open spec fn refusals(delivered: Seq<bool>) -> nat
    decreases delivered.len(),
{
    if delivered.len() == 0 {
        0
    } else if delivered.last() {
        refusals(delivered.drop_last())
    } else {
        refusals(delivered.drop_last()) + 1
    }
}

/// Whether `ids` grows strictly from each entry to the next.
pub open spec fn increasing(ids: Seq<u64>) -> bool {
    forall|i: int, j: int| 0 <= i < j < ids.len() ==> #[trigger] ids[i] < #[trigger] ids[j]
}

/// Taking one more outcome into account either keeps the next subscriber or
/// leaves the kept ones as they are.
pub proof fn lemma_retained_step(ids: Seq<u64>, delivered: Seq<bool>, i: int)
    requires
        0 <= i < ids.len(),
        ids.len() == delivered.len(),
    ensures
        retained(ids.take(i + 1), delivered.take(i + 1)) == if delivered[i] {
            retained(ids.take(i), delivered.take(i)).push(ids[i])
        } else {
            retained(ids.take(i), delivered.take(i))
        },
{
    assert(ids.take(i + 1).drop_last() =~= ids.take(i));
    assert(delivered.take(i + 1).drop_last() =~= delivered.take(i));
}

/// The kept subscribers are exactly those whose delivery succeeded, they
/// stay in order, and each failed delivery removes one subscriber.
pub proof fn lemma_retained(ids: Seq<u64>, delivered: Seq<bool>)
    requires
        ids.len() == delivered.len(),
        increasing(ids),
    ensures
        increasing(retained(ids, delivered)),
        retained(ids, delivered).len() + refusals(delivered) == ids.len(),
        forall|id: u64| #[trigger]
            retained(ids, delivered).contains(id) <==> reached(ids, delivered, id),
    decreases ids.len(),
{
    let kept = retained(ids, delivered);
    if ids.len() == 0 {
        assert forall|id: u64| #[trigger] kept.contains(id) <==> reached(ids, delivered, id) by {}
    } else {
        let ids0 = ids.drop_last();
        let del0 = delivered.drop_last();
        let kept0 = retained(ids0, del0);
        assert forall|i: int, j: int| 0 <= i < j < ids0.len() implies #[trigger] ids0[i]
            < #[trigger] ids0[j] by {
            assert(ids0[i] == ids[i] && ids0[j] == ids[j]);
        }
        lemma_retained(ids0, del0);
        let last = ids.len() - 1;
        assert forall|id: u64| #[trigger] kept.contains(id) <==> reached(ids, delivered, id) by {
            if kept.contains(id) {
                let k = choose|k: int| 0 <= k < kept.len() && kept[k] == id;
                if delivered.last() && k == kept.len() - 1 {
                    assert(ids[last] == id && delivered[last]);
                } else {
                    assert(kept0[k] == id);
                    assert(kept0.contains(id));
                    let i = choose|i: int|
                        0 <= i < ids0.len() && i < del0.len() && ids0[i] == id && del0[i];
                    assert(ids[i] == id && delivered[i]);
                }
            }
            if reached(ids, delivered, id) {
                let i = choose|i: int|
                    0 <= i < ids.len() && i < delivered.len() && ids[i] == id && delivered[i];
                if i == last {
                    assert(kept[kept.len() - 1] == id);
                } else {
                    assert(ids0[i] == id && del0[i]);
                    assert(reached(ids0, del0, id));
                    assert(kept0.contains(id));
                    let k = choose|k: int| 0 <= k < kept0.len() && kept0[k] == id;
                    assert(kept[k] == id);
                }
            }
        }
        assert forall|i: int, j: int| 0 <= i < j < kept.len() implies #[trigger] kept[i]
            < #[trigger] kept[j] by {
            if delivered.last() && j == kept.len() - 1 {
                assert(kept0[i] == kept[i]);
                assert(kept0.contains(kept[i]));
                let a = choose|a: int|
                    0 <= a < ids0.len() && a < del0.len() && ids0[a] == kept[i] && del0[a];
                assert(ids[a] < ids[last]);
            } else {
                assert(kept0[i] == kept[i] && kept0[j] == kept[j]);
            }
        }
    }
}

/// Dropping the subscribers that refused a value keeps the bus valid.
pub proof fn lemma_prune_keeps_wf<T>(bus: BusModel<T>, delivered: Seq<bool>)
    requires
        bus.wf(),
        delivered.len() == bus.live.len(),
    ensures
        bus.prune(delivered).wf(),
{
    lemma_retained(bus.live, delivered);
    let kept = retained(bus.live, delivered);
    assert forall|k: int| 0 <= k < kept.len() implies #[trigger] kept[k] < bus.next_id by {
        assert(kept.contains(kept[k]));
        let i = choose|i: int|
            0 <= i < bus.live.len() && i < delivered.len() && bus.live[i] == kept[k]
                && delivered[i];
        assert(bus.live[i] < bus.next_id);
    }
}

/// Publishing keeps the bus valid.
pub proof fn lemma_publish_keeps_wf<T>(bus: BusModel<T>, value: T, delivered: Seq<bool>)
    requires
        bus.wf(),
        delivered.len() == bus.live.len(),
    ensures
        bus.record(value, delivered).wf(),
        bus.publish(value, delivered).wf(),
{
    lemma_prune_keeps_wf(bus.record(value, delivered), delivered);
}

/// Registering a subscriber keeps the bus valid.
pub proof fn lemma_subscribe_keeps_wf<T>(bus: BusModel<T>)
    requires
        bus.wf(),
        bus.next_id < u64::MAX,
    ensures
        bus.subscribe().wf(),
{
    let after = bus.subscribe();
    assert forall|i: int| 0 <= i < after.live.len() implies #[trigger] after.live[i]
        < after.next_id by {
        if i < bus.live.len() {
            assert(after.live[i] == bus.live[i]);
        }
    }
    assert forall|i: int, j: int| 0 <= i < j < after.live.len() implies #[trigger] after.live[i]
        < #[trigger] after.live[j] by {
        assert(after.live[i] == bus.live[i]);
        if j < bus.live.len() {
            assert(after.live[j] == bus.live[j]);
        }
    }
    assert forall|id: u64| #[trigger] after.accepted.dom().contains(id) <==> id
        < after.next_id by {
        assert(bus.accepted.dom().contains(id) <==> id < bus.next_id);
    }
}

/// The bus after `n` more subscribers registered.
pub open spec fn after_subscribes<T>(bus: BusModel<T>, n: nat) -> BusModel<T>
    decreases n,
{
    if n == 0 {
        bus
    } else {
        after_subscribes(bus, (n - 1) as nat).subscribe()
    }
}

/// What `n` registrations in a row leave behind: the old subscribers, then
/// the new ones with consecutive identifiers and empty histories.
pub proof fn lemma_after_subscribes<T>(bus: BusModel<T>, n: nat)
    requires
        bus.wf(),
        bus.next_id + n <= u64::MAX,
    ensures
        after_subscribes(bus, n).wf(),
        after_subscribes(bus, n).next_id == bus.next_id + n,
        after_subscribes(bus, n).live.len() == bus.live.len() + n,
        forall|i: int|
            0 <= i < bus.live.len() ==> #[trigger] after_subscribes(bus, n).live[i] == bus.live[i],
        forall|i: int|
            bus.live.len() <= i < bus.live.len() + n ==> #[trigger] after_subscribes(bus, n).live[i]
                == bus.next_id + (i - bus.live.len()),
        forall|id: u64|
            bus.next_id <= id < bus.next_id + n ==> #[trigger] after_subscribes(bus, n).accepted[id]
                == Seq::<T>::empty(),
        forall|id: u64|
            id < bus.next_id ==> #[trigger] after_subscribes(bus, n).accepted[id]
                == bus.accepted[id],
    decreases n,
{
    if n > 0 {
        let m = (n - 1) as nat;
        lemma_after_subscribes(bus, m);
        lemma_subscribe_keeps_wf(after_subscribes(bus, m));
    }
}

/// A refusal at one place only counts as one; none counts as none.
pub proof fn lemma_refusals_at(delivered: Seq<bool>, closed: int)
    requires
        forall|i: int| 0 <= i < delivered.len() ==> (#[trigger] delivered[i] <==> i != closed),
    ensures
        refusals(delivered) == if 0 <= closed < delivered.len() {
            1nat
        } else {
            0nat
        },
    decreases delivered.len(),
{
    if delivered.len() > 0 {
        let rest = delivered.drop_last();
        assert forall|i: int| 0 <= i < rest.len() implies (#[trigger] rest[i] <==> i != closed) by {
            assert(rest[i] == delivered[i]);
        }
        lemma_refusals_at(rest, closed);
    }
}

/// Whether `id` is registered and its queue has accepted `value` and
/// nothing else.
pub open spec fn holds_exactly<T>(bus: BusModel<T>, id: u64, value: T) -> bool {
    bus.live.contains(id) && bus.accepted[id] == seq![value]
}

/// Fan-out: after `n` registrations and one publish during which the new
/// queues are open, each of the `n` new subscribers is still registered
/// and its queue has accepted exactly one value, the published one.
pub proof fn lemma_publish_reaches_every_subscriber<T>(
    bus: BusModel<T>,
    n: nat,
    value: T,
    delivered: Seq<bool>,
)
    requires
        bus.wf(),
        bus.next_id + n <= u64::MAX,
        delivered.len() == bus.live.len() + n,
        forall|i: int| bus.live.len() <= i < delivered.len() ==> #[trigger] delivered[i],
    ensures
        forall|id: u64|
            bus.next_id <= id < bus.next_id + n ==> #[trigger] holds_exactly(
                after_subscribes(bus, n).publish(value, delivered),
                id,
                value,
            ),
{
    let grown = after_subscribes(bus, n);
    let after = grown.publish(value, delivered);
    lemma_after_subscribes(bus, n);
    lemma_retained(grown.live, delivered);
    assert forall|id: u64| bus.next_id <= id < bus.next_id + n implies #[trigger] holds_exactly(
        after,
        id,
        value,
    ) by {
        let at = bus.live.len() + (id - bus.next_id);
        assert(grown.live[at] == id && delivered[at]);
        assert(reached(grown.live, delivered, id));
        assert(grown.accepted.dom().contains(id));
        assert(grown.accepted[id] == Seq::<T>::empty());
        assert(Seq::<T>::empty().push(value) =~= seq![value]);
    }
}

/// Pruning: when exactly one queue refuses a published value, the bus loses
/// exactly that subscriber, whose history stays as it was; every other
/// subscriber stays registered and its queue has accepted the value.
pub proof fn lemma_publish_prunes_closed_queue<T>(
    bus: BusModel<T>,
    value: T,
    delivered: Seq<bool>,
    closed: int,
)
    requires
        bus.wf(),
        delivered.len() == bus.live.len(),
        0 <= closed < bus.live.len(),
        forall|i: int| 0 <= i < delivered.len() ==> (#[trigger] delivered[i] <==> i != closed),
    ensures
        bus.publish(value, delivered).live.len() == bus.live.len() - 1,
        !bus.publish(value, delivered).live.contains(bus.live[closed]),
        bus.publish(value, delivered).accepted[bus.live[closed]] == bus.accepted[bus.live[closed]],
        forall|i: int|
            0 <= i < bus.live.len() && i != closed ==> bus.publish(value, delivered).live.contains(
                #[trigger] bus.live[i],
            ) && bus.publish(value, delivered).accepted[bus.live[i]] == bus.accepted[bus.live[i]].push(
                value,
            ),
{
    let after = bus.publish(value, delivered);
    lemma_retained(bus.live, delivered);
    lemma_refusals_at(delivered, closed);
    let gone = bus.live[closed];
    assert(!reached(bus.live, delivered, gone)) by {
        if reached(bus.live, delivered, gone) {
            let i = choose|i: int|
                0 <= i < bus.live.len() && i < delivered.len() && bus.live[i] == gone
                    && delivered[i];
            if i < closed {
                assert(bus.live[i] < bus.live[closed]);
            } else {
                assert(bus.live[closed] < bus.live[i]);
            }
        }
    }
    assert(bus.accepted.dom().contains(gone));
    assert forall|i: int| 0 <= i < bus.live.len() && i != closed implies after.live.contains(
        #[trigger] bus.live[i],
    ) && after.accepted[bus.live[i]] == bus.accepted[bus.live[i]].push(value) by {
        let id = bus.live[i];
        assert(delivered[i]);
        assert(reached(bus.live, delivered, id));
        assert(bus.accepted.dom().contains(id));
    };
}

/// Order: a subscriber that is still registered after two publishes has
/// accepted both values, the first before the second.
pub proof fn lemma_publish_keeps_order<T>(
    bus: BusModel<T>,
    first: T,
    first_delivered: Seq<bool>,
    second: T,
    second_delivered: Seq<bool>,
    id: u64,
)
    requires
        bus.wf(),
        first_delivered.len() == bus.live.len(),
        second_delivered.len() == bus.publish(first, first_delivered).live.len(),
        bus.publish(first, first_delivered).publish(second, second_delivered).live.contains(id),
    ensures
        bus.publish(first, first_delivered).publish(second, second_delivered).accepted[id]
            == bus.accepted[id].push(first).push(second),
{
    let mid = bus.publish(first, first_delivered);
    lemma_publish_keeps_wf(bus, first, first_delivered);
    lemma_retained(bus.live, first_delivered);
    lemma_retained(mid.live, second_delivered);
    assert(reached(mid.live, second_delivered, id));
    let k = choose|k: int|
        0 <= k < mid.live.len() && k < second_delivered.len() && mid.live[k] == id
            && second_delivered[k];
    assert(mid.live.contains(id));
    assert(reached(bus.live, first_delivered, id));
    let i = choose|i: int|
        0 <= i < bus.live.len() && i < first_delivered.len() && bus.live[i] == id
            && first_delivered[i];
    assert(bus.live[i] < bus.next_id);
    assert(bus.accepted.dom().contains(id));
    assert(mid.accepted.dom().contains(id));
}

/// The sending half of one subscriber's queue, with the subscriber's identifier.
#[verifier::reject_recursive_types(T)]
struct Slot<T> {
    id: u64,
    sender: UnboundedSender<T>,
}

/// The consumer's handle to one delivery queue.
#[verifier::reject_recursive_types(T)]
pub struct Subscription<T> {
    id: u64,
    receiver: UnboundedReceiver<T>,
}

/// The bus itself: the sending halves of the registered queues.
#[verifier::reject_recursive_types(T)]
pub struct BroadcastChannel<T> {
    slots: Vec<Slot<T>>,
    next_id: u64,
    accepted: Ghost<Map<u64, Seq<T>>>,
}

/// Calls tokio's `mpsc::unbounded_channel`, which creates a queue and hands
/// out its two halves. Nothing is claimed of them.
#[verifier::external_body]
fn open_queue<T>() -> (halves: (UnboundedSender<T>, UnboundedReceiver<T>)) {
    tokio::sync::mpsc::unbounded_channel::<T>()
}

/// Calls tokio's `UnboundedSender::send` with a clone of `value` and reports
/// whether the queue took it. The outcome depends on whether the receiving
/// half is still open, so nothing is claimed of it.
#[verifier::external_body]
fn offer<T: Clone>(sender: &UnboundedSender<T>, value: &T) -> (taken: bool) {
    sender.send(value.clone()).is_ok()
}

impl<T> Subscription<T> {
    /// The identifier under which the bus knows this subscriber.
    pub closed spec fn spec_id(&self) -> u64 {
        self.id
    }

    #[verifier::when_used_as_spec(spec_id)]
    pub fn id(&self) -> (id: u64)
        ensures
            id == self.spec_id(),
    {
        self.id
    }

    /// Gives up the handle for the receiving half itself, on which the
    /// consumer waits for what is published.
    pub fn into_receiver(self) -> (receiver: UnboundedReceiver<T>)
        ensures
            receiver == self.receiving_half(),
    {
        self.receiver
    }

    /// The receiving half of the queue that the bus registered under this
    /// subscriber's identifier.
    pub closed spec fn receiving_half(&self) -> UnboundedReceiver<T> {
        self.receiver
    }
}


impl<T: Clone> BroadcastChannel<T> {
    /// The identifiers held in the slots, oldest first.
    pub closed spec fn ids(&self) -> Seq<u64> {
        Seq::new(self.slots@.len(), |i: int| self.slots@[i].id)
    }

    pub closed spec fn view(&self) -> BusModel<T> {
        BusModel { live: self.ids(), next_id: self.next_id, accepted: self.accepted@ }
    }

    /// The bus is valid when its model is.
    pub open spec fn wf(&self) -> bool {
        self@.wf()
    }

    /// A bus without subscribers.
    pub fn new() -> (bus: Self)
        ensures
            bus.wf(),
            bus@ == BusModel::<T>::empty(),
    {
        let bus = BroadcastChannel { slots: Vec::new(), next_id: 0, accepted: Ghost(Map::empty()) };
        assert(bus.ids() =~= Seq::<u64>::empty());
        bus
    }

    /// How many subscribers are registered.
    pub fn subscriber_count(&self) -> (count: usize)
        ensures
            count == self@.live.len(),
    {
        self.slots.len()
    }

    /// Registers a new queue and hands out its receiving half. The new
    /// subscriber's history starts empty: it sees nothing published before.
    /// Only a bus that has used up its identifiers registers nothing.
    pub fn subscribe(&mut self) -> (subscription: Option<Subscription<T>>)
        requires
            old(self).wf(),
        ensures
            final(self).wf(),
            old(self)@.next_id == u64::MAX ==> subscription is None && final(self)@ == old(self)@,
            old(self)@.next_id < u64::MAX ==> subscription is Some && subscription->0.id()
                == old(self)@.next_id && final(self)@ == old(self)@.subscribe(),
    {
        if self.next_id == u64::MAX {
            return None;
        }
        let id: u64 = self.next_id;
        let (sender, receiver) = open_queue::<T>();
        let ghost before = self.ids();
        self.slots.push(Slot { id, sender });
        self.next_id = id + 1;
        self.accepted = Ghost(self.accepted@.insert(id, Seq::empty()));
        assert(self.ids() =~= before.push(id));
        proof {
            lemma_subscribe_keeps_wf(old(self)@);
        }
        Some(Subscription { id, receiver })
    }

    /// Drops every subscriber whose delivery failed, where `delivered[i]`
    /// is the outcome for the subscriber at place `i`. The others keep
    /// their order.
    pub fn retain_delivered(&mut self, delivered: &Vec<bool>)
        requires
            old(self).wf(),
            delivered@.len() == old(self)@.live.len(),
        ensures
            final(self).wf(),
            final(self)@ == old(self)@.prune(delivered@),
    {
        let ghost ids = self.ids();
        let n: usize = delivered.len();
        let mut i: usize = 0;
        let mut j: usize = 0;
        while i < n
            invariant
                j <= i <= n,
                n == delivered@.len(),
                n == ids.len(),
                self.next_id == old(self).next_id,
                self.accepted == old(self).accepted,
                self.slots@.len() == j + (n - i),
                j == retained(ids.take(i as int), delivered@.take(i as int)).len(),
                self.ids() == retained(ids.take(i as int), delivered@.take(i as int)) + ids.skip(
                    i as int,
                ),
            decreases n - i,
        {
            proof {
                lemma_retained_step(ids, delivered@, i as int);
            }
            let ghost kept = retained(ids.take(i as int), delivered@.take(i as int));
            let ghost before = self.ids();
            if delivered[i] {
                assert(before =~= kept.push(ids[i as int]) + ids.skip(i + 1));
                j = j + 1;
            } else {
                self.slots.remove(j);
                assert(self.ids() =~= before.remove(j as int));
                assert(before.remove(j as int) =~= kept + ids.skip(i + 1));
            }
            i = i + 1;
        }
        proof {
            assert(ids.take(n as int) =~= ids);
            assert(delivered@.take(n as int) =~= delivered@);
            assert(self.ids() =~= retained(ids, delivered@));
            lemma_prune_keeps_wf(old(self)@, delivered@);
        }
    }

    /// Publishes `value`: offers a clone of it to every registered queue,
    /// oldest subscriber first, and drops the subscribers whose queue
    /// refused it. A refusal never keeps the value from the others. The
    /// result holds the outcome for each subscriber that was registered.
    pub fn send(&mut self, value: &T) -> (delivered: Vec<bool>)
        requires
            old(self).wf(),
        ensures
            final(self).wf(),
            delivered@.len() == old(self)@.live.len(),
            final(self)@ == old(self)@.publish(*value, delivered@),
    {
        let ghost before = self@;
        let n: usize = self.slots.len();
        let mut delivered: Vec<bool> = Vec::new();
        let mut i: usize = 0;
        proof {
            assert forall|id: u64| !reached(before.live, delivered@, id) by {}
            assert(self.accepted@ =~= before.record(*value, delivered@).accepted);
        }
        while i < n
            invariant
                i <= n,
                n == self.slots@.len(),
                before.wf(),
                before == old(self)@,
                self.slots == old(self).slots,
                self.next_id == old(self).next_id,
                delivered@.len() == i,
                self.accepted@ == before.record(*value, delivered@).accepted,
            decreases n - i,
        {
            let taken = offer(&self.slots[i].sender, value);
            let ghost id = self.slots@[i as int].id;
            let ghost seen = delivered@;
            proof {
                assert(id == before.live[i as int]);
                assert(before.accepted.dom().contains(id));
                assert(!reached(before.live, seen, id)) by {
                    if reached(before.live, seen, id) {
                        let k = choose|k: int|
                            0 <= k < before.live.len() && k < seen.len() && before.live[k] == id
                                && seen[k];
                        assert(before.live[k] < before.live[i as int]);
                    }
                }
                if taken {
                    self.accepted@ = self.accepted@.insert(id, self.accepted@[id].push(*value));
                }
            }
            delivered.push(taken);
            proof {
                let now = delivered@;
                assert forall|other: u64|
                    reached(before.live, now, other) <==> (reached(before.live, seen, other) || (
                    taken && other == id)) by {
                    if reached(before.live, now, other) {
                        let k = choose|k: int|
                            0 <= k < before.live.len() && k < now.len() && before.live[k] == other
                                && now[k];
                        if k < i {
                            assert(seen[k]);
                        }
                    }
                    if reached(before.live, seen, other) {
                        let k = choose|k: int|
                            0 <= k < before.live.len() && k < seen.len() && before.live[k] == other
                                && seen[k];
                        assert(now[k]);
                    }
                    if taken && other == id {
                        assert(now[i as int] && before.live[i as int] == other);
                    }
                }
                assert(self.accepted@ =~= before.record(*value, now).accepted);
            }
            i = i + 1;
        }
        proof {
            lemma_publish_keeps_wf(before, *value, delivered@);
        }
        self.retain_delivered(&delivered);
        delivered
    }
}

} // verus!
