//! The change hub: the broadcaster that owns every live subscription and
//! fans change notifications out to them. Each subscription is a bounded
//! queue; a publish never blocks on a slow consumer (the event is dropped
//! for that consumer alone), and a periodic sweep sends a heartbeat and
//! prunes every subscription that no longer accepts one.

use vstd::prelude::*;
use crate::sse::{framing, Message, MessageView};
use vstd::utf8::encode_utf8;

verus! {

/// How many pending notifications one subscription's queue may hold.
pub const QUEUE_CAPACITY: usize = 100;

/// What kind of filesystem change a notification reports.
#[derive(Debug, Clone, Copy, PartialEq, Eq, Structural)]
pub enum ChangeKind {
    Created,
    Modified,
    Removed,
    Other,
}

/// One filesystem notification: a kind and the affected path. Immutable
/// once created; consumed by zero or more subscriptions.
#[derive(Clone)]
pub struct ChangeEvent {
    pub kind: ChangeKind,
    pub path: String,
}

/// The mathematical content of a [`ChangeEvent`].
#[verifier::ext_equal]
pub ghost struct ChangeEventView {
    pub kind: ChangeKind,
    pub path: Seq<char>,
}

impl View for ChangeEvent {
    type V = ChangeEventView;

    open spec fn view(&self) -> ChangeEventView {
        ChangeEventView { kind: self.kind, path: self.path@ }
    }
}

/// An item in a subscription's queue: a change event or a liveness ping.
#[derive(Clone)]
pub enum Notification {
    Change(ChangeEvent),
    Heartbeat,
}

/// The mathematical content of a [`Notification`].
pub ghost enum NotificationView {
    Change(ChangeEventView),
    Heartbeat,
}

impl View for Notification {
    type V = NotificationView;

    open spec fn view(&self) -> NotificationView {
        match self {
            Notification::Change(e) => NotificationView::Change(e@),
            Notification::Heartbeat => NotificationView::Heartbeat,
        }
    }
}

/// The label under which a change kind appears on the `event:` line.
pub open spec fn kind_label(k: ChangeKind) -> Seq<char> {
    match k {
        ChangeKind::Created => seq!['c', 'r', 'e', 'a', 't', 'e', 'd'],
        ChangeKind::Modified => seq!['m', 'o', 'd', 'i', 'f', 'i', 'e', 'd'],
        ChangeKind::Removed => seq!['r', 'e', 'm', 'o', 'v', 'e', 'd'],
        ChangeKind::Other => seq!['o', 't', 'h', 'e', 'r'],
    }
}

/// The characters of `"ping"`, the heartbeat payload.
pub open spec fn ping_payload() -> Seq<char> {
    seq!['p', 'i', 'n', 'g']
}

/// The stream message a notification renders as: a change carries its kind
/// as the event name and its path as data; a heartbeat is a bare
/// `data: ping` record.
pub open spec fn notification_message(n: NotificationView) -> MessageView {
    match n {
        NotificationView::Change(e) => MessageView {
            event: Option::Some(kind_label(e.kind)),
            id: Option::None,
            data: Option::Some(e.path),
            retry: Option::None,
        },
        NotificationView::Heartbeat => MessageView {
            event: Option::None,
            id: Option::None,
            data: Option::Some(ping_payload()),
            retry: Option::None,
        },
    }
}

/// The exact bytes one notification contributes to a subscription's stream.
pub open spec fn notification_bytes(n: NotificationView) -> Seq<u8> {
    encode_utf8(framing(notification_message(n)))
}

fn kind_label_str(k: ChangeKind) -> (r: &'static str)
    ensures
        r@ == kind_label(k),
        crate::sse::line_safe(r@),
{
    let r: &'static str = match k {
        ChangeKind::Created => "created",
        ChangeKind::Modified => "modified",
        ChangeKind::Removed => "removed",
        ChangeKind::Other => "other",
    };
    proof {
        reveal_strlit("created");
        reveal_strlit("modified");
        reveal_strlit("removed");
        reveal_strlit("other");
        assert(r@ =~= kind_label(k));
    }
    r
}

impl Notification {
    /// Renders this notification as the typed stream message described by
    /// [`notification_message`].
    pub fn to_message(self) -> (m: Message)
        ensures
            m@ == notification_message(self@),
    {
        match self {
            Notification::Change(e) => {
                let label = kind_label_str(e.kind);
                let b = Message::build();
                let b = b.event(label.to_owned()).unwrap();
                let b = b.data(e.path);
                Message::from(b)
            },
            Notification::Heartbeat => {
                let ping: String = "ping".to_owned();
                proof {
                    reveal_strlit("ping");
                    assert(ping@ =~= ping_payload());
                }
                Message::data(ping)
            },
        }
    }
}

/// One registered subscription, as the hub holds it: its bounded queue of
/// pending notifications, whether the consumer side is still attached, and
/// the liveness flag that a failed send clears. The ghost `accepted` and
/// `observed` sequences record every notification the queue ever took and
/// every one the consumer ever read.
pub struct Subscription {
    id: u64,
    queue: Vec<Notification>,
    consumer_open: bool,
    live: bool,
    accepted: Ghost<Seq<NotificationView>>,
    observed: Ghost<Seq<NotificationView>>,
}

/// The mathematical content of a [`Subscription`].
#[verifier::ext_equal]
pub ghost struct SubscriptionView {
    pub id: u64,
    pub queue: Seq<NotificationView>,
    pub consumer_open: bool,
    pub live: bool,
    pub accepted: Seq<NotificationView>,
    pub observed: Seq<NotificationView>,
}

impl View for Subscription {
    type V = SubscriptionView;

    closed spec fn view(&self) -> SubscriptionView {
        SubscriptionView {
            id: self.id,
            queue: self.queue@.map_values(|n: Notification| n@),
            consumer_open: self.consumer_open,
            live: self.live,
            accepted: self.accepted@,
            observed: self.observed@,
        }
    }
}

/// Well-formedness of one subscription against the hub's queue capacity:
/// the queue is bounded, a dead subscription has no consumer, what the
/// consumer observed is a prefix of what the queue accepted, and the queue
/// holds exactly the accepted notifications not yet observed, in order.
pub open spec fn sub_wf(s: SubscriptionView, cap: nat) -> bool {
    &&& s.queue.len() <= cap
    &&& (s.consumer_open ==> s.live)
    &&& s.observed.len() <= s.accepted.len()
    &&& s.observed == s.accepted.take(s.observed.len() as int)
    &&& s.queue == s.accepted.skip(s.observed.len() as int)
}

/// What one publish does to one subscription: a missing consumer marks the
/// subscription for removal, a full queue drops the notification for this
/// subscriber alone, and otherwise the notification is appended.
pub open spec fn publish_one(s: SubscriptionView, n: NotificationView, cap: nat) -> SubscriptionView {
    if !s.consumer_open {
        SubscriptionView { live: false, ..s }
    } else if s.queue.len() < cap {
        SubscriptionView { queue: s.queue.push(n), accepted: s.accepted.push(n), ..s }
    } else {
        s
    }
}

/// What one publish does to the whole membership: every subscription is
/// handled independently.
pub open spec fn publish_all(
    subs: Seq<SubscriptionView>,
    n: NotificationView,
    cap: nat,
) -> Seq<SubscriptionView> {
    subs.map_values(|s: SubscriptionView| publish_one(s, n, cap))
}

/// Whether a sweep keeps a subscription: the heartbeat send must succeed,
/// which needs an attached consumer and room in the queue.
pub open spec fn sweep_keeps(s: SubscriptionView, cap: nat) -> bool {
    s.consumer_open && s.queue.len() < cap
}

/// A subscription after the sweep's heartbeat was enqueued.
pub open spec fn with_heartbeat(s: SubscriptionView) -> SubscriptionView {
    SubscriptionView {
        queue: s.queue.push(NotificationView::Heartbeat),
        accepted: s.accepted.push(NotificationView::Heartbeat),
        ..s
    }
}

/// The membership after a sweep: exactly the subscriptions whose heartbeat
/// send succeeded, in their old order, each with the heartbeat enqueued.
pub open spec fn sweep_result(subs: Seq<SubscriptionView>, cap: nat) -> Seq<SubscriptionView>
    decreases subs.len(),
{
    if subs.len() == 0 {
        Seq::empty()
    } else {
        let rest = sweep_result(subs.drop_last(), cap);
        if sweep_keeps(subs.last(), cap) {
            rest.push(with_heartbeat(subs.last()))
        } else {
            rest
        }
    }
}

/// The broadcaster: owns the membership set of all live subscriptions.
/// Constructed once at server start and shared with every request handler;
/// the filesystem watcher publishes into it and a timer drives its sweep.
pub struct ChangeBroadcaster {
    subs: Vec<Subscription>,
    next_id: u64,
    capacity: usize,
}

/// The mathematical content of a [`ChangeBroadcaster`].
#[verifier::ext_equal]
pub ghost struct BroadcasterView {
    pub subs: Seq<SubscriptionView>,
    pub next_id: u64,
    pub capacity: nat,
}

impl View for ChangeBroadcaster {
    type V = BroadcasterView;

    closed spec fn view(&self) -> BroadcasterView {
        BroadcasterView {
            subs: self.subs@.map_values(|s: Subscription| s@),
            next_id: self.next_id,
            capacity: self.capacity as nat,
        }
    }
}

/// The consumer side of one subscription: a handle carrying the
/// subscription's identity, held by one streaming response for its
/// lifetime.
pub struct Client {
    id: u64,
}

impl View for Client {
    type V = u64;

    closed spec fn view(&self) -> u64 {
        self.id
    }
}

/// What one poll of a subscription's queue reports.
pub enum PollNext {
    /// The next pending notification, in publish order.
    Ready(Notification),
    /// Nothing pending, but the subscription is still registered.
    Pending,
    /// The subscription is no longer registered: the stream has ended.
    Closed,
}

proof fn lemma_publish_one_wf(s: SubscriptionView, n: NotificationView, cap: nat)
    requires
        sub_wf(s, cap),
    ensures
        sub_wf(publish_one(s, n, cap), cap),
        publish_one(s, n, cap).id == s.id,
        publish_one(s, n, cap).observed == s.observed,
{
    let p = publish_one(s, n, cap);
    if s.consumer_open && s.queue.len() < cap {
        assert(p.observed =~= p.accepted.take(p.observed.len() as int));
        assert(p.queue =~= p.accepted.skip(p.observed.len() as int));
    }
}

proof fn lemma_with_heartbeat_wf(s: SubscriptionView, cap: nat)
    requires
        sub_wf(s, cap),
        sweep_keeps(s, cap),
    ensures
        sub_wf(with_heartbeat(s), cap),
        with_heartbeat(s).id == s.id,
{
    let p = with_heartbeat(s);
    assert(p.observed =~= p.accepted.take(p.observed.len() as int));
    assert(p.queue =~= p.accepted.skip(p.observed.len() as int));
}

/// Every subscription a sweep keeps carries the identity of one it was
/// given, well formed, and distinct identities stay distinct.
proof fn lemma_sweep_result_wf(subs: Seq<SubscriptionView>, cap: nat)
    requires
        forall|i: int| 0 <= i < subs.len() ==> sub_wf(#[trigger] subs[i], cap),
        forall|i: int, j: int| 0 <= i < j < subs.len() ==> subs[i].id != subs[j].id,
    ensures
        forall|k: int|
            0 <= k < sweep_result(subs, cap).len() ==> sub_wf(
                #[trigger] sweep_result(subs, cap)[k],
                cap,
            ),
        forall|k: int|
            0 <= k < sweep_result(subs, cap).len() ==> exists|i: int|
                0 <= i < subs.len() && (#[trigger] sweep_result(subs, cap)[k]).id == subs[i].id,
        forall|k: int, l: int|
            0 <= k < l < sweep_result(subs, cap).len() ==> sweep_result(subs, cap)[k].id
                != sweep_result(subs, cap)[l].id,
    decreases subs.len(),
{
    if subs.len() > 0 {
        let rest = subs.drop_last();
        let last = subs.last();
        lemma_sweep_result_wf(rest, cap);
        let r = sweep_result(subs, cap);
        let rr = sweep_result(rest, cap);
        if sweep_keeps(last, cap) {
            lemma_with_heartbeat_wf(last, cap);
            assert forall|k: int| 0 <= k < r.len() implies exists|i: int|
                0 <= i < subs.len() && (#[trigger] r[k]).id == subs[i].id by {
                if k < rr.len() {
                    let i = choose|i: int| 0 <= i < rest.len() && rr[k].id == rest[i].id;
                    assert(0 <= i < subs.len() && r[k].id == subs[i].id);
                } else {
                    assert(r[k].id == subs[subs.len() - 1].id);
                }
            }
            assert forall|k: int, l: int| 0 <= k < l < r.len() implies r[k].id != r[l].id by {
                if l == r.len() - 1 {
                    let i = choose|i: int| 0 <= i < rest.len() && rr[k].id == rest[i].id;
                    assert(subs[i].id != last.id);
                }
            }
        }
    }
}

impl ChangeBroadcaster {
    /// Well-formedness of the whole hub: the capacity is positive, every
    /// subscription is well formed, identities are distinct, and no issued
    /// identity reaches `next_id`.
    pub open spec fn wf(self) -> bool {
        &&& self@.capacity >= 1
        &&& forall|i: int|
            0 <= i < self@.subs.len() ==> sub_wf(#[trigger] self@.subs[i], self@.capacity)
        &&& forall|i: int| 0 <= i < self@.subs.len() ==> (#[trigger] self@.subs[i]).id < self@.next_id
        &&& forall|i: int, j: int|
            0 <= i < j < self@.subs.len() ==> self@.subs[i].id != self@.subs[j].id
    }

    /// A hub with no subscriptions and the fixed per-subscription queue
    /// capacity.
    pub fn create() -> (r: ChangeBroadcaster)
        ensures
            r.wf(),
            r@.subs.len() == 0,
            r@.next_id == 0,
            r@.capacity == QUEUE_CAPACITY as nat,
    {
        let r = ChangeBroadcaster { subs: Vec::new(), next_id: 0, capacity: QUEUE_CAPACITY };
        proof {
            assert(r@.subs =~= Seq::<SubscriptionView>::empty());
        }
        r
    }

    /// How many subscription identities this hub has issued so far; the
    /// next subscription takes this value, so it must still be below the
    /// identity type's maximum.
    pub fn issued_ids(&self) -> (n: u64)
        ensures
            n == self@.next_id,
    {
        self.next_id
    }

    /// How many subscriptions are currently registered.
    pub fn client_count(&self) -> (n: usize)
        ensures
            n == self@.subs.len(),
    {
        self.subs.len()
    }

    /// Registers a fresh subscription with an empty bounded queue and
    /// returns the consumer handle for it. Constant time; the new member is
    /// appended to the membership set.
    pub fn new_client(&mut self) -> (c: Client)
        requires
            old(self).wf(),
            old(self)@.next_id < u64::MAX,
        ensures
            final(self).wf(),
            c@ == old(self)@.next_id,
            final(self)@.next_id == old(self)@.next_id + 1,
            final(self)@.capacity == old(self)@.capacity,
            final(self)@.subs == old(self)@.subs.push(
                SubscriptionView {
                    id: old(self)@.next_id,
                    queue: Seq::empty(),
                    consumer_open: true,
                    live: true,
                    accepted: Seq::empty(),
                    observed: Seq::empty(),
                },
            ),
    {
        let id = self.next_id;
        self.next_id = self.next_id + 1;
        self.subs.push(
            Subscription {
                id,
                queue: Vec::new(),
                consumer_open: true,
                live: true,
                accepted: Ghost(Seq::empty()),
                observed: Ghost(Seq::empty()),
            },
        );
        proof {
            assert(self@.subs =~~= old(self)@.subs.push(
                SubscriptionView {
                    id: old(self)@.next_id,
                    queue: Seq::empty(),
                    consumer_open: true,
                    live: true,
                    accepted: Seq::empty(),
                    observed: Seq::empty(),
                },
            ));
            assert(Seq::<NotificationView>::empty() =~= Seq::<NotificationView>::empty().take(0));
            assert(Seq::<NotificationView>::empty() =~= Seq::<NotificationView>::empty().skip(0));
        }
        Client { id }
    }

    /// Publishes one change event: for every registered subscription,
    /// attempts a non-blocking enqueue. A full queue drops the event for
    /// that subscriber alone; a subscription whose consumer is gone is
    /// marked for removal; nobody is waited on.
    #[verifier::loop_isolation(false)]
    pub fn send(&mut self, event: &ChangeEvent)
        requires
            old(self).wf(),
        ensures
            final(self).wf(),
            final(self)@.next_id == old(self)@.next_id,
            final(self)@.capacity == old(self)@.capacity,
            final(self)@.subs == publish_all(
                old(self)@.subs,
                NotificationView::Change(event@),
                old(self)@.capacity,
            ),
    {
        let ghost nv = NotificationView::Change(event@);
        let ghost cap = self@.capacity;
        let capacity = self.capacity;
        let count = self.subs.len();
        let mut i: usize = 0;
        while i < count
            invariant
                count == self.subs.len(),
                i <= count,
                capacity == self@.capacity,
                self@.next_id == old(self)@.next_id,
                self@.capacity == old(self)@.capacity,
                count == old(self)@.subs.len(),
                forall|k: int|
                    0 <= k < i ==> self@.subs[k] == publish_one(
                        #[trigger] old(self)@.subs[k],
                        nv,
                        cap,
                    ),
                forall|k: int| i <= k < count ==> self@.subs[k] == #[trigger] old(self)@.subs[k],
            decreases count - i,
        {
            let sub = &mut self.subs[i];
            if sub.consumer_open {
                if sub.queue.len() < capacity {
                    let item = Notification::Change(
                        ChangeEvent { kind: event.kind, path: event.path.clone() },
                    );
                    proof {
                        assert(item@ == nv);
                    }
                    sub.queue.push(item);
                    sub.accepted = Ghost(sub.accepted@.push(nv));
                    proof {
                        assert(sub@.queue =~= old(self)@.subs[i as int].queue.push(nv));
                    }
                }
            } else {
                sub.live = false;
            }
            proof {
                assert(self@.subs[i as int] == publish_one(old(self)@.subs[i as int], nv, cap));
            }
            i += 1;
        }
        proof {
            assert(self@.subs =~= publish_all(old(self)@.subs, nv, cap));
            assert forall|k: int| 0 <= k < self@.subs.len() implies sub_wf(
                #[trigger] self@.subs[k],
                cap,
            ) by {
                lemma_publish_one_wf(old(self)@.subs[k], nv, cap);
            }
            assert forall|k: int| 0 <= k < self@.subs.len() implies (
            #[trigger] self@.subs[k]).id < self@.next_id by {
                lemma_publish_one_wf(old(self)@.subs[k], nv, cap);
            }
            assert forall|k: int, l: int|
                0 <= k < l < self@.subs.len() implies self@.subs[k].id != self@.subs[l].id by {
                lemma_publish_one_wf(old(self)@.subs[k], nv, cap);
                lemma_publish_one_wf(old(self)@.subs[l], nv, cap);
            }
        }
    }

    /// The periodic liveness probe: sends a heartbeat to every
    /// subscription, non-blocking and best-effort like a publish, and
    /// removes from membership exactly those whose heartbeat send failed —
    /// consumers that vanished, and queues that are full to the brim.
    #[verifier::loop_isolation(false)]
    pub fn sweep(&mut self)
        requires
            old(self).wf(),
        ensures
            final(self).wf(),
            final(self)@.next_id == old(self)@.next_id,
            final(self)@.capacity == old(self)@.capacity,
            final(self)@.subs == sweep_result(old(self)@.subs, old(self)@.capacity),
    {
        let ghost cap = self@.capacity;
        let ghost orig = self@.subs;
        let capacity = self.capacity;
        let count = self.subs.len();
        let mut kept: Vec<Subscription> = Vec::new();
        let mut i: usize = 0;
        proof {
            assert(orig.take(0) =~= Seq::<SubscriptionView>::empty());
            assert(kept@.map_values(|s: Subscription| s@) =~= Seq::<SubscriptionView>::empty());
        }
        while i < count
            invariant
                count == self.subs.len(),
                i <= count,
                capacity == self@.capacity,
                self@ == old(self)@,
                orig == old(self)@.subs,
                cap == old(self)@.capacity,
                kept@.map_values(|s: Subscription| s@) == sweep_result(orig.take(i as int), cap),
            decreases count - i,
        {
            let ghost kept0 = kept@.map_values(|s: Subscription| s@);
            let sub = &self.subs[i];
            if sub.consumer_open && sub.queue.len() < capacity {
                let mut s = Subscription {
                    id: sub.id,
                    queue: clone_queue(&sub.queue),
                    consumer_open: sub.consumer_open,
                    live: sub.live,
                    accepted: Ghost(sub.accepted@),
                    observed: Ghost(sub.observed@),
                };
                s.queue.push(Notification::Heartbeat);
                s.accepted = Ghost(s.accepted@.push(NotificationView::Heartbeat));
                proof {
                    assert(s@.queue =~= orig[i as int].queue.push(NotificationView::Heartbeat));
                    assert(s@ == with_heartbeat(orig[i as int]));
                }
                kept.push(s);
                proof {
                    assert(kept@.map_values(|t: Subscription| t@) =~= kept0.push(
                        with_heartbeat(orig[i as int]),
                    ));
                }
            }
            proof {
                assert(orig.take(i + 1).drop_last() =~= orig.take(i as int));
                assert(orig.take(i + 1).last() == orig[i as int]);
                assert(kept@.map_values(|t: Subscription| t@) =~= sweep_result(
                    orig.take(i + 1),
                    cap,
                ));
            }
            i += 1;
        }
        proof {
            assert(orig.take(count as int) =~= orig);
        }
        self.subs = kept;
        proof {
            lemma_sweep_result_wf(orig, cap);
            assert(self@.subs == sweep_result(orig, cap));
            assert forall|k: int| 0 <= k < self@.subs.len() implies (#[trigger] self@.subs[k]).id
                < self@.next_id by {
                let i = choose|i: int|
                    0 <= i < orig.len() && sweep_result(orig, cap)[k].id == orig[i].id;
                assert(old(self)@.subs[i].id < old(self)@.next_id);
            }
        }
    }
}

/// Copies a queue of notifications, preserving its mathematical content.
#[verifier::loop_isolation(false)]
fn clone_queue(q: &Vec<Notification>) -> (r: Vec<Notification>)
    ensures
        r@.map_values(|n: Notification| n@) == q@.map_values(|n: Notification| n@),
{
    let mut r: Vec<Notification> = Vec::new();
    let mut i: usize = 0;
    while i < q.len()
        invariant
            i <= q.len(),
            r@.map_values(|n: Notification| n@) == q@.map_values(|n: Notification| n@).take(
                i as int,
            ),
        decreases q.len() - i,
    {
        let ghost r0 = r@.map_values(|n: Notification| n@);
        let item = match &q[i] {
            Notification::Change(e) => Notification::Change(
                ChangeEvent { kind: e.kind, path: e.path.clone() },
            ),
            Notification::Heartbeat => Notification::Heartbeat,
        };
        proof {
            assert(item@ == q@.map_values(|n: Notification| n@)[i as int]);
        }
        r.push(item);
        proof {
            assert(r@.map_values(|n: Notification| n@) =~= r0.push(item@));
            assert(r@.map_values(|n: Notification| n@) =~= q@.map_values(
                |n: Notification| n@,
            ).take(i + 1));
        }
        i += 1;
    }
    proof {
        assert(q@.map_values(|n: Notification| n@).take(q@.len() as int) =~= q@.map_values(
            |n: Notification| n@,
        ));
    }
    r
}

impl Client {
    /// One non-blocking poll of this subscription's queue: the next pending
    /// notification in publish order, `Pending` when the queue is empty but
    /// the subscription is still registered, and `Closed` once the hub has
    /// pruned it.
    #[verifier::loop_isolation(false)]
    pub fn poll_next(&self, hub: &mut ChangeBroadcaster) -> (r: PollNext)
        requires
            old(hub).wf(),
        ensures
            final(hub).wf(),
            final(hub)@.next_id == old(hub)@.next_id,
            final(hub)@.capacity == old(hub)@.capacity,
            (forall|j: int|
                0 <= j < old(hub)@.subs.len() ==> (#[trigger] old(hub)@.subs[j]).id != self@) ==> (r
                is Closed && final(hub)@ == old(hub)@),
            forall|j: int|
                0 <= j < old(hub)@.subs.len() && (#[trigger] old(hub)@.subs[j]).id == self@ ==> {
                    let s = old(hub)@.subs[j];
                    if s.queue.len() == 0 {
                        r is Pending && final(hub)@ == old(hub)@
                    } else {
                        &&& (r matches PollNext::Ready(n) && n@ == s.queue[0])
                        &&& final(hub)@.subs == old(hub)@.subs.update(
                            j,
                            SubscriptionView {
                                queue: s.queue.drop_first(),
                                observed: s.observed.push(s.queue[0]),
                                ..s
                            },
                        )
                    }
                },
    {
        let count = hub.subs.len();
        let mut i: usize = 0;
        while i < count
            invariant
                count == hub.subs.len(),
                i <= count,
                hub@ == old(hub)@,
                forall|j: int| 0 <= j < i ==> (#[trigger] hub@.subs[j]).id != self.id,
            decreases count - i,
        {
            if hub.subs[i].id == self.id {
                let ghost s = old(hub)@.subs[i as int];
                let sub = &mut hub.subs[i];
                if sub.queue.len() == 0 {
                    proof {
                        assert(hub@ =~= old(hub)@);
                        assert(forall|j: int|
                            0 <= j < old(hub)@.subs.len() && (#[trigger] old(hub)@.subs[j]).id
                                == self@ ==> j == i);
                    }
                    return PollNext::Pending;
                }
                let item = sub.queue.remove(0);
                sub.observed = Ghost(sub.observed@.push(item@));
                proof {
                    assert(sub@.queue =~= s.queue.drop_first());
                    assert(item@ == s.queue[0]);
                    assert(s.queue[0] == s.accepted[s.observed.len() as int]);
                    assert(sub@.observed =~= s.accepted.take(s.observed.len() as int + 1));
                    assert(sub@.queue =~= s.accepted.skip(s.observed.len() as int + 1));
                    assert(sub_wf(sub@, old(hub)@.capacity));
                }
                let result = PollNext::Ready(item);
                proof {
                    assert(hub@.subs =~= old(hub)@.subs.update(
                        i as int,
                        SubscriptionView {
                            queue: s.queue.drop_first(),
                            observed: s.observed.push(s.queue[0]),
                            ..s
                        },
                    ));
                    assert(forall|j: int|
                        0 <= j < old(hub)@.subs.len() && (#[trigger] old(hub)@.subs[j]).id == self@
                            ==> j == i);
                    assert(hub.wf());
                }
                return result;
            }
            i += 1;
        }
        PollNext::Closed
    }

    /// Detaches the consumer side, as closing the client connection does.
    /// The subscription stays in membership until a send attempt or the
    /// next sweep notices; its queue keeps what it already accepted.
    #[verifier::loop_isolation(false)]
    pub fn disconnect(&self, hub: &mut ChangeBroadcaster)
        requires
            old(hub).wf(),
        ensures
            final(hub).wf(),
            final(hub)@.next_id == old(hub)@.next_id,
            final(hub)@.capacity == old(hub)@.capacity,
            (forall|j: int|
                0 <= j < old(hub)@.subs.len() ==> (#[trigger] old(hub)@.subs[j]).id != self@)
                ==> final(hub)@ == old(hub)@,
            forall|j: int|
                0 <= j < old(hub)@.subs.len() && (#[trigger] old(hub)@.subs[j]).id == self@
                    ==> final(hub)@.subs == old(hub)@.subs.update(
                    j,
                    SubscriptionView {
                        consumer_open: false,
                        live: false,
                        ..old(hub)@.subs[j]
                    },
                ),
    {
        let count = hub.subs.len();
        let mut i: usize = 0;
        while i < count
            invariant
                count == hub.subs.len(),
                i <= count,
                hub@ == old(hub)@,
                forall|j: int| 0 <= j < i ==> (#[trigger] hub@.subs[j]).id != self.id,
            decreases count - i,
        {
            if hub.subs[i].id == self.id {
                let ghost s = old(hub)@.subs[i as int];
                let sub = &mut hub.subs[i];
                sub.consumer_open = false;
                sub.live = false;
                proof {
                    assert(hub@.subs =~= old(hub)@.subs.update(
                        i as int,
                        SubscriptionView { consumer_open: false, live: false, ..s },
                    ));
                    assert(forall|j: int|
                        0 <= j < old(hub)@.subs.len() && (#[trigger] old(hub)@.subs[j]).id == self@
                            ==> j == i);
                    assert(hub.wf());
                }
                return ;
            }
            i += 1;
        }
    }
}


/// Law (isolation): a publish that finds subscription `a`'s queue full —
/// so the event is dropped for `a` — still appends the very same event to
/// any other subscription `b` that has a consumer and room in its queue.
/// `a` neither delays nor loses `b`'s copy.
pub proof fn lemma_publish_isolation(
    subs: Seq<SubscriptionView>,
    n: NotificationView,
    cap: nat,
    a: int,
    b: int,
)
    requires
        0 <= a < subs.len(),
        0 <= b < subs.len(),
        a != b,
        subs[a].queue.len() >= cap,
        subs[b].consumer_open,
        subs[b].queue.len() < cap,
    ensures
        publish_all(subs, n, cap)[a].queue == subs[a].queue,
        publish_all(subs, n, cap)[b].queue == subs[b].queue.push(n),
{
    assert(publish_all(subs, n, cap)[a] == publish_one(subs[a], n, cap));
    assert(publish_all(subs, n, cap)[b] == publish_one(subs[b], n, cap));
}

/// A sweep that finds every subscription willing keeps them all, in order,
/// each with the heartbeat enqueued.
proof fn lemma_sweep_all_kept(subs: Seq<SubscriptionView>, cap: nat)
    requires
        forall|i: int| 0 <= i < subs.len() ==> sweep_keeps(#[trigger] subs[i], cap),
    ensures
        sweep_result(subs, cap) == subs.map_values(|s: SubscriptionView| with_heartbeat(s)),
    decreases subs.len(),
{
    if subs.len() == 0 {
        assert(sweep_result(subs, cap) =~= subs.map_values(
            |s: SubscriptionView| with_heartbeat(s),
        ));
    } else {
        let rest = subs.drop_last();
        assert(forall|i: int| 0 <= i < rest.len() ==> sweep_keeps(#[trigger] rest[i], cap));
        lemma_sweep_all_kept(rest, cap);
        assert(sweep_result(subs, cap) =~= subs.map_values(
            |s: SubscriptionView| with_heartbeat(s),
        ));
    }
}

/// Law (liveness pruning): when subscription `k`'s consumer is gone and
/// every other subscription still accepts a heartbeat, the next sweep
/// removes exactly `k`: membership shrinks by one, and the survivors are
/// the other subscriptions, in their old order, each with the heartbeat
/// enqueued.
pub proof fn lemma_sweep_prunes_dropped_consumer(subs: Seq<SubscriptionView>, cap: nat, k: int)
    requires
        0 <= k < subs.len(),
        !subs[k].consumer_open,
        forall|i: int| 0 <= i < subs.len() && i != k ==> sweep_keeps(#[trigger] subs[i], cap),
    ensures
        sweep_result(subs, cap).len() == subs.len() - 1,
        sweep_result(subs, cap) == subs.remove(k).map_values(
            |s: SubscriptionView| with_heartbeat(s),
        ),
    decreases subs.len(),
{
    let f = |s: SubscriptionView| with_heartbeat(s);
    if k == subs.len() - 1 {
        assert(subs.remove(k) =~= subs.drop_last());
        lemma_sweep_all_kept(subs.drop_last(), cap);
    } else {
        let rest = subs.drop_last();
        lemma_sweep_prunes_dropped_consumer(rest, cap, k);
        assert(sweep_keeps(subs.last(), cap));
        assert(sweep_result(subs, cap) == sweep_result(rest, cap).push(f(subs.last())));
        assert(subs.remove(k).drop_last() =~= rest.remove(k));
        assert(subs.remove(k).last() == subs.last());
        assert(subs.remove(k) =~= rest.remove(k).push(subs.last()));
        assert(subs.remove(k).map_values(f) =~= rest.remove(k).map_values(f).push(
            f(subs.last()),
        ));
    }
}

/// Law (ordering): under the subscription invariant, what the consumer has
/// observed is exactly the prefix, in order, of what the hub enqueued for
/// it: a subscription that never drops sees the published sequence in
/// publish order.
pub proof fn lemma_subscription_ordering(s: SubscriptionView, cap: nat)
    requires
        sub_wf(s, cap),
    ensures
        s.observed == s.accepted.take(s.observed.len() as int),
        forall|j: int| 0 <= j < s.observed.len() ==> s.observed[j] == s.accepted[j],
{
    assert forall|j: int| 0 <= j < s.observed.len() implies s.observed[j] == s.accepted[j] by {
        assert(s.observed[j] == s.accepted.take(s.observed.len() as int)[j]);
    }
}

} // verus!
