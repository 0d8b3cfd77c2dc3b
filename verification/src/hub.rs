//! Watch/broadcast hub: one producer fans filesystem-change notices out to
//! many subscribers, each behind its own bounded queue.  A subscription is
//! single-use: its first delivered notice consumes it.

use vstd::prelude::*;

verus! {

/// The notice a subscriber receives: the watched tree changed, or the
/// server is going down.
#[derive(Clone, Copy, Debug, PartialEq, Eq, Structural)]
pub enum Event {
    Reload,
    Shutdown,
}

/// The kind of a raw filesystem notification, as the OS watcher reports it.
#[derive(Clone, Copy, Debug, PartialEq, Eq, Structural)]
pub enum ChangeKind {
    Create,
    Modify,
    Remove,
    Access,
    Any,
    Other,
}

/// Only creations, modifications and removals reach the subscribers; access
/// notifications and unclassified noise are filtered out.
pub open spec fn spec_should_broadcast(k: ChangeKind) -> bool {
    k == ChangeKind::Create || k == ChangeKind::Modify || k == ChangeKind::Remove
}

/// Decide whether a raw filesystem notification is broadcast.
pub fn should_broadcast(k: ChangeKind) -> (r: bool)
    ensures
        r == spec_should_broadcast(k),
{
    match k {
        ChangeKind::Create => true,
        ChangeKind::Modify => true,
        ChangeKind::Remove => true,
        ChangeKind::Access => false,
        ChangeKind::Any => false,
        ChangeKind::Other => false,
    }
}

/// One subscriber's side of the hub: its pending notices, oldest first, and
/// whether the subscription is still live.
pub struct Subscriber {
    /// Notices delivered but not yet received, oldest first.
    pub events: Vec<Event>,
    /// A subscription is open until its first received notice (or an
    /// explicit close) consumes it.
    pub open: bool,
}

/// The mathematical value of a `Subscriber`.
pub ghost struct SubModel {
    pub events: Seq<Event>,
    pub open: bool,
}

impl View for Subscriber {
    type V = SubModel;

    open spec fn view(&self) -> SubModel {
        SubModel { events: self.events@, open: self.open }
    }
}

/// The mathematical value of a `Hub`: every subscriber's state, and the
/// queue bound they share.
pub ghost struct HubModel {
    pub subs: Seq<SubModel>,
    pub capacity: nat,
}

/// The fan-out registry: a queue per subscriber behind one synchronization
/// point (the caller's lock), plus the bound every queue was created with.
pub struct Hub {
    queues: Vec<Subscriber>,
    capacity: usize,
}

/// How a publish affects one subscriber: an open queue with room gains the
/// notice at its tail; a full or closed queue is left alone, so one slow
/// subscriber never affects the others.
pub open spec fn spec_publish_one(q: SubModel, ev: Event, cap: nat) -> SubModel {
    if q.open && q.events.len() < cap {
        SubModel { events: q.events.push(ev), open: q.open }
    } else {
        q
    }
}

/// How a publish affects the whole hub.
pub open spec fn spec_publish(h: HubModel, ev: Event) -> HubModel {
    HubModel {
        subs: Seq::new(h.subs.len(), |i: int| spec_publish_one(h.subs[i], ev, h.capacity)),
        capacity: h.capacity,
    }
}

/// How a receive affects the hub: the oldest pending notice of an open
/// queue is handed out and consumes the subscription; an open but empty
/// queue answers nothing and stays subscribed; a closed queue answers
/// nothing, forever.
pub open spec fn spec_recv(h: HubModel, id: int) -> (HubModel, Option<Event>) {
    let q = h.subs[id];
    if q.open && q.events.len() > 0 {
        (
            HubModel {
                subs: h.subs.update(id, SubModel { events: Seq::empty(), open: false }),
                capacity: h.capacity,
            },
            Some(q.events[0]),
        )
    } else {
        (h, None)
    }
}

impl Hub {
    /// A hub with no subscribers yet; every later queue is bounded by
    /// `capacity`.
    pub fn new(capacity: usize) -> (h: Hub)
        requires
            capacity >= 1,
        ensures
            h@.subs.len() == 0,
            h@.capacity == capacity,
    {
        Hub { queues: Vec::new(), capacity }
    }

    pub closed spec fn view(&self) -> HubModel {
        HubModel {
            subs: self.queues@.map_values(|q: Subscriber| q@),
            capacity: self.capacity as nat,
        }
    }

    /// Register a new subscriber and return its handle.  The new queue is
    /// empty: a subscription observes only notices published after its
    /// creation, never history.
    pub fn subscribe(&mut self) -> (id: usize)
        ensures
            id == old(self)@.subs.len(),
            final(self)@.subs == old(self)@.subs.push(SubModel { events: Seq::empty(), open: true }),
            final(self)@.capacity == old(self)@.capacity,
    {
        let id = self.queues.len();
        self.queues.push(Subscriber { events: Vec::new(), open: true });
        proof {
            assert(self@.subs =~= old(self)@.subs.push(
                SubModel { events: Seq::empty(), open: true },
            ));
        }
        id
    }

    /// Broadcast one notice to every subscriber, per `spec_publish`: the
    /// publisher never waits for anyone, and a full queue only costs that
    /// one subscriber the notice.
    pub fn publish(&mut self, ev: Event)
        ensures
            final(self)@ == spec_publish(old(self)@, ev),
    {
        let n = self.queues.len();
        let mut i: usize = 0;
        while i < n
            invariant
                n == self.queues@.len(),
                n == old(self)@.subs.len(),
                self.capacity == old(self).capacity,
                0 <= i <= n,
                forall|j: int|
                    #![trigger self.queues@[j]]
                    0 <= j < i ==> self.queues@[j]@ == spec_publish_one(
                        old(self)@.subs[j],
                        ev,
                        old(self)@.capacity,
                    ),
                forall|j: int|
                    #![trigger self.queues@[j]]
                    i <= j < n ==> self.queues@[j] == old(self).queues@[j],
            decreases n - i,
        {
            if self.queues[i].open && self.queues[i].events.len() < self.capacity {
                self.queues[i].events.push(ev);
            }
            i = i + 1;
        }
        proof {
            assert(self@.subs =~= spec_publish(old(self)@, ev).subs);
        }
    }

    /// Receive at most one notice for the given subscription, per
    /// `spec_recv`.  `None` means nothing is pending (poll again) or the
    /// subscription is already consumed.
    pub fn recv_one(&mut self, id: usize) -> (r: Option<Event>)
        requires
            id < old(self)@.subs.len(),
        ensures
            final(self)@ == spec_recv(old(self)@, id as int).0,
            r == spec_recv(old(self)@, id as int).1,
    {
        if self.queues[id].open && self.queues[id].events.len() > 0 {
            let ev = self.queues[id].events[0];
            self.queues[id].open = false;
            self.queues[id].events.clear();
            proof {
                assert(self@.subs =~= spec_recv(old(self)@, id as int).0.subs);
            }
            Some(ev)
        } else {
            proof {
                assert(self@.subs =~= old(self)@.subs);
            }
            None
        }
    }

    /// Abandon a subscription (the client went away before any notice):
    /// the queue is closed and later publishes skip it.
    pub fn close(&mut self, id: usize)
        requires
            id < old(self)@.subs.len(),
        ensures
            final(self)@.subs == old(self)@.subs.update(
                id as int,
                SubModel { events: Seq::empty(), open: false },
            ),
            final(self)@.capacity == old(self)@.capacity,
    {
        self.queues[id].open = false;
        self.queues[id].events.clear();
        proof {
            assert(self@.subs =~= old(self)@.subs.update(
                id as int,
                SubModel { events: Seq::empty(), open: false },
            ));
        }
    }

    /// How many subscribers have ever registered.
    pub fn subscriber_count(&self) -> (n: usize)
        ensures
            n == self@.subs.len(),
    {
        self.queues.len()
    }
}

/// Fan-out law: a published notice reaches every subscriber whose queue is
/// open and has room, appended in publish order, and such a subscriber then
/// receives a notice; a full or closed queue is left exactly as it was, and
/// no other subscriber is affected either way.
pub proof fn lemma_publish_fanout(h: HubModel, ev: Event, i: int)
    requires
        0 <= i < h.subs.len(),
    ensures
        h.subs[i].open && h.subs[i].events.len() < h.capacity ==> spec_publish(h, ev).subs[i]
            == (SubModel { events: h.subs[i].events.push(ev), open: true }),
        h.subs[i].open && h.subs[i].events.len() < h.capacity ==> spec_recv(
            spec_publish(h, ev),
            i,
        ).1 is Some,
        h.subs[i].open && h.subs[i].events.len() == 0 && h.capacity >= 1 ==> spec_recv(
            spec_publish(h, ev),
            i,
        ).1 == Some(ev),
        !(h.subs[i].open && h.subs[i].events.len() < h.capacity) ==> spec_publish(h, ev).subs[i]
            == h.subs[i],
{
}

/// One-shot law: a subscriber that registers and then sees one broadcast
/// notice receives exactly that notice; receiving consumes the
/// subscription, and a second publish after that has no effect on it.
pub proof fn lemma_one_shot(h0: HubModel, ev1: Event, ev2: Event)
    requires
        h0.capacity >= 1,
    ensures
        ({
            let id = h0.subs.len() as int;
            let h1 = HubModel {
                subs: h0.subs.push(SubModel { events: Seq::empty(), open: true }),
                capacity: h0.capacity,
            };
            let h2 = spec_publish(h1, ev1);
            let (h3, got) = spec_recv(h2, id);
            got == Some(ev1) && !h3.subs[id].open && spec_publish(h3, ev2).subs[id] == h3.subs[id]
        }),
{
    let id = h0.subs.len() as int;
    let h1 = HubModel {
        subs: h0.subs.push(SubModel { events: Seq::empty(), open: true }),
        capacity: h0.capacity,
    };
    let h2 = spec_publish(h1, ev1);
    assert(h2.subs[id].events =~= seq![ev1]);
}

} // verus!
