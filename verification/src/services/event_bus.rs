//! Publish and subscribe: from users to the channels their events go through.
//!
//! The bus keeps account of what it hands to which channel. Whether a channel
//! takes what it is handed is the channel's affair, and is reported.

use crate::domain::events::{Event, EventView};
use crate::domain::model::views;
use crate::domain::user::{User, UserView};
use crate::services::broadcast::Broadcast;
use crate::trusted::channel_send;
use futures_channel::mpsc::UnboundedSender;
use vstd::prelude::*;

verus! {

/// Why a subscription could not be made or ended.
#[derive(Clone, Copy, Debug, PartialEq, Eq, Structural)]
pub enum BusError {
    /// The user already had a subscription.
    DoubleSubscription,
    /// The user had no subscription.
    NotSubscribed,
}

/// What became of an event on its way to one recipient.
#[derive(Clone, Copy, Debug, PartialEq, Eq, Structural)]
pub enum Delivery {
    /// The event was queued on the recipient's channel.
    Sent,
    /// The recipient's channel was closed; the event was dropped.
    Closed,
    /// The recipient has no subscription; nothing was sent.
    NotSubscribed,
}

/// One subscription.
struct Subscription {
    user: User,
    sink: UnboundedSender<Event>,
}

/// An event as it was handed to a channel.
pub struct Handoff {
    pub sink: UnboundedSender<Event>,
    pub event: EventView,
}

/// What publishing an event to some recipients hands to which channel, in
/// order: the event to the channel of each recipient that has one, in the order
/// of the recipients, once for each time a recipient is named.
pub open spec fn handoffs(
    sinks: Map<UserView, UnboundedSender<Event>>,
    event: EventView,
    recipients: Seq<UserView>,
) -> Seq<Handoff>
    decreases recipients.len(),
{
    if recipients.len() == 0 {
        Seq::empty()
    } else {
        handoffs(sinks, event, recipients.drop_last()) + (if sinks.contains_key(
            recipients.last(),
        ) {
            seq![Handoff { sink: sinks[recipients.last()], event }]
        } else {
            Seq::empty()
        })
    }
}

/// The subscriptions of the application. Its model is the channel of each
/// subscribed user.
pub struct EventBus {
    subscribers: Vec<Subscription>,
    /// What was handed to which channel so far, in order.
    handed: Ghost<Seq<Handoff>>,
}

/// Whether some subscription of a list is the user's.
spec fn listed(subscribers: Seq<Subscription>, user: UserView) -> bool {
    exists|i: int| 0 <= i < subscribers.len() && #[trigger] subscribers[i].user@ == user
}

/// Where in a list the user's subscription stands.
spec fn slot(subscribers: Seq<Subscription>, user: UserView) -> int {
    choose|i: int| 0 <= i < subscribers.len() && #[trigger] subscribers[i].user@ == user
}

/// No user has two subscriptions in a list.
spec fn distinct(subscribers: Seq<Subscription>) -> bool {
    forall|i: int, j: int|
        0 <= i < j < subscribers.len() ==> #[trigger] subscribers[i].user@
            != #[trigger] subscribers[j].user@
}

/// The channel of each user of a list.
spec fn sinks_of(subscribers: Seq<Subscription>) -> Map<UserView, UnboundedSender<Event>> {
    Map::new(
        |user: UserView| listed(subscribers, user),
        |user: UserView| subscribers[slot(subscribers, user)].sink,
    )
}

/// In a list without doubles a subscription stands where its user is found.
proof fn lemma_slot(subscribers: Seq<Subscription>, i: int)
    requires
        distinct(subscribers),
        0 <= i < subscribers.len(),
    ensures
        listed(subscribers, subscribers[i].user@),
        slot(subscribers, subscribers[i].user@) == i,
{
    let k = slot(subscribers, subscribers[i].user@);
    if k < i {
        assert(subscribers[k].user@ != subscribers[i].user@);
    } else if i < k {
        assert(subscribers[i].user@ != subscribers[k].user@);
    }
}

impl View for EventBus {
    type V = Map<UserView, UnboundedSender<Event>>;

    closed spec fn view(&self) -> Map<UserView, UnboundedSender<Event>> {
        sinks_of(self.subscribers@)
    }
}

impl EventBus {
    /// What always holds of a bus: no user has two subscriptions.
    pub closed spec fn wf(&self) -> bool {
        distinct(self.subscribers@)
    }

    /// What the bus has handed to which channel, in order.
    pub closed spec fn handed(&self) -> Seq<Handoff> {
        self.handed@
    }

    /// A bus without subscriptions, which has handed on nothing yet.
    pub fn new() -> (bus: EventBus)
        ensures
            bus@ == Map::<UserView, UnboundedSender<Event>>::empty(),
            bus.handed() == Seq::<Handoff>::empty(),
            bus.wf(),
    {
        let bus = EventBus { subscribers: Vec::new(), handed: Ghost(Seq::empty()) };
        assert(bus@ =~= Map::<UserView, UnboundedSender<Event>>::empty());
        bus
    }

    /// Where the user's subscription stands.
    fn find(&self, user: &User) -> (found: Option<usize>)
        ensures
            match found {
                Some(i) => {
                    &&& i < self.subscribers@.len()
                    &&& self.subscribers@[i as int].user@ == user@
                },
                None => !self@.contains_key(user@),
            },
            found is Some <==> self@.contains_key(user@),
    {
        let mut i: usize = 0;
        while i < self.subscribers.len()
            invariant
                i <= self.subscribers.len(),
                forall|j: int| 0 <= j < i ==> self.subscribers@[j].user@ != user@,
            decreases self.subscribers.len() - i,
        {
            if self.subscribers[i].user == *user {
                assert(listed(self.subscribers@, user@));
                return Some(i);
            }
            i = i + 1;
        }
        None
    }

    /// Whether the user has a subscription.
    pub fn is_subscribed(&self, user: &User) -> (subscribed: bool)
        ensures
            subscribed == self@.contains_key(user@),
    {
        self.find(user).is_some()
    }

    /// Registers the channel as the user's. A user that already has a
    /// subscription is refused: the bus stays as it is, the earlier channel in
    /// place.
    pub fn subscribe(&mut self, user: User, delivery_channel: UnboundedSender<Event>) -> (done:
        Result<(), BusError>)
        requires
            old(self).wf(),
        ensures
            final(self).wf(),
            final(self).handed() == old(self).handed(),
            match done {
                Ok(_) => {
                    &&& !old(self)@.contains_key(user@)
                    &&& final(self)@ == old(self)@.insert(user@, delivery_channel)
                },
                Err(e) => {
                    &&& e == BusError::DoubleSubscription
                    &&& old(self)@.contains_key(user@)
                    &&& *final(self) == *old(self)
                },
            },
    {
        match self.find(&user) {
            Some(_) => Err(BusError::DoubleSubscription),
            None => {
                let ghost user_view = user@;
                self.subscribers.push(Subscription { user, sink: delivery_channel });
                proof {
                    let was = old(self).subscribers@;
                    let now = self.subscribers@;
                    let last = now.len() - 1;
                    assert(now[last].user@ == user_view);
                    assert forall|a: int, b: int|
                        0 <= a < b < now.len() implies #[trigger] now[a].user@
                        != #[trigger] now[b].user@ by {
                        if b == last {
                            if was[a].user@ == user_view {
                                assert(listed(was, user_view));
                            }
                        } else {
                            assert(was[a].user@ != was[b].user@);
                        }
                    }
                    lemma_slot(now, last);
                    let wanted = old(self)@.insert(user_view, delivery_channel);
                    assert forall|u: UserView| #[trigger]
                        self@.contains_key(u) <==> wanted.contains_key(u) by {
                        if listed(now, u) && u != user_view {
                            let k = slot(now, u);
                            assert(was[k].user@ == u);
                        }
                        if listed(was, u) {
                            let k = slot(was, u);
                            assert(now[k].user@ == u);
                        }
                    }
                    assert forall|u: UserView| #[trigger] self@.contains_key(u) implies self@[u]
                        == wanted[u] by {
                        if u != user_view {
                            let k = slot(was, u);
                            assert(now[k] == was[k]);
                            lemma_slot(now, k);
                        }
                    }
                    assert(self@ =~= wanted);
                }
                Ok(())
            },
        }
    }

    /// Ends the user's subscription, and reports a user that had none. The
    /// other subscriptions stay as they are.
    pub fn unsubscribe(&mut self, user: User) -> (done: Result<(), BusError>)
        requires
            old(self).wf(),
        ensures
            final(self).wf(),
            final(self).handed() == old(self).handed(),
            final(self)@ == old(self)@.remove(user@),
            match done {
                Ok(_) => old(self)@.contains_key(user@),
                Err(e) => e == BusError::NotSubscribed && !old(self)@.contains_key(user@),
            },
    {
        match self.find(&user) {
            Some(i) => {
                self.subscribers.remove(i);
                proof {
                    let before = old(self).subscribers@;
                    let after = self.subscribers@;
                    assert(after == before.remove(i as int));
                    assert forall|a: int, b: int|
                        0 <= a < b < after.len() implies #[trigger] after[a].user@
                        != #[trigger] after[b].user@ by {
                        let a0 = if a < i { a } else { a + 1 };
                        let b0 = if b < i { b } else { b + 1 };
                        assert(after[a] == before[a0]);
                        assert(after[b] == before[b0]);
                        assert(before[a0].user@ != before[b0].user@);
                    }
                    let wanted = old(self)@.remove(user@);
                    assert forall|u: UserView| #[trigger]
                        self@.contains_key(u) <==> wanted.contains_key(u) by {
                        if listed(after, u) {
                            let k = slot(after, u);
                            let k0 = if k < i { k } else { k + 1 };
                            assert(after[k] == before[k0]);
                            assert(before[k0].user@ == u);
                            if u == user@ {
                                if k0 < i {
                                    assert(before[k0].user@ != before[i as int].user@);
                                } else {
                                    assert(before[i as int].user@ != before[k0].user@);
                                }
                            }
                        }
                        if listed(before, u) && u != user@ {
                            let k = slot(before, u);
                            let k1 = if k < i { k } else { k - 1 };
                            assert(after[k1] == before[k]);
                            assert(after[k1].user@ == u);
                        }
                    }
                    assert forall|u: UserView| #[trigger] self@.contains_key(u) implies self@[u]
                        == wanted[u] by {
                        let k = slot(after, u);
                        let k0 = if k < i { k } else { k + 1 };
                        assert(after[k] == before[k0]);
                        lemma_slot(after, k);
                        lemma_slot(before, k0);
                    }
                    assert(self@ =~= wanted);
                }
                Ok(())
            },
            None => {
                assert(self@ =~= old(self)@.remove(user@));
                Err(BusError::NotSubscribed)
            },
        }
    }

    /// Hands an event to the channel of the subscription at a place, and says
    /// whether the channel took it.
    fn hand_on(&mut self, i: usize, event: Event) -> (taken: bool)
        requires
            i < old(self).subscribers@.len(),
        ensures
            final(self).subscribers == old(self).subscribers,
            final(self).handed@ == old(self).handed@.push(
                Handoff { sink: old(self).subscribers@[i as int].sink, event: event@ },
            ),
    {
        self.handed = Ghost(
            self.handed@.push(Handoff { sink: self.subscribers@[i as int].sink, event: event@ }),
        );
        channel_send(&self.subscribers[i].sink, event)
    }

    /// Publishes an event: hands a copy of it to the channel of each recipient
    /// that has a subscription, to that recipient's own channel and to no other,
    /// in the order of the list, and reports for each recipient what became of
    /// it. An event whose channel is closed is dropped, and the recipients after
    /// it are served all the same. The subscriptions stay as they are.
    pub fn publish(&mut self, broadcast: &Broadcast) -> (report: Vec<Delivery>)
        requires
            old(self).wf(),
        ensures
            final(self).wf(),
            final(self)@ == old(self)@,
            final(self).handed() == old(self).handed() + handoffs(
                old(self)@,
                broadcast@.event,
                broadcast@.subscribers,
            ),
            report@.len() == broadcast.subscribers@.len(),
            forall|r: int|
                0 <= r < report@.len() ==> (#[trigger] report@[r] == Delivery::NotSubscribed
                    <==> !old(self)@.contains_key(broadcast@.subscribers[r])),
    {
        let mut report: Vec<Delivery> = Vec::new();
        let mut r: usize = 0;
        proof {
            assert(broadcast@.subscribers.take(0) =~= Seq::empty());
            assert(self.handed() + Seq::<Handoff>::empty() =~= self.handed());
        }
        while r < broadcast.subscribers.len()
            invariant
                r <= broadcast.subscribers.len(),
                self.subscribers == old(self).subscribers,
                self.wf(),
                self.handed() == old(self).handed() + handoffs(
                    old(self)@,
                    broadcast@.event,
                    broadcast@.subscribers.take(r as int),
                ),
                report@.len() == r,
                forall|q: int|
                    0 <= q < r ==> (#[trigger] report@[q] == Delivery::NotSubscribed
                        <==> !old(self)@.contains_key(views(broadcast.subscribers@)[q])),
            decreases broadcast.subscribers.len() - r,
        {
            let ghost recipient = broadcast.subscribers@[r as int]@;
            let ghost before = self.handed();
            let outcome = match self.find(&broadcast.subscribers[r]) {
                Some(i) => {
                    proof {
                        lemma_slot(self.subscribers@, i as int);
                    }
                    if self.hand_on(i, broadcast.event.clone()) {
                        Delivery::Sent
                    } else {
                        Delivery::Closed
                    }
                },
                None => Delivery::NotSubscribed,
            };
            proof {
                let done = broadcast@.subscribers.take(r as int);
                let next = broadcast@.subscribers.take(r + 1);
                assert(next.drop_last() =~= done);
                assert(next.last() == recipient);
                let more = if old(self)@.contains_key(recipient) {
                    seq![Handoff { sink: old(self)@[recipient], event: broadcast@.event }]
                } else {
                    Seq::<Handoff>::empty()
                };
                assert(self.handed() =~= before + more);
                assert(self.handed() =~= old(self).handed() + handoffs(
                    old(self)@,
                    broadcast@.event,
                    next,
                ));
            }
            report.push(outcome);
            r = r + 1;
        }
        proof {
            assert(broadcast@.subscribers.take(broadcast@.subscribers.len() as int)
                =~= broadcast@.subscribers);
        }
        report
    }
}

} // verus!
