//! Events on their way to the sessions they are meant for.

use crate::domain::events::Event;
use crate::domain::model::views;
use crate::domain::user::User;
use crate::services::state_model::BroadcastView;
use vstd::prelude::*;

verus! {

/// An event and the users it is to be delivered to, in delivery order.
#[derive(Debug, PartialEq, Eq)]
pub struct Broadcast {
    pub event: Event,
    pub subscribers: Vec<User>,
}

impl View for Broadcast {
    type V = BroadcastView;

    open spec fn view(&self) -> BroadcastView {
        BroadcastView { event: self.event@, subscribers: views(self.subscribers@) }
    }
}

impl Broadcast {
    /// The event, for the given users.
    pub fn new(event: Event, subscribers: Vec<User>) -> (broadcast: Broadcast)
        ensures
            broadcast.event == event,
            broadcast.subscribers == subscribers,
            broadcast@ == (BroadcastView { event: event@, subscribers: views(subscribers@) }),
    {
        Broadcast { event, subscribers }
    }
}

} // verus!
