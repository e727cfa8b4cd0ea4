//! The rooms of the server: who is in them and what was said.

use crate::domain::chat_log::MessageLog;
use crate::domain::model::{
    bounded_push, first_index, is_first, lemma_first_index_is, lemma_first_index_none,
    lemma_views_bounded_push, lemma_views_push, lemma_views_swap_removed, views,
};
use crate::domain::notification_log::NotificationLog;
use crate::domain::room::{hub_name, Room};
use crate::domain::user::{User, UserView};
use crate::domain::util::{hash, spec_hash};
use crate::services::state_model::{
    lemma_add_user_wf, lemma_record_chat_wf, lemma_record_notification_wf, lemma_remove_user_wf,
    names_of, room_holds, room_named, seat_of, RoomModel, StateModel, MAX_LOGS,
};
use std::collections::VecDeque;
use vstd::prelude::*;

verus! {

/// One room with what it holds.
struct RoomRecord {
    room: Room,
    occupants: Vec<User>,
    chat_log: VecDeque<MessageLog>,
    notifications: VecDeque<NotificationLog>,
}

impl View for RoomRecord {
    type V = RoomModel;

    closed spec fn view(&self) -> RoomModel {
        RoomModel {
            name: self.room@,
            occupants: views(self.occupants@),
            chat_log: views(self.chat_log@),
            notifications: views(self.notifications@),
        }
    }
}

/// The single authoritative record of rooms, occupancy and logs.
pub struct AppState {
    rooms: Vec<RoomRecord>,
}

impl View for AppState {
    type V = StateModel;

    closed spec fn view(&self) -> StateModel {
        StateModel { rooms: views(self.rooms@) }
    }
}

impl AppState {
    /// The state at start: the landing room alone, empty.
    pub fn new() -> (state: AppState)
        ensures
            state@ == StateModel::initial(),
            state@.wf(),
    {
        let hub = RoomRecord {
            room: Room::hub(),
            occupants: Vec::new(),
            chat_log: VecDeque::new(),
            notifications: VecDeque::new(),
        };
        let mut rooms: Vec<RoomRecord> = Vec::new();
        rooms.push(hub);
        proof {
            assert(views(rooms@) =~= seq![RoomModel::fresh(hub_name())]) by {
                assert(rooms@[0]@.occupants =~= Seq::empty());
                assert(rooms@[0]@.chat_log =~= Seq::empty());
                assert(rooms@[0]@.notifications =~= Seq::empty());
            }
            let model = StateModel { rooms: views(rooms@) };
            assert(is_first(room_named(model.rooms, hub_name()), 1, 0));
            lemma_first_index_is(room_named(model.rooms, hub_name()), 1, 0);
        }
        AppState { rooms }
    }

    /// The index of the room with the given name.
    fn find_room(&self, name: &String) -> (found: Option<usize>)
        ensures
            match found {
                Some(i) => self@.find_room(name@) == Some(i as int) && i < self.rooms.len(),
                None => self@.find_room(name@) is None,
            },
    {
        let mut i: usize = 0;
        while i < self.rooms.len()
            invariant
                i <= self.rooms.len(),
                forall|j: int| 0 <= j < i ==> views(self.rooms@)[j].name != name@,
            decreases self.rooms.len() - i,
        {
            if self.rooms[i].room.name == *name {
                proof {
                    let holds = room_named(self@.rooms, name@);
                    assert(is_first(holds, self@.rooms.len() as int, i as int));
                    lemma_first_index_is(holds, self@.rooms.len() as int, i as int);
                }
                return Some(i);
            }
            i = i + 1;
        }
        proof {
            lemma_first_index_none(room_named(self@.rooms, name@), self@.rooms.len() as int);
        }
        None
    }

    /// The index of the first room that lists the user.
    fn occupied_index(&self, user: &User) -> (found: Option<usize>)
        ensures
            match found {
                Some(i) => self@.occupied_room(user@) == Some(i as int) && i < self.rooms.len(),
                None => self@.occupied_room(user@) is None,
            },
    {
        let mut i: usize = 0;
        while i < self.rooms.len()
            invariant
                i <= self.rooms.len(),
                forall|j: int| 0 <= j < i ==> !views(self.rooms@)[j].occupants.contains(user@),
            decreases self.rooms.len() - i,
        {
            if seat(&self.rooms[i].occupants, user).is_some() {
                proof {
                    let holds = room_holds(self@.rooms, user@);
                    assert(is_first(holds, self@.rooms.len() as int, i as int));
                    lemma_first_index_is(holds, self@.rooms.len() as int, i as int);
                }
                return Some(i);
            }
            i = i + 1;
        }
        proof {
            lemma_first_index_none(room_holds(self@.rooms, user@), self@.rooms.len() as int);
        }
        None
    }

    /// The occupants of a room, in list order; none for a room that does not exist.
    pub fn room_subscribers(&self, room: &Room) -> (users: Vec<User>)
        ensures
            views(users@) == self@.occupancy(room@),
    {
        match self.find_room(&room.name) {
            Some(i) => {
                let users = self.rooms[i].occupants.clone();
                assert(users@ =~= self.rooms@[i as int].occupants@);
                users
            },
            None => {
                let users: Vec<User> = Vec::new();
                assert(views(users@) =~= Seq::empty());
                users
            },
        }
    }

    /// The chat log of a room, oldest first; empty for a room that does not exist.
    pub fn room_chat_logs(&self, room: &Room) -> (log: Vec<MessageLog>)
        ensures
            views(log@) == self@.chat_log_of(room@),
    {
        match self.find_room(&room.name) {
            Some(i) => copy_chat_log(&self.rooms[i].chat_log),
            None => {
                let log: Vec<MessageLog> = Vec::new();
                assert(views(log@) =~= Seq::empty());
                log
            },
        }
    }

    /// The notices of a room, oldest first; empty for a room that does not exist.
    pub fn room_notifications(&self, room: &Room) -> (log: Vec<NotificationLog>)
        ensures
            views(log@) == self@.notifications_of(room@),
    {
        match self.find_room(&room.name) {
            Some(i) => copy_notifications(&self.rooms[i].notifications),
            None => {
                let log: Vec<NotificationLog> = Vec::new();
                assert(views(log@) =~= Seq::empty());
                log
            },
        }
    }

    /// The names of a room's occupants, in list order.
    pub fn occupant_names(&self, room: &Room) -> (names: Vec<String>)
        ensures
            views(names@) == names_of(self@.occupancy(room@)),
    {
        let users = self.room_subscribers(room);
        let mut names: Vec<String> = Vec::new();
        let mut i: usize = 0;
        while i < users.len()
            invariant
                i <= users.len(),
                names@.len() == i,
                forall|j: int| 0 <= j < i ==> names@[j]@ == users@[j]@.name,
            decreases users.len() - i,
        {
            names.push(users[i].name.clone());
            i = i + 1;
        }
        assert(views(names@) =~= names_of(views(users@)));
        names
    }

    /// The first room, in creation order, that lists the user.
    pub fn get_occupied_room(&self, user: &User) -> (room: Option<Room>)
        ensures
            match room {
                Some(r) => {
                    &&& self@.occupied_room(user@) is Some
                    &&& r@ == self@.rooms[self@.occupied_room(user@)->0].name
                },
                None => self@.occupied_room(user@) is None,
            },
    {
        match self.occupied_index(user) {
            Some(i) => Some(self.rooms[i].room.clone()),
            None => None,
        }
    }

    /// Appends the user to the room's list, creating the room empty before that
    /// where it does not exist.
    pub fn add_user_to_room(&mut self, user: &User, room: &Room)
        requires
            old(self)@.wf(),
        ensures
            final(self)@ == old(self)@.add_user(user@, room@),
            final(self)@.wf(),
    {
        proof {
            lemma_add_user_wf(self@, user@, room@);
        }
        match self.find_room(&room.name) {
            Some(i) => {
                self.rooms[i].occupants.push(user.clone());
                proof {
                    lemma_views_push(old(self).rooms@[i as int].occupants@, *user);
                    assert(self@.rooms =~= old(self)@.rooms.update(
                        i as int,
                        old(self)@.rooms[i as int].with_occupant(user@),
                    ));
                }
            },
            None => {
                let mut occupants: Vec<User> = Vec::new();
                occupants.push(user.clone());
                let record = RoomRecord {
                    room: room.clone(),
                    occupants,
                    chat_log: VecDeque::new(),
                    notifications: VecDeque::new(),
                };
                proof {
                    assert(record@.occupants =~= seq![user@]);
                    assert(record@.chat_log =~= Seq::empty());
                    assert(record@.notifications =~= Seq::empty());
                    assert(record@ == RoomModel::fresh(room@).with_occupant(user@)) by {
                        assert(Seq::<UserView>::empty().push(user@) =~= seq![user@]);
                    }
                    lemma_views_push(self.rooms@, record);
                }
                self.rooms.push(record);
            },
        }
    }

    /// Removes the first occurrence of the user from the first room that lists
    /// it, the last occupant taking its place, and logs the notice in that room.
    /// Returns the room left, or nothing where no room lists the user; the state
    /// is then unchanged.
    pub fn remove_user_from_room(&mut self, user: &User, notice: NotificationLog) -> (left: Option<
        Room,
    >)
        requires
            old(self)@.wf(),
        ensures
            final(self)@ == old(self)@.remove_user(user@, notice@),
            final(self)@.wf(),
            match left {
                Some(r) => {
                    &&& old(self)@.occupied_room(user@) is Some
                    &&& r@ == old(self)@.rooms[old(self)@.occupied_room(user@)->0].name
                },
                None => old(self)@.occupied_room(user@) is None,
            },
    {
        proof {
            lemma_remove_user_wf(self@, user@, notice@);
        }
        match self.occupied_index(user) {
            Some(i) => {
                let room = self.rooms[i].room.clone();
                match seat(&self.rooms[i].occupants, user) {
                    Some(k) => {
                        self.rooms[i].occupants.swap_remove(k);
                        proof {
                            let list = old(self).rooms@[i as int].occupants@;
                            lemma_views_swap_removed(list, k as int);
                        }
                    },
                    None => {},
                }
                push_notice(&mut self.rooms[i].notifications, notice);
                proof {
                    assert(self@.rooms =~= old(self)@.rooms.update(
                        i as int,
                        old(self)@.rooms[i as int].without_occupant(user@).with_notice(notice@),
                    ));
                }
                Some(room)
            },
            None => None,
        }
    }

    /// Logs the chat message in the first room that lists the user and returns
    /// that room's occupants, in list order. Where no room lists the user,
    /// nothing is logged and nobody is returned.
    pub fn record_chat_message(&mut self, user: &User, msg: MessageLog) -> (recipients: Vec<User>)
        requires
            old(self)@.wf(),
        ensures
            final(self)@ == old(self)@.record_chat(user@, msg@),
            final(self)@.wf(),
            views(recipients@) == old(self)@.room_mates(user@),
    {
        proof {
            lemma_record_chat_wf(self@, user@, msg@);
        }
        match self.occupied_index(user) {
            Some(i) => {
                push_chat(&mut self.rooms[i].chat_log, msg);
                proof {
                    assert(self@.rooms =~= old(self)@.rooms.update(
                        i as int,
                        old(self)@.rooms[i as int].with_chat(msg@),
                    ));
                }
                let recipients = self.rooms[i].occupants.clone();
                assert(recipients@ =~= self.rooms@[i as int].occupants@);
                recipients
            },
            None => {
                let recipients: Vec<User> = Vec::new();
                assert(views(recipients@) =~= Seq::empty());
                recipients
            },
        }
    }

    /// Logs the notice in the first room that lists the user; does nothing where
    /// no room lists the user.
    pub fn record_notification(&mut self, user: &User, notice: NotificationLog)
        requires
            old(self)@.wf(),
        ensures
            final(self)@ == old(self)@.record_notification(user@, notice@),
            final(self)@.wf(),
    {
        proof {
            lemma_record_notification_wf(self@, user@, notice@);
        }
        match self.occupied_index(user) {
            Some(i) => {
                push_notice(&mut self.rooms[i].notifications, notice);
                proof {
                    assert(self@.rooms =~= old(self)@.rooms.update(
                        i as int,
                        old(self)@.rooms[i as int].with_notice(notice@),
                    ));
                }
            },
            None => {},
        }
    }

    /// What events tell of a room: its chat log, its notices and the names of its
    /// occupants.
    pub fn snapshot_room(&self, room: &Room) -> (snapshot: (
        Vec<MessageLog>,
        Vec<NotificationLog>,
        Vec<String>,
    ))
        ensures
            views(snapshot.0@) == self@.snapshot(room@).msg_log,
            views(snapshot.1@) == self@.snapshot(room@).notifications,
            views(snapshot.2@) == self@.snapshot(room@).occupant_names,
    {
        (self.room_chat_logs(room), self.room_notifications(room), self.occupant_names(room))
    }
}

/// The rooms at start, the landing room alone, and the hash of that room's name.
pub fn setup_rooms() -> (start: (AppState, u64))
    ensures
        start.0@ == StateModel::initial(),
        start.0@.wf(),
        start.1 == spec_hash(hub_name()),
{
    let state = AppState::new();
    let global_room_hash = hash(Room::hub().name);
    (state, global_room_hash)
}

/// Where the user first stands in a list.
fn seat(occupants: &Vec<User>, user: &User) -> (found: Option<usize>)
    ensures
        match found {
            Some(k) => k < occupants.len() && first_index(
                seat_of(views(occupants@), user@),
                occupants.len() as int,
            ) == Some(k as int),
            None => first_index(seat_of(views(occupants@), user@), occupants.len() as int) is None,
        },
        found is Some <==> views(occupants@).contains(user@),
{
    let mut k: usize = 0;
    while k < occupants.len()
        invariant
            k <= occupants.len(),
            forall|j: int| 0 <= j < k ==> views(occupants@)[j] != user@,
        decreases occupants.len() - k,
    {
        if occupants[k] == *user {
            proof {
                let holds = seat_of(views(occupants@), user@);
                assert(is_first(holds, occupants.len() as int, k as int));
                lemma_first_index_is(holds, occupants.len() as int, k as int);
                assert(views(occupants@)[k as int] == user@);
            }
            return Some(k);
        }
        k = k + 1;
    }
    proof {
        lemma_first_index_none(seat_of(views(occupants@), user@), occupants.len() as int);
    }
    None
}

/// Appends a notice to a log, evicting the oldest where the bound is exceeded.
fn push_notice(log: &mut VecDeque<NotificationLog>, notice: NotificationLog)
    ensures
        final(log)@ == bounded_push(old(log)@, notice, MAX_LOGS as nat),
        views(final(log)@) == bounded_push(views(old(log)@), notice@, MAX_LOGS as nat),
{
    proof {
        lemma_views_bounded_push(log@, notice, MAX_LOGS as nat);
    }
    log.push_back(notice);
    if log.len() > MAX_LOGS {
        log.pop_front();
    }
}

/// Appends a chat message to a log, evicting the oldest where the bound is exceeded.
fn push_chat(log: &mut VecDeque<MessageLog>, msg: MessageLog)
    ensures
        final(log)@ == bounded_push(old(log)@, msg, MAX_LOGS as nat),
        views(final(log)@) == bounded_push(views(old(log)@), msg@, MAX_LOGS as nat),
{
    proof {
        lemma_views_bounded_push(log@, msg, MAX_LOGS as nat);
    }
    log.push_back(msg);
    if log.len() > MAX_LOGS {
        log.pop_front();
    }
}

/// A copy of a chat log, oldest first.
fn copy_chat_log(log: &VecDeque<MessageLog>) -> (copy: Vec<MessageLog>)
    ensures
        copy@ == log@,
{
    let mut copy: Vec<MessageLog> = Vec::new();
    let mut i: usize = 0;
    while i < log.len()
        invariant
            i <= log.len(),
            copy@ == log@.subrange(0, i as int),
        decreases log.len() - i,
    {
        copy.push(log[i].clone());
        assert(copy@ =~= log@.subrange(0, i + 1));
        i = i + 1;
    }
    assert(copy@ =~= log@);
    copy
}

/// A copy of a log of notices, oldest first.
fn copy_notifications(log: &VecDeque<NotificationLog>) -> (copy: Vec<NotificationLog>)
    ensures
        copy@ == log@,
{
    let mut copy: Vec<NotificationLog> = Vec::new();
    let mut i: usize = 0;
    while i < log.len()
        invariant
            i <= log.len(),
            copy@ == log@.subrange(0, i as int),
        decreases log.len() - i,
    {
        copy.push(log[i].clone());
        assert(copy@ =~= log@.subrange(0, i + 1));
        i = i + 1;
    }
    assert(copy@ =~= log@);
    copy
}

} // verus!
