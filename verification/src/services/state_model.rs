//! The mathematical model of the application state and of what each command
//! does to it.

use crate::domain::chat_log::MessageLogView;
use crate::domain::commands::{CommandPayloadView, CommandView};
use crate::domain::events::{EventView, RoomSnapshotView};
use crate::domain::model::{
    bounded_push, first_index, is_first, lemma_bounded_push_len, lemma_first_index,
    lemma_first_index_is, lemma_first_index_none, swap_removed,
};
use crate::domain::notification_log::NotificationLogView;
use crate::domain::room::hub_name;
use crate::domain::timestamp::Timestamp;
use crate::domain::user::UserView;
use vstd::prelude::*;

verus! {

/// How many entries each log of a room keeps.
pub const MAX_LOGS: usize = 25;

/// One room: its name, its occupants in the order in which they stand in its
/// list, its chat log and its notices, oldest first.
pub struct RoomModel {
    pub name: Seq<char>,
    pub occupants: Seq<UserView>,
    pub chat_log: Seq<MessageLogView>,
    pub notifications: Seq<NotificationLogView>,
}

/// An event together with the users it is meant for, in delivery order.
pub struct BroadcastView {
    pub event: EventView,
    pub subscribers: Seq<UserView>,
}

/// The rooms, in the order in which they were created.
pub struct StateModel {
    pub rooms: Seq<RoomModel>,
}

/// The names of some users, in the same order.
pub open spec fn names_of(users: Seq<UserView>) -> Seq<Seq<char>> {
    users.map_values(|u: UserView| u.name)
}

/// The property of an index that the room there bears the name.
pub open spec fn room_named(rooms: Seq<RoomModel>, name: Seq<char>) -> spec_fn(int) -> bool {
    |i: int| rooms[i].name == name
}

/// The property of an index that the room there lists the user.
pub open spec fn room_holds(rooms: Seq<RoomModel>, user: UserView) -> spec_fn(int) -> bool {
    |i: int| rooms[i].occupants.contains(user)
}

/// The property of an index that the user stands there in the list.
pub open spec fn seat_of(occupants: Seq<UserView>, user: UserView) -> spec_fn(int) -> bool {
    |k: int| occupants[k] == user
}

impl RoomModel {
    /// A room that was just created.
    pub open spec fn fresh(name: Seq<char>) -> RoomModel {
        RoomModel {
            name,
            occupants: Seq::empty(),
            chat_log: Seq::empty(),
            notifications: Seq::empty(),
        }
    }

    /// The room after a user was appended to its list.
    pub open spec fn with_occupant(self, user: UserView) -> RoomModel {
        RoomModel { occupants: self.occupants.push(user), ..self }
    }

    /// The room after a notice was logged, the oldest notice evicted where the
    /// log would exceed its bound.
    pub open spec fn with_notice(self, notice: NotificationLogView) -> RoomModel {
        RoomModel {
            notifications: bounded_push(self.notifications, notice, MAX_LOGS as nat),
            ..self
        }
    }

    /// The room after a chat message was logged, the oldest message evicted
    /// where the log would exceed its bound.
    pub open spec fn with_chat(self, msg: MessageLogView) -> RoomModel {
        RoomModel { chat_log: bounded_push(self.chat_log, msg, MAX_LOGS as nat), ..self }
    }

    /// The room after the first occurrence of a user left its list: the last
    /// occupant takes the vacated place.
    pub open spec fn without_occupant(self, user: UserView) -> RoomModel {
        match first_index(seat_of(self.occupants, user), self.occupants.len() as int) {
            Some(k) => RoomModel { occupants: swap_removed(self.occupants, k), ..self },
            None => self,
        }
    }

    /// Both logs are within their bound.
    pub open spec fn logs_bounded(self) -> bool {
        self.chat_log.len() <= MAX_LOGS && self.notifications.len() <= MAX_LOGS
    }
}

impl StateModel {
    /// The state at start: the landing room alone, empty.
    pub open spec fn initial() -> StateModel {
        StateModel { rooms: seq![RoomModel::fresh(hub_name())] }
    }

    /// The index of the room with the given name.
    pub open spec fn find_room(self, name: Seq<char>) -> Option<int> {
        first_index(room_named(self.rooms, name), self.rooms.len() as int)
    }

    /// The index of the first room, in creation order, that lists the user.
    pub open spec fn occupied_room(self, user: UserView) -> Option<int> {
        first_index(room_holds(self.rooms, user), self.rooms.len() as int)
    }

    /// Whether some room lists the user.
    pub open spec fn is_occupant(self, user: UserView) -> bool {
        exists|i: int|
            0 <= i < self.rooms.len() && #[trigger] self.rooms[i].occupants.contains(user)
    }

    /// What always holds of the state: no two rooms share a name, the landing
    /// room exists, and every log is within its bound.
    pub open spec fn wf(self) -> bool {
        &&& forall|i: int, j: int|
            0 <= i < j < self.rooms.len() ==> #[trigger] self.rooms[i].name
                != #[trigger] self.rooms[j].name
        &&& self.find_room(hub_name()) is Some
        &&& forall|i: int| 0 <= i < self.rooms.len() ==> #[trigger] self.rooms[i].logs_bounded()
    }

    /// No user is listed in more than one room.
    pub open spec fn one_room_per_user(self) -> bool {
        forall|user: UserView, i: int, j: int|
            0 <= i < self.rooms.len() && 0 <= j < self.rooms.len()
                && #[trigger] self.rooms[i].occupants.contains(user)
                && #[trigger] self.rooms[j].occupants.contains(user) ==> i == j
    }

    /// No user is listed in more than one room, nor twice in one.
    pub open spec fn exclusive(self) -> bool {
        &&& self.one_room_per_user()
        &&& forall|i: int|
            0 <= i < self.rooms.len() ==> #[trigger] self.rooms[i].occupants.no_duplicates()
    }

    /// The occupants of a room, in list order; none for a room that does not exist.
    pub open spec fn occupancy(self, room: Seq<char>) -> Seq<UserView> {
        match self.find_room(room) {
            Some(i) => self.rooms[i].occupants,
            None => Seq::empty(),
        }
    }

    /// The chat log of a room, oldest first; empty for a room that does not exist.
    pub open spec fn chat_log_of(self, room: Seq<char>) -> Seq<MessageLogView> {
        match self.find_room(room) {
            Some(i) => self.rooms[i].chat_log,
            None => Seq::empty(),
        }
    }

    /// The notices of a room, oldest first; empty for a room that does not exist.
    pub open spec fn notifications_of(self, room: Seq<char>) -> Seq<NotificationLogView> {
        match self.find_room(room) {
            Some(i) => self.rooms[i].notifications,
            None => Seq::empty(),
        }
    }

    /// What events tell of a room.
    pub open spec fn snapshot(self, room: Seq<char>) -> RoomSnapshotView {
        RoomSnapshotView {
            msg_log: self.chat_log_of(room),
            notifications: self.notifications_of(room),
            occupant_names: names_of(self.occupancy(room)),
        }
    }

    /// The state with the room at an index replaced.
    pub open spec fn with_room(self, i: int, room: RoomModel) -> StateModel {
        StateModel { rooms: self.rooms.update(i, room) }
    }

    /// The state after a user was appended to a room's list, the room created
    /// empty before that where it did not exist.
    pub open spec fn add_user(self, user: UserView, room: Seq<char>) -> StateModel {
        match self.find_room(room) {
            Some(i) => self.with_room(i, self.rooms[i].with_occupant(user)),
            None => StateModel {
                rooms: self.rooms.push(RoomModel::fresh(room).with_occupant(user)),
            },
        }
    }

    /// The state after a notice was logged in the first room that lists the
    /// user; unchanged where none does.
    pub open spec fn record_notification(self, user: UserView, notice: NotificationLogView)
        -> StateModel {
        match self.occupied_room(user) {
            Some(i) => self.with_room(i, self.rooms[i].with_notice(notice)),
            None => self,
        }
    }

    /// The state after a chat message was logged in the first room that lists
    /// the user; unchanged where none does.
    pub open spec fn record_chat(self, user: UserView, msg: MessageLogView) -> StateModel {
        match self.occupied_room(user) {
            Some(i) => self.with_room(i, self.rooms[i].with_chat(msg)),
            None => self,
        }
    }

    /// Who shares a room with the user, the user included, in list order; nobody
    /// where no room lists the user.
    pub open spec fn room_mates(self, user: UserView) -> Seq<UserView> {
        match self.occupied_room(user) {
            Some(i) => self.rooms[i].occupants,
            None => Seq::empty(),
        }
    }

    /// The state after the user left the first room that lists it, and the
    /// notice was logged there; unchanged where no room lists the user.
    pub open spec fn remove_user(self, user: UserView, notice: NotificationLogView) -> StateModel {
        match self.occupied_room(user) {
            Some(i) => self.with_room(i, self.rooms[i].without_occupant(user).with_notice(notice)),
            None => self,
        }
    }

    /// Entering a room: the user is added, the entry is noted in the user's room,
    /// and the room's occupants are told, with the room's state after the entry.
    pub open spec fn insert_occupant(self, user: UserView, room: Seq<char>, now: Timestamp) -> (
        StateModel,
        BroadcastView,
    ) {
        let after = self.add_user(user, room).record_notification(
            user,
            NotificationLogView::joined(user.name, room, now),
        );
        (
            after,
            BroadcastView {
                event: EventView::UserJoined { user, room, snapshot: after.snapshot(room) },
                subscribers: after.occupancy(room),
            },
        )
    }

    /// Leaving the current room: the user is removed, the departure is noted in
    /// that room, and those who were in it, the user included, are told, with the
    /// room's state after the departure. Nothing happens where no room lists the
    /// user.
    pub open spec fn remove_occupant(self, user: UserView, now: Timestamp) -> (
        StateModel,
        Option<BroadcastView>,
    ) {
        match self.occupied_room(user) {
            Some(i) => {
                let room = self.rooms[i].name;
                let after = self.remove_user(user, NotificationLogView::left(user.name, room, now));
                (
                    after,
                    Some(
                        BroadcastView {
                            event: EventView::UserLeft {
                                user,
                                room,
                                snapshot: after.snapshot(room),
                            },
                            subscribers: self.occupancy(room),
                        },
                    ),
                )
            },
            None => (self, None),
        }
    }

    /// Dropping a user: as leaving the current room. Where no room lists the
    /// user, a departure from the landing room is announced all the same, to its
    /// occupants and to the user, with the occupants' names and no logs.
    pub open spec fn drop_user(self, user: UserView, now: Timestamp) -> (
        StateModel,
        BroadcastView,
    ) {
        match self.remove_occupant(user, now).1 {
            Some(left) => (self.remove_occupant(user, now).0, left),
            None => (
                self,
                BroadcastView {
                    event: EventView::UserLeft {
                        user,
                        room: hub_name(),
                        snapshot: RoomSnapshotView {
                            msg_log: Seq::empty(),
                            notifications: Seq::empty(),
                            occupant_names: names_of(self.occupancy(hub_name())),
                        },
                    },
                    subscribers: self.occupancy(hub_name()).push(user),
                },
            ),
        }
    }

    /// Moving: the user leaves its room, if it is in one, and enters the target.
    pub open spec fn move_user(self, user: UserView, target: Seq<char>, now: Timestamp) -> (
        StateModel,
        Seq<BroadcastView>,
    ) {
        let (vacated, left) = self.remove_occupant(user, now);
        let (after, joined) = vacated.insert_occupant(user, target, now);
        match left {
            Some(b) => (after, seq![b, joined]),
            None => (after, seq![joined]),
        }
    }

    /// Whether a command registers a user that some room already lists: the one
    /// kind of command after which a user can be listed twice.
    pub open spec fn registers_occupant(self, command: CommandView) -> bool {
        command.payload is RegisterUser && self.is_occupant(command.user)
    }

    /// Whether the application acts on a request. It does not on a time request,
    /// which sessions answer, nor on a request for recipients.
    pub open spec fn handles(payload: CommandPayloadView) -> bool {
        payload is RegisterUser || payload is DropUser || payload is MoveUser
            || payload is RecordMessage
    }

    /// The state after a command that arrived at the given moment.
    pub open spec fn handle(self, command: CommandView, now: Timestamp) -> StateModel {
        let user = command.user;
        match command.payload {
            CommandPayloadView::RegisterUser => self.insert_occupant(user, hub_name(), now).0,
            CommandPayloadView::DropUser => self.drop_user(user, now).0,
            CommandPayloadView::MoveUser { target_room } => self.move_user(
                user,
                target_room,
                now,
            ).0,
            CommandPayloadView::RecordMessage { message } => self.record_chat(
                user,
                MessageLogView { username: user.name, timestamp: now, contents: message },
            ),
            _ => self,
        }
    }

    /// What a command that arrived at the given moment makes known, in the order
    /// in which it is to be published.
    pub open spec fn broadcasts(self, command: CommandView, now: Timestamp) -> Seq<BroadcastView> {
        let user = command.user;
        match command.payload {
            CommandPayloadView::RegisterUser => seq![
                BroadcastView {
                    event: EventView::UserRegistered { token: user.id },
                    subscribers: seq![user],
                },
                self.insert_occupant(user, hub_name(), now).1,
            ],
            CommandPayloadView::DropUser => seq![self.drop_user(user, now).1],
            CommandPayloadView::MoveUser { target_room } => self.move_user(
                user,
                target_room,
                now,
            ).1,
            CommandPayloadView::RecordMessage { message } => seq![
                BroadcastView {
                    event: EventView::MsgReceived {
                        msg: MessageLogView {
                            username: user.name,
                            timestamp: now,
                            contents: message,
                        },
                    },
                    subscribers: self.room_mates(user),
                },
            ],
            _ => Seq::empty(),
        }
    }
}

/// Replacing a room by one of the same name moves no room.
pub(crate) proof fn lemma_with_room_finds(s: StateModel, i: int, room: RoomModel, name: Seq<char>)
    requires
        0 <= i < s.rooms.len(),
        room.name == s.rooms[i].name,
    ensures
        s.with_room(i, room).find_room(name) == s.find_room(name),
{
    let before = room_named(s.rooms, name);
    let after = room_named(s.with_room(i, room).rooms, name);
    let len = s.rooms.len() as int;
    assert forall|j: int| 0 <= j < len implies #[trigger] before(j) == after(j) by {}
    lemma_first_index(before, len);
    match first_index(before, len) {
        Some(k) => {
            assert(is_first(after, len, k)) by {
                assert forall|j: int| 0 <= j < k implies !#[trigger] after(j) by {
                    assert(!before(j));
                }
            }
            lemma_first_index_is(after, len, k);
        },
        None => {
            assert forall|j: int| 0 <= j < len implies !#[trigger] after(j) by {
                assert(!before(j));
            }
            lemma_first_index_none(after, len);
        },
    }
}

/// Replacing a room by one of the same name and with bounded logs keeps the
/// state well formed.
pub(crate) proof fn lemma_with_room_wf(s: StateModel, i: int, room: RoomModel)
    requires
        s.wf(),
        0 <= i < s.rooms.len(),
        room.name == s.rooms[i].name,
        room.logs_bounded(),
    ensures
        s.with_room(i, room).wf(),
{
    lemma_with_room_finds(s, i, room, hub_name());
    let after = s.with_room(i, room);
    assert forall|a: int, b: int|
        0 <= a < b < after.rooms.len() implies #[trigger] after.rooms[a].name
        != #[trigger] after.rooms[b].name by {
        assert(after.rooms[a].name == s.rooms[a].name);
        assert(after.rooms[b].name == s.rooms[b].name);
    }
    assert forall|a: int|
        0 <= a < after.rooms.len() implies #[trigger] after.rooms[a].logs_bounded() by {
        if a != i {
            assert(s.rooms[a].logs_bounded());
        }
    }
}

/// What `find_room` returns is the index of a room of that name, and it returns
/// one whenever there is such a room.
pub proof fn lemma_find_room(s: StateModel, name: Seq<char>)
    ensures
        match s.find_room(name) {
            Some(i) => 0 <= i < s.rooms.len() && s.rooms[i].name == name,
            None => forall|j: int| 0 <= j < s.rooms.len() ==> #[trigger] s.rooms[j].name != name,
        },
{
    let holds = room_named(s.rooms, name);
    lemma_first_index(holds, s.rooms.len() as int);
    if s.find_room(name) is None {
        assert forall|j: int| 0 <= j < s.rooms.len() implies #[trigger] s.rooms[j].name != name by {
            assert(!holds(j));
        }
    }
}

/// What `occupied_room` returns is the index of the first room that lists the
/// user, and it returns one whenever some room does.
pub proof fn lemma_occupied_room(s: StateModel, user: UserView)
    ensures
        match s.occupied_room(user) {
            Some(i) => {
                &&& 0 <= i < s.rooms.len()
                &&& s.rooms[i].occupants.contains(user)
                &&& forall|j: int| 0 <= j < i ==> !#[trigger] s.rooms[j].occupants.contains(user)
            },
            None => !s.is_occupant(user),
        },
        s.occupied_room(user) is Some <==> s.is_occupant(user),
{
    let holds = room_holds(s.rooms, user);
    lemma_first_index(holds, s.rooms.len() as int);
    match s.occupied_room(user) {
        Some(i) => {
            assert(holds(i));
            assert forall|j: int| 0 <= j < i implies !#[trigger] s.rooms[j].occupants.contains(
                user,
            ) by {
                assert(!holds(j));
            }
        },
        None => {
            assert forall|j: int|
                0 <= j < s.rooms.len() implies !#[trigger] s.rooms[j].occupants.contains(user) by {
                assert(!holds(j));
            }
        },
    }
}

/// In a well-formed state every room is found under its name.
pub proof fn lemma_find_room_at(s: StateModel, i: int)
    requires
        s.wf(),
        0 <= i < s.rooms.len(),
    ensures
        s.find_room(s.rooms[i].name) == Some(i),
{
    lemma_find_room(s, s.rooms[i].name);
    let j = s.find_room(s.rooms[i].name)->0;
    if j < i {
        assert(s.rooms[j].name != s.rooms[i].name);
    } else if i < j {
        assert(s.rooms[i].name != s.rooms[j].name);
    }
}

/// Adding a user keeps the state well formed.
pub(crate) proof fn lemma_add_user_wf(s: StateModel, user: UserView, room: Seq<char>)
    requires
        s.wf(),
    ensures
        s.add_user(user, room).wf(),
{
    lemma_find_room(s, room);
    match s.find_room(room) {
        Some(i) => {
            assert(s.rooms[i].logs_bounded());
            lemma_with_room_wf(s, i, s.rooms[i].with_occupant(user));
        },
        None => {
            let after = s.add_user(user, room);
            let hub = s.find_room(hub_name())->0;
            lemma_find_room(s, hub_name());
            let holds = room_named(after.rooms, hub_name());
            assert(is_first(holds, after.rooms.len() as int, hub)) by {
                assert(holds(hub));
                assert forall|j: int| 0 <= j < hub implies !#[trigger] holds(j) by {
                    assert(s.rooms[j].name != s.rooms[hub].name);
                }
            }
            lemma_first_index_is(holds, after.rooms.len() as int, hub);
            assert forall|a: int|
                0 <= a < after.rooms.len() implies #[trigger] after.rooms[a].logs_bounded() by {
                if a < s.rooms.len() {
                    assert(s.rooms[a].logs_bounded());
                }
            }
        },
    }
}

/// Logging a notice keeps the state well formed.
pub(crate) proof fn lemma_record_notification_wf(
    s: StateModel,
    user: UserView,
    notice: NotificationLogView,
)
    requires
        s.wf(),
    ensures
        s.record_notification(user, notice).wf(),
{
    lemma_occupied_room(s, user);
    match s.occupied_room(user) {
        Some(i) => {
            assert(s.rooms[i].logs_bounded());
            lemma_bounded_push_len(s.rooms[i].notifications, notice, MAX_LOGS as nat);
            lemma_with_room_wf(s, i, s.rooms[i].with_notice(notice));
        },
        None => {},
    }
}

/// Logging a chat message keeps the state well formed.
pub(crate) proof fn lemma_record_chat_wf(s: StateModel, user: UserView, msg: MessageLogView)
    requires
        s.wf(),
    ensures
        s.record_chat(user, msg).wf(),
{
    lemma_occupied_room(s, user);
    match s.occupied_room(user) {
        Some(i) => {
            assert(s.rooms[i].logs_bounded());
            lemma_bounded_push_len(s.rooms[i].chat_log, msg, MAX_LOGS as nat);
            lemma_with_room_wf(s, i, s.rooms[i].with_chat(msg));
        },
        None => {},
    }
}

/// Removing a user keeps the state well formed.
pub(crate) proof fn lemma_remove_user_wf(s: StateModel, user: UserView, notice: NotificationLogView)
    requires
        s.wf(),
    ensures
        s.remove_user(user, notice).wf(),
{
    lemma_occupied_room(s, user);
    match s.occupied_room(user) {
        Some(i) => {
            assert(s.rooms[i].logs_bounded());
            let vacated = s.rooms[i].without_occupant(user);
            lemma_bounded_push_len(vacated.notifications, notice, MAX_LOGS as nat);
            lemma_with_room_wf(s, i, vacated.with_notice(notice));
        },
        None => {},
    }
}

/// After a swapping removal a list is one shorter and holds nothing new; if it
/// held nothing twice, it still does not, and the removed item is gone.
pub(crate) proof fn lemma_swap_removed<T>(items: Seq<T>, at: int)
    requires
        0 <= at < items.len(),
    ensures
        swap_removed(items, at).len() == items.len() - 1,
        forall|x: T| #[trigger] swap_removed(items, at).contains(x) ==> items.contains(x),
        forall|x: T|
            items.contains(x) && x != items[at] ==> #[trigger] swap_removed(items, at).contains(x),
        items.no_duplicates() ==> swap_removed(items, at).no_duplicates() && !swap_removed(
            items,
            at,
        ).contains(items[at]),
{
    let after = swap_removed(items, at);
    let last = items.len() - 1;
    assert forall|x: T| #[trigger] after.contains(x) implies items.contains(x) by {
        let k = choose|k: int| 0 <= k < after.len() && after[k] == x;
        if k == at {
            assert(items[last] == x);
        } else {
            assert(items[k] == x);
        }
    }
    assert forall|x: T|
        items.contains(x) && x != items[at] implies #[trigger] after.contains(x) by {
        let k = choose|k: int| 0 <= k < items.len() && items[k] == x;
        if k == last {
            assert(after[at] == x);
        } else {
            assert(after[k] == x);
        }
    }
    if items.no_duplicates() {
        assert forall|a: int, b: int|
            0 <= a < after.len() && 0 <= b < after.len() && a != b implies after[a]
            != after[b] by {
            let a0 = if a == at { last } else { a };
            let b0 = if b == at { last } else { b };
            assert(after[a] == items[a0]);
            assert(after[b] == items[b0]);
        }
        if after.contains(items[at]) {
            let k = choose|k: int| 0 <= k < after.len() && after[k] == items[at];
            let k0 = if k == at { last } else { k };
            assert(items[k0] == items[at]);
        }
    }
}

/// Adding a user that no room lists keeps every user in one room, once.
pub(crate) proof fn lemma_add_user_exclusive(s: StateModel, user: UserView, room: Seq<char>)
    requires
        s.exclusive(),
        !s.is_occupant(user),
    ensures
        s.add_user(user, room).exclusive(),
        s.add_user(user, room).is_occupant(user),
{
    lemma_find_room(s, room);
    let after = s.add_user(user, room);
    let at = match s.find_room(room) {
        Some(i) => i,
        None => s.rooms.len() as int,
    };
    let before_list = match s.find_room(room) {
        Some(i) => s.rooms[i].occupants,
        None => Seq::empty(),
    };
    assert(after.rooms[at].occupants == before_list.push(user));
    assert(after.rooms[at].occupants.last() == user);
    assert(after.rooms[at].occupants.contains(user));
    assert forall|u: UserView, i: int|
        0 <= i < after.rooms.len() && #[trigger] after.rooms[i].occupants.contains(u) implies (i
            == at && u == user) || (i < s.rooms.len() && s.rooms[i].occupants.contains(u)) by {
        if i == at {
            let k = choose|k: int|
                0 <= k < after.rooms[i].occupants.len() && after.rooms[i].occupants[k] == u;
            if k < before_list.len() {
                assert(before_list[k] == u);
                assert(s.rooms[i].occupants.contains(u));
            }
        }
    }
    assert forall|u: UserView, i: int, j: int|
        0 <= i < after.rooms.len() && 0 <= j < after.rooms.len()
            && #[trigger] after.rooms[i].occupants.contains(u)
            && #[trigger] after.rooms[j].occupants.contains(u) implies i == j by {
        if u == user {
            assert(!s.is_occupant(user));
            if i < s.rooms.len() {
                assert(!s.rooms[i].occupants.contains(user));
            }
            if j < s.rooms.len() {
                assert(!s.rooms[j].occupants.contains(user));
            }
        } else {
            assert(s.rooms[i].occupants.contains(u));
            assert(s.rooms[j].occupants.contains(u));
        }
    }
    assert forall|i: int|
        0 <= i < after.rooms.len() implies #[trigger] after.rooms[i].occupants.no_duplicates() by {
        if i == at {
            if at < s.rooms.len() {
                assert(s.rooms[at].occupants.no_duplicates());
                assert(!s.rooms[at].occupants.contains(user));
            }
            let list = after.rooms[at].occupants;
            assert forall|a: int, b: int|
                0 <= a < list.len() && 0 <= b < list.len() && a != b implies list[a]
                != list[b] by {
                if a < before_list.len() && b < before_list.len() {
                } else if a < before_list.len() {
                    assert(before_list.contains(before_list[a]));
                } else if b < before_list.len() {
                    assert(before_list.contains(before_list[b]));
                }
            }
        } else {
            assert(s.rooms[i].occupants.no_duplicates());
        }
    }
}

/// Replacing a room by one with the same occupants changes nothing about who
/// is where.
pub(crate) proof fn lemma_with_room_same_occupants(s: StateModel, i: int, room: RoomModel)
    requires
        0 <= i < s.rooms.len(),
        room.occupants == s.rooms[i].occupants,
    ensures
        s.exclusive() ==> s.with_room(i, room).exclusive(),
        forall|u: UserView| s.is_occupant(u) <==> #[trigger] s.with_room(i, room).is_occupant(u),
        forall|u: UserView| s.occupied_room(u) == #[trigger] s.with_room(i, room).occupied_room(u),
{
    let after = s.with_room(i, room);
    assert forall|j: int| 0 <= j < s.rooms.len() implies #[trigger] after.rooms[j].occupants
        == s.rooms[j].occupants by {}
    assert forall|u: UserView| s.is_occupant(u) <==> #[trigger] after.is_occupant(u) by {
        if s.is_occupant(u) {
            let j = choose|j: int|
                0 <= j < s.rooms.len() && #[trigger] s.rooms[j].occupants.contains(u);
            assert(after.rooms[j].occupants.contains(u));
        }
        if after.is_occupant(u) {
            let j = choose|j: int|
                0 <= j < after.rooms.len() && #[trigger] after.rooms[j].occupants.contains(u);
            assert(s.rooms[j].occupants.contains(u));
        }
    }
    assert forall|u: UserView| s.occupied_room(u) == #[trigger] after.occupied_room(u) by {
        let before = room_holds(s.rooms, u);
        let later = room_holds(after.rooms, u);
        let len = s.rooms.len() as int;
        assert forall|j: int| 0 <= j < len implies #[trigger] before(j) == later(j) by {
            assert(after.rooms[j].occupants == s.rooms[j].occupants);
        }
        lemma_first_index(before, len);
        match first_index(before, len) {
            Some(k) => {
                assert(is_first(later, len, k)) by {
                    assert(before(k) == later(k));
                    assert forall|j: int| 0 <= j < k implies !#[trigger] later(j) by {
                        assert(!before(j));
                    }
                }
                lemma_first_index_is(later, len, k);
            },
            None => {
                assert forall|j: int| 0 <= j < len implies !#[trigger] later(j) by {
                    assert(!before(j));
                }
                lemma_first_index_none(later, len);
            },
        }
    }
    if s.exclusive() {
        assert forall|u: UserView, a: int, b: int|
            0 <= a < after.rooms.len() && 0 <= b < after.rooms.len()
                && #[trigger] after.rooms[a].occupants.contains(u)
                && #[trigger] after.rooms[b].occupants.contains(u) implies a == b by {
            assert(s.rooms[a].occupants.contains(u));
            assert(s.rooms[b].occupants.contains(u));
        }
        assert forall|a: int| 0 <= a < after.rooms.len() implies (
        #[trigger] after.rooms[a]).occupants.no_duplicates() by {
            assert(s.rooms[a].occupants.no_duplicates());
        }
    }
}

/// Removing a user keeps every user in one room, once, and leaves the user in none.
pub(crate) proof fn lemma_remove_user_exclusive(
    s: StateModel,
    user: UserView,
    notice: NotificationLogView,
)
    requires
        s.exclusive(),
    ensures
        s.remove_user(user, notice).exclusive(),
        !s.remove_user(user, notice).is_occupant(user),
{
    lemma_occupied_room(s, user);
    let after = s.remove_user(user, notice);
    match s.occupied_room(user) {
        Some(i) => {
            let list = s.rooms[i].occupants;
            let holds = seat_of(list, user);
            lemma_first_index(holds, list.len() as int);
            assert(first_index(holds, list.len() as int) is Some) by {
                let k = choose|k: int| 0 <= k < list.len() && list[k] == user;
                assert(holds(k));
            }
            let k = first_index(holds, list.len() as int)->0;
            assert(holds(k));
            assert(list[k] == user);
            lemma_swap_removed(list, k);
            assert(list.no_duplicates());
            let shorter = swap_removed(list, k);
            assert(after.rooms[i].occupants == shorter);
            assert forall|u: UserView, a: int|
                0 <= a < after.rooms.len() && #[trigger] after.rooms[a].occupants.contains(u)
                implies s.rooms[a].occupants.contains(u) by {
                if a == i {
                    assert(shorter.contains(u));
                }
            }
            assert forall|u: UserView, a: int, b: int|
                0 <= a < after.rooms.len() && 0 <= b < after.rooms.len()
                    && #[trigger] after.rooms[a].occupants.contains(u)
                    && #[trigger] after.rooms[b].occupants.contains(u) implies a == b by {
                assert(s.rooms[a].occupants.contains(u));
                assert(s.rooms[b].occupants.contains(u));
            }
            assert forall|a: int| 0 <= a < after.rooms.len() implies (
            #[trigger] after.rooms[a]).occupants.no_duplicates() by {
                if a != i {
                    assert(s.rooms[a].occupants.no_duplicates());
                }
            }
            if after.is_occupant(user) {
                let a = choose|a: int|
                    0 <= a < after.rooms.len() && #[trigger] after.rooms[a].occupants.contains(
                        user,
                    );
                assert(s.rooms[a].occupants.contains(user));
                assert(s.rooms[i].occupants.contains(user));
                assert(a == i);
            }
        },
        None => {},
    }
}

/// Entering a room keeps every user in one room, once, for a user that no room
/// lists; afterwards some room lists the user.
pub(crate) proof fn lemma_insert_occupant_exclusive(
    s: StateModel,
    user: UserView,
    room: Seq<char>,
    now: Timestamp,
)
    requires
        s.exclusive(),
        !s.is_occupant(user),
    ensures
        s.insert_occupant(user, room, now).0.exclusive(),
        s.insert_occupant(user, room, now).0.is_occupant(user),
{
    lemma_add_user_exclusive(s, user, room);
    let added = s.add_user(user, room);
    let notice = NotificationLogView::joined(user.name, room, now);
    lemma_occupied_room(added, user);
    match added.occupied_room(user) {
        Some(i) => {
            lemma_with_room_same_occupants(added, i, added.rooms[i].with_notice(notice));
        },
        None => {},
    }
}

/// A command keeps every user in at most one room, and there once, unless it
/// registers a user that some room already lists.
pub proof fn lemma_handle_exclusive(s: StateModel, command: CommandView, now: Timestamp)
    requires
        s.exclusive(),
        !s.registers_occupant(command),
    ensures
        s.handle(command, now).exclusive(),
        s.handle(command, now).one_room_per_user(),
{
    let user = command.user;
    match command.payload {
        CommandPayloadView::RegisterUser => {
            lemma_insert_occupant_exclusive(s, user, hub_name(), now);
        },
        CommandPayloadView::DropUser => {
            lemma_occupied_room(s, user);
            match s.occupied_room(user) {
                Some(i) => {
                    lemma_remove_user_exclusive(
                        s,
                        user,
                        NotificationLogView::left(user.name, s.rooms[i].name, now),
                    );
                },
                None => {},
            }
        },
        CommandPayloadView::MoveUser { target_room } => {
            lemma_occupied_room(s, user);
            match s.occupied_room(user) {
                Some(i) => {
                    lemma_remove_user_exclusive(
                        s,
                        user,
                        NotificationLogView::left(user.name, s.rooms[i].name, now),
                    );
                },
                None => {},
            }
            lemma_insert_occupant_exclusive(s.remove_occupant(user, now).0, user, target_room, now);
        },
        CommandPayloadView::RecordMessage { message } => {
            lemma_occupied_room(s, user);
            match s.occupied_room(user) {
                Some(i) => {
                    lemma_with_room_same_occupants(
                        s,
                        i,
                        s.rooms[i].with_chat(
                            MessageLogView {
                                username: user.name,
                                timestamp: now,
                                contents: message,
                            },
                        ),
                    );
                },
                None => {},
            }
        },
        _ => {},
    }
}

/// A command keeps the state well formed: room names stay distinct, the landing
/// room stays, and no log grows beyond its bound. After it, as before, the chat
/// log and the notices of every room, one made by the command included, hold
/// 25 entries at most.
pub proof fn lemma_handle_wf(s: StateModel, command: CommandView, now: Timestamp)
    requires
        s.wf(),
    ensures
        s.handle(command, now).wf(),
        forall|i: int|
            0 <= i < s.handle(command, now).rooms.len() ==> {
                &&& (#[trigger] s.handle(command, now).rooms[i]).chat_log.len() <= 25
                &&& s.handle(command, now).rooms[i].notifications.len() <= 25
            },
{
    lemma_handle_keeps_wf(s, command, now);
    let after = s.handle(command, now);
    assert forall|i: int| 0 <= i < after.rooms.len() implies {
        &&& (#[trigger] after.rooms[i]).chat_log.len() <= 25
        &&& after.rooms[i].notifications.len() <= 25
    } by {
        assert(after.rooms[i].logs_bounded());
    }
}

/// A command keeps the state well formed.
proof fn lemma_handle_keeps_wf(s: StateModel, command: CommandView, now: Timestamp)
    requires
        s.wf(),
    ensures
        s.handle(command, now).wf(),
{
    let user = command.user;
    lemma_occupied_room(s, user);
    match command.payload {
        CommandPayloadView::RegisterUser => {
            lemma_insert_occupant_wf(s, user, hub_name(), now);
        },
        CommandPayloadView::DropUser => {
            lemma_remove_occupant_wf(s, user, now);
        },
        CommandPayloadView::MoveUser { target_room } => {
            lemma_remove_occupant_wf(s, user, now);
            lemma_insert_occupant_wf(s.remove_occupant(user, now).0, user, target_room, now);
        },
        CommandPayloadView::RecordMessage { message } => {
            lemma_record_chat_wf(
                s,
                user,
                MessageLogView { username: user.name, timestamp: now, contents: message },
            );
        },
        _ => {},
    }
}

/// Entering a room keeps the state well formed.
pub(crate) proof fn lemma_insert_occupant_wf(
    s: StateModel,
    user: UserView,
    room: Seq<char>,
    now: Timestamp,
)
    requires
        s.wf(),
    ensures
        s.insert_occupant(user, room, now).0.wf(),
{
    lemma_add_user_wf(s, user, room);
    lemma_record_notification_wf(
        s.add_user(user, room),
        user,
        NotificationLogView::joined(user.name, room, now),
    );
}

/// Leaving a room keeps the state well formed.
pub(crate) proof fn lemma_remove_occupant_wf(s: StateModel, user: UserView, now: Timestamp)
    requires
        s.wf(),
    ensures
        s.remove_occupant(user, now).0.wf(),
{
    lemma_occupied_room(s, user);
    match s.occupied_room(user) {
        Some(i) => {
            lemma_remove_user_wf(
                s,
                user,
                NotificationLogView::left(user.name, s.rooms[i].name, now),
            );
        },
        None => {},
    }
}

} // verus!
