//! What holds of the application whatever commands arrive: each user is in at
//! most one room, logs stay bounded, a dropped user is gone, and chat messages
//! are published in the order in which they were sent.

use crate::domain::chat_log::MessageLogView;
use crate::domain::commands::{CommandPayloadView, CommandView};
use crate::domain::events::EventView;
use crate::domain::model::{
    first_index, is_first, lemma_first_index, lemma_first_index_is, swap_removed,
};
use crate::domain::room::hub_name;
use crate::domain::timestamp::Timestamp;
use crate::domain::user::UserView;
use crate::services::app::AppModel;
use crate::domain::notification_log::NotificationLogView;
use crate::services::state_model::{
    lemma_find_room, lemma_find_room_at, lemma_handle_exclusive, lemma_handle_wf,
    lemma_occupied_room, lemma_remove_user_exclusive, lemma_swap_removed,
    lemma_with_room_same_occupants, names_of, room_named, seat_of, BroadcastView, StateModel,
};
use vstd::prelude::*;

verus! {

impl AppModel {
    /// The state is well formed, every user is in at most one room and there
    /// once, and every occupant of a room is subscribed.
    pub open spec fn coherent(self) -> bool {
        &&& self.state.wf()
        &&& self.state.exclusive()
        &&& forall|user: UserView| self.state.is_occupant(user) ==> self.subscribers.contains(user)
    }

    /// Whether a command comes from a live session: a user moves only while it
    /// is subscribed.
    pub open spec fn admits(self, command: CommandView) -> bool {
        command.payload is MoveUser ==> self.subscribers.contains(command.user)
    }

    /// Whether every command of a run comes from a session that is live when the
    /// command arrives.
    pub open spec fn admits_run(self, commands: Seq<CommandView>, moments: Seq<Timestamp>) -> bool {
        forall|k: int|
            0 <= k < commands.len() ==> #[trigger] self.after_run(
                commands.take(k),
                moments.take(k),
            ).admits(commands[k])
    }
}

/// The chat messages sent over a run of commands, in the order of the commands.
pub open spec fn chat_sent(commands: Seq<CommandView>, moments: Seq<Timestamp>) -> Seq<
    MessageLogView,
>
    decreases commands.len(),
{
    if commands.len() == 0 || moments.len() != commands.len() {
        Seq::empty()
    } else {
        chat_sent(commands.drop_last(), moments.drop_last()) + (match commands.last().payload {
            CommandPayloadView::RecordMessage { message } => seq![
                MessageLogView {
                    username: commands.last().user.name,
                    timestamp: moments.last(),
                    contents: message,
                },
            ],
            _ => Seq::empty(),
        })
    }
}

/// The chat messages among some broadcasts, in the order of the broadcasts.
pub open spec fn chat_events(broadcasts: Seq<BroadcastView>) -> Seq<MessageLogView>
    decreases broadcasts.len(),
{
    if broadcasts.len() == 0 {
        Seq::empty()
    } else {
        chat_events(broadcasts.drop_last()) + (match broadcasts.last().event {
            EventView::MsgReceived { msg } => seq![msg],
            _ => Seq::empty(),
        })
    }
}

/// The chat messages among some broadcasts that are meant for a given user, in
/// the order of the broadcasts.
pub open spec fn chat_events_for(broadcasts: Seq<BroadcastView>, recipient: UserView) -> Seq<
    MessageLogView,
>
    decreases broadcasts.len(),
{
    if broadcasts.len() == 0 {
        Seq::empty()
    } else {
        chat_events_for(broadcasts.drop_last(), recipient) + (match broadcasts.last().event {
            EventView::MsgReceived { msg } => if broadcasts.last().subscribers.contains(recipient) {
                seq![msg]
            } else {
                Seq::empty()
            },
            _ => Seq::empty(),
        })
    }
}

/// The chat messages sent over a run of commands while the sender shared a room
/// with a given user, in the order of the commands.
pub open spec fn chat_sent_to(
    app: AppModel,
    commands: Seq<CommandView>,
    moments: Seq<Timestamp>,
    recipient: UserView,
) -> Seq<MessageLogView>
    decreases commands.len(),
{
    if commands.len() == 0 || moments.len() != commands.len() {
        Seq::empty()
    } else {
        let before = app.after_run(commands.drop_last(), moments.drop_last());
        chat_sent_to(app, commands.drop_last(), moments.drop_last(), recipient) + (
        match commands.last().payload {
            CommandPayloadView::RecordMessage { message } => if before.state.room_mates(
                commands.last().user,
            ).contains(recipient) {
                seq![
                    MessageLogView {
                        username: commands.last().user.name,
                        timestamp: moments.last(),
                        contents: message,
                    },
                ]
            } else {
                Seq::empty()
            },
            _ => Seq::empty(),
        })
    }
}

/// The chat messages of two runs of broadcasts, one after the other.
proof fn lemma_chat_events_add(first: Seq<BroadcastView>, second: Seq<BroadcastView>)
    ensures
        chat_events(first + second) == chat_events(first) + chat_events(second),
    decreases second.len(),
{
    if second.len() == 0 {
        assert(first + second =~= first);
        assert(chat_events(first) + chat_events(second) =~= chat_events(first));
    } else {
        assert((first + second).drop_last() =~= first + second.drop_last());
        lemma_chat_events_add(first, second.drop_last());
        assert((first + second).last() == second.last());
        let tail = match second.last().event {
            EventView::MsgReceived { msg } => seq![msg],
            _ => Seq::<MessageLogView>::empty(),
        };
        assert(chat_events(first + second) =~= chat_events(first) + (chat_events(
            second.drop_last(),
        ) + tail));
    }
}

/// The chat messages for a user of two runs of broadcasts, one after the other.
proof fn lemma_chat_events_for_add(
    first: Seq<BroadcastView>,
    second: Seq<BroadcastView>,
    recipient: UserView,
)
    ensures
        chat_events_for(first + second, recipient) == chat_events_for(first, recipient)
            + chat_events_for(second, recipient),
    decreases second.len(),
{
    if second.len() == 0 {
        assert(first + second =~= first);
        assert(chat_events_for(first, recipient) + chat_events_for(second, recipient)
            =~= chat_events_for(first, recipient));
    } else {
        assert((first + second).drop_last() =~= first + second.drop_last());
        lemma_chat_events_for_add(first, second.drop_last(), recipient);
        assert((first + second).last() == second.last());
        let tail = match second.last().event {
            EventView::MsgReceived { msg } => if second.last().subscribers.contains(recipient) {
                seq![msg]
            } else {
                Seq::<MessageLogView>::empty()
            },
            _ => Seq::<MessageLogView>::empty(),
        };
        assert(chat_events_for(first + second, recipient) =~= chat_events_for(first, recipient) + (
        chat_events_for(second.drop_last(), recipient) + tail));
    }
}

/// The chat messages for a user of a single broadcast.
proof fn lemma_chat_events_for_one(b: BroadcastView, recipient: UserView)
    ensures
        chat_events_for(seq![b], recipient) == (match b.event {
            EventView::MsgReceived { msg } => if b.subscribers.contains(recipient) {
                seq![msg]
            } else {
                Seq::empty()
            },
            _ => Seq::empty(),
        }),
{
    let one = seq![b];
    assert(one.drop_last() =~= Seq::empty());
    assert(one.last() == b);
    assert(chat_events_for(one.drop_last(), recipient) =~= Seq::empty());
    let tail = match b.event {
        EventView::MsgReceived { msg } => if b.subscribers.contains(recipient) {
            seq![msg]
        } else {
            Seq::<MessageLogView>::empty()
        },
        _ => Seq::<MessageLogView>::empty(),
    };
    assert(chat_events_for(one, recipient) =~= tail);
}

/// The chat messages for a user of two broadcasts.
proof fn lemma_chat_events_for_two(a: BroadcastView, b: BroadcastView, recipient: UserView)
    ensures
        chat_events_for(seq![a, b], recipient) == chat_events_for(seq![a], recipient)
            + chat_events_for(seq![b], recipient),
{
    assert(seq![a, b] =~= seq![a] + seq![b]);
    lemma_chat_events_for_add(seq![a], seq![b], recipient);
}

/// The chat messages of a single broadcast.
proof fn lemma_chat_events_one(b: BroadcastView)
    ensures
        chat_events(seq![b]) == (match b.event {
            EventView::MsgReceived { msg } => seq![msg],
            _ => Seq::empty(),
        }),
{
    let one = seq![b];
    assert(one.drop_last() =~= Seq::empty());
    assert(one.last() == b);
    assert(chat_events(one.drop_last()) =~= Seq::empty());
    let tail = match b.event {
        EventView::MsgReceived { msg } => seq![msg],
        _ => Seq::<MessageLogView>::empty(),
    };
    assert(chat_events(one) =~= tail);
}

/// The chat messages of two broadcasts.
proof fn lemma_chat_events_two(a: BroadcastView, b: BroadcastView)
    ensures
        chat_events(seq![a, b]) == chat_events(seq![a]) + chat_events(seq![b]),
{
    assert(seq![a, b] =~= seq![a] + seq![b]);
    lemma_chat_events_add(seq![a], seq![b]);
}

/// A command keeps the application well formed: after it, as before, every
/// room's chat log and notices are within their bound of 25.
pub proof fn lemma_step_wf(app: AppModel, command: CommandView, now: Timestamp)
    requires
        app.state.wf(),
    ensures
        app.step(command, now).state.wf(),
        forall|i: int|
            0 <= i < app.step(command, now).state.rooms.len() ==> {
                &&& (#[trigger] app.step(command, now).state.rooms[i]).chat_log.len() <= 25
                &&& app.step(command, now).state.rooms[i].notifications.len() <= 25
            },
{
    lemma_handle_wf(app.state, command, now);
    let after = app.step(command, now).state;
    assert forall|i: int| 0 <= i < after.rooms.len() implies {
        &&& (#[trigger] after.rooms[i]).chat_log.len() <= 25
        &&& after.rooms[i].notifications.len() <= 25
    } by {
        assert(after.rooms[i].logs_bounded());
    }
}

/// Over any run of commands the application stays well formed.
pub proof fn lemma_run_wf(app: AppModel, commands: Seq<CommandView>, moments: Seq<Timestamp>)
    requires
        app.state.wf(),
    ensures
        app.after_run(commands, moments).state.wf(),
    decreases commands.len(),
{
    if commands.len() == 0 || moments.len() != commands.len() {
    } else {
        lemma_run_wf(app, commands.drop_last(), moments.drop_last());
        lemma_step_wf(
            app.after_run(commands.drop_last(), moments.drop_last()),
            commands.last(),
            moments.last(),
        );
    }
}

/// Whether a user is subscribed after a run of commands, given whether it was
/// before: it is from its registration until it is dropped.
pub open spec fn subscribed_after(before: bool, commands: Seq<CommandView>, user: UserView) -> bool
    decreases commands.len(),
{
    if commands.len() == 0 {
        before
    } else if commands.last().user == user && commands.last().payload is RegisterUser {
        true
    } else if commands.last().user == user && commands.last().payload is DropUser {
        false
    } else {
        subscribed_after(before, commands.drop_last(), user)
    }
}

/// A user is subscribed exactly from its registration until it is dropped: after
/// any run of commands, a user has a subscription if the last of its
/// registrations and drops was a registration, or, where there was none, if it
/// had one before.
pub proof fn lemma_subscribed_while_registered(
    app: AppModel,
    commands: Seq<CommandView>,
    moments: Seq<Timestamp>,
    user: UserView,
)
    requires
        moments.len() == commands.len(),
    ensures
        app.after_run(commands, moments).subscribers.contains(user) == subscribed_after(
            app.subscribers.contains(user),
            commands,
            user,
        ),
    decreases commands.len(),
{
    if commands.len() > 0 {
        lemma_subscribed_while_registered(app, commands.drop_last(), moments.drop_last(), user);
    }
}

/// Whether every room of one state is a room of another, at the same place and
/// under the same name.
pub open spec fn rooms_kept(before: StateModel, after: StateModel) -> bool {
    &&& before.rooms.len() <= after.rooms.len()
    &&& forall|i: int|
        0 <= i < before.rooms.len() ==> (#[trigger] after.rooms[i]).name == before.rooms[i].name
}

/// Entering a room destroys no room.
proof fn lemma_insert_keeps_rooms(s: StateModel, user: UserView, room: Seq<char>, now: Timestamp)
    ensures
        rooms_kept(s, s.insert_occupant(user, room, now).0),
{
    lemma_find_room(s, room);
    let added = s.add_user(user, room);
    assert(rooms_kept(s, added));
    lemma_occupied_room(added, user);
}

/// Leaving a room destroys no room.
proof fn lemma_remove_keeps_rooms(s: StateModel, user: UserView, now: Timestamp)
    ensures
        rooms_kept(s, s.remove_occupant(user, now).0),
{
    lemma_occupied_room(s, user);
}

/// Rooms are never destroyed: after a command every room that existed before
/// still exists, under its name.
pub proof fn lemma_rooms_persist(s: StateModel, command: CommandView, now: Timestamp)
    ensures
        rooms_kept(s, s.handle(command, now)),
{
    let user = command.user;
    lemma_occupied_room(s, user);
    match command.payload {
        CommandPayloadView::RegisterUser => {
            lemma_insert_keeps_rooms(s, user, hub_name(), now);
        },
        CommandPayloadView::DropUser => {
            lemma_remove_keeps_rooms(s, user, now);
        },
        CommandPayloadView::MoveUser { target_room } => {
            lemma_remove_keeps_rooms(s, user, now);
            lemma_insert_keeps_rooms(s.remove_occupant(user, now).0, user, target_room, now);
        },
        _ => {},
    }
}

/// A command keeps every user in at most one room, and there once, unless it
/// is an effective registration of a user that some room already lists.
pub proof fn lemma_step_exclusive(app: AppModel, command: CommandView, now: Timestamp)
    requires
        app.state.exclusive(),
        !app.registers_occupant(command),
    ensures
        app.step(command, now).state.exclusive(),
        app.step(command, now).state.one_room_per_user(),
{
    if !app.drops(command) {
        lemma_handle_exclusive(app.state, command, now);
    }
}

/// A command from a live session keeps the application coherent.
pub proof fn lemma_step_coherent(app: AppModel, command: CommandView, now: Timestamp)
    requires
        app.coherent(),
        app.admits(command),
    ensures
        app.step(command, now).coherent(),
{
    let after = app.step(command, now);
    let user = command.user;
    lemma_step_wf(app, command, now);
    if app.drops(command) {
        return ;
    }
    if command.payload is RegisterUser {
        assert(!app.state.is_occupant(user));
    }
    lemma_step_exclusive(app, command, now);
    assert forall|u: UserView| after.state.is_occupant(u) implies after.subscribers.contains(u) by {
        lemma_occupants_after(app.state, command, now, u);
        if u == user {
            match command.payload {
                CommandPayloadView::DropUser => {
                    lemma_drop_leaves_no_trace(app.state, user, now);
                },
                _ => {},
            }
        }
    }
}

/// No user is ever in more than one room: over any run of commands in which no
/// user is registered while a room lists it, started where every user is in
/// one room at most and there once, that stays so.
pub proof fn lemma_run_exclusive(app: AppModel, commands: Seq<CommandView>, moments: Seq<Timestamp>)
    requires
        app.state.exclusive(),
        moments.len() == commands.len(),
        app.never_registers_occupant(commands, moments),
    ensures
        app.after_run(commands, moments).state.exclusive(),
        app.after_run(commands, moments).state.one_room_per_user(),
    decreases commands.len(),
{
    if commands.len() == 0 {
    } else {
        let n = commands.len() - 1;
        let head = commands.drop_last();
        let head_moments = moments.drop_last();
        assert(head =~= commands.take(n));
        assert(head_moments =~= moments.take(n));
        assert forall|k: int| 0 <= k < head.len() implies !#[trigger] app.after_run(
            head.take(k),
            head_moments.take(k),
        ).registers_occupant(head[k]) by {
            assert(head.take(k) =~= commands.take(k));
            assert(head_moments.take(k) =~= moments.take(k));
            let at = app.after_run(commands.take(k), moments.take(k));
            assert(!at.registers_occupant(commands[k]));
        }
        lemma_run_exclusive(app, head, head_moments);
        assert(!app.after_run(commands.take(n), moments.take(n)).registers_occupant(commands[n]));
        lemma_step_exclusive(app.after_run(head, head_moments), commands.last(), moments.last());
    }
}

/// Sessions keep the application coherent: over any run of commands from live
/// sessions, started from a coherent application, every user stays in one room
/// at most, every occupant stays subscribed, and no user is registered while a
/// room lists it.
pub proof fn lemma_run_coherent(app: AppModel, commands: Seq<CommandView>, moments: Seq<Timestamp>)
    requires
        app.coherent(),
        moments.len() == commands.len(),
        app.admits_run(commands, moments),
    ensures
        app.after_run(commands, moments).coherent(),
        app.after_run(commands, moments).state.one_room_per_user(),
        app.never_registers_occupant(commands, moments),
    decreases commands.len(),
{
    if commands.len() == 0 {
    } else {
        let n = commands.len() - 1;
        let head = commands.drop_last();
        let head_moments = moments.drop_last();
        assert(head =~= commands.take(n));
        assert(head_moments =~= moments.take(n));
        assert forall|k: int| 0 <= k < head.len() implies #[trigger] app.after_run(
            head.take(k),
            head_moments.take(k),
        ).admits(head[k]) by {
            assert(head.take(k) =~= commands.take(k));
            assert(head_moments.take(k) =~= moments.take(k));
            assert(app.after_run(commands.take(k), moments.take(k)).admits(commands[k]));
        }
        lemma_run_coherent(app, head, head_moments);
        assert(app.after_run(commands.take(n), moments.take(n)).admits(commands[n]));
        lemma_step_coherent(app.after_run(head, head_moments), commands.last(), moments.last());
        assert forall|k: int| 0 <= k < commands.len() implies !#[trigger] app.after_run(
            commands.take(k),
            moments.take(k),
        ).registers_occupant(commands[k]) by {
            if k < n {
                assert(head.take(k) =~= commands.take(k));
                assert(head_moments.take(k) =~= moments.take(k));
                let at = app.after_run(head.take(k), head_moments.take(k));
                assert(!at.registers_occupant(head[k]));
            } else {
                assert(app.after_run(head, head_moments).coherent());
            }
        }
    }
}

/// The application at start is coherent.
pub proof fn lemma_initial_coherent()
    ensures
        AppModel::initial().coherent(),
{
    let s = StateModel::initial();
    let holds = room_named(s.rooms, hub_name());
    assert(is_first(holds, 1, 0));
    lemma_first_index_is(holds, 1, 0);
    assert forall|user: UserView| !s.is_occupant(user) by {
        if s.is_occupant(user) {
            let i = choose|i: int|
                0 <= i < s.rooms.len() && #[trigger] s.rooms[i].occupants.contains(user);
            assert(s.rooms[0].occupants.len() == 0);
        }
    }
    assert(s.rooms[0].logs_bounded());
}

/// Whoever occupies a room after a command occupied one before it, or is the
/// user of the command.
proof fn lemma_occupants_after(s: StateModel, command: CommandView, now: Timestamp, u: UserView)
    requires
        s.handle(command, now).is_occupant(u),
    ensures
        s.is_occupant(u) || (u == command.user && (command.payload is RegisterUser
            || command.payload is MoveUser)),
{
    let user = command.user;
    lemma_occupied_room(s, user);
    match command.payload {
        CommandPayloadView::RegisterUser => {
            lemma_insert_keeps_others(s, user, hub_name(), now, u);
        },
        CommandPayloadView::DropUser => {
            lemma_remove_keeps_others(s, user, now, u);
        },
        CommandPayloadView::MoveUser { target_room } => {
            lemma_insert_keeps_others(s.remove_occupant(user, now).0, user, target_room, now, u);
            if u != user {
                lemma_remove_keeps_others(s, user, now, u);
            }
        },
        CommandPayloadView::RecordMessage { message } => {
            match s.occupied_room(user) {
                Some(i) => {
                    lemma_with_room_same_occupants(
                        s,
                        i,
                        s.rooms[i].with_chat(
                            MessageLogView {
                                username: user.name,
                                timestamp: now,
                                contents: message,
                            },
                        ),
                    );
                },
                None => {},
            }
        },
        _ => {},
    }
}

/// Entering a room makes nobody but the entering user an occupant.
proof fn lemma_insert_keeps_others(
    s: StateModel,
    user: UserView,
    room: Seq<char>,
    now: Timestamp,
    u: UserView,
)
    requires
        s.insert_occupant(user, room, now).0.is_occupant(u),
    ensures
        u == user || s.is_occupant(u),
{
    let added = s.add_user(user, room);
    let notice = NotificationLogView::joined(user.name, room, now);
    lemma_occupied_room(added, user);
    match added.occupied_room(user) {
        Some(i) => {
            lemma_with_room_same_occupants(added, i, added.rooms[i].with_notice(notice));
        },
        None => {},
    }
    assert(added.is_occupant(u));
    let j = choose|j: int|
        0 <= j < added.rooms.len() && #[trigger] added.rooms[j].occupants.contains(u);
    lemma_find_room(s, room);
    match s.find_room(room) {
        Some(i) => {
            if j == i {
                let list = added.rooms[j].occupants;
                let k = choose|k: int| 0 <= k < list.len() && list[k] == u;
                if k < s.rooms[i].occupants.len() {
                    assert(s.rooms[i].occupants[k] == u);
                    assert(s.rooms[i].occupants.contains(u));
                }
            } else {
                assert(s.rooms[j].occupants.contains(u));
            }
        },
        None => {
            if j == s.rooms.len() {
                let list = added.rooms[j].occupants;
                let k = choose|k: int| 0 <= k < list.len() && list[k] == u;
                assert(list[k] == user);
            } else {
                assert(s.rooms[j].occupants.contains(u));
            }
        },
    }
}

/// Leaving a room makes nobody an occupant.
proof fn lemma_remove_keeps_others(s: StateModel, user: UserView, now: Timestamp, u: UserView)
    requires
        s.remove_occupant(user, now).0.is_occupant(u),
    ensures
        s.is_occupant(u),
{
    lemma_occupied_room(s, user);
    match s.occupied_room(user) {
        Some(i) => {
            let after = s.remove_occupant(user, now).0;
            let j = choose|j: int|
                0 <= j < after.rooms.len() && #[trigger] after.rooms[j].occupants.contains(u);
            if j == i {
                let list = s.rooms[i].occupants;
                let holds = seat_of(list, user);
                lemma_first_index(holds, list.len() as int);
                match first_index(holds, list.len() as int) {
                    Some(k) => {
                        lemma_swap_removed(list, k);
                    },
                    None => {},
                }
                assert(s.rooms[i].occupants.contains(u));
            } else {
                assert(s.rooms[j].occupants.contains(u));
            }
        },
        None => {},
    }
}

/// After a user is dropped from a state in which every user is in one room at
/// most, and there once, no room lists it.
proof fn lemma_drop_leaves_no_trace(s: StateModel, user: UserView, now: Timestamp)
    requires
        s.exclusive(),
    ensures
        !s.drop_user(user, now).0.is_occupant(user),
{
    lemma_occupied_room(s, user);
    match s.occupied_room(user) {
        Some(i) => {
            lemma_remove_user_exclusive(
                s,
                user,
                NotificationLogView::left(user.name, s.rooms[i].name, now),
            );
        },
        None => {},
    }
}

/// What the handler does with the drop of a user that a room lists, where every
/// user is in one room at most and there once: afterwards no room lists the
/// user, every other user is where it was, and one departure is announced, from
/// the room that the user was in, with the names of those left in it, to those
/// who were in it.
pub proof fn lemma_handle_drop(s: StateModel, user: UserView, now: Timestamp)
    requires
        s.wf(),
        s.exclusive(),
        s.is_occupant(user),
    ensures
        ({
            let command = CommandView { user, payload: CommandPayloadView::DropUser };
            let after = s.handle(command, now);
            let r = s.occupied_room(user)->0;
            let told = s.broadcasts(command, now);
            &&& s.occupied_room(user) is Some
            &&& !after.is_occupant(user)
            &&& after.rooms.len() == s.rooms.len()
            &&& forall|other: UserView, j: int|
                other != user && 0 <= j < s.rooms.len() ==> (
                #[trigger] after.rooms[j].occupants.contains(other)
                    <==> s.rooms[j].occupants.contains(other))
            &&& told.len() == 1
            &&& told[0].event is UserLeft
            &&& told[0].event->UserLeft_user == user
            &&& told[0].event->UserLeft_room == s.rooms[r].name
            &&& told[0].event->UserLeft_snapshot.occupant_names == names_of(
                after.rooms[r].occupants,
            )
            &&& told[0].subscribers == s.rooms[r].occupants
        }),
{
    let command = CommandView { user, payload: CommandPayloadView::DropUser };
    let after = s.handle(command, now);
    lemma_occupied_room(s, user);
    let r = s.occupied_room(user)->0;
    let notice = NotificationLogView::left(user.name, s.rooms[r].name, now);
    lemma_drop_leaves_no_trace(s, user, now);
    lemma_handle_wf(s, command, now);
    lemma_find_room_at(s, r);
    lemma_find_room_at(after, r);
    let list = s.rooms[r].occupants;
    let holds = seat_of(list, user);
    lemma_first_index(holds, list.len() as int);
    assert(first_index(holds, list.len() as int) is Some) by {
        let k = choose|k: int| 0 <= k < list.len() && list[k] == user;
        assert(holds(k));
    }
    let k = first_index(holds, list.len() as int)->0;
    assert(holds(k));
    lemma_swap_removed(list, k);
    assert(after.rooms[r].occupants == swap_removed(list, k));
    assert forall|other: UserView, j: int| other != user && 0 <= j < s.rooms.len() implies (
    #[trigger] after.rooms[j].occupants.contains(other) <==> s.rooms[j].occupants.contains(
        other,
    )) by {
        if j == r {
            if s.rooms[j].occupants.contains(other) {
                assert(swap_removed(list, k).contains(other));
            }
            if after.rooms[j].occupants.contains(other) {
                assert(list.contains(other));
            }
        }
    }
}

/// Dropping a user cleans up after it: afterwards it has no subscription, and,
/// where every user was in one room at most and there once, no room lists it.
/// The departure is announced once, to the user among others.
pub proof fn lemma_drop_cleanup(app: AppModel, command: CommandView, now: Timestamp)
    requires
        app.state.wf(),
        command.payload is DropUser,
    ensures
        !app.step(command, now).subscribers.contains(command.user),
        app.state.exclusive() ==> !app.step(command, now).state.is_occupant(command.user),
        app.published(command, now).len() == 1,
        app.published(command, now)[0].event is UserLeft,
        app.published(command, now)[0].event->UserLeft_user == command.user,
        app.published(command, now)[0].subscribers.contains(command.user),
{
    let user = command.user;
    let s = app.state;
    if s.exclusive() {
        lemma_drop_leaves_no_trace(s, user, now);
    }
    lemma_occupied_room(s, user);
    let told = s.drop_user(user, now).1;
    assert(app.published(command, now) =~= seq![told]);
    match s.occupied_room(user) {
        Some(i) => {
            lemma_find_room_at(s, i);
        },
        None => {
            let list = s.occupancy(hub_name()).push(user);
            assert(list.last() == user);
        },
    }
}

/// What a command publishes holds a chat message exactly where the command
/// records one: that message, and nothing else.
pub proof fn lemma_step_chat(app: AppModel, command: CommandView, now: Timestamp)
    ensures
        chat_events(app.published(command, now)) == (match command.payload {
            CommandPayloadView::RecordMessage { message } => seq![
                MessageLogView { username: command.user.name, timestamp: now, contents: message },
            ],
            _ => Seq::empty(),
        }),
{
    let bs = app.published(command, now);
    let user = command.user;
    if app.drops(command) {
        return ;
    }
    match command.payload {
        CommandPayloadView::RegisterUser => {
            assert(bs =~= seq![bs[0], bs[1]]);
            lemma_chat_events_two(bs[0], bs[1]);
            lemma_chat_events_one(bs[0]);
            lemma_chat_events_one(bs[1]);
            assert(chat_events(bs) =~= Seq::empty());
        },
        CommandPayloadView::DropUser => {
            assert(bs =~= seq![bs[0]]);
            assert(bs[0].event is UserLeft);
            lemma_chat_events_one(bs[0]);
        },
        CommandPayloadView::MoveUser { target_room } => {
            let (vacated, left) = app.state.remove_occupant(user, now);
            match left {
                Some(b) => {
                    assert(bs =~= seq![bs[0], bs[1]]);
                    assert(bs[0].event is UserLeft);
                    assert(bs[1].event is UserJoined);
                    lemma_chat_events_two(bs[0], bs[1]);
                    lemma_chat_events_one(bs[0]);
                    lemma_chat_events_one(bs[1]);
                    assert(chat_events(bs) =~= Seq::empty());
                },
                None => {
                    assert(bs =~= seq![bs[0]]);
                    assert(bs[0].event is UserJoined);
                    lemma_chat_events_one(bs[0]);
                },
            }
        },
        CommandPayloadView::RecordMessage { message } => {
            assert(bs =~= seq![bs[0]]);
            lemma_chat_events_one(bs[0]);
        },
        _ => {
            assert(bs.len() == 0);
        },
    }
}

/// What a command publishes for a user holds a chat message exactly where the
/// command records one while the sender shares a room with the user.
proof fn lemma_step_chat_for(
    app: AppModel,
    command: CommandView,
    now: Timestamp,
    recipient: UserView,
)
    ensures
        chat_events_for(app.published(command, now), recipient) == (match command.payload {
            CommandPayloadView::RecordMessage { message } => if app.state.room_mates(
                command.user,
            ).contains(recipient) {
                seq![
                    MessageLogView {
                        username: command.user.name,
                        timestamp: now,
                        contents: message,
                    },
                ]
            } else {
                Seq::empty()
            },
            _ => Seq::empty(),
        }),
{
    let bs = app.published(command, now);
    let user = command.user;
    if app.drops(command) {
        return ;
    }
    match command.payload {
        CommandPayloadView::RegisterUser => {
            assert(bs =~= seq![bs[0], bs[1]]);
            lemma_chat_events_for_two(bs[0], bs[1], recipient);
            lemma_chat_events_for_one(bs[0], recipient);
            lemma_chat_events_for_one(bs[1], recipient);
            assert(chat_events_for(bs, recipient) =~= Seq::empty());
        },
        CommandPayloadView::DropUser => {
            assert(bs =~= seq![bs[0]]);
            assert(bs[0].event is UserLeft);
            lemma_chat_events_for_one(bs[0], recipient);
        },
        CommandPayloadView::MoveUser { target_room } => {
            let (vacated, left) = app.state.remove_occupant(user, now);
            match left {
                Some(b) => {
                    assert(bs =~= seq![bs[0], bs[1]]);
                    assert(bs[0].event is UserLeft);
                    assert(bs[1].event is UserJoined);
                    lemma_chat_events_for_two(bs[0], bs[1], recipient);
                    lemma_chat_events_for_one(bs[0], recipient);
                    lemma_chat_events_for_one(bs[1], recipient);
                    assert(chat_events_for(bs, recipient) =~= Seq::empty());
                },
                None => {
                    assert(bs =~= seq![bs[0]]);
                    assert(bs[0].event is UserJoined);
                    lemma_chat_events_for_one(bs[0], recipient);
                },
            }
        },
        CommandPayloadView::RecordMessage { message } => {
            assert(bs =~= seq![bs[0]]);
            lemma_chat_events_for_one(bs[0], recipient);
        },
        _ => {
            assert(bs.len() == 0);
        },
    }
}

/// Every recipient is told chat messages in the order in which they were sent:
/// over any run of commands, the chat messages published for a user are those
/// that were recorded while their sender shared a room with the user, one for
/// one and in the order of the commands. In particular no user is told two
/// messages of one sender in another order than they were sent in.
pub proof fn lemma_chat_order_for(
    app: AppModel,
    commands: Seq<CommandView>,
    moments: Seq<Timestamp>,
    recipient: UserView,
)
    requires
        moments.len() == commands.len(),
    ensures
        chat_events_for(app.run_published(commands, moments), recipient) == chat_sent_to(
            app,
            commands,
            moments,
            recipient,
        ),
    decreases commands.len(),
{
    if commands.len() == 0 {
    } else {
        let head = commands.drop_last();
        let head_moments = moments.drop_last();
        lemma_chat_order_for(app, head, head_moments, recipient);
        lemma_step_chat_for(
            app.after_run(head, head_moments),
            commands.last(),
            moments.last(),
            recipient,
        );
        lemma_chat_events_for_add(
            app.run_published(head, head_moments),
            app.after_run(head, head_moments).published(commands.last(), moments.last()),
            recipient,
        );
    }
}

/// Chat messages are published in the order in which they were sent: over any
/// run of commands, the chat messages among what is published are those that
/// the commands recorded, one for one and in the same order. So no recipient
/// sees two messages of one sender in another order than they were sent in.
pub proof fn lemma_chat_order(app: AppModel, commands: Seq<CommandView>, moments: Seq<Timestamp>)
    requires
        moments.len() == commands.len(),
    ensures
        chat_events(app.run_published(commands, moments)) == chat_sent(commands, moments),
    decreases commands.len(),
{
    if commands.len() == 0 {
    } else {
        let head = commands.drop_last();
        let head_moments = moments.drop_last();
        lemma_chat_order(app, head, head_moments);
        lemma_step_chat(app.after_run(head, head_moments), commands.last(), moments.last());
        lemma_chat_events_add(
            app.run_published(head, head_moments),
            app.after_run(head, head_moments).published(commands.last(), moments.last()),
        );
    }
}

} // verus!
