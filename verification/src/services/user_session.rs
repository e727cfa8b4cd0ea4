//! One session per connected client: what it does with each frame from the
//! client and with each event from the application.
//!
//! The session decides; its caller reads and writes the socket, decrypts what
//! comes in and encrypts what goes out, waits for events, and hands all of it
//! to [`SessionWorker::advance`].

use crate::domain::commands::{Command, CommandPayload, CommandPayloadView, CommandView};
use crate::domain::events::{Event, EventView};
use crate::domain::model::{lemma_views_push, views};
use crate::domain::room::Room;
use crate::domain::timestamp::Timestamp;
use crate::domain::user::{User, UserView};
use crate::services::message_builder::{msg_log_msg, room_data_msg, time_msg, SocketSendAdaptor};
use crate::trusted::{channel_send, new_channel};
use crate::wire::codec::deserialize_client_msg;
use crate::wire::format::{client_msg_of, enc_server_msg};
use crate::wire::messages::{ClientMsg, ClientMsgBody, ClientMsgBodyView, ClientMsgView};
use futures_channel::mpsc::{UnboundedReceiver, UnboundedSender};
use vstd::prelude::*;

verus! {

/// Why a session could not do what was asked of it.
#[derive(Clone, Copy, Debug, PartialEq, Eq, Structural)]
pub enum SessionError {
    /// The session has handed out its event channel before.
    SinkTaken,
    /// The gateway no longer takes commands.
    GatewayClosed,
    /// The message does not carry the session's token.
    WrongToken,
    /// The message asks for what a session does not do: a second login.
    UnexpectedBody,
}

/// Where a session stands in its life.
#[derive(Clone, Copy, Debug, PartialEq, Eq, Structural)]
pub enum SessionPhase {
    /// Made, not yet registered with the application.
    Fresh,
    /// Registered: frames and events are taken.
    Running,
    /// The application was asked to drop the user; its farewell is awaited.
    Leaving,
    /// Over: nothing more is done.
    Over,
}

/// Model of an [`Inbound`].
pub enum InboundView {
    Binary(Seq<u8>),
    Close,
    Other,
    Failed,
}

/// What the client's socket yielded.
#[derive(Debug, PartialEq, Eq)]
pub enum Inbound {
    /// A binary frame with its payload.
    Binary(Vec<u8>),
    /// A close frame.
    Close,
    /// A text, ping, pong or raw frame.
    Other,
    /// A read error.
    Failed,
}

impl View for Inbound {
    type V = InboundView;

    open spec fn view(&self) -> InboundView {
        match *self {
            Inbound::Binary(data) => InboundView::Binary(data@),
            Inbound::Close => InboundView::Close,
            Inbound::Other => InboundView::Other,
            Inbound::Failed => InboundView::Failed,
        }
    }
}

/// Model of a [`SessionStep`].
pub enum SessionStepView {
    Continue,
    Decrypt(Seq<u8>),
    Send(Seq<u8>),
    End,
}

/// What the caller of a session is to do next.
#[derive(Debug, PartialEq, Eq)]
pub enum SessionStep {
    /// Nothing; wait for the next frame or event.
    Continue,
    /// Decrypt these bytes with the session's key and hand the outcome back as
    /// [`SessionInput::Decrypted`].
    Decrypt(Vec<u8>),
    /// Encrypt these bytes with the session's key and write them to the socket.
    Send(Vec<u8>),
    /// The session is to end; said by [`SessionWorker::advance`], it has ended.
    End,
}

impl View for SessionStep {
    type V = SessionStepView;

    open spec fn view(&self) -> SessionStepView {
        match *self {
            SessionStep::Continue => SessionStepView::Continue,
            SessionStep::Decrypt(data) => SessionStepView::Decrypt(data@),
            SessionStep::Send(data) => SessionStepView::Send(data@),
            SessionStep::End => SessionStepView::End,
        }
    }
}

/// Model of a [`SessionInput`].
pub enum SessionInputView {
    Frame(InboundView),
    Decrypted(Option<Seq<u8>>),
    Event(EventView),
    WriteFailed,
}

/// What a session is told by its caller.
#[derive(Debug)]
pub enum SessionInput {
    /// What the client's socket yielded.
    Frame(Inbound),
    /// The outcome of decrypting a frame: the plain bytes, or nothing where the
    /// frame could not be decrypted.
    Decrypted(Option<Vec<u8>>),
    /// An event from the application.
    Event(Event),
    /// An answer could not be encrypted or written to the socket.
    WriteFailed,
}

impl View for SessionInput {
    type V = SessionInputView;

    open spec fn view(&self) -> SessionInputView {
        match *self {
            SessionInput::Frame(frame) => SessionInputView::Frame(frame@),
            SessionInput::Decrypted(plaintext) => SessionInputView::Decrypted(
                option_bytes_view(plaintext),
            ),
            SessionInput::Event(event) => SessionInputView::Event(event@),
            SessionInput::WriteFailed => SessionInputView::WriteFailed,
        }
    }
}

/// Model of a [`Reaction`].
pub enum ReactionView {
    End,
    Skip,
    Forward(CommandView),
    Reply(Seq<u8>),
}

/// What a session makes of a decrypted frame.
#[derive(Debug)]
pub enum Reaction {
    /// The frame could not be decrypted: the session is out of step and ends.
    End,
    /// The frame is no message, or a message that the session does not act on.
    Skip,
    /// The command to send to the application.
    Forward(Command),
    /// The bytes, before encryption, of the answer that the session gives itself.
    Reply(Vec<u8>),
}

impl View for Reaction {
    type V = ReactionView;

    open spec fn view(&self) -> ReactionView {
        match *self {
            Reaction::End => ReactionView::End,
            Reaction::Skip => ReactionView::Skip,
            Reaction::Forward(command) => ReactionView::Forward(command@),
            Reaction::Reply(bytes) => ReactionView::Reply(bytes@),
        }
    }
}

/// The model of an optional run of bytes.
pub open spec fn option_bytes_view(bytes: Option<Vec<u8>>) -> Option<Seq<u8>> {
    match bytes {
        Some(b) => Some(b@),
        None => None,
    }
}

/// What is to be done with a frame: a binary frame is decrypted, a close frame
/// or a read error ends the session, anything else is passed over.
pub open spec fn frame_step(frame: InboundView) -> SessionStepView {
    match frame {
        InboundView::Binary(data) => SessionStepView::Decrypt(data),
        InboundView::Close => SessionStepView::End,
        InboundView::Failed => SessionStepView::End,
        InboundView::Other => SessionStepView::Continue,
    }
}

/// The command that a message from the session's client stands for. The
/// message must carry the session's token; a login is no command.
pub open spec fn parsed_command(user: UserView, msg: ClientMsgView, now: Timestamp) -> Result<
    CommandView,
    SessionError,
> {
    if msg.token != Some(user.id) {
        Err(SessionError::WrongToken)
    } else {
        match msg.body {
            ClientMsgBodyView::SendToRoom { contents } => Ok(
                CommandView {
                    user,
                    payload: CommandPayloadView::RecordMessage { message: contents },
                },
            ),
            ClientMsgBodyView::Move { target } => Ok(
                CommandView { user, payload: CommandPayloadView::MoveUser { target_room: target } },
            ),
            ClientMsgBodyView::GetTime => Ok(
                CommandView { user, payload: CommandPayloadView::Time(now) },
            ),
            ClientMsgBodyView::Login(_, _) => Err(SessionError::UnexpectedBody),
        }
    }
}

/// What a session makes of the outcome of decrypting a frame, at a given
/// moment. A frame that could not be decrypted ends the session; bytes that are
/// no message, or a message that stands for no command, are passed over; a
/// time request is answered with the moment; any other command is forwarded.
pub open spec fn reaction(user: UserView, plaintext: Option<Seq<u8>>, now: Timestamp)
    -> ReactionView {
    match plaintext {
        None => ReactionView::End,
        Some(bytes) => match client_msg_of(bytes) {
            None => ReactionView::Skip,
            Some(msg) => match parsed_command(user, msg, now) {
                Err(_) => ReactionView::Skip,
                Ok(command) => match command.payload {
                    CommandPayloadView::Time(t) => ReactionView::Reply(enc_server_msg(time_msg(t))),
                    _ => ReactionView::Forward(command),
                },
            },
        },
    }
}

/// The bytes, before encryption, that an event is told to the client with, at a
/// given moment; none for the confirmation of the registration.
pub open spec fn event_frame(event: EventView, now: Timestamp) -> Option<Seq<u8>> {
    match event {
        EventView::UserRegistered { token } => None,
        EventView::MsgReceived { msg } => Some(enc_server_msg(msg_log_msg(msg))),
        EventView::UserJoined { user, room, snapshot } => Some(
            enc_server_msg(
                room_data_msg(
                    snapshot.msg_log,
                    snapshot.notifications,
                    snapshot.occupant_names,
                    now,
                ),
            ),
        ),
        EventView::UserLeft { user, room, snapshot } => Some(
            enc_server_msg(
                room_data_msg(
                    snapshot.msg_log,
                    snapshot.notifications,
                    snapshot.occupant_names,
                    now,
                ),
            ),
        ),
    }
}

/// Whether an event tells a session that its own user has left: the sign that
/// the application has finished with the user.
pub open spec fn is_farewell(user: UserView, event: EventView) -> bool {
    event is UserLeft && event->UserLeft_user == user
}

/// What to do with an event, as a step.
pub open spec fn event_step(event: EventView, now: Timestamp) -> SessionStepView {
    match event_frame(event, now) {
        Some(bytes) => SessionStepView::Send(bytes),
        None => SessionStepView::Continue,
    }
}

/// The request that makes a user known to the application.
pub open spec fn registration_of(user: UserView) -> CommandView {
    CommandView { user, payload: CommandPayloadView::RegisterUser }
}

/// The request to drop a user.
pub open spec fn drop_request_of(user: UserView) -> CommandView {
    CommandView { user, payload: CommandPayloadView::DropUser }
}

/// The commands that a session hands to the gateway on an input, in order,
/// given the moment of the input and whether the gateway took the command that
/// was forwarded, if one was. Only a running session hands on anything: the
/// command that a frame stands for, and, wherever it sets out to leave, the
/// request to drop its user, once and last.
pub open spec fn handed_on(
    user: UserView,
    phase: SessionPhase,
    input: SessionInputView,
    now: Timestamp,
    forwarded: bool,
) -> Seq<CommandView> {
    if phase != SessionPhase::Running {
        Seq::empty()
    } else {
        match input {
            SessionInputView::Frame(frame) => match frame_step(frame) {
                SessionStepView::End => seq![drop_request_of(user)],
                _ => Seq::empty(),
            },
            SessionInputView::Decrypted(plaintext) => match reaction(user, plaintext, now) {
                ReactionView::End => seq![drop_request_of(user)],
                ReactionView::Forward(command) => if forwarded {
                    seq![command]
                } else {
                    seq![command, drop_request_of(user)]
                },
                _ => Seq::empty(),
            },
            SessionInputView::Event(_) => Seq::empty(),
            SessionInputView::WriteFailed => seq![drop_request_of(user)],
        }
    }
}

/// A running session never leaves the main loop without asking for the drop:
/// on whatever input it stops running, the last command it hands to the
/// gateway is the request to drop its user, and what it hands on before that is
/// no such request.
pub proof fn lemma_leaving_asks_for_the_drop(
    user: UserView,
    input: SessionInputView,
    now: Timestamp,
    forwarded: bool,
    asked: bool,
)
    requires
        advanced(user, SessionPhase::Running, input, now, forwarded, asked).0
            != SessionPhase::Running,
    ensures
        handed_on(user, SessionPhase::Running, input, now, forwarded).len() >= 1,
        handed_on(user, SessionPhase::Running, input, now, forwarded).last() == drop_request_of(
            user,
        ),
        forall|k: int|
            0 <= k < handed_on(user, SessionPhase::Running, input, now, forwarded).len() - 1
                ==> !(#[trigger] handed_on(
                user,
                SessionPhase::Running,
                input,
                now,
                forwarded,
            )[k].payload is DropUser),
{
    match input {
        SessionInputView::Decrypted(plaintext) => {
            match reaction(user, plaintext, now) {
                ReactionView::Forward(command) => {
                    assert(!(command.payload is DropUser));
                },
                _ => {},
            }
        },
        SessionInputView::Event(event) => {
            assert(event_step(event, now) != SessionStepView::End);
        },
        _ => {},
    }
}

/// Where a running session stands after it set out to leave, and what its
/// caller is to do: it awaits the farewell if the gateway took the request to
/// drop the user, and is over if not.
pub open spec fn left(asked: bool) -> (SessionPhase, SessionStepView) {
    if asked {
        (SessionPhase::Leaving, SessionStepView::Continue)
    } else {
        (SessionPhase::Over, SessionStepView::End)
    }
}

/// The life of a session, one input at a time: the phase after an input and
/// what the caller is to do, given the moment of the input, whether the
/// gateway took the command that was forwarded, if one was, and whether it took
/// the request to drop the user, if one was made.
///
/// A running session decrypts binary frames, acts on what they hold, and tells
/// its client of events. It sets out to leave on a close frame, a read error, a
/// frame that cannot be decrypted, a failed write and a gateway that takes no
/// command; it never ends without having asked the application to drop its
/// user. A leaving session waits for the event that tells of its own user's
/// departure and passes over everything else.
pub open spec fn advanced(
    user: UserView,
    phase: SessionPhase,
    input: SessionInputView,
    now: Timestamp,
    forwarded: bool,
    asked: bool,
) -> (SessionPhase, SessionStepView) {
    match phase {
        SessionPhase::Fresh => (SessionPhase::Fresh, SessionStepView::Continue),
        SessionPhase::Over => (SessionPhase::Over, SessionStepView::End),
        SessionPhase::Leaving => match input {
            SessionInputView::Event(event) => if is_farewell(user, event) {
                (SessionPhase::Over, SessionStepView::End)
            } else {
                (SessionPhase::Leaving, SessionStepView::Continue)
            },
            _ => (SessionPhase::Leaving, SessionStepView::Continue),
        },
        SessionPhase::Running => match input {
            SessionInputView::Frame(frame) => match frame_step(frame) {
                SessionStepView::End => left(asked),
                step => (SessionPhase::Running, step),
            },
            SessionInputView::Decrypted(plaintext) => match reaction(user, plaintext, now) {
                ReactionView::End => left(asked),
                ReactionView::Skip => (SessionPhase::Running, SessionStepView::Continue),
                ReactionView::Reply(bytes) => (SessionPhase::Running, SessionStepView::Send(bytes)),
                ReactionView::Forward(_) => if forwarded {
                    (SessionPhase::Running, SessionStepView::Continue)
                } else {
                    left(asked)
                },
            },
            SessionInputView::Event(event) => (SessionPhase::Running, event_step(event, now)),
            SessionInputView::WriteFailed => left(asked),
        },
    }
}

/// The ends of the channels that tie a session to the application.
struct SessionBus {
    app_gateway_sink: UnboundedSender<Command>,
    event_sink: Option<UnboundedSender<Event>>,
    event_source: Option<UnboundedReceiver<Event>>,
    /// The commands handed to the gateway so far, in order.
    handed: Ghost<Seq<Command>>,
}

impl SessionBus {
    /// A bus that sends commands to the given gateway, with a new channel for
    /// the events.
    fn new(gateway_sink: UnboundedSender<Command>) -> (bus: SessionBus)
        ensures
            bus.app_gateway_sink == gateway_sink,
            bus.event_sink is Some,
            bus.event_source is Some,
            bus.handed@ == Seq::<Command>::empty(),
            views(bus.handed@) == Seq::<CommandView>::empty(),
    {
        let (sink, source) = new_channel::<Event>();
        let bus = SessionBus {
            app_gateway_sink: gateway_sink,
            event_sink: Some(sink),
            event_source: Some(source),
            handed: Ghost(Seq::empty()),
        };
        assert(views(bus.handed@) =~= Seq::<CommandView>::empty());
        bus
    }

    /// Hands a command to the gateway, and says whether the gateway took it.
    /// The command is noted as handed on either way.
    fn send_command(&mut self, command: Command) -> (sent: bool)
        ensures
            final(self).handed@ == old(self).handed@.push(command),
            views(final(self).handed@) == views(old(self).handed@).push(command@),
            final(self).app_gateway_sink == old(self).app_gateway_sink,
            final(self).event_sink == old(self).event_sink,
            final(self).event_source == old(self).event_source,
    {
        proof {
            lemma_views_push(self.handed@, command);
        }
        self.handed = Ghost(self.handed@.push(command));
        channel_send(&self.app_gateway_sink, command)
    }
}

/// Model of a [`SessionWorker`].
pub struct SessionView {
    pub user: UserView,
    pub phase: SessionPhase,
    /// Whether the session still holds the sending end of its event channel.
    pub holds_sink: bool,
    /// Whether the session still holds the receiving end of its event channel.
    pub holds_source: bool,
    /// The commands that the session has handed to the gateway, in order.
    pub handed: Seq<CommandView>,
}

/// The session of one client.
pub struct SessionWorker {
    user: User,
    app_socket: SessionBus,
    phase: SessionPhase,
}

impl View for SessionWorker {
    type V = SessionView;

    closed spec fn view(&self) -> SessionView {
        SessionView {
            user: self.user@,
            phase: self.phase,
            holds_sink: self.app_socket.event_sink is Some,
            holds_source: self.app_socket.event_source is Some,
            handed: views(self.app_socket.handed@),
        }
    }
}

impl SessionWorker {
    /// The session of a user, with a new event channel of its own.
    pub fn new(user: User, gateway_sink: UnboundedSender<Command>) -> (worker: SessionWorker)
        ensures
            worker@ == (SessionView {
                user: user@,
                phase: SessionPhase::Fresh,
                holds_sink: true,
                holds_source: true,
                handed: Seq::empty(),
            }),
            worker.gateway_sink() == gateway_sink,
            worker.handed_commands() == Seq::<Command>::empty(),
    {
        SessionWorker {
            user,
            app_socket: SessionBus::new(gateway_sink),
            phase: SessionPhase::Fresh,
        }
    }

    /// The channel to the gateway that the session hands its commands to.
    pub closed spec fn gateway_sink(&self) -> UnboundedSender<Command> {
        self.app_socket.app_gateway_sink
    }

    /// The commands that the session has handed to the gateway, in order, each
    /// as it was, the channel of a registration included.
    pub closed spec fn handed_commands(&self) -> Seq<Command> {
        self.app_socket.handed@
    }

    /// The model's log is that of the commands handed on.
    pub proof fn lemma_handed(&self)
        ensures
            self@.handed == views(self.handed_commands()),
    {
    }

    /// The sending end of the session's event channel, while the session holds
    /// it.
    pub closed spec fn event_sink(&self) -> Option<UnboundedSender<Event>> {
        self.app_socket.event_sink
    }

    /// The session's user.
    pub fn user(&self) -> (user: &User)
        ensures
            user@ == self@.user,
    {
        &self.user
    }

    /// Where the session stands in its life.
    pub fn phase(&self) -> (phase: SessionPhase)
        ensures
            phase == self@.phase,
    {
        self.phase
    }

    /// The key that the session's frames are encrypted with.
    pub fn shared_secret(&self) -> (key: &[u8; 32])
        ensures
            key@ == self@.user.shared_secret,
    {
        &self.user.shared_secret
    }

    /// Hands out the receiving end of the session's event channel, once.
    pub fn take_event_source(&mut self) -> (source: Option<UnboundedReceiver<Event>>)
        ensures
            source is Some <==> old(self)@.holds_source,
            final(self)@ == (SessionView { holds_source: false, ..old(self)@ }),
            final(self).gateway_sink() == old(self).gateway_sink(),
            final(self).event_sink() == old(self).event_sink(),
            final(self).handed_commands() == old(self).handed_commands(),
    {
        self.app_socket.event_source.take()
    }

    /// Hands out the sending end of the session's event channel, once.
    fn give_sink(&mut self) -> (sink: Result<UnboundedSender<Event>, SessionError>)
        ensures
            match sink {
                Ok(s) => old(self).event_sink() == Some(s),
                Err(e) => e == SessionError::SinkTaken && !old(self)@.holds_sink,
            },
            final(self)@ == (SessionView { holds_sink: false, ..old(self)@ }),
            final(self).gateway_sink() == old(self).gateway_sink(),
            final(self).handed_commands() == old(self).handed_commands(),
    {
        match self.app_socket.event_sink.take() {
            Some(sink) => Ok(sink),
            None => Err(SessionError::SinkTaken),
        }
    }

    /// The registration of the session's user, which carries the given channel
    /// for the user's events.
    pub fn registration(&self, sink: UnboundedSender<Event>) -> (command: Command)
        ensures
            command@ == registration_of(self@.user),
            command.payload == CommandPayload::RegisterUser(sink),
    {
        Command { user: self.user.clone(), payload: CommandPayload::RegisterUser(sink) }
    }

    /// The request to drop the session's user.
    pub fn drop_request(&self) -> (command: Command)
        ensures
            command@ == drop_request_of(self@.user),
    {
        Command { user: self.user.clone(), payload: CommandPayload::DropUser }
    }

    /// Starts the session: hands the registration of its user to the gateway,
    /// and with it the sending end of the session's own event channel and no
    /// other. A fresh session that still holds the channel runs afterwards if
    /// the gateway took the registration, and is over if not. Any other session
    /// is refused: it hands on nothing and stays as it is, but for the channel,
    /// which it gives up.
    pub fn register(&mut self) -> (done: Result<(), SessionError>)
        ensures
            final(self)@.user == old(self)@.user,
            final(self)@.holds_source == old(self)@.holds_source,
            final(self).gateway_sink() == old(self).gateway_sink(),
            !final(self)@.holds_sink,
            if old(self)@.phase == SessionPhase::Fresh && old(self)@.holds_sink {
                &&& final(self)@.handed == old(self)@.handed.push(
                    registration_of(old(self)@.user),
                )
                &&& final(self).handed_commands().len() == old(self).handed_commands().len() + 1
                &&& final(self).handed_commands().drop_last() == old(self).handed_commands()
                &&& final(self).handed_commands().last().payload == CommandPayload::RegisterUser(
                    old(self).event_sink()->0,
                )
                &&& match done {
                    Ok(_) => final(self)@.phase == SessionPhase::Running,
                    Err(e) => e == SessionError::GatewayClosed && final(self)@.phase
                        == SessionPhase::Over,
                }
            } else {
                &&& final(self)@.handed == old(self)@.handed
                &&& final(self).handed_commands() == old(self).handed_commands()
                &&& final(self)@.phase == old(self)@.phase
                &&& done == Err::<(), SessionError>(SessionError::SinkTaken)
            },
    {
        let event_sink = match self.give_sink() {
            Ok(sink) => sink,
            Err(e) => {
                return Err(e);
            },
        };
        if self.phase != SessionPhase::Fresh {
            return Err(SessionError::SinkTaken);
        }
        let register = self.registration(event_sink);
        let sent = self.app_socket.send_command(register);
        proof {
            let log = self.handed_commands();
            assert(log.drop_last() =~= old(self).handed_commands());
            assert(log.last() == register);
        }
        if sent {
            self.phase = SessionPhase::Running;
            Ok(())
        } else {
            self.phase = SessionPhase::Over;
            Err(SessionError::GatewayClosed)
        }
    }

    /// Takes one input and says what the caller is to do. The session goes
    /// through its life as [`advanced`] says, with the reading of the system
    /// clock for the moment and with what the gateway answers.
    pub fn advance(&mut self, input: SessionInput) -> (step: SessionStep)
        ensures
            final(self)@.user == old(self)@.user,
            final(self)@.holds_sink == old(self)@.holds_sink,
            final(self)@.holds_source == old(self)@.holds_source,
            final(self).gateway_sink() == old(self).gateway_sink(),
            exists|now: Timestamp, forwarded: bool, asked: bool|
                {
                    &&& now.millis >= 0
                    &&& (final(self)@.phase, step@) == #[trigger] advanced(
                        old(self)@.user,
                        old(self)@.phase,
                        input@,
                        now,
                        forwarded,
                        asked,
                    )
                    &&& final(self)@.handed == old(self)@.handed + handed_on(
                        old(self)@.user,
                        old(self)@.phase,
                        input@,
                        now,
                        forwarded,
                    )
                },
    {
        let now = Timestamp::now();
        proof {
            assert(old(self)@.handed + Seq::<CommandView>::empty() =~= old(self)@.handed);
        }
        match self.phase {
            SessionPhase::Fresh => {
                assert((self@.phase, SessionStepView::Continue) == advanced(
                    self@.user,
                    self@.phase,
                    input@,
                    now,
                    true,
                    true,
                ));
                SessionStep::Continue
            },
            SessionPhase::Over => {
                assert((self@.phase, SessionStepView::End) == advanced(
                    self@.user,
                    self@.phase,
                    input@,
                    now,
                    true,
                    true,
                ));
                SessionStep::End
            },
            SessionPhase::Leaving => {
                let over = match &input {
                    SessionInput::Event(event) => self.is_farewell(event),
                    _ => false,
                };
                if over {
                    self.phase = SessionPhase::Over;
                }
                let step = if over {
                    SessionStep::End
                } else {
                    SessionStep::Continue
                };
                assert((self@.phase, step@) == advanced(
                    old(self)@.user,
                    old(self)@.phase,
                    input@,
                    now,
                    true,
                    true,
                ));
                step
            },
            SessionPhase::Running => {
                let ghost mut forwarded = true;
                let step = match input {
                    SessionInput::Frame(frame) => self.on_frame(frame),
                    SessionInput::Decrypted(plaintext) => {
                        let made = self.react(plaintext, now);
                        let ghost wanted = made@;
                        let step = self.perform(made);
                        proof {
                            if wanted is Forward && step@ == SessionStepView::End {
                                forwarded = false;
                            }
                        }
                        step
                    },
                    SessionInput::Event(event) => self.handle_event_at(event, now),
                    SessionInput::WriteFailed => SessionStep::End,
                };
                match step {
                    SessionStep::End => {
                        let asked = self.end_session();
                        let step = if asked {
                            SessionStep::Continue
                        } else {
                            SessionStep::End
                        };
                        assert(self@.handed =~= old(self)@.handed + handed_on(
                            old(self)@.user,
                            old(self)@.phase,
                            input@,
                            now,
                            forwarded,
                        ));
                        assert((self@.phase, step@) == advanced(
                            old(self)@.user,
                            old(self)@.phase,
                            input@,
                            now,
                            forwarded,
                            asked,
                        ));
                        step
                    },
                    other => {
                        assert(self@.handed =~= old(self)@.handed + handed_on(
                            old(self)@.user,
                            old(self)@.phase,
                            input@,
                            now,
                            forwarded,
                        ));
                        assert((self@.phase, other@) == advanced(
                            old(self)@.user,
                            old(self)@.phase,
                            input@,
                            now,
                            forwarded,
                            true,
                        ));
                        other
                    },
                }
            },
        }
    }

    /// What to do with what the socket yielded.
    pub fn on_frame(&self, frame: Inbound) -> (step: SessionStep)
        ensures
            step@ == frame_step(frame@),
    {
        match frame {
            Inbound::Binary(data) => SessionStep::Decrypt(data),
            Inbound::Close => SessionStep::End,
            Inbound::Failed => SessionStep::End,
            Inbound::Other => SessionStep::Continue,
        }
    }

    /// The command that a message from the client stands for.
    pub fn parse_client_msg(&self, msg: ClientMsg, now: Timestamp) -> (parsed: Result<
        Command,
        SessionError,
    >)
        ensures
            match parsed {
                Ok(command) => parsed_command(self@.user, msg@, now) == Ok::<
                    CommandView,
                    SessionError,
                >(command@),
                Err(e) => parsed_command(self@.user, msg@, now) == Err::<CommandView, SessionError>(
                    e,
                ),
            },
    {
        let token_matches = match &msg.token {
            Some(token) => *token == self.user.id,
            None => false,
        };
        if !token_matches {
            return Err(SessionError::WrongToken);
        }
        match msg.body {
            ClientMsgBody::SendToRoom { contents } => Ok(
                Command {
                    user: self.user.clone(),
                    payload: CommandPayload::RecordMessage { message: contents },
                },
            ),
            ClientMsgBody::Move { target } => Ok(
                Command {
                    user: self.user.clone(),
                    payload: CommandPayload::MoveUser { target_room: Room { name: target } },
                },
            ),
            ClientMsgBody::GetTime => Ok(
                Command { user: self.user.clone(), payload: CommandPayload::Time(now) },
            ),
            ClientMsgBody::Login(_, _) => Err(SessionError::UnexpectedBody),
        }
    }

    /// What the session makes of the outcome of decrypting a frame, at the given
    /// moment: `None` stands for a frame that could not be decrypted.
    pub fn react(&self, plaintext: Option<Vec<u8>>, now: Timestamp) -> (made: Reaction)
        ensures
            made@ == reaction(
                self@.user,
                option_bytes_view(plaintext),
                now,
            ),
    {
        let bytes = match plaintext {
            Some(bytes) => bytes,
            None => {
                return Reaction::End;
            },
        };
        let msg = match deserialize_client_msg(bytes.as_slice()) {
            Ok(msg) => msg,
            Err(_) => {
                return Reaction::Skip;
            },
        };
        match self.parse_client_msg(msg, now) {
            Ok(command) => match command.payload {
                CommandPayload::Time(t) => Reaction::Reply(SocketSendAdaptor::prepare_send_time(t)),
                _ => Reaction::Forward(command),
            },
            Err(_) => Reaction::Skip,
        }
    }

    /// Carries out a reaction: a command is sent to the gateway, and the session
    /// is to end if the gateway does not take it.
    fn perform(&mut self, made: Reaction) -> (step: SessionStep)
        ensures
            final(self)@ == (SessionView {
                handed: match made@ {
                    ReactionView::Forward(command) => old(self)@.handed.push(command),
                    _ => old(self)@.handed,
                },
                ..old(self)@
            }),
            final(self).gateway_sink() == old(self).gateway_sink(),
            match made@ {
                ReactionView::End => step@ == SessionStepView::End,
                ReactionView::Skip => step@ == SessionStepView::Continue,
                ReactionView::Reply(bytes) => step@ == SessionStepView::Send(bytes),
                ReactionView::Forward(_) => step@ == SessionStepView::Continue || step@
                    == SessionStepView::End,
            },
    {
        match made {
            Reaction::End => SessionStep::End,
            Reaction::Skip => SessionStep::Continue,
            Reaction::Reply(bytes) => SessionStep::Send(bytes),
            Reaction::Forward(command) => {
                if self.app_socket.send_command(command) {
                    SessionStep::Continue
                } else {
                    SessionStep::End
                }
            },
        }
    }

    /// What to do with an event from the application, at the given moment.
    pub fn handle_event_at(&self, event: Event, now: Timestamp) -> (step: SessionStep)
        ensures
            step@ == event_step(event@, now),
    {
        match event {
            Event::UserRegistered { token } => SessionStep::Continue,
            Event::MsgReceived { msg } => SessionStep::Send(
                SocketSendAdaptor::prepare_send_msg_log(msg),
            ),
            Event::UserLeft { user, room, msg_log, notifications, occupant_names } => {
                SessionStep::Send(
                    SocketSendAdaptor::room_data_response(
                        msg_log,
                        notifications,
                        occupant_names,
                        now,
                    ),
                )
            },
            Event::UserJoined { user, room, msg_log, notifications, occupant_names } => {
                SessionStep::Send(
                    SocketSendAdaptor::room_data_response(
                        msg_log,
                        notifications,
                        occupant_names,
                        now,
                    ),
                )
            },
        }
    }

    /// What to do with an event from the application, now.
    pub fn handle_event(&self, event: Event) -> (step: SessionStep)
        ensures
            exists|now: Timestamp| now.millis >= 0 && step@ == #[trigger] event_step(event@, now),
    {
        let now = Timestamp::now();
        let step = self.handle_event_at(event, now);
        assert(step@ == event_step(event@, now));
        step
    }

    /// Sets out to leave: hands the request to drop the user to the gateway,
    /// and says whether the gateway took it. A running session then awaits the
    /// farewell, the event for which [`SessionWorker::is_farewell`] holds, if
    /// the request was taken, and is over if not. A session that is not running
    /// asks nothing and stays as it is.
    pub fn end_session(&mut self) -> (asked: bool)
        ensures
            final(self)@.user == old(self)@.user,
            final(self)@.holds_sink == old(self)@.holds_sink,
            final(self)@.holds_source == old(self)@.holds_source,
            final(self).gateway_sink() == old(self).gateway_sink(),
            if old(self)@.phase == SessionPhase::Running {
                &&& final(self)@.phase == left(asked).0
                &&& final(self)@.handed == old(self)@.handed.push(
                    drop_request_of(old(self)@.user),
                )
            } else {
                &&& !asked
                &&& final(self)@.phase == old(self)@.phase
                &&& final(self)@.handed == old(self)@.handed
            },
    {
        if self.phase != SessionPhase::Running {
            return false;
        }
        let request = self.drop_request();
        let asked = self.app_socket.send_command(request);
        if asked {
            self.phase = SessionPhase::Leaving;
        } else {
            self.phase = SessionPhase::Over;
        }
        asked
    }

    /// Whether an event tells the session that its own user has left, so that
    /// the session is over.
    pub fn is_farewell(&self, event: &Event) -> (over: bool)
        ensures
            over == is_farewell(self@.user, event@),
    {
        match event {
            Event::UserLeft { user, .. } => *user == self.user,
            _ => false,
        }
    }
}

} // verus!
