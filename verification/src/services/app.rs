//! The application: the single owner of the state and of the event bus. It takes
//! one command at a time.

use crate::domain::commands::{Command, CommandPayload, CommandPayloadView, CommandView};
use crate::domain::events::Event;
use crate::domain::model::views;
use crate::domain::timestamp::Timestamp;
use crate::domain::user::UserView;
use crate::services::broadcast::Broadcast;
use crate::services::event_bus::{handoffs, Delivery, EventBus, Handoff};
use crate::services::handler::CommandHandler;
use crate::services::invariants::lemma_run_exclusive;
use crate::services::state::AppState;
use crate::services::state_model::{BroadcastView, StateModel};
use futures_channel::mpsc::UnboundedSender;
use std::collections::VecDeque;
use vstd::prelude::*;

verus! {

/// What went wrong with a command. The application goes on all the same.
#[derive(Clone, Copy, Debug, PartialEq, Eq, Structural)]
pub enum AppError {
    /// A registration for a user that already had a subscription: the command
    /// was dropped.
    DoubleSubscription,
    /// A drop of a user that had no subscription.
    NotSubscribed,
    /// A request that the application does not act on.
    NotImplemented,
}

/// The model of the application: the rooms, and the set of subscribed users.
pub struct AppModel {
    pub state: StateModel,
    pub subscribers: Set<UserView>,
}

impl AppModel {
    /// The application at start: the landing room alone, nobody subscribed.
    pub open spec fn initial() -> AppModel {
        AppModel { state: StateModel::initial(), subscribers: Set::empty() }
    }

    /// Whether a command is dropped unhandled: a registration for a user that is
    /// subscribed already.
    pub open spec fn drops(self, command: CommandView) -> bool {
        command.payload is RegisterUser && self.subscribers.contains(command.user)
    }

    /// The users that are subscribed while a command's broadcasts are published:
    /// a registering user already is, a dropped user still is.
    pub open spec fn listeners(self, command: CommandView) -> Set<UserView> {
        if command.payload is RegisterUser {
            self.subscribers.insert(command.user)
        } else {
            self.subscribers
        }
    }

    /// The application after a command that arrived at the given moment.
    pub open spec fn step(self, command: CommandView, now: Timestamp) -> AppModel {
        if self.drops(command) {
            self
        } else {
            AppModel {
                state: self.state.handle(command, now),
                subscribers: match command.payload {
                    CommandPayloadView::RegisterUser => self.subscribers.insert(command.user),
                    CommandPayloadView::DropUser => self.subscribers.remove(command.user),
                    _ => self.subscribers,
                },
            }
        }
    }

    /// What is published for a command that arrived at the given moment, in order.
    pub open spec fn published(self, command: CommandView, now: Timestamp) -> Seq<BroadcastView> {
        if self.drops(command) {
            Seq::empty()
        } else {
            self.state.broadcasts(command, now)
        }
    }

    /// What is reported of a command.
    pub open spec fn error(self, command: CommandView) -> Option<AppError> {
        match command.payload {
            CommandPayloadView::RegisterUser => if self.subscribers.contains(command.user) {
                Some(AppError::DoubleSubscription)
            } else {
                None
            },
            CommandPayloadView::DropUser => if self.subscribers.contains(command.user) {
                None
            } else {
                Some(AppError::NotSubscribed)
            },
            CommandPayloadView::MoveUser { .. } => None,
            CommandPayloadView::RecordMessage { .. } => None,
            _ => Some(AppError::NotImplemented),
        }
    }

    /// Whether a command registers, with effect, a user that some room already
    /// lists: the one kind of command after which a user can be in two rooms.
    pub open spec fn registers_occupant(self, command: CommandView) -> bool {
        !self.subscribers.contains(command.user) && self.state.registers_occupant(command)
    }

    /// The application after a run of commands, each with the moment at which
    /// it arrived.
    pub open spec fn after_run(self, commands: Seq<CommandView>, moments: Seq<Timestamp>)
        -> AppModel
        decreases commands.len(),
    {
        if commands.len() == 0 || moments.len() != commands.len() {
            self
        } else {
            self.after_run(commands.drop_last(), moments.drop_last()).step(
                commands.last(),
                moments.last(),
            )
        }
    }

    /// Whether no command of a run registers a user that some room lists when
    /// the command arrives.
    pub open spec fn never_registers_occupant(
        self,
        commands: Seq<CommandView>,
        moments: Seq<Timestamp>,
    ) -> bool {
        forall|k: int|
            0 <= k < commands.len() ==> !#[trigger] self.after_run(
                commands.take(k),
                moments.take(k),
            ).registers_occupant(commands[k])
    }

    /// Everything published over a run of commands, in publishing order.
    pub open spec fn run_published(self, commands: Seq<CommandView>, moments: Seq<Timestamp>)
        -> Seq<BroadcastView>
        decreases commands.len(),
    {
        if commands.len() == 0 || moments.len() != commands.len() {
            Seq::empty()
        } else {
            self.run_published(commands.drop_last(), moments.drop_last()) + self.after_run(
                commands.drop_last(),
                moments.drop_last(),
            ).published(commands.last(), moments.last())
        }
    }
}

/// What the application did with one command.
#[derive(Debug)]
pub struct StepReport {
    /// What went wrong, if anything did.
    pub error: Option<AppError>,
    /// The broadcasts that were published, in order.
    pub published: Vec<Broadcast>,
    /// For each broadcast, what became of the event for each of its recipients.
    pub deliveries: Vec<Vec<Delivery>>,
}

impl StepReport {
    /// Whether the deliveries are those of the broadcasts, to the given listeners:
    /// one outcome for each recipient, which says that the recipient had no
    /// subscription exactly where it is not among the listeners.
    pub open spec fn delivered_to(&self, listeners: Set<UserView>) -> bool {
        &&& self.deliveries@.len() == self.published@.len()
        &&& forall|k: int|
            0 <= k < self.published@.len() ==> (#[trigger] self.deliveries@[k])@.len()
                == self.published@[k].subscribers@.len()
        &&& forall|k: int, r: int|
            0 <= k < self.published@.len() && 0 <= r < self.published@[k].subscribers@.len() ==> (
            #[trigger] self.deliveries@[k]@[r] == Delivery::NotSubscribed <==> !listeners.contains(
                self.published@[k]@.subscribers[r],
            ))
    }
}

/// The channels of the subscribed users after a command: an effective
/// registration adds the channel it carries, a registration of a subscribed user
/// changes nothing, a drop takes the user's channel away.
pub open spec fn sinks_after(
    sinks: Map<UserView, UnboundedSender<Event>>,
    command: Command,
) -> Map<UserView, UnboundedSender<Event>> {
    match command.payload {
        CommandPayload::RegisterUser(sink) => if sinks.contains_key(command.user@) {
            sinks
        } else {
            sinks.insert(command.user@, sink)
        },
        CommandPayload::DropUser => sinks.remove(command.user@),
        _ => sinks,
    }
}

/// The channels of the subscribed users while a command's broadcasts are
/// published: that of a user that registers with effect is among them already,
/// that of a dropped user still is.
pub open spec fn sinks_while(
    sinks: Map<UserView, UnboundedSender<Event>>,
    command: Command,
) -> Map<UserView, UnboundedSender<Event>> {
    match command.payload {
        CommandPayload::RegisterUser(sink) => if sinks.contains_key(command.user@) {
            sinks
        } else {
            sinks.insert(command.user@, sink)
        },
        _ => sinks,
    }
}

/// What publishing some broadcasts hands to which channel, in order: each
/// broadcast in full before the next.
pub open spec fn all_handoffs(
    sinks: Map<UserView, UnboundedSender<Event>>,
    broadcasts: Seq<BroadcastView>,
) -> Seq<Handoff>
    decreases broadcasts.len(),
{
    if broadcasts.len() == 0 {
        Seq::empty()
    } else {
        all_handoffs(sinks, broadcasts.drop_last()) + handoffs(
            sinks,
            broadcasts.last().event,
            broadcasts.last().subscribers,
        )
    }
}

/// What a run of commands hands to which channel, in order: for each command in
/// turn what is published for it, to the channels of those subscribed while it
/// is published.
pub open spec fn run_handoffs(
    app: AppModel,
    sinks: Map<UserView, UnboundedSender<Event>>,
    commands: Seq<Command>,
    moments: Seq<Timestamp>,
) -> Seq<Handoff>
    decreases commands.len(),
{
    if commands.len() == 0 || moments.len() != commands.len() {
        Seq::empty()
    } else {
        run_handoffs(app, sinks, commands.drop_last(), moments.drop_last()) + all_handoffs(
            sinks_while(run_sinks(sinks, commands.drop_last()), commands.last()),
            app.after_run(views(commands.drop_last()), moments.drop_last()).published(
                commands.last()@,
                moments.last(),
            ),
        )
    }
}

/// The channels of the subscribed users after a run of commands.
pub open spec fn run_sinks(
    sinks: Map<UserView, UnboundedSender<Event>>,
    commands: Seq<Command>,
) -> Map<UserView, UnboundedSender<Event>>
    decreases commands.len(),
{
    if commands.len() == 0 {
        sinks
    } else {
        sinks_after(run_sinks(sinks, commands.drop_last()), commands.last())
    }
}

/// Whether each report is that of its command in a run: it tells what went
/// wrong with the command and what was published for it, and its deliveries
/// went to those who were subscribed while the command's broadcasts were
/// published.
pub open spec fn reports_of_run(
    app: AppModel,
    commands: Seq<CommandView>,
    moments: Seq<Timestamp>,
    reports: Seq<StepReport>,
) -> bool {
    forall|k: int|
        0 <= k < reports.len() ==> {
            let before = app.after_run(commands.take(k), moments.take(k));
            &&& (#[trigger] reports[k]).error == before.error(commands[k])
            &&& views(reports[k].published@) == before.published(commands[k], moments[k])
            &&& reports[k].delivered_to(before.listeners(commands[k]))
        }
}

/// Everything published according to some reports, in publishing order.
pub open spec fn all_published(reports: Seq<StepReport>) -> Seq<BroadcastView>
    decreases reports.len(),
{
    if reports.len() == 0 {
        Seq::empty()
    } else {
        all_published(reports.drop_last()) + views(reports.last().published@)
    }
}

/// The application.
pub struct App {
    command_handler: CommandHandler,
    event_bus: EventBus,
}

impl View for App {
    type V = AppModel;

    closed spec fn view(&self) -> AppModel {
        AppModel { state: self.command_handler@, subscribers: self.event_bus@.dom() }
    }
}

/// The commands of a list, last first.
fn reversed(commands: Vec<Command>) -> (stack: Vec<Command>)
    ensures
        stack@.len() == commands@.len(),
        forall|j: int| 0 <= j < stack@.len() ==> stack@[j] == commands@[commands@.len() - 1 - j],
{
    let mut rest = commands;
    let mut stack: Vec<Command> = Vec::new();
    while rest.len() > 0
        invariant
            rest@.len() + stack@.len() == commands@.len(),
            rest@ == commands@.take(rest@.len() as int),
            forall|j: int|
                0 <= j < stack@.len() ==> stack@[j] == commands@[commands@.len() - 1 - j],
        decreases rest.len(),
    {
        let command = rest.pop().unwrap();
        stack.push(command);
        assert(rest@ =~= commands@.take(rest@.len() as int));
    }
    stack
}

impl App {
    /// What always holds of the application: its state is well formed and no
    /// user has two subscriptions.
    pub closed spec fn wf(&self) -> bool {
        self.command_handler@.wf() && self.event_bus.wf()
    }

    /// The channel of each subscribed user.
    pub closed spec fn sinks(&self) -> Map<UserView, UnboundedSender<Event>> {
        self.event_bus@
    }

    /// What the application has handed to which channel, in order.
    pub closed spec fn handed(&self) -> Seq<Handoff> {
        self.event_bus.handed()
    }

    /// A sound application has a well-formed state.
    pub proof fn lemma_wf(&self)
        requires
            self.wf(),
        ensures
            self@.state.wf(),
    {
    }

    /// The subscribed users are those that have a channel.
    pub proof fn lemma_sinks(&self)
        ensures
            self.sinks().dom() == self@.subscribers,
    {
    }

    /// The application at start.
    pub fn init() -> (app: App)
        ensures
            app.wf(),
            app@ == AppModel::initial(),
            app.sinks() == Map::<UserView, UnboundedSender<Event>>::empty(),
            app.handed() == Seq::<Handoff>::empty(),
    {
        let app = App {
            command_handler: CommandHandler::new(AppState::new()),
            event_bus: EventBus::new(),
        };
        assert(app@.subscribers =~= Set::empty());
        app
    }

    /// The handler, to look at the state.
    pub fn command_handler(&self) -> (handler: &CommandHandler)
        ensures
            handler@ == self@.state,
    {
        &self.command_handler
    }

    /// The bus, to look at the subscriptions.
    pub fn event_bus(&self) -> (bus: &EventBus)
        ensures
            bus@ == self.sinks(),
            bus@.dom() == self@.subscribers,
    {
        &self.event_bus
    }

    /// Takes a command that arrives now: [`App::step_at`] with the reading of the
    /// system clock.
    pub fn step(&mut self, command: Command) -> (report: StepReport)
        requires
            old(self).wf(),
        ensures
            final(self).wf(),
            final(self)@.state.wf(),
            final(self).sinks() == sinks_after(old(self).sinks(), command),
            report.error == old(self)@.error(command@),
            report.delivered_to(old(self)@.listeners(command@)),
            exists|now: Timestamp|
                {
                    &&& now.millis >= 0
                    &&& final(self)@ == #[trigger] old(self)@.step(command@, now)
                    &&& views(report.published@) == old(self)@.published(command@, now)
                    &&& final(self).handed() == old(self).handed() + all_handoffs(
                        sinks_while(old(self).sinks(), command),
                        old(self)@.published(command@, now),
                    )
                },
            old(self)@.state.exclusive() && !old(self)@.registers_occupant(command@)
                ==> final(self)@.state.exclusive(),
    {
        let now = Timestamp::now();
        self.step_at(command, now)
    }

    /// Takes a run of commands, one after the other in the order of the list,
    /// as the application does with what arrives, and reports on each: the
    /// application is then where the run leads, the subscribed users have the
    /// channels that the run leaves them, and each report is that of its command.
    pub fn work(&mut self, commands: Vec<Command>) -> (reports: Vec<StepReport>)
        requires
            old(self).wf(),
        ensures
            final(self).wf(),
            final(self)@.state.wf(),
            reports@.len() == commands@.len(),
            final(self).sinks() == run_sinks(old(self).sinks(), commands@),
            exists|moments: Seq<Timestamp>|
                {
                    &&& moments.len() == commands@.len()
                    &&& final(self)@ == #[trigger] old(self)@.after_run(views(commands@), moments)
                    &&& reports_of_run(old(self)@, views(commands@), moments, reports@)
                    &&& final(self).handed() == old(self).handed() + run_handoffs(
                        old(self)@,
                        old(self).sinks(),
                        commands@,
                        moments,
                    )
                    &&& all_published(reports@) == old(self)@.run_published(
                        views(commands@),
                        moments,
                    )
                    &&& old(self)@.state.exclusive() && old(self)@.never_registers_occupant(
                        views(commands@),
                        moments,
                    ) ==> final(self)@.state.exclusive()
                },
    {
        let ghost all = commands@;
        let ghost start = self@;
        let count = commands.len();
        let mut stack = reversed(commands);
        let mut reports: Vec<StepReport> = Vec::new();
        let ghost mut moments: Seq<Timestamp> = Seq::empty();
        let mut i: usize = 0;
        proof {
            assert(views(all).take(0) =~= Seq::empty());
            assert(all.take(0) =~= Seq::empty());
            assert(self.handed() + Seq::<Handoff>::empty() =~= self.handed());
        }
        while i < count
            invariant
                i <= count,
                count == all.len(),
                start == old(self)@,
                stack@.len() == count - i,
                forall|j: int| 0 <= j < stack@.len() ==> stack@[j] == all[count - 1 - j],
                self.wf(),
                reports@.len() == i,
                moments.len() == i,
                self@ == start.after_run(views(all).take(i as int), moments),
                self.sinks() == run_sinks(old(self).sinks(), all.take(i as int)),
                self.handed() == old(self).handed() + run_handoffs(
                    start,
                    old(self).sinks(),
                    all.take(i as int),
                    moments,
                ),
                reports_of_run(start, views(all), moments, reports@),
                all_published(reports@) == start.run_published(views(all).take(i as int), moments),
            decreases count - i,
        {
            let ghost before = self@;
            let ghost sinks_before = self.sinks();
            let ghost handed_before = self.handed();
            let command = stack.pop().unwrap();
            assert(command == all[i as int]);
            let report = self.step(command);
            proof {
                let now = choose|now: Timestamp|
                    {
                        &&& self@ == #[trigger] before.step(command@, now)
                        &&& views(report.published@) == before.published(command@, now)
                        &&& self.handed() == handed_before + all_handoffs(
                            sinks_while(sinks_before, command),
                            before.published(command@, now),
                        )
                    };
                assert(views(all.take(i as int)) =~= views(all).take(i as int));
                assert(self.handed() =~= old(self).handed() + run_handoffs(
                    start,
                    old(self).sinks(),
                    all.take(i + 1),
                    moments.push(now),
                )) by {
                    assert(all.take(i + 1).drop_last() =~= all.take(i as int));
                    assert(all.take(i + 1).last() == command);
                    assert(moments.push(now).drop_last() =~= moments);
                }
                let done = views(all).take(i as int);
                let next = views(all).take(i + 1);
                assert(next.drop_last() =~= done);
                assert(next.last() == command@);
                assert(all.take(i + 1).drop_last() =~= all.take(i as int));
                assert(all.take(i + 1).last() == command);
                assert(moments.push(now).drop_last() =~= moments);
                assert(reports@.push(report).drop_last() =~= reports@);
                let later = moments.push(now);
                assert forall|k: int| 0 <= k < i + 1 implies {
                    let at = start.after_run(views(all).take(k), later.take(k));
                    &&& (#[trigger] reports@.push(report)[k]).error == at.error(views(all)[k])
                    &&& views(reports@.push(report)[k].published@) == at.published(
                        views(all)[k],
                        later[k],
                    )
                    &&& reports@.push(report)[k].delivered_to(at.listeners(views(all)[k]))
                } by {
                    assert(later.take(k) =~= moments.take(k));
                    if k < i {
                        assert(reports@.push(report)[k] == reports@[k]);
                    } else {
                        assert(moments.take(k) =~= moments);
                    }
                }
                moments = later;
            }
            reports.push(report);
            i = i + 1;
        }
        proof {
            assert(views(all).take(all.len() as int) =~= views(all));
            assert(all.take(all.len() as int) =~= all);
            if start.state.exclusive() && start.never_registers_occupant(views(all), moments) {
                lemma_run_exclusive(start, views(all), moments);
            }
        }
        reports
    }

    /// Takes a command that arrived at the given moment.
    ///
    /// A registration first subscribes the user with the channel it carries;
    /// where the user was subscribed already the command is dropped and the
    /// earlier subscription stays as it is. Then the handler changes the state,
    /// what it makes known is published, each broadcast in full before the next,
    /// and last a dropped user is unsubscribed, so that the announcement of its
    /// departure could still reach it.
    pub fn step_at(&mut self, command: Command, now: Timestamp) -> (report: StepReport)
        requires
            old(self).wf(),
        ensures
            final(self).wf(),
            final(self)@.state.wf(),
            final(self)@ == old(self)@.step(command@, now),
            final(self).sinks() == sinks_after(old(self).sinks(), command),
            final(self).handed() == old(self).handed() + all_handoffs(
                sinks_while(old(self).sinks(), command),
                old(self)@.published(command@, now),
            ),
            views(report.published@) == old(self)@.published(command@, now),
            report.error == old(self)@.error(command@),
            report.delivered_to(old(self)@.listeners(command@)),
            old(self)@.state.exclusive() && !old(self)@.registers_occupant(command@)
                ==> final(self)@.state.exclusive(),
    {
        let mut error: Option<AppError> = None;
        let mut defer_unsubscribe = false;
        let for_handler = command.clone();
        let Command { user, payload } = command;
        match payload {
            CommandPayload::RegisterUser(delivery_channel) => {
                match self.event_bus.subscribe(user.clone(), delivery_channel) {
                    Ok(_) => {
                        assert(self@.subscribers =~= old(self)@.subscribers.insert(user@));
                    },
                    Err(_) => {
                        let report = StepReport {
                            error: Some(AppError::DoubleSubscription),
                            published: Vec::new(),
                            deliveries: Vec::new(),
                        };
                        proof {
                            assert(views(report.published@) =~= Seq::empty());
                            assert(self.handed() + Seq::<Handoff>::empty() =~= self.handed());
                        }
                        return report;
                    },
                }
            },
            CommandPayload::DropUser => {
                defer_unsubscribe = true;
            },
            _ => {},
        }
        let ghost listeners = self.event_bus@.dom();
        let ghost listener_sinks = self.event_bus@;
        assert(listener_sinks == sinks_while(old(self).sinks(), command));
        let mut event_buf: VecDeque<Broadcast> = VecDeque::new();
        match self.command_handler.handle_at(for_handler, now, &mut event_buf) {
            Ok(_) => {},
            Err(_) => {
                error = Some(AppError::NotImplemented);
            },
        }
        proof {
            assert(views(event_buf@) =~= old(self)@.published(command@, now)) by {
                assert(views(Seq::<Broadcast>::empty()) =~= Seq::empty());
            }
        }
        let mut published: Vec<Broadcast> = Vec::new();
        let mut deliveries: Vec<Vec<Delivery>> = Vec::new();
        let ghost all = event_buf@;
        proof {
            assert(views(published@) =~= Seq::empty());
            assert(self.handed() + Seq::<Handoff>::empty() =~= self.handed());
        }
        let ghost state_after = self.command_handler@;
        while event_buf.len() > 0
            invariant
                self.command_handler@ == state_after,
                self.event_bus@.dom() == listeners,
                self.event_bus@ == listener_sinks,
                self.event_bus.wf(),
                self.event_bus.handed() == old(self).handed() + all_handoffs(
                    listener_sinks,
                    views(published@),
                ),
                published@ + event_buf@ == all,
                deliveries@.len() == published@.len(),
                forall|k: int|
                    0 <= k < published@.len() ==> (#[trigger] deliveries@[k])@.len()
                        == published@[k].subscribers@.len(),
                forall|k: int, r: int|
                    0 <= k < published@.len() && 0 <= r < published@[k].subscribers@.len() ==> (
                    #[trigger] deliveries@[k]@[r] == Delivery::NotSubscribed
                        <==> !listeners.contains(published@[k]@.subscribers[r])),
            decreases event_buf.len(),
        {
            let ghost before = event_buf@;
            let cast = event_buf.pop_front().unwrap();
            let outcome = self.event_bus.publish(&cast);
            proof {
                assert(published@.push(cast) + event_buf@ =~= published@ + before);
                let told = views(published@.push(cast));
                assert(told.drop_last() =~= views(published@));
                assert(told.last() == cast@);
                assert(self.event_bus.handed() =~= old(self).handed() + all_handoffs(
                    listener_sinks,
                    told,
                ));
            }
            published.push(cast);
            deliveries.push(outcome);
        }
        proof {
            assert(published@ =~= all);
        }
        if defer_unsubscribe {
            match self.event_bus.unsubscribe(user) {
                Ok(_) => {},
                Err(_) => {
                    error = Some(AppError::NotSubscribed);
                },
            }
            assert(self@.subscribers =~= old(self)@.subscribers.remove(user@));
        }
        StepReport { error, published, deliveries }
    }
}

} // verus!
