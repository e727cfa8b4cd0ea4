//! The gateway: what sessions send is passed on to the application.

use crate::domain::commands::Command;
use crate::trusted::channel_send;
use futures_channel::mpsc::UnboundedSender;
use vstd::prelude::*;

verus! {

/// Why the gateway stops.
#[derive(Clone, Copy, Debug, PartialEq, Eq, Structural)]
pub enum GatewayError {
    /// No session can send any more: the channel from the sessions is closed.
    UpstreamClosed,
    /// The application no longer takes commands.
    DownstreamClosed,
}

/// The fan-in from all sessions to the application.
pub struct AppGateway {
    command_handler_sink: UnboundedSender<Command>,
    /// The commands handed to the application's channel so far, in order.
    passed: Ghost<Seq<Command>>,
}

impl AppGateway {
    /// A gateway that passes commands on through the given channel. It has
    /// passed on nothing yet.
    pub fn init(app_sink: UnboundedSender<Command>) -> (gateway: AppGateway)
        ensures
            gateway.sink() == app_sink,
            gateway.passed() == Seq::<Command>::empty(),
    {
        AppGateway { command_handler_sink: app_sink, passed: Ghost(Seq::empty()) }
    }

    /// Takes what the channel from the sessions yielded. A command is handed to
    /// the application's channel as it came, after all that were handed on
    /// before it; the gateway goes on if the application took it and stops if
    /// not. The end of the channel from the sessions stops the gateway, and
    /// nothing is handed on.
    pub fn forward(&mut self, next: Option<Command>) -> (done: Result<(), GatewayError>)
        ensures
            final(self).sink() == old(self).sink(),
            final(self).passed() == match next {
                Some(command) => old(self).passed().push(command),
                None => old(self).passed(),
            },
            match done {
                Ok(_) => next is Some,
                Err(GatewayError::UpstreamClosed) => next is None,
                Err(GatewayError::DownstreamClosed) => next is Some,
            },
    {
        match next {
            Some(command) => {
                if self.pass_on(command) {
                    Ok(())
                } else {
                    Err(GatewayError::DownstreamClosed)
                }
            },
            None => Err(GatewayError::UpstreamClosed),
        }
    }

    /// Hands a command to the application's channel, and says whether the
    /// application took it. The command is noted as passed on either way.
    fn pass_on(&mut self, command: Command) -> (taken: bool)
        ensures
            final(self).sink() == old(self).sink(),
            final(self).passed() == old(self).passed().push(command),
    {
        self.passed = Ghost(self.passed@.push(command));
        channel_send(&self.command_handler_sink, command)
    }

    /// The channel to the application that the gateway passes commands on
    /// through.
    pub closed spec fn sink(&self) -> UnboundedSender<Command> {
        self.command_handler_sink
    }

    /// The commands that the gateway has handed to the application's channel,
    /// in the order in which it took them.
    pub closed spec fn passed(&self) -> Seq<Command> {
        self.passed@
    }
}

} // verus!
