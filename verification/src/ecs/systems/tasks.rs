//! The reader and the writer of a connection, and how the connection ends with either.
use crate::ecs::components::{BenchmarkMessage, WebSocketServer};
use crate::ecs::systems::connections::{cleanup_connection, forgets};
use crate::ecs::systems::echo::{
    deliver_echo, echoes, responds, websocket_receiver_step, EchoOutcome, ReceiveAction,
};
use crate::message::Incoming;
use crate::writer::{
    ends_writing, next_action, websocket_sender_step, SenderAction, SenderEvent,
};
use vstd::prelude::*;

verus! {

/// Whether the reader stops at this. `None` is the end of what comes in.
pub open spec fn ends_reading(incoming: Option<Incoming<BenchmarkMessage>>) -> bool {
    match incoming {
        Some(incoming) => incoming.ends(),
        None => true,
    }
}

/// The reader and the writer of the connection from one address.
pub struct ConnectionTasks {
    pub addr: String,
    /// Whether one of the two has stopped, so that the connection has been forgotten.
    pub stopped: bool,
}

impl ConnectionTasks {
    /// Whether the tasks went from `self` to `after`, and the server on to `server`, by a step
    /// that leaves the server at `between` and stops one of them if `over` holds.
    /// The connection is forgotten when the first of the two stops, and only then.
    pub open spec fn steps(
        self,
        after: ConnectionTasks,
        between: WebSocketServer,
        server: WebSocketServer,
        over: bool,
    ) -> bool {
        &&& after.addr@ == self.addr@
        &&& after.stopped == (self.stopped || over)
        &&& if over && !self.stopped {
            forgets(between, server, self.addr@)
        } else {
            server == between
        }
    }

    /// Both tasks run.
    pub fn new(addr: String) -> (tasks: ConnectionTasks)
        ensures
            tasks.addr == addr,
            !tasks.stopped,
    {
        ConnectionTasks { addr, stopped: false }
    }

    /// One of the tasks has stopped. The first time, the connection is forgotten.
    pub fn stop(&mut self, server: &mut WebSocketServer)
        requires
            old(server).wf(),
        ensures
            final(server).wf(),
            old(self).steps(*final(self), *old(server), *final(server), true),
            old(server).counts_connections() ==> final(server).counts_connections(),
    {
        if !self.stopped {
            self.stopped = true;
            cleanup_connection(server, self.addr.as_str());
        }
    }

    /// Decides what the reader does about what came in, if anything more did.
    pub fn read(
        &mut self,
        server: &mut WebSocketServer,
        incoming: Option<Incoming<BenchmarkMessage>>,
        server_timestamp: u64,
    ) -> (action: ReceiveAction)
        requires
            old(server).wf(),
        ensures
            final(server).wf(),
            old(self).steps(
                *final(self),
                *old(server),
                *final(server),
                ends_reading(incoming),
            ),
            old(server).counts_connections() ==> final(server).counts_connections(),
            match incoming {
                Some(incoming) => responds(incoming, old(self).addr@, server_timestamp, action),
                None => action is Stop,
            },
    {
        let action = match incoming {
            Some(incoming) => websocket_receiver_step(
                incoming,
                self.addr.as_str(),
                server_timestamp,
            ),
            None => ReceiveAction::Stop,
        };
        if let ReceiveAction::Stop = action {
            self.stop(server);
        }
        action
    }

    /// Hands a reply to the writer, by way of the client's channel. A closed channel stops the
    /// reader.
    pub fn reply(
        &mut self,
        server: &mut WebSocketServer,
        text: Option<String>,
        waited_ms: u64,
    ) -> (result: EchoOutcome)
        requires
            old(server).wf(),
        ensures
            final(server).wf(),
            old(server).counts_connections() ==> final(server).counts_connections(),
            exists|between: WebSocketServer| #[trigger]
                echoes(*old(server), between, old(self).addr@, text, waited_ms, result) && old(
                    self,
                ).steps(*final(self), between, *final(server), result is ChannelClosed),
    {
        let result = deliver_echo(server, self.addr.as_str(), text, waited_ms);
        let ghost between = *server;
        assert(echoes(*old(server), between, self.addr@, text, waited_ms, result));
        if result.stops() {
            self.stop(server);
        }
        result
    }

    /// Decides what the writer does next.
    pub fn write(&mut self, server: &mut WebSocketServer, event: SenderEvent) -> (action:
        SenderAction)
        requires
            old(server).wf(),
        ensures
            final(server).wf(),
            old(self).steps(*final(self), *old(server), *final(server), ends_writing(event)),
            old(server).counts_connections() ==> final(server).counts_connections(),
            action == next_action(event),
    {
        let action = websocket_sender_step(event);
        if let SenderAction::Stop = action {
            self.stop(server);
        }
        action
    }
}

} // verus!
