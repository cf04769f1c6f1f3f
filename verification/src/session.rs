//! The reader and the writer of a connection of the stand-alone server.
use crate::message::{BenchmarkMessage, Incoming};
use crate::server::{forgets, is_counted, receives, Reply, Server};
use crate::writer::{
    ends_writing, next_action, websocket_sender_step, SenderAction, SenderEvent,
};
use vstd::prelude::*;

verus! {

/// Whether the reader stops at this. `None` is the end of what comes in.
pub open spec fn ends_reading(incoming: Option<Incoming<BenchmarkMessage>>) -> bool {
    match incoming {
        Some(incoming) => incoming.ends(),
        None => true,
    }
}

/// Whether what came in, or that nothing more did, takes the server from `before` to `after` with
/// the given reply.
pub open spec fn reads(
    before: Server,
    after: Server,
    incoming: Option<Incoming<BenchmarkMessage>>,
    timestamp: u64,
    reply: Reply,
) -> bool {
    match incoming {
        Some(incoming) => receives(before, after, incoming, timestamp, reply),
        None => after == before && reply is Stop,
    }
}

/// The reader and the writer of the connection from one address.
pub struct Session {
    pub addr: String,
    /// Whether one of the two has stopped, so that the connection has been forgotten.
    pub stopped: bool,
}

impl Session {
    /// Whether the session went from `self` to `after`, and the server on to `server`, by a step
    /// that leaves the server at `between` and stops one of the two if `over` holds. The connection
    /// is forgotten when the first of them stops, and only then.
    pub open spec fn steps(
        self,
        after: Session,
        between: Server,
        server: Server,
        over: bool,
    ) -> bool {
        &&& after.addr@ == self.addr@
        &&& after.stopped == (self.stopped || over)
        &&& if over && !self.stopped {
            forgets(between, server, self.addr@)
        } else {
            server == between
        }
    }

    /// Both the reader and the writer run.
    pub fn new(addr: String) -> (session: Session)
        ensures
            session.addr == addr,
            !session.stopped,
    {
        Session { addr, stopped: false }
    }

    /// The reader or the writer has stopped. The first time, the connection is forgotten.
    pub fn stop(&mut self, server: &mut Server)
        requires
            old(server).wf(),
        ensures
            final(server).wf(),
            old(self).steps(*final(self), *old(server), *final(server), true),
            old(server).counts_connections() ==> final(server).counts_connections(),
    {
        if !self.stopped {
            self.stopped = true;
            server.unregister(self.addr.as_str());
        }
    }

    /// Counts what came in, if anything more did, and decides what the reader does about it.
    pub fn read(
        &mut self,
        server: &mut Server,
        incoming: Option<Incoming<BenchmarkMessage>>,
        timestamp: u64,
    ) -> (reply: Reply)
        requires
            old(server).wf(),
            incoming matches Some(incoming) && is_counted(incoming) ==> old(
                server,
            ).stats.total_messages < u64::MAX,
        ensures
            final(server).wf(),
            old(server).counts_connections() ==> final(server).counts_connections(),
            reply is Stop <==> ends_reading(incoming),
            exists|between: Server| #[trigger]
                reads(*old(server), between, incoming, timestamp, reply) && old(self).steps(
                    *final(self),
                    between,
                    *final(server),
                    ends_reading(incoming),
                ),
    {
        let reply = match incoming {
            Some(incoming) => server.receive(incoming, timestamp),
            None => Reply::Stop,
        };
        let ghost between = *server;
        assert(reads(*old(server), between, incoming, timestamp, reply));
        if let Reply::Stop = reply {
            self.stop(server);
        }
        reply
    }

    /// Decides what the writer does next.
    pub fn write(&mut self, server: &mut Server, event: SenderEvent) -> (action: SenderAction)
        requires
            old(server).wf(),
        ensures
            final(server).wf(),
            old(self).steps(*final(self), *old(server), *final(server), ends_writing(event)),
            old(server).counts_connections() ==> final(server).counts_connections(),
            action == next_action(event),
    {
        let action = websocket_sender_step(event);
        if let SenderAction::Stop = action {
            self.stop(server);
        }
        action
    }
}

} // verus!
