//! How the server starts, and how clients come and go.
use crate::channel::{buffer_limit, feeds, Frame};
use crate::ecs::components::{
    BroadcastConfig, ConnectionClosed, ServerConfig, ServerStats, WebSocketServer,
};
use crate::registry::CHANNEL_BUFFER_SIZE;
use tokio::sync::mpsc::Receiver;
use vstd::prelude::*;

verus! {

/// The settings that the server is started with.
#[derive(Debug)]
pub struct Args {
    pub bind: String,
    pub stats: bool,
    pub broadcast: bool,
    pub broadcast_size: usize,
}

impl Default for Args {
    /// What holds for the settings that are not given.
    fn default() -> (args: Args)
        ensures
            args.bind@ == "127.0.0.1:8080"@,
            !args.stats,
            !args.broadcast,
            args.broadcast_size == 100,
    {
        Args {
            bind: "127.0.0.1:8080".to_string(),
            stats: false,
            broadcast: false,
            broadcast_size: 100,
        }
    }
}

/// The server as a plugin of the application that runs it.
pub struct WebSocketPlugin {
    pub args: Args,
}

impl WebSocketPlugin {
    /// What the application starts with: the server and its settings.
    pub fn build(&self) -> (resources: (WebSocketServer, BroadcastConfig, ServerConfig))
        ensures
            resources.0.wf(),
            resources.0.counts_connections(),
            resources.0.connections@.is_empty(),
            resources.0.stats == ServerStats::zero(),
            resources.0.listener is None,
            resources.0.last_broadcast_id is None,
            resources.1.enabled == self.args.broadcast,
            resources.1.enabled == resources.2.broadcast,
            resources.2.bind@ == self.args.bind@,
            resources.2.stats == self.args.stats,
            resources.2.broadcast == self.args.broadcast,
            resources.2.broadcast_size == self.args.broadcast_size,
    {
        (
            WebSocketServer::new(),
            BroadcastConfig { enabled: self.args.broadcast },
            ServerConfig {
                bind: self.args.bind.clone(),
                stats: self.args.stats,
                broadcast: self.args.broadcast,
                broadcast_size: self.args.broadcast_size,
            },
        )
    }
}

/// A step of the server that runs at the fixed rate.
#[derive(Debug, Clone, Copy, PartialEq, Eq, Structural)]
pub enum FixedStep {
    /// Make the next broadcast.
    Broadcast,
    /// Hand out the broadcasts that have been made.
    Deliver,
    /// Look at the statistics.
    Report,
}

/// The steps of one pass, in order.
pub open spec fn pass_steps() -> Seq<FixedStep> {
    seq![FixedStep::Broadcast, FixedStep::Deliver, FixedStep::Report]
}

/// The steps of one pass, in the order in which they are run.
pub fn fixed_update() -> (steps: Vec<FixedStep>)
    ensures
        steps@ == pass_steps(),
{
    let steps = vec![FixedStep::Broadcast, FixedStep::Deliver, FixedStep::Report];
    assert(steps@ =~= pass_steps());
    steps
}

/// Notes that the server listens on `bound`. Says whether to announce that it broadcasts.
pub fn setup_websocket_server(
    server: &mut WebSocketServer,
    config: &ServerConfig,
    bound: String,
) -> (announce: bool)
    ensures
        final(server).listener == Some(bound),
        final(server).connections == old(server).connections,
        final(server).stats == old(server).stats,
        final(server).last_broadcast_id == old(server).last_broadcast_id,
        old(server).counts_connections() ==> final(server).counts_connections(),
        announce == config.broadcast,
{
    server.listener = Some(bound);
    config.broadcast
}

/// What a short wait for a new connection gave.
pub enum AcceptPoll {
    /// A client has connected from this address.
    Accepted(String),
    /// The listener failed.
    Failed,
    /// Nobody came.
    TimedOut,
}

/// What to do about new connections.
pub enum AcceptAction {
    /// Set up the connection from this address.
    Setup(String),
    /// Report that the listener failed.
    ReportFailure,
    /// Nothing.
    Idle,
}

/// Decides what to do about new connections. A server that does not listen takes none.
pub fn handle_new_connections(server: &WebSocketServer, poll: AcceptPoll) -> (action: AcceptAction)
    ensures
        server.listener is None ==> action is Idle,
        server.listener is Some ==> match poll {
            AcceptPoll::Accepted(addr) => action == AcceptAction::Setup(addr),
            AcceptPoll::Failed => action is ReportFailure,
            AcceptPoll::TimedOut => action is Idle,
        },
{
    match &server.listener {
        None => AcceptAction::Idle,
        Some(_) => match poll {
            AcceptPoll::Accepted(addr) => AcceptAction::Setup(addr),
            AcceptPoll::Failed => AcceptAction::ReportFailure,
            AcceptPoll::TimedOut => AcceptAction::Idle,
        },
    }
}

/// How the opening handshake of a connection went.
pub enum Handshake {
    Completed,
    /// It failed, for this reason.
    Failed(String),
    TimedOut,
}

/// A connection that has been taken in.
pub struct Registration {
    /// Where the frames for the client come out.
    pub receiver: Receiver<Frame>,
    /// Whether the address was new.
    pub inserted: bool,
}

/// Takes in the connection from `addr` once its handshake is through; otherwise gives the reason
/// why not.
pub fn setup_websocket_connection(
    server: &mut WebSocketServer,
    addr: String,
    handshake: Handshake,
) -> (result: Result<Registration, String>)
    requires
        old(server).wf(),
        handshake is Completed ==> old(server).connections@.len() < u32::MAX,
    ensures
        final(server).wf(),
        final(server).listener == old(server).listener,
        final(server).last_broadcast_id == old(server).last_broadcast_id,
        result is Ok <==> handshake is Completed,
        match result {
            Ok(registration) => {
                &&& registration.inserted == !old(server).connections@.contains_key(addr@)
                &&& final(server).connections@ == if registration.inserted {
                    old(server).connections@.insert(addr@, Seq::empty())
                } else {
                    old(server).connections@
                }
                &&& registration.inserted ==> feeds(
                    final(server).connections.channel_of(addr@),
                    registration.receiver,
                )
                &&& buffer_limit(final(server).connections.channel_of(addr@))
                    == CHANNEL_BUFFER_SIZE
                &&& final(server).counts_connections()
                &&& final(server).stats == (ServerStats {
                    connections: final(server).stats.connections,
                    ..old(server).stats
                })
            },
            Err(reason) => {
                &&& reason@ == match handshake {
                    Handshake::Failed(cause) => cause@,
                    _ => "WebSocket handshake timeout"@,
                }
                &&& *final(server) == *old(server)
            },
        },
        forall|other: Seq<char>| #[trigger]
            old(server).connections@.contains_key(other) ==> final(server).connections.channel_of(
                other,
            ) == old(server).connections.channel_of(other),
{
    match handshake {
        Handshake::Completed => {
            let (receiver, inserted) = server.connections.register(addr);
            server.stats.connections = server.connections.len();
            Ok(Registration { receiver, inserted })
        },
        Handshake::Failed(cause) => Err(cause),
        Handshake::TimedOut => Err("WebSocket handshake timeout".to_string()),
    }
}

/// Whether the server went from `before` to `after` by forgetting the connection from `addr`: it
/// keeps all others, and counts those.
pub open spec fn forgets(before: WebSocketServer, after: WebSocketServer, addr: Seq<char>) -> bool {
    &&& after.connections@ == before.connections@.remove(addr)
    &&& after.counts_connections()
    &&& after.listener == before.listener
    &&& after.last_broadcast_id == before.last_broadcast_id
    &&& after.stats == (ServerStats { connections: after.stats.connections, ..before.stats })
    &&& forall|other: Seq<char>, receiver: Receiver<Frame>|
        after.connections@.contains_key(other) ==> (#[trigger] feeds(
            after.connections.channel_of(other),
            receiver,
        ) <==> feeds(before.connections.channel_of(other), receiver))
}

/// Forgets the connection from `addr` after it has ended.
pub fn cleanup_connection(server: &mut WebSocketServer, addr: &str)
    requires
        old(server).wf(),
    ensures
        final(server).wf(),
        forgets(*old(server), *final(server), addr@),
        forall|other: Seq<char>| #[trigger]
            final(server).connections@.contains_key(other) ==> final(server).connections.channel_of(
                other,
            ) == old(server).connections.channel_of(other),
{
    server.connections.unregister(addr);
    server.stats.connections = server.connections.len();
}

/// Whether one of the events says that the connection from `addr` has ended.
pub open spec fn closes(events: Seq<ConnectionClosed>, addr: Seq<char>) -> bool {
    exists|i: int| 0 <= i < events.len() && (#[trigger] events[i]).addr@ == addr
}

/// Forgets the connections that have ended.
pub fn handle_disconnections(server: &mut WebSocketServer, events: &Vec<ConnectionClosed>)
    requires
        old(server).wf(),
    ensures
        final(server).wf(),
        forall|addr: Seq<char>|
            #![trigger final(server).connections@.contains_key(addr)]
            #![trigger old(server).connections@.contains_key(addr)]
            final(server).connections@.contains_key(addr) <==> old(
                server,
            ).connections@.contains_key(addr) && !closes(events@, addr),
        forall|addr: Seq<char>| #[trigger]
            final(server).connections@.contains_key(addr) ==> {
                &&& final(server).connections@[addr] == old(server).connections@[addr]
                &&& final(server).connections.channel_of(addr) == old(
                    server,
                ).connections.channel_of(addr)
            },
        events@.len() > 0 ==> final(server).counts_connections(),
        events@.len() == 0 ==> *final(server) == *old(server),
        old(server).counts_connections() ==> final(server).counts_connections(),
        final(server).listener == old(server).listener,
        final(server).last_broadcast_id == old(server).last_broadcast_id,
        final(server).stats == (ServerStats {
            connections: final(server).stats.connections,
            ..old(server).stats
        }),
{
    let ghost before = *server;
    let mut i: usize = 0;
    while i < events.len()
        invariant
            server.wf(),
            i <= events@.len(),
            forall|addr: Seq<char>|
                #![trigger server.connections@.contains_key(addr)]
                #![trigger before.connections@.contains_key(addr)]
                server.connections@.contains_key(addr) <==> before.connections@.contains_key(addr)
                    && !closes(events@.take(i as int), addr),
            forall|addr: Seq<char>| #[trigger]
                server.connections@.contains_key(addr) ==> {
                    &&& server.connections@[addr] == before.connections@[addr]
                    &&& server.connections.channel_of(addr) == before.connections.channel_of(addr)
                },
            i > 0 ==> server.counts_connections(),
            i == 0 ==> *server == before,
            server.listener == before.listener,
            server.last_broadcast_id == before.last_broadcast_id,
            server.stats == (ServerStats {
                connections: server.stats.connections,
                ..before.stats
            }),
        decreases events@.len() - i,
    {
        let ghost earlier = *server;
        cleanup_connection(server, events[i].addr.as_str());
        proof {
            let done = events@.take(i as int);
            let more = events@.take(i + 1);
            assert(more =~= done.push(events@[i as int]));
            assert forall|addr: Seq<char>| closes(more, addr) == (closes(done, addr)
                || events@[i as int].addr@ == addr) by {
                if closes(done, addr) {
                    let k = choose|k: int|
                        0 <= k < done.len() && (#[trigger] done[k]).addr@ == addr;
                    assert(more[k].addr@ == addr);
                }
                assert(more[i as int] == events@[i as int]);
                if closes(more, addr) && events@[i as int].addr@ != addr {
                    let k = choose|k: int|
                        0 <= k < more.len() && (#[trigger] more[k]).addr@ == addr;
                    assert(done[k].addr@ == addr);
                }
            }
        }
        i = i + 1;
    }
    assert(events@.take(i as int) =~= events@);
}

} // verus!
