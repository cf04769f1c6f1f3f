//! What is done about what comes in from a client.
use crate::channel::{Frame, FrameView, SendOutcome};
use crate::ecs::components::{
    BenchmarkMessage, BenchmarkMessageView, ServerStats, WebSocketServer,
};
use crate::message::Incoming;
use crate::registry::{CHANNEL_BUFFER_SIZE, SEND_TIMEOUT_MS};
use vstd::prelude::*;

verus! {

/// The reply to `request` from the client at `addr`.
pub open spec fn echo_of(
    request: BenchmarkMessageView,
    addr: Seq<char>,
    server_timestamp: u64,
) -> BenchmarkMessageView {
    BenchmarkMessageView {
        id: request.id,
        timestamp: server_timestamp,
        payload: "bevy-echo["@ + addr + "]: "@ + request.payload,
        message_type: Some("echo"@),
        original_id: Some(request.id),
        server_timestamp: Some(server_timestamp),
    }
}

/// Builds the reply to a client's message.
pub fn echo_response(
    request: &BenchmarkMessage,
    addr: &str,
    server_timestamp: u64,
) -> (response: BenchmarkMessage)
    ensures
        response@ == echo_of(request@, addr@, server_timestamp),
        response.id == request.id,
        response.original_id == Some(request.id),
        response.timestamp == server_timestamp,
        response.server_timestamp == Some(server_timestamp),
        response.payload@ == "bevy-echo["@ + addr@ + "]: "@ + request.payload@,
        response.message_type matches Some(kind) && kind@ == "echo"@,
{
    let mut payload = String::new();
    payload.append("bevy-echo[");
    payload.append(addr);
    payload.append("]: ");
    payload.append(request.payload.as_str());
    assert(payload@ =~= "bevy-echo["@ + addr@ + "]: "@ + request@.payload);
    BenchmarkMessage {
        id: request.id,
        timestamp: server_timestamp,
        payload,
        message_type: Some("echo".to_string()),
        original_id: Some(request.id),
        server_timestamp: Some(server_timestamp),
    }
}

/// What the reader of a connection does next.
pub enum ReceiveAction {
    /// Send this reply, then read on.
    Respond(BenchmarkMessage),
    /// Report that the text holds no message, then read on.
    ReportUnreadable,
    /// Read on.
    Continue,
    /// Stop reading.
    Stop,
}

/// Whether `action` is what is done about what came in from `addr`.
pub open spec fn responds(
    incoming: Incoming<BenchmarkMessage>,
    addr: Seq<char>,
    server_timestamp: u64,
    action: ReceiveAction,
) -> bool {
    match incoming {
        Incoming::Message(request) => action matches ReceiveAction::Respond(response) && response@
            == echo_of(request@, addr, server_timestamp),
        Incoming::Unreadable => action is ReportUnreadable,
        Incoming::Close | Incoming::Failed => action is Stop,
        Incoming::Binary(_) | Incoming::Other => action is Continue,
    }
}

/// Decides what to do about what came in from `addr`.
pub fn websocket_receiver_step(
    incoming: Incoming<BenchmarkMessage>,
    addr: &str,
    server_timestamp: u64,
) -> (action: ReceiveAction)
    ensures
        responds(incoming, addr@, server_timestamp, action),
{
    match incoming {
        Incoming::Message(request) => ReceiveAction::Respond(
            echo_response(&request, addr, server_timestamp),
        ),
        Incoming::Unreadable => ReceiveAction::ReportUnreadable,
        Incoming::Close => ReceiveAction::Stop,
        Incoming::Failed => ReceiveAction::Stop,
        Incoming::Binary(_) => ReceiveAction::Continue,
        Incoming::Other => ReceiveAction::Continue,
    }
}

/// What became of a reply.
#[derive(Debug, Clone, Copy, PartialEq, Eq, Structural)]
pub enum EchoOutcome {
    /// The reply could not be written as text.
    NotSerialized,
    /// The client is not connected any more.
    NotConnected,
    /// The reply waits in the client's channel.
    Sent,
    /// The channel is full, but the reply may wait on for room.
    Waiting,
    /// The channel stayed full and the reply was dropped.
    Dropped,
    /// The channel is closed: the connection is over.
    ChannelClosed,
}

impl EchoOutcome {
    /// Whether the reader of the connection stops here.
    pub fn stops(&self) -> (stops: bool)
        ensures
            stops == (*self is ChannelClosed),
    {
        match self {
            EchoOutcome::ChannelClosed => true,
            _ => false,
        }
    }
}

/// What becomes of a reply that has waited for the given milliseconds and met with `outcome`.
pub open spec fn echo_outcome(outcome: SendOutcome, waited_ms: u64) -> EchoOutcome {
    match outcome {
        SendOutcome::Sent => EchoOutcome::Sent,
        SendOutcome::Full => if waited_ms < SEND_TIMEOUT_MS {
            EchoOutcome::Waiting
        } else {
            EchoOutcome::Dropped
        },
        SendOutcome::Closed => EchoOutcome::ChannelClosed,
    }
}

/// The counters after a reply met with `result` at a channel that has `room` left.
pub open spec fn echo_counted(stats: ServerStats, result: EchoOutcome, room: usize) -> ServerStats {
    match result {
        EchoOutcome::Sent => stats.after_sent((CHANNEL_BUFFER_SIZE - room) as usize),
        EchoOutcome::Dropped => stats.after_dropped(),
        _ => stats,
    }
}

/// Decides what becomes of a reply that was handed to a channel which has `room` left, and counts
/// it. A reply that finds its channel full is dropped once it has waited long enough.
pub fn record_echo(
    stats: &mut ServerStats,
    outcome: SendOutcome,
    room: usize,
    waited_ms: u64,
) -> (result: EchoOutcome)
    requires
        room <= CHANNEL_BUFFER_SIZE,
    ensures
        result == echo_outcome(outcome, waited_ms),
        *final(stats) == echo_counted(*old(stats), result, room),
{
    match outcome {
        SendOutcome::Sent => {
            let pending = CHANNEL_BUFFER_SIZE - room;
            stats.total_messages = stats.total_messages.wrapping_add(1);
            stats.set_pending(pending);
            EchoOutcome::Sent
        },
        SendOutcome::Full => {
            if waited_ms < SEND_TIMEOUT_MS {
                return EchoOutcome::Waiting;
            }
            stats.dropped_messages = stats.dropped_messages.wrapping_add(1);
            stats.slow_connections = stats.slow_connections.wrapping_add(1);
            EchoOutcome::Dropped
        },
        SendOutcome::Closed => EchoOutcome::ChannelClosed,
    }
}

/// Whether the server went from `before` to `after` by an attempt to hand the reply `text` to the
/// client at `addr`, after it had waited for the given milliseconds, with the given result.
pub open spec fn echoes(
    before: WebSocketServer,
    after: WebSocketServer,
    addr: Seq<char>,
    text: Option<String>,
    waited_ms: u64,
    result: EchoOutcome,
) -> bool {
    let frames = before.connections@[addr];
    &&& after.connections.same_receivers(before.connections)
    &&& after.listener == before.listener
    &&& after.last_broadcast_id == before.last_broadcast_id
    &&& result is NotSerialized <==> text is None
    &&& result is NotConnected <==> text is Some && !before.connections@.contains_key(addr)
    &&& result is Waiting || result is Dropped ==> frames.len() >= CHANNEL_BUFFER_SIZE
    &&& result is Waiting ==> waited_ms < SEND_TIMEOUT_MS
    &&& result is Dropped ==> waited_ms >= SEND_TIMEOUT_MS
    &&& after.connections@ == if result is Sent {
        before.connections@.insert(addr, frames.push(FrameView::Text(text->0@)))
    } else {
        before.connections@
    }
    &&& exists|room: usize|
        room <= CHANNEL_BUFFER_SIZE && (result is Sent ==> room + frames.len() + 1
            >= CHANNEL_BUFFER_SIZE) && after.stats == #[trigger] echo_counted(
            before.stats,
            result,
            room,
        )
}

/// Hands the reply for `addr` to its channel, which takes it at once or not at all, and counts what
/// became of it. `text` is the reply as text, if it could be written so. A reply that is to wait is
/// handed over again, with the milliseconds that it has waited since the first attempt.
pub fn deliver_echo(
    server: &mut WebSocketServer,
    addr: &str,
    text: Option<String>,
    waited_ms: u64,
) -> (result: EchoOutcome)
    requires
        old(server).wf(),
    ensures
        final(server).wf(),
        old(server).counts_connections() ==> final(server).counts_connections(),
        echoes(*old(server), *final(server), addr@, text, waited_ms, result),
{
    let ghost before = *server;
    match text {
        None => {
            assert(server.stats == echo_counted(before.stats, EchoOutcome::NotSerialized, 0));
            EchoOutcome::NotSerialized
        },
        Some(text) => match server.connections.try_send(addr, Frame::Text(text)) {
            None => {
                assert(server.stats == echo_counted(before.stats, EchoOutcome::NotConnected, 0));
                EchoOutcome::NotConnected
            },
            Some((outcome, room)) => record_echo(&mut server.stats, outcome, room, waited_ms),
        },
    }
}

} // verus!
