//! The stand-alone server: who is connected, what is replied, and what is broadcast.
use crate::channel::{accepted_frames, buffer_limit, feeds, frame_channel, Frame};
use crate::table::ConnectionTable;
use crate::message::{BenchmarkMessage, BenchmarkMessageView, Incoming, Ratio};
use crate::text::{decimal, push_decimal};
use tokio::sync::mpsc::{Receiver, Sender};
use vstd::prelude::*;

verus! {

/// How many frames the channel of one connection buffers.
pub const CHANNEL_BUFFER_SIZE: usize = 100;

/// How many milliseconds a frame may wait for room in its channel.
pub const SEND_TIMEOUT_MS: u64 = 20;

/// How many seconds lie between two samples of the counters.
pub const STATS_INTERVAL_SECONDS: u64 = 5;

/// Counters of the server. Times are nanoseconds on a clock that never goes back.
#[derive(Debug, Clone, Copy)]
pub struct ServerStats {
    pub connections: usize,
    pub total_messages: u64,
    /// Messages over the nanoseconds in which they were counted.
    pub messages_per_second: Ratio,
    pub start_time: Option<u64>,
    pub last_stats_time: Option<u64>,
    pub last_message_count: u64,
    pub dropped_messages: u64,
    pub slow_connections: u64,
}

impl ServerStats {
    /// Nothing has been counted yet.
    pub open spec fn zero() -> ServerStats {
        ServerStats {
            connections: 0,
            total_messages: 0,
            messages_per_second: Ratio { numerator: 0, denominator: 1 },
            start_time: None,
            last_stats_time: None,
            last_message_count: 0,
            dropped_messages: 0,
            slow_connections: 0,
        }
    }

    /// The counters when `connections` clients are connected from the time `now` on.
    pub open spec fn after_connect(self, connections: usize, now: u64) -> ServerStats {
        if self.start_time is None {
            ServerStats {
                connections,
                start_time: Some(now),
                last_stats_time: Some(now),
                ..self
            }
        } else {
            ServerStats { connections, ..self }
        }
    }

    /// The counters after a sample at the time `now`. Without time gone by the rate stays.
    pub open spec fn after_sample(self, now: u64) -> ServerStats {
        ServerStats {
            messages_per_second: match (self.last_stats_time, self.start_time) {
                (Some(last), Some(_)) if now > last => Ratio {
                    numerator: (self.total_messages - self.last_message_count) as u64,
                    denominator: (now - last) as u64,
                },
                _ => self.messages_per_second,
            },
            last_stats_time: Some(now),
            last_message_count: self.total_messages,
            ..self
        }
    }
}

impl Default for ServerStats {
    fn default() -> (stats: ServerStats)
        ensures
            stats == ServerStats::zero(),
    {
        ServerStats {
            connections: 0,
            total_messages: 0,
            messages_per_second: Ratio { numerator: 0, denominator: 1 },
            start_time: None,
            last_stats_time: None,
            last_message_count: 0,
            dropped_messages: 0,
            slow_connections: 0,
        }
    }
}

/// The server: who is connected and what has been counted.
pub struct Server {
    pub connections: ConnectionTable,
    pub stats: ServerStats,
}

/// What is done about what came in on a connection.
pub enum Reply {
    /// Send this message back.
    Message(BenchmarkMessage),
    /// Send these bytes back.
    Binary(Vec<u8>),
    /// Nothing.
    Nothing,
    /// Stop reading the connection.
    Stop,
}

/// The reply to `request`.
pub open spec fn echo_of(request: BenchmarkMessageView, timestamp: u64) -> BenchmarkMessageView {
    BenchmarkMessageView { id: request.id, timestamp, payload: "echo: "@ + request.payload }
}

/// Whether what came in is counted as a message.
pub open spec fn is_counted(incoming: Incoming<BenchmarkMessage>) -> bool {
    incoming is Message || incoming is Unreadable || incoming is Binary
}

/// Whether the server goes from `before` to `after` by counting what came in, and the given reply is
/// what is done about it.
pub open spec fn receives(
    before: Server,
    after: Server,
    incoming: Incoming<BenchmarkMessage>,
    timestamp: u64,
    reply: Reply,
) -> bool {
    &&& after.connections == before.connections
    &&& after.stats == (ServerStats {
        total_messages: if is_counted(incoming) {
            (before.stats.total_messages + 1) as u64
        } else {
            before.stats.total_messages
        },
        ..before.stats
    })
    &&& match incoming {
        Incoming::Message(request) => reply matches Reply::Message(response) && response@
            == echo_of(request@, timestamp),
        Incoming::Binary(data) => reply == Reply::Binary(data),
        Incoming::Close | Incoming::Failed => reply is Stop,
        Incoming::Unreadable | Incoming::Other => reply is Nothing,
    }
}

/// Whether the server goes from `before` to `after` by forgetting the connection from `addr`: it
/// keeps all others, and counts those.
pub open spec fn forgets(before: Server, after: Server, addr: Seq<char>) -> bool {
    &&& after.connections@ == before.connections@.remove(addr)
    &&& after.counts_connections()
    &&& after.stats == (ServerStats { connections: after.stats.connections, ..before.stats })
}

/// What a sample of the counters says.
#[derive(Debug, Clone, Copy)]
pub struct StatsSample {
    pub connections: usize,
    pub total_messages: u64,
    /// Messages over the nanoseconds in which they were counted.
    pub messages_per_second: Ratio,
}

impl Server {
    /// The connections are in order.
    pub open spec fn wf(self) -> bool {
        self.connections.wf()
    }

    /// The connection counter is the number of connections.
    pub open spec fn counts_connections(self) -> bool {
        self.stats.connections == self.connections@.len()
    }

    /// A server without connections.
    pub fn new() -> (server: Server)
        ensures
            server.wf(),
            server.counts_connections(),
            server.connections@.is_empty(),
            server.stats == ServerStats::zero(),
    {
        Server { connections: ConnectionTable::new(), stats: ServerStats::default() }
    }

    /// Takes in the connection from `addr` at the time `now` and hands back where the frames for
    /// it come out.
    pub fn register(&mut self, addr: String, now: u64) -> (receiver: Receiver<Frame>)
        requires
            old(self).wf(),
        ensures
            final(self).wf(),
            final(self).counts_connections(),
            final(self).connections@.contains_key(addr@),
            final(self).connections@ == old(self).connections@.insert(
                addr@,
                final(self).connections@[addr@],
            ),
            buffer_limit(final(self).connections@[addr@]) == CHANNEL_BUFFER_SIZE,
            accepted_frames(final(self).connections@[addr@]).len() == 0,
            feeds(final(self).connections@[addr@], receiver),
            final(self).stats == old(self).stats.after_connect(
                final(self).stats.connections,
                now,
            ),
    {
        let (sender, receiver) = frame_channel(CHANNEL_BUFFER_SIZE);
        self.connections.insert(addr, sender);
        self.stats.connections = self.connections.len();
        if self.stats.start_time.is_none() {
            self.stats.start_time = Some(now);
            self.stats.last_stats_time = Some(now);
        }
        receiver
    }

    /// Forgets the connection from `addr` after it has ended.
    pub fn unregister(&mut self, addr: &str)
        requires
            old(self).wf(),
        ensures
            final(self).wf(),
            forgets(*old(self), *final(self), addr@),
    {
        self.connections.remove(addr);
        self.stats.connections = self.connections.len();
    }

    /// Counts what came in and decides what is done about it. A text is counted whether or not it
    /// holds a message.
    pub fn receive(&mut self, incoming: Incoming<BenchmarkMessage>, timestamp: u64) -> (reply:
        Reply)
        requires
            is_counted(incoming) ==> old(self).stats.total_messages < u64::MAX,
        ensures
            receives(*old(self), *final(self), incoming, timestamp, reply),
            old(self).wf() ==> final(self).wf(),
            old(self).counts_connections() ==> final(self).counts_connections(),
    {
        match incoming {
            Incoming::Message(request) => {
                self.stats.total_messages = self.stats.total_messages + 1;
                let mut payload = String::new();
                payload.append("echo: ");
                payload.append(request.payload.as_str());
                assert(payload@ =~= "echo: "@ + request@.payload);
                Reply::Message(BenchmarkMessage { id: request.id, timestamp, payload })
            },
            Incoming::Unreadable => {
                self.stats.total_messages = self.stats.total_messages + 1;
                Reply::Nothing
            },
            Incoming::Binary(data) => {
                self.stats.total_messages = self.stats.total_messages + 1;
                Reply::Binary(data)
            },
            Incoming::Close => Reply::Stop,
            Incoming::Failed => Reply::Stop,
            Incoming::Other => Reply::Nothing,
        }
    }

    /// Where a frame for `addr` goes. `None` if there is no frame, or if `addr` is not connected any
    /// more.
    pub fn outgoing(&self, addr: &str, frame: Option<Frame>) -> (target: Option<
        (&Sender<Frame>, Frame),
    >)
        requires
            self.wf(),
        ensures
            target is Some <==> frame is Some && self.connections@.contains_key(addr@),
            target matches Some(pair) ==> *pair.0 == self.connections@[addr@] && Some(pair.1)
                == frame,
    {
        match frame {
            Some(frame) => match self.connections.get(addr) {
                Some(sender) => Some((sender, frame)),
                None => None,
            },
            None => None,
        }
    }

    /// Samples the counters at the time `now`.
    pub fn sample_stats(&mut self, now: u64) -> (sample: StatsSample)
        requires
            old(self).wf(),
            old(self).stats.last_stats_time is Some && old(self).stats.start_time is Some ==> old(
                self,
            ).stats.last_message_count <= old(self).stats.total_messages,
        ensures
            final(self).connections == old(self).connections,
            final(self).stats == old(self).stats.after_sample(now),
            sample.connections == old(self).connections@.len(),
            sample.total_messages == final(self).stats.total_messages,
            sample.messages_per_second == final(self).stats.messages_per_second,
    {
        if let (Some(last), Some(_)) = (self.stats.last_stats_time, self.stats.start_time) {
            let elapsed = now.saturating_sub(last);
            let messages = self.stats.total_messages - self.stats.last_message_count;
            if elapsed > 0 {
                self.stats.messages_per_second =
                Ratio { numerator: messages, denominator: elapsed };
            }
        }
        self.stats.last_stats_time = Some(now);
        self.stats.last_message_count = self.stats.total_messages;
        StatsSample {
            connections: self.connections.len(),
            total_messages: self.stats.total_messages,
            messages_per_second: self.stats.messages_per_second,
        }
    }
}

/// What became of a frame that could wait for room in its channel.
#[derive(Debug, Clone, Copy, PartialEq, Eq, Structural)]
pub enum SendResult {
    Sent,
    ChannelClosed,
    TimedOut,
}

/// How many of the frames were taken.
pub open spec fn sent_count(results: Seq<SendResult>) -> nat
    decreases results.len(),
{
    if results.len() == 0 {
        0
    } else {
        sent_count(results.drop_last()) + if results.last() is Sent {
            1nat
        } else {
            0
        }
    }
}

/// Counts the frames that were taken and those that were not.
pub fn tally(results: &Vec<SendResult>) -> (counts: (u64, u64))
    ensures
        counts.0 == sent_count(results@),
        counts.0 + counts.1 == results@.len(),
{
    let mut sent: u64 = 0;
    let mut failed: u64 = 0;
    let mut i: usize = 0;
    assert(results@.take(0) =~= Seq::empty());
    while i < results.len()
        invariant
            i <= results@.len(),
            sent == sent_count(results@.take(i as int)),
            sent + failed == i,
        decreases results@.len() - i,
    {
        assert(results@.take(i + 1).drop_last() =~= results@.take(i as int));
        match results[i] {
            SendResult::Sent => {
                sent = sent + 1;
            },
            _ => {
                failed = failed + 1;
            },
        }
        i = i + 1;
    }
    assert(results@.take(i as int) =~= results@);
    (sent, failed)
}

/// How a broadcast went.
#[derive(Debug, Clone, Copy, PartialEq, Eq, Structural)]
pub struct BroadcastSummary {
    pub sent: u64,
    pub failed: u64,
    /// Whether this is one of the broadcasts that are logged.
    pub logged: bool,
}

/// Sends numbered broadcasts at a fixed frequency.
pub struct Broadcaster {
    frequency_hz: u64,
    broadcast_count: u64,
}

/// The broadcast with the given number.
pub open spec fn broadcast_of(
    count: u64,
    frequency_hz: u64,
    connections: nat,
    timestamp: u64,
) -> BenchmarkMessageView {
    BenchmarkMessageView {
        id: count,
        timestamp,
        payload: "Server broadcast #"@ + decimal(count as nat) + " at "@ + decimal(
            frequency_hz as nat,
        ) + "Hz - "@ + decimal(connections) + " connections active"@,
    }
}

impl Broadcaster {
    /// How many broadcasts a second are aimed at.
    pub closed spec fn frequency(self) -> u64 {
        self.frequency_hz
    }

    /// How many broadcasts have come due.
    pub closed spec fn count(self) -> u64 {
        self.broadcast_count
    }

    /// The frequency leaves at least a millisecond between two broadcasts.
    pub closed spec fn wf(self) -> bool {
        0 < self.frequency_hz <= 1000
    }

    /// Starts counting at nought. More than a thousand broadcasts a second cannot be timed.
    pub fn new(frequency_hz: u64) -> (broadcaster: Broadcaster)
        requires
            0 < frequency_hz <= 1000,
        ensures
            broadcaster.wf(),
            broadcaster.frequency() == frequency_hz,
            broadcaster.count() == 0,
    {
        Broadcaster { frequency_hz, broadcast_count: 0 }
    }

    /// How many broadcasts have come due.
    pub fn broadcast_count(&self) -> (count: u64)
        ensures
            count == self.count(),
    {
        self.broadcast_count
    }

    /// The milliseconds from one broadcast to the next.
    pub fn interval_ms(&self) -> (millis: u64)
        requires
            self.wf(),
        ensures
            millis == 1000u64 / self.frequency(),
            millis > 0,
    {
        proof {
            vstd::arithmetic::div_mod::lemma_div_non_zero(1000, self.frequency_hz as int);
        }
        1000 / self.frequency_hz
    }

    /// The next broadcast has come due: counts it, and makes it if someone is connected.
    pub fn tick(&mut self, connections: usize, timestamp: u64) -> (message: Option<
        BenchmarkMessage,
    >)
        requires
            old(self).wf(),
            old(self).count() < u64::MAX,
        ensures
            final(self).wf(),
            final(self).frequency() == old(self).frequency(),
            final(self).count() == old(self).count() + 1,
            message is Some <==> connections > 0,
            message matches Some(broadcast) ==> broadcast@ == broadcast_of(
                final(self).count(),
                final(self).frequency(),
                connections as nat,
                timestamp,
            ),
    {
        self.broadcast_count = self.broadcast_count + 1;
        if connections == 0 {
            return None;
        }
        let mut payload = String::new();
        payload.append("Server broadcast #");
        push_decimal(&mut payload, self.broadcast_count as u128);
        payload.append(" at ");
        push_decimal(&mut payload, self.frequency_hz as u128);
        payload.append("Hz - ");
        push_decimal(&mut payload, connections as u128);
        payload.append(" connections active");
        assert(payload@ =~= broadcast_of(
            self.broadcast_count,
            self.frequency_hz,
            connections as nat,
            timestamp,
        ).payload);
        Some(BenchmarkMessage { id: self.broadcast_count, timestamp, payload })
    }

    /// Counts what became of the last broadcast at each connection. Every ten seconds one is
    /// logged.
    pub fn record(&self, stats: &mut ServerStats, results: &Vec<SendResult>) -> (summary:
        BroadcastSummary)
        requires
            self.wf(),
            old(stats).total_messages + sent_count(results@) <= u64::MAX,
            old(stats).dropped_messages + (results@.len() - sent_count(results@)) <= u64::MAX,
        ensures
            summary.sent == sent_count(results@),
            summary.sent + summary.failed == results@.len(),
            summary.logged == (self.count() as int % (self.frequency() * 10) == 0),
            *final(stats) == (ServerStats {
                total_messages: (old(stats).total_messages + summary.sent) as u64,
                dropped_messages: (old(stats).dropped_messages + summary.failed) as u64,
                ..*old(stats)
            }),
    {
        let (sent, failed) = tally(results);
        stats.total_messages = stats.total_messages + sent;
        stats.dropped_messages = stats.dropped_messages + failed;
        BroadcastSummary {
            sent,
            failed,
            logged: self.broadcast_count % (self.frequency_hz * 10) == 0,
        }
    }
}

} // verus!
