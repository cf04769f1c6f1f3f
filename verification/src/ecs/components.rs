//! The state of the server, its settings, and the messages and events that it deals in.
use crate::message::Ratio;
use crate::registry::Connections;
use vstd::prelude::*;

verus! {

/// A message as the server sends it.
#[derive(Debug)]
pub struct BenchmarkMessage {
    pub id: u64,
    pub timestamp: u64,
    pub payload: String,
    pub message_type: Option<String>,
    pub original_id: Option<u64>,
    pub server_timestamp: Option<u64>,
}

/// The contents of a `BenchmarkMessage`.
pub struct BenchmarkMessageView {
    pub id: u64,
    pub timestamp: u64,
    pub payload: Seq<char>,
    pub message_type: Option<Seq<char>>,
    pub original_id: Option<u64>,
    pub server_timestamp: Option<u64>,
}

impl View for BenchmarkMessage {
    type V = BenchmarkMessageView;

    open spec fn view(&self) -> BenchmarkMessageView {
        BenchmarkMessageView {
            id: self.id,
            timestamp: self.timestamp,
            payload: self.payload@,
            message_type: match self.message_type {
                Some(text) => Some(text@),
                None => None,
            },
            original_id: self.original_id,
            server_timestamp: self.server_timestamp,
        }
    }
}

/// Counters of the server. Times are nanoseconds on a clock that never goes back.
#[derive(Debug, Clone, Copy)]
pub struct ServerStats {
    pub connections: usize,
    pub total_messages: u64,
    pub dropped_messages: u64,
    pub slow_connections: u64,
    pub total_pending_messages: usize,
    pub max_pending_messages: usize,
    pub start_time: Option<u64>,
    pub last_stats_time: Option<u64>,
    /// Messages over the nanoseconds in which they were counted.
    pub messages_per_second: Ratio,
    pub last_message_count: u64,
}

impl ServerStats {
    /// Nothing has been counted yet.
    pub open spec fn zero() -> ServerStats {
        ServerStats {
            connections: 0,
            total_messages: 0,
            dropped_messages: 0,
            slow_connections: 0,
            total_pending_messages: 0,
            max_pending_messages: 0,
            start_time: None,
            last_stats_time: None,
            messages_per_second: Ratio { numerator: 0, denominator: 1 },
            last_message_count: 0,
        }
    }

    /// `pending` frames wait now; the peak is the most that ever waited.
    pub open spec fn with_pending(self, pending: usize) -> ServerStats {
        ServerStats {
            total_pending_messages: pending,
            max_pending_messages: if pending > self.max_pending_messages {
                pending
            } else {
                self.max_pending_messages
            },
            ..self
        }
    }

    /// One more frame went out and left `pending` in its channel.
    pub open spec fn after_sent(self, pending: usize) -> ServerStats {
        ServerStats {
            total_messages: self.total_messages.wrapping_add(1),
            ..self.with_pending(pending)
        }
    }

    /// One more frame was dropped because its channel was full.
    pub open spec fn after_dropped(self) -> ServerStats {
        ServerStats {
            dropped_messages: self.dropped_messages.wrapping_add(1),
            slow_connections: self.slow_connections.wrapping_add(1),
            ..self
        }
    }

    /// A broadcast reached `sent` clients and missed `failed` others.
    pub open spec fn after_broadcast(self, sent: u64, failed: u64) -> ServerStats {
        ServerStats {
            total_messages: self.total_messages.wrapping_add(sent),
            dropped_messages: self.dropped_messages.wrapping_add(failed),
            ..self
        }
    }

    /// Notes how many frames wait.
    pub fn set_pending(&mut self, pending: usize)
        ensures
            *final(self) == old(self).with_pending(pending),
    {
        self.total_pending_messages = pending;
        if pending > self.max_pending_messages {
            self.max_pending_messages = pending;
        }
    }
}

impl Default for ServerStats {
    fn default() -> (stats: ServerStats)
        ensures
            stats == ServerStats::zero(),
    {
        ServerStats {
            connections: 0,
            total_messages: 0,
            dropped_messages: 0,
            slow_connections: 0,
            total_pending_messages: 0,
            max_pending_messages: 0,
            start_time: None,
            last_stats_time: None,
            messages_per_second: Ratio { numerator: 0, denominator: 1 },
            last_message_count: 0,
        }
    }
}

/// The server: who is connected, what has been counted, and where it listens.
pub struct WebSocketServer {
    pub connections: Connections,
    pub stats: ServerStats,
    /// The address that the server listens on, once it does.
    pub listener: Option<String>,
    /// The number of the last broadcast, once there is one.
    pub last_broadcast_id: Option<u64>,
}

impl WebSocketServer {
    /// The connections are in order.
    pub open spec fn wf(self) -> bool {
        self.connections.wf()
    }

    /// The connection counter is the number of connections.
    pub open spec fn counts_connections(self) -> bool {
        self.stats.connections == self.connections@.len()
    }

    /// A server without connections that does not listen yet.
    pub fn new() -> (server: WebSocketServer)
        ensures
            server.wf(),
            server.counts_connections(),
            server.connections@.is_empty(),
            server.stats == ServerStats::zero(),
            server.listener is None,
            server.last_broadcast_id is None,
    {
        WebSocketServer {
            connections: Connections::new(),
            stats: ServerStats::default(),
            listener: None,
            last_broadcast_id: None,
        }
    }

    /// The number of the next broadcast at the time `now`: the time, or one more than the number of
    /// the last broadcast if the time has not passed that.
    pub open spec fn broadcast_id(self, now: u64) -> u64 {
        match self.last_broadcast_id {
            Some(last) if last >= now => (last + 1) as u64,
            _ => now,
        }
    }

    /// Numbers the next broadcast. Numbers only rise, so that no two broadcasts share one.
    pub fn next_broadcast_id(&mut self, now: u64) -> (id: u64)
        requires
            old(self).last_broadcast_id != Some(u64::MAX),
        ensures
            id == old(self).broadcast_id(now),
            id >= now,
            old(self).last_broadcast_id matches Some(last) ==> id > last,
            *final(self) == (WebSocketServer { last_broadcast_id: Some(id), ..*old(self) }),
    {
        let id = match self.last_broadcast_id {
            Some(last) => if last >= now {
                last + 1
            } else {
                now
            },
            None => now,
        };
        self.last_broadcast_id = Some(id);
        id
    }
}

/// A client's text has come in.
pub struct MessageReceived {
    pub from: String,
    pub message: String,
}

/// A connection has ended.
pub struct ConnectionClosed {
    pub addr: String,
}

/// A text for every client.
pub struct BroadcastMessage {
    pub message: String,
}

/// Whether the server broadcasts.
pub struct BroadcastConfig {
    pub enabled: bool,
}

/// The settings that the server runs with.
pub struct ServerConfig {
    pub bind: String,
    pub stats: bool,
    pub broadcast: bool,
    pub broadcast_size: usize,
}

} // verus!
