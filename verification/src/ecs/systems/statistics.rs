//! Reports on what the server has counted.
use crate::ecs::components::{ServerConfig, ServerStats, WebSocketServer};
use crate::message::Ratio;
use crate::registry::{measures, Room, CHANNEL_BUFFER_SIZE};
use vstd::prelude::*;

verus! {

/// How many frames wait in channels that have the given room left.
pub open spec fn pending_in(rooms: Seq<Room>) -> nat
    decreases rooms.len(),
{
    if rooms.len() == 0 {
        0
    } else {
        pending_in(rooms.drop_last()) + (CHANNEL_BUFFER_SIZE - rooms.last().free) as nat
    }
}

/// Adds up the frames that wait in channels with the given room left.
pub fn total_pending(rooms: &Vec<Room>) -> (pending: usize)
    requires
        forall|i: int| 0 <= i < rooms@.len() ==> (#[trigger] rooms@[i]).free <= CHANNEL_BUFFER_SIZE,
        rooms@.len() * CHANNEL_BUFFER_SIZE <= usize::MAX,
    ensures
        pending == pending_in(rooms@),
        pending <= rooms@.len() * CHANNEL_BUFFER_SIZE,
{
    let mut pending: usize = 0;
    let mut i: usize = 0;
    assert(rooms@.take(0) =~= Seq::empty());
    while i < rooms.len()
        invariant
            i <= rooms@.len(),
            forall|i: int|
                0 <= i < rooms@.len() ==> (#[trigger] rooms@[i]).free <= CHANNEL_BUFFER_SIZE,
            rooms@.len() * CHANNEL_BUFFER_SIZE <= usize::MAX,
            pending == pending_in(rooms@.take(i as int)),
            pending <= i * CHANNEL_BUFFER_SIZE,
        decreases rooms@.len() - i,
    {
        assert(rooms@.take(i + 1).drop_last() =~= rooms@.take(i as int));
        pending = pending + (CHANNEL_BUFFER_SIZE - rooms[i].free);
        i = i + 1;
    }
    assert(rooms@.take(i as int) =~= rooms@);
    pending
}

/// At least this much time, in nanoseconds, lies between two reports.
pub const REPORT_INTERVAL_NANOS: u64 = 4_500_000_000;

/// What a report on the server says.
#[derive(Debug, Clone, Copy)]
pub struct StatsReport {
    pub connections: usize,
    pub total_messages: u64,
    /// Messages over the nanoseconds in which they were counted.
    pub messages_per_second: Ratio,
    pub dropped_messages: u64,
    pub slow_connections: u64,
    pub pending: usize,
    pub max_pending: usize,
}

/// What there is to do about statistics.
#[derive(Debug, Clone, Copy, PartialEq, Eq, Structural)]
pub enum StatsDue {
    /// Nothing.
    Nothing,
    /// Start counting.
    Start,
    /// Report on the given nanoseconds.
    Report(u64),
}

/// Whether the running second is one in which statistics are looked at.
pub open spec fn stats_second(elapsed_seconds: u64) -> bool {
    elapsed_seconds % 5 == 0
}

/// What there is to do about statistics `elapsed_seconds` into the run and at the time `now`.
pub open spec fn due(
    stats: ServerStats,
    enabled: bool,
    elapsed_seconds: u64,
    now: u64,
) -> StatsDue {
    if !enabled || !stats_second(elapsed_seconds) {
        StatsDue::Nothing
    } else if stats.start_time is None {
        StatsDue::Start
    } else {
        match stats.last_stats_time {
            Some(last) if now.saturating_sub(last) >= REPORT_INTERVAL_NANOS => StatsDue::Report(
                now.saturating_sub(last),
            ),
            _ => StatsDue::Nothing,
        }
    }
}

/// Decides what there is to do about statistics.
pub fn stats_due(
    stats: &ServerStats,
    config: &ServerConfig,
    elapsed_seconds: u64,
    now: u64,
) -> (result: StatsDue)
    ensures
        result == due(*stats, config.stats, elapsed_seconds, now),
{
    if !config.stats || elapsed_seconds % 5 != 0 {
        return StatsDue::Nothing;
    }
    if stats.start_time.is_none() {
        return StatsDue::Start;
    }
    match stats.last_stats_time {
        Some(last) => {
            let elapsed = now.saturating_sub(last);
            if elapsed >= REPORT_INTERVAL_NANOS {
                StatsDue::Report(elapsed)
            } else {
                StatsDue::Nothing
            }
        },
        None => StatsDue::Nothing,
    }
}

impl ServerStats {
    /// The counters after a report at the time `now` on the last `elapsed` nanoseconds, when
    /// `pending` frames wait.
    pub open spec fn after_report(self, now: u64, elapsed: u64, pending: usize) -> ServerStats {
        ServerStats {
            messages_per_second: Ratio {
                numerator: (self.total_messages - self.last_message_count) as u64,
                denominator: elapsed,
            },
            last_stats_time: Some(now),
            last_message_count: self.total_messages,
            ..self.with_pending(pending)
        }
    }

    /// What is reported of the counters when `connections` clients are connected.
    pub open spec fn reported(self, connections: usize) -> StatsReport {
        StatsReport {
            connections,
            total_messages: self.total_messages,
            messages_per_second: self.messages_per_second,
            dropped_messages: self.dropped_messages,
            slow_connections: self.slow_connections,
            pending: self.total_pending_messages,
            max_pending: self.max_pending_messages,
        }
    }

    /// Brings the counters up to date for a report and makes it.
    pub fn report(&mut self, now: u64, elapsed: u64, connections: usize, pending: usize) -> (report:
        StatsReport)
        requires
            old(self).last_message_count <= old(self).total_messages,
        ensures
            *final(self) == old(self).after_report(now, elapsed, pending),
            report == final(self).reported(connections),
            report.pending == pending,
            report.connections == connections,
            report.total_messages == old(self).total_messages,
            report.dropped_messages == old(self).dropped_messages,
            report.slow_connections == old(self).slow_connections,
            report.messages_per_second.numerator == old(self).total_messages - old(
                self,
            ).last_message_count,
            report.messages_per_second.denominator == elapsed,
    {
        self.messages_per_second =
        Ratio { numerator: self.total_messages - self.last_message_count, denominator: elapsed };
        self.last_stats_time = Some(now);
        self.last_message_count = self.total_messages;
        self.set_pending(pending);
        StatsReport {
            connections,
            total_messages: self.total_messages,
            messages_per_second: self.messages_per_second,
            dropped_messages: self.dropped_messages,
            slow_connections: self.slow_connections,
            pending: self.total_pending_messages,
            max_pending: self.max_pending_messages,
        }
    }
}

/// Brings the counters up to date for a report on channels that have the given room left, and makes
/// it.
pub fn report_on(
    stats: &mut ServerStats,
    now: u64,
    elapsed: u64,
    connections: usize,
    rooms: &Vec<Room>,
) -> (report: StatsReport)
    requires
        old(stats).last_message_count <= old(stats).total_messages,
        forall|i: int| 0 <= i < rooms@.len() ==> (#[trigger] rooms@[i]).free <= CHANNEL_BUFFER_SIZE,
        rooms@.len() * CHANNEL_BUFFER_SIZE <= usize::MAX,
    ensures
        pending_in(rooms@) <= rooms@.len() * CHANNEL_BUFFER_SIZE,
        *final(stats) == old(stats).after_report(now, elapsed, pending_in(rooms@) as usize),
        report == final(stats).reported(connections),
        report.pending == pending_in(rooms@),
{
    let pending = total_pending(rooms);
    stats.report(now, elapsed, connections, pending)
}

/// Reports on the server when a report is due. `elapsed_seconds` is how long the application has
/// run, `now` the time.
pub fn update_stats(
    server: &mut WebSocketServer,
    config: &ServerConfig,
    elapsed_seconds: u64,
    now: u64,
) -> (report: Option<StatsReport>)
    requires
        old(server).wf(),
        due(old(server).stats, config.stats, elapsed_seconds, now) is Report ==> {
            &&& old(server).stats.last_message_count <= old(server).stats.total_messages
            &&& old(server).connections@.len() * CHANNEL_BUFFER_SIZE <= usize::MAX
        },
    ensures
        final(server).wf(),
        final(server).connections.same_channels(old(server).connections),
        final(server).listener == old(server).listener,
        final(server).last_broadcast_id == old(server).last_broadcast_id,
        old(server).counts_connections() ==> final(server).counts_connections(),
        match due(old(server).stats, config.stats, elapsed_seconds, now) {
            StatsDue::Nothing => report is None && final(server).stats == old(server).stats,
            StatsDue::Start => report is None && final(server).stats == (ServerStats {
                start_time: Some(now),
                last_stats_time: Some(now),
                ..old(server).stats
            }),
            StatsDue::Report(elapsed) => {
                &&& exists|rooms: Seq<Room>| #[trigger]
                    measures(rooms, old(server).connections@) && pending_in(rooms) <= old(
                        server,
                    ).connections@.len() * CHANNEL_BUFFER_SIZE && final(server).stats == old(
                        server,
                    ).stats.after_report(now, elapsed, pending_in(rooms) as usize)
                &&& report == Some(
                    final(server).stats.reported(old(server).connections@.len() as usize),
                )
            },
        },
{
    match stats_due(&server.stats, config, elapsed_seconds, now) {
        StatsDue::Nothing => None,
        StatsDue::Start => {
            server.stats.start_time = Some(now);
            server.stats.last_stats_time = Some(now);
            None
        },
        StatsDue::Report(elapsed) => {
            let connections = server.connections.len();
            let rooms = server.connections.rooms();
            assert(measures(rooms@, old(server).connections@));
            Some(report_on(&mut server.stats, now, elapsed, connections, &rooms))
        },
    }
}

} // verus!
