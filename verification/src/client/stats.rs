//! What a benchmark counts.
use crate::message::{BenchmarkMessage, Incoming, Ratio};
use vstd::prelude::*;

verus! {

/// The least latency once `latency` has come in; nought stands for none yet.
pub open spec fn lower(least: u64, latency: u64) -> u64 {
    if least == 0 || latency < least {
        latency
    } else {
        least
    }
}

/// The greatest latency once `latency` has come in.
pub open spec fn upper(greatest: u64, latency: u64) -> u64 {
    if latency > greatest {
        latency
    } else {
        greatest
    }
}

/// What a benchmark has counted. Times are nanoseconds on a clock that never goes back.
#[derive(Debug, Clone, Copy)]
pub struct BenchmarkStats {
    pub messages_sent: u64,
    pub messages_received: u64,
    pub total_latency_ms: u64,
    pub min_latency_ms: u64,
    pub max_latency_ms: u64,
    pub start_time: Option<u64>,
    pub end_time: Option<u64>,
}

impl BenchmarkStats {
    /// Nothing has been counted yet.
    pub open spec fn zero() -> BenchmarkStats {
        BenchmarkStats {
            messages_sent: 0,
            messages_received: 0,
            total_latency_ms: 0,
            min_latency_ms: 0,
            max_latency_ms: 0,
            start_time: None,
            end_time: None,
        }
    }

    /// The counters with one more latency.
    pub open spec fn after_latency(self, latency_ms: u64) -> BenchmarkStats {
        BenchmarkStats {
            total_latency_ms: (self.total_latency_ms + latency_ms) as u64,
            min_latency_ms: lower(self.min_latency_ms, latency_ms),
            max_latency_ms: upper(self.max_latency_ms, latency_ms),
            ..self
        }
    }

    /// The counters with one more message received, after the given latency.
    pub open spec fn after_reply(self, latency_ms: u64) -> BenchmarkStats {
        BenchmarkStats {
            messages_received: (self.messages_received + 1) as u64,
            ..self.after_latency(latency_ms)
        }
    }

    /// Counts a latency.
    pub fn add_latency(&mut self, latency_ms: u64)
        requires
            old(self).total_latency_ms + latency_ms <= u64::MAX,
        ensures
            *final(self) == old(self).after_latency(latency_ms),
    {
        self.total_latency_ms = self.total_latency_ms + latency_ms;
        if self.min_latency_ms == 0 || latency_ms < self.min_latency_ms {
            self.min_latency_ms = latency_ms;
        }
        if latency_ms > self.max_latency_ms {
            self.max_latency_ms = latency_ms;
        }
    }

    /// Counts a message that has been sent.
    pub fn record_sent(&mut self)
        requires
            old(self).messages_sent < u64::MAX,
        ensures
            *final(self) == (BenchmarkStats {
                messages_sent: (old(self).messages_sent + 1) as u64,
                ..*old(self)
            }),
    {
        self.messages_sent = self.messages_sent + 1;
    }

    /// Counts what came in at the time `now`, in milliseconds. Says whether to read on.
    pub fn record_incoming(&mut self, incoming: &Incoming<BenchmarkMessage>, now: u64) -> (go_on:
        bool)
        requires
            *incoming matches Incoming::Message(message) ==> {
                &&& old(self).messages_received < u64::MAX
                &&& old(self).total_latency_ms + now.saturating_sub(message.timestamp) <= u64::MAX
            },
        ensures
            go_on == !incoming.ends(),
            *final(self) == match *incoming {
                Incoming::Message(message) => old(self).after_reply(
                    now.saturating_sub(message.timestamp),
                ),
                _ => *old(self),
            },
    {
        match incoming {
            Incoming::Message(message) => {
                let latency = now.saturating_sub(message.timestamp);
                self.messages_received = self.messages_received + 1;
                self.add_latency(latency);
                true
            },
            Incoming::Close => false,
            Incoming::Failed => false,
            _ => true,
        }
    }

    /// The sum of all latencies over the number of messages; `None`, for nought, if there are no
    /// messages.
    pub open spec fn average_latency(self) -> Option<Ratio> {
        if self.messages_received > 0 {
            Some(
                Ratio {
                    numerator: self.total_latency_ms,
                    denominator: self.messages_received,
                },
            )
        } else {
            None
        }
    }

    /// The messages received over the nanoseconds that the benchmark took; `None`, for nought, if
    /// it is not over or took no time.
    pub open spec fn throughput(self) -> Option<Ratio> {
        match (self.start_time, self.end_time) {
            (Some(start), Some(end)) if start < end => Some(
                Ratio { numerator: self.messages_received, denominator: (end - start) as u64 },
            ),
            _ => None,
        }
    }

    /// The mean latency in milliseconds, as a quotient.
    pub fn average_latency_ms(&self) -> (average: Option<Ratio>)
        ensures
            average == self.average_latency(),
            average is Some <==> self.messages_received > 0,
            average matches Some(mean) ==> mean.numerator == self.total_latency_ms
                && mean.denominator == self.messages_received,
    {
        if self.messages_received == 0 {
            None
        } else {
            Some(
                Ratio {
                    numerator: self.total_latency_ms,
                    denominator: self.messages_received,
                },
            )
        }
    }

    /// The messages received per nanosecond, as a quotient.
    pub fn throughput_mps(&self) -> (throughput: Option<Ratio>)
        ensures
            throughput == self.throughput(),
            throughput matches Some(rate) ==> {
                &&& rate.numerator == self.messages_received
                &&& rate.denominator > 0
                &&& self.start_time->0 + rate.denominator == self.end_time->0
            },
    {
        if let (Some(start), Some(end)) = (self.start_time, self.end_time) {
            let duration = end.saturating_sub(start);
            if duration > 0 {
                return Some(
                    Ratio { numerator: self.messages_received, denominator: duration },
                );
            }
        }
        None
    }
}

impl Default for BenchmarkStats {
    fn default() -> (stats: BenchmarkStats)
        ensures
            stats == BenchmarkStats::zero(),
    {
        BenchmarkStats {
            messages_sent: 0,
            messages_received: 0,
            total_latency_ms: 0,
            min_latency_ms: 0,
            max_latency_ms: 0,
            start_time: None,
            end_time: None,
        }
    }
}

/// The least and the greatest latency of one share of the connections.
#[derive(Debug, Clone, Copy)]
pub struct BenchmarkStatsShard {
    pub min_latency_ms: u64,
    pub max_latency_ms: u64,
}

impl BenchmarkStatsShard {
    /// The shard with one more latency.
    pub open spec fn after_latency(self, latency_ms: u64) -> BenchmarkStatsShard {
        BenchmarkStatsShard {
            min_latency_ms: lower(self.min_latency_ms, latency_ms),
            max_latency_ms: upper(self.max_latency_ms, latency_ms),
        }
    }
}

impl Default for BenchmarkStatsShard {
    fn default() -> (shard: BenchmarkStatsShard)
        ensures
            shard.min_latency_ms == 0,
            shard.max_latency_ms == 0,
    {
        BenchmarkStatsShard { min_latency_ms: 0, max_latency_ms: 0 }
    }
}

/// When the benchmark began and ended.
#[derive(Debug, Clone, Copy)]
pub struct BenchmarkStatsGlobal {
    pub start_time: Option<u64>,
    pub end_time: Option<u64>,
}

impl Default for BenchmarkStatsGlobal {
    fn default() -> (global: BenchmarkStatsGlobal)
        ensures
            global.start_time is None,
            global.end_time is None,
    {
        BenchmarkStatsGlobal { start_time: None, end_time: None }
    }
}

/// What a benchmark has counted, with the extremes kept apart in four shares.
#[derive(Debug)]
pub struct ShardedBenchmarkStats {
    pub messages_sent: u64,
    pub messages_received: u64,
    pub total_latency_ms: u64,
    pub shards: [BenchmarkStatsShard; 4],
    pub global: BenchmarkStatsGlobal,
}

/// The contents of a `ShardedBenchmarkStats`.
pub struct ShardedBenchmarkStatsView {
    pub messages_sent: u64,
    pub messages_received: u64,
    pub total_latency_ms: u64,
    pub shards: Seq<BenchmarkStatsShard>,
    pub global: BenchmarkStatsGlobal,
}

impl View for ShardedBenchmarkStats {
    type V = ShardedBenchmarkStatsView;

    open spec fn view(&self) -> ShardedBenchmarkStatsView {
        ShardedBenchmarkStatsView {
            messages_sent: self.messages_sent,
            messages_received: self.messages_received,
            total_latency_ms: self.total_latency_ms,
            shards: self.shards@,
            global: self.global,
        }
    }
}

/// The least latency that the first `count` shards have seen, or the greatest number if none has
/// seen a latency other than nought.
pub open spec fn lowest(shards: Seq<BenchmarkStatsShard>, count: nat) -> u64
    decreases count,
{
    if count == 0 {
        u64::MAX
    } else {
        let earlier = lowest(shards, (count - 1) as nat);
        let least = shards[count - 1].min_latency_ms;
        if 0 < least < earlier {
            least
        } else {
            earlier
        }
    }
}

/// The greatest latency that the first `count` shards have seen.
pub open spec fn highest(shards: Seq<BenchmarkStatsShard>, count: nat) -> u64
    decreases count,
{
    if count == 0 {
        0
    } else {
        upper(highest(shards, (count - 1) as nat), shards[count - 1].max_latency_ms)
    }
}

impl ShardedBenchmarkStatsView {
    /// Nothing has been counted yet.
    pub open spec fn zero() -> ShardedBenchmarkStatsView {
        ShardedBenchmarkStatsView {
            messages_sent: 0,
            messages_received: 0,
            total_latency_ms: 0,
            shards: Seq::new(
                4,
                |i: int| BenchmarkStatsShard { min_latency_ms: 0, max_latency_ms: 0 },
            ),
            global: BenchmarkStatsGlobal { start_time: None, end_time: None },
        }
    }

    /// The counters with one more latency, in the share that `shard_id` falls to.
    pub open spec fn after_latency(
        self,
        latency_ms: u64,
        shard_id: usize,
    ) -> ShardedBenchmarkStatsView {
        let i = shard_id as int % 4;
        ShardedBenchmarkStatsView {
            total_latency_ms: self.total_latency_ms.wrapping_add(latency_ms),
            shards: self.shards.update(i, self.shards[i].after_latency(latency_ms)),
            ..self
        }
    }

    /// The counters with one more message received, on the connection `conn_id` and after the given
    /// latency.
    pub open spec fn after_reply(
        self,
        latency_ms: u64,
        conn_id: usize,
    ) -> ShardedBenchmarkStatsView {
        ShardedBenchmarkStatsView {
            messages_received: self.messages_received.wrapping_add(1),
            ..self.after_latency(latency_ms, conn_id)
        }
    }

    /// The counters in one piece.
    pub open spec fn merged(self) -> BenchmarkStats {
        let least = lowest(self.shards, 4);
        BenchmarkStats {
            messages_sent: self.messages_sent,
            messages_received: self.messages_received,
            total_latency_ms: self.total_latency_ms,
            min_latency_ms: if least == u64::MAX {
                0
            } else {
                least
            },
            max_latency_ms: highest(self.shards, 4),
            start_time: self.global.start_time,
            end_time: self.global.end_time,
        }
    }
}

impl ShardedBenchmarkStats {
    /// Nothing has been counted yet.
    pub fn new() -> (stats: ShardedBenchmarkStats)
        ensures
            stats@ == ShardedBenchmarkStatsView::zero(),
    {
        let stats = ShardedBenchmarkStats {
            messages_sent: 0,
            messages_received: 0,
            total_latency_ms: 0,
            shards: [
                BenchmarkStatsShard::default(),
                BenchmarkStatsShard::default(),
                BenchmarkStatsShard::default(),
                BenchmarkStatsShard::default(),
            ],
            global: BenchmarkStatsGlobal::default(),
        };
        assert(stats@.shards =~= ShardedBenchmarkStatsView::zero().shards);
        stats
    }

    /// Counts a message that has been sent.
    pub fn increment_sent(&mut self)
        ensures
            final(self)@ == (ShardedBenchmarkStatsView {
                messages_sent: old(self)@.messages_sent.wrapping_add(1),
                ..old(self)@
            }),
    {
        self.messages_sent = self.messages_sent.wrapping_add(1);
    }

    /// Counts a message that has been received.
    pub fn increment_received(&mut self)
        ensures
            final(self)@ == (ShardedBenchmarkStatsView {
                messages_received: old(self)@.messages_received.wrapping_add(1),
                ..old(self)@
            }),
    {
        self.messages_received = self.messages_received.wrapping_add(1);
    }

    /// Counts a latency in the share that `shard_id` falls to.
    pub fn add_latency(&mut self, latency_ms: u64, shard_id: usize)
        ensures
            final(self)@ == old(self)@.after_latency(latency_ms, shard_id),
    {
        let ghost before = self@;
        self.total_latency_ms = self.total_latency_ms.wrapping_add(latency_ms);
        let i = shard_id % 4;
        let mut shard = self.shards[i];
        if shard.min_latency_ms == 0 || latency_ms < shard.min_latency_ms {
            shard.min_latency_ms = latency_ms;
        }
        if latency_ms > shard.max_latency_ms {
            shard.max_latency_ms = latency_ms;
        }
        self.shards[i] = shard;
        assert(self@.shards =~= before.after_latency(latency_ms, shard_id).shards);
    }

    /// Notes when the benchmark begins.
    pub fn set_start_time(&mut self, time: u64)
        ensures
            final(self)@ == (ShardedBenchmarkStatsView {
                global: BenchmarkStatsGlobal { start_time: Some(time), ..old(self)@.global },
                ..old(self)@
            }),
    {
        self.global.start_time = Some(time);
    }

    /// Notes when the benchmark ends.
    pub fn set_end_time(&mut self, time: u64)
        ensures
            final(self)@ == (ShardedBenchmarkStatsView {
                global: BenchmarkStatsGlobal { end_time: Some(time), ..old(self)@.global },
                ..old(self)@
            }),
    {
        self.global.end_time = Some(time);
    }

    /// Brings the shares together.
    pub fn to_benchmark_stats(&self) -> (stats: BenchmarkStats)
        ensures
            stats == self@.merged(),
    {
        let mut min_latency_ms: u64 = u64::MAX;
        let mut max_latency_ms: u64 = 0;
        let mut i: usize = 0;
        while i < 4
            invariant
                i <= 4,
                min_latency_ms == lowest(self.shards@, i as nat),
                max_latency_ms == highest(self.shards@, i as nat),
            decreases 4 - i,
        {
            let shard = self.shards[i];
            if shard.min_latency_ms > 0 && shard.min_latency_ms < min_latency_ms {
                min_latency_ms = shard.min_latency_ms;
            }
            if shard.max_latency_ms > max_latency_ms {
                max_latency_ms = shard.max_latency_ms;
            }
            i = i + 1;
        }
        if min_latency_ms == u64::MAX {
            min_latency_ms = 0;
        }
        BenchmarkStats {
            messages_sent: self.messages_sent,
            messages_received: self.messages_received,
            total_latency_ms: self.total_latency_ms,
            min_latency_ms,
            max_latency_ms,
            start_time: self.global.start_time,
            end_time: self.global.end_time,
        }
    }

    /// Counts what came in on the connection `conn_id` at the time `now`, in milliseconds. Says
    /// whether to read on.
    pub fn record_incoming(
        &mut self,
        incoming: &Incoming<BenchmarkMessage>,
        now: u64,
        conn_id: usize,
    ) -> (go_on: bool)
        ensures
            go_on == !incoming.ends(),
            final(self)@ == match *incoming {
                Incoming::Message(message) => old(self)@.after_reply(
                    now.saturating_sub(message.timestamp),
                    conn_id,
                ),
                _ => old(self)@,
            },
    {
        match incoming {
            Incoming::Message(message) => {
                let latency = now.saturating_sub(message.timestamp);
                self.increment_received();
                self.add_latency(latency, conn_id);
                true
            },
            Incoming::Close => false,
            Incoming::Failed => false,
            _ => true,
        }
    }
}

} // verus!
