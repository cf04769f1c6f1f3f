//! The three benchmarks: what each connection sends when, and what is reported in the end.
use crate::client::stats::{BenchmarkStats, ShardedBenchmarkStats, ShardedBenchmarkStatsView};
use crate::message::{BenchmarkMessage, BenchmarkMessageView, Incoming, Ratio};
use crate::text::{repeat, run_of};
use vstd::prelude::*;

verus! {

/// How many broadcasts a second a broadcasting server sends.
pub const BROADCAST_HZ: u64 = 20;

/// How many seconds a connection of the frequency benchmark may take to open.
pub const CONNECT_WAIT_SECONDS: u64 = 30;

/// How many seconds a connection of the throughput benchmark waits for the last replies.
pub const THROUGHPUT_SETTLE_SECONDS: u64 = 1;

/// How many milliseconds a connection of the frequency benchmark waits for the last replies.
pub const FREQUENCY_SETTLE_MILLIS: u64 = 500;

/// How many seconds lie between two progress reports of the frequency benchmark.
pub const PROGRESS_INTERVAL_SECONDS: u64 = 5;

/// How many seconds lie between two pings on a connection that is only held open.
pub const PING_INTERVAL_SECONDS: u64 = 1;

/// The payload of every message: `size` times the letter x.
pub fn payload_of(size: usize) -> (payload: String)
    requires
        size <= isize::MAX,
    ensures
        payload@ == run_of('x', size as nat),
        payload@.len() == size,
        forall|i: int| 0 <= i < size ==> #[trigger] payload@[i] == 'x',
{
    proof {
        reveal_strlit("x");
    }
    repeat("x", size)
}

/// Sends a given number of messages over one connection, one after the other.
pub struct ThroughputSender {
    /// The number of the next message, counted from nought.
    pub next_id: u64,
    pub num_messages: u64,
    /// The pause after each message, in milliseconds.
    pub delay_ms: u64,
}

impl ThroughputSender {
    /// Whether there are messages left to send.
    pub open spec fn goes_on(self) -> bool {
        self.next_id < self.num_messages
    }

    /// The sender after its next message.
    pub open spec fn advanced(self) -> ThroughputSender {
        ThroughputSender { next_id: (self.next_id + 1) as u64, ..self }
    }

    /// Nothing has been sent yet.
    pub fn new(num_messages: u64, delay_ms: u64) -> (sender: ThroughputSender)
        ensures
            sender == (ThroughputSender { next_id: 0, num_messages, delay_ms }),
    {
        ThroughputSender { next_id: 0, num_messages, delay_ms }
    }

    /// The next message, as long as there are messages to send.
    pub fn next_message(&mut self, timestamp: u64, payload: &str) -> (message: Option<
        BenchmarkMessage,
    >)
        ensures
            message is Some <==> old(self).goes_on(),
            message matches Some(message) ==> message@ == (BenchmarkMessageView {
                id: old(self).next_id,
                timestamp,
                payload: payload@,
            }),
            *final(self) == if old(self).goes_on() {
                old(self).advanced()
            } else {
                *old(self)
            },
    {
        if self.next_id < self.num_messages {
            let id = self.next_id;
            self.next_id = id + 1;
            Some(BenchmarkMessage { id, timestamp, payload: payload.to_string() })
        } else {
            None
        }
    }

    /// Counts the message if it was sent. Says whether to go on: a message that cannot be sent ends
    /// the connection.
    pub fn record_send(&self, sent: bool, stats: &mut BenchmarkStats) -> (go_on: bool)
        requires
            sent ==> old(stats).messages_sent < u64::MAX,
        ensures
            go_on == sent,
            *final(stats) == if sent {
                BenchmarkStats {
                    messages_sent: (old(stats).messages_sent + 1) as u64,
                    ..*old(stats)
                }
            } else {
                *old(stats)
            },
    {
        if sent {
            stats.record_sent();
        }
        sent
    }

    /// How many milliseconds to pause after a message, if at all.
    pub fn pause_ms(&self) -> (pause: Option<u64>)
        ensures
            pause == if self.delay_ms > 0 {
                Some(self.delay_ms)
            } else {
                None
            },
    {
        if self.delay_ms > 0 {
            Some(self.delay_ms)
        } else {
            None
        }
    }
}

/// What the throughput benchmark reports.
#[derive(Debug, Clone, Copy)]
pub struct ThroughputReport {
    pub messages_sent: u64,
    pub messages_received: u64,
    /// Messages without a reply over messages sent.
    pub loss: Ratio,
    /// Messages received over nanoseconds, `None` for nought.
    pub throughput: Option<Ratio>,
    /// Milliseconds over messages received, `None` for nought.
    pub average_latency: Option<Ratio>,
    pub min_latency_ms: u64,
    pub max_latency_ms: u64,
}

/// Reports on the throughput benchmark. More messages received than sent cannot be reported.
pub fn throughput_report(stats: &BenchmarkStats) -> (report: ThroughputReport)
    requires
        stats.messages_received <= stats.messages_sent,
    ensures
        report.messages_sent == stats.messages_sent,
        report.messages_received == stats.messages_received,
        report.loss == (Ratio {
            numerator: (stats.messages_sent - stats.messages_received) as u64,
            denominator: stats.messages_sent,
        }),
        report.throughput == stats.throughput(),
        report.average_latency == stats.average_latency(),
        report.min_latency_ms == stats.min_latency_ms,
        report.max_latency_ms == stats.max_latency_ms,
{
    ThroughputReport {
        messages_sent: stats.messages_sent,
        messages_received: stats.messages_received,
        loss: Ratio {
            numerator: stats.messages_sent - stats.messages_received,
            denominator: stats.messages_sent,
        },
        throughput: stats.throughput_mps(),
        average_latency: stats.average_latency_ms(),
        min_latency_ms: stats.min_latency_ms,
        max_latency_ms: stats.max_latency_ms,
    }
}

/// Tries more and more connections at a time.
#[derive(Debug, Clone, Copy, PartialEq, Eq, Structural)]
pub struct ConnectionRamp {
    /// How many connections the next round opens.
    pub current: usize,
    pub max_connections: usize,
    pub step: usize,
}

impl ConnectionRamp {
    /// The ramp before the first round.
    pub open spec fn at_start(max_connections: usize, step: usize) -> ConnectionRamp {
        ConnectionRamp { current: step, max_connections, step }
    }

    /// Whether there is another round.
    pub open spec fn goes_on(self) -> bool {
        self.current <= self.max_connections
    }

    /// The ramp after the next round.
    pub open spec fn advanced(self) -> ConnectionRamp {
        ConnectionRamp { current: (self.current + self.step) as usize, ..self }
    }

    /// The first round opens `step` connections.
    pub fn new(max_connections: usize, step: usize) -> (ramp: ConnectionRamp)
        ensures
            ramp == ConnectionRamp::at_start(max_connections, step),
    {
        ConnectionRamp { current: step, max_connections, step }
    }

    /// How many connections the next round opens, as long as that is within the maximum.
    pub fn next_round(&mut self) -> (size: Option<usize>)
        requires
            old(self).goes_on() ==> old(self).current + old(self).step <= usize::MAX,
        ensures
            size == if old(self).goes_on() {
                Some(old(self).current)
            } else {
                None
            },
            *final(self) == if old(self).goes_on() {
                old(self).advanced()
            } else {
                *old(self)
            },
    {
        if self.current <= self.max_connections {
            let size = self.current;
            self.current = size + self.step;
            Some(size)
        } else {
            None
        }
    }
}

/// How many attempts succeeded. An attempt that came to no end is `None`.
pub open spec fn successes(attempts: Seq<Option<bool>>) -> nat
    decreases attempts.len(),
{
    if attempts.len() == 0 {
        0
    } else {
        successes(attempts.drop_last()) + if attempts.last() == Some(true) {
            1nat
        } else {
            0
        }
    }
}

/// What a round of the connection benchmark reports: successful attempts over attempts.
pub fn round_report(attempts: &Vec<Option<bool>>) -> (rate: Ratio)
    ensures
        rate.numerator == successes(attempts@),
        rate.denominator == attempts@.len(),
        rate.numerator <= rate.denominator,
{
    let mut successful: u64 = 0;
    let mut i: usize = 0;
    assert(attempts@.take(0) =~= Seq::empty());
    while i < attempts.len()
        invariant
            i <= attempts@.len(),
            successful == successes(attempts@.take(i as int)),
            successful <= i,
        decreases attempts@.len() - i,
    {
        assert(attempts@.take(i + 1).drop_last() =~= attempts@.take(i as int));
        if let Some(success) = attempts[i] {
            if success {
                successful = successful + 1;
            }
        }
        i = i + 1;
    }
    assert(attempts@.take(i as int) =~= attempts@);
    Ratio { numerator: successful, denominator: attempts.len() as u64 }
}

/// Whether a connection that is only held open is read on.
pub fn holds_on<M>(incoming: &Incoming<M>) -> (go_on: bool)
    ensures
        go_on == !incoming.ends(),
{
    match incoming {
        Incoming::Close => false,
        Incoming::Failed => false,
        _ => true,
    }
}

/// The nanoseconds between two messages at the given frequency. More than a thousand messages a
/// second are not sent.
pub fn interval_nanos(frequency: u64) -> (nanos: u64)
    requires
        0 < frequency <= 1000,
    ensures
        nanos == 1_000_000_000u64 / frequency,
        nanos > 0,
{
    proof {
        vstd::arithmetic::div_mod::lemma_div_non_zero(1_000_000_000, frequency as int);
    }
    1_000_000_000 / frequency
}

/// Sends messages over one connection at a fixed frequency until the time is up.
pub struct FrequencySender {
    /// How many messages have been sent, which is the number of the next.
    pub message_id: u64,
    /// When to stop, in nanoseconds.
    pub end_time: u128,
}

impl FrequencySender {
    /// Nothing has been sent yet, and there are `duration_seconds` to go from the time `now`.
    pub fn new(now: u64, duration_seconds: u64) -> (sender: FrequencySender)
        ensures
            sender.message_id == 0,
            sender.end_time == now + duration_seconds * 1_000_000_000,
    {
        FrequencySender {
            message_id: 0,
            end_time: now as u128 + duration_seconds as u128 * 1_000_000_000,
        }
    }

    /// Whether there is time left for another message.
    pub fn runs_at(&self, now: u64) -> (running: bool)
        ensures
            running == (now < self.end_time),
    {
        (now as u128) < self.end_time
    }

    /// The next message.
    pub fn message(&self, timestamp: u64, payload: &str) -> (message: BenchmarkMessage)
        ensures
            message@ == (BenchmarkMessageView {
                id: self.message_id,
                timestamp,
                payload: payload@,
            }),
    {
        BenchmarkMessage { id: self.message_id, timestamp, payload: payload.to_string() }
    }

    /// Counts the message if it was sent. Says whether to go on.
    pub fn record_send(&mut self, sent: bool, stats: &mut ShardedBenchmarkStats) -> (go_on: bool)
        requires
            sent ==> old(self).message_id < u64::MAX,
        ensures
            go_on == sent,
            final(self).end_time == old(self).end_time,
            final(self).message_id == if sent {
                old(self).message_id + 1
            } else {
                old(self).message_id as int
            },
            final(stats)@ == if sent {
                ShardedBenchmarkStatsView {
                    messages_sent: old(stats)@.messages_sent.wrapping_add(1),
                    ..old(stats)@
                }
            } else {
                old(stats)@
            },
    {
        if sent {
            stats.increment_sent();
            self.message_id = self.message_id + 1;
        }
        sent
    }
}

/// The echoes that are missing over the echoes that are expected; `None`, for nought, if there are
/// at least as many messages as expected echoes.
pub open spec fn loss_of(expected_echo: u64, received: u64) -> Option<Ratio> {
    if received < expected_echo {
        Some(
            Ratio {
                numerator: (expected_echo - received) as u64,
                denominator: expected_echo,
            },
        )
    } else {
        None
    }
}

/// Compares the messages received with the echoes expected.
pub fn echo_loss(expected_echo: u64, received: u64) -> (loss: Option<Ratio>)
    ensures
        loss == loss_of(expected_echo, received),
{
    if received >= expected_echo {
        None
    } else {
        Some(Ratio { numerator: expected_echo - received, denominator: expected_echo })
    }
}

/// The settings of the frequency benchmark.
#[derive(Debug, Clone, Copy)]
pub struct FrequencyPlan {
    /// Messages a second.
    pub frequency: u64,
    pub duration_seconds: u64,
    pub connections: usize,
}

/// What the frequency benchmark reports while it runs.
#[derive(Debug, Clone, Copy)]
pub struct FrequencyProgress {
    pub elapsed_seconds: u64,
    pub messages_sent: u64,
    pub messages_received: u64,
    /// Missing echoes over expected echoes, `None` for nought.
    pub loss: Option<Ratio>,
    /// Milliseconds over messages received, `None` for nought.
    pub average_latency: Option<Ratio>,
}

/// What the frequency benchmark reports in the end.
#[derive(Debug, Clone, Copy)]
pub struct FrequencyReport {
    pub expected_echo: u64,
    pub expected_broadcasts: u64,
    pub expected_total: u64,
    pub messages_sent: u64,
    pub messages_received: u64,
    /// Missing echoes over expected echoes, `None` for nought.
    pub loss: Option<Ratio>,
    /// Messages received over nanoseconds, `None` for nought.
    pub throughput: Option<Ratio>,
    /// Milliseconds over messages received, `None` for nought.
    pub average_latency: Option<Ratio>,
    pub min_latency_ms: u64,
    pub max_latency_ms: u64,
}

impl FrequencyPlan {
    /// The echoes that all connections together should have got after the given seconds.
    pub open spec fn echoes_after(self, seconds: u64) -> int {
        self.connections * self.frequency * seconds
    }

    /// The counts that the benchmark expects after the given seconds are numbers that it can hold.
    pub open spec fn countable(self, seconds: u64) -> bool {
        &&& self.connections * self.frequency <= u64::MAX
        &&& self.echoes_after(seconds) + BROADCAST_HZ * seconds <= u64::MAX
    }

    /// How many messages one connection should send.
    pub fn total_messages(&self) -> (total: u64)
        requires
            self.frequency * self.duration_seconds <= u64::MAX,
        ensures
            total == self.frequency * self.duration_seconds,
    {
        self.frequency * self.duration_seconds
    }

    /// Reports on the running benchmark `elapsed` seconds after it began; `None` once the time is
    /// up.
    pub fn progress(&self, elapsed: u64, stats: &BenchmarkStats) -> (progress: Option<
        FrequencyProgress,
    >)
        requires
            elapsed < self.duration_seconds ==> self.countable(elapsed),
        ensures
            progress is Some <==> elapsed < self.duration_seconds,
            progress matches Some(progress) ==> progress == (FrequencyProgress {
                elapsed_seconds: elapsed,
                messages_sent: stats.messages_sent,
                messages_received: stats.messages_received,
                loss: loss_of(self.echoes_after(elapsed) as u64, stats.messages_received),
                average_latency: stats.average_latency(),
            }),
    {
        if elapsed >= self.duration_seconds {
            return None;
        }
        assert(self.echoes_after(elapsed) >= 0) by (nonlinear_arith)
            requires
                self.echoes_after(elapsed) == self.connections * self.frequency * elapsed,
        ;
        let expected_echo = self.connections as u64 * self.frequency * elapsed;
        Some(
            FrequencyProgress {
                elapsed_seconds: elapsed,
                messages_sent: stats.messages_sent,
                messages_received: stats.messages_received,
                loss: echo_loss(expected_echo, stats.messages_received),
                average_latency: stats.average_latency_ms(),
            },
        )
    }

    /// Reports on the benchmark after it has taken `taken` whole seconds.
    pub fn report(&self, taken: u64, stats: &BenchmarkStats) -> (report: FrequencyReport)
        requires
            self.frequency * self.duration_seconds <= u64::MAX,
            self.connections * (self.frequency * self.duration_seconds) + BROADCAST_HZ * taken
                <= u64::MAX,
        ensures
            report == (FrequencyReport {
                expected_echo: (self.connections * (self.frequency
                    * self.duration_seconds)) as u64,
                expected_broadcasts: (BROADCAST_HZ * taken) as u64,
                expected_total: (self.connections * (self.frequency * self.duration_seconds)
                    + BROADCAST_HZ * taken) as u64,
                messages_sent: stats.messages_sent,
                messages_received: stats.messages_received,
                loss: loss_of(
                    (self.connections * (self.frequency * self.duration_seconds)) as u64,
                    stats.messages_received,
                ),
                throughput: stats.throughput(),
                average_latency: stats.average_latency(),
                min_latency_ms: stats.min_latency_ms,
                max_latency_ms: stats.max_latency_ms,
            }),
    {
        let total_messages = self.total_messages();
        assert(self.connections * (self.frequency * self.duration_seconds) >= 0)
            by (nonlinear_arith);
        let expected_echo = self.connections as u64 * total_messages;
        let expected_broadcasts = BROADCAST_HZ * taken;
        FrequencyReport {
            expected_echo,
            expected_broadcasts,
            expected_total: expected_echo + expected_broadcasts,
            messages_sent: stats.messages_sent,
            messages_received: stats.messages_received,
            loss: echo_loss(expected_echo, stats.messages_received),
            throughput: stats.throughput_mps(),
            average_latency: stats.average_latency_ms(),
            min_latency_ms: stats.min_latency_ms,
            max_latency_ms: stats.max_latency_ms,
        }
    }
}

} // verus!
