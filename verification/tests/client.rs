use rust_ws_benchmark::client::runs::{
    echo_loss, holds_on, interval_nanos, payload_of, round_report, throughput_report, ConnectionRamp,
    FrequencyPlan, FrequencySender, ThroughputSender,
};
use rust_ws_benchmark::client::stats::{BenchmarkStats, ShardedBenchmarkStats};
use rust_ws_benchmark::message::{BenchmarkMessage, Incoming, Ratio};

const SECOND: u64 = 1_000_000_000;

fn reply(timestamp: u64) -> Incoming<BenchmarkMessage> {
    Incoming::Message(BenchmarkMessage { id: 0, timestamp, payload: String::new() })
}

#[test]
fn latencies_are_kept() {
    let mut stats = BenchmarkStats::default();
    for latency in [30, 10, 20] {
        stats.add_latency(latency);
    }
    assert_eq!(stats.total_latency_ms, 60);
    assert_eq!((stats.min_latency_ms, stats.max_latency_ms), (10, 30));
}

#[test]
fn latency_of_nought_starts_over() {
    let mut stats = BenchmarkStats::default();
    for latency in [10, 0, 20] {
        stats.add_latency(latency);
    }
    assert_eq!((stats.min_latency_ms, stats.max_latency_ms), (20, 20));
}

#[test]
fn replies_are_counted() {
    let mut stats = BenchmarkStats::default();
    stats.record_sent();
    assert!(stats.record_incoming(&reply(100), 130));
    assert!(stats.record_incoming(&reply(200), 130));
    assert!(stats.record_incoming(&Incoming::Unreadable, 130));
    assert!(stats.record_incoming(&Incoming::Binary(vec![]), 130));
    assert!(stats.record_incoming(&Incoming::Other, 130));
    assert!(!stats.record_incoming(&Incoming::Close, 130));
    assert!(!stats.record_incoming(&Incoming::Failed, 130));
    assert_eq!((stats.messages_sent, stats.messages_received), (1, 2));
    assert_eq!(stats.total_latency_ms, 30);
    assert_eq!(stats.max_latency_ms, 30);
}

#[test]
fn averages_are_quotients() {
    let mut stats = BenchmarkStats::default();
    assert_eq!(stats.average_latency_ms(), None);
    assert_eq!(stats.throughput_mps(), None);
    stats.messages_received = 4;
    stats.total_latency_ms = 10;
    assert_eq!(stats.average_latency_ms(), Some(Ratio { numerator: 10, denominator: 4 }));
    stats.start_time = Some(5);
    assert_eq!(stats.throughput_mps(), None);
    stats.end_time = Some(5);
    assert_eq!(stats.throughput_mps(), None);
    stats.end_time = Some(4);
    assert_eq!(stats.throughput_mps(), None);
    stats.end_time = Some(15);
    assert_eq!(stats.throughput_mps(), Some(Ratio { numerator: 4, denominator: 10 }));
}

#[test]
fn shares_add_up_to_the_whole() {
    let mut sharded = ShardedBenchmarkStats::new();
    let mut whole = BenchmarkStats::default();
    for (latency, connection) in [(7, 0), (3, 5), (9, 2), (4, 3), (12, 1), (5, 8)] {
        sharded.add_latency(latency, connection);
        whole.add_latency(latency);
    }
    let merged = sharded.to_benchmark_stats();
    assert_eq!(merged.total_latency_ms, whole.total_latency_ms);
    assert_eq!(merged.min_latency_ms, whole.min_latency_ms);
    assert_eq!(merged.max_latency_ms, whole.max_latency_ms);
    assert_eq!((merged.min_latency_ms, merged.max_latency_ms), (3, 12));
}

#[test]
fn shares_without_latencies() {
    let merged = ShardedBenchmarkStats::new().to_benchmark_stats();
    assert_eq!((merged.min_latency_ms, merged.max_latency_ms), (0, 0));
    let mut sharded = ShardedBenchmarkStats::new();
    sharded.add_latency(u64::MAX, 0);
    let merged = sharded.to_benchmark_stats();
    assert_eq!((merged.min_latency_ms, merged.max_latency_ms), (0, u64::MAX));
    sharded.add_latency(2, 0);
    assert_eq!(sharded.to_benchmark_stats().total_latency_ms, 1);
}

#[test]
fn sharded_counters_count() {
    let mut sharded = ShardedBenchmarkStats::new();
    sharded.set_start_time(1);
    sharded.set_end_time(9);
    sharded.increment_sent();
    sharded.increment_sent();
    sharded.increment_received();
    assert!(sharded.record_incoming(&reply(10), 16, 6));
    assert!(sharded.record_incoming(&Incoming::Other, 16, 6));
    assert!(!sharded.record_incoming(&Incoming::Close, 16, 6));
    assert!(!sharded.record_incoming(&Incoming::Failed, 16, 6));
    let merged = sharded.to_benchmark_stats();
    assert_eq!((merged.messages_sent, merged.messages_received), (2, 2));
    assert_eq!((merged.start_time, merged.end_time), (Some(1), Some(9)));
    assert_eq!(sharded.shards[2].min_latency_ms, 6);
    assert_eq!(sharded.shards[1].max_latency_ms, 0);
}

#[test]
fn payload_is_a_run_of_x() {
    assert_eq!(payload_of(0), "");
    assert_eq!(payload_of(100), "x".repeat(100));
}

#[test]
fn throughput_messages_are_numbered() {
    let mut sender = ThroughputSender::new(3, 0);
    assert_eq!(sender.pause_ms(), None);
    for id in 0..3 {
        let message = sender.next_message(50 + id, "xx").unwrap();
        assert_eq!(message.id, id);
        assert_eq!(message.timestamp, 50 + id);
        assert_eq!(message.payload, "xx");
    }
    assert!(sender.next_message(0, "xx").is_none());
    assert_eq!(ThroughputSender::new(3, 7).pause_ms(), Some(7));
    assert!(ThroughputSender::new(0, 0).next_message(0, "").is_none());
}

#[test]
fn throughput_is_reported() {
    let mut stats = BenchmarkStats::default();
    stats.messages_sent = 10;
    stats.messages_received = 8;
    stats.total_latency_ms = 16;
    stats.min_latency_ms = 1;
    stats.max_latency_ms = 4;
    stats.start_time = Some(0);
    stats.end_time = Some(2 * SECOND);
    let report = throughput_report(&stats);
    assert_eq!((report.messages_sent, report.messages_received), (10, 8));
    assert_eq!(report.loss, Ratio { numerator: 2, denominator: 10 });
    assert_eq!(report.throughput, Some(Ratio { numerator: 8, denominator: 2 * SECOND }));
    assert_eq!(report.average_latency, Some(Ratio { numerator: 16, denominator: 8 }));
    assert_eq!((report.min_latency_ms, report.max_latency_ms), (1, 4));
}

#[test]
fn ramp_climbs_by_steps() {
    let mut ramp = ConnectionRamp::new(35, 10);
    let mut sizes = Vec::new();
    while let Some(size) = ramp.next_round() {
        sizes.push(size);
    }
    assert_eq!(sizes, vec![10, 20, 30]);
    assert_eq!(ConnectionRamp::new(9, 10).next_round(), None);
    let mut flat = ConnectionRamp::new(9, 0);
    assert_eq!(flat.next_round(), Some(0));
    assert_eq!(flat.next_round(), Some(0));
}

#[test]
fn successful_attempts_are_counted() {
    let rate = round_report(&vec![Some(true), Some(false), None, Some(true)]);
    assert_eq!(rate, Ratio { numerator: 2, denominator: 4 });
    assert_eq!(round_report(&vec![]), Ratio { numerator: 0, denominator: 0 });
}

#[test]
fn held_connection_ends() {
    assert!(holds_on(&Incoming::Message(())));
    assert!(holds_on::<()>(&Incoming::Other));
    assert!(!holds_on::<()>(&Incoming::Close));
    assert!(!holds_on::<()>(&Incoming::Failed));
}

#[test]
fn interval_divides_the_second() {
    assert_eq!(interval_nanos(1), SECOND);
    assert_eq!(interval_nanos(20), 50_000_000);
    assert_eq!(interval_nanos(600), 1_666_666);
    assert_eq!(interval_nanos(1000), 1_000_000);
}

#[test]
fn frequency_sender_stops_in_time() {
    let mut stats = ShardedBenchmarkStats::new();
    let mut sender = FrequencySender::new(5, 30);
    assert!(sender.runs_at(5));
    assert!(sender.runs_at(30 * SECOND + 4));
    assert!(!sender.runs_at(30 * SECOND + 5));
    let message = sender.message(77, "x");
    assert_eq!((message.id, message.timestamp), (0, 77));
    assert!(sender.record_send(true, &mut stats));
    assert_eq!(sender.message(78, "x").id, 1);
    assert!(!sender.record_send(false, &mut stats));
    assert_eq!(sender.message(79, "x").id, 1);
    assert_eq!(stats.messages_sent, 1);
}

#[test]
fn loss_is_a_share() {
    assert_eq!(echo_loss(0, 0), None);
    assert_eq!(echo_loss(100, 100), None);
    assert_eq!(echo_loss(100, 130), None);
    assert_eq!(echo_loss(100, 75), Some(Ratio { numerator: 25, denominator: 100 }));
}

#[test]
fn frequency_benchmark_is_reported() {
    let plan = FrequencyPlan { frequency: 20, duration_seconds: 30, connections: 100 };
    assert_eq!(plan.total_messages(), 600);
    let mut stats = BenchmarkStats::default();
    stats.messages_sent = 10_000;
    stats.messages_received = 9_000;
    stats.total_latency_ms = 27_000;
    let progress = plan.progress(5, &stats).unwrap();
    assert_eq!(progress.elapsed_seconds, 5);
    assert_eq!((progress.messages_sent, progress.messages_received), (10_000, 9_000));
    assert_eq!(progress.loss, Some(Ratio { numerator: 1_000, denominator: 10_000 }));
    assert_eq!(
        progress.average_latency,
        Some(Ratio { numerator: 27_000, denominator: 9_000 })
    );
    assert!(plan.progress(0, &stats).unwrap().loss.is_none());
    assert!(plan.progress(30, &stats).is_none());
    stats.messages_received = 61_000;
    let report = plan.report(31, &stats);
    assert_eq!(report.expected_echo, 60_000);
    assert_eq!(report.expected_broadcasts, 620);
    assert_eq!(report.expected_total, 60_620);
    assert_eq!(report.loss, None);
    assert_eq!(report.throughput, None);
    assert_eq!(report.messages_received, 61_000);
}

#[test]
fn nought_parts_the_shares_from_the_whole() {
    let mut sharded = ShardedBenchmarkStats::new();
    let mut whole = BenchmarkStats::default();
    for (latency, connection) in [(10, 0), (0, 1)] {
        sharded.record_incoming(&reply(100), 100 + latency, connection);
        whole.record_incoming(&reply(100), 100 + latency);
    }
    let merged = sharded.to_benchmark_stats();
    assert_eq!((merged.messages_received, whole.messages_received), (2, 2));
    assert_eq!((merged.total_latency_ms, whole.total_latency_ms), (10, 10));
    assert_eq!((merged.max_latency_ms, whole.max_latency_ms), (10, 10));
    assert_eq!((merged.min_latency_ms, whole.min_latency_ms), (10, 0));
    sharded.record_incoming(&reply(100), 100, 0);
    whole.record_incoming(&reply(100), 100);
    assert_eq!(sharded.to_benchmark_stats().min_latency_ms, whole.min_latency_ms);
}

#[test]
fn mean_lies_between_the_extremes() {
    let mut stats = BenchmarkStats::default();
    for latency in [4, 9, 2, 7] {
        stats.record_incoming(&reply(1000), 1000 + latency);
    }
    let mean = stats.average_latency_ms().unwrap();
    assert_eq!(mean, Ratio { numerator: 22, denominator: 4 });
    assert!(stats.min_latency_ms * mean.denominator <= mean.numerator);
    assert!(mean.numerator <= stats.max_latency_ms * mean.denominator);
}

#[test]
fn frequency_sender_runs_for_any_duration() {
    let sender = FrequencySender::new(u64::MAX, u64::MAX);
    assert!(sender.runs_at(u64::MAX));
    assert!(!FrequencySender::new(7, 0).runs_at(7));
}

#[test]
fn frequency_is_kept() {
    let (frequency, seconds) = (600, 10);
    let sender = FrequencySender::new(0, seconds);
    let due = (0..).take_while(|n| sender.runs_at(n * interval_nanos(frequency))).count() as u64;
    assert!(due == frequency * seconds || due == frequency * seconds + 1);
}

#[test]
fn failed_send_ends_a_throughput_connection() {
    let sender = ThroughputSender::new(3, 0);
    let mut stats = BenchmarkStats::default();
    assert!(sender.record_send(true, &mut stats));
    assert_eq!(stats.messages_sent, 1);
    assert!(!sender.record_send(false, &mut stats));
    assert_eq!(stats.messages_sent, 1);
}
