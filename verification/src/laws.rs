//! What holds of the servers and the client as a whole.
use crate::channel::{FrameView, SendOutcome};
use crate::client::runs::{loss_of, ConnectionRamp, ThroughputSender};
use crate::client::stats::{
    highest, lowest, upper, BenchmarkStats, BenchmarkStatsShard, ShardedBenchmarkStatsView,
};
use crate::ecs::components::{
    BenchmarkMessage, BenchmarkMessageView, ServerStats, WebSocketServer,
};
use crate::ecs::systems::broadcast::{
    broadcast_base, broadcast_of, broadcast_text, sent_count, BroadcastReport,
};
use crate::ecs::systems::connections::{forgets, pass_steps, FixedStep};
use crate::ecs::systems::echo::{echo_counted, echo_of, echo_outcome, echoes, EchoOutcome};
use crate::ecs::systems::statistics::{due, pending_in, StatsDue, REPORT_INTERVAL_NANOS};
use crate::ecs::systems::tasks::{ends_reading, ConnectionTasks};
use crate::message::{Incoming, Ratio};
use crate::registry::{
    delivers, measures, redelivers, Delivery, Room, CHANNEL_BUFFER_SIZE, SEND_TIMEOUT_MS,
};
use crate::server;
use crate::writer::{ends_writing, SenderEvent};
use vstd::prelude::*;

verus! {

/// The sum of the latencies.
pub open spec fn latency_sum(samples: Seq<(u64, usize)>) -> int
    decreases samples.len(),
{
    if samples.len() == 0 {
        0
    } else {
        latency_sum(samples.drop_last()) + samples.last().0
    }
}

/// Counters in one piece after replies with the given latencies.
pub open spec fn counted_whole(samples: Seq<(u64, usize)>) -> BenchmarkStats
    decreases samples.len(),
{
    if samples.len() == 0 {
        BenchmarkStats::zero()
    } else {
        counted_whole(samples.drop_last()).after_reply(samples.last().0)
    }
}

/// Counters in shares after replies with the given latencies, each with the connection that it
/// came in on.
pub open spec fn counted_in_shares(samples: Seq<(u64, usize)>) -> ShardedBenchmarkStatsView
    decreases samples.len(),
{
    if samples.len() == 0 {
        ShardedBenchmarkStatsView::zero()
    } else {
        counted_in_shares(samples.drop_last()).after_reply(samples.last().0, samples.last().1)
    }
}

/// The counters can hold the number of the samples and the sum of their latencies.
pub open spec fn holdable(samples: Seq<(u64, usize)>) -> bool {
    &&& samples.len() <= u64::MAX
    &&& latency_sum(samples) <= u64::MAX
}

/// The `i`th latency is not nought, and none of nought has come in since.
pub open spec fn fresh(samples: Seq<(u64, usize)>, i: int) -> bool {
    &&& 0 <= i < samples.len()
    &&& samples[i].0 > 0
    &&& forall|k: int| i < k < samples.len() ==> (#[trigger] samples[k]).0 != 0
}

/// The `i`th latency is not nought, and none of nought has come in since in the same share.
pub open spec fn fresh_in_share(samples: Seq<(u64, usize)>, i: int) -> bool {
    &&& 0 <= i < samples.len()
    &&& samples[i].0 > 0
    &&& forall|k: int|
        i < k < samples.len() && (#[trigger] samples[k]).1 % 4 == samples[i].1 % 4 ==> samples[k].0
            != 0
}

/// The shares know of no lesser latency than those since the last nought. A share takes the
/// greatest number for an empty share.
pub open spec fn shares_see_the_least(samples: Seq<(u64, usize)>) -> bool {
    &&& forall|i: int| #[trigger]
        fresh_in_share(samples, i) && samples[i].0 < u64::MAX ==> exists|k: int| #[trigger]
            fresh(samples, k) && samples[k].0 <= samples[i].0
    &&& forall|i: int| #[trigger]
        fresh(samples, i) ==> exists|k: int| #[trigger]
            fresh(samples, k) && samples[k].0 < u64::MAX
}

/// A prefix of the samples can be counted, too.
proof fn lemma_holdable(samples: Seq<(u64, usize)>)
    requires
        holdable(samples),
        samples.len() > 0,
    ensures
        holdable(samples.drop_last()),
        latency_sum(samples.drop_last()) >= 0,
{
    lemma_sum(samples.drop_last());
}

/// No latency is negative.
proof fn lemma_sum(samples: Seq<(u64, usize)>)
    ensures
        latency_sum(samples) >= 0,
    decreases samples.len(),
{
    if samples.len() > 0 {
        lemma_sum(samples.drop_last());
    }
}

/// What the counters in one piece hold.
proof fn lemma_whole(samples: Seq<(u64, usize)>)
    requires
        holdable(samples),
    ensures
        ({
            let stats = counted_whole(samples);
            &&& stats == (BenchmarkStats {
                messages_received: samples.len() as u64,
                total_latency_ms: latency_sum(samples) as u64,
                min_latency_ms: stats.min_latency_ms,
                max_latency_ms: stats.max_latency_ms,
                ..BenchmarkStats::zero()
            })
            &&& forall|i: int| #[trigger]
                fresh(samples, i) ==> 0 < stats.min_latency_ms <= samples[i].0
            &&& stats.min_latency_ms > 0 ==> exists|i: int| #[trigger]
                fresh(samples, i) && samples[i].0 == stats.min_latency_ms
            &&& forall|i: int|
                0 <= i < samples.len() ==> (#[trigger] samples[i]).0 <= stats.max_latency_ms
            &&& stats.max_latency_ms > 0 ==> exists|i: int|
                0 <= i < samples.len() && (#[trigger] samples[i]).0 == stats.max_latency_ms
        }),
    decreases samples.len(),
{
    lemma_sum(samples);
    if samples.len() > 0 {
        let earlier = samples.drop_last();
        let last = samples.len() - 1;
        lemma_holdable(samples);
        lemma_whole(earlier);
        let stats = counted_whole(samples);
        assert(stats == counted_whole(earlier).after_reply(samples[last].0));
        assert forall|i: int| #[trigger] fresh(samples, i) implies 0 < stats.min_latency_ms
            <= samples[i].0 by {
            assert(samples[last].0 != 0);
            if i < last {
                assert(forall|k: int| 0 <= k < last ==> #[trigger] earlier[k] == samples[k]);
                assert(fresh(earlier, i));
            }
        }
        if stats.min_latency_ms > 0 {
            if stats.min_latency_ms == samples[last].0 {
                assert(fresh(samples, last));
            } else {
                let i = choose|i: int| #[trigger]
                    fresh(earlier, i) && earlier[i].0 == stats.min_latency_ms;
                assert forall|k: int| i < k < samples.len() implies (#[trigger] samples[k]).0
                    != 0 by {
                    if k < last {
                        assert(earlier[k] == samples[k]);
                    }
                }
                assert(fresh(samples, i));
            }
        }
        assert forall|i: int| 0 <= i < samples.len() implies (#[trigger] samples[i]).0
            <= stats.max_latency_ms by {
            if i < last {
                assert(earlier[i] == samples[i]);
            }
        }
        if stats.max_latency_ms > 0 {
            if stats.max_latency_ms == samples[last].0 {
                assert(samples[last].0 == stats.max_latency_ms);
            } else {
                let i = choose|i: int|
                    0 <= i < earlier.len() && (#[trigger] earlier[i]).0 == stats.max_latency_ms;
                assert(samples[i] == earlier[i]);
            }
        }
    }
}

/// What one share holds.
proof fn lemma_share(samples: Seq<(u64, usize)>, share: int)
    requires
        0 <= share < 4,
    ensures
        ({
            let least = counted_in_shares(samples).shards[share].min_latency_ms;
            &&& counted_in_shares(samples).shards.len() == 4
            &&& forall|i: int| #[trigger]
                fresh_in_share(samples, i) && samples[i].1 % 4 == share ==> 0 < least
                    <= samples[i].0
            &&& least > 0 ==> exists|i: int| #[trigger]
                fresh_in_share(samples, i) && samples[i].1 % 4 == share && samples[i].0 == least
        }),
    decreases samples.len(),
{
    if samples.len() > 0 {
        let earlier = samples.drop_last();
        let last = samples.len() - 1;
        lemma_share(earlier, share);
        assert(forall|k: int| 0 <= k < last ==> #[trigger] earlier[k] == samples[k]);
        let least = counted_in_shares(samples).shards[share].min_latency_ms;
        assert forall|i: int| #[trigger]
            fresh_in_share(samples, i) && samples[i].1 % 4 == share implies 0 < least
            <= samples[i].0 by {
            if i < last {
                assert(samples[last].1 % 4 == share ==> samples[last].0 != 0);
                assert(fresh_in_share(earlier, i));
            }
        }
        if least > 0 {
            if samples[last].1 % 4 == share && least == samples[last].0 {
                assert(fresh_in_share(samples, last));
            } else {
                let i = choose|i: int| #[trigger]
                    fresh_in_share(earlier, i) && earlier[i].1 % 4 == share && earlier[i].0
                        == least;
                assert forall|k: int|
                    i < k < samples.len() && (#[trigger] samples[k]).1 % 4 == samples[i].1
                        % 4 implies samples[k].0 != 0 by {
                    if k < last {
                        assert(earlier[k] == samples[k]);
                    }
                }
                assert(fresh_in_share(samples, i));
            }
        }
    }
}

/// The least latency of four shares.
proof fn lemma_lowest(shards: Seq<BenchmarkStatsShard>)
    requires
        shards.len() == 4,
    ensures
        forall|s: int|
            0 <= s < 4 && (#[trigger] shards[s]).min_latency_ms > 0 ==> 0 < lowest(shards, 4)
                <= shards[s].min_latency_ms,
        lowest(shards, 4) < u64::MAX ==> exists|s: int|
            0 <= s < 4 && 0 < (#[trigger] shards[s]).min_latency_ms == lowest(shards, 4),
{
    reveal_with_fuel(lowest, 5);
    let least = lowest(shards, 4);
    if least < u64::MAX {
        assert(shards[0].min_latency_ms == least || shards[1].min_latency_ms == least
            || shards[2].min_latency_ms == least || shards[3].min_latency_ms == least);
    }
}

/// One more latency in one share moves the greatest of all as it would move a single one.
proof fn lemma_highest(shards: Seq<BenchmarkStatsShard>, s: int, latency: u64)
    requires
        shards.len() == 4,
        0 <= s < 4,
    ensures
        highest(shards.update(s, shards[s].after_latency(latency)), 4) == upper(
            highest(shards, 4),
            latency,
        ),
{
    reveal_with_fuel(highest, 5);
}

/// What the shares hold together, but for the least latency.
proof fn lemma_shares(samples: Seq<(u64, usize)>)
    requires
        holdable(samples),
    ensures
        counted_in_shares(samples).shards.len() == 4,
        counted_in_shares(samples).merged() == (BenchmarkStats {
            min_latency_ms: counted_in_shares(samples).merged().min_latency_ms,
            ..counted_whole(samples)
        }),
    decreases samples.len(),
{
    if samples.len() == 0 {
        reveal_with_fuel(highest, 5);
    } else {
        let earlier = samples.drop_last();
        let (latency, connection) = samples.last();
        lemma_holdable(samples);
        lemma_shares(earlier);
        lemma_whole(earlier);
        lemma_highest(counted_in_shares(earlier).shards, connection as int % 4, latency);
    }
}

/// Counting replies in shares and bringing the shares together gives the same number, sum and
/// greatest latency as counting them in one piece, whatever connections they came in on. The least
/// latency is the same, too, unless a nought has made the search for it start over in one piece but
/// not in the share that holds a lesser one; without noughts, and without the greatest number, it
/// always is.
pub proof fn law_shares_add_up_to_the_whole(samples: Seq<(u64, usize)>)
    requires
        holdable(samples),
    ensures
        counted_in_shares(samples).merged() == (BenchmarkStats {
            min_latency_ms: counted_in_shares(samples).merged().min_latency_ms,
            ..counted_whole(samples)
        }),
        counted_in_shares(samples).merged() == counted_whole(samples) <==> shares_see_the_least(
            samples,
        ),
        (forall|i: int| 0 <= i < samples.len() ==> 0 < (#[trigger] samples[i]).0 < u64::MAX)
            ==> counted_in_shares(samples).merged() == counted_whole(samples),
{
    let shards = counted_in_shares(samples).shards;
    let together = counted_in_shares(samples).merged().min_latency_ms;
    let whole = counted_whole(samples).min_latency_ms;
    lemma_shares(samples);
    lemma_whole(samples);
    lemma_share(samples, 0);
    lemma_share(samples, 1);
    lemma_share(samples, 2);
    lemma_share(samples, 3);
    lemma_lowest(shards);
    assert forall|i: int| #[trigger] fresh(samples, i) implies fresh_in_share(samples, i) by {}
    assert forall|i: int| #[trigger]
        fresh_in_share(samples, i) && samples[i].0 < u64::MAX implies 0 < together
        <= samples[i].0 by {
        let s = samples[i].1 as int % 4;
        assert(0 < shards[s].min_latency_ms <= samples[i].0);
    }
    assert(together > 0 ==> exists|i: int| #[trigger]
        fresh_in_share(samples, i) && samples[i].0 == together) by {
        if together > 0 {
            let s = choose|s: int|
                0 <= s < 4 && 0 < (#[trigger] shards[s]).min_latency_ms == lowest(shards, 4);
            assert(shards[s].min_latency_ms == together);
        }
    }
    if shares_see_the_least(samples) {
        if together > 0 {
            let i = choose|i: int| #[trigger]
                fresh_in_share(samples, i) && samples[i].0 == together;
            let k = choose|k: int| #[trigger]
                fresh(samples, k) && samples[k].0 <= samples[i].0;
            assert(whole <= together);
        }
        if whole > 0 {
            let i = choose|i: int| #[trigger] fresh(samples, i) && samples[i].0 == whole;
            let k = choose|k: int| #[trigger] fresh(samples, k) && samples[k].0 < u64::MAX;
            assert(whole <= samples[k].0);
            assert(fresh_in_share(samples, i));
            assert(together <= whole);
        }
        assert(together == whole);
    }
    if together == whole {
        assert forall|i: int| #[trigger]
            fresh_in_share(samples, i) && samples[i].0 < u64::MAX implies exists|k: int| #[trigger]
            fresh(samples, k) && samples[k].0 <= samples[i].0 by {
            let k = choose|k: int| #[trigger] fresh(samples, k) && samples[k].0 == whole;
            assert(samples[k].0 <= samples[i].0);
        }
        assert forall|i: int| #[trigger] fresh(samples, i) implies exists|k: int| #[trigger]
            fresh(samples, k) && samples[k].0 < u64::MAX by {
            let k = choose|k: int| #[trigger] fresh(samples, k) && samples[k].0 == whole;
            assert(together < u64::MAX);
            assert(samples[k].0 < u64::MAX);
        }
        assert(shares_see_the_least(samples));
    }
    if forall|i: int| 0 <= i < samples.len() ==> 0 < (#[trigger] samples[i]).0 < u64::MAX {
        assert forall|i: int| #[trigger] fresh_in_share(samples, i) implies fresh(samples, i) by {}
        assert(shares_see_the_least(samples));
    }
}

/// The sum of the latencies and the greatest one are kept, and of those that have come in since the
/// last nought the least; nought if there are none.
pub proof fn law_extremes_are_kept(samples: Seq<(u64, usize)>)
    requires
        holdable(samples),
    ensures
        counted_whole(samples).messages_received == samples.len(),
        counted_whole(samples).total_latency_ms == latency_sum(samples),
        forall|i: int|
            0 <= i < samples.len() ==> (#[trigger] samples[i]).0 <= counted_whole(
                samples,
            ).max_latency_ms,
        counted_whole(samples).max_latency_ms > 0 ==> exists|i: int|
            0 <= i < samples.len() && (#[trigger] samples[i]).0 == counted_whole(
                samples,
            ).max_latency_ms,
        forall|i: int| #[trigger]
            fresh(samples, i) ==> 0 < counted_whole(samples).min_latency_ms <= samples[i].0,
        counted_whole(samples).min_latency_ms > 0 ==> exists|i: int| #[trigger]
            fresh(samples, i) && samples[i].0 == counted_whole(samples).min_latency_ms,
{
    lemma_sum(samples);
    lemma_whole(samples);
}

/// The mean latency is never above the greatest, and without latencies of nought never below the
/// least.
pub proof fn law_mean_lies_between_the_extremes(samples: Seq<(u64, usize)>)
    requires
        holdable(samples),
        samples.len() > 0,
    ensures
        counted_whole(samples).average_latency() matches Some(mean) && {
            let stats = counted_whole(samples);
            &&& mean.numerator <= stats.max_latency_ms * mean.denominator
            &&& (forall|i: int| 0 <= i < samples.len() ==> (#[trigger] samples[i]).0 > 0)
                ==> stats.min_latency_ms * mean.denominator <= mean.numerator
        },
{
    let stats = counted_whole(samples);
    law_extremes_are_kept(samples);
    lemma_sum_below(samples, stats.max_latency_ms as int);
    if forall|i: int| 0 <= i < samples.len() ==> (#[trigger] samples[i]).0 > 0 {
        assert forall|i: int| 0 <= i < samples.len() implies stats.min_latency_ms <= (
        #[trigger] samples[i]).0 by {
            assert(fresh(samples, i));
        }
        lemma_sum_above(samples, stats.min_latency_ms as int);
    }
}

/// A bound above every latency bounds their sum.
proof fn lemma_sum_below(samples: Seq<(u64, usize)>, bound: int)
    requires
        forall|i: int| 0 <= i < samples.len() ==> (#[trigger] samples[i]).0 <= bound,
    ensures
        latency_sum(samples) <= bound * samples.len(),
    decreases samples.len(),
{
    if samples.len() > 0 {
        let earlier = samples.drop_last();
        assert forall|i: int| 0 <= i < earlier.len() implies (#[trigger] earlier[i]).0 <= bound by {
            assert(earlier[i] == samples[i]);
        }
        lemma_sum_below(earlier, bound);
        assert(samples[samples.len() - 1].0 <= bound);
        assert(bound * samples.len() == bound * earlier.len() + bound) by (nonlinear_arith)
            requires
                samples.len() == earlier.len() + 1,
        ;
    } else {
        assert(bound * samples.len() == 0) by (nonlinear_arith)
            requires
                samples.len() == 0,
        ;
    }
}

/// A bound below every latency bounds their sum.
proof fn lemma_sum_above(samples: Seq<(u64, usize)>, bound: int)
    requires
        forall|i: int| 0 <= i < samples.len() ==> bound <= (#[trigger] samples[i]).0,
    ensures
        bound * samples.len() <= latency_sum(samples),
    decreases samples.len(),
{
    if samples.len() > 0 {
        let earlier = samples.drop_last();
        assert forall|i: int| 0 <= i < earlier.len() implies bound <= (#[trigger] earlier[i]).0 by {
            assert(earlier[i] == samples[i]);
        }
        lemma_sum_above(earlier, bound);
        assert(bound <= samples[samples.len() - 1].0);
        assert(bound * samples.len() == bound * earlier.len() + bound) by (nonlinear_arith)
            requires
                samples.len() == earlier.len() + 1,
        ;
    } else {
        assert(bound * samples.len() == 0) by (nonlinear_arith)
            requires
                samples.len() == 0,
        ;
    }
}

/// The text of a broadcast is as long as asked for, from nine characters of room on. With less room
/// it is padded with an empty frame, and a size that the opening fills already changes nothing.
pub proof fn law_broadcast_size(timestamp: nat, connections: nat, size: nat)
    ensures
        ({
            let base = broadcast_base(timestamp, connections).len();
            let length = broadcast_text(timestamp, connections, size).len();
            &&& size >= base + 9 ==> length == size
            &&& base < size < base + 9 ==> length == base + 9
            &&& size <= base ==> length == base
        }),
{
    reveal_strlit(" [DUMMY:");
    reveal_strlit("]");
}

/// The numbers of broadcasts that the server makes at the given times, one after the other.
pub open spec fn broadcast_ids(server: WebSocketServer, times: Seq<u64>) -> Seq<u64>
    decreases times.len(),
{
    if times.len() == 0 {
        Seq::empty()
    } else {
        let earlier = broadcast_ids(server, times.drop_last());
        earlier.push(after_ids(server, earlier).broadcast_id(times.last()))
    }
}

/// The server after broadcasts with the given numbers.
pub open spec fn after_ids(server: WebSocketServer, ids: Seq<u64>) -> WebSocketServer {
    if ids.len() == 0 {
        server
    } else {
        WebSocketServer { last_broadcast_id: Some(ids.last()), ..server }
    }
}

/// The numbers of broadcasts rise strictly, however the clock behaves, so that no two share one.
/// None is before its time.
pub proof fn law_broadcast_ids_rise(server: WebSocketServer, times: Seq<u64>)
    requires
        forall|i: int|
            0 <= i < times.len() ==> after_ids(
                server,
                #[trigger] broadcast_ids(server, times.take(i)),
            ).last_broadcast_id != Some(u64::MAX),
    ensures
        broadcast_ids(server, times).len() == times.len(),
        forall|i: int, j: int|
            0 <= i < j < times.len() ==> broadcast_ids(server, times)[i] < broadcast_ids(
                server,
                times,
            )[j],
        forall|i: int|
            0 <= i < times.len() ==> #[trigger] broadcast_ids(server, times)[i] >= times[i],
        server.last_broadcast_id matches Some(last) ==> forall|i: int|
            0 <= i < times.len() ==> #[trigger] broadcast_ids(server, times)[i] > last,
    decreases times.len(),
{
    if times.len() > 0 {
        let earlier = times.drop_last();
        assert(times.take(times.len() - 1) =~= earlier);
        assert forall|i: int| 0 <= i < earlier.len() implies after_ids(
            server,
            #[trigger] broadcast_ids(server, earlier.take(i)),
        ).last_broadcast_id != Some(u64::MAX) by {
            assert(earlier.take(i) =~= times.take(i));
        }
        law_broadcast_ids_rise(server, earlier);
        assert(after_ids(server, broadcast_ids(server, times.take(times.len() - 1))).last_broadcast_id
            != Some(u64::MAX));
        let ids = broadcast_ids(server, earlier);
        if ids.len() > 0 {
            assert(forall|i: int| 0 <= i < ids.len() ==> #[trigger] ids[i] <= ids.last());
        }
    }
}

/// The messages of broadcasts that the server makes of the given texts at the given times, one after
/// the other.
pub open spec fn broadcast_messages(
    server: WebSocketServer,
    times: Seq<u64>,
    texts: Seq<Seq<char>>,
) -> Seq<BenchmarkMessageView> {
    Seq::new(
        times.len(),
        |i: int| broadcast_of(broadcast_ids(server, times)[i], times[i], texts[i]),
    )
}

/// No two broadcasts bear the same number, whatever the clock says and whatever their texts are. A
/// server whose last number is the greatest there is makes no more.
pub proof fn law_broadcasts_bear_different_numbers(
    server: WebSocketServer,
    times: Seq<u64>,
    texts: Seq<Seq<char>>,
    i: int,
    j: int,
)
    requires
        0 <= i < j < times.len(),
        forall|k: int|
            0 <= k < times.len() ==> after_ids(
                server,
                #[trigger] broadcast_ids(server, times.take(k)),
            ).last_broadcast_id != Some(u64::MAX),
    ensures
        broadcast_messages(server, times, texts)[i].id != broadcast_messages(
            server,
            times,
            texts,
        )[j].id,
{
    law_broadcast_ids_rise(server, times);
}

/// An echo bears the number of the message that it answers and gives back its payload unchanged,
/// behind a tag that names the client.
pub proof fn law_echo_gives_back(request: BenchmarkMessageView, addr: Seq<char>, time: u64)
    ensures
        echo_of(request, addr, time).id == request.id,
        echo_of(request, addr, time).original_id == Some(request.id),
        echo_of(request, addr, time).payload.skip(13 + addr.len() as int) == request.payload,
        echo_of(request, addr, time).payload.subrange(10, 10 + addr.len() as int) == addr,
{
    reveal_strlit("bevy-echo[");
    reveal_strlit("]: ");
    assert(echo_of(request, addr, time).payload.skip(13 + addr.len() as int) =~= request.payload);
    assert(echo_of(request, addr, time).payload.subrange(10, 10 + addr.len() as int) =~= addr);
}

/// Taking a client in and then forgetting it leaves the connections and the counters as they were.
pub proof fn law_disconnect_undoes_connect(
    before: WebSocketServer,
    connected: WebSocketServer,
    after: WebSocketServer,
    addr: Seq<char>,
)
    requires
        !before.connections@.contains_key(addr),
        connected.connections@ == before.connections@.insert(addr, Seq::empty()),
        connected.stats == (ServerStats {
            connections: connected.stats.connections,
            ..before.stats
        }),
        forgets(connected, after, addr),
    ensures
        after.connections@ == before.connections@,
        before.counts_connections() ==> after.stats == before.stats,
{
    assert(after.connections@ =~= before.connections@);
}

/// The same of the stand-alone server, but that the first client sets the time from which it
/// counts.
pub proof fn law_unregister_undoes_register(
    before: server::Server,
    connected: server::Server,
    after: server::Server,
    addr: Seq<char>,
    now: u64,
)
    requires
        !before.connections@.contains_key(addr),
        connected.connections@ == before.connections@.insert(addr, connected.connections@[addr]),
        connected.stats == before.stats.after_connect(connected.stats.connections, now),
        server::forgets(connected, after, addr),
    ensures
        after.connections@ == before.connections@,
        before.counts_connections() ==> after.stats == before.stats.after_connect(
            before.stats.connections,
            now,
        ),
        before.counts_connections() && before.stats.start_time is Some ==> after.stats
            == before.stats,
{
    assert(after.connections@ =~= before.connections@);
}

/// Something that the tasks of a connection go through.
pub enum TaskEvent {
    /// The reader got this, or came to the end.
    Read(Option<Incoming<BenchmarkMessage>>),
    /// A reply met with this.
    Replied(EchoOutcome),
    /// The writer saw this.
    Wrote(SenderEvent),
}

/// Whether one of the tasks stops at this.
pub open spec fn is_end(event: TaskEvent) -> bool {
    match event {
        TaskEvent::Read(incoming) => ends_reading(incoming),
        TaskEvent::Replied(outcome) => outcome is ChannelClosed,
        TaskEvent::Wrote(event) => ends_writing(event),
    }
}

/// Whether the tasks of a connection and the server go through `event` in one step, in which
/// nothing else happens to the server but that a reply may go into the client's channel.
pub open spec fn goes_through(
    before: WebSocketServer,
    after: WebSocketServer,
    earlier: ConnectionTasks,
    later: ConnectionTasks,
    event: TaskEvent,
) -> bool {
    exists|between: WebSocketServer| #[trigger]
        earlier.steps(later, between, after, is_end(event)) && keeps_the_others(
            before,
            between,
            earlier.addr@,
        )
}

/// Whether `servers` and `tasks` tell, step by step, how the tasks of a connection go through the
/// given events.
pub open spec fn lives_through(
    servers: Seq<WebSocketServer>,
    tasks: Seq<ConnectionTasks>,
    events: Seq<TaskEvent>,
) -> bool {
    &&& servers.len() == tasks.len() == events.len() + 1
    &&& forall|i: int|
        0 <= i < events.len() ==> goes_through(
            servers[i],
            servers[i + 1],
            tasks[i],
            tasks[i + 1],
            #[trigger] events[i],
        )
}

/// The addresses are the same, and so are all channels but that of `addr`.
pub open spec fn keeps_the_others(
    before: WebSocketServer,
    after: WebSocketServer,
    addr: Seq<char>,
) -> bool {
    &&& after.connections@.dom() == before.connections@.dom()
    &&& after.connections@.remove(addr) == before.connections@.remove(addr)
    &&& after.stats.connections == before.stats.connections
}

/// An attempt at a reply touches the channel of its client only.
pub proof fn law_reply_keeps_the_others(
    before: WebSocketServer,
    after: WebSocketServer,
    addr: Seq<char>,
    text: Option<String>,
    waited_ms: u64,
    result: EchoOutcome,
)
    requires
        echoes(before, after, addr, text, waited_ms, result),
    ensures
        keeps_the_others(before, after, addr),
{
    assert(after.connections@.dom() =~= before.connections@.dom());
    assert(after.connections@.remove(addr) =~= before.connections@.remove(addr));
}

/// A connection that has ended is forgotten: once its reader or its writer has stopped, whichever
/// comes first, the server knows all other connections and not this one, and counts them. As long
/// as both run, it stays.
pub proof fn law_ended_connection_is_forgotten(
    servers: Seq<WebSocketServer>,
    tasks: Seq<ConnectionTasks>,
    events: Seq<TaskEvent>,
)
    requires
        lives_through(servers, tasks, events),
        !tasks[0].stopped,
    ensures
        ({
            let addr = tasks[0].addr@;
            let over = exists|i: int| 0 <= i < events.len() && is_end(#[trigger] events[i]);
            &&& tasks.last().addr@ == addr
            &&& tasks.last().stopped == over
            &&& servers.last().connections@.remove(addr) == servers[0].connections@.remove(addr)
            &&& over ==> {
                &&& !servers.last().connections@.contains_key(addr)
                &&& servers.last().counts_connections()
            }
            &&& !over ==> servers.last().connections@.dom() == servers[0].connections@.dom()
        }),
    decreases events.len(),
{
    if events.len() > 0 {
        let last = events.len() - 1;
        let addr = tasks[0].addr@;
        let earlier = events.drop_last();
        assert forall|i: int| 0 <= i < earlier.len() implies goes_through(
            servers.drop_last()[i],
            servers.drop_last()[i + 1],
            tasks.drop_last()[i],
            tasks.drop_last()[i + 1],
            #[trigger] earlier[i],
        ) by {
            assert(earlier[i] == events[i]);
        }
        law_ended_connection_is_forgotten(servers.drop_last(), tasks.drop_last(), earlier);
        assert(goes_through(
            servers[last],
            servers[last + 1],
            tasks[last],
            tasks[last + 1],
            events[last],
        ));
        let between = choose|between: WebSocketServer| #[trigger]
            tasks[last].steps(tasks[last + 1], between, servers[last + 1], is_end(events[last]))
                && keeps_the_others(servers[last], between, tasks[last].addr@);
        assert(servers.drop_last().last() == servers[last]);
        assert(tasks.drop_last().last() == tasks[last]);
        let after = servers.last().connections@;
        assert(after.remove(addr) =~= servers[last].connections@.remove(addr)) by {
            if is_end(events[last]) && !tasks[last].stopped {
                assert(after.remove(addr) =~= after);
            }
        }
        let was_over = exists|i: int| 0 <= i < earlier.len() && is_end(#[trigger] earlier[i]);
        let over = exists|i: int| 0 <= i < events.len() && is_end(#[trigger] events[i]);
        if was_over {
            let i = choose|i: int| 0 <= i < earlier.len() && is_end(#[trigger] earlier[i]);
            assert(is_end(events[i]));
        }
        if over && !is_end(events[last]) {
            let i = choose|i: int| 0 <= i < events.len() && is_end(#[trigger] events[i]);
            assert(is_end(earlier[i]));
        }
        assert(over == (was_over || is_end(events[last])));
        if was_over {
            assert(between.connections@.dom() == servers[last].connections@.dom());
            assert(between.connections@.len() == servers[last].connections@.len());
        }
    } else {
        assert(servers.last() == servers[0]);
    }
}

/// An attempt at a reply: what it met with, the room left, and how long it had waited.
pub struct Attempt {
    pub outcome: SendOutcome,
    pub room: usize,
    pub waited_ms: u64,
}

/// The counters after the given attempts.
pub open spec fn after_attempts(stats: ServerStats, attempts: Seq<Attempt>) -> ServerStats
    decreases attempts.len(),
{
    if attempts.len() == 0 {
        stats
    } else {
        let last = attempts.last();
        echo_counted(
            after_attempts(stats, attempts.drop_last()),
            echo_outcome(last.outcome, last.waited_ms),
            last.room,
        )
    }
}

/// A reply is counted once, however often it is tried: as sent if there is room before it has waited
/// too long, and as dropped if not.
pub proof fn law_reply_is_counted_once(stats: ServerStats, attempts: Seq<Attempt>)
    requires
        attempts.len() > 0,
        forall|i: int|
            0 <= i < attempts.len() - 1 ==> (#[trigger] attempts[i]).outcome is Full
                && attempts[i].waited_ms < SEND_TIMEOUT_MS,
    ensures
        attempts.last().outcome is Sent ==> after_attempts(stats, attempts) == stats.after_sent(
            (CHANNEL_BUFFER_SIZE - attempts.last().room) as usize,
        ),
        attempts.last().outcome is Full && attempts.last().waited_ms < SEND_TIMEOUT_MS
            ==> after_attempts(stats, attempts) == stats,
        attempts.last().outcome is Full && attempts.last().waited_ms >= SEND_TIMEOUT_MS
            ==> after_attempts(stats, attempts) == stats.after_dropped(),
        attempts.last().outcome is Closed ==> after_attempts(stats, attempts) == stats,
    decreases attempts.len(),
{
    let earlier = attempts.drop_last();
    if earlier.len() > 0 {
        assert forall|i: int| 0 <= i < earlier.len() - 1 implies (#[trigger] earlier[i]).outcome
            is Full && earlier[i].waited_ms < SEND_TIMEOUT_MS by {
            assert(earlier[i] == attempts[i]);
        }
        assert(earlier.last() == attempts[attempts.len() - 2]);
        law_reply_is_counted_once(stats, earlier);
    } else {
        assert(after_attempts(stats, earlier) == stats);
    }
}

/// Trying the full channels again completes what the first attempt at a broadcast began: the two
/// together are one delivery to everyone who is connected.
pub proof fn law_retry_completes_the_delivery(
    before: Map<Seq<char>, Seq<FrameView>>,
    between: Map<Seq<char>, Seq<FrameView>>,
    after: Map<Seq<char>, Seq<FrameView>>,
    frame: FrameView,
    earlier: Seq<Delivery>,
    later: Seq<Delivery>,
)
    requires
        delivers(before, between, frame, earlier),
        redelivers(between, after, frame, earlier, later),
    ensures
        delivers(before, after, frame, later),
{
    assert forall|i: int, j: int| 0 <= i < j < later.len() implies later[i].addr@
        != later[j].addr@ by {
        assert(earlier[i].addr@ != earlier[j].addr@);
    }
    assert forall|addr: Seq<char>| #[trigger] before.contains_key(addr) implies exists|i: int|
        0 <= i < later.len() && (#[trigger] later[i]).addr@ == addr by {
        let i = choose|i: int| 0 <= i < earlier.len() && (#[trigger] earlier[i]).addr@ == addr;
        assert(later[i].addr@ == addr);
    }
    assert forall|i: int| 0 <= i < later.len() implies {
        let addr = (#[trigger] later[i]).addr@;
        &&& before.contains_key(addr)
        &&& after[addr] == if later[i].outcome is Sent {
            before[addr].push(frame)
        } else {
            before[addr]
        }
        &&& later[i].outcome is Full ==> before[addr].len() >= CHANNEL_BUFFER_SIZE
    } by {
        let addr = earlier[i].addr@;
        assert(before.contains_key(addr));
        assert(between.dom().contains(addr));
    }
}

/// How many broadcasts wait to be handed out after the given steps, if each step that can make one
/// does.
pub open spec fn left_waiting(steps: Seq<FixedStep>, waiting: nat) -> nat
    decreases steps.len(),
{
    if steps.len() == 0 {
        waiting
    } else {
        let earlier = left_waiting(steps.drop_last(), waiting);
        match steps.last() {
            FixedStep::Broadcast => earlier + 1,
            FixedStep::Deliver => 0,
            FixedStep::Report => earlier,
        }
    }
}

/// A broadcast is handed out in the very pass that makes it: none is left over, and it is made
/// before it is handed out and before the statistics are looked at.
pub proof fn law_broadcast_goes_out_in_its_pass(waiting: nat)
    ensures
        left_waiting(pass_steps(), waiting) == 0,
        forall|i: int, j: int|
            0 <= i < pass_steps().len() && 0 <= j < pass_steps().len() && pass_steps()[i]
                == FixedStep::Broadcast && pass_steps()[j] != FixedStep::Broadcast ==> i < j,
{
    reveal_with_fuel(left_waiting, 4);
}

/// Something that the counters of the server go through.
pub enum Change {
    /// So many clients are connected now.
    Connections(usize),
    /// A frame went out and left so many waiting.
    Sent(usize),
    /// A frame was dropped because its channel was full.
    Dropped,
    /// A broadcast reached so many clients and missed so many others.
    Broadcast(u64, u64),
    /// Counting starts at this time, unless it has started.
    Start(u64),
    /// A report is made at this time, on so many nanoseconds, with so many frames waiting.
    Report(u64, u64, usize),
}

/// The counters after a change.
pub open spec fn changed(stats: ServerStats, change: Change) -> ServerStats {
    match change {
        Change::Connections(connections) => ServerStats { connections, ..stats },
        Change::Sent(pending) => stats.after_sent(pending),
        Change::Dropped => stats.after_dropped(),
        Change::Broadcast(sent, failed) => stats.after_broadcast(sent, failed),
        Change::Start(now) => if stats.start_time is None {
            ServerStats { start_time: Some(now), last_stats_time: Some(now), ..stats }
        } else {
            stats
        },
        Change::Report(now, elapsed, pending) => stats.after_report(now, elapsed, pending),
    }
}

/// The counters of a server that has gone through the given changes.
pub open spec fn history(changes: Seq<Change>) -> ServerStats
    decreases changes.len(),
{
    if changes.len() == 0 {
        ServerStats::zero()
    } else {
        changed(history(changes.drop_last()), changes.last())
    }
}

/// How many frames wait according to a change, if it says so.
pub open spec fn pending_at(change: Change) -> Option<usize> {
    match change {
        Change::Sent(pending) => Some(pending),
        Change::Report(_, _, pending) => Some(pending),
        _ => None,
    }
}

/// How many messages a change sends.
pub open spec fn sent_by(change: Change) -> int {
    match change {
        Change::Sent(_) => 1,
        Change::Broadcast(sent, _) => sent as int,
        _ => 0,
    }
}

/// How many messages a change drops.
pub open spec fn dropped_by(change: Change) -> int {
    match change {
        Change::Dropped => 1,
        Change::Broadcast(_, failed) => failed as int,
        _ => 0,
    }
}

/// How many messages the changes send together.
pub open spec fn all_sent(changes: Seq<Change>) -> int
    decreases changes.len(),
{
    if changes.len() == 0 {
        0
    } else {
        all_sent(changes.drop_last()) + sent_by(changes.last())
    }
}

/// How many messages the changes drop together.
pub open spec fn all_dropped(changes: Seq<Change>) -> int
    decreases changes.len(),
{
    if changes.len() == 0 {
        0
    } else {
        all_dropped(changes.drop_last()) + dropped_by(changes.last())
    }
}

/// The peak is the most that was ever seen waiting, and never below what waits now.
pub proof fn law_peak_is_the_most_that_waited(changes: Seq<Change>)
    ensures
        history(changes).total_pending_messages <= history(changes).max_pending_messages,
        forall|i: int|
            0 <= i < changes.len() ==> (pending_at(#[trigger] changes[i]) matches Some(pending)
                ==> pending <= history(changes).max_pending_messages),
        history(changes).max_pending_messages == 0 || exists|i: int|
            0 <= i < changes.len() && pending_at(#[trigger] changes[i]) == Some(
                history(changes).max_pending_messages,
            ),
    decreases changes.len(),
{
    if changes.len() > 0 {
        let earlier = changes.drop_last();
        let last = changes.len() - 1;
        law_peak_is_the_most_that_waited(earlier);
        let peak = history(changes).max_pending_messages;
        assert forall|i: int| 0 <= i < changes.len() implies (pending_at(#[trigger] changes[i])
            matches Some(pending) ==> pending <= peak) by {
            if i < last {
                assert(earlier[i] == changes[i]);
            }
        }
        if peak != 0 {
            if peak == history(earlier).max_pending_messages {
                let i = choose|i: int|
                    0 <= i < earlier.len() && pending_at(#[trigger] earlier[i]) == Some(peak);
                assert(pending_at(changes[i]) == Some(peak));
            } else {
                assert(pending_at(changes[last]) == Some(peak));
            }
        }
    }
}

/// Once counting has started its start stays, and the peak never falls.
pub proof fn law_start_and_peak_stay(changes: Seq<Change>, count: int)
    requires
        0 <= count <= changes.len(),
    ensures
        history(changes.take(count)).start_time is Some ==> history(changes).start_time == history(
            changes.take(count),
        ).start_time,
        history(changes.take(count)).max_pending_messages <= history(changes).max_pending_messages,
    decreases changes.len(),
{
    if count == changes.len() {
        assert(changes.take(count) =~= changes);
    } else {
        assert(changes.drop_last().take(count) =~= changes.take(count));
        law_start_and_peak_stay(changes.drop_last(), count);
    }
}

/// A report says how many frames wait in all channels together, which is never above the peak, and
/// counts nothing else.
pub proof fn law_report_only_looks(stats: ServerStats, now: u64, elapsed: u64, pending: usize)
    ensures
        ({
            let after = stats.after_report(now, elapsed, pending);
            &&& after.total_pending_messages == pending
            &&& after.total_pending_messages <= after.max_pending_messages
            &&& after.max_pending_messages >= stats.max_pending_messages
            &&& after.last_message_count == after.total_messages
            &&& after.start_time == stats.start_time
            &&& after.connections == stats.connections
            &&& after.total_messages == stats.total_messages
            &&& after.dropped_messages == stats.dropped_messages
            &&& after.slow_connections == stats.slow_connections
        }),
{
}

/// No more frames wait than the channels have accepted.
pub proof fn law_pending_frames_were_accepted(
    rooms: Seq<Room>,
    channels: Map<Seq<char>, Seq<FrameView>>,
)
    requires
        channels.dom().finite(),
        measures(rooms, channels),
    ensures
        pending_in(rooms) <= frames_in(channels),
        pending_in(rooms) <= rooms.len() * CHANNEL_BUFFER_SIZE,
    decreases rooms.len(),
{
    if rooms.len() > 0 {
        let last = rooms.len() - 1;
        let fewer = rooms.drop_last();
        let addr = rooms[last].addr@;
        lemma_frames_in(channels, addr);
        assert forall|i: int| 0 <= i < fewer.len() implies {
            let other = (#[trigger] fewer[i]).addr@;
            &&& channels.remove(addr).contains_key(other)
            &&& fewer[i].free <= CHANNEL_BUFFER_SIZE
            &&& fewer[i].free + channels.remove(addr)[other].len() >= CHANNEL_BUFFER_SIZE
        } by {
            assert(fewer[i] == rooms[i]);
            assert(rooms[i].addr@ != rooms[last].addr@);
        }
        law_pending_frames_were_accepted(fewer, channels.remove(addr));
    }
}

/// As long as the counters can hold the numbers, they hold what was sent and what was dropped, and
/// the count at the last report is never ahead.
pub proof fn law_counters_add_up(changes: Seq<Change>)
    requires
        all_sent(changes) <= u64::MAX,
        all_dropped(changes) <= u64::MAX,
    ensures
        history(changes).total_messages == all_sent(changes),
        history(changes).dropped_messages == all_dropped(changes),
        history(changes).slow_connections <= history(changes).dropped_messages,
        history(changes).last_message_count <= history(changes).total_messages,
    decreases changes.len(),
{
    if changes.len() > 0 {
        law_counters_add_up(changes.drop_last());
    }
}

/// A broadcast is counted once for every client that is connected, as sent or as dropped.
pub proof fn law_broadcast_counts_everyone(
    stats: ServerStats,
    before: Map<Seq<char>, Seq<FrameView>>,
    after: Map<Seq<char>, Seq<FrameView>>,
    frame: FrameView,
    deliveries: Seq<Delivery>,
    report: BroadcastReport,
)
    requires
        report.counts(deliveries),
        delivers(before, after, frame, deliveries),
        stats.total_messages + report.sent <= u64::MAX,
        stats.dropped_messages + report.failed <= u64::MAX,
    ensures
        ({
            let next = stats.after_broadcast(report.sent, report.failed);
            next.total_messages + next.dropped_messages == stats.total_messages
                + stats.dropped_messages + before.len()
        }),
{
}

/// How many frames the channels have accepted together.
pub open spec fn frames_in(channels: Map<Seq<char>, Seq<FrameView>>) -> nat
    decreases channels.dom().len(),
    when channels.dom().finite()
{
    if channels.dom().len() == 0 {
        0
    } else {
        let addr = channels.dom().choose();
        channels[addr].len() + frames_in(channels.remove(addr))
    }
}

/// Any one channel can be counted first.
proof fn lemma_frames_in(channels: Map<Seq<char>, Seq<FrameView>>, addr: Seq<char>)
    requires
        channels.dom().finite(),
        channels.contains_key(addr),
    ensures
        frames_in(channels) == channels[addr].len() + frames_in(channels.remove(addr)),
    decreases channels.dom().len(),
{
    let first = channels.dom().choose();
    assert(channels.dom().contains(first));
    if first != addr {
        let rest = channels.remove(first);
        lemma_frames_in(rest, addr);
        lemma_frames_in(channels.remove(addr), first);
        assert(rest.remove(addr) =~= channels.remove(addr).remove(first));
    }
}

/// A reply that a channel accepts is one more frame, as it is counted.
pub proof fn law_echo_is_one_frame(
    channels: Map<Seq<char>, Seq<FrameView>>,
    addr: Seq<char>,
    frame: FrameView,
)
    requires
        channels.dom().finite(),
        channels.contains_key(addr),
    ensures
        frames_in(channels.insert(addr, channels[addr].push(frame))) == frames_in(channels) + 1,
{
    let after = channels.insert(addr, channels[addr].push(frame));
    lemma_frames_in(channels, addr);
    lemma_frames_in(after, addr);
    assert(after.remove(addr) =~= channels.remove(addr));
}

/// A broadcast is as many more frames as deliveries that are counted as sent: none is counted that
/// no channel accepted, and none is accepted that is not counted.
pub proof fn law_broadcast_is_counted_frame_by_frame(
    before: Map<Seq<char>, Seq<FrameView>>,
    after: Map<Seq<char>, Seq<FrameView>>,
    frame: FrameView,
    deliveries: Seq<Delivery>,
)
    requires
        before.dom().finite(),
        delivers(before, after, frame, deliveries),
    ensures
        frames_in(after) == frames_in(before) + sent_count(deliveries),
    decreases deliveries.len(),
{
    if deliveries.len() > 0 {
        let fewer = deliveries.drop_last();
        let last = deliveries.len() - 1;
        let addr = deliveries[last].addr@;
        assert(before.contains_key(addr));
        lemma_frames_in(before, addr);
        lemma_frames_in(after, addr);
        let before_rest = before.remove(addr);
        let after_rest = after.remove(addr);
        assert(after_rest.dom() =~= before_rest.dom());
        assert forall|other: Seq<char>| #[trigger] before_rest.contains_key(other) implies exists|
            i: int,
        |
            0 <= i < fewer.len() && (#[trigger] fewer[i]).addr@ == other by {
            assert(before.contains_key(other));
            let i = choose|i: int|
                0 <= i < deliveries.len() && (#[trigger] deliveries[i]).addr@ == other;
            assert(fewer[i] == deliveries[i]);
        }
        assert forall|i: int| 0 <= i < fewer.len() implies {
            let other = (#[trigger] fewer[i]).addr@;
            &&& before_rest.contains_key(other)
            &&& after_rest[other] == if fewer[i].outcome is Sent {
                before_rest[other].push(frame)
            } else {
                before_rest[other]
            }
        } by {
            assert(fewer[i] == deliveries[i]);
            assert(deliveries[i].addr@ != deliveries[last].addr@);
        }
        law_broadcast_is_counted_frame_by_frame(before_rest, after_rest, frame, fewer);
    }
}

/// After a report the next one is due no sooner than the report interval.
pub proof fn law_reports_keep_their_distance(
    stats: ServerStats,
    now: u64,
    elapsed: u64,
    pending: usize,
    seconds: u64,
    later: u64,
)
    requires
        due(stats.after_report(now, elapsed, pending), true, seconds, later) is Report,
    ensures
        later >= now + REPORT_INTERVAL_NANOS,
        due(stats.after_report(now, elapsed, pending), true, seconds, later) == StatsDue::Report(
            (later - now) as u64,
        ),
{
}

/// The rate of a sample of the stand-alone server is what was counted since the sample before, over
/// the time since then.
pub proof fn law_sample_covers_the_time_between(
    first: server::ServerStats,
    second: server::ServerStats,
    then: u64,
    now: u64,
)
    requires
        second.last_stats_time == first.after_sample(then).last_stats_time,
        second.last_message_count == first.after_sample(then).last_message_count,
        second.start_time is Some,
        second.total_messages >= first.total_messages,
        then < now,
    ensures
        second.after_sample(now).messages_per_second == (Ratio {
            numerator: (second.total_messages - first.total_messages) as u64,
            denominator: (now - then) as u64,
        }),
{
}

/// The sender after the given number of messages.
pub open spec fn after_messages(sender: ThroughputSender, count: nat) -> ThroughputSender
    decreases count,
{
    if count == 0 {
        sender
    } else {
        after_messages(sender, (count - 1) as nat).advanced()
    }
}

/// A connection of the throughput benchmark sends messages numbered from nought, each once, until
/// all are sent.
pub proof fn law_throughput_numbers_in_order(num_messages: u64, delay_ms: u64, count: u64)
    requires
        count <= num_messages,
    ensures
        ({
            let start = ThroughputSender { next_id: 0, num_messages, delay_ms };
            let sender = after_messages(start, count as nat);
            &&& sender == (ThroughputSender { next_id: count, ..start })
            &&& sender.goes_on() <==> count < num_messages
        }),
    decreases count,
{
    if count > 0 {
        law_throughput_numbers_in_order(num_messages, delay_ms, (count - 1) as u64);
    }
}

/// The ramp after the given number of rounds.
pub open spec fn after_rounds(ramp: ConnectionRamp, count: nat) -> ConnectionRamp
    decreases count,
{
    if count == 0 {
        ramp
    } else {
        after_rounds(ramp, (count - 1) as nat).advanced()
    }
}

/// The rounds of the connection benchmark open one step more each time, and there are as many of
/// them as steps fit into the maximum.
pub proof fn law_ramp_climbs_by_steps(max_connections: usize, step: usize, count: nat)
    requires
        (count + 1) * step <= usize::MAX,
    ensures
        after_rounds(ConnectionRamp::at_start(max_connections, step), count).current == (count + 1)
            * step,
        step > 0 ==> (after_rounds(
            ConnectionRamp::at_start(max_connections, step),
            count,
        ).goes_on() <==> count < max_connections as int / step as int),
    decreases count,
{
    lemma_ramp(max_connections, step, count);
    if step > 0 {
        assert((count + 1) * step <= max_connections <==> count < max_connections as int
            / step as int) by (nonlinear_arith)
            requires
                step > 0,
        ;
    }
}

/// The size of a round, and that the settings stay.
proof fn lemma_ramp(max_connections: usize, step: usize, count: nat)
    requires
        (count + 1) * step <= usize::MAX,
    ensures
        after_rounds(ConnectionRamp::at_start(max_connections, step), count) == (ConnectionRamp {
            current: ((count + 1) * step) as usize,
            max_connections,
            step,
        }),
    decreases count,
{
    if count == 0 {
        assert((count + 1) * step == step) by (nonlinear_arith)
            requires
                count == 0,
        ;
    } else {
        assert((count + 1) * step == count * step + step) by (nonlinear_arith);
        assert(count * step >= 0) by (nonlinear_arith);
        lemma_ramp(max_connections, step, (count - 1) as nat);
    }
}

/// Nothing counts as lost when at least as many messages came in as echoes were expected; otherwise
/// the loss is a proper share of what was expected.
pub proof fn law_loss_is_a_share(expected_echo: u64, received: u64)
    ensures
        loss_of(expected_echo, received) is None <==> received >= expected_echo,
        loss_of(expected_echo, received) matches Some(loss) ==> 0 < loss.numerator
            <= loss.denominator && loss.numerator + received == loss.denominator,
{
}

/// The frequency benchmark keeps its frequency: of messages sent one interval apart, all that belong
/// to the time are due within it, and no more than one after them is, as long as the fractions of a
/// nanosecond that the intervals are short of do not add up to a whole interval.
pub proof fn law_frequency_is_kept(frequency: u64, seconds: u64)
    requires
        0 < frequency <= 1000,
    ensures
        ({
            let interval = 1_000_000_000int / frequency as int;
            let short = 1_000_000_000int % frequency as int;
            &&& forall|n: int|
                0 <= n < frequency * seconds ==> #[trigger] (n * interval) < seconds
                    * 1_000_000_000
            &&& (forall|n: int|
                n > frequency * seconds ==> #[trigger] (n * interval) >= seconds * 1_000_000_000)
                <==> seconds * short <= interval
        }),
{
    let interval = 1_000_000_000int / frequency as int;
    let short = 1_000_000_000int % frequency as int;
    let all = frequency * seconds;
    let end = seconds * 1_000_000_000;
    vstd::arithmetic::div_mod::lemma_fundamental_div_mod(1_000_000_000, frequency as int);
    vstd::arithmetic::div_mod::lemma_div_non_zero(1_000_000_000, frequency as int);
    assert(end == all * interval + seconds * short) by (nonlinear_arith)
        requires
            end == seconds * 1_000_000_000,
            all == frequency * seconds,
            1_000_000_000 == frequency * interval + short,
    ;
    assert(seconds * short >= 0) by (nonlinear_arith)
        requires
            short >= 0,
    ;
    assert forall|n: int| 0 <= n < all implies #[trigger] (n * interval) < end by {
        assert(n * interval < all * interval) by (nonlinear_arith)
            requires
                n < all,
                interval > 0,
        ;
    }
    assert((all + 1) * interval == all * interval + interval) by (nonlinear_arith);
    if seconds * short <= interval {
        assert forall|n: int| n > all implies #[trigger] (n * interval) >= end by {
            assert(n * interval >= (all + 1) * interval) by (nonlinear_arith)
                requires
                    n >= all + 1,
                    interval > 0,
            ;
        }
    }
}

} // verus!
