//! What the answers of the servers and of the client say, in terms of what they were asked.
use crate::channel::{Frame, FrameView, SendOutcome};
use crate::client::runs;
use crate::client::runs::{loss_of, successes, ConnectionRamp, FrequencyPlan, ThroughputSender};
use crate::client::stats::{BenchmarkStats, ShardedBenchmarkStats, ShardedBenchmarkStatsView};
use crate::ecs::components as ecs;
use crate::ecs::components::{ConnectionClosed, WebSocketServer};
use crate::ecs::systems::broadcast::{
    attempts, broadcast_of, broadcast_text, sent_count, waits, Broadcast, BroadcastQueue,
    BroadcastReport, BroadcastView,
};
use crate::ecs::systems::connections::{closes, forgets};
use crate::ecs::systems::echo::{
    echo_counted, echo_of, echo_outcome, echoes, responds, EchoOutcome, ReceiveAction,
};
use crate::ecs::systems::statistics::{due, pending_in, StatsDue};
use crate::ecs::systems::tasks;
use crate::ecs::systems::timing;
use crate::ecs::systems::timing::TimedStep;
use crate::message::{before_end, BenchmarkMessage, BenchmarkMessageView, Incoming};
use crate::registry::{
    delivers, measures, redelivers, Connections, Delivery, Room, CHANNEL_BUFFER_SIZE,
};
use crate::server;
use crate::server::{Reply, SendResult, Server};
use crate::session;
use crate::text::{decimal, run_of};
use crate::writer::{ends_writing, next_action, SenderAction, SenderEvent};
use tokio::sync::mpsc::Receiver;
use vstd::arithmetic::power::pow;
use vstd::prelude::*;

verus! {

// Counting

/// The places in a row at which something holds.
pub open spec fn places<T>(row: Seq<T>, holds: spec_fn(T) -> bool) -> Set<int> {
    Set::new(|i: int| 0 <= i < row.len() && holds(row[i]))
}

/// The last place is one more, or none.
proof fn lemma_places<T>(row: Seq<T>, holds: spec_fn(T) -> bool)
    ensures
        places(row, holds).finite(),
        row.len() == 0 ==> places(row, holds).len() == 0,
        row.len() > 0 ==> places(row, holds).len() == places(row.drop_last(), holds).len() + if holds(
            row.last(),
        ) {
            1nat
        } else {
            0
        },
    decreases row.len(),
{
    if row.len() == 0 {
        assert(places(row, holds) =~= Set::empty());
    } else {
        let earlier = row.drop_last();
        let last = row.len() - 1;
        lemma_places(earlier, holds);
        if holds(row.last()) {
            assert(places(row, holds) =~= places(earlier, holds).insert(last));
            assert(!places(earlier, holds).contains(last));
        } else {
            assert(places(row, holds) =~= places(earlier, holds));
        }
    }
}

/// The successful attempts are counted, all of them and no others, whatever stands beside them: one
/// more raises the count by one, and if all succeed the count is their number.
pub proof fn law_successes_are_counted(attempts: Seq<Option<bool>>)
    ensures
        successes(attempts) == places(attempts, |attempt: Option<bool>| attempt == Some(true)).len(),
        successes(attempts) <= attempts.len(),
        successes(attempts.push(Some(true))) == successes(attempts) + 1,
        successes(attempts.push(Some(false))) == successes(attempts),
        successes(attempts.push(None)) == successes(attempts),
        (forall|i: int| 0 <= i < attempts.len() ==> #[trigger] attempts[i] == Some(true))
            ==> successes(attempts) == attempts.len(),
        (forall|i: int| 0 <= i < attempts.len() ==> #[trigger] attempts[i] != Some(true))
            ==> successes(attempts) == 0,
    decreases attempts.len(),
{
    let holds = |attempt: Option<bool>| attempt == Some(true);
    lemma_places(attempts, holds);
    assert(attempts.push(Some(true)).drop_last() =~= attempts);
    assert(attempts.push(Some(false)).drop_last() =~= attempts);
    assert(attempts.push(None).drop_last() =~= attempts);
    if attempts.len() > 0 {
        let earlier = attempts.drop_last();
        law_successes_are_counted(earlier);
        assert(attempts.last() == attempts[attempts.len() - 1]);
        assert(forall|i: int| 0 <= i < earlier.len() ==> #[trigger] earlier[i] == attempts[i]);
    }
}

/// The successes of two rows are those of the first and those of the second.
pub proof fn law_successes_add_up(first: Seq<Option<bool>>, second: Seq<Option<bool>>)
    ensures
        successes(first + second) == successes(first) + successes(second),
    decreases second.len(),
{
    if second.len() == 0 {
        assert(first + second =~= first);
    } else {
        assert((first + second).drop_last() =~= first + second.drop_last());
        law_successes_add_up(first, second.drop_last());
    }
}

/// The deliveries that went through are counted, all of them and no others.
pub proof fn law_deliveries_are_counted(deliveries: Seq<Delivery>)
    ensures
        sent_count(deliveries) == places(
            deliveries,
            |delivery: Delivery| delivery.outcome == SendOutcome::Sent,
        ).len(),
        (forall|i: int|
            0 <= i < deliveries.len() ==> (#[trigger] deliveries[i]).outcome == SendOutcome::Sent)
            ==> sent_count(deliveries) == deliveries.len(),
        (forall|i: int|
            0 <= i < deliveries.len() ==> (#[trigger] deliveries[i]).outcome != SendOutcome::Sent)
            ==> sent_count(deliveries) == 0,
    decreases deliveries.len(),
{
    lemma_places(deliveries, |delivery: Delivery| delivery.outcome == SendOutcome::Sent);
    if deliveries.len() > 0 {
        let earlier = deliveries.drop_last();
        law_deliveries_are_counted(earlier);
        assert(deliveries.last() == deliveries[deliveries.len() - 1]);
        assert(forall|i: int| 0 <= i < earlier.len() ==> #[trigger] earlier[i] == deliveries[i]);
    }
}

/// The deliveries that went through in two rows are those of the first and those of the second.
pub proof fn law_deliveries_add_up(first: Seq<Delivery>, second: Seq<Delivery>)
    ensures
        sent_count(first + second) == sent_count(first) + sent_count(second),
    decreases second.len(),
{
    if second.len() == 0 {
        assert(first + second =~= first);
    } else {
        assert((first + second).drop_last() =~= first + second.drop_last());
        law_deliveries_add_up(first, second.drop_last());
    }
}

/// A report counts as sent what went through and as failed all else.
pub proof fn law_report_counts_both_ways(report: BroadcastReport, deliveries: Seq<Delivery>)
    requires
        report.counts(deliveries),
    ensures
        report.sent == places(
            deliveries,
            |delivery: Delivery| delivery.outcome == SendOutcome::Sent,
        ).len(),
        report.failed == places(
            deliveries,
            |delivery: Delivery| delivery.outcome != SendOutcome::Sent,
        ).len(),
{
    law_deliveries_are_counted(deliveries);
    lemma_both_ways(
        deliveries,
        |delivery: Delivery| delivery.outcome == SendOutcome::Sent,
        |delivery: Delivery| delivery.outcome != SendOutcome::Sent,
    );
}

/// What holds at a place or does not is as much as there are places.
proof fn lemma_both_ways<T>(row: Seq<T>, holds: spec_fn(T) -> bool, fails: spec_fn(T) -> bool)
    requires
        forall|x: T| #[trigger] fails(x) == !holds(x),
    ensures
        places(row, holds).len() + places(row, fails).len() == row.len(),
    decreases row.len(),
{
    lemma_places(row, holds);
    lemma_places(row, fails);
    if row.len() > 0 {
        assert(fails(row.last()) == !holds(row.last()));
        lemma_both_ways(row.drop_last(), holds, fails);
    }
}

/// The frames of a broadcast of the stand-alone server that were taken are counted, all of them and
/// no others.
pub proof fn law_results_are_counted(results: Seq<SendResult>)
    ensures
        server::sent_count(results) == places(
            results,
            |result: SendResult| result == SendResult::Sent,
        ).len(),
        (forall|i: int| 0 <= i < results.len() ==> #[trigger] results[i] == SendResult::Sent)
            ==> server::sent_count(results) == results.len(),
        (forall|i: int| 0 <= i < results.len() ==> #[trigger] results[i] != SendResult::Sent)
            ==> server::sent_count(results) == 0,
    decreases results.len(),
{
    lemma_places(results, |result: SendResult| result == SendResult::Sent);
    if results.len() > 0 {
        let earlier = results.drop_last();
        law_results_are_counted(earlier);
        assert(results.last() == results[results.len() - 1]);
        assert(forall|i: int| 0 <= i < earlier.len() ==> #[trigger] earlier[i] == results[i]);
    }
}

/// The frames taken in two rows are those of the first and those of the second.
pub proof fn law_results_add_up(first: Seq<SendResult>, second: Seq<SendResult>)
    ensures
        server::sent_count(first + second) == server::sent_count(first) + server::sent_count(second),
    decreases second.len(),
{
    if second.len() == 0 {
        assert(first + second =~= first);
    } else {
        assert((first + second).drop_last() =~= first + second.drop_last());
        law_results_add_up(first, second.drop_last());
    }
}

/// The frames that wait in one channel are those that take up its room, and those that wait in
/// several are those of each.
pub proof fn law_pending_frames_add_up(first: Seq<Room>, second: Seq<Room>, room: Room)
    requires
        room.free <= CHANNEL_BUFFER_SIZE,
    ensures
        pending_in(first + second) == pending_in(first) + pending_in(second),
        pending_in(seq![room]) + room.free == CHANNEL_BUFFER_SIZE,
        pending_in(Seq::<Room>::empty()) == 0,
    decreases second.len(),
{
    assert(seq![room].drop_last() =~= Seq::<Room>::empty());
    assert(pending_in(seq![room].drop_last()) == 0);
    assert(seq![room].last() == room);
    if second.len() == 0 {
        assert(first + second =~= first);
    } else {
        assert((first + second).drop_last() =~= first + second.drop_last());
        law_pending_frames_add_up(first, second.drop_last(), room);
    }
}

/// No channel is left out when the rooms are measured.
pub proof fn law_every_channel_is_measured(
    rooms: Seq<Room>,
    channels: Map<Seq<char>, Seq<FrameView>>,
    addr: Seq<char>,
)
    requires
        measures(rooms, channels),
        channels.dom().finite(),
        channels.contains_key(addr),
    ensures
        rooms.len() == channels.len(),
        exists|i: int| 0 <= i < rooms.len() && (#[trigger] rooms[i]).addr@ == addr,
        forall|i: int|
            0 <= i < rooms.len() && (#[trigger] rooms[i]).addr@ == addr ==> rooms[i].free
                <= CHANNEL_BUFFER_SIZE && CHANNEL_BUFFER_SIZE - rooms[i].free
                <= channels[addr].len(),
{
    let addrs = rooms.map_values(|room: Room| room.addr@);
    assert(addrs.no_duplicates());
    addrs.unique_seq_to_set();
    assert(addrs.to_set().subset_of(channels.dom())) by {
        assert forall|a: Seq<char>| addrs.contains(a) implies channels.contains_key(a) by {
            let i = choose|i: int| 0 <= i < addrs.len() && addrs[i] == a;
            assert(rooms[i].addr@ == a);
        }
    }
    vstd::seq_lib::seq_to_set_is_finite(addrs);
    vstd::set_lib::lemma_subset_equality(addrs.to_set(), channels.dom());
    assert(addrs.to_set().contains(addr));
    let i = choose|i: int| 0 <= i < addrs.len() && addrs[i] == addr;
    assert(rooms[i].addr@ == addr);
}

// Text

/// A number in decimal has the digit of each power of ten at its place, no more digits than it needs,
/// and at least one.
pub proof fn law_decimal_has_each_digit_at_its_place(n: nat)
    ensures
        decimal(n).len() >= 1,
        forall|i: int|
            0 <= i < decimal(n).len() ==> (#[trigger] decimal(n)[i]) as int == '0' as int + (n as int
                / pow(10, (decimal(n).len() - 1 - i) as nat)) % 10,
        (n as int) < pow(10, decimal(n).len()),
        decimal(n).len() > 1 ==> n >= pow(10, (decimal(n).len() - 1) as nat),
    decreases n,
{
    reveal(pow);
    let digits = decimal(n);
    vstd::arithmetic::power::lemma_pow0(10);
    vstd::arithmetic::power::lemma_pow1(10);
    if n >= 10 {
        let fewer = decimal(n / 10);
        law_decimal_has_each_digit_at_its_place(n / 10);
        assert(digits == fewer.push(digits.last()));
        let count = fewer.len();
        assert(pow(10, count + 1) == 10 * pow(10, count));
        if count > 1 {
            assert(pow(10, count) == 10 * pow(10, (count - 1) as nat));
        }
        assert forall|i: int| 0 <= i < digits.len() implies (#[trigger] digits[i]) as int
            == '0' as int + (n as int / pow(10, (digits.len() - 1 - i) as nat)) % 10 by {
            if i < count {
                let place = (count - 1 - i) as nat;
                assert(digits[i] == fewer[i]);
                assert(pow(10, place + 1) == 10 * pow(10, place));
                vstd::arithmetic::power::lemma_pow_positive(10, place);
                vstd::arithmetic::div_mod::lemma_div_denominator(n as int, 10, pow(10, place));
            }
        }
    }
}

/// A run is as long as asked for and holds one character only.
pub proof fn law_run_is_one_character(unit: char, count: nat)
    ensures
        run_of(unit, count).len() == count,
        forall|i: int| 0 <= i < count ==> #[trigger] run_of(unit, count)[i] == unit,
{
}

/// The text of a broadcast opens with the time and the number of clients, and goes on, where a size
/// asks for it, with nothing but marked filler.
pub proof fn law_broadcast_text_reads(timestamp: nat, connections: nat, size: nat)
    ensures
        ({
            let opening = "Server broadcast at "@ + decimal(timestamp) + "ms - "@ + decimal(
                connections,
            ) + " connections active - 20Hz FixedUpdate"@;
            let text = broadcast_text(timestamp, connections, size);
            let filler = text.skip(opening.len() as int);
            &&& opening.len() <= text.len()
            &&& text.take(opening.len() as int) == opening
            &&& size <= opening.len() ==> filler.len() == 0
            &&& size > opening.len() ==> {
                &&& filler.len() == if size - opening.len() > 9 {
                    size - opening.len()
                } else {
                    9
                }
                &&& filler.take(8) == " [DUMMY:"@
                &&& forall|i: int| 8 <= i < filler.len() - 1 ==> #[trigger] filler[i] == 'X'
                &&& filler.last() == ']'
            }
        }),
{
    reveal_strlit(" [DUMMY:");
    reveal_strlit("]");
    let opening = "Server broadcast at "@ + decimal(timestamp) + "ms - "@ + decimal(connections)
        + " connections active - 20Hz FixedUpdate"@;
    let text = broadcast_text(timestamp, connections, size);
    let filler = text.skip(opening.len() as int);
    assert(text.take(opening.len() as int) =~= opening);
    if size > opening.len() {
        assert(filler.take(8) =~= " [DUMMY:"@);
        assert(filler.last() == "]"@[0]);
    }
}

// Messages

/// Nothing of a message is lost in what is said of it.
pub proof fn law_messages_are_seen_whole(
    message: BenchmarkMessage,
    traced: ecs::BenchmarkMessage,
    text: String,
    data: Vec<u8>,
)
    ensures
        message@.id == message.id,
        message@.timestamp == message.timestamp,
        message@.payload == message.payload@,
        traced@.id == traced.id,
        traced@.timestamp == traced.timestamp,
        traced@.payload == traced.payload@,
        traced@.message_type is Some <==> traced.message_type is Some,
        traced.message_type matches Some(kind) ==> traced@.message_type == Some(kind@),
        traced@.original_id == traced.original_id,
        traced@.server_timestamp == traced.server_timestamp,
        Frame::Text(text)@ == FrameView::Text(text@),
        Frame::Binary(data)@ == FrameView::Binary(data@),
{
}

/// Nothing of the counters in shares or of a broadcast under way is lost in what is said of them.
pub proof fn law_counters_are_seen_whole(stats: ShardedBenchmarkStats, broadcast: Broadcast)
    ensures
        stats@.messages_sent == stats.messages_sent,
        stats@.messages_received == stats.messages_received,
        stats@.total_latency_ms == stats.total_latency_ms,
        stats@.shards == stats.shards@,
        stats@.global == stats.global,
        broadcast@.frame == broadcast.frame@,
        broadcast@.begun == broadcast.begun,
        broadcast@.deliveries == broadcast.deliveries@,
{
}

/// An echo is made at the server's time, for every time, answers the message it is made for, and
/// holds its whole payload behind a tag with the whole address.
pub proof fn law_echo_tells_what_it_answers(
    request: ecs::BenchmarkMessageView,
    addr: Seq<char>,
    time: u64,
)
    ensures
        ({
            let echo = echo_of(request, addr, time);
            &&& echo.timestamp == time
            &&& echo.server_timestamp == Some(echo.timestamp)
            &&& echo.id == request.id
            &&& echo.original_id == Some(request.id)
            &&& echo.message_type == Some("echo"@)
            &&& echo.payload.len() == 10 + addr.len() + 3 + request.payload.len()
            &&& echo.payload.take(10) == "bevy-echo["@
            &&& echo.payload.skip(10).take(addr.len() as int) == addr
            &&& echo.payload.skip(10 + addr.len() as int).take(3) == "]: "@
            &&& echo.payload.skip(13 + addr.len() as int) == request.payload
        }),
{
    reveal_strlit("bevy-echo[");
    reveal_strlit("]: ");
    let payload = echo_of(request, addr, time).payload;
    assert(payload.take(10) =~= "bevy-echo["@);
    assert(payload.skip(10).take(addr.len() as int) =~= addr);
    assert(payload.skip(10 + addr.len() as int).take(3) =~= "]: "@);
    assert(payload.skip(13 + addr.len() as int) =~= request.payload);
}

/// The payload of a broadcast ends with the whole text that was to be broadcast, behind a tag with
/// its time, so that a text of the size asked for reaches the client at that size. The message is
/// of the server's time and answers no other.
pub proof fn law_broadcast_holds_its_whole_text(id: u64, time: u64, text: Seq<char>)
    ensures
        ({
            let message = broadcast_of(id, time, text);
            let tag = "broadcast["@ + decimal(time as nat) + "]: "@;
            &&& message.payload.len() == tag.len() + text.len()
            &&& message.payload.take(tag.len() as int) == tag
            &&& message.payload.skip(tag.len() as int) == text
            &&& message.id == id
            &&& message.timestamp == time
            &&& message.server_timestamp == Some(time)
            &&& message.message_type == Some("broadcast"@)
            &&& message.original_id is None
        }),
{
    let tag = "broadcast["@ + decimal(time as nat) + "]: "@;
    let message = broadcast_of(id, time, text);
    assert(message.payload.take(tag.len() as int) =~= tag);
    assert(message.payload.skip(tag.len() as int) =~= text);
}

/// A text made for a size reaches the client at that size.
pub proof fn law_broadcast_reaches_its_size(
    id: u64,
    time: u64,
    connections: nat,
    size: nat,
)
    requires
        size >= broadcast_text(time as nat, connections, 0).len() + 9,
    ensures
        broadcast_of(id, time, broadcast_text(time as nat, connections, size)).payload.len()
            == "broadcast["@.len() + decimal(time as nat).len() + "]: "@.len() + size,
{
    law_broadcast_text_reads(time as nat, connections, 0);
    law_broadcast_text_reads(time as nat, connections, size);
    law_broadcast_holds_its_whole_text(
        id,
        time,
        broadcast_text(time as nat, connections, size),
    );
    let opening = "Server broadcast at "@ + decimal(time as nat) + "ms - "@ + decimal(connections)
        + " connections active - 20Hz FixedUpdate"@;
    let small = broadcast_text(time as nat, connections, 0);
    assert(small.skip(opening.len() as int).len() == 0);
}

/// A broadcast is numbered by its time whenever the clock has passed the last number, and by the
/// next number when it has not.
pub proof fn law_broadcast_number_is_its_time(server: WebSocketServer, now: u64)
    ensures
        server.last_broadcast_id is None ==> server.broadcast_id(now) == now,
        server.last_broadcast_id matches Some(last) ==> {
            &&& now > last ==> server.broadcast_id(now) == now
            &&& now <= last < u64::MAX ==> server.broadcast_id(now) == last + 1
        },
{
}

/// An echo of the stand-alone server is made at its time, bears the number of the message that it
/// answers, and holds its whole payload.
pub proof fn law_server_echo_tells_what_it_answers(request: BenchmarkMessageView, time: u64)
    ensures
        ({
            let echo = server::echo_of(request, time);
            &&& echo.id == request.id
            &&& echo.timestamp == time
            &&& echo.payload.len() == 6 + request.payload.len()
            &&& echo.payload.take(6) == "echo: "@
            &&& echo.payload.skip(6) == request.payload
        }),
{
    reveal_strlit("echo: ");
    let payload = server::echo_of(request, time).payload;
    assert(payload.take(6) =~= "echo: "@);
    assert(payload.skip(6) =~= request.payload);
}

/// A broadcast of the stand-alone server bears its number and its time, and says its number, the
/// frequency and how many clients there are.
pub proof fn law_server_broadcast_says_its_number(
    count: u64,
    frequency: u64,
    connections: nat,
    time: u64,
)
    ensures
        ({
            let message = server::broadcast_of(count, frequency, connections, time);
            &&& message.id == count
            &&& message.timestamp == time
            &&& message.payload == "Server broadcast #"@ + decimal(count as nat) + " at "@
                + decimal(frequency as nat) + "Hz - "@ + decimal(connections)
                + " connections active"@
        }),
{
}

// What comes in, and what is done about it

/// A connection ends when the client closes it or reading fails, and at nothing else that comes in;
/// the end of what comes in ends it, too.
pub proof fn law_what_ends_a_connection<M>(
    incoming: Incoming<M>,
    traced: Option<Incoming<ecs::BenchmarkMessage>>,
    plain: Option<Incoming<BenchmarkMessage>>,
)
    ensures
        incoming.ends() <==> (incoming is Close || incoming is Failed),
        tasks::ends_reading(traced) <==> (traced is None || traced->0 is Close || traced->0
            is Failed),
        session::ends_reading(plain) <==> (plain is None || plain->0 is Close || plain->0 is Failed),
{
}

/// What is before the end is a run of frames from the first on, none of which ends the connection,
/// and the next one, if there is one, does.
pub proof fn law_before_the_end<M>(frames: Seq<Incoming<M>>)
    ensures
        ({
            let count = before_end(frames).len() as int;
            &&& count <= frames.len()
            &&& before_end(frames) == frames.take(count)
            &&& forall|i: int|
                0 <= i < count ==> !((#[trigger] frames[i]) is Close || frames[i] is Failed)
            &&& count < frames.len() ==> frames[count] is Close || frames[count] is Failed
        }),
    decreases frames.len(),
{
    if frames.len() > 0 && !frames[0].ends() {
        let rest = frames.drop_first();
        law_before_the_end(rest);
        let count = before_end(rest).len() as int;
        assert(before_end(frames) =~= frames.take(count + 1));
        assert forall|i: int| 0 <= i < count + 1 implies !((#[trigger] frames[i]) is Close
            || frames[i] is Failed) by {
            if i > 0 {
                assert(rest[i - 1] == frames[i]);
            }
        }
        if count + 1 < frames.len() {
            assert(rest[count] == frames[count + 1]);
        }
    } else {
        assert(before_end(frames) =~= frames.take(0));
    }
}

/// A message is answered, text that holds none is reported, a close or a failure stops the reader,
/// and everything else is passed over.
pub proof fn law_reader_answers_messages_only(
    incoming: Incoming<ecs::BenchmarkMessage>,
    addr: Seq<char>,
    time: u64,
    action: ReceiveAction,
)
    requires
        responds(incoming, addr, time, action),
    ensures
        action is Respond <==> incoming is Message,
        action is ReportUnreadable <==> incoming is Unreadable,
        action is Stop <==> (incoming is Close || incoming is Failed),
        action is Continue <==> (incoming is Binary || incoming is Other),
        incoming matches Incoming::Message(request) ==> (action matches ReceiveAction::Respond(
            response,
        ) && {
            &&& response.id == request.id
            &&& response.original_id == Some(request.id)
            &&& response.timestamp == time
            &&& response.server_timestamp == Some(time)
            &&& response.payload@ == "bevy-echo["@ + addr + "]: "@ + request.payload@
        }),
{
}

/// The stand-alone server counts every text and every binary frame, answers messages and binary
/// frames, stops at a close or a failure, and touches nothing else.
pub proof fn law_server_answers_what_it_counts(
    before: Server,
    after: Server,
    incoming: Incoming<BenchmarkMessage>,
    time: u64,
    reply: Reply,
)
    requires
        server::receives(before, after, incoming, time, reply),
        before.stats.total_messages < u64::MAX,
    ensures
        after.stats.total_messages == before.stats.total_messages + if incoming is Message
            || incoming is Unreadable || incoming is Binary {
            1int
        } else {
            0
        },
        after.connections == before.connections,
        after.stats.connections == before.stats.connections,
        after.stats.dropped_messages == before.stats.dropped_messages,
        after.stats.slow_connections == before.stats.slow_connections,
        after.stats.messages_per_second == before.stats.messages_per_second,
        after.stats.start_time == before.stats.start_time,
        after.stats.last_stats_time == before.stats.last_stats_time,
        after.stats.last_message_count == before.stats.last_message_count,
        reply is Message <==> incoming is Message,
        reply is Binary <==> incoming is Binary,
        reply is Stop <==> (incoming is Close || incoming is Failed),
        reply is Nothing <==> (incoming is Unreadable || incoming is Other),
        incoming matches Incoming::Message(request) ==> (reply matches Reply::Message(response) && {
            &&& response.id == request.id
            &&& response.timestamp == time
            &&& response.payload@ == "echo: "@ + request.payload@
        }),
        incoming matches Incoming::Binary(data) ==> (reply matches Reply::Binary(back) && back@
            == data@),
{
}

/// What a session reads is what its server receives; the end of what comes in stops the reader and
/// counts nothing.
pub proof fn law_session_reads_what_its_server_receives(
    before: Server,
    after: Server,
    incoming: Incoming<BenchmarkMessage>,
    time: u64,
    reply: Reply,
)
    ensures
        session::reads(before, after, Some(incoming), time, reply) <==> server::receives(
            before,
            after,
            incoming,
            time,
            reply,
        ),
        session::reads(before, after, None, time, reply) <==> after == before && reply is Stop,
{
}

/// The connection is forgotten with the first of its two tasks that stops. A step that stops none,
/// or comes after that, forgets nothing.
pub proof fn law_first_stop_forgets(
    tasks: (tasks::ConnectionTasks, tasks::ConnectionTasks),
    servers: (WebSocketServer, WebSocketServer),
    sessions: (session::Session, session::Session),
    plain: (Server, Server),
    over: bool,
)
    ensures
        tasks.0.steps(tasks.1, servers.0, servers.1, over) ==> {
            &&& tasks.1.addr@ == tasks.0.addr@
            &&& tasks.1.stopped <==> tasks.0.stopped || over
            &&& over && !tasks.0.stopped ==> servers.1.connections@
                == servers.0.connections@.remove(tasks.0.addr@) && servers.1.stats.connections
                == servers.1.connections@.len()
            &&& !over || tasks.0.stopped ==> servers.1 == servers.0
        },
        sessions.0.steps(sessions.1, plain.0, plain.1, over) ==> {
            &&& sessions.1.addr@ == sessions.0.addr@
            &&& sessions.1.stopped <==> sessions.0.stopped || over
            &&& over && !sessions.0.stopped ==> plain.1.connections@ == plain.0.connections@.remove(
                sessions.0.addr@,
            ) && plain.1.stats.connections == plain.1.connections@.len()
            &&& !over || sessions.0.stopped ==> plain.1 == plain.0
        },
{
}

/// The writer writes what it is handed, waits after a write that went through, and stops after one
/// that did not and when no more frames come.
pub proof fn law_writer_does_what_it_sees(event: SenderEvent)
    ensures
        event matches SenderEvent::Frame(frame) ==> next_action(event) == SenderAction::Write(frame),
        event is Written <==> next_action(event) is Wait,
        (event is WriteFailed || event is ChannelClosed) <==> next_action(event) is Stop,
        ends_writing(event) <==> next_action(event) is Stop,
{
}

// Counters of the server on the entity component system

/// A server that has just started has counted nothing and knows no times.
pub proof fn law_counting_starts_at_nought()
    ensures
        ({
            let stats = ecs::ServerStats::zero();
            &&& stats.connections == 0
            &&& stats.total_messages == 0
            &&& stats.dropped_messages == 0
            &&& stats.slow_connections == 0
            &&& stats.total_pending_messages == 0
            &&& stats.max_pending_messages == 0
            &&& stats.last_message_count == 0
            &&& stats.messages_per_second.numerator == 0
            &&& stats.messages_per_second.denominator > 0
            &&& stats.start_time is None
            &&& stats.last_stats_time is None
        }),
        ({
            let stats = server::ServerStats::zero();
            &&& stats.connections == 0
            &&& stats.total_messages == 0
            &&& stats.dropped_messages == 0
            &&& stats.slow_connections == 0
            &&& stats.last_message_count == 0
            &&& stats.messages_per_second.numerator == 0
            &&& stats.messages_per_second.denominator > 0
            &&& stats.start_time is None
            &&& stats.last_stats_time is None
        }),
        ({
            let stats = BenchmarkStats::zero();
            &&& stats.messages_sent == 0
            &&& stats.messages_received == 0
            &&& stats.total_latency_ms == 0
            &&& stats.min_latency_ms == 0
            &&& stats.max_latency_ms == 0
            &&& stats.start_time is None
            &&& stats.end_time is None
        }),
        ({
            let stats = ShardedBenchmarkStatsView::zero();
            &&& stats.messages_sent == 0
            &&& stats.messages_received == 0
            &&& stats.total_latency_ms == 0
            &&& stats.shards.len() == 4
            &&& stats.global.start_time is None
            &&& stats.global.end_time is None
        }),
{
}

/// The counters that have to do with neither times nor frames that wait are the same.
pub open spec fn same_rest(before: ecs::ServerStats, after: ecs::ServerStats) -> bool {
    &&& after.connections == before.connections
    &&& after.start_time == before.start_time
    &&& after.last_stats_time == before.last_stats_time
    &&& after.messages_per_second == before.messages_per_second
    &&& after.last_message_count == before.last_message_count
}

/// A reply that went into its channel is one more message, and what waits there is noted; one that
/// was dropped is one more dropped and one more slow client; one that waits on, found no one or found
/// the channel closed is not counted.
pub proof fn law_reply_moves_one_counter(
    stats: ecs::ServerStats,
    outcome: SendOutcome,
    room: usize,
    waited_ms: u64,
)
    requires
        room <= CHANNEL_BUFFER_SIZE,
        stats.total_messages < u64::MAX,
        stats.dropped_messages < u64::MAX,
        stats.slow_connections < u64::MAX,
    ensures
        ({
            let result = echo_outcome(outcome, waited_ms);
            let after = echo_counted(stats, result, room);
            let waiting = CHANNEL_BUFFER_SIZE - room;
            &&& same_rest(stats, after)
            &&& result is Sent <==> outcome is Sent
            &&& result is ChannelClosed <==> outcome is Closed
            &&& result is Waiting <==> outcome is Full && waited_ms < 5
            &&& result is Dropped <==> outcome is Full && waited_ms >= 5
            &&& after.total_messages == stats.total_messages + if outcome is Sent {
                1int
            } else {
                0
            }
            &&& after.dropped_messages == stats.dropped_messages + if outcome is Full && waited_ms
                >= 5 {
                1int
            } else {
                0
            }
            &&& after.slow_connections - stats.slow_connections == after.dropped_messages
                - stats.dropped_messages
            &&& after.total_pending_messages == if outcome is Sent {
                waiting
            } else {
                stats.total_pending_messages as int
            }
            &&& after.max_pending_messages == if outcome is Sent && waiting
                > stats.max_pending_messages {
                waiting
            } else {
                stats.max_pending_messages as int
            }
        }),
{
}

/// The same of the outcomes that no channel decides: nothing is counted.
pub proof fn law_reply_without_a_channel_is_not_counted(stats: ecs::ServerStats, room: usize)
    ensures
        echo_counted(stats, EchoOutcome::NotSerialized, room) == stats,
        echo_counted(stats, EchoOutcome::NotConnected, room) == stats,
        echo_counted(stats, EchoOutcome::Waiting, room) == stats,
        echo_counted(stats, EchoOutcome::ChannelClosed, room) == stats,
{
}

/// An attempt at a reply puts the whole reply at the end of its client's channel and is counted, or
/// changes no channel at all. Who is connected stays, and so does where each channel leads.
pub proof fn law_reply_goes_to_its_client(
    before: WebSocketServer,
    after: WebSocketServer,
    addr: Seq<char>,
    text: String,
    waited_ms: u64,
    result: EchoOutcome,
)
    requires
        echoes(before, after, addr, Some(text), waited_ms, result),
        before.stats.total_messages < u64::MAX,
        before.stats.dropped_messages < u64::MAX,
        before.stats.slow_connections < u64::MAX,
    ensures
        result !is NotSerialized,
        result is NotConnected <==> !before.connections@.contains_key(addr),
        after.connections@.dom() == before.connections@.dom(),
        forall|other: Seq<char>| #[trigger]
            before.connections@.contains_key(other) && (other != addr || result !is Sent)
                ==> after.connections@[other] == before.connections@[other],
        result is Sent ==> after.connections@[addr] == before.connections@[addr].push(
            FrameView::Text(text@),
        ),
        result is Waiting ==> waited_ms < 5 && before.connections@[addr].len()
            >= CHANNEL_BUFFER_SIZE,
        result is Dropped ==> waited_ms >= 5 && before.connections@[addr].len()
            >= CHANNEL_BUFFER_SIZE,
        after.stats.total_messages == before.stats.total_messages + if result is Sent {
            1int
        } else {
            0
        },
        after.stats.dropped_messages == before.stats.dropped_messages + if result is Dropped {
            1int
        } else {
            0
        },
        after.stats.slow_connections == before.stats.slow_connections + if result is Dropped {
            1int
        } else {
            0
        },
        result is Sent ==> after.stats.total_pending_messages <= CHANNEL_BUFFER_SIZE
            && after.stats.total_pending_messages <= before.connections@[addr].len() + 1,
        forall|other: Seq<char>, receiver: Receiver<Frame>|
            before.connections@.contains_key(other) ==> (#[trigger] crate::channel::feeds(
                after.connections.channel_of(other),
                receiver,
            ) <==> crate::channel::feeds(before.connections.channel_of(other), receiver)),
        after.listener == before.listener,
        after.last_broadcast_id == before.last_broadcast_id,
{
    assert(after.connections@.dom() =~= before.connections@.dom());
}

/// A broadcast moves the counters of messages sent and dropped by what was sent and what failed, and
/// no other.
pub proof fn law_broadcast_moves_two_counters(stats: ecs::ServerStats, sent: u64, failed: u64)
    requires
        stats.total_messages + sent <= u64::MAX,
        stats.dropped_messages + failed <= u64::MAX,
    ensures
        ({
            let after = stats.after_broadcast(sent, failed);
            &&& same_rest(stats, after)
            &&& after.total_messages == stats.total_messages + sent
            &&& after.dropped_messages == stats.dropped_messages + failed
            &&& after.slow_connections == stats.slow_connections
            &&& after.total_pending_messages == stats.total_pending_messages
            &&& after.max_pending_messages == stats.max_pending_messages
        }),
{
}

/// A delivery to everyone names each client once, and each channel takes the whole frame at its end
/// or stays as it was, as is said of it.
pub proof fn law_delivery_reaches_everyone(
    before: Map<Seq<char>, Seq<FrameView>>,
    after: Map<Seq<char>, Seq<FrameView>>,
    frame: FrameView,
    deliveries: Seq<Delivery>,
    addr: Seq<char>,
)
    requires
        delivers(before, after, frame, deliveries),
        before.contains_key(addr),
    ensures
        deliveries.len() == before.len(),
        after.contains_key(addr),
        exists|i: int|
            0 <= i < deliveries.len() && (#[trigger] deliveries[i]).addr@ == addr && (after[addr]
                == if deliveries[i].outcome == SendOutcome::Sent {
                before[addr].push(frame)
            } else {
                before[addr]
            }) && (deliveries[i].outcome == SendOutcome::Full ==> before[addr].len()
                >= CHANNEL_BUFFER_SIZE),
        forall|i: int, j: int|
            0 <= i < j < deliveries.len() ==> deliveries[i].addr@ != deliveries[j].addr@,
        forall|i: int|
            0 <= i < deliveries.len() ==> before.contains_key((#[trigger] deliveries[i]).addr@),
{
    assert(before.dom().contains(addr));
    let i = choose|i: int| 0 <= i < deliveries.len() && (#[trigger] deliveries[i]).addr@ == addr;
    assert(deliveries[i].addr@ == addr);
}

/// Trying again leaves alone what is settled, and what is tried again goes in whole or not at all.
pub proof fn law_retry_touches_full_channels_only(
    before: Map<Seq<char>, Seq<FrameView>>,
    after: Map<Seq<char>, Seq<FrameView>>,
    frame: FrameView,
    earlier: Seq<Delivery>,
    later: Seq<Delivery>,
    i: int,
)
    requires
        redelivers(before, after, frame, earlier, later),
        0 <= i < earlier.len(),
    ensures
        later.len() == earlier.len(),
        after.dom() == before.dom(),
        later[i].addr@ == earlier[i].addr@,
        earlier[i].outcome != SendOutcome::Full ==> later[i].outcome == earlier[i].outcome,
        before.contains_key(earlier[i].addr@) ==> after[earlier[i].addr@] == if earlier[i].outcome
            == SendOutcome::Full && later[i].outcome == SendOutcome::Sent {
            before[earlier[i].addr@].push(frame)
        } else {
            before[earlier[i].addr@]
        },
        earlier[i].outcome == SendOutcome::Full && !before.contains_key(earlier[i].addr@)
            ==> later[i].outcome == SendOutcome::Closed,
        forall|addr: Seq<char>| #[trigger]
            before.contains_key(addr) && (forall|k: int|
                0 <= k < earlier.len() ==> (#[trigger] earlier[k]).addr@ != addr) ==> after[addr]
                == before[addr],
{
    assert(later[i].addr@ == earlier[i].addr@);
}

/// A broadcast is settled when no channel is full or it has waited long enough, and only then is it
/// counted; it carries the same frame all along.
pub proof fn law_broadcast_is_settled_in_time(
    before: WebSocketServer,
    after: WebSocketServer,
    earlier: BroadcastView,
    later: BroadcastView,
    waited_ms: u64,
    report: Option<BroadcastReport>,
)
    requires
        attempts(before, after, earlier, later, waited_ms, report),
        before.stats.total_messages + later.deliveries.len() <= u64::MAX,
        before.stats.dropped_messages + later.deliveries.len() <= u64::MAX,
    ensures
        report is None <==> waited_ms < 5 && exists|i: int|
            0 <= i < later.deliveries.len() && (#[trigger] later.deliveries[i]).outcome
                == SendOutcome::Full,
        later.frame == earlier.frame,
        report is None ==> after.stats == before.stats,
        report matches Some(report) ==> {
            &&& report.sent == places(
                later.deliveries,
                |delivery: Delivery| delivery.outcome == SendOutcome::Sent,
            ).len()
            &&& report.sent + report.failed == later.deliveries.len()
            &&& after.stats.total_messages == before.stats.total_messages + report.sent
            &&& after.stats.dropped_messages == before.stats.dropped_messages + report.failed
            &&& after.stats.slow_connections == before.stats.slow_connections
            &&& same_rest(before.stats, after.stats)
        },
        !earlier.begun ==> delivers(
            before.connections@,
            after.connections@,
            earlier.frame,
            later.deliveries,
        ),
        earlier.begun ==> redelivers(
            before.connections@,
            after.connections@,
            earlier.frame,
            earlier.deliveries,
            later.deliveries,
        ),
        after.connections@.dom() == before.connections@.dom(),
        after.listener == before.listener,
        after.last_broadcast_id == before.last_broadcast_id,
{
    law_deliveries_are_counted(later.deliveries);
    assert(waits(later.deliveries) <==> exists|i: int|
        0 <= i < later.deliveries.len() && (#[trigger] later.deliveries[i]).outcome
            == SendOutcome::Full);
}

/// Broadcasts take their turns in the order in which they were made: the one under way first, then
/// the first of the texts, whole.
pub proof fn law_broadcasts_take_turns(queue: BroadcastQueue)
    ensures
        queue.under_way matches Some(broadcast) ==> {
            &&& queue.turn() == Some(broadcast@)
            &&& queue.rest() == queue.texts@
        },
        queue.under_way is None && queue.texts@.len() == 0 ==> queue.turn() is None,
        queue.under_way is None && queue.texts@.len() > 0 ==> {
            &&& queue.texts@ == seq![queue.texts@[0]] + queue.rest()
            &&& queue.turn() is Some <==> queue.texts@[0] is Some
            &&& queue.texts@[0] matches Some(text) ==> {
                &&& queue.turn()->0.frame == FrameView::Text(text@)
                &&& !queue.turn()->0.begun
                &&& queue.turn()->0.deliveries.len() == 0
            }
        },
{
    if queue.under_way is None && queue.texts@.len() > 0 {
        assert(queue.texts@ =~= seq![queue.texts@[0]] + queue.rest());
    }
}

// Clients that come and go

/// Forgetting a connection forgets that one and no other, and counts the rest; no other counter
/// moves.
pub proof fn law_forgetting_leaves_the_rest(
    before: WebSocketServer,
    after: WebSocketServer,
    addr: Seq<char>,
)
    requires
        forgets(before, after, addr),
    ensures
        !after.connections@.contains_key(addr),
        forall|other: Seq<char>|
            other != addr ==> (#[trigger] after.connections@.contains_key(other)
                <==> before.connections@.contains_key(other)),
        forall|other: Seq<char>| #[trigger]
            after.connections@.contains_key(other) ==> after.connections@[other]
                == before.connections@[other],
        after.stats.connections == after.connections@.len(),
        after.stats.total_messages == before.stats.total_messages,
        after.stats.dropped_messages == before.stats.dropped_messages,
        after.stats.slow_connections == before.stats.slow_connections,
        after.stats.total_pending_messages == before.stats.total_pending_messages,
        after.stats.max_pending_messages == before.stats.max_pending_messages,
        after.stats.start_time == before.stats.start_time,
        after.stats.last_stats_time == before.stats.last_stats_time,
        after.stats.messages_per_second == before.stats.messages_per_second,
        after.stats.last_message_count == before.stats.last_message_count,
        after.listener == before.listener,
        after.last_broadcast_id == before.last_broadcast_id,
{
}

/// The same of the stand-alone server.
pub proof fn law_server_forgetting_leaves_the_rest(before: Server, after: Server, addr: Seq<char>)
    requires
        server::forgets(before, after, addr),
    ensures
        !after.connections@.contains_key(addr),
        forall|other: Seq<char>|
            other != addr ==> (#[trigger] after.connections@.contains_key(other)
                <==> before.connections@.contains_key(other)),
        forall|other: Seq<char>| #[trigger]
            after.connections@.contains_key(other) ==> after.connections@[other]
                == before.connections@[other],
        after.stats.connections == after.connections@.len(),
        after.stats.total_messages == before.stats.total_messages,
        after.stats.dropped_messages == before.stats.dropped_messages,
        after.stats.slow_connections == before.stats.slow_connections,
        after.stats.start_time == before.stats.start_time,
        after.stats.last_stats_time == before.stats.last_stats_time,
        after.stats.messages_per_second == before.stats.messages_per_second,
        after.stats.last_message_count == before.stats.last_message_count,
{
}

/// Events close exactly the connections that they name, whichever of them does.
pub proof fn law_each_event_closes_its_connection(
    first: Seq<ConnectionClosed>,
    second: Seq<ConnectionClosed>,
    event: ConnectionClosed,
    addr: Seq<char>,
)
    ensures
        closes(seq![event], addr) <==> event.addr@ == addr,
        closes(first + second, addr) <==> closes(first, addr) || closes(second, addr),
        !closes(Seq::<ConnectionClosed>::empty(), addr),
{
    assert(seq![event][0] == event);
    let both = first + second;
    if closes(first, addr) {
        let i = choose|i: int| 0 <= i < first.len() && (#[trigger] first[i]).addr@ == addr;
        assert(both[i].addr@ == addr);
    }
    if closes(second, addr) {
        let i = choose|i: int| 0 <= i < second.len() && (#[trigger] second[i]).addr@ == addr;
        assert(both[first.len() + i].addr@ == addr);
    }
    if closes(both, addr) {
        let i = choose|i: int| 0 <= i < both.len() && (#[trigger] both[i]).addr@ == addr;
        if i < first.len() {
            assert(first[i].addr@ == addr);
        } else {
            assert(second[i - first.len()].addr@ == addr);
        }
    }
}

/// Channels that are the same hold the same frames and lead to the same place.
pub proof fn law_same_channels_hold_the_same(one: Connections, other: Connections, addr: Seq<char>)
    requires
        one@.contains_key(addr),
    ensures
        one.same_channels(other) ==> other@.contains_key(addr) && one@[addr] == other@[addr]
            && one.channel_of(addr) == other.channel_of(addr),
        one.same_receivers(other) ==> other@.contains_key(addr) && forall|receiver: Receiver<Frame>|
         #[trigger]
            crate::channel::feeds(one.channel_of(addr), receiver) <==> crate::channel::feeds(
                other.channel_of(addr),
                receiver,
            ),
{
    if one.same_receivers(other) {
        assert(one@.dom().contains(addr));
    }
}

/// The first client of the stand-alone server sets the times from which it counts; a later one sets
/// none. No other counter moves.
pub proof fn law_first_client_starts_the_clock(
    stats: server::ServerStats,
    connections: usize,
    now: u64,
)
    ensures
        ({
            let after = stats.after_connect(connections, now);
            &&& after.connections == connections
            &&& stats.start_time is None ==> after.start_time == Some(now)
                && after.last_stats_time == Some(now)
            &&& stats.start_time is Some ==> after.start_time == stats.start_time
                && after.last_stats_time == stats.last_stats_time
            &&& after.total_messages == stats.total_messages
            &&& after.dropped_messages == stats.dropped_messages
            &&& after.slow_connections == stats.slow_connections
            &&& after.messages_per_second == stats.messages_per_second
            &&& after.last_message_count == stats.last_message_count
        }),
{
}

// Reports

/// A report says how many clients are connected, how many messages there were, what waits now and the
/// most that ever waited, and the rate since the report before: the messages since then over the time
/// since then.
pub proof fn law_report_tells_what_there_is(
    stats: ecs::ServerStats,
    now: u64,
    elapsed: u64,
    pending: usize,
    connections: usize,
)
    requires
        stats.last_message_count <= stats.total_messages,
    ensures
        ({
            let after = stats.after_report(now, elapsed, pending);
            let report = after.reported(connections);
            &&& report.pending == pending
            &&& report.max_pending == if pending > stats.max_pending_messages {
                pending
            } else {
                stats.max_pending_messages
            }
            &&& report.connections == connections
            &&& report.total_messages == stats.total_messages
            &&& report.dropped_messages == stats.dropped_messages
            &&& report.slow_connections == stats.slow_connections
            &&& report.messages_per_second.numerator + stats.last_message_count
                == stats.total_messages
            &&& report.messages_per_second.denominator == elapsed
            &&& after.messages_per_second == report.messages_per_second
            &&& after.total_pending_messages == pending
            &&& after.max_pending_messages == report.max_pending
            &&& after.last_stats_time == Some(now)
            &&& after.last_message_count == stats.total_messages
            &&& after.start_time == stats.start_time
            &&& after.connections == stats.connections
            &&& after.total_messages == stats.total_messages
            &&& after.dropped_messages == stats.dropped_messages
            &&& after.slow_connections == stats.slow_connections
        }),
{
}

/// Noting what waits changes what waits now to that, and the peak only where it is passed.
pub proof fn law_noting_what_waits(stats: ecs::ServerStats, pending: usize)
    ensures
        ({
            let after = stats.with_pending(pending);
            &&& after.total_pending_messages == pending
            &&& after.max_pending_messages >= pending
            &&& after.max_pending_messages >= stats.max_pending_messages
            &&& after.max_pending_messages == pending || after.max_pending_messages
                == stats.max_pending_messages
            &&& same_rest(stats, after)
            &&& after.total_messages == stats.total_messages
            &&& after.dropped_messages == stats.dropped_messages
            &&& after.slow_connections == stats.slow_connections
        }),
{
}

/// Statistics are looked at in every fifth second only, when they are asked for. The first look
/// starts the count; later ones report when four and a half seconds have passed, on the time that
/// has.
pub proof fn law_when_a_report_is_due(
    stats: ecs::ServerStats,
    enabled: bool,
    seconds: u64,
    now: u64,
)
    ensures
        ({
            let looked_at = enabled && seconds % 5 == 0;
            let what = due(stats, enabled, seconds, now);
            &&& what is Start <==> looked_at && stats.start_time is None
            &&& what is Report <==> looked_at && stats.start_time is Some && (stats.last_stats_time
                matches Some(last) && now >= last + 4_500_000_000)
            &&& what matches StatsDue::Report(elapsed) ==> (stats.last_stats_time matches Some(last)
                && last + elapsed == now)
        }),
{
}

/// A sample of the stand-alone server notes its time and the count. Where time has passed since the
/// one before, the rate is the messages since then over that time; where none has, it stays.
pub proof fn law_sample_notes_the_rate(stats: server::ServerStats, now: u64)
    requires
        stats.last_message_count <= stats.total_messages,
    ensures
        ({
            let after = stats.after_sample(now);
            &&& after.last_stats_time == Some(now)
            &&& after.last_message_count == stats.total_messages
            &&& after.total_messages == stats.total_messages
            &&& after.connections == stats.connections
            &&& after.dropped_messages == stats.dropped_messages
            &&& after.slow_connections == stats.slow_connections
            &&& after.start_time == stats.start_time
            &&& stats.start_time is Some ==> (stats.last_stats_time matches Some(last) ==> now > last
                ==> {
                &&& after.messages_per_second.numerator + stats.last_message_count
                    == stats.total_messages
                &&& after.messages_per_second.denominator + last == now
            })
            &&& (stats.start_time is None || stats.last_stats_time is None
                || stats.last_stats_time->0 >= now) ==> after.messages_per_second
                == stats.messages_per_second
        }),
{
}

/// A step is slow after a hundredth of a second, but a handshake and a broadcast only after a tenth
/// and the whole set-up only after a twentieth.
pub proof fn law_what_is_slow(step: TimedStep)
    ensures
        step is Handshake || step is Broadcast ==> step.limit() == 100,
        step is Setup ==> step.limit() == 50,
        step !is Handshake && step !is Broadcast && step !is Setup ==> step.limit() == 10,
{
}

// The client

/// The throughput times the time taken is the number of messages received, for every time taken; a
/// benchmark that is not over or took no time has none.
pub proof fn law_throughput_times_time_is_messages(stats: BenchmarkStats)
    ensures
        (stats.start_time is Some && stats.end_time is Some && stats.start_time->0
            < stats.end_time->0) <==> stats.throughput() is Some,
        stats.throughput() matches Some(rate) ==> {
            &&& rate.denominator > 0
            &&& rate.numerator * (stats.end_time->0 - stats.start_time->0)
                == stats.messages_received * rate.denominator
        },
{
}

/// The mean latency times the number of messages received is the sum of the latencies; without
/// messages there is none.
pub proof fn law_mean_times_messages_is_the_sum(stats: BenchmarkStats)
    ensures
        stats.average_latency() is Some <==> stats.messages_received > 0,
        stats.average_latency() matches Some(mean) ==> {
            &&& mean.denominator > 0
            &&& mean.numerator * stats.messages_received == stats.total_latency_ms
                * mean.denominator
        },
{
}

/// A reply is one more message received and adds its latency to the sum. It moves the least and the
/// greatest latency only where it passes them, and nothing else.
pub proof fn law_reply_is_one_more_latency(stats: BenchmarkStats, latency: u64)
    requires
        stats.total_latency_ms + latency <= u64::MAX,
        stats.messages_received < u64::MAX,
    ensures
        ({
            let after = stats.after_reply(latency);
            &&& after.messages_received == stats.messages_received + 1
            &&& after.total_latency_ms == stats.total_latency_ms + latency
            &&& after.min_latency_ms <= latency
            &&& after.min_latency_ms == latency || after.min_latency_ms == stats.min_latency_ms
            &&& stats.min_latency_ms > 0 ==> after.min_latency_ms <= stats.min_latency_ms
            &&& stats.min_latency_ms == 0 ==> after.min_latency_ms == latency
            &&& after.max_latency_ms >= latency
            &&& after.max_latency_ms >= stats.max_latency_ms
            &&& after.max_latency_ms == latency || after.max_latency_ms == stats.max_latency_ms
            &&& after.messages_sent == stats.messages_sent
            &&& after.start_time == stats.start_time
            &&& after.end_time == stats.end_time
            &&& stats.after_latency(latency) == (BenchmarkStats {
                messages_received: stats.messages_received,
                ..after
            })
        }),
{
}

/// The same in shares: a reply is one more message received and adds its latency to the sum, and the
/// extremes of one share move as those of the whole would.
pub proof fn law_reply_in_shares_is_one_more_latency(
    stats: ShardedBenchmarkStatsView,
    latency: u64,
    connection: usize,
)
    requires
        stats.shards.len() == 4,
        stats.total_latency_ms + latency <= u64::MAX,
        stats.messages_received < u64::MAX,
    ensures
        ({
            let after = stats.after_reply(latency, connection);
            &&& after.messages_received == stats.messages_received + 1
            &&& after.total_latency_ms == stats.total_latency_ms + latency
            &&& after.messages_sent == stats.messages_sent
            &&& after.global == stats.global
            &&& after.shards.len() == 4
            &&& exists|s: int|
                0 <= s < 4 && {
                    let before = stats.shards[s];
                    let now = #[trigger] after.shards[s];
                    &&& now.min_latency_ms == if before.min_latency_ms == 0 || latency
                        < before.min_latency_ms {
                        latency
                    } else {
                        before.min_latency_ms
                    }
                    &&& now.max_latency_ms == if latency > before.max_latency_ms {
                        latency
                    } else {
                        before.max_latency_ms
                    }
                    &&& forall|t: int|
                        0 <= t < 4 && t != s ==> #[trigger] after.shards[t] == stats.shards[t]
                }
            &&& stats.after_latency(latency, connection) == (ShardedBenchmarkStatsView {
                messages_received: stats.messages_received,
                ..after
            })
        }),
{
    let s = connection as int % 4;
    let after = stats.after_reply(latency, connection);
    assert(after.shards[s] == stats.shards[s].after_latency(latency));
}

/// Brought together, the shares say how many messages were sent and received, the sum of the
/// latencies and when the benchmark ran. The greatest latency is that of some share and of none
/// less; the least is that of the share with the least but nought, or nought.
pub proof fn law_shares_are_brought_together(stats: ShardedBenchmarkStatsView)
    requires
        stats.shards.len() == 4,
    ensures
        ({
            let whole = stats.merged();
            &&& whole.messages_sent == stats.messages_sent
            &&& whole.messages_received == stats.messages_received
            &&& whole.total_latency_ms == stats.total_latency_ms
            &&& whole.start_time == stats.global.start_time
            &&& whole.end_time == stats.global.end_time
            &&& forall|s: int|
                0 <= s < 4 ==> (#[trigger] stats.shards[s]).max_latency_ms <= whole.max_latency_ms
            &&& exists|s: int|
                0 <= s < 4 && (#[trigger] stats.shards[s]).max_latency_ms == whole.max_latency_ms
            &&& forall|s: int|
                0 <= s < 4 && 0 < (#[trigger] stats.shards[s]).min_latency_ms < u64::MAX ==> 0
                    < whole.min_latency_ms <= stats.shards[s].min_latency_ms
            &&& whole.min_latency_ms > 0 ==> exists|s: int|
                0 <= s < 4 && (#[trigger] stats.shards[s]).min_latency_ms == whole.min_latency_ms
        }),
{
    reveal_with_fuel(crate::client::stats::lowest, 5);
    reveal_with_fuel(crate::client::stats::highest, 5);
    let whole = stats.merged();
    let shards = stats.shards;
    assert(shards[0].max_latency_ms == whole.max_latency_ms || shards[1].max_latency_ms
        == whole.max_latency_ms || shards[2].max_latency_ms == whole.max_latency_ms
        || shards[3].max_latency_ms == whole.max_latency_ms);
    if whole.min_latency_ms > 0 {
        assert(shards[0].min_latency_ms == whole.min_latency_ms || shards[1].min_latency_ms
            == whole.min_latency_ms || shards[2].min_latency_ms == whole.min_latency_ms
            || shards[3].min_latency_ms == whole.min_latency_ms);
    }
}

/// What is lost is what is missing of what was expected: together with what came in it makes up what
/// was expected.
pub proof fn law_loss_and_receipt_make_up_what_was_expected(expected_echo: u64, received: u64)
    ensures
        received >= expected_echo <==> loss_of(expected_echo, received) is None,
        loss_of(expected_echo, received) matches Some(loss) ==> {
            &&& loss.denominator == expected_echo
            &&& loss.numerator + received == expected_echo
        },
{
}

/// Every connection is expected to get as many echoes as messages it sends.
pub proof fn law_expected_echoes(plan: FrequencyPlan, seconds: u64)
    ensures
        plan.echoes_after(seconds) == plan.connections * plan.frequency * seconds,
        plan.countable(seconds) <==> {
            &&& plan.connections * plan.frequency <= u64::MAX
            &&& plan.connections * plan.frequency * seconds + 20 * seconds <= u64::MAX
        },
{
}

/// A throughput connection has more to send until it has sent all, and sending one leaves the rest of
/// the plan as it is.
pub proof fn law_one_message_at_a_time(sender: ThroughputSender)
    ensures
        sender.goes_on() <==> sender.next_id < sender.num_messages,
        sender.goes_on() ==> sender.advanced().next_id == sender.next_id + 1,
        sender.advanced().num_messages == sender.num_messages,
        sender.advanced().delay_ms == sender.delay_ms,
{
}

/// A ramp begins at one step, goes on up to and with the most connections, and climbs by one step.
pub proof fn law_one_step_at_a_time(ramp: ConnectionRamp, max_connections: usize, step: usize)
    ensures
        ConnectionRamp::at_start(max_connections, step).current == step,
        ConnectionRamp::at_start(max_connections, step).step == step,
        ConnectionRamp::at_start(max_connections, step).max_connections == max_connections,
        ramp.goes_on() <==> ramp.current <= ramp.max_connections,
        ramp.current + ramp.step <= usize::MAX ==> ramp.advanced().current == ramp.current
            + ramp.step,
        ramp.advanced().step == ramp.step,
        ramp.advanced().max_connections == ramp.max_connections,
{
}

/// How much is buffered, how long is waited, and how often something is done.
pub proof fn law_agreed_sizes_and_times()
    ensures
        CHANNEL_BUFFER_SIZE == 50,
        crate::registry::SEND_TIMEOUT_MS == 5,
        0 < crate::registry::RETRY_INTERVAL_MS < crate::registry::SEND_TIMEOUT_MS,
        timing::ACCEPT_WAIT_MILLIS == 1,
        timing::HANDSHAKE_WAIT_SECONDS == 10,
        server::CHANNEL_BUFFER_SIZE == 100,
        server::SEND_TIMEOUT_MS == 20,
        server::STATS_INTERVAL_SECONDS == 5,
        runs::BROADCAST_HZ == 20,
        runs::CONNECT_WAIT_SECONDS == 30,
        runs::THROUGHPUT_SETTLE_SECONDS == 1,
        runs::FREQUENCY_SETTLE_MILLIS == 500,
        runs::PROGRESS_INTERVAL_SECONDS == 5,
        runs::PING_INTERVAL_SECONDS == 1,
{
}

} // verus!
