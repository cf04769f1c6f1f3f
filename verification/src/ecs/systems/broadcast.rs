//! Messages for every client.
use crate::channel::{Frame, FrameView, SendOutcome};
use crate::ecs::components::{
    BenchmarkMessage, BenchmarkMessageView, BroadcastConfig, BroadcastMessage, ServerConfig,
    WebSocketServer,
};
use crate::registry::{
    delivers, redelivers, to_different_addresses, Delivery, SEND_TIMEOUT_MS,
};
use crate::text::{decimal, lemma_decimal_shape, push_decimal, repeat, run_of};
use vstd::prelude::*;

verus! {

/// The opening of a broadcast text.
pub open spec fn broadcast_base(timestamp: nat, connections: nat) -> Seq<char> {
    "Server broadcast at "@ + decimal(timestamp) + "ms - "@ + decimal(connections)
        + " connections active - 20Hz FixedUpdate"@
}

/// What is added to a text of `length` characters that is to reach `size`. The frame round the
/// filler takes nine characters itself.
pub open spec fn broadcast_padding(length: nat, size: nat) -> Seq<char> {
    if size > length {
        let filler = if size - length > 9 {
            (size - length - 9) as nat
        } else {
            0
        };
        " [DUMMY:"@ + run_of('X', filler) + "]"@
    } else {
        Seq::empty()
    }
}

/// The text of a broadcast. It is plain ASCII, so that characters and bytes are the same count.
pub open spec fn broadcast_text(timestamp: nat, connections: nat, size: nat) -> Seq<char> {
    let base = broadcast_base(timestamp, connections);
    base + broadcast_padding(base.len(), size)
}

/// The opening of a broadcast text is ASCII and short.
proof fn lemma_broadcast_base(timestamp: u128, connections: usize)
    ensures
        vstd::utf8::is_ascii_chars(broadcast_base(timestamp as nat, connections as nat)),
        broadcast_base(timestamp as nat, connections as nat).len() <= 140,
{
    reveal_strlit("Server broadcast at ");
    reveal_strlit("ms - ");
    reveal_strlit(" connections active - 20Hz FixedUpdate");
    assert(vstd::arithmetic::power::pow(10, 39) > u128::MAX && vstd::arithmetic::power::pow(10, 20)
        > usize::MAX) by {
        reveal_with_fuel(vstd::arithmetic::power::pow, 40);
    }
    lemma_decimal_shape(timestamp as nat, 39);
    lemma_decimal_shape(connections as nat, 20);
}

/// Writes the opening of a broadcast text.
fn broadcast_opening(timestamp: u128, connections: usize) -> (text: String)
    ensures
        text@ == broadcast_base(timestamp as nat, connections as nat),
{
    let mut text = String::new();
    text.append("Server broadcast at ");
    push_decimal(&mut text, timestamp);
    text.append("ms - ");
    push_decimal(&mut text, connections as u128);
    text.append(" connections active - 20Hz FixedUpdate");
    assert(text@ =~= broadcast_base(timestamp as nat, connections as nat));
    text
}

/// Makes the text of the next broadcast, if the server broadcasts and someone is connected.
/// `timestamp` is the time in milliseconds.
pub fn broadcast_system(
    broadcast_config: &BroadcastConfig,
    server: &mut WebSocketServer,
    config: &ServerConfig,
    timestamp: u128,
) -> (event: Option<BroadcastMessage>)
    requires
        broadcast_config.enabled && old(server).connections@.len() > 0 ==> config.broadcast_size
            <= isize::MAX,
    ensures
        event is Some <==> broadcast_config.enabled && old(server).connections@.len() > 0,
        event matches Some(broadcast) ==> broadcast.message@ == broadcast_text(
            timestamp as nat,
            old(server).connections@.len(),
            config.broadcast_size as nat,
        ),
        final(server).connections.same_channels(old(server).connections),
        old(server).wf() ==> final(server).wf(),
        old(server).counts_connections() ==> final(server).counts_connections(),
        final(server).stats == old(server).stats,
        final(server).listener == old(server).listener,
        final(server).last_broadcast_id == old(server).last_broadcast_id,
{
    if !broadcast_config.enabled {
        return None;
    }
    let connection_count = server.connections.len();
    if connection_count == 0 {
        return None;
    }
    let mut message = broadcast_opening(timestamp, connection_count);
    proof {
        lemma_broadcast_base(timestamp, connection_count);
        vstd::utf8::is_ascii_chars_encode_utf8(message@);
        reveal_strlit("X");
    }
    let current_size = message.as_str().len();
    if config.broadcast_size > current_size {
        let padding_size = config.broadcast_size - current_size;
        let filler = repeat("X", padding_size.saturating_sub(9));
        message.append(" [DUMMY:");
        message.append(filler.as_str());
        message.append("]");
    }
    assert(message@ =~= broadcast_text(
        timestamp as nat,
        connection_count as nat,
        config.broadcast_size as nat,
    ));
    Some(BroadcastMessage { message })
}

/// The message that carries the broadcast with the given number.
pub open spec fn broadcast_of(id: u64, server_time: u64, text: Seq<char>) -> BenchmarkMessageView {
    BenchmarkMessageView {
        id,
        timestamp: server_time,
        payload: "broadcast["@ + decimal(server_time as nat) + "]: "@ + text,
        message_type: Some("broadcast"@),
        original_id: None,
        server_timestamp: Some(server_time),
    }
}

/// Numbers a broadcast and wraps its text in the message that carries it.
pub fn broadcast_envelope(server: &mut WebSocketServer, server_time: u64, text: &str) -> (message:
    BenchmarkMessage)
    requires
        old(server).last_broadcast_id != Some(u64::MAX),
    ensures
        message@ == broadcast_of(old(server).broadcast_id(server_time), server_time, text@),
        *final(server) == (WebSocketServer {
            last_broadcast_id: Some(message@.id),
            ..*old(server)
        }),
        message.id >= server_time,
        old(server).last_broadcast_id matches Some(last) ==> message.id > last,
        message.timestamp == server_time,
        message.server_timestamp == Some(server_time),
        message.original_id is None,
        message.message_type matches Some(kind) && kind@ == "broadcast"@,
        message.payload@ == "broadcast["@ + decimal(server_time as nat) + "]: "@ + text@,
{
    let id = server.next_broadcast_id(server_time);
    let mut payload = String::new();
    payload.append("broadcast[");
    push_decimal(&mut payload, server_time as u128);
    payload.append("]: ");
    payload.append(text);
    assert(payload@ =~= broadcast_of(id, server_time, text@).payload);
    BenchmarkMessage {
        id,
        timestamp: server_time,
        payload,
        message_type: Some("broadcast".to_string()),
        original_id: None,
        server_timestamp: Some(server_time),
    }
}

/// How many of the deliveries went through.
pub open spec fn sent_count(deliveries: Seq<Delivery>) -> nat
    decreases deliveries.len(),
{
    if deliveries.len() == 0 {
        0
    } else {
        sent_count(deliveries.drop_last()) + if deliveries.last().outcome is Sent {
            1nat
        } else {
            0
        }
    }
}

/// Counts the deliveries that went through and those that did not.
pub fn tally(deliveries: &Vec<Delivery>) -> (counts: (u64, u64))
    ensures
        counts.0 == sent_count(deliveries@),
        counts.0 + counts.1 == deliveries@.len(),
{
    let mut sent: u64 = 0;
    let mut failed: u64 = 0;
    let mut i: usize = 0;
    assert(deliveries@.take(0) =~= Seq::empty());
    while i < deliveries.len()
        invariant
            i <= deliveries@.len(),
            sent == sent_count(deliveries@.take(i as int)),
            sent + failed == i,
        decreases deliveries@.len() - i,
    {
        assert(deliveries@.take(i + 1).drop_last() =~= deliveries@.take(i as int));
        match deliveries[i].outcome {
            SendOutcome::Sent => {
                sent = sent + 1;
            },
            SendOutcome::Full => {
                failed = failed + 1;
            },
            SendOutcome::Closed => {
                failed = failed + 1;
            },
        }
        i = i + 1;
    }
    assert(deliveries@.take(i as int) =~= deliveries@);
    (sent, failed)
}

/// Whether some channel is still full.
pub open spec fn waits(deliveries: Seq<Delivery>) -> bool {
    exists|i: int| 0 <= i < deliveries.len() && (#[trigger] deliveries[i]).outcome is Full
}

/// Whether some channel is still full.
pub fn is_waiting(deliveries: &Vec<Delivery>) -> (waiting: bool)
    ensures
        waiting == waits(deliveries@),
        waiting <==> exists|i: int|
            0 <= i < deliveries@.len() && (#[trigger] deliveries@[i]).outcome is Full,
{
    let mut i: usize = 0;
    while i < deliveries.len()
        invariant
            i <= deliveries@.len(),
            forall|k: int| 0 <= k < i ==> (#[trigger] deliveries@[k]).outcome !is Full,
        decreases deliveries@.len() - i,
    {
        if let SendOutcome::Full = deliveries[i].outcome {
            return true;
        }
        i = i + 1;
    }
    false
}

/// A broadcast that is on its way to every client.
pub struct Broadcast {
    pub frame: Frame,
    /// Whether the channels have been tried.
    pub begun: bool,
    /// What has become of it at each connection so far.
    pub deliveries: Vec<Delivery>,
}

/// The contents of a `Broadcast`.
pub struct BroadcastView {
    pub frame: FrameView,
    pub begun: bool,
    pub deliveries: Seq<Delivery>,
}

impl View for Broadcast {
    type V = BroadcastView;

    open spec fn view(&self) -> BroadcastView {
        BroadcastView { frame: self.frame@, begun: self.begun, deliveries: self.deliveries@ }
    }
}

impl BroadcastView {
    /// The broadcast of `text` before any channel has been tried.
    pub open spec fn at_start(text: Seq<char>) -> BroadcastView {
        BroadcastView { frame: FrameView::Text(text), begun: false, deliveries: Seq::empty() }
    }

    /// Each connection is there once.
    pub open spec fn wf(self) -> bool {
        to_different_addresses(self.deliveries)
    }
}

impl Broadcast {
    /// No channel has been tried yet.
    pub fn new(text: String) -> (broadcast: Broadcast)
        ensures
            broadcast@ == BroadcastView::at_start(text@),
            broadcast@.wf(),
    {
        let broadcast = Broadcast {
            frame: Frame::Text(text),
            begun: false,
            deliveries: Vec::new(),
        };
        assert(broadcast@.deliveries =~= Seq::empty());
        broadcast
    }
}

/// How a broadcast went.
#[derive(Debug, Clone, Copy, PartialEq, Eq, Structural)]
pub struct BroadcastReport {
    pub sent: u64,
    pub failed: u64,
}

impl BroadcastReport {
    /// The counts are those of the deliveries.
    pub open spec fn counts(self, deliveries: Seq<Delivery>) -> bool {
        &&& self.sent == sent_count(deliveries)
        &&& self.sent + self.failed == deliveries.len()
    }
}

/// Whether an attempt at a broadcast that has waited for the given milliseconds took the server from
/// `before` to `after` and the broadcast from `earlier` to `later`. It is settled, with a report,
/// once no channel is full or it has waited long enough; only then is it counted.
pub open spec fn attempts(
    before: WebSocketServer,
    after: WebSocketServer,
    earlier: BroadcastView,
    later: BroadcastView,
    waited_ms: u64,
    report: Option<BroadcastReport>,
) -> bool {
    &&& later.frame == earlier.frame
    &&& later.begun
    &&& if earlier.begun {
        redelivers(
            before.connections@,
            after.connections@,
            earlier.frame,
            earlier.deliveries,
            later.deliveries,
        )
    } else {
        delivers(before.connections@, after.connections@, earlier.frame, later.deliveries)
    }
    &&& after.connections.same_receivers(before.connections)
    &&& after.listener == before.listener
    &&& after.last_broadcast_id == before.last_broadcast_id
    &&& report is None <==> waits(later.deliveries) && waited_ms < SEND_TIMEOUT_MS
    &&& match report {
        Some(report) => {
            &&& report.counts(later.deliveries)
            &&& after.stats == before.stats.after_broadcast(report.sent, report.failed)
        },
        None => after.stats == before.stats,
    }
}

/// Hands a broadcast to every channel that has not taken it yet, and counts what became of it once
/// it is settled. Each channel takes it at once or not at all; while one is full and the broadcast
/// has not waited long enough, there is no report, and it is handed over again a little later.
pub fn broadcast_to_all_connections(
    server: &mut WebSocketServer,
    broadcast: &mut Broadcast,
    waited_ms: u64,
) -> (report: Option<BroadcastReport>)
    requires
        old(server).wf(),
        old(broadcast)@.wf(),
    ensures
        final(server).wf(),
        final(broadcast)@.wf(),
        old(server).counts_connections() ==> final(server).counts_connections(),
        attempts(
            *old(server),
            *final(server),
            old(broadcast)@,
            final(broadcast)@,
            waited_ms,
            report,
        ),
{
    if broadcast.begun {
        server.connections.retry_full(&broadcast.frame, &mut broadcast.deliveries);
    } else {
        broadcast.deliveries = server.connections.try_send_all(&broadcast.frame);
        broadcast.begun = true;
    }
    if waited_ms < SEND_TIMEOUT_MS && is_waiting(&broadcast.deliveries) {
        return None;
    }
    let (sent, failed) = tally(&broadcast.deliveries);
    if broadcast.deliveries.len() > 0 {
        server.stats.total_messages = server.stats.total_messages.wrapping_add(sent);
        server.stats.dropped_messages = server.stats.dropped_messages.wrapping_add(failed);
    }
    Some(BroadcastReport { sent, failed })
}

/// Broadcasts that wait for their turn.
pub struct BroadcastQueue {
    /// The texts of those that have not begun, first come first. A message that could not be
    /// written as text is `None`.
    pub texts: Vec<Option<String>>,
    /// The one that has begun and is not settled.
    pub under_way: Option<Broadcast>,
}

impl BroadcastQueue {
    /// The broadcast that is under way is in order.
    pub open spec fn wf(self) -> bool {
        self.under_way matches Some(broadcast) ==> broadcast@.wf()
    }

    /// The broadcast whose turn it is, if there is one. One that could not be written as text is
    /// passed over.
    pub open spec fn turn(self) -> Option<BroadcastView> {
        match self.under_way {
            Some(broadcast) => Some(broadcast@),
            None => if self.texts@.len() > 0 {
                match self.texts@[0] {
                    Some(text) => Some(BroadcastView::at_start(text@)),
                    None => None,
                }
            } else {
                None
            },
        }
    }

    /// The texts that are left once the broadcast whose turn it is has begun.
    pub open spec fn rest(self) -> Seq<Option<String>> {
        if self.under_way is None && self.texts@.len() > 0 {
            self.texts@.skip(1)
        } else {
            self.texts@
        }
    }

    /// The broadcasts of the given texts, none of which has begun.
    pub fn new(texts: Vec<Option<String>>) -> (queue: BroadcastQueue)
        ensures
            queue.texts == texts,
            queue.under_way is None,
            queue.wf(),
    {
        BroadcastQueue { texts, under_way: None }
    }
}

/// How far the broadcasts have come.
pub enum BroadcastStep {
    /// There are none left.
    Idle,
    /// One could not be written as text and was passed over.
    Skipped,
    /// Some channel is full; go on a little later.
    Waiting,
    /// One is settled.
    Settled(Broadcast, BroadcastReport),
}

/// Goes on with the broadcasts, one after the other. `waited_ms` is how long the one under way has
/// waited since it began.
pub fn handle_broadcast_messages(
    server: &mut WebSocketServer,
    queue: &mut BroadcastQueue,
    waited_ms: u64,
) -> (step: BroadcastStep)
    requires
        old(server).wf(),
        old(queue).wf(),
    ensures
        final(server).wf(),
        final(queue).wf(),
        old(server).counts_connections() ==> final(server).counts_connections(),
        final(queue).texts@ == old(queue).rest(),
        match old(queue).turn() {
            Some(earlier) => match step {
                BroadcastStep::Waiting => {
                    &&& final(queue).under_way is Some
                    &&& attempts(
                        *old(server),
                        *final(server),
                        earlier,
                        final(queue).under_way->0@,
                        waited_ms,
                        None,
                    )
                },
                BroadcastStep::Settled(broadcast, report) => {
                    &&& final(queue).under_way is None
                    &&& attempts(
                        *old(server),
                        *final(server),
                        earlier,
                        broadcast@,
                        waited_ms,
                        Some(report),
                    )
                },
                _ => false,
            },
            None => {
                &&& *final(server) == *old(server)
                &&& final(queue).under_way is None
                &&& step == if old(queue).texts@.len() > 0 {
                    BroadcastStep::Skipped
                } else {
                    BroadcastStep::Idle
                }
            },
        },
{
    let ghost before = *queue;
    let begun = queue.under_way.take();
    let mut broadcast = match begun {
        Some(broadcast) => broadcast,
        None => {
            if queue.texts.len() == 0 {
                return BroadcastStep::Idle;
            }
            let text = queue.texts.remove(0);
            assert(queue.texts@ =~= before.texts@.skip(1));
            match text {
                Some(text) => Broadcast::new(text),
                None => {
                    return BroadcastStep::Skipped;
                },
            }
        },
    };
    match broadcast_to_all_connections(server, &mut broadcast, waited_ms) {
        Some(report) => BroadcastStep::Settled(broadcast, report),
        None => {
            queue.under_way = Some(broadcast);
            BroadcastStep::Waiting
        },
    }
}

} // verus!
