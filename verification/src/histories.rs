//! What holds of a connection from its first frame to its last.
use crate::channel::Frame;
use crate::ecs::components as ecs;
use crate::ecs::systems::echo::{self, responds, ReceiveAction};
use crate::message::{before_end, BenchmarkMessage, BenchmarkMessageView, Incoming};
use crate::server::{self, is_counted, receives, Reply, Server};
use crate::session::{ends_reading, reads, Session};
use crate::writer::{ends_writing, next_action, SenderAction, SenderEvent};
use vstd::prelude::*;

verus! {

/// What is before the end is the longest run of frames that do not end the connection.
proof fn lemma_before_end<M>(frames: Seq<Incoming<M>>, count: int)
    requires
        0 <= count <= frames.len(),
        forall|i: int| 0 <= i < count ==> !(#[trigger] frames[i]).ends(),
        count == frames.len() || frames[count].ends(),
    ensures
        before_end(frames) == frames.take(count),
    decreases frames.len(),
{
    if count == 0 {
        assert(frames.take(0) =~= Seq::empty());
    } else {
        let rest = frames.drop_first();
        assert(!frames[0].ends());
        assert forall|i: int| 0 <= i < count - 1 implies !(#[trigger] rest[i]).ends() by {
            assert(rest[i] == frames[i + 1]);
        }
        lemma_before_end(rest, count - 1);
        assert(frames.take(count) =~= seq![frames[0]] + rest.take(count - 1));
    }
}

/// How many of the frames the stand-alone server counts.
pub open spec fn counted_in(frames: Seq<Incoming<BenchmarkMessage>>) -> nat
    decreases frames.len(),
{
    if frames.len() == 0 {
        0
    } else {
        counted_in(frames.drop_last()) + if is_counted(frames.last()) {
            1nat
        } else {
            0
        }
    }
}

/// Something that the stand-alone server sends back.
pub enum Answer {
    Message(BenchmarkMessageView),
    Binary(Seq<u8>),
}

/// What is sent back according to the given replies, in order.
pub open spec fn answers(replies: Seq<Reply>) -> Seq<Answer>
    decreases replies.len(),
{
    if replies.len() == 0 {
        Seq::empty()
    } else {
        let earlier = answers(replies.drop_last());
        match replies.last() {
            Reply::Message(message) => earlier.push(Answer::Message(message@)),
            Reply::Binary(data) => earlier.push(Answer::Binary(data@)),
            _ => earlier,
        }
    }
}

/// The echoes of the given frames, each of which came in at the time of the same place, in order:
/// one for each message and one for each binary frame.
pub open spec fn echoes_of(frames: Seq<Incoming<BenchmarkMessage>>, times: Seq<u64>) -> Seq<Answer>
    decreases frames.len(),
{
    if frames.len() == 0 {
        Seq::empty()
    } else {
        let earlier = echoes_of(frames.drop_last(), times);
        match frames.last() {
            Incoming::Message(request) => earlier.push(
                Answer::Message(server::echo_of(request@, times[frames.len() - 1])),
            ),
            Incoming::Binary(data) => earlier.push(Answer::Binary(data@)),
            _ => earlier,
        }
    }
}

/// Whether `servers` and `replies` tell, step by step, how the stand-alone server reads the given
/// frames at the given times. It reads until it has read all or a reply is to stop.
pub open spec fn server_reads(
    servers: Seq<Server>,
    replies: Seq<Reply>,
    frames: Seq<Incoming<BenchmarkMessage>>,
    times: Seq<u64>,
) -> bool {
    &&& servers.len() == replies.len() + 1
    &&& replies.len() <= frames.len()
    &&& forall|i: int|
        0 <= i < replies.len() ==> receives(
            servers[i],
            servers[i + 1],
            frames[i],
            times[i],
            #[trigger] replies[i],
        )
    &&& forall|i: int| 0 <= i < replies.len() - 1 ==> (#[trigger] replies[i]) !is Stop
    &&& replies.len() == frames.len() || (replies.len() > 0 && replies.last() is Stop)
}

/// What the steps add up to.
proof fn lemma_server_reads(
    servers: Seq<Server>,
    replies: Seq<Reply>,
    frames: Seq<Incoming<BenchmarkMessage>>,
    times: Seq<u64>,
)
    requires
        servers.len() == replies.len() + 1,
        replies.len() == frames.len(),
        forall|i: int|
            0 <= i < replies.len() ==> receives(
                servers[i],
                servers[i + 1],
                frames[i],
                times[i],
                #[trigger] replies[i],
            ),
        servers[0].stats.total_messages + counted_in(frames) <= u64::MAX,
    ensures
        servers.last().stats == (server::ServerStats {
            total_messages: (servers[0].stats.total_messages + counted_in(frames)) as u64,
            ..servers[0].stats
        }),
        servers.last().connections == servers[0].connections,
        answers(replies) == echoes_of(frames, times),
    decreases replies.len(),
{
    if replies.len() > 0 {
        let last = replies.len() - 1;
        assert(receives(servers[last], servers[last + 1], frames[last], times[last], replies[last]));
        assert forall|i: int| 0 <= i < last implies receives(
            servers.drop_last()[i],
            servers.drop_last()[i + 1],
            frames.drop_last()[i],
            times[i],
            #[trigger] replies.drop_last()[i],
        ) by {
            assert(replies.drop_last()[i] == replies[i]);
        }
        lemma_server_reads(servers.drop_last(), replies.drop_last(), frames.drop_last(), times);
    }
}

/// The stand-alone server reads up to the first frame that ends the connection and no further. It
/// counts the frames before that which it counts, and sends back one echo for each message and each
/// binary frame among them, in order, and nothing after the end.
pub proof fn law_server_answers_until_the_end(
    servers: Seq<Server>,
    replies: Seq<Reply>,
    frames: Seq<Incoming<BenchmarkMessage>>,
    times: Seq<u64>,
)
    requires
        server_reads(servers, replies, frames, times),
        servers[0].stats.total_messages + counted_in(before_end(frames)) <= u64::MAX,
    ensures
        servers.last().stats.total_messages == servers[0].stats.total_messages + counted_in(
            before_end(frames),
        ),
        servers.last().connections == servers[0].connections,
        answers(replies) == echoes_of(before_end(frames), times),
        replies.len() == before_end(frames).len() + if before_end(frames).len() < frames.len() {
            1int
        } else {
            0
        },
{
    let count = replies.len() as int;
    let read = frames.take(count);
    assert forall|i: int| 0 <= i < count - 1 implies !(#[trigger] frames[i]).ends() by {
        assert(replies[i] !is Stop);
    }
    if count > 0 && frames[count - 1].ends() {
        assert(replies[count - 1] is Stop);
        lemma_before_end(frames, count - 1);
        assert(read.drop_last() =~= before_end(frames));
    } else {
        if count > 0 {
            assert(replies[count - 1] !is Stop);
        }
        lemma_before_end(frames, count);
    }
    assert forall|i: int| 0 <= i < count implies receives(
        servers[i],
        servers[i + 1],
        read[i],
        times[i],
        #[trigger] replies[i],
    ) by {}
    lemma_server_reads(servers, replies, read, times);
}

/// The responses among the given actions, in order.
pub open spec fn responses(actions: Seq<ReceiveAction>) -> Seq<ecs::BenchmarkMessageView>
    decreases actions.len(),
{
    if actions.len() == 0 {
        Seq::empty()
    } else {
        let earlier = responses(actions.drop_last());
        match actions.last() {
            ReceiveAction::Respond(message) => earlier.push(message@),
            _ => earlier,
        }
    }
}

/// The echoes of the messages among the given frames from `addr`, each of which came in at the time
/// of the same place, in order.
pub open spec fn traced_echoes_of(
    frames: Seq<Incoming<ecs::BenchmarkMessage>>,
    addr: Seq<char>,
    times: Seq<u64>,
) -> Seq<ecs::BenchmarkMessageView>
    decreases frames.len(),
{
    if frames.len() == 0 {
        Seq::empty()
    } else {
        let earlier = traced_echoes_of(frames.drop_last(), addr, times);
        match frames.last() {
            Incoming::Message(request) => earlier.push(
                echo::echo_of(request@, addr, times[frames.len() - 1]),
            ),
            _ => earlier,
        }
    }
}

/// Whether `actions` tells, step by step, what the server on the entity component system does about
/// the given frames from `addr` at the given times. It reads until it has read all or is to stop.
pub open spec fn reader_acts(
    actions: Seq<ReceiveAction>,
    frames: Seq<Incoming<ecs::BenchmarkMessage>>,
    addr: Seq<char>,
    times: Seq<u64>,
) -> bool {
    &&& actions.len() <= frames.len()
    &&& forall|i: int|
        0 <= i < actions.len() ==> responds(frames[i], addr, times[i], #[trigger] actions[i])
    &&& forall|i: int| 0 <= i < actions.len() - 1 ==> (#[trigger] actions[i]) !is Stop
    &&& actions.len() == frames.len() || (actions.len() > 0 && actions.last() is Stop)
}

/// What the actions add up to.
proof fn lemma_reader_acts(
    actions: Seq<ReceiveAction>,
    frames: Seq<Incoming<ecs::BenchmarkMessage>>,
    addr: Seq<char>,
    times: Seq<u64>,
)
    requires
        actions.len() == frames.len(),
        forall|i: int|
            0 <= i < actions.len() ==> responds(frames[i], addr, times[i], #[trigger] actions[i]),
    ensures
        responses(actions) == traced_echoes_of(frames, addr, times),
    decreases actions.len(),
{
    if actions.len() > 0 {
        let last = actions.len() - 1;
        assert(responds(frames[last], addr, times[last], actions[last]));
        assert forall|i: int| 0 <= i < last implies responds(
            frames.drop_last()[i],
            addr,
            times[i],
            #[trigger] actions.drop_last()[i],
        ) by {
            assert(actions.drop_last()[i] == actions[i]);
        }
        lemma_reader_acts(actions.drop_last(), frames.drop_last(), addr, times);
    }
}

/// The server on the entity component system reads up to the first frame that ends the connection
/// and no further. It makes one response for each message before that, in order, and none after the
/// end.
pub proof fn law_reader_responds_until_the_end(
    actions: Seq<ReceiveAction>,
    frames: Seq<Incoming<ecs::BenchmarkMessage>>,
    addr: Seq<char>,
    times: Seq<u64>,
)
    requires
        reader_acts(actions, frames, addr, times),
    ensures
        responses(actions) == traced_echoes_of(before_end(frames), addr, times),
        actions.len() == before_end(frames).len() + if before_end(frames).len() < frames.len() {
            1int
        } else {
            0
        },
{
    let count = actions.len() as int;
    let read = frames.take(count);
    assert forall|i: int| 0 <= i < count - 1 implies !(#[trigger] frames[i]).ends() by {
        assert(actions[i] !is Stop);
    }
    if count > 0 && frames[count - 1].ends() {
        assert(actions[count - 1] is Stop);
        lemma_before_end(frames, count - 1);
        assert(read.drop_last() =~= before_end(frames));
    } else {
        if count > 0 {
            assert(actions[count - 1] !is Stop);
        }
        lemma_before_end(frames, count);
    }
    assert forall|i: int| 0 <= i < count implies responds(
        read[i],
        addr,
        times[i],
        #[trigger] actions[i],
    ) by {}
    lemma_reader_acts(actions, read, addr, times);
}

/// How many frames the writer has been handed.
pub open spec fn handed_over(events: Seq<SenderEvent>) -> nat
    decreases events.len(),
{
    if events.len() == 0 {
        0
    } else {
        handed_over(events.drop_last()) + if events.last() is Frame {
            1nat
        } else {
            0
        }
    }
}

/// What the writer does after the given events. It begins by waiting.
pub open spec fn action_after(events: Seq<SenderEvent>) -> SenderAction {
    if events.len() == 0 {
        SenderAction::Wait
    } else {
        next_action(events.last())
    }
}

/// Whether the writer can see `event` after the given events, when the frames `frames` come out of
/// its channel, which is then closed: it sees the next frame when it waits for one, and how a write
/// went when it writes.
pub open spec fn may_see(
    frames: Seq<Frame>,
    events: Seq<SenderEvent>,
    event: SenderEvent,
) -> bool {
    match action_after(events) {
        SenderAction::Wait => if handed_over(events) < frames.len() {
            event == SenderEvent::Frame(frames[handed_over(events) as int])
        } else {
            event is ChannelClosed
        },
        SenderAction::Write(_) => event is Written || event is WriteFailed,
        SenderAction::Stop => false,
    }
}

/// Whether the writer sees the given events, one after the other.
pub open spec fn writer_sees(frames: Seq<Frame>, events: Seq<SenderEvent>) -> bool
    decreases events.len(),
{
    events.len() > 0 ==> {
        &&& writer_sees(frames, events.drop_last())
        &&& may_see(frames, events.drop_last(), events.last())
    }
}

/// The frames that have been written, in order: those whose write did not fail.
pub open spec fn written(events: Seq<SenderEvent>) -> Seq<Frame>
    decreases events.len(),
{
    if events.len() == 0 {
        Seq::empty()
    } else {
        let earlier = written(events.drop_last());
        match (action_after(events.drop_last()), events.last()) {
            (SenderAction::Write(frame), SenderEvent::Written) => earlier.push(frame),
            _ => earlier,
        }
    }
}

/// The writer writes the frames that come out of its channel in order, each once: after a write
/// that fails, exactly the frames before that one have been written, and when the channel is closed,
/// all have. It sees nothing after either.
pub proof fn law_writer_writes_in_order(frames: Seq<Frame>, events: Seq<SenderEvent>)
    requires
        writer_sees(frames, events),
    ensures
        handed_over(events) <= frames.len(),
        match action_after(events) {
            SenderAction::Wait => written(events) == frames.take(handed_over(events) as int),
            SenderAction::Write(frame) => {
                &&& handed_over(events) > 0
                &&& frame == frames[handed_over(events) - 1]
                &&& written(events) == frames.take(handed_over(events) - 1)
            },
            SenderAction::Stop => {
                &&& events.last() is WriteFailed ==> handed_over(events) > 0 && written(events)
                    == frames.take(handed_over(events) - 1)
                &&& events.last() is ChannelClosed ==> written(events) == frames
            },
        },
        forall|i: int|
            0 <= i < events.len() && ends_writing(#[trigger] events[i]) ==> i == events.len() - 1,
    decreases events.len(),
{
    if events.len() > 0 {
        let earlier = events.drop_last();
        law_writer_writes_in_order(frames, earlier);
        assert forall|i: int|
            0 <= i < events.len() && ends_writing(#[trigger] events[i]) implies i == events.len()
            - 1 by {
            if i < events.len() - 1 {
                assert(earlier[i] == events[i]);
                assert(action_after(earlier) is Stop);
            }
        }
        let count = handed_over(earlier) as int;
        if action_after(earlier) is Write && events.last() is Written {
            assert(frames.take(count - 1).push(frames[count - 1]) =~= frames.take(count));
        }
        if events.last() is ChannelClosed {
            assert(frames.take(count) =~= frames);
        }
    } else {
        assert(frames.take(0) =~= Seq::empty());
    }
}

/// Something that the reader and the writer of a connection of the stand-alone server go through.
pub enum SessionEvent {
    /// The reader got this at the given time, or came to the end.
    Read(Option<Incoming<BenchmarkMessage>>, u64),
    /// The writer saw this.
    Wrote(SenderEvent),
}

/// Whether the reader or the writer stops at this.
pub open spec fn is_end(event: SessionEvent) -> bool {
    match event {
        SessionEvent::Read(incoming, _) => ends_reading(incoming),
        SessionEvent::Wrote(event) => ends_writing(event),
    }
}

/// Whether the session and the server go through `event` in one step.
pub open spec fn goes_through(
    before: Server,
    after: Server,
    earlier: Session,
    later: Session,
    event: SessionEvent,
) -> bool {
    exists|between: Server| #[trigger]
        earlier.steps(later, between, after, is_end(event)) && match event {
            SessionEvent::Read(incoming, time) => exists|reply: Reply| #[trigger]
                reads(before, between, incoming, time, reply),
            SessionEvent::Wrote(_) => between == before,
        }
}

/// Whether `servers` and `sessions` tell, step by step, how a connection goes through the given
/// events.
pub open spec fn lives_through(
    servers: Seq<Server>,
    sessions: Seq<Session>,
    events: Seq<SessionEvent>,
) -> bool {
    &&& servers.len() == sessions.len() == events.len() + 1
    &&& forall|i: int|
        0 <= i < events.len() ==> goes_through(
            servers[i],
            servers[i + 1],
            sessions[i],
            sessions[i + 1],
            #[trigger] events[i],
        )
}

/// A connection of the stand-alone server that has ended is forgotten: once its reader or its writer
/// has stopped, whichever comes first, the server knows all other connections and not this one, and
/// counts them. Before that, nothing is forgotten.
pub proof fn law_ended_session_is_forgotten(
    servers: Seq<Server>,
    sessions: Seq<Session>,
    events: Seq<SessionEvent>,
)
    requires
        lives_through(servers, sessions, events),
        !sessions[0].stopped,
    ensures
        ({
            let addr = sessions[0].addr@;
            let over = exists|i: int| 0 <= i < events.len() && is_end(#[trigger] events[i]);
            &&& sessions.last().addr@ == addr
            &&& sessions.last().stopped == over
            &&& over ==> {
                &&& servers.last().connections@ == servers[0].connections@.remove(addr)
                &&& servers.last().counts_connections()
            }
            &&& !over ==> servers.last().connections@ == servers[0].connections@
        }),
    decreases events.len(),
{
    if events.len() > 0 {
        let last = events.len() - 1;
        let addr = sessions[0].addr@;
        let earlier = events.drop_last();
        assert forall|i: int| 0 <= i < earlier.len() implies goes_through(
            servers.drop_last()[i],
            servers.drop_last()[i + 1],
            sessions.drop_last()[i],
            sessions.drop_last()[i + 1],
            #[trigger] earlier[i],
        ) by {
            assert(earlier[i] == events[i]);
        }
        law_ended_session_is_forgotten(servers.drop_last(), sessions.drop_last(), earlier);
        assert(goes_through(
            servers[last],
            servers[last + 1],
            sessions[last],
            sessions[last + 1],
            events[last],
        ));
        assert(servers.drop_last().last() == servers[last]);
        assert(sessions.drop_last().last() == sessions[last]);
        let was_over = exists|i: int| 0 <= i < earlier.len() && is_end(#[trigger] earlier[i]);
        let over = exists|i: int| 0 <= i < events.len() && is_end(#[trigger] events[i]);
        if was_over {
            let i = choose|i: int| 0 <= i < earlier.len() && is_end(#[trigger] earlier[i]);
            assert(is_end(events[i]));
        }
        if over && !is_end(events[last]) {
            let i = choose|i: int| 0 <= i < events.len() && is_end(#[trigger] events[i]);
            assert(is_end(earlier[i]));
        }
        assert(over == (was_over || is_end(events[last])));
    } else {
        assert(servers.last() == servers[0]);
    }
}

} // verus!
