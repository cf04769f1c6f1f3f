use rust_ws_benchmark::channel::Frame;
use rust_ws_benchmark::message::{BenchmarkMessage, Incoming, Ratio};
use rust_ws_benchmark::server::{
    tally, Broadcaster, Reply, SendResult, Server, ServerStats, CHANNEL_BUFFER_SIZE,
};
use rust_ws_benchmark::session::Session;
use rust_ws_benchmark::writer::{SenderAction, SenderEvent};

const SECOND: u64 = 1_000_000_000;

#[test]
fn connections_are_counted() {
    let mut server = Server::new();
    let mut a = server.register("a:1".to_string(), 7);
    assert_eq!(server.stats.connections, 1);
    assert_eq!(server.stats.start_time, Some(7));
    assert_eq!(server.stats.last_stats_time, Some(7));
    let _b = server.register("b:1".to_string(), 9);
    assert_eq!(server.stats.connections, 2);
    assert_eq!(server.stats.start_time, Some(7));
    let sender = server.connections.get("a:1").unwrap();
    assert_eq!(sender.capacity(), CHANNEL_BUFFER_SIZE);
    assert!(sender.try_send(Frame::Text("x".to_string())).is_ok());
    assert!(a.try_recv().is_ok());
    server.unregister("a:1");
    assert_eq!(server.stats.connections, 1);
    assert!(server.connections.get("a:1").is_none());
    server.unregister("a:1");
    assert_eq!(server.stats.connections, 1);
    assert_eq!(server.connections.entries().len(), 1);
    assert_eq!(server.connections.entries()[0].addr, "b:1");
}

#[test]
fn second_registration_replaces_the_first() {
    let mut server = Server::new();
    let mut first = server.register("a:1".to_string(), 0);
    let mut second = server.register("a:1".to_string(), 0);
    assert_eq!(server.stats.connections, 1);
    let sender = server.connections.get("a:1").unwrap();
    assert!(sender.try_send(Frame::Binary(vec![1])).is_ok());
    assert!(second.try_recv().is_ok());
    assert!(first.try_recv().is_err());
    assert!(first.is_closed());
}

#[test]
fn input_is_counted_and_answered() {
    let mut server = Server::new();
    let request = BenchmarkMessage { id: 3, timestamp: 1, payload: "hi".to_string() };
    match server.receive(Incoming::Message(request), 99) {
        Reply::Message(reply) => {
            assert_eq!(reply.id, 3);
            assert_eq!(reply.timestamp, 99);
            assert_eq!(reply.payload, "echo: hi");
        }
        _ => panic!("expected a message"),
    }
    assert_eq!(server.stats.total_messages, 1);
    assert!(matches!(server.receive(Incoming::Unreadable, 0), Reply::Nothing));
    assert_eq!(server.stats.total_messages, 2);
    match server.receive(Incoming::Binary(vec![4, 5]), 0) {
        Reply::Binary(data) => assert_eq!(data, vec![4, 5]),
        _ => panic!("expected bytes"),
    }
    assert_eq!(server.stats.total_messages, 3);
    assert!(matches!(server.receive(Incoming::Other, 0), Reply::Nothing));
    assert!(matches!(server.receive(Incoming::Close, 0), Reply::Stop));
    assert!(matches!(server.receive(Incoming::Failed, 0), Reply::Stop));
    assert_eq!(server.stats.total_messages, 3);
}

#[test]
fn samples_cover_the_time_between() {
    let mut server = Server::new();
    let sample = server.sample_stats(SECOND);
    assert_eq!(sample.messages_per_second, Ratio { numerator: 0, denominator: 1 });
    let _a = server.register("a:1".to_string(), 2 * SECOND);
    for _ in 0..10 {
        server.receive(Incoming::Binary(vec![]), 0);
    }
    let sample = server.sample_stats(7 * SECOND);
    assert_eq!((sample.connections, sample.total_messages), (1, 10));
    assert_eq!(sample.messages_per_second, Ratio { numerator: 10, denominator: 5 * SECOND });
    server.receive(Incoming::Binary(vec![]), 0);
    let sample = server.sample_stats(7 * SECOND);
    assert_eq!(sample.messages_per_second, Ratio { numerator: 10, denominator: 5 * SECOND });
    server.receive(Incoming::Binary(vec![]), 0);
    let sample = server.sample_stats(9 * SECOND);
    assert_eq!(sample.messages_per_second, Ratio { numerator: 1, denominator: 2 * SECOND });
}

#[test]
fn broadcasts_are_numbered() {
    let mut broadcaster = Broadcaster::new(20);
    assert_eq!(broadcaster.interval_ms(), 50);
    assert!(broadcaster.tick(0, 5).is_none());
    let message = broadcaster.tick(3, 6).unwrap();
    assert_eq!(message.id, 2);
    assert_eq!(message.timestamp, 6);
    assert_eq!(message.payload, "Server broadcast #2 at 20Hz - 3 connections active");
    assert_eq!(Broadcaster::new(3).interval_ms(), 333);
    assert_eq!(Broadcaster::new(600).interval_ms(), 1);
    assert_eq!(Broadcaster::new(1000).interval_ms(), 1);
}

#[test]
fn broadcast_results_are_counted() {
    let results = vec![
        SendResult::Sent,
        SendResult::TimedOut,
        SendResult::Sent,
        SendResult::ChannelClosed,
    ];
    assert_eq!(tally(&results), (2, 2));
    let mut stats = ServerStats::default();
    let mut broadcaster = Broadcaster::new(1);
    for count in 1..=20u64 {
        broadcaster.tick(4, 0);
        let summary = broadcaster.record(&mut stats, &results);
        assert_eq!((summary.sent, summary.failed), (2, 2));
        assert_eq!(summary.logged, count % 10 == 0);
    }
    assert_eq!(stats.total_messages, 40);
    assert_eq!(stats.dropped_messages, 40);
}

#[test]
fn replies_go_to_the_connection_that_asked() {
    let mut server = Server::new();
    let mut a = server.register("a:1".to_string(), 0);
    let mut b = server.register("b:1".to_string(), 0);
    let (sender, frame) =
        server.outgoing("b:1", Some(Frame::Text("reply".to_string()))).unwrap();
    assert!(sender.try_send(frame).is_ok());
    assert!(a.try_recv().is_err());
    match b.try_recv() {
        Ok(Frame::Text(text)) => assert_eq!(text, "reply"),
        _ => panic!("expected the reply"),
    }
    assert!(server.outgoing("b:1", None).is_none());
    assert!(server.outgoing("c:1", Some(Frame::Binary(vec![1]))).is_none());
}

#[test]
fn session_ends_with_the_first_of_reader_and_writer() {
    let mut server = Server::new();
    let _other = server.register("b:1".to_string(), 0);
    let ends: [fn(&mut Session, &mut Server); 5] = [
        |session, server| {
            assert!(matches!(session.read(server, None, 0), Reply::Stop));
        },
        |session, server| {
            assert!(matches!(session.read(server, Some(Incoming::Close), 0), Reply::Stop));
        },
        |session, server| {
            assert!(matches!(session.read(server, Some(Incoming::Failed), 0), Reply::Stop));
        },
        |session, server| {
            let action = session.write(server, SenderEvent::WriteFailed);
            assert!(matches!(action, SenderAction::Stop));
        },
        |session, server| {
            let action = session.write(server, SenderEvent::ChannelClosed);
            assert!(matches!(action, SenderAction::Stop));
        },
    ];
    for end in ends {
        let _a = server.register("a:1".to_string(), 0);
        let mut session = Session::new("a:1".to_string());
        assert!(matches!(session.read(&mut server, Some(Incoming::Other), 0), Reply::Nothing));
        assert!(matches!(session.write(&mut server, SenderEvent::Written), SenderAction::Wait));
        assert_eq!(server.stats.connections, 2);
        end(&mut session, &mut server);
        assert!(session.stopped);
        assert_eq!(server.stats.connections, 1);
        assert!(server.connections.get("a:1").is_none());
        assert!(server.connections.get("b:1").is_some());
        let _again = server.register("a:1".to_string(), 0);
        session.write(&mut server, SenderEvent::ChannelClosed);
        session.stop(&mut server);
        assert_eq!(server.stats.connections, 2);
        server.unregister("a:1");
    }
}

#[test]
fn session_answers_until_the_end() {
    let mut server = Server::new();
    let _a = server.register("a:1".to_string(), 0);
    let mut session = Session::new("a:1".to_string());
    let message =
        |id| Incoming::Message(BenchmarkMessage { id, timestamp: 0, payload: "hi".to_string() });
    let frames = vec![
        message(1),
        Incoming::Unreadable,
        Incoming::Other,
        Incoming::Binary(vec![9]),
        message(2),
        Incoming::Failed,
        message(3),
    ];
    let mut answers = Vec::new();
    for frame in frames {
        match session.read(&mut server, Some(frame), 5) {
            Reply::Message(reply) => answers.push(format!("{}: {}", reply.id, reply.payload)),
            Reply::Binary(data) => answers.push(format!("{:?}", data)),
            Reply::Nothing => {}
            Reply::Stop => break,
        }
    }
    assert_eq!(answers, vec!["1: echo: hi", "[9]", "2: echo: hi"]);
    assert_eq!(server.stats.total_messages, 4);
}
