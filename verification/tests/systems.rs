use rust_ws_benchmark::channel::{Frame, SendOutcome};
use rust_ws_benchmark::ecs::components::{
    BenchmarkMessage, BroadcastConfig, ConnectionClosed, ServerConfig, ServerStats,
    WebSocketServer,
};
use rust_ws_benchmark::ecs::systems::broadcast::{
    broadcast_envelope, broadcast_system, broadcast_to_all_connections, handle_broadcast_messages,
    Broadcast, BroadcastQueue, BroadcastStep,
};
use rust_ws_benchmark::ecs::systems::connections::{
    cleanup_connection, fixed_update, handle_disconnections, handle_new_connections,
    setup_websocket_connection, setup_websocket_server, AcceptAction, AcceptPoll, Args, FixedStep,
    Handshake, WebSocketPlugin,
};
use rust_ws_benchmark::ecs::systems::echo::{
    deliver_echo, record_echo, websocket_receiver_step, EchoOutcome, ReceiveAction,
};
use rust_ws_benchmark::ecs::systems::statistics::{
    report_on, stats_due, total_pending, update_stats, StatsDue,
};
use rust_ws_benchmark::ecs::systems::tasks::ConnectionTasks;
use rust_ws_benchmark::ecs::systems::timing::TimedStep;
use rust_ws_benchmark::message::{Incoming, Ratio};
use rust_ws_benchmark::registry::{Room, CHANNEL_BUFFER_SIZE};
use rust_ws_benchmark::writer::{websocket_sender_step, SenderAction, SenderEvent};
use tokio::sync::mpsc::Receiver;

const SECOND: u64 = 1_000_000_000;

fn config(stats: bool, broadcast: bool, broadcast_size: usize) -> ServerConfig {
    ServerConfig { bind: "127.0.0.1:8080".to_string(), stats, broadcast, broadcast_size }
}

fn request(id: u64, payload: &str) -> BenchmarkMessage {
    BenchmarkMessage {
        id,
        timestamp: 5,
        payload: payload.to_string(),
        message_type: None,
        original_id: None,
        server_timestamp: None,
    }
}

fn connect(server: &mut WebSocketServer, addr: &str) -> Receiver<Frame> {
    let registration =
        setup_websocket_connection(server, addr.to_string(), Handshake::Completed).unwrap();
    assert!(registration.inserted);
    registration.receiver
}

fn received(receiver: &mut Receiver<Frame>) -> Option<String> {
    match receiver.try_recv() {
        Ok(Frame::Text(text)) => Some(text),
        _ => None,
    }
}

#[test]
fn plugin_passes_the_settings_on() {
    let args = Args {
        bind: "0.0.0.0:9000".to_string(),
        stats: true,
        broadcast: true,
        broadcast_size: 512,
    };
    let (mut server, broadcast, config) = WebSocketPlugin { args }.build();
    assert_eq!(server.connections.len(), 0);
    assert!(server.listener.is_none());
    assert!(broadcast.enabled);
    assert_eq!(config.bind, "0.0.0.0:9000");
    assert!(config.stats && config.broadcast);
    assert_eq!(config.broadcast_size, 512);
}

#[test]
fn settings_have_defaults() {
    let args = Args::default();
    assert_eq!(args.bind, "127.0.0.1:8080");
    assert!(!args.stats);
    assert!(!args.broadcast);
    assert_eq!(args.broadcast_size, 100);
}

#[test]
fn listening_is_noted() {
    let mut server = WebSocketServer::new();
    assert!(!setup_websocket_server(&mut server, &config(false, false, 0), "a:1".to_string()));
    assert_eq!(server.listener.as_deref(), Some("a:1"));
    assert!(setup_websocket_server(&mut server, &config(false, true, 0), "a:2".to_string()));
    assert_eq!(server.listener.as_deref(), Some("a:2"));
}

#[test]
fn clients_are_accepted_only_while_listening() {
    let mut server = WebSocketServer::new();
    let action = handle_new_connections(&server, AcceptPoll::Accepted("c:1".to_string()));
    assert!(matches!(action, AcceptAction::Idle));
    setup_websocket_server(&mut server, &config(false, false, 0), "a:1".to_string());
    match handle_new_connections(&server, AcceptPoll::Accepted("c:1".to_string())) {
        AcceptAction::Setup(addr) => assert_eq!(addr, "c:1"),
        _ => panic!("expected a set-up"),
    }
    let action = handle_new_connections(&server, AcceptPoll::Failed);
    assert!(matches!(action, AcceptAction::ReportFailure));
    let action = handle_new_connections(&server, AcceptPoll::TimedOut);
    assert!(matches!(action, AcceptAction::Idle));
}

#[test]
fn handshake_decides_about_a_connection() {
    let mut server = WebSocketServer::new();
    let failed = setup_websocket_connection(
        &mut server,
        "c:1".to_string(),
        Handshake::Failed("bad key".to_string()),
    );
    assert_eq!(failed.err().as_deref(), Some("bad key"));
    let late = setup_websocket_connection(&mut server, "c:1".to_string(), Handshake::TimedOut);
    assert_eq!(late.err().as_deref(), Some("WebSocket handshake timeout"));
    assert_eq!(server.stats.connections, 0);
    let _receiver = connect(&mut server, "c:1");
    assert_eq!(server.stats.connections, 1);
    let again =
        setup_websocket_connection(&mut server, "c:1".to_string(), Handshake::Completed).unwrap();
    assert!(!again.inserted);
    assert_eq!(server.stats.connections, 1);
}

#[test]
fn clients_come_and_go() {
    let mut server = WebSocketServer::new();
    let _a = connect(&mut server, "a:1");
    let _b = connect(&mut server, "b:1");
    let _c = connect(&mut server, "c:1");
    assert_eq!(server.stats.connections, 3);
    cleanup_connection(&mut server, "b:1");
    assert_eq!(server.stats.connections, 2);
    let events = vec![
        ConnectionClosed { addr: "c:1".to_string() },
        ConnectionClosed { addr: "nobody:1".to_string() },
    ];
    handle_disconnections(&mut server, &events);
    assert_eq!(server.stats.connections, 1);
    assert_eq!(server.connections.len(), 1);
    assert_eq!(deliver_echo(&mut server, "a:1", Some("x".to_string()), 0), EchoOutcome::Sent);
}

#[test]
fn no_events_change_nothing() {
    let mut server = WebSocketServer::new();
    server.stats.connections = 7;
    handle_disconnections(&mut server, &Vec::new());
    assert_eq!(server.stats.connections, 7);
}

#[test]
fn message_is_echoed_with_the_client_address() {
    let incoming = Incoming::Message(request(42, "ping"));
    match websocket_receiver_step(incoming, "127.0.0.1:50000", 1234) {
        ReceiveAction::Respond(response) => {
            assert_eq!(response.id, 42);
            assert_eq!(response.timestamp, 1234);
            assert_eq!(response.payload, "bevy-echo[127.0.0.1:50000]: ping");
            assert_eq!(response.message_type.as_deref(), Some("echo"));
            assert_eq!(response.original_id, Some(42));
            assert_eq!(response.server_timestamp, Some(1234));
        }
        _ => panic!("expected a response"),
    }
}

#[test]
fn other_input_is_ignored_or_ends_the_connection() {
    let step = |incoming| websocket_receiver_step(incoming, "a:1", 0);
    assert!(matches!(step(Incoming::Unreadable), ReceiveAction::ReportUnreadable));
    assert!(matches!(step(Incoming::Binary(vec![1])), ReceiveAction::Continue));
    assert!(matches!(step(Incoming::Other), ReceiveAction::Continue));
    assert!(matches!(step(Incoming::Close), ReceiveAction::Stop));
    assert!(matches!(step(Incoming::Failed), ReceiveAction::Stop));
}

#[test]
fn echo_goes_to_its_client_and_is_counted() {
    let mut server = WebSocketServer::new();
    let mut a = connect(&mut server, "a:1");
    let mut b = connect(&mut server, "b:1");
    assert_eq!(deliver_echo(&mut server, "a:1", Some("one".to_string()), 0), EchoOutcome::Sent);
    assert_eq!(deliver_echo(&mut server, "a:1", Some("two".to_string()), 0), EchoOutcome::Sent);
    assert_eq!(server.stats.total_messages, 2);
    assert_eq!(server.stats.total_pending_messages, 2);
    assert_eq!(server.stats.max_pending_messages, 2);
    assert_eq!(received(&mut a).as_deref(), Some("one"));
    assert_eq!(received(&mut a).as_deref(), Some("two"));
    assert_eq!(received(&mut b), None);
    assert_eq!(deliver_echo(&mut server, "a:1", Some("three".to_string()), 0), EchoOutcome::Sent);
    assert_eq!(server.stats.total_pending_messages, 1);
    assert_eq!(server.stats.max_pending_messages, 2);
}

#[test]
fn echo_that_cannot_be_delivered() {
    let mut server = WebSocketServer::new();
    let a = connect(&mut server, "a:1");
    assert_eq!(deliver_echo(&mut server, "a:1", None, 0), EchoOutcome::NotSerialized);
    let nobody = deliver_echo(&mut server, "b:1", Some("x".to_string()), 0);
    assert_eq!(nobody, EchoOutcome::NotConnected);
    assert!(!nobody.stops());
    for _ in 0..CHANNEL_BUFFER_SIZE {
        deliver_echo(&mut server, "a:1", Some("x".to_string()), 0);
    }
    for waited in 0..5 {
        let waiting = deliver_echo(&mut server, "a:1", Some("x".to_string()), waited);
        assert_eq!(waiting, EchoOutcome::Waiting);
        assert!(!waiting.stops());
    }
    assert_eq!(server.stats.dropped_messages, 0);
    let dropped = deliver_echo(&mut server, "a:1", Some("x".to_string()), 5);
    assert_eq!(dropped, EchoOutcome::Dropped);
    assert!(!dropped.stops());
    assert_eq!(server.stats.total_messages, CHANNEL_BUFFER_SIZE as u64);
    assert_eq!(server.stats.dropped_messages, 1);
    assert_eq!(server.stats.slow_connections, 1);
    assert_eq!(server.stats.max_pending_messages, CHANNEL_BUFFER_SIZE);
    drop(a);
    let closed = deliver_echo(&mut server, "a:1", Some("x".to_string()), 0);
    assert_eq!(closed, EchoOutcome::ChannelClosed);
    assert!(closed.stops());
    assert_eq!(server.stats.dropped_messages, 1);
}

#[test]
fn echo_that_finds_room_in_time_is_sent() {
    let mut server = WebSocketServer::new();
    let mut a = connect(&mut server, "a:1");
    for _ in 0..CHANNEL_BUFFER_SIZE {
        deliver_echo(&mut server, "a:1", Some("x".to_string()), 0);
    }
    let late = || Some("late".to_string());
    assert_eq!(deliver_echo(&mut server, "a:1", late(), 0), EchoOutcome::Waiting);
    assert_eq!(received(&mut a).as_deref(), Some("x"));
    assert_eq!(deliver_echo(&mut server, "a:1", late(), 2), EchoOutcome::Sent);
    assert_eq!(server.stats.total_messages, CHANNEL_BUFFER_SIZE as u64 + 1);
    assert_eq!((server.stats.dropped_messages, server.stats.slow_connections), (0, 0));
    for _ in 1..CHANNEL_BUFFER_SIZE {
        assert_eq!(received(&mut a).as_deref(), Some("x"));
    }
    assert_eq!(received(&mut a).as_deref(), Some("late"));
}

#[test]
fn echo_outcomes_are_counted() {
    let mut stats = ServerStats::default();
    assert_eq!(record_echo(&mut stats, SendOutcome::Sent, 20, 0), EchoOutcome::Sent);
    assert_eq!(stats.total_messages, 1);
    assert_eq!(stats.total_pending_messages, 30);
    assert_eq!(record_echo(&mut stats, SendOutcome::Sent, 40, 9), EchoOutcome::Sent);
    assert_eq!(stats.total_pending_messages, 10);
    assert_eq!(stats.max_pending_messages, 30);
    assert_eq!(record_echo(&mut stats, SendOutcome::Full, 0, 4), EchoOutcome::Waiting);
    assert_eq!((stats.dropped_messages, stats.slow_connections), (0, 0));
    assert_eq!(record_echo(&mut stats, SendOutcome::Full, 0, 5), EchoOutcome::Dropped);
    assert_eq!((stats.dropped_messages, stats.slow_connections), (1, 1));
    assert_eq!(record_echo(&mut stats, SendOutcome::Closed, 0, 0), EchoOutcome::ChannelClosed);
    stats.total_messages = u64::MAX;
    record_echo(&mut stats, SendOutcome::Sent, 50, 0);
    assert_eq!(stats.total_messages, 0);
}

#[test]
fn writer_goes_on_until_it_cannot() {
    match websocket_sender_step(SenderEvent::Frame(Frame::Text("x".to_string()))) {
        SenderAction::Write(Frame::Text(text)) => assert_eq!(text, "x"),
        _ => panic!("expected a write"),
    }
    assert!(matches!(websocket_sender_step(SenderEvent::Written), SenderAction::Wait));
    assert!(matches!(websocket_sender_step(SenderEvent::WriteFailed), SenderAction::Stop));
    assert!(matches!(websocket_sender_step(SenderEvent::ChannelClosed), SenderAction::Stop));
}

#[test]
fn nothing_is_broadcast_when_switched_off_or_alone() {
    let mut server = WebSocketServer::new();
    let on = BroadcastConfig { enabled: true };
    let off = BroadcastConfig { enabled: false };
    assert!(broadcast_system(&on, &mut server, &config(false, true, usize::MAX), 1).is_none());
    let _a = connect(&mut server, "a:1");
    assert!(broadcast_system(&off, &mut server, &config(false, true, 100), 1).is_none());
    assert!(broadcast_system(&off, &mut server, &config(false, true, usize::MAX), 1).is_none());
    assert!(broadcast_system(&on, &mut server, &config(false, true, 100), 1).is_some());
}

#[test]
fn broadcast_text_is_padded() {
    let mut server = WebSocketServer::new();
    let _a = connect(&mut server, "a:1");
    let on = BroadcastConfig { enabled: true };
    let base = "Server broadcast at 1700000000000ms - 1 connections active - 20Hz FixedUpdate";
    let mut text = |size| {
        broadcast_system(&on, &mut server, &config(false, true, size), 1_700_000_000_000)
            .unwrap()
            .message
    };
    assert_eq!(text(0), base);
    assert_eq!(text(base.len()), base);
    assert_eq!(text(base.len() + 1), format!("{} [DUMMY:]", base));
    assert_eq!(text(base.len() + 9), format!("{} [DUMMY:]", base));
    assert_eq!(text(base.len() + 10), format!("{} [DUMMY:X]", base));
    assert_eq!(text(100), format!("{} [DUMMY:{}]", base, "X".repeat(14)));
    for size in [base.len() + 9, 100, 1024, 10240] {
        assert_eq!(text(size).len(), size);
    }
}

#[test]
fn broadcast_is_wrapped_with_its_time() {
    let mut server = WebSocketServer::new();
    let message = broadcast_envelope(&mut server, 1_700_000_000_000, "hello");
    assert_eq!(message.id, 1_700_000_000_000);
    assert_eq!(message.timestamp, 1_700_000_000_000);
    assert_eq!(message.payload, "broadcast[1700000000000]: hello");
    assert_eq!(message.message_type.as_deref(), Some("broadcast"));
    assert_eq!(message.original_id, None);
    assert_eq!(message.server_timestamp, Some(1_700_000_000_000));
}

#[test]
fn broadcast_numbers_rise() {
    let mut server = WebSocketServer::new();
    let mut number = |time| {
        let message = broadcast_envelope(&mut server, time, "x");
        assert_eq!(message.timestamp, time);
        message.id
    };
    assert_eq!(number(7), 7);
    assert_eq!(number(7), 8);
    assert_eq!(number(7), 9);
    assert_eq!(number(9), 10);
    assert_eq!(number(3), 11);
    assert_eq!(number(40), 40);
    assert_eq!(WebSocketServer::new().next_broadcast_id(0), 0);
}

#[test]
fn broadcast_counts_every_client() {
    let mut server = WebSocketServer::new();
    let mut a = connect(&mut server, "a:1");
    let b = connect(&mut server, "b:1");
    let mut c = connect(&mut server, "c:1");
    drop(b);
    let mut broadcast = Broadcast::new("all".to_string());
    let report = broadcast_to_all_connections(&mut server, &mut broadcast, 0).unwrap();
    assert_eq!((report.sent, report.failed), (2, 1));
    assert_eq!(broadcast.deliveries.len(), 3);
    assert_eq!(server.stats.total_messages, 2);
    assert_eq!(server.stats.dropped_messages, 1);
    assert_eq!(server.stats.slow_connections, 0);
    assert_eq!(received(&mut a).as_deref(), Some("all"));
    assert_eq!(received(&mut c).as_deref(), Some("all"));
}

#[test]
fn broadcast_waits_for_full_channels() {
    let mut server = WebSocketServer::new();
    let mut a = connect(&mut server, "a:1");
    let mut b = connect(&mut server, "b:1");
    for _ in 0..CHANNEL_BUFFER_SIZE {
        deliver_echo(&mut server, "a:1", Some("x".to_string()), 0);
    }
    let before = server.stats.total_messages;
    let mut broadcast = Broadcast::new("all".to_string());
    assert!(broadcast_to_all_connections(&mut server, &mut broadcast, 0).is_none());
    assert!(broadcast_to_all_connections(&mut server, &mut broadcast, 4).is_none());
    assert_eq!(server.stats.total_messages, before);
    assert!(received(&mut a).is_some());
    let report = broadcast_to_all_connections(&mut server, &mut broadcast, 4).unwrap();
    assert_eq!((report.sent, report.failed), (2, 0));
    assert_eq!(server.stats.total_messages, before + 2);
    assert_eq!(received(&mut b).as_deref(), Some("all"));
    assert_eq!(received(&mut b), None);
    let mut late = Broadcast::new("late".to_string());
    assert!(broadcast_to_all_connections(&mut server, &mut late, 0).is_none());
    let report = broadcast_to_all_connections(&mut server, &mut late, 5).unwrap();
    assert_eq!((report.sent, report.failed), (1, 1));
    assert_eq!(server.stats.dropped_messages, 1);
}

#[test]
fn broadcast_without_clients() {
    let mut server = WebSocketServer::new();
    let mut broadcast = Broadcast::new("all".to_string());
    let report = broadcast_to_all_connections(&mut server, &mut broadcast, 0).unwrap();
    assert_eq!((report.sent, report.failed), (0, 0));
}

#[test]
fn broadcasts_go_out_in_order() {
    let mut server = WebSocketServer::new();
    let mut a = connect(&mut server, "a:1");
    for _ in 0..CHANNEL_BUFFER_SIZE {
        deliver_echo(&mut server, "a:1", Some("x".to_string()), 0);
    }
    let texts = vec![Some("one".to_string()), None, Some("two".to_string())];
    let mut queue = BroadcastQueue::new(texts);
    let step = handle_broadcast_messages(&mut server, &mut queue, 0);
    assert!(matches!(step, BroadcastStep::Waiting));
    for _ in 0..CHANNEL_BUFFER_SIZE {
        assert_eq!(received(&mut a).as_deref(), Some("x"));
    }
    match handle_broadcast_messages(&mut server, &mut queue, 1) {
        BroadcastStep::Settled(broadcast, report) => {
            assert_eq!((report.sent, report.failed), (1, 0));
            assert_eq!(broadcast.deliveries[0].addr, "a:1");
        }
        _ => panic!("expected a settled broadcast"),
    }
    let step = handle_broadcast_messages(&mut server, &mut queue, 0);
    assert!(matches!(step, BroadcastStep::Skipped));
    let step = handle_broadcast_messages(&mut server, &mut queue, 0);
    assert!(matches!(step, BroadcastStep::Settled(_, _)));
    let step = handle_broadcast_messages(&mut server, &mut queue, 0);
    assert!(matches!(step, BroadcastStep::Idle));
    assert_eq!(received(&mut a).as_deref(), Some("one"));
    assert_eq!(received(&mut a).as_deref(), Some("two"));
    assert_eq!(received(&mut a), None);
}

#[test]
fn pass_makes_broadcasts_before_it_hands_them_out() {
    assert_eq!(
        fixed_update(),
        vec![FixedStep::Broadcast, FixedStep::Deliver, FixedStep::Report]
    );
}

#[test]
fn connection_ends_with_the_first_task() {
    let mut server = WebSocketServer::new();
    let _other = connect(&mut server, "b:1");
    let ends: [fn(&mut ConnectionTasks, &mut WebSocketServer); 5] = [
        |tasks, server| {
            assert!(matches!(tasks.read(server, None, 0), ReceiveAction::Stop));
        },
        |tasks, server| {
            let action = tasks.read(server, Some(Incoming::Close), 0);
            assert!(matches!(action, ReceiveAction::Stop));
        },
        |tasks, server| {
            let action = tasks.read(server, Some(Incoming::Failed), 0);
            assert!(matches!(action, ReceiveAction::Stop));
        },
        |tasks, server| {
            let action = tasks.write(server, SenderEvent::WriteFailed);
            assert!(matches!(action, SenderAction::Stop));
        },
        |tasks, server| {
            let action = tasks.write(server, SenderEvent::ChannelClosed);
            assert!(matches!(action, SenderAction::Stop));
        },
    ];
    for end in ends {
        let _a = connect(&mut server, "a:1");
        let mut tasks = ConnectionTasks::new("a:1".to_string());
        let action = tasks.read(&mut server, Some(Incoming::Message(request(1, "hi"))), 9);
        assert!(matches!(action, ReceiveAction::Respond(_)));
        assert_eq!(tasks.reply(&mut server, Some("hi".to_string()), 0), EchoOutcome::Sent);
        assert!(matches!(tasks.write(&mut server, SenderEvent::Written), SenderAction::Wait));
        assert_eq!(server.stats.connections, 2);
        end(&mut tasks, &mut server);
        assert!(tasks.stopped);
        assert_eq!(server.stats.connections, 1);
        let reply = tasks.reply(&mut server, Some("hi".to_string()), 0);
        assert_eq!(reply, EchoOutcome::NotConnected);
    }
}

#[test]
fn connection_is_forgotten_once() {
    let mut server = WebSocketServer::new();
    let first = connect(&mut server, "a:1");
    let mut tasks = ConnectionTasks::new("a:1".to_string());
    drop(first);
    let reply = tasks.reply(&mut server, Some("hi".to_string()), 0);
    assert_eq!(reply, EchoOutcome::ChannelClosed);
    assert_eq!(server.stats.connections, 0);
    let _second = connect(&mut server, "a:1");
    tasks.write(&mut server, SenderEvent::ChannelClosed);
    tasks.stop(&mut server);
    assert_eq!(server.stats.connections, 1);
}

#[test]
fn waiting_frames_are_added_up() {
    assert_eq!(total_pending(&vec![]), 0);
    let room = |free| Room { addr: "a:1".to_string(), free };
    assert_eq!(total_pending(&vec![room(50), room(35), room(0)]), 65);
    let mut stats = ServerStats::default();
    stats.total_messages = 7;
    let report = report_on(&mut stats, 9, 4, 3, &vec![room(50), room(35), room(0)]);
    assert_eq!((report.pending, report.max_pending, report.connections), (65, 65, 3));
    assert_eq!(report.messages_per_second, Ratio { numerator: 7, denominator: 4 });
    assert_eq!((stats.total_pending_messages, stats.last_stats_time), (65, Some(9)));
}

#[test]
fn statistics_are_due_every_few_seconds() {
    let mut stats = ServerStats::default();
    let on = config(true, false, 0);
    assert_eq!(stats_due(&stats, &config(false, false, 0), 5, 0), StatsDue::Nothing);
    assert_eq!(stats_due(&stats, &on, 4, 0), StatsDue::Nothing);
    assert_eq!(stats_due(&stats, &on, 5, 0), StatsDue::Start);
    stats.start_time = Some(SECOND);
    assert_eq!(stats_due(&stats, &on, 5, 9 * SECOND), StatsDue::Nothing);
    stats.last_stats_time = Some(SECOND);
    assert_eq!(stats_due(&stats, &on, 5, 5_499_999_999), StatsDue::Nothing);
    assert_eq!(stats_due(&stats, &on, 5, 5_500_000_000), StatsDue::Report(4_500_000_000));
    assert_eq!(stats_due(&stats, &on, 6, 5_500_000_000), StatsDue::Nothing);
    assert_eq!(stats_due(&stats, &on, 10, 0), StatsDue::Nothing);
}

#[test]
fn statistics_report_what_happened_since() {
    let mut server = WebSocketServer::new();
    let on = config(true, false, 0);
    let _a = connect(&mut server, "a:1");
    let _b = connect(&mut server, "b:1");
    assert!(update_stats(&mut server, &on, 0, SECOND).is_none());
    assert_eq!(server.stats.start_time, Some(SECOND));
    for _ in 0..3 {
        deliver_echo(&mut server, "a:1", Some("x".to_string()), 0);
    }
    deliver_echo(&mut server, "b:1", Some("x".to_string()), 0);
    assert!(update_stats(&mut server, &on, 3, 7 * SECOND).is_none());
    let report = update_stats(&mut server, &on, 5, 6 * SECOND).unwrap();
    assert_eq!(report.connections, 2);
    assert_eq!(report.total_messages, 4);
    assert_eq!(
        report.messages_per_second,
        Ratio { numerator: 4, denominator: 5 * SECOND }
    );
    assert_eq!((report.dropped_messages, report.slow_connections), (0, 0));
    assert_eq!((report.pending, report.max_pending), (4, 4));
    assert_eq!(server.stats.last_message_count, 4);
    assert_eq!(server.stats.last_stats_time, Some(6 * SECOND));
    assert!(update_stats(&mut server, &on, 5, 7 * SECOND).is_none());
    let report = update_stats(&mut server, &on, 10, 11 * SECOND).unwrap();
    assert_eq!(
        report.messages_per_second,
        Ratio { numerator: 0, denominator: 5 * SECOND }
    );
}

#[test]
fn slow_steps_are_told_apart() {
    assert!(!TimedStep::Accept.is_slow(10));
    assert!(TimedStep::Accept.is_slow(11));
    assert!(!TimedStep::Handshake.is_slow(100));
    assert!(TimedStep::Handshake.is_slow(101));
    assert!(!TimedStep::Setup.is_slow(50));
    assert!(TimedStep::Setup.is_slow(51));
    assert!(!TimedStep::Broadcast.is_slow(100));
    assert!(TimedStep::Broadcast.is_slow(101));
    for step in [
        TimedStep::Split,
        TimedStep::Register,
        TimedStep::Spawn,
        TimedStep::MessageProcessing,
        TimedStep::Scan,
    ] {
        assert!(!step.is_slow(10));
        assert!(step.is_slow(11));
    }
}

#[test]
fn writer_writes_frames_in_order_until_a_write_fails() {
    let run = |frames: &[&str], fails: Option<usize>| {
        let mut coming = frames.iter();
        let mut written: Vec<String> = Vec::new();
        let mut action = SenderAction::Wait;
        loop {
            let event = match action {
                SenderAction::Wait => match coming.next() {
                    Some(text) => SenderEvent::Frame(Frame::Text(text.to_string())),
                    None => SenderEvent::ChannelClosed,
                },
                SenderAction::Write(Frame::Text(text)) if fails != Some(written.len()) => {
                    written.push(text);
                    SenderEvent::Written
                }
                SenderAction::Write(_) => SenderEvent::WriteFailed,
                SenderAction::Stop => return written,
            };
            action = websocket_sender_step(event);
        }
    };
    assert_eq!(run(&["a", "b", "c"], None), vec!["a", "b", "c"]);
    assert_eq!(run(&["a", "b", "c"], Some(1)), vec!["a"]);
    assert!(run(&["a"], Some(0)).is_empty());
    assert!(run(&[], None).is_empty());
}

#[test]
fn reader_responds_until_the_end() {
    let mut server = WebSocketServer::new();
    let _a = connect(&mut server, "a:1");
    let mut tasks = ConnectionTasks::new("a:1".to_string());
    let frames = vec![
        Incoming::Message(request(1, "one")),
        Incoming::Binary(vec![1]),
        Incoming::Unreadable,
        Incoming::Message(request(2, "two")),
        Incoming::Close,
        Incoming::Message(request(3, "late")),
    ];
    let mut responses = Vec::new();
    for frame in frames {
        match tasks.read(&mut server, Some(frame), 7) {
            ReceiveAction::Respond(response) => responses.push((response.id, response.payload)),
            ReceiveAction::Stop => break,
            _ => {}
        }
    }
    assert_eq!(
        responses,
        vec![(1, "bevy-echo[a:1]: one".to_string()), (2, "bevy-echo[a:1]: two".to_string())]
    );
    assert_eq!(server.stats.connections, 0);
}
