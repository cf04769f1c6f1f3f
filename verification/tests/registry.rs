use rust_ws_benchmark::channel::{Frame, SendOutcome};
use rust_ws_benchmark::registry::{Connections, Delivery, CHANNEL_BUFFER_SIZE};

fn text(frame: Frame) -> String {
    match frame {
        Frame::Text(text) => text,
        Frame::Binary(_) => panic!("expected text"),
    }
}

fn rooms(connections: &Connections) -> Vec<(String, usize)> {
    let mut rooms: Vec<(String, usize)> =
        connections.rooms().into_iter().map(|room| (room.addr, room.free)).collect();
    rooms.sort();
    rooms
}

#[test]
fn registry_starts_empty() {
    let mut connections = Connections::new();
    assert_eq!(connections.len(), 0);
    assert!(connections.try_send("10.0.0.1:5000", Frame::Text("x".to_string())).is_none());
    assert!(connections.rooms().is_empty());
}

#[test]
fn registered_address_gets_its_frames() {
    let mut connections = Connections::new();
    let (mut first, fresh) = connections.register("10.0.0.1:5000".to_string());
    assert!(fresh);
    let (mut second, fresh) = connections.register("10.0.0.2:5000".to_string());
    assert!(fresh);
    assert_eq!(connections.len(), 2);
    let sent = connections.try_send("10.0.0.2:5000", Frame::Text("hello".to_string()));
    assert_eq!(sent, Some((SendOutcome::Sent, CHANNEL_BUFFER_SIZE - 1)));
    assert_eq!(text(second.try_recv().unwrap()), "hello");
    assert!(first.try_recv().is_err());
}

#[test]
fn second_registration_keeps_the_first() {
    let mut connections = Connections::new();
    let (mut first, _) = connections.register("a:1".to_string());
    let (mut second, fresh) = connections.register("a:1".to_string());
    assert!(!fresh);
    assert_eq!(connections.len(), 1);
    connections.try_send("a:1", Frame::Text("x".to_string()));
    assert_eq!(text(first.try_recv().unwrap()), "x");
    assert!(second.try_recv().is_err());
    assert!(second.is_closed());
}

#[test]
fn unregistering_undoes_registering() {
    let mut connections = Connections::new();
    let (_keep, _) = connections.register("a:1".to_string());
    let (gone, _) = connections.register("b:1".to_string());
    assert!(connections.unregister("b:1"));
    assert!(gone.is_closed());
    assert!(!connections.unregister("b:1"));
    assert_eq!(connections.len(), 1);
    assert!(connections.try_send("b:1", Frame::Text("x".to_string())).is_none());
    assert!(connections.try_send("a:1", Frame::Text("x".to_string())).is_some());
    let (_again, fresh) = connections.register("b:1".to_string());
    assert!(fresh);
    assert_eq!(connections.len(), 2);
}

#[test]
fn full_channel_refuses() {
    let mut connections = Connections::new();
    let (mut receiver, _) = connections.register("a:1".to_string());
    for i in 0..CHANNEL_BUFFER_SIZE {
        let sent = connections.try_send("a:1", Frame::Text(i.to_string()));
        assert_eq!(sent, Some((SendOutcome::Sent, CHANNEL_BUFFER_SIZE - 1 - i)));
    }
    assert_eq!(rooms(&connections), vec![("a:1".to_string(), 0)]);
    let sent = connections.try_send("a:1", Frame::Text("late".to_string()));
    assert_eq!(sent, Some((SendOutcome::Full, 0)));
    for i in 0..CHANNEL_BUFFER_SIZE {
        assert_eq!(text(receiver.try_recv().unwrap()), i.to_string());
    }
    assert!(receiver.try_recv().is_err());
    assert_eq!(rooms(&connections), vec![("a:1".to_string(), 50)]);
}

#[test]
fn closed_channel_refuses() {
    let mut connections = Connections::new();
    let (receiver, _) = connections.register("a:1".to_string());
    drop(receiver);
    let sent = connections.try_send("a:1", Frame::Text("x".to_string())).unwrap();
    assert_eq!(sent.0, SendOutcome::Closed);
}

#[test]
fn frame_to_all_reaches_each_once() {
    let mut connections = Connections::new();
    let mut receivers = Vec::new();
    for i in 0..100 {
        receivers.push(connections.register(format!("host:{}", i)).0);
    }
    drop(receivers.pop());
    let deliveries = connections.try_send_all(&Frame::Binary(vec![1, 2, 3]));
    assert_eq!(deliveries.len(), 100);
    let mut addrs: Vec<String> = deliveries.iter().map(|d| d.addr.clone()).collect();
    addrs.sort();
    addrs.dedup();
    assert_eq!(addrs.len(), 100);
    for delivery in &deliveries {
        let expected = if delivery.addr == "host:99" {
            SendOutcome::Closed
        } else {
            SendOutcome::Sent
        };
        assert_eq!(delivery.outcome, expected);
    }
    for receiver in &mut receivers {
        match receiver.try_recv() {
            Ok(Frame::Binary(data)) => assert_eq!(data, vec![1, 2, 3]),
            _ => panic!("expected the bytes"),
        }
        assert!(receiver.try_recv().is_err());
    }
}

#[test]
fn slots_are_used_again() {
    let mut connections = Connections::new();
    for round in 0..50 {
        let (mut receiver, fresh) = connections.register(format!("host:{}", round));
        assert!(fresh);
        connections.try_send(&format!("host:{}", round), Frame::Text("x".to_string()));
        assert!(receiver.try_recv().is_ok());
        assert!(connections.unregister(&format!("host:{}", round)));
        assert_eq!(connections.len(), 0);
    }
}

#[test]
fn channels_buffer_the_agreed_number() {
    assert_eq!(CHANNEL_BUFFER_SIZE, 50);
    let mut connections = Connections::new();
    let (receiver, _) = connections.register("a:1".to_string());
    assert_eq!(receiver.max_capacity(), 50);
}

#[test]
fn rooms_are_measured_by_address() {
    let mut connections = Connections::new();
    let (_a, _) = connections.register("a:1".to_string());
    let (_b, _) = connections.register("b:1".to_string());
    connections.try_send("b:1", Frame::Text("x".to_string()));
    connections.try_send("b:1", Frame::Text("y".to_string()));
    assert_eq!(rooms(&connections), vec![("a:1".to_string(), 50), ("b:1".to_string(), 48)]);
}

#[test]
fn full_channels_are_tried_again() {
    let mut connections = Connections::new();
    let (mut full, _) = connections.register("full:1".to_string());
    let (mut free, _) = connections.register("free:1".to_string());
    let (_gone, _) = connections.register("gone:1".to_string());
    for _ in 0..CHANNEL_BUFFER_SIZE {
        connections.try_send("full:1", Frame::Text("x".to_string()));
        connections.try_send("gone:1", Frame::Text("x".to_string()));
    }
    let frame = Frame::Text("all".to_string());
    let mut deliveries = connections.try_send_all(&frame);
    connections.retry_full(&frame, &mut deliveries);
    let outcome = |deliveries: &Vec<Delivery>, addr: &str| {
        deliveries.iter().find(|delivery| delivery.addr == addr).unwrap().outcome
    };
    assert_eq!(outcome(&deliveries, "full:1"), SendOutcome::Full);
    assert_eq!(outcome(&deliveries, "free:1"), SendOutcome::Sent);
    assert!(full.try_recv().is_ok());
    connections.unregister("gone:1");
    connections.retry_full(&frame, &mut deliveries);
    assert_eq!(outcome(&deliveries, "full:1"), SendOutcome::Sent);
    assert_eq!(outcome(&deliveries, "free:1"), SendOutcome::Sent);
    assert_eq!(outcome(&deliveries, "gone:1"), SendOutcome::Closed);
    assert_eq!(text(free.try_recv().unwrap()), "all");
    assert!(free.try_recv().is_err());
}
