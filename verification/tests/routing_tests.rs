use ionconnect::routing::Routing;
use ionconnect::types::{DeviceId, Heartbeat, Message};

fn device(n: u8) -> DeviceId {
    DeviceId::from_bytes([n; 16])
}

#[test]
fn send_to_unknown_device_returns_false() {
    let routing = Routing::new();
    assert!(!routing.send_to(device(1), Message::Heartbeat(Heartbeat { sequence: 0 })).0);
}

#[test]
fn send_to_registered_device_delivers_the_message() {
    let mut routing = Routing::new();
    let (tx, mut rx) = tokio::sync::mpsc::unbounded_channel();
    routing.register(device(2), tx);

    assert!(routing.is_connected(device(2)));
    assert!(routing.send_to(device(2), Message::Heartbeat(Heartbeat { sequence: 7 })).0);
    assert_eq!(rx.try_recv(), Ok(Message::Heartbeat(Heartbeat { sequence: 7 })));
}

#[test]
fn unregister_stops_delivery() {
    let mut routing = Routing::new();
    let (tx, _rx) = tokio::sync::mpsc::unbounded_channel();
    routing.register(device(3), tx);
    routing.unregister(device(3));

    assert!(!routing.is_connected(device(3)));
    assert!(!routing.send_to(device(3), Message::Heartbeat(Heartbeat { sequence: 1 })).0);
}

#[test]
fn broadcast_reaches_every_registered_device() {
    let mut routing = Routing::new();
    let (tx_a, mut rx_a) = tokio::sync::mpsc::unbounded_channel();
    let (tx_b, mut rx_b) = tokio::sync::mpsc::unbounded_channel();
    routing.register(device(4), tx_a);
    routing.register(device(5), tx_b);

    routing.broadcast(&Message::Heartbeat(Heartbeat { sequence: 3 }));

    assert_eq!(rx_a.try_recv(), Ok(Message::Heartbeat(Heartbeat { sequence: 3 })));
    assert_eq!(rx_b.try_recv(), Ok(Message::Heartbeat(Heartbeat { sequence: 3 })));
}

#[test]
fn a_closed_channel_refuses_the_message_and_re_registering_replaces_it() {
    let mut routing = Routing::new();
    let (tx_old, rx_old) = tokio::sync::mpsc::unbounded_channel();
    routing.register(device(6), tx_old);
    drop(rx_old);
    assert!(!routing.send_to(device(6), Message::Heartbeat(Heartbeat { sequence: 1 })).0);

    let (tx_new, mut rx_new) = tokio::sync::mpsc::unbounded_channel();
    routing.register(device(6), tx_new);
    assert!(routing.send_to(device(6), Message::Heartbeat(Heartbeat { sequence: 2 })).0);
    assert_eq!(rx_new.try_recv(), Ok(Message::Heartbeat(Heartbeat { sequence: 2 })));
    assert!(rx_new.try_recv().is_err());
}

#[test]
fn channel_gives_the_registered_sender_of_that_device() {
    let mut routing = Routing::new();
    let (tx_a, _rx_a) = tokio::sync::mpsc::unbounded_channel::<Message>();
    let (tx_b, _rx_b) = tokio::sync::mpsc::unbounded_channel::<Message>();
    routing.register(device(7), tx_a.clone());
    routing.register(device(8), tx_b.clone());
    assert!(routing.channel(device(7)).expect("registrado").same_channel(&tx_a));
    assert!(routing.channel(device(8)).expect("registrado").same_channel(&tx_b));
    assert!(routing.channel(device(9)).is_none());
}

#[test]
fn send_to_reaches_only_the_device_named() {
    let mut routing = Routing::new();
    let (tx_a, mut rx_a) = tokio::sync::mpsc::unbounded_channel();
    let (tx_b, mut rx_b) = tokio::sync::mpsc::unbounded_channel();
    routing.register(device(10), tx_a);
    routing.register(device(11), tx_b);
    assert!(routing.send_to(device(11), Message::Heartbeat(Heartbeat { sequence: 4 })).0);
    assert!(rx_a.try_recv().is_err());
    assert_eq!(rx_b.try_recv(), Ok(Message::Heartbeat(Heartbeat { sequence: 4 })));
}
