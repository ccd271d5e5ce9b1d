use ionconnect::client::{action_for, ClientAction};
use ionconnect::protocol::{
    authenticate_peer, authentication_message, clipboard_event, peer_event_for, text_of_clipboard_sync, AuthError,
    PeerEvent, PROTOCOL_VERSION,
};
use ionconnect::screen::ScreenEdge;
use ionconnect::server::ConfiguredPeer;
use ionconnect::types::{
    Authentication, ClipboardMime, ClipboardSync, DeviceId, Disconnect, DisplayGeometry, Heartbeat, Message, UdpHello,
};

fn device(n: u8) -> DeviceId {
    DeviceId::from_bytes([n; 16])
}

fn auth(id: DeviceId) -> Message {
    Message::Authentication(Authentication {
        device_id: id,
        device_name: "laptop".to_string(),
        protocol_version: 1,
        cert_fingerprint: [0u8; 32],
    })
}

fn sync(data: &[u8]) -> Message {
    Message::ClipboardSync(ClipboardSync { mime: ClipboardMime::Text, data: data.to_vec() })
}

#[test]
fn the_authentication_sent_carries_id_name_and_version() {
    let m = authentication_message(device(1), "escritorio".to_string());
    assert_eq!(
        m,
        Message::Authentication(Authentication {
            device_id: device(1),
            device_name: "escritorio".to_string(),
            protocol_version: PROTOCOL_VERSION,
            cert_fingerprint: [0u8; 32],
        })
    );
    assert_eq!(PROTOCOL_VERSION, 1);
}

#[test]
fn only_a_configured_peer_that_authenticates_first_is_accepted() {
    let known = vec![ConfiguredPeer { device: device(2), name: "laptop".to_string(), edge: ScreenEdge::Right }];
    match authenticate_peer(Some(auth(device(2))), &known) {
        Ok(a) => {
            assert_eq!(a.device_id, device(2));
            assert_eq!(a.device_name, "laptop");
        }
        Err(e) => panic!("debería aceptarse: {e:?}"),
    }
    assert_eq!(authenticate_peer(Some(auth(device(3))), &known).unwrap_err(), AuthError::UnknownPeer(device(3)));
    assert_eq!(
        authenticate_peer(Some(Message::Heartbeat(Heartbeat { sequence: 0 })), &known).unwrap_err(),
        AuthError::NotAuthentication
    );
    assert_eq!(authenticate_peer(None, &known).unwrap_err(), AuthError::NotAuthentication);
}

#[test]
fn the_server_applies_text_clipboards_and_peer_geometry() {
    assert_eq!(peer_event_for(sync("hola ñ".as_bytes())), PeerEvent::ApplyClipboard("hola ñ".to_string()));
    assert_eq!(peer_event_for(sync(&[0xff, 0xfe])), PeerEvent::Ignore);
    assert_eq!(
        peer_event_for(Message::DisplayGeometry(DisplayGeometry { width: 1366, height: 768 })),
        PeerEvent::PeerGeometry { width: 1366, height: 768 }
    );
    assert_eq!(peer_event_for(Message::Disconnect(Disconnect)), PeerEvent::Close);
    assert_eq!(peer_event_for(Message::UdpHello(UdpHello { port: 9 })), PeerEvent::Ignore);
    assert_eq!(peer_event_for(auth(device(1))), PeerEvent::Ignore);
    assert_eq!(clipboard_event(None), PeerEvent::Ignore);
    assert_eq!(clipboard_event(Some("x".to_string())), PeerEvent::ApplyClipboard("x".to_string()));
}

#[test]
fn clipboard_bytes_decode_only_when_they_are_utf8() {
    assert_eq!(text_of_clipboard_sync("añadido".as_bytes().to_vec()), Some("añadido".to_string()));
    assert_eq!(text_of_clipboard_sync(vec![0xc3]), None);
    assert_eq!(text_of_clipboard_sync(Vec::new()), Some(String::new()));
}

#[test]
fn the_client_applies_clipboards_and_ends_on_disconnect() {
    assert_eq!(action_for(sync(b"del servidor")), ClientAction::ApplyClipboard("del servidor".to_string()));
    assert_eq!(action_for(sync(&[0x80])), ClientAction::Ignore);
    assert_eq!(action_for(Message::Disconnect(Disconnect)), ClientAction::EndSession);
    assert_eq!(action_for(Message::UdpHello(UdpHello { port: 4 })), ClientAction::Ignore);
    assert_eq!(action_for(Message::DisplayGeometry(DisplayGeometry { width: 1, height: 1 })), ClientAction::Ignore);
}
