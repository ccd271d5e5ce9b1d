use ionconnect::handoff::{Active, HandoffAction, HandoffState};
use ionconnect::screen::{Layout, MonitorGeometry, ScreenEdge, VirtualDesktop};
use ionconnect::session::{ActivationOutcome, PortalInputOutcome, PositionOutcome, SessionState};
use ionconnect::types::{CapturedEvent, DeviceId, KeyModifiers, KeyboardPress, KeyboardRelease, Message, MouseButton};

fn device(n: u8) -> DeviceId {
    DeviceId::from_bytes([n; 16])
}

fn desktop() -> VirtualDesktop {
    VirtualDesktop::new(vec![MonitorGeometry::new(0, 0, 1920, 1080)])
}

fn handoff(local: DeviceId, remote: DeviceId) -> HandoffState {
    let mut layout = Layout::new();
    layout.set_desktop(local, desktop());
    layout.set_desktop(remote, desktop());
    layout.link_mirrored(local, ScreenEdge::Right, remote);
    HandoffState::new(layout, local)
}

fn all_repeat(_keycode: u32) -> bool {
    true
}

fn key(keycode: u32, pressed: bool) -> CapturedEvent {
    CapturedEvent::Key { keycode, modifiers: KeyModifiers::none(), pressed }
}

#[test]
fn a_crossing_hands_off_and_moves_are_rate_limited() {
    let local = device(1);
    let remote = device(2);
    let mut state = handoff(local, remote);
    let mut session = SessionState::new(all_repeat as fn(u32) -> bool, 500, 30, 1_000);
    let mut position = ionconnect::x11::SharedPosition::new(0, 0);

    let out = session.on_position_report(&mut state, &mut position, CapturedEvent::MouseMove { x: 1920, y: 10 }, 1920, 10, 1_000);
    match out {
        PositionOutcome::HandedOff { losing, releases, action } => {
            assert_eq!(losing, None);
            assert!(releases.is_empty());
            assert_eq!(action, HandoffAction::ForwardTo { device: remote, x: 0, y: 10 });
        }
        other => panic!("se esperaba un hand-off, fue {other:?}"),
    }
    assert_eq!(state.active(), Active::Remote(remote));

    let out = session.on_position_report(&mut state, &mut position, CapturedEvent::MouseMove { x: 5, y: 2000 }, 5, 2000, 1_010);
    match out {
        PositionOutcome::Moved { device: d, x, y, send } => {
            assert_eq!((d, x, y), (remote, 5, 1079));
            assert_eq!(send, Some((remote, 5, 1079)));
        }
        other => panic!("se esperaba un movimiento, fue {other:?}"),
    }
    let out = session.on_position_report(&mut state, &mut position, CapturedEvent::MouseMove { x: 6, y: 7 }, 6, 7, 1_011);
    assert!(matches!(out, PositionOutcome::Moved { send: None, .. }));
    assert_eq!(session.flush_pending_move(1_013), None);
    assert_eq!(session.flush_pending_move(1_014), Some((remote, 6, 7)));
}

#[test]
fn coming_back_releases_what_was_forwarded() {
    let local = device(1);
    let remote = device(2);
    let mut state = handoff(local, remote);
    let mut session = SessionState::new(all_repeat as fn(u32) -> bool, 500, 30, 1_000);
    let mut position = ionconnect::x11::SharedPosition::new(0, 0);
    session.on_position_report(&mut state, &mut position, CapturedEvent::MouseMove { x: 1920, y: 10 }, 1920, 10, 1_000);

    let m = session.on_button_or_key(state.active(), key(42, true), 0, 0, 1_001);
    assert_eq!(m, Some((remote, Message::KeyboardPress(KeyboardPress { keycode: 42, modifiers: KeyModifiers::none() }))));
    assert_eq!(session.on_button_or_key(state.active(), key(42, true), 0, 0, 1_002), None);

    let out = session.on_position_report(&mut state, &mut position, CapturedEvent::MouseMove { x: -1, y: 10 }, -1, 10, 1_003);
    match out {
        PositionOutcome::HandedOff { losing, releases, action } => {
            assert_eq!(losing, Some(remote));
            assert_eq!(releases, vec![Message::KeyboardRelease(KeyboardRelease { keycode: 42, modifiers: KeyModifiers::none() })]);
            assert_eq!(action, HandoffAction::ReturnLocal { x: 1919, y: 10 });
        }
        other => panic!("se esperaba el regreso, fue {other:?}"),
    }
    assert_eq!(session.repeater.next_deadline(), None);
}

#[test]
fn repetitions_are_forwarded_only_while_remote() {
    let remote = device(2);
    let mut session = SessionState::new(all_repeat as fn(u32) -> bool, 500, 30, 1_000);
    assert_eq!(session.on_button_or_key(Active::Local, key(30, true), 0, 0, 1_000), None);
    assert_eq!(session.emit_due_key_repeats(Active::Remote(remote), 1_499), None);
    assert_eq!(
        session.emit_due_key_repeats(Active::Remote(remote), 1_500),
        Some((remote, Message::KeyboardPress(KeyboardPress { keycode: 30, modifiers: KeyModifiers::none() })))
    );
    assert_eq!(session.emit_due_key_repeats(Active::Local, 1_600), None);
    assert_eq!(session.repeater.next_deadline(), None);
}

#[test]
fn a_vanished_peer_gives_control_back() {
    let local = device(1);
    let remote = device(2);
    let mut state = handoff(local, remote);
    let mut session = SessionState::new(all_repeat as fn(u32) -> bool, 500, 30, 1_000);
    let mut position = ionconnect::x11::SharedPosition::new(0, 0);
    session.on_position_report(&mut state, &mut position, CapturedEvent::MouseMove { x: 1920, y: 10 }, 1920, 10, 1_000);
    assert!(!session.reclaim_if_gone(&mut state, remote, true));
    assert_eq!(state.active(), Active::Remote(remote));
    assert!(session.reclaim_if_gone(&mut state, remote, false));
    assert_eq!(state.active(), Active::Local);
    assert!(session.liveness_check_due(1_200));
    assert!(!session.liveness_check_due(1_300));
}

#[test]
fn portal_activation_and_input() {
    let local = device(1);
    let remote = device(2);
    let mut state = handoff(local, remote);
    let mut session = SessionState::new(all_repeat as fn(u32) -> bool, 500, 30, 1_000);

    assert!(matches!(session.on_activation(&mut state, None), ActivationOutcome::NoCursor));
    assert!(matches!(session.on_activation(&mut state, Some((-1, 5))), ActivationOutcome::Release));
    match session.on_activation(&mut state, Some((1920, 5))) {
        ActivationOutcome::HandedOff { device: d, x, y } => assert_eq!((d, x, y), (remote, 0, 5)),
        other => panic!("se esperaba un hand-off, fue {other:?}"),
    }

    match session.on_portal_input(&mut state, CapturedEvent::MouseButton { button: MouseButton::Left, pressed: true }, (7, 8), 1_000) {
        PortalInputOutcome::Forward { device: d, message } => {
            assert_eq!(d, remote);
            assert!(matches!(message, Message::MouseClick(c) if c.x == 7 && c.y == 8 && c.pressed));
        }
        other => panic!("se esperaba reenviar, fue {other:?}"),
    }
    assert!(matches!(
        session.on_portal_input(&mut state, CapturedEvent::MouseButton { button: MouseButton::Left, pressed: true }, (7, 8), 1_001),
        PortalInputOutcome::Dropped
    ));
    match session.on_portal_input(&mut state, CapturedEvent::MouseMove { x: -1, y: 20 }, (0, 0), 1_002) {
        PortalInputOutcome::Returned { losing, releases, x, y } => {
            assert_eq!(losing, remote);
            assert_eq!(releases.len(), 1);
            assert_eq!((x, y), (1919, 20));
        }
        other => panic!("se esperaba el regreso, fue {other:?}"),
    }
    assert!(matches!(session.on_portal_input(&mut state, key(30, true), (0, 0), 1_003), PortalInputOutcome::Local));
}
