use ionconnect::client::{accept_mouse_move, action_for, plan_backends, Backend, BackendPlan, ClientAction, Injection};
use ionconnect::types::{CapturedEvent, KeyModifiers, KeyboardPress, Message, MouseButton, MouseClick, MouseMove};

fn click(pressed: bool) -> CapturedEvent {
    CapturedEvent::MouseButton { button: MouseButton::Left, pressed }
}

fn key(keycode: u32, pressed: bool) -> CapturedEvent {
    CapturedEvent::Key { keycode, modifiers: KeyModifiers::none(), pressed }
}

#[test]
fn injection_task_applies_the_freshest_move_before_a_click() {
    let mut injection = Injection::new();
    let freshest = Some((5, 7));
    let mut injected = injection.on_discrete(freshest, click(true));
    injected.extend(injection.on_discrete(freshest, click(false)));
    injected.extend(injection.replay(Vec::new()));
    injected.extend(injection.release_all());
    assert_eq!(
        injected,
        vec![CapturedEvent::MouseMove { x: 5, y: 7 }, click(true), click(false)]
    );
}

#[test]
fn injection_task_releases_held_keys_on_shutdown() {
    let mut injection = Injection::new();
    let mut injected = injection.replay(vec![key(30, true)]);
    injected.extend(injection.release_all());
    assert_eq!(injected, vec![key(30, true), key(30, false)]);
}

#[test]
fn a_repeated_position_is_not_injected_twice() {
    let mut injection = Injection::new();
    assert_eq!(injection.on_move(None), None);
    assert_eq!(injection.on_move(Some((1, 2))), Some(CapturedEvent::MouseMove { x: 1, y: 2 }));
    assert_eq!(injection.on_move(Some((1, 2))), None);
    assert_eq!(injection.on_move(Some((1, 3))), Some(CapturedEvent::MouseMove { x: 1, y: 3 }));
    assert_eq!(injection.on_discrete(Some((1, 3)), click(true)), vec![click(true)]);
}

#[test]
fn server_messages_become_injection_work() {
    assert_eq!(action_for(Message::MouseMove(MouseMove { x: 3, y: 4 })), ClientAction::Move { x: 3, y: 4 });
    assert_eq!(
        action_for(Message::MouseClick(MouseClick { button: MouseButton::Right, pressed: true, x: 9, y: 9 })),
        ClientAction::Inject(CapturedEvent::MouseButton { button: MouseButton::Right, pressed: true })
    );
    assert_eq!(
        action_for(Message::KeyboardPress(KeyboardPress { keycode: 30, modifiers: KeyModifiers::none() })),
        ClientAction::Inject(key(30, true))
    );
}

#[test]
fn backend_order_follows_the_environment() {
    assert_eq!(plan_backends(Some("x11"), None, Some("wayland"), true, false), BackendPlan::Forced(Backend::X11));
    assert_eq!(plan_backends(Some("wayland"), None, None, false, true), BackendPlan::Forced(Backend::Wayland));
    assert_eq!(
        plan_backends(Some("otro"), None, Some("wayland"), false, false),
        BackendPlan::Chain { first: Backend::Wayland, second: Backend::X11, unknown_forced: true }
    );
    assert_eq!(
        plan_backends(None, Some("ubuntu:GNOME"), Some("wayland"), true, false),
        BackendPlan::Chain { first: Backend::X11, second: Backend::Wayland, unknown_forced: false }
    );
    assert_eq!(
        plan_backends(None, Some("KDE"), None, true, false),
        BackendPlan::Chain { first: Backend::Wayland, second: Backend::X11, unknown_forced: false }
    );
    assert_eq!(
        plan_backends(None, Some("gnomish"), Some("x11"), true, true),
        BackendPlan::Chain { first: Backend::X11, second: Backend::Wayland, unknown_forced: false }
    );
    assert_eq!(Backend::X11.name(), "x11");
    assert_eq!(Backend::Wayland.name(), "wayland");
}

/// Serial-number order: `seq` is newer when it lies less than half the
/// sequence space after `last`.
fn is_newer(seq: u32, last: u32) -> bool {
    let diff = seq.wrapping_sub(last);
    diff != 0 && diff < 0x8000_0000
}

#[test]
fn accepts_the_first_datagram_and_then_only_newer_ones() {
    let mut last_seen = None;
    assert_eq!(accept_mouse_move(Some((0, 10, 20)), is_newer, &mut last_seen), Some((10, 20)));
    assert_eq!(accept_mouse_move(Some((1, 11, 21)), is_newer, &mut last_seen), Some((11, 21)));
    // An old one arriving after the new one.
    assert_eq!(accept_mouse_move(Some((0, 99, 99)), is_newer, &mut last_seen), None);
    // An exact repeat of the last accepted one.
    assert_eq!(accept_mouse_move(Some((1, 11, 21)), is_newer, &mut last_seen), None);
    assert_eq!(last_seen, Some(1));
}

#[test]
fn a_corrupt_datagram_is_discarded_without_touching_the_freshness_state() {
    let mut last_seen = None;
    assert_eq!(accept_mouse_move(Some((5, 1, 2)), is_newer, &mut last_seen), Some((1, 2)));
    // A datagram that could not be opened.
    assert_eq!(accept_mouse_move(None, is_newer, &mut last_seen), None);
    assert_eq!(last_seen, Some(5));
    assert_eq!(accept_mouse_move(Some((6, 3, 4)), is_newer, &mut last_seen), Some((3, 4)));
}
