use ionconnect::held::{ForwardedHeld, HeldGuard, HeldInput};
use ionconnect::types::{CapturedEvent, KeyModifiers, KeyboardRelease, Message, MouseButton, MouseClick};

fn key(keycode: u32, pressed: bool) -> CapturedEvent {
    CapturedEvent::Key { keycode, modifiers: KeyModifiers::none(), pressed }
}

fn button(button: MouseButton, pressed: bool) -> CapturedEvent {
    CapturedEvent::MouseButton { button, pressed }
}

#[test]
fn forwarded_held_emits_the_missing_release_for_everything_still_down() {
    let mut fwd = ForwardedHeld::new();
    fwd.track_forwarded(&key(42, true));
    fwd.track_forwarded(&button(MouseButton::Left, true));
    fwd.track_forwarded(&key(30, true));
    fwd.track_forwarded(&key(30, false));

    let mut releases = fwd.drain_releases();
    releases.sort_by_key(|m| format!("{m:?}"));
    assert_eq!(
        releases,
        {
            let mut expected = vec![
                Message::KeyboardRelease(KeyboardRelease { keycode: 42, modifiers: KeyModifiers::none() }),
                Message::MouseClick(MouseClick { button: MouseButton::Left, pressed: false, x: 0, y: 0 }),
            ];
            expected.sort_by_key(|m| format!("{m:?}"));
            expected
        },
        "solo lo que sigue presionado, con su pressed:false"
    );
    assert!(
        fwd.drain_releases().is_empty(),
        "drenar vacía el conjunto — un segundo hand-off no re-libera"
    );
}

#[test]
fn forwarded_held_ignores_scroll_notches() {
    let mut fwd = ForwardedHeld::new();
    fwd.track_forwarded(&button(MouseButton::ScrollUp, true));
    fwd.track_forwarded(&button(MouseButton::ScrollDown, true));
    assert!(
        fwd.drain_releases().is_empty(),
        "el scroll es una muesca instantánea, no algo que quede mantenido"
    );
}

#[test]
fn drops_a_press_reported_twice_without_a_release_in_between() {
    let mut held = HeldGuard::new();
    assert!(held.accept(&key(30, true)), "primera pulsación: nueva");
    assert!(!held.accept(&key(30, true)), "segunda pulsación sin soltar antes: duplicado, se descarta");
}

#[test]
fn drops_a_release_reported_twice_without_a_press_in_between() {
    let mut held = HeldGuard::new();
    assert!(held.accept(&key(30, true)));
    assert!(held.accept(&key(30, false)), "primer release: nuevo");
    assert!(!held.accept(&key(30, false)), "segundo release sin volver a presionar: duplicado, se descarta");
}

#[test]
fn accepts_legitimate_repeated_taps_of_the_same_key() {
    let mut held = HeldGuard::new();
    for _ in 0..3 {
        assert!(held.accept(&key(30, true)));
        assert!(held.accept(&key(30, false)));
    }
}

#[test]
fn tracks_keys_and_buttons_independently() {
    let mut held = HeldGuard::new();
    assert!(held.accept(&key(30, true)));
    assert!(held.accept(&button(MouseButton::Left, true)));
    assert!(!held.accept(&button(MouseButton::Left, true)));
    assert!(held.accept(&key(30, false)));
    assert!(held.accept(&key(30, true)));
}

#[test]
fn always_accepts_motion_events() {
    let mut held = HeldGuard::new();
    assert!(held.accept(&CapturedEvent::MouseMove { x: 1, y: 1 }));
    assert!(held.accept(&CapturedEvent::MouseMove { x: 1, y: 1 }));
    assert!(held.accept(&CapturedEvent::AbsolutePosition { x: 1, y: 1 }));
}

#[test]
fn release_all_is_a_noop_when_nothing_is_held() {
    let mut held = HeldInput::new();
    assert!(held.release_all().is_empty());
}

#[test]
fn tracks_and_releases_a_key_left_pressed() {
    let mut held = HeldInput::new();
    held.track(&key(30, true));
    assert_eq!(held.release_all(), vec![key(30, false)]);
    assert!(held.release_all().is_empty());
}

#[test]
fn a_matching_release_clears_the_held_key_before_disconnect() {
    let mut held = HeldInput::new();
    held.track(&key(30, true));
    held.track(&key(30, false));
    assert!(held.release_all().is_empty());
}

#[test]
fn tracks_and_releases_a_held_mouse_button() {
    let mut held = HeldInput::new();
    held.track(&button(MouseButton::Left, true));
    assert_eq!(held.release_all(), vec![button(MouseButton::Left, false)]);
}

#[test]
fn releases_keys_before_buttons() {
    let mut held = HeldInput::new();
    held.track(&button(MouseButton::Right, true));
    held.track(&key(42, true));
    held.track(&key(30, true));
    assert_eq!(
        held.release_all(),
        vec![key(42, false), key(30, false), button(MouseButton::Right, false)]
    );
}
