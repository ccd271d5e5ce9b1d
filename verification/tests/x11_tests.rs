use ionconnect::input::InputError;
use ionconnect::types::{CapturedEvent, KeyModifiers, MouseButton};
use ionconnect::x11::{
    button_event, button_from_code, button_to_code, clamp_to_i16, fake_input, grab_point, key_event,
    motion_event, valuator_slot, x11_keycode_to_evdev, FakeInput, KeyRepeatSettings, SharedPosition,
};

fn settings() -> KeyRepeatSettings {
    let mut per_key = [0xffu8; 32];
    per_key[0] = 0x00;
    per_key[4] = 0xdf;
    per_key[6] = 0xfb;
    per_key[7] = 0xbf;
    KeyRepeatSettings { per_key, ..KeyRepeatSettings::default() }
}

#[test]
fn ordinary_keys_repeat() {
    for keycode in [30, 14, 105] {
        assert!(settings().repeats(keycode), "la tecla evdev {keycode} debería repetirse");
    }
}

#[test]
fn modifiers_do_not_repeat() {
    for keycode in [42, 29, 54] {
        assert!(!settings().repeats(keycode), "el modificador evdev {keycode} no debería repetirse");
    }
}

#[test]
fn nothing_repeats_when_globally_disabled() {
    let disabled = KeyRepeatSettings { enabled: false, ..settings() };
    assert!(!disabled.repeats(30));
}

#[test]
fn keycodes_past_the_bitmask_do_not_repeat() {
    assert!(!settings().repeats(248));
    assert!(!settings().repeats(u32::MAX));
}

#[test]
fn defaults_repeat_every_key() {
    let defaults = KeyRepeatSettings::default();
    assert!(defaults.repeats(30));
    assert!(defaults.enabled);
}

#[test]
fn shared_position_accumulates_and_resets() {
    let mut position = SharedPosition::new(10, 20);
    assert_eq!(position.add(5, -3), (15, 17));
    assert_eq!(position.add(1, 1), (16, 18));
    position.reset(0, 0);
    assert_eq!(position.get(), (0, 0));
}

#[test]
fn round_trips_button_codes() {
    for button in [
        MouseButton::Left,
        MouseButton::Middle,
        MouseButton::Right,
        MouseButton::Back,
        MouseButton::Forward,
    ] {
        assert_eq!(button_from_code(u32::from(button_to_code(button))), Some(button));
    }
}

#[test]
fn scroll_notches_use_buttons_four_to_seven() {
    assert_eq!(button_to_code(MouseButton::ScrollUp), 4);
    assert_eq!(button_to_code(MouseButton::ScrollDown), 5);
    assert_eq!(button_to_code(MouseButton::ScrollLeft), 6);
    assert_eq!(button_to_code(MouseButton::ScrollRight), 7);
    assert_eq!(button_from_code(0), None);
    assert_eq!(button_from_code(10), None);
}

#[test]
fn finds_the_slot_of_a_present_valuator() {
    let mask = [0b0000_0101u32];
    assert_eq!(valuator_slot(&mask, 0), Some(0));
    assert_eq!(valuator_slot(&mask, 1), None);
    assert_eq!(valuator_slot(&mask, 2), Some(1));
    assert_eq!(valuator_slot(&mask, 40), None);
}

#[test]
fn keycodes_lose_the_xkb_offset() {
    assert_eq!(x11_keycode_to_evdev(38), 30);
    assert_eq!(x11_keycode_to_evdev(3), 0);
}

#[test]
fn coordinates_saturate_into_sixteen_bits() {
    assert_eq!(clamp_to_i16(70_000), i16::MAX);
    assert_eq!(clamp_to_i16(-70_000), i16::MIN);
    assert_eq!(clamp_to_i16(123), 123);
}

#[test]
fn grab_point_stays_on_screen() {
    assert_eq!(grab_point(-5, 5000, 1920, 1080), (0, 1079));
    assert_eq!(grab_point(100, 200, 1920, 1080), (100, 200));
}

#[test]
fn capture_events_translate() {
    assert_eq!(motion_event(100 << 16, -(3 << 16)), CapturedEvent::AbsolutePosition { x: 100, y: -3 });
    assert_eq!(
        button_event(3, true),
        Some(CapturedEvent::MouseButton { button: MouseButton::Right, pressed: true })
    );
    assert_eq!(button_event(12, true), None);
    assert_eq!(
        key_event(38, false),
        CapturedEvent::Key { keycode: 30, modifiers: KeyModifiers::none(), pressed: false }
    );
}

#[test]
fn injection_uses_xtest_codes() {
    assert_eq!(
        fake_input(CapturedEvent::MouseMove { x: 40_000, y: 10 }).unwrap(),
        Some(FakeInput { event_type: 6, detail: 0, x: i16::MAX, y: 10 })
    );
    assert_eq!(
        fake_input(CapturedEvent::MouseButton { button: MouseButton::Back, pressed: false }).unwrap(),
        Some(FakeInput { event_type: 5, detail: 8, x: 0, y: 0 })
    );
    assert_eq!(
        fake_input(CapturedEvent::Key { keycode: 30, modifiers: KeyModifiers::none(), pressed: true }).unwrap(),
        Some(FakeInput { event_type: 2, detail: 38, x: 0, y: 0 })
    );
    assert_eq!(fake_input(CapturedEvent::AbsolutePosition { x: 1, y: 2 }).unwrap(), None);
    match fake_input(CapturedEvent::Key { keycode: 300, modifiers: KeyModifiers::none(), pressed: true }) {
        Err(InputError::X11Connection(m)) => assert_eq!(m, "keycode fuera de rango: 300"),
        other => panic!("se esperaba un error, fue {other:?}"),
    }
}

#[test]
fn extracts_second_present_valuator() {
    // Valuators 0 and 2 are present; valuator 1 is not.
    let mask = [0b0000_0101u32];
    let values: [(i32, u32); 2] = [(3, 0), (-7, 0)];
    let value = |index: u16| -> Option<f64> {
        let (integral, frac) = *values.get(valuator_slot(&mask, index)?)?;
        Some(f64::from(integral) + f64::from(frac) / f64::from(u32::MAX))
    };
    assert_eq!(value(0), Some(3.0));
    assert_eq!(value(1), None);
    assert_eq!(value(2), Some(-7.0));
}
