use ionconnect::display::{
    fallback_geometry, wants_wayland, wayland_display, x11_display, zones_representable, CaptureBackend,
};
use ionconnect::config::PeerConfig;
use ionconnect::input::{portal_error, x11_error, InputError};
use ionconnect::screen::{MonitorGeometry, ScreenEdge};
use ionconnect::server::{barriers_for, build_layout, configured_peers, is_known_peer, reported_desktop};
use ionconnect::types::{CapturedEvent, DeviceId, KeyModifiers, MouseButton};
use ionconnect::wayland::{
    barrier_for_edge, button_from_evdev, button_to_evdev, ei_button_event, portal_barriers, scroll_axis,
    zones_bounding_box, Axis, BarrierSpec, CaptureZone, PortalCall, PortalInjection,
};
use ionconnect::win32::{
    key_event, mouse_event, normalize_absolute, win_input, WinInput, WindowsCapture, WindowsInjector,
    MOUSEEVENTF_ABSOLUTE, MOUSEEVENTF_HWHEEL, MOUSEEVENTF_LEFTDOWN, MOUSEEVENTF_MOVE, MOUSEEVENTF_VIRTUALDESK,
    MOUSEEVENTF_XUP, WM_KEYDOWN, WM_LBUTTONDOWN, WM_MOUSEMOVE, WM_SYSKEYUP, WM_XBUTTONDOWN,
};

#[test]
fn windows_hook_messages_translate() {
    let _ = WindowsCapture::new();
    let _ = WindowsInjector::new();
    assert_eq!(mouse_event(WM_MOUSEMOVE, 3, 4, 0), Some(CapturedEvent::MouseMove { x: 3, y: 4 }));
    assert_eq!(
        mouse_event(WM_LBUTTONDOWN, 0, 0, 0),
        Some(CapturedEvent::MouseButton { button: MouseButton::Left, pressed: true })
    );
    assert_eq!(
        mouse_event(WM_XBUTTONDOWN, 0, 0, 1 << 16),
        Some(CapturedEvent::MouseButton { button: MouseButton::Back, pressed: true })
    );
    assert_eq!(
        mouse_event(WM_XBUTTONDOWN, 0, 0, 2 << 16),
        Some(CapturedEvent::MouseButton { button: MouseButton::Forward, pressed: true })
    );
    assert_eq!(mouse_event(0x020A, 0, 0, 0), None);
    assert_eq!(
        key_event(WM_KEYDOWN, 0x41),
        Some(CapturedEvent::Key { keycode: 0x41, modifiers: KeyModifiers::none(), pressed: true })
    );
    assert_eq!(
        key_event(WM_SYSKEYUP, 0x12),
        Some(CapturedEvent::Key { keycode: 0x12, modifiers: KeyModifiers::none(), pressed: false })
    );
    assert_eq!(key_event(0x0102, 0x41), None);
}

#[test]
fn absolute_coordinates_scale_to_sixteen_bits() {
    assert_eq!(normalize_absolute(960, 0, 1920), 32767);
    assert_eq!(normalize_absolute(1920, 0, 1920), 65535);
    assert_eq!(normalize_absolute(-10, 0, 1920), -341);
    assert_eq!(normalize_absolute(5, 0, 0), 0);
}

#[test]
fn windows_injection_requests() {
    assert_eq!(
        win_input(CapturedEvent::MouseMove { x: 960, y: 540 }, 0, 0, 1920, 1080, None),
        Some(WinInput::Mouse {
            dx: 32767,
            dy: 32767,
            data: 0,
            flags: MOUSEEVENTF_MOVE | MOUSEEVENTF_ABSOLUTE | MOUSEEVENTF_VIRTUALDESK
        })
    );
    assert_eq!(
        win_input(CapturedEvent::MouseButton { button: MouseButton::ScrollLeft, pressed: true }, 0, 0, 1, 1, None),
        Some(WinInput::Mouse { dx: 0, dy: 0, data: -120, flags: MOUSEEVENTF_HWHEEL })
    );
    assert_eq!(
        win_input(CapturedEvent::MouseButton { button: MouseButton::ScrollLeft, pressed: false }, 0, 0, 1, 1, None),
        None
    );
    assert_eq!(
        win_input(CapturedEvent::MouseButton { button: MouseButton::Forward, pressed: false }, 0, 0, 1, 1, None),
        Some(WinInput::Mouse { dx: 0, dy: 0, data: 2, flags: MOUSEEVENTF_XUP })
    );
    assert_eq!(
        win_input(CapturedEvent::MouseButton { button: MouseButton::Left, pressed: true }, 0, 0, 1, 1, None),
        Some(WinInput::Mouse { dx: 0, dy: 0, data: 0, flags: MOUSEEVENTF_LEFTDOWN })
    );
    let k = CapturedEvent::Key { keycode: 30, modifiers: KeyModifiers::none(), pressed: false };
    assert_eq!(win_input(k, 0, 0, 1, 1, Some(0x41)), Some(WinInput::Key { vk: 0x41, key_up: true }));
    assert_eq!(win_input(k, 0, 0, 1, 1, None), None);
}

#[test]
fn evdev_buttons_and_scroll_axes() {
    assert_eq!(button_from_evdev(0x110), Some(MouseButton::Left));
    assert_eq!(button_from_evdev(0x114), Some(MouseButton::Forward));
    assert_eq!(button_from_evdev(0x115), None);
    assert_eq!(button_to_evdev(MouseButton::Back), Some(0x113));
    assert_eq!(button_to_evdev(MouseButton::ScrollUp), None);
    assert_eq!(scroll_axis(MouseButton::ScrollUp), Some((Axis::Vertical, -1)));
    assert_eq!(scroll_axis(MouseButton::ScrollRight), Some((Axis::Horizontal, 1)));
    assert_eq!(scroll_axis(MouseButton::Left), None);
    assert_eq!(
        ei_button_event(0x111, false),
        Some(CapturedEvent::MouseButton { button: MouseButton::Right, pressed: false })
    );
}

#[test]
fn the_portal_injector_sends_relative_motion_and_restarts_repeats() {
    let mut p = PortalInjection::new();
    assert_eq!(p.plan(CapturedEvent::MouseMove { x: 10, y: 10 }).unwrap(), vec![PortalCall::Motion { dx: 0, dy: 0 }]);
    assert_eq!(p.plan(CapturedEvent::MouseMove { x: 15, y: 7 }).unwrap(), vec![PortalCall::Motion { dx: 5, dy: -3 }]);
    let press = CapturedEvent::Key { keycode: 30, modifiers: KeyModifiers::none(), pressed: true };
    assert_eq!(p.plan(press).unwrap(), vec![PortalCall::Key { code: 30, pressed: true }]);
    assert_eq!(
        p.plan(press).unwrap(),
        vec![PortalCall::Key { code: 30, pressed: false }, PortalCall::Key { code: 30, pressed: true }]
    );
    let release = CapturedEvent::Key { keycode: 30, modifiers: KeyModifiers::none(), pressed: false };
    assert_eq!(p.plan(release).unwrap(), vec![PortalCall::Key { code: 30, pressed: false }]);
    assert_eq!(p.plan(press).unwrap(), vec![PortalCall::Key { code: 30, pressed: true }]);
    assert_eq!(
        p.plan(CapturedEvent::MouseButton { button: MouseButton::ScrollDown, pressed: true }).unwrap(),
        vec![PortalCall::AxisDiscrete { axis: Axis::Vertical, steps: 1 }]
    );
    assert!(p.plan(CapturedEvent::MouseButton { button: MouseButton::ScrollDown, pressed: false }).unwrap().is_empty());
    let huge = CapturedEvent::Key { keycode: u32::MAX, modifiers: KeyModifiers::none(), pressed: true };
    assert!(matches!(p.plan(huge), Err(InputError::Unsupported(_))));
}

#[test]
fn barriers_follow_the_screen_edges() {
    let g = MonitorGeometry::new(0, 0, 1920, 1080);
    assert_eq!(barrier_for_edge(1, g, ScreenEdge::Left), BarrierSpec { id: 1, x1: 0, y1: 0, x2: 0, y2: 1079 });
    assert_eq!(barrier_for_edge(2, g, ScreenEdge::Right), BarrierSpec { id: 2, x1: 1920, y1: 0, x2: 1920, y2: 1079 });
    assert_eq!(barrier_for_edge(3, g, ScreenEdge::Top), BarrierSpec { id: 3, x1: 0, y1: 0, x2: 1919, y2: 0 });
    assert_eq!(barrier_for_edge(4, g, ScreenEdge::Bottom), BarrierSpec { id: 4, x1: 0, y1: 1080, x2: 1919, y2: 1080 });
    let all = [barrier_for_edge(0, g, ScreenEdge::Left), barrier_for_edge(5, g, ScreenEdge::Top)];
    assert_eq!(portal_barriers(&all), vec![all[1]]);
}

#[test]
fn capture_zones_make_one_desktop() {
    let zones = [
        CaptureZone { x: 0, y: 0, width: 1920, height: 1080 },
        CaptureZone { x: -1280, y: 0, width: 1280, height: 1024 },
    ];
    assert_eq!(zones_bounding_box(&zones), Some(MonitorGeometry::new(-1280, 0, 3200, 1080)));
    assert_eq!(zones_bounding_box(&[]), None);
}

#[test]
fn errors_carry_the_backend_message() {
    assert!(matches!(x11_error("sin servidor".to_string()), InputError::X11Connection(m) if m == "sin servidor"));
    assert!(matches!(portal_error("rechazado".to_string()), InputError::Portal(m) if m == "rechazado"));
}

#[test]
fn the_server_layout_comes_from_the_settings() {
    let local = DeviceId::from_bytes([1; 16]);
    let peers = vec![
        PeerConfig { device_id: "02".repeat(16), name: "derecha".to_string(), edge: ScreenEdge::Right },
        PeerConfig { device_id: "no-hex".to_string(), name: "mal".to_string(), edge: ScreenEdge::Left },
        PeerConfig { device_id: "03".repeat(16), name: "arriba".to_string(), edge: ScreenEdge::Top },
    ];
    let configured = configured_peers(&peers);
    assert_eq!(configured.len(), 2);
    assert_eq!(configured[0].name, "derecha");
    let right = DeviceId::from_bytes([2; 16]);
    let top = DeviceId::from_bytes([3; 16]);
    assert!(is_known_peer(&configured, &right));
    assert!(!is_known_peer(&configured, &DeviceId::from_bytes([9; 16])));

    let g = MonitorGeometry::new(0, 0, 1920, 1080);
    let layout = build_layout(local, g, &configured);
    assert_eq!(layout.neighbor(local, ScreenEdge::Right), Some(right));
    assert_eq!(layout.neighbor(local, ScreenEdge::Top), Some(top));
    assert_eq!(layout.neighbor(local, ScreenEdge::Left), None);
    assert_eq!(layout.neighbor(right, ScreenEdge::Left), Some(local));
    assert_eq!(layout.neighbor(top, ScreenEdge::Bottom), Some(local));
    assert_eq!(layout.bounds_of(top), Some(Some(g)));

    let barriers = barriers_for(&configured, g);
    assert_eq!(barriers, vec![barrier_for_edge(1, g, ScreenEdge::Right), barrier_for_edge(2, g, ScreenEdge::Top)]);
    assert_eq!(reported_desktop(1366, 768).bounds(), Some(MonitorGeometry::new(0, 0, 1366, 768)));
}

#[test]
fn local_display_follows_what_the_session_reports() {
    assert!(wants_wayland("wayland"));
    assert!(!wants_wayland("x11"));
    assert!(!wants_wayland(""));

    let d = x11_display::<u8>(Some((2560, 1440)));
    assert!(matches!(d.backend, CaptureBackend::X11));
    assert_eq!(d.geometry, MonitorGeometry::new(0, 0, 2560, 1440));
    let d = x11_display::<u8>(None);
    assert_eq!(d.geometry, MonitorGeometry::new(0, 0, 1920, 1080));
    assert_eq!(fallback_geometry(), MonitorGeometry::new(0, 0, 1920, 1080));

    let d = wayland_display::<u8>(None, None);
    assert!(matches!(d.backend, CaptureBackend::Unsupported));
    assert_eq!(d.geometry, fallback_geometry());

    let zones = [
        CaptureZone { x: 0, y: 0, width: 1920, height: 1080 },
        CaptureZone { x: 1920, y: -200, width: 1280, height: 1024 },
    ];
    assert!(zones_representable(&zones));
    let d = wayland_display(Some(7u8), Some(&zones[..]));
    assert!(matches!(d.backend, CaptureBackend::Wayland(7)));
    assert_eq!(d.geometry, MonitorGeometry::new(0, -200, 3200, 1280));
    let d = wayland_display(Some(7u8), Some(&[][..]));
    assert_eq!(d.geometry, fallback_geometry());
    let d = wayland_display(Some(7u8), None);
    assert_eq!(d.geometry, fallback_geometry());

    assert!(!zones_representable(&[CaptureZone { x: i32::MAX, y: 0, width: 1, height: 1 }]));
}
