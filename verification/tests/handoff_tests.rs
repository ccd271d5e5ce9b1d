use ionconnect::handoff::{Active, HandoffAction, HandoffState};
use ionconnect::screen::{Layout, MonitorGeometry, ScreenEdge, VirtualDesktop};
use ionconnect::types::DeviceId;

fn device(n: u8) -> DeviceId {
    DeviceId::from_bytes([n; 16])
}

fn desktop(width: u32, height: u32) -> VirtualDesktop {
    VirtualDesktop::new(vec![MonitorGeometry::new(0, 0, width, height)])
}

fn layout_with_one_neighbor(local: DeviceId, remote: DeviceId) -> Layout {
    let mut layout = Layout::new();
    layout.set_desktop(local, desktop(1920, 1080));
    layout.set_desktop(remote, desktop(1920, 1080));
    layout.link_mirrored(local, ScreenEdge::Right, remote);
    layout
}

#[test]
fn stays_local_while_inside_bounds() {
    let local = device(1);
    let remote = device(2);
    let mut state = HandoffState::new(layout_with_one_neighbor(local, remote), local);
    assert_eq!(state.on_position(960, 540), None);
    assert_eq!(state.active(), Active::Local);
}

#[test]
fn crossing_right_edge_forwards_to_remote() {
    let local = device(1);
    let remote = device(2);
    let mut state = HandoffState::new(layout_with_one_neighbor(local, remote), local);

    let action = state.on_position(1920, 540).expect("debería ceder el control");
    assert_eq!(action, HandoffAction::ForwardTo { device: remote, x: 0, y: 540 });
    assert_eq!(state.active(), Active::Remote(remote));
}

#[test]
fn crossing_back_returns_control_locally() {
    let local = device(1);
    let remote = device(2);
    let mut state = HandoffState::new(layout_with_one_neighbor(local, remote), local);

    state.on_position(1920, 540);
    assert_eq!(state.active(), Active::Remote(remote));

    let action = state.on_position(-1, 300).expect("debería devolver el control");
    assert_eq!(action, HandoffAction::ReturnLocal { x: 1919, y: 300 });
    assert_eq!(state.active(), Active::Local);
}

#[test]
fn clamp_to_active_desktop_pins_runaway_coordinates_on_the_linked_axis_only() {
    let local = device(1);
    let remote = device(2);
    let mut state = HandoffState::new(layout_with_one_neighbor(local, remote), local);
    state.on_position(1920, 540);
    assert_eq!(state.active(), Active::Remote(remote));

    assert_eq!(state.clamp_to_active_desktop(500, 5000), (500, 1079));
    assert_eq!(state.clamp_to_active_desktop(500, -5000), (500, 0));
    assert_eq!(state.clamp_to_active_desktop(500, 300), (500, 300));
}

#[test]
fn reclaim_if_remote_returns_to_local_only_for_the_active_device() {
    let local = device(1);
    let remote = device(2);
    let other = device(3);
    let mut state = HandoffState::new(layout_with_one_neighbor(local, remote), local);
    state.on_position(1920, 540);
    assert_eq!(state.active(), Active::Remote(remote));

    assert!(!state.reclaim_if_remote(other));
    assert_eq!(state.active(), Active::Remote(remote));

    assert!(state.reclaim_if_remote(remote));
    assert_eq!(state.active(), Active::Local);

    assert!(!state.reclaim_if_remote(remote));
}

#[test]
fn no_handoff_when_target_edge_has_no_neighbor() {
    let local = device(1);
    let remote = device(2);
    let mut state = HandoffState::new(layout_with_one_neighbor(local, remote), local);

    assert_eq!(state.on_position(-1, 540), None);
    assert_eq!(state.active(), Active::Local);
}

#[test]
fn chains_across_multiple_neighbors() {
    let local = device(1);
    let middle = device(2);
    let far = device(3);

    let mut layout = Layout::new();
    layout.set_desktop(local, desktop(1920, 1080));
    layout.set_desktop(middle, desktop(1920, 1080));
    layout.set_desktop(far, desktop(1920, 1080));
    layout.link_mirrored(local, ScreenEdge::Right, middle);
    layout.link_mirrored(middle, ScreenEdge::Right, far);

    let mut state = HandoffState::new(layout, local);

    let first = state.on_position(1920, 100).expect("primer hand-off");
    assert_eq!(first, HandoffAction::ForwardTo { device: middle, x: 0, y: 100 });

    let second = state.on_position(1920, 100).expect("segundo hand-off");
    assert_eq!(second, HandoffAction::ForwardTo { device: far, x: 0, y: 100 });
    assert_eq!(state.active(), Active::Remote(far));
}

#[test]
fn a_reported_resolution_moves_the_entry_point() {
    let local = device(1);
    let remote = device(2);
    let mut state = HandoffState::new(layout_with_one_neighbor(local, remote), local);
    state.update_peer_geometry(remote, desktop(1366, 768));
    let action = state.on_position(1920, 1000).expect("debería ceder el control");
    assert_eq!(action, HandoffAction::ForwardTo { device: remote, x: 0, y: 767 });
    assert_eq!(state.clamp_to_active_desktop(5000, 10), (1365, 10));
}

#[test]
fn crossing_into_a_neighbor_below_keeps_the_column() {
    let local = device(1);
    let below = device(4);
    let mut layout = Layout::new();
    layout.set_desktop(local, desktop(1920, 1080));
    layout.set_desktop(below, desktop(800, 600));
    layout.link_mirrored(local, ScreenEdge::Bottom, below);
    let mut state = HandoffState::new(layout, local);
    assert_eq!(
        state.on_position(1000, 1080),
        Some(HandoffAction::ForwardTo { device: below, x: 799, y: 0 })
    );
    assert_eq!(state.on_position(10, -1), Some(HandoffAction::ReturnLocal { x: 10, y: 1079 }));
}

#[test]
fn bounding_box_covers_every_monitor() {
    let d = VirtualDesktop::new(vec![
        MonitorGeometry::new(0, 0, 1920, 1080),
        MonitorGeometry::new(1920, -200, 1280, 1024),
    ]);
    assert_eq!(d.bounds(), Some(MonitorGeometry::new(0, -200, 3200, 1280)));
    assert_eq!(VirtualDesktop::new(vec![]).bounds(), None);
}
