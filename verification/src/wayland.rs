use vstd::prelude::*;

use crate::held::KeySet;
use crate::input::InputError;
use crate::screen::{MonitorGeometry, ScreenEdge, all_wf, bounding_box, bounding_box_of, geometry_of_box};
use crate::types::{CapturedEvent, KeyModifiers, MouseButton};

verus! {

// Linux evdev button codes.
pub const BTN_LEFT: i32 = 0x110;
pub const BTN_RIGHT: i32 = 0x111;
pub const BTN_MIDDLE: i32 = 0x112;
pub const BTN_SIDE: i32 = 0x113;
pub const BTN_EXTRA: i32 = 0x114;

/// One of the outputs the compositor reports as part of the capturable
/// desktop.
#[derive(Clone, Copy, Debug, PartialEq, Eq, Structural)]
pub struct CaptureZone {
    pub x: i32,
    pub y: i32,
    pub width: u32,
    pub height: u32,
}

impl CaptureZone {
    /// Its edges are representable as `i32`.
    pub open spec fn wf(self) -> bool {
        &&& self.width <= i32::MAX
        &&& self.height <= i32::MAX
        &&& self.x + self.width <= i32::MAX
        &&& self.y + self.height <= i32::MAX
    }

    pub open spec fn geometry(self) -> MonitorGeometry {
        MonitorGeometry { x: self.x, y: self.y, width: self.width, height: self.height }
    }
}

/// A barrier along a screen edge: crossing it starts the capture. `id`
/// must be non-zero and unique within the session.
#[derive(Clone, Copy, Debug, PartialEq, Eq, Structural)]
pub struct BarrierSpec {
    pub id: u32,
    pub x1: i32,
    pub y1: i32,
    pub x2: i32,
    pub y2: i32,
}

pub open spec fn zone_geometries(zones: Seq<CaptureZone>) -> Seq<MonitorGeometry> {
    zones.map_values(|z: CaptureZone| z.geometry())
}

/// Bounding box of the capture zones, as one rectangle.
pub fn zones_bounding_box(zones: &[CaptureZone]) -> (r: Option<MonitorGeometry>)
    requires
        forall|i: int| 0 <= i < zones@.len() ==> (#[trigger] zones@[i]).wf(),
    ensures
        r == (match bounding_box_of(zone_geometries(zones@)) {
            Some(b) => Some(geometry_of_box(b)),
            None => None,
        }),
{
    let mut geometries: Vec<MonitorGeometry> = Vec::new();
    let mut i: usize = 0;
    while i < zones.len()
        invariant
            0 <= i <= zones@.len(),
            geometries@ == zone_geometries(zones@).take(i as int),
        decreases zones@.len() - i,
    {
        let z = zones[i];
        geometries.push(MonitorGeometry::new(z.x, z.y, z.width, z.height));
        assert(zone_geometries(zones@).take(i + 1) =~= zone_geometries(zones@).take(i as int).push(z.geometry()));
        i = i + 1;
    }
    assert(zone_geometries(zones@).take(zones@.len() as int) =~= zone_geometries(zones@));
    assert(all_wf(geometries@)) by {
        assert forall|k: int| 0 <= k < geometries@.len() implies (#[trigger] geometries@[k]).wf() by {
            assert(zones@[k].wf());
        }
    }
    bounding_box(geometries.as_slice())
}

/// The barrier with id `id` along `edge` of `bounds`: the outer side of the
/// screen is used as is, the side running along the edge stops at the last
/// pixel.
pub open spec fn spec_barrier(id: u32, bounds: MonitorGeometry, edge: ScreenEdge) -> BarrierSpec {
    match edge {
        ScreenEdge::Left => BarrierSpec { id, x1: bounds.x, y1: bounds.y, x2: bounds.x, y2: (bounds.spec_bottom() - 1) as i32 },
        ScreenEdge::Right => BarrierSpec { id, x1: bounds.spec_right() as i32, y1: bounds.y, x2: bounds.spec_right() as i32, y2: (bounds.spec_bottom() - 1) as i32 },
        ScreenEdge::Top => BarrierSpec { id, x1: bounds.x, y1: bounds.y, x2: (bounds.spec_right() - 1) as i32, y2: bounds.y },
        ScreenEdge::Bottom => BarrierSpec { id, x1: bounds.x, y1: bounds.spec_bottom() as i32, x2: (bounds.spec_right() - 1) as i32, y2: bounds.spec_bottom() as i32 },
    }
}

/// The edges of `bounds` whose last pixel is representable.
pub open spec fn barrier_bounds_ok(bounds: MonitorGeometry) -> bool {
    &&& bounds.wf()
    &&& bounds.spec_right() - 1 >= i32::MIN
    &&& bounds.spec_bottom() - 1 >= i32::MIN
}

/// The barrier with id `id` along `edge` of `bounds`.
pub fn barrier_for_edge(id: u32, bounds: MonitorGeometry, edge: ScreenEdge) -> (b: BarrierSpec)
    requires
        barrier_bounds_ok(bounds),
    ensures
        b == spec_barrier(id, bounds, edge),
{
    match edge {
        ScreenEdge::Left => BarrierSpec { id, x1: bounds.left(), y1: bounds.top(), x2: bounds.left(), y2: bounds.bottom() - 1 },
        ScreenEdge::Right => BarrierSpec { id, x1: bounds.right(), y1: bounds.top(), x2: bounds.right(), y2: bounds.bottom() - 1 },
        ScreenEdge::Top => BarrierSpec { id, x1: bounds.left(), y1: bounds.top(), x2: bounds.right() - 1, y2: bounds.top() },
        ScreenEdge::Bottom => BarrierSpec { id, x1: bounds.left(), y1: bounds.bottom(), x2: bounds.right() - 1, y2: bounds.bottom() },
    }
}

/// The barriers the portal can take: those with a non-zero id, in order.
pub fn portal_barriers(barriers: &[BarrierSpec]) -> (r: Vec<BarrierSpec>)
    ensures
        r@ == barriers@.filter(|b: BarrierSpec| b.id != 0),
{
    let mut r: Vec<BarrierSpec> = Vec::new();
    let mut i: usize = 0;
    while i < barriers.len()
        invariant
            0 <= i <= barriers@.len(),
            r@ == barriers@.take(i as int).filter(|b: BarrierSpec| b.id != 0),
        decreases barriers@.len() - i,
    {
        proof {
            reveal(Seq::filter);
            assert(barriers@.take(i + 1).drop_last() =~= barriers@.take(i as int));
        }
        if barriers[i].id != 0 {
            r.push(barriers[i]);
        }
        i = i + 1;
    }
    assert(barriers@.take(barriers@.len() as int) =~= barriers@);
    r
}

pub open spec fn spec_button_from_evdev(code: u32) -> Option<MouseButton> {
    if code == 0x110 {
        Some(MouseButton::Left)
    } else if code == 0x111 {
        Some(MouseButton::Right)
    } else if code == 0x112 {
        Some(MouseButton::Middle)
    } else if code == 0x113 {
        Some(MouseButton::Back)
    } else if code == 0x114 {
        Some(MouseButton::Forward)
    } else {
        None
    }
}

/// The button of an evdev button code, as capture reports it.
pub fn button_from_evdev(code: u32) -> (b: Option<MouseButton>)
    ensures
        b == spec_button_from_evdev(code),
{
    if code == 0x110 {
        Some(MouseButton::Left)
    } else if code == 0x111 {
        Some(MouseButton::Right)
    } else if code == 0x112 {
        Some(MouseButton::Middle)
    } else if code == 0x113 {
        Some(MouseButton::Back)
    } else if code == 0x114 {
        Some(MouseButton::Forward)
    } else {
        None
    }
}

pub open spec fn spec_button_to_evdev(button: MouseButton) -> Option<i32> {
    match button {
        MouseButton::Left => Some(BTN_LEFT),
        MouseButton::Right => Some(BTN_RIGHT),
        MouseButton::Middle => Some(BTN_MIDDLE),
        MouseButton::Back => Some(BTN_SIDE),
        MouseButton::Forward => Some(BTN_EXTRA),
        _ => None,
    }
}

/// The evdev code of a button; `None` for scroll notches, which the
/// portal takes as an axis.
pub fn button_to_evdev(button: MouseButton) -> (c: Option<i32>)
    ensures
        c == spec_button_to_evdev(button),
{
    match button {
        MouseButton::Left => Some(BTN_LEFT),
        MouseButton::Right => Some(BTN_RIGHT),
        MouseButton::Middle => Some(BTN_MIDDLE),
        MouseButton::Back => Some(BTN_SIDE),
        MouseButton::Forward => Some(BTN_EXTRA),
        _ => None,
    }
}

/// Injection and capture agree on buttons: the evdev code injected for a
/// button is read back by capture as that same button. So distinct buttons
/// are injected with distinct codes, and only scroll notches have none.
pub proof fn lemma_evdev_buttons_round_trip(button: MouseButton)
    ensures
        spec_button_to_evdev(button) matches Some(c) ==> c >= 0 && spec_button_from_evdev(c as u32) == Some(button),
        spec_button_to_evdev(button) is None <==> (button == MouseButton::ScrollUp || button == MouseButton::ScrollDown
            || button == MouseButton::ScrollLeft || button == MouseButton::ScrollRight),
{
}

/// Two buttons injected with the same evdev code are the same button.
pub proof fn lemma_evdev_codes_distinct(a: MouseButton, b: MouseButton)
    requires
        spec_button_to_evdev(a) is Some,
        spec_button_to_evdev(a) == spec_button_to_evdev(b),
    ensures
        a == b,
{
    lemma_evdev_buttons_round_trip(a);
    lemma_evdev_buttons_round_trip(b);
}

/// A scroll axis of the portal.
#[derive(Clone, Copy, Debug, PartialEq, Eq, Structural)]
pub enum Axis {
    Vertical,
    Horizontal,
}

pub open spec fn spec_scroll_axis(button: MouseButton) -> Option<(Axis, i32)> {
    match button {
        MouseButton::ScrollUp => Some((Axis::Vertical, -1i32)),
        MouseButton::ScrollDown => Some((Axis::Vertical, 1i32)),
        MouseButton::ScrollLeft => Some((Axis::Horizontal, -1i32)),
        MouseButton::ScrollRight => Some((Axis::Horizontal, 1i32)),
        _ => None,
    }
}

/// Axis and steps of one scroll notch: positive is down and right.
pub fn scroll_axis(button: MouseButton) -> (r: Option<(Axis, i32)>)
    ensures
        r == spec_scroll_axis(button),
{
    match button {
        MouseButton::ScrollUp => Some((Axis::Vertical, -1)),
        MouseButton::ScrollDown => Some((Axis::Vertical, 1)),
        MouseButton::ScrollLeft => Some((Axis::Horizontal, -1)),
        MouseButton::ScrollRight => Some((Axis::Horizontal, 1)),
        _ => None,
    }
}

/// The captured event of a libei button report (unknown buttons are
/// dropped).
pub fn ei_button_event(code: u32, pressed: bool) -> (e: Option<CapturedEvent>)
    ensures
        e == (match spec_button_from_evdev(code) {
            Some(button) => Some(CapturedEvent::MouseButton { button, pressed }),
            None => None,
        }),
{
    match button_from_evdev(code) {
        Some(button) => Some(CapturedEvent::MouseButton { button, pressed }),
        None => None,
    }
}

/// The captured event of a libei key report.
pub fn ei_key_event(key: u32, pressed: bool) -> (e: CapturedEvent)
    ensures
        e == (CapturedEvent::Key { keycode: key, modifiers: KeyModifiers { bits: 0 }, pressed }),
{
    CapturedEvent::Key { keycode: key, modifiers: KeyModifiers::none(), pressed }
}

/// One request to the remote-desktop portal.
#[derive(Clone, Copy, Debug, PartialEq, Eq, Structural)]
pub enum PortalCall {
    /// Relative pointer motion.
    Motion { dx: i64, dy: i64 },
    AxisDiscrete { axis: Axis, steps: i32 },
    Button { code: i32, pressed: bool },
    Key { code: i32, pressed: bool },
}

/// State of the remote-desktop portal injector: the portal only takes
/// relative motion, so the last absolute position is kept; and the keys
/// pressed and not yet released, to tell a repetition from a new press.
pub struct PortalInjection {
    pub last_position: Option<(i32, i32)>,
    pub held_keys: KeySet,
}

impl PortalInjection {
    pub open spec fn wf(&self) -> bool {
        self.held_keys.wf()
    }

    pub fn new() -> (s: PortalInjection)
        ensures
            s.wf(),
            s.last_position is None,
            s.held_keys.view() == Set::<u32>::empty(),
    {
        PortalInjection { last_position: None, held_keys: KeySet::new() }
    }

    /// The portal requests that inject `event`, in order (a failing request
    /// stops the rest):
    /// - a move becomes the motion since the last position (none the first
    ///   time);
    /// - a scroll notch acts on the press only;
    /// - a key press of a key already down is a repetition: release, then
    ///   press again, so that the compositor's own repetition restarts;
    /// - a key code beyond `i32` is refused.
    pub fn plan(&mut self, event: CapturedEvent) -> (r: Result<Vec<PortalCall>, InputError>)
        requires
            old(self).wf(),
        ensures
            final(self).wf(),
            match event {
                CapturedEvent::AbsolutePosition { .. } => r matches Ok(v) && v@.len() == 0 && *final(self) == *old(self),
                CapturedEvent::MouseMove { x, y } => {
                    &&& r matches Ok(v) && v@ == seq![match old(self).last_position {
                        Some((lx, ly)) => PortalCall::Motion { dx: (x - lx) as i64, dy: (y - ly) as i64 },
                        None => PortalCall::Motion { dx: 0, dy: 0 },
                    }]
                    &&& final(self).last_position == Some((x, y))
                    &&& final(self).held_keys == old(self).held_keys
                },
                CapturedEvent::MouseButton { button, pressed } => {
                    &&& *final(self) == *old(self)
                    &&& match spec_scroll_axis(button) {
                        Some((axis, steps)) => r matches Ok(v) && v@ == (if pressed {
                            seq![PortalCall::AxisDiscrete { axis, steps }]
                        } else {
                            Seq::<PortalCall>::empty()
                        }),
                        None => match spec_button_to_evdev(button) {
                            Some(code) => r matches Ok(v) && v@ == seq![PortalCall::Button { code, pressed }],
                            None => r matches Ok(v) && v@.len() == 0,
                        },
                    }
                },
                CapturedEvent::Key { keycode, pressed, .. } => {
                    &&& final(self).last_position == old(self).last_position
                    &&& if keycode > i32::MAX {
                        r is Err && final(self).held_keys.view() == old(self).held_keys.view()
                    } else if !pressed {
                        &&& r matches Ok(v) && v@ == seq![PortalCall::Key { code: keycode as i32, pressed: false }]
                        &&& final(self).held_keys.view() == old(self).held_keys.view().remove(keycode)
                    } else {
                        &&& r matches Ok(v) && v@ == (if old(self).held_keys.view().contains(keycode) {
                            seq![PortalCall::Key { code: keycode as i32, pressed: false }, PortalCall::Key { code: keycode as i32, pressed: true }]
                        } else {
                            seq![PortalCall::Key { code: keycode as i32, pressed: true }]
                        })
                        &&& final(self).held_keys.view() == old(self).held_keys.view().insert(keycode)
                    }
                },
            },
    {
        let mut v: Vec<PortalCall> = Vec::new();
        match event {
            CapturedEvent::AbsolutePosition { .. } => {},
            CapturedEvent::MouseMove { x, y } => {
                let call = match self.last_position {
                    Some((lx, ly)) => PortalCall::Motion { dx: x as i64 - lx as i64, dy: y as i64 - ly as i64 },
                    None => PortalCall::Motion { dx: 0, dy: 0 },
                };
                self.last_position = Some((x, y));
                v.push(call);
            },
            CapturedEvent::MouseButton { button, pressed } => {
                match scroll_axis(button) {
                    Some((axis, steps)) => {
                        if pressed {
                            v.push(PortalCall::AxisDiscrete { axis, steps });
                        }
                    },
                    None => match button_to_evdev(button) {
                        Some(code) => v.push(PortalCall::Button { code, pressed }),
                        None => {},
                    },
                }
            },
            CapturedEvent::Key { keycode, pressed, .. } => {
                if keycode > 2147483647 {
                    return Err(InputError::Unsupported("keycode fuera de rango para el portal"));
                }
                let code = keycode as i32;
                if !pressed {
                    self.held_keys.remove(keycode);
                    v.push(PortalCall::Key { code, pressed: false });
                } else {
                    let held = self.held_keys.contains(keycode);
                    if held {
                        v.push(PortalCall::Key { code, pressed: false });
                    } else {
                        self.held_keys.insert(keycode);
                    }
                    v.push(PortalCall::Key { code, pressed: true });
                }
            },
        }
        Ok(v)
    }
}

} // verus!
