use vstd::prelude::*;
use crate::decimal::{dec_string, push_decimal};
use crate::input::InputError;
use crate::types::{CapturedEvent, KeyModifiers, MouseButton};

verus! {

/// Whether bit `bit` (0 = least significant) of `bits` is set.
pub open spec fn bit_set(bits: u8, bit: u8) -> bool {
    (bits >> bit) & 1u8 == 1u8
}

/// X11 keycode for an evdev keycode (XKB adds a fixed offset of 8),
/// saturating at `u32::MAX`.
pub open spec fn spec_evdev_to_x11(keycode: u32) -> int {
    if keycode as int + 8 > u32::MAX { u32::MAX as int } else { keycode as int + 8 }
}

/// Auto-repeat configuration of the local X server.
///
/// Times are milliseconds. `per_key` holds one bit per **X11** keycode
/// (1 = the key repeats); modifiers come with 0.
#[derive(Clone, Copy, Debug, PartialEq, Eq)]
pub struct KeyRepeatSettings {
    pub delay: u64,
    pub interval: u64,
    pub enabled: bool,
    pub per_key: [u8; 32],
}

impl KeyRepeatSettings {
    /// Whether evdev `keycode` repeats under these settings.
    pub open spec fn spec_repeats(&self, keycode: u32) -> bool {
        let x11 = spec_evdev_to_x11(keycode);
        self.enabled && x11 < 256 && bit_set(self.per_key[x11 / 8], (x11 % 8) as u8)
    }

    /// The X11 defaults: 500 ms delay, 30 ms interval, every key repeats.
    pub fn default() -> (s: KeyRepeatSettings)
        ensures
            s.delay == 500,
            s.interval == 30,
            s.enabled,
            forall|i: int| 0 <= i < 32 ==> s.per_key[i] == 0xffu8,
    {
        KeyRepeatSettings { delay: 500, interval: 30, enabled: true, per_key: [0xffu8; 32] }
    }

    /// Whether evdev `keycode` should auto-repeat when held.
    pub fn repeats(&self, keycode: u32) -> (r: bool)
        ensures
            r == self.spec_repeats(keycode),
    {
        if !self.enabled {
            return false;
        }
        let x11 = keycode.saturating_add(8);
        if x11 >= 256 {
            return false;
        }
        let byte = (x11 / 8) as usize;
        let bit = (x11 % 8) as u8;
        let bits = self.per_key[byte];
        let set = bits & (1u8 << bit) != 0;
        assert(set == bit_set(bits, bit)) by (bit_vector)
            requires
                bit < 8,
                set == (bits & (1u8 << bit) != 0),
        ;
        set
    }

    /// Apply the core protocol's keyboard-control reply: the per-key bitmask
    /// and the global auto-repeat switch.
    pub fn with_keyboard_control(self, auto_repeats: [u8; 32], global_on: bool) -> (s: KeyRepeatSettings)
        ensures
            s == (KeyRepeatSettings { per_key: auto_repeats, enabled: global_on, ..self }),
    {
        KeyRepeatSettings { per_key: auto_repeats, enabled: global_on, ..self }
    }

    /// Apply XKB's repeat delay and interval, with floors of 50 ms and 10 ms
    /// so that a server reporting 0 cannot flood the link.
    pub fn with_xkb_controls(self, repeat_delay: u16, repeat_interval: u16) -> (s: KeyRepeatSettings)
        ensures
            s.delay == (if repeat_delay < 50 { 50 } else { repeat_delay as u64 }),
            s.interval == (if repeat_interval < 10 { 10 } else { repeat_interval as u64 }),
            s.enabled == self.enabled,
            s.per_key == self.per_key,
    {
        let delay: u64 = if repeat_delay < 50 { 50 } else { repeat_delay as u64 };
        let interval: u64 = if repeat_interval < 10 { 10 } else { repeat_interval as u64 };
        KeyRepeatSettings { delay, interval, ..self }
    }
}

/// Evdev keycode for an X11 keycode (the XKB offset of 8 removed, saturating
/// at 0).
pub fn x11_keycode_to_evdev(detail: u32) -> (k: u32)
    ensures
        k == (if detail < 8 { 0 } else { detail - 8 }),
{
    detail.saturating_sub(8)
}

/// `value` saturated into the `i16` range.
pub fn clamp_to_i16(value: i32) -> (v: i16)
    ensures
        v == (if value < i16::MIN { i16::MIN as int } else if value > i16::MAX { i16::MAX as int } else { value as int }),
{
    if value < -32768 {
        -32768
    } else if value > 32767 {
        32767
    } else {
        value as i16
    }
}

/// Where the confinement window goes for a grab at `(x, y)`: the point
/// pinned onto a screen of `width` x `height` pixels.
pub fn grab_point(x: i32, y: i32, width: u16, height: u16) -> (p: (i32, i32))
    requires
        width >= 1,
        height >= 1,
    ensures
        p.0 == (if x < 0 { 0 } else if x > width - 1 { width - 1 } else { x as int }),
        p.1 == (if y < 0 { 0 } else if y > height - 1 { height - 1 } else { y as int }),
{
    let max_x = width as i32 - 1;
    let max_y = height as i32 - 1;
    let cx = if x < 0 { 0 } else if x > max_x { max_x } else { x };
    let cy = if y < 0 { 0 } else if y > max_y { max_y } else { y };
    (cx, cy)
}

/// Core X11 button number of a button; scroll notches use 4-7.
pub open spec fn spec_button_code(button: MouseButton) -> u8 {
    match button {
        MouseButton::Left => 1,
        MouseButton::Middle => 2,
        MouseButton::Right => 3,
        MouseButton::ScrollUp => 4,
        MouseButton::ScrollDown => 5,
        MouseButton::ScrollLeft => 6,
        MouseButton::ScrollRight => 7,
        MouseButton::Back => 8,
        MouseButton::Forward => 9,
    }
}

/// Injection and capture agree on X11 button numbers: the number sent for
/// a button is read back as that same button, so no two buttons share one.
pub proof fn lemma_button_codes_round_trip(button: MouseButton)
    ensures
        button_of_code(spec_button_code(button) as u32) == Some(button),
{
}

/// X11 button number for `button`.
pub fn button_to_code(button: MouseButton) -> (c: u8)
    ensures
        c == spec_button_code(button),
{
    match button {
        MouseButton::Left => 1,
        MouseButton::Middle => 2,
        MouseButton::Right => 3,
        MouseButton::ScrollUp => 4,
        MouseButton::ScrollDown => 5,
        MouseButton::ScrollLeft => 6,
        MouseButton::ScrollRight => 7,
        MouseButton::Back => 8,
        MouseButton::Forward => 9,
    }
}

/// Button for an X11 button number, `None` for numbers with no meaning.
pub open spec fn button_of_code(code: u32) -> Option<MouseButton> {
    if code == 1 {
        Some(MouseButton::Left)
    } else if code == 2 {
        Some(MouseButton::Middle)
    } else if code == 3 {
        Some(MouseButton::Right)
    } else if code == 4 {
        Some(MouseButton::ScrollUp)
    } else if code == 5 {
        Some(MouseButton::ScrollDown)
    } else if code == 6 {
        Some(MouseButton::ScrollLeft)
    } else if code == 7 {
        Some(MouseButton::ScrollRight)
    } else if code == 8 {
        Some(MouseButton::Back)
    } else if code == 9 {
        Some(MouseButton::Forward)
    } else {
        None
    }
}

pub fn button_from_code(code: u32) -> (b: Option<MouseButton>)
    ensures
        b == button_of_code(code),
        b matches Some(button) ==> spec_button_code(button) == code,
        b is None <==> !(1 <= code <= 9),
{
    match code {
        1 => Some(MouseButton::Left),
        2 => Some(MouseButton::Middle),
        3 => Some(MouseButton::Right),
        4 => Some(MouseButton::ScrollUp),
        5 => Some(MouseButton::ScrollDown),
        6 => Some(MouseButton::ScrollLeft),
        7 => Some(MouseButton::ScrollRight),
        8 => Some(MouseButton::Back),
        9 => Some(MouseButton::Forward),
        _ => None,
    }
}

/// Whether valuator `bit` is present in an XI2 valuator mask.
pub open spec fn mask_bit(mask: Seq<u32>, bit: int) -> bool {
    0 <= bit < mask.len() * 32 && (mask[bit / 32] >> ((bit % 32) as u32)) & 1u32 == 1u32
}

/// Number of valuators present among bits `0..n` of the mask.
pub open spec fn present_below(mask: Seq<u32>, n: int) -> nat
    decreases n,
{
    if n <= 0 {
        0
    } else {
        present_below(mask, n - 1) + if mask_bit(mask, n - 1) { 1nat } else { 0nat }
    }
}

/// Position of valuator `index` among the values an XI2 raw event carries
/// (only present valuators are sent, in ascending order); `None` when the
/// valuator is absent.
pub fn valuator_slot(mask: &[u32], index: u16) -> (slot: Option<usize>)
    ensures
        slot is Some <==> mask_bit(mask@, index as int),
        slot matches Some(s) ==> s == present_below(mask@, index as int),
{
    let idx = index as usize;
    let word = idx / 32;
    if word >= mask.len() {
        return None;
    }
    let mut cursor: usize = 0;
    let mut bit: usize = 0;
    while bit < idx
        invariant
            bit <= idx,
            idx == index,
            idx / 32 < mask@.len(),
            cursor == present_below(mask@, bit as int),
            cursor <= bit,
        decreases idx - bit,
    {
        let w = mask[bit / 32];
        let offset = (bit % 32) as u32;
        let present = (w >> offset) & 1u32 == 1u32;
        assert(bit / 32 < mask@.len()) by (nonlinear_arith)
            requires bit < idx, idx / 32 < mask@.len();
        if present {
            cursor = cursor + 1;
        }
        bit = bit + 1;
    }
    let w = mask[word];
    let offset = (idx % 32) as u32;
    assert(idx < mask@.len() * 32) by (nonlinear_arith)
        requires idx / 32 < mask@.len();
    if (w >> offset) & 1u32 == 1u32 {
        Some(cursor)
    } else {
        None
    }
}

/// The accumulated pointer position, moved by raw deltas and reset to
/// exact entry points at each hand-off. There is one per capture session:
/// the type cannot be cloned, so two values never pose as one shared
/// position. Capture and session code reach it through `&mut`; an owner
/// that serves several threads keeps the single value behind its own lock.
#[derive(Debug)]
pub struct SharedPosition {
    pub x: i32,
    pub y: i32,
}

impl SharedPosition {
    pub fn new(x: i32, y: i32) -> (p: SharedPosition)
        ensures
            p.x == x && p.y == y,
    {
        SharedPosition { x, y }
    }

    pub fn reset(&mut self, x: i32, y: i32)
        ensures
            final(self).x == x && final(self).y == y,
    {
        self.x = x;
        self.y = y;
    }

    pub fn get(&self) -> (p: (i32, i32))
        ensures
            p == (self.x, self.y),
    {
        (self.x, self.y)
    }

    /// Move by `(dx, dy)` and return the new position.
    pub fn add(&mut self, dx: i32, dy: i32) -> (p: (i32, i32))
        requires
            i32::MIN <= old(self).x + dx <= i32::MAX,
            i32::MIN <= old(self).y + dy <= i32::MAX,
        ensures
            final(self).x == old(self).x + dx,
            final(self).y == old(self).y + dy,
            p == (final(self).x, final(self).y),
    {
        self.x = self.x + dx;
        self.y = self.y + dy;
        (self.x, self.y)
    }
}

/// The absolute position an XInput2 motion event reports (its root
/// coordinates are 16.16 fixed point).
pub fn motion_event(root_x: i32, root_y: i32) -> (e: CapturedEvent)
    ensures
        e == (CapturedEvent::AbsolutePosition { x: root_x >> 16i32, y: root_y >> 16i32 }),
{
    CapturedEvent::AbsolutePosition { x: root_x >> 16i32, y: root_y >> 16i32 }
}

/// The event of an XInput2 button press or release (buttons with no
/// meaning are dropped).
pub fn button_event(detail: u32, pressed: bool) -> (e: Option<CapturedEvent>)
    ensures
        e == (match button_of_code(detail) {
            Some(button) => Some(CapturedEvent::MouseButton { button, pressed }),
            None => None,
        }),
{
    match button_from_code(detail) {
        Some(button) => Some(CapturedEvent::MouseButton { button, pressed }),
        None => None,
    }
}

/// The event of an XInput2 key press or release, with the evdev key code.
pub fn key_event(detail: u32, pressed: bool) -> (e: CapturedEvent)
    ensures
        e == (CapturedEvent::Key {
            keycode: if detail < 8 { 0 } else { (detail - 8) as u32 },
            modifiers: KeyModifiers { bits: 0 },
            pressed,
        }),
{
    CapturedEvent::Key { keycode: x11_keycode_to_evdev(detail), modifiers: KeyModifiers::none(), pressed }
}

// Core protocol event codes used with XTEST.
pub const KEY_PRESS_EVENT: u8 = 2;
pub const KEY_RELEASE_EVENT: u8 = 3;
pub const BUTTON_PRESS_EVENT: u8 = 4;
pub const BUTTON_RELEASE_EVENT: u8 = 5;
pub const MOTION_NOTIFY_EVENT: u8 = 6;

/// One XTEST fake input: event code, detail, and root coordinates.
#[derive(Clone, Copy, Debug, PartialEq, Eq, Structural)]
pub struct FakeInput {
    pub event_type: u8,
    pub detail: u8,
    pub x: i16,
    pub y: i16,
}

pub open spec fn clamp_i16(v: i32) -> i16 {
    if v < i16::MIN { i16::MIN } else if v > i16::MAX { i16::MAX } else { v as i16 }
}

/// The fake input that injects `event` through XTEST (none for an absolute
/// position report). A key's evdev code goes back to an X11 key code by
/// adding 8; one that does not fit a byte is refused.
pub fn fake_input(event: CapturedEvent) -> (r: Result<Option<FakeInput>, InputError>)
    ensures
        match event {
            CapturedEvent::AbsolutePosition { .. } => r matches Ok(None),
            CapturedEvent::MouseMove { x, y } => r == Ok::<Option<FakeInput>, InputError>(
                Some(FakeInput { event_type: MOTION_NOTIFY_EVENT, detail: 0, x: clamp_i16(x), y: clamp_i16(y) }),
            ),
            CapturedEvent::MouseButton { button, pressed } => r == Ok::<Option<FakeInput>, InputError>(
                Some(FakeInput {
                    event_type: if pressed { BUTTON_PRESS_EVENT } else { BUTTON_RELEASE_EVENT },
                    detail: spec_button_code(button),
                    x: 0,
                    y: 0,
                }),
            ),
            CapturedEvent::Key { keycode, pressed, .. } => if keycode + 8 <= 255 {
                r == Ok::<Option<FakeInput>, InputError>(
                    Some(FakeInput {
                        event_type: if pressed { KEY_PRESS_EVENT } else { KEY_RELEASE_EVENT },
                        detail: (keycode + 8) as u8,
                        x: 0,
                        y: 0,
                    }),
                )
            } else {
                r matches Err(InputError::X11Connection(m)) && m@ == "keycode fuera de rango: "@ + dec_string(keycode as nat)
            },
        },
{
    match event {
        CapturedEvent::AbsolutePosition { .. } => Ok(None),
        CapturedEvent::MouseMove { x, y } => Ok(
            Some(FakeInput { event_type: MOTION_NOTIFY_EVENT, detail: 0, x: clamp_to_i16(x), y: clamp_to_i16(y) }),
        ),
        CapturedEvent::MouseButton { button, pressed } => Ok(
            Some(FakeInput {
                event_type: if pressed { BUTTON_PRESS_EVENT } else { BUTTON_RELEASE_EVENT },
                detail: button_to_code(button),
                x: 0,
                y: 0,
            }),
        ),
        CapturedEvent::Key { keycode, pressed, .. } => {
            let code = keycode.saturating_add(8);
            if code <= 255 {
                Ok(
                    Some(FakeInput {
                        event_type: if pressed { KEY_PRESS_EVENT } else { KEY_RELEASE_EVENT },
                        detail: code as u8,
                        x: 0,
                        y: 0,
                    }),
                )
            } else {
                let mut m = "keycode fuera de rango: ".to_owned();
                push_decimal(&mut m, keycode as u64);
                Err(InputError::X11Connection(m))
            }
        },
    }
}

} // verus!
