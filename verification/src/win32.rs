use vstd::prelude::*;

use crate::types::{CapturedEvent, KeyModifiers, MouseButton};

verus! {

// Window messages delivered to the low-level hooks.
pub const WM_KEYDOWN: u32 = 0x0100;
pub const WM_KEYUP: u32 = 0x0101;
pub const WM_SYSKEYDOWN: u32 = 0x0104;
pub const WM_SYSKEYUP: u32 = 0x0105;
pub const WM_MOUSEMOVE: u32 = 0x0200;
pub const WM_LBUTTONDOWN: u32 = 0x0201;
pub const WM_LBUTTONUP: u32 = 0x0202;
pub const WM_RBUTTONDOWN: u32 = 0x0204;
pub const WM_RBUTTONUP: u32 = 0x0205;
pub const WM_MBUTTONDOWN: u32 = 0x0207;
pub const WM_MBUTTONUP: u32 = 0x0208;
pub const WM_XBUTTONDOWN: u32 = 0x020B;
pub const WM_XBUTTONUP: u32 = 0x020C;

// Flags of a synthesized mouse input.
pub const MOUSEEVENTF_MOVE: u32 = 0x0001;
pub const MOUSEEVENTF_LEFTDOWN: u32 = 0x0002;
pub const MOUSEEVENTF_LEFTUP: u32 = 0x0004;
pub const MOUSEEVENTF_RIGHTDOWN: u32 = 0x0008;
pub const MOUSEEVENTF_RIGHTUP: u32 = 0x0010;
pub const MOUSEEVENTF_MIDDLEDOWN: u32 = 0x0020;
pub const MOUSEEVENTF_MIDDLEUP: u32 = 0x0040;
pub const MOUSEEVENTF_XDOWN: u32 = 0x0080;
pub const MOUSEEVENTF_XUP: u32 = 0x0100;
pub const MOUSEEVENTF_WHEEL: u32 = 0x0800;
pub const MOUSEEVENTF_HWHEEL: u32 = 0x1000;
pub const MOUSEEVENTF_VIRTUALDESK: u32 = 0x4000;
pub const MOUSEEVENTF_ABSOLUTE: u32 = 0x8000;

/// One notch of the wheel.
pub const WHEEL_DELTA: i32 = 120;
pub const XBUTTON1: i32 = 1;
pub const XBUTTON2: i32 = 2;

/// Capture through the low-level mouse and keyboard hooks.
#[derive(Debug, Default)]
pub struct WindowsCapture;

impl WindowsCapture {
    pub fn new() -> (c: WindowsCapture) {
        WindowsCapture
    }
}

/// Injection through `SendInput`; it keeps no state.
#[derive(Debug, Default)]
pub struct WindowsInjector;

impl WindowsInjector {
    pub fn new() -> (i: WindowsInjector) {
        WindowsInjector
    }
}

/// The event a mouse hook message reports; the X button comes in the high
/// word of the mouse data (1 is back, anything else forward).
pub open spec fn spec_mouse_event(message: u32, x: i32, y: i32, mouse_data: u32) -> Option<CapturedEvent> {
    if message == WM_MOUSEMOVE {
        Some(CapturedEvent::MouseMove { x, y })
    } else if message == WM_LBUTTONDOWN || message == WM_LBUTTONUP {
        Some(CapturedEvent::MouseButton { button: MouseButton::Left, pressed: message == WM_LBUTTONDOWN })
    } else if message == WM_RBUTTONDOWN || message == WM_RBUTTONUP {
        Some(CapturedEvent::MouseButton { button: MouseButton::Right, pressed: message == WM_RBUTTONDOWN })
    } else if message == WM_MBUTTONDOWN || message == WM_MBUTTONUP {
        Some(CapturedEvent::MouseButton { button: MouseButton::Middle, pressed: message == WM_MBUTTONDOWN })
    } else if message == WM_XBUTTONDOWN || message == WM_XBUTTONUP {
        let button = if (mouse_data / 65536) % 65536 == 1 { MouseButton::Back } else { MouseButton::Forward };
        Some(CapturedEvent::MouseButton { button, pressed: message == WM_XBUTTONDOWN })
    } else {
        None
    }
}

/// The event reported by the mouse hook for `message` at `(x, y)`.
pub fn mouse_event(message: u32, x: i32, y: i32, mouse_data: u32) -> (e: Option<CapturedEvent>)
    ensures
        e == spec_mouse_event(message, x, y, mouse_data),
{
    if message == WM_MOUSEMOVE {
        Some(CapturedEvent::MouseMove { x, y })
    } else if message == WM_LBUTTONDOWN || message == WM_LBUTTONUP {
        Some(CapturedEvent::MouseButton { button: MouseButton::Left, pressed: message == WM_LBUTTONDOWN })
    } else if message == WM_RBUTTONDOWN || message == WM_RBUTTONUP {
        Some(CapturedEvent::MouseButton { button: MouseButton::Right, pressed: message == WM_RBUTTONDOWN })
    } else if message == WM_MBUTTONDOWN || message == WM_MBUTTONUP {
        Some(CapturedEvent::MouseButton { button: MouseButton::Middle, pressed: message == WM_MBUTTONDOWN })
    } else if message == WM_XBUTTONDOWN || message == WM_XBUTTONUP {
        assert(((mouse_data >> 16u32) & 0xFFFFu32) == (mouse_data / 65536) % 65536) by (bit_vector);
        let x_button = (mouse_data >> 16u32) & 0xFFFFu32;
        let button = if x_button == 1 { MouseButton::Back } else { MouseButton::Forward };
        Some(CapturedEvent::MouseButton { button, pressed: message == WM_XBUTTONDOWN })
    } else {
        None
    }
}

/// The event reported by the keyboard hook: key downs (plain or system)
/// press, key ups release, with the virtual-key code as key code.
pub fn key_event(message: u32, vk_code: u32) -> (e: Option<CapturedEvent>)
    ensures
        e == (if message == WM_KEYDOWN || message == WM_SYSKEYDOWN {
            Some(CapturedEvent::Key { keycode: vk_code, modifiers: KeyModifiers { bits: 0 }, pressed: true })
        } else if message == WM_KEYUP || message == WM_SYSKEYUP {
            Some(CapturedEvent::Key { keycode: vk_code, modifiers: KeyModifiers { bits: 0 }, pressed: false })
        } else {
            None
        }),
{
    let pressed = message == WM_KEYDOWN || message == WM_SYSKEYDOWN;
    let released = message == WM_KEYUP || message == WM_SYSKEYUP;
    if pressed || released {
        Some(CapturedEvent::Key { keycode: vk_code, modifiers: KeyModifiers::none(), pressed })
    } else {
        None
    }
}

/// Integer division rounding toward zero, as machine division does.
pub open spec fn div_toward_zero(n: int, d: int) -> int {
    if n >= 0 {
        n / d
    } else {
        -((-n) / d)
    }
}

/// A screen coordinate mapped to the 0..=65535 scale of absolute input,
/// relative to the virtual desktop starting at `origin` and `extent`
/// pixels wide (0 when the extent is not positive).
pub fn normalize_absolute(value: i32, origin: i32, extent: i32) -> (r: i32)
    requires
        i32::MIN <= value - origin <= i32::MAX,
    ensures
        extent <= 0 ==> r == 0,
        extent > 0 ==> r == div_toward_zero((value - origin) * 65535, extent as int) as i32,
{
    if extent <= 0 {
        return 0;
    }
    let d = (value - origin) as i64;
    let n = d * 65535;
    let e = extent as i64;
    let q = if n >= 0 { n / e } else { -((-n) / e) };
    assert(q == div_toward_zero((value - origin) * 65535, extent as int));
    q as i32
}

/// One `SendInput` request.
#[derive(Clone, Copy, Debug, PartialEq, Eq, Structural)]
pub enum WinInput {
    Mouse { dx: i32, dy: i32, data: i32, flags: u32 },
    Key { vk: u16, key_up: bool },
}

/// The `SendInput` request, if any, that injects `event` on a virtual
/// desktop at `(ox, oy)` of `width` x `height` pixels; `vk` is the
/// virtual-key code of the event's key, when one is known. Scroll notches
/// act on the press only, as one wheel step.
pub open spec fn spec_win_input(event: CapturedEvent, ox: i32, oy: i32, width: i32, height: i32, vk: Option<u16>) -> Option<WinInput> {
    match event {
        CapturedEvent::AbsolutePosition { .. } => None,
        CapturedEvent::MouseMove { x, y } => Some(WinInput::Mouse {
            dx: if width <= 0 { 0 } else { div_toward_zero((x - ox) * 65535, width as int) as i32 },
            dy: if height <= 0 { 0 } else { div_toward_zero((y - oy) * 65535, height as int) as i32 },
            data: 0,
            flags: MOUSEEVENTF_MOVE | MOUSEEVENTF_ABSOLUTE | MOUSEEVENTF_VIRTUALDESK,
        }),
        CapturedEvent::MouseButton { button, pressed } => match button {
            MouseButton::ScrollUp => if pressed { Some(WinInput::Mouse { dx: 0, dy: 0, data: WHEEL_DELTA, flags: MOUSEEVENTF_WHEEL }) } else { None },
            MouseButton::ScrollDown => if pressed { Some(WinInput::Mouse { dx: 0, dy: 0, data: (0 - WHEEL_DELTA) as i32, flags: MOUSEEVENTF_WHEEL }) } else { None },
            MouseButton::ScrollRight => if pressed { Some(WinInput::Mouse { dx: 0, dy: 0, data: WHEEL_DELTA, flags: MOUSEEVENTF_HWHEEL }) } else { None },
            MouseButton::ScrollLeft => if pressed { Some(WinInput::Mouse { dx: 0, dy: 0, data: (0 - WHEEL_DELTA) as i32, flags: MOUSEEVENTF_HWHEEL }) } else { None },
            MouseButton::Left => Some(WinInput::Mouse { dx: 0, dy: 0, data: 0, flags: if pressed { MOUSEEVENTF_LEFTDOWN } else { MOUSEEVENTF_LEFTUP } }),
            MouseButton::Right => Some(WinInput::Mouse { dx: 0, dy: 0, data: 0, flags: if pressed { MOUSEEVENTF_RIGHTDOWN } else { MOUSEEVENTF_RIGHTUP } }),
            MouseButton::Middle => Some(WinInput::Mouse { dx: 0, dy: 0, data: 0, flags: if pressed { MOUSEEVENTF_MIDDLEDOWN } else { MOUSEEVENTF_MIDDLEUP } }),
            MouseButton::Back => Some(WinInput::Mouse { dx: 0, dy: 0, data: XBUTTON1, flags: if pressed { MOUSEEVENTF_XDOWN } else { MOUSEEVENTF_XUP } }),
            MouseButton::Forward => Some(WinInput::Mouse { dx: 0, dy: 0, data: XBUTTON2, flags: if pressed { MOUSEEVENTF_XDOWN } else { MOUSEEVENTF_XUP } }),
        },
        CapturedEvent::Key { pressed, .. } => match vk {
            Some(v) => Some(WinInput::Key { vk: v, key_up: !pressed }),
            None => None,
        },
    }
}

/// `SendInput`'s down and up flags, and mouse data, for each button, as
/// the Windows documentation lists them: left 0x0002/0x0004, right
/// 0x0008/0x0010, middle 0x0020/0x0040, and the X buttons 0x0080/0x0100
/// with data 1 (back) or 2 (forward). Scroll notches have none.
pub open spec fn button_flag_table(button: MouseButton) -> Option<(u32, u32, i32)> {
    match button {
        MouseButton::Left => Some((0x0002u32, 0x0004u32, 0i32)),
        MouseButton::Right => Some((0x0008u32, 0x0010u32, 0i32)),
        MouseButton::Middle => Some((0x0020u32, 0x0040u32, 0i32)),
        MouseButton::Back => Some((0x0080u32, 0x0100u32, 1i32)),
        MouseButton::Forward => Some((0x0080u32, 0x0100u32, 2i32)),
        _ => None,
    }
}

/// A button event is injected with its own button's flag: the down flag
/// for a press, the up flag for a release, and the button's mouse data,
/// whatever the desktop and key code.
pub proof fn lemma_button_flags(button: MouseButton, pressed: bool, ox: i32, oy: i32, width: i32, height: i32, vk: Option<u16>)
    requires
        button_flag_table(button) is Some,
    ensures
        ({
            let (down, up, data) = button_flag_table(button)->0;
            spec_win_input(CapturedEvent::MouseButton { button, pressed }, ox, oy, width, height, vk) == Some(
                WinInput::Mouse { dx: 0, dy: 0, data, flags: if pressed { down } else { up } },
            )
        }),
{
}

/// Distinct buttons are injected distinctly: no two buttons share the same
/// pair of flag and data, and a press never carries a release's flag.
pub proof fn lemma_button_flags_distinct(a: MouseButton, b: MouseButton)
    requires
        button_flag_table(a) is Some,
        button_flag_table(b) is Some,
        a != b,
    ensures
        button_flag_table(a) != button_flag_table(b),
        ({
            let (down_a, up_a, data_a) = button_flag_table(a)->0;
            let (down_b, up_b, data_b) = button_flag_table(b)->0;
            down_a != up_b && down_a != up_a
        }),
{
}

/// What the mouse hook reports for a button message, injected back through
/// `SendInput`, is that same button going the same way: the hook's
/// left/right/middle down and up messages (0x0201/0x0202, 0x0204/0x0205,
/// 0x0207/0x0208) come out as the flags 0x0002/0x0004, 0x0008/0x0010 and
/// 0x0020/0x0040, and the X buttons' as 0x0080/0x0100 with the same data.
pub proof fn lemma_hook_then_inject_same_button(message: u32, x: i32, y: i32, mouse_data: u32, ox: i32, oy: i32, width: i32, height: i32, vk: Option<u16>)
    requires
        spec_mouse_event(message, x, y, mouse_data) matches Some(CapturedEvent::MouseButton { .. }),
    ensures
        ({
            let e = spec_mouse_event(message, x, y, mouse_data)->0;
            let flags = if message == 0x0201u32 { 0x0002u32 } else if message == 0x0202u32 { 0x0004u32 }
                else if message == 0x0204u32 { 0x0008u32 } else if message == 0x0205u32 { 0x0010u32 }
                else if message == 0x0207u32 { 0x0020u32 } else if message == 0x0208u32 { 0x0040u32 }
                else if message == 0x020Bu32 { 0x0080u32 } else { 0x0100u32 };
            spec_win_input(e, ox, oy, width, height, vk) matches Some(WinInput::Mouse { flags: f, .. }) && f == flags
        }),
{
}

/// The `SendInput` request that injects `event`.
pub fn win_input(event: CapturedEvent, ox: i32, oy: i32, width: i32, height: i32, vk: Option<u16>) -> (r: Option<WinInput>)
    requires
        event matches CapturedEvent::MouseMove { x, y } ==> i32::MIN <= x - ox <= i32::MAX && i32::MIN <= y - oy <= i32::MAX,
    ensures
        r == spec_win_input(event, ox, oy, width, height, vk),
{
    match event {
        CapturedEvent::AbsolutePosition { .. } => None,
        CapturedEvent::MouseMove { x, y } => Some(WinInput::Mouse {
            dx: normalize_absolute(x, ox, width),
            dy: normalize_absolute(y, oy, height),
            data: 0,
            flags: MOUSEEVENTF_MOVE | MOUSEEVENTF_ABSOLUTE | MOUSEEVENTF_VIRTUALDESK,
        }),
        CapturedEvent::MouseButton { button, pressed } => match button {
            MouseButton::ScrollUp => if pressed { Some(WinInput::Mouse { dx: 0, dy: 0, data: WHEEL_DELTA, flags: MOUSEEVENTF_WHEEL }) } else { None },
            MouseButton::ScrollDown => if pressed { Some(WinInput::Mouse { dx: 0, dy: 0, data: -WHEEL_DELTA, flags: MOUSEEVENTF_WHEEL }) } else { None },
            MouseButton::ScrollRight => if pressed { Some(WinInput::Mouse { dx: 0, dy: 0, data: WHEEL_DELTA, flags: MOUSEEVENTF_HWHEEL }) } else { None },
            MouseButton::ScrollLeft => if pressed { Some(WinInput::Mouse { dx: 0, dy: 0, data: -WHEEL_DELTA, flags: MOUSEEVENTF_HWHEEL }) } else { None },
            MouseButton::Left => Some(WinInput::Mouse { dx: 0, dy: 0, data: 0, flags: if pressed { MOUSEEVENTF_LEFTDOWN } else { MOUSEEVENTF_LEFTUP } }),
            MouseButton::Right => Some(WinInput::Mouse { dx: 0, dy: 0, data: 0, flags: if pressed { MOUSEEVENTF_RIGHTDOWN } else { MOUSEEVENTF_RIGHTUP } }),
            MouseButton::Middle => Some(WinInput::Mouse { dx: 0, dy: 0, data: 0, flags: if pressed { MOUSEEVENTF_MIDDLEDOWN } else { MOUSEEVENTF_MIDDLEUP } }),
            MouseButton::Back => Some(WinInput::Mouse { dx: 0, dy: 0, data: XBUTTON1, flags: if pressed { MOUSEEVENTF_XDOWN } else { MOUSEEVENTF_XUP } }),
            MouseButton::Forward => Some(WinInput::Mouse { dx: 0, dy: 0, data: XBUTTON2, flags: if pressed { MOUSEEVENTF_XDOWN } else { MOUSEEVENTF_XUP } }),
        },
        CapturedEvent::Key { pressed, .. } => match vk {
            Some(v) => Some(WinInput::Key { vk: v, key_up: !pressed }),
            None => None,
        },
    }
}

} // verus!
