use vstd::prelude::*;

verus! {

broadcast use vstd::array::group_array_axioms;

/// Identifier of a machine taking part in a session (16 opaque bytes).
#[derive(Clone, Copy, Debug, PartialEq, Eq, Hash)]
pub struct DeviceId {
    pub bytes: [u8; 16],
}

impl DeviceId {
    pub fn from_bytes(bytes: [u8; 16]) -> (id: DeviceId)
        ensures
            id.bytes == bytes,
    {
        DeviceId { bytes }
    }

    pub fn as_bytes(&self) -> (b: &[u8; 16])
        ensures
            *b == self.bytes,
    {
        &self.bytes
    }

    /// Byte-wise comparison of two identifiers.
    pub fn same_as(&self, other: &DeviceId) -> (same: bool)
        ensures
            same == (*self == *other),
    {
        let mut i: usize = 0;
        while i < 16
            invariant
                0 <= i <= 16,
                forall|j: int| 0 <= j < i ==> self.bytes[j] == other.bytes[j],
            decreases 16 - i,
        {
            if self.bytes[i] != other.bytes[i] {
                return false;
            }
            i = i + 1;
        }
        assert(self.bytes@ =~= other.bytes@);
        assert(self.bytes == other.bytes);
        true
    }
}

/// Mouse buttons, including the four scroll directions (reported as an
/// instantaneous press/release pair per notch).
#[derive(Clone, Copy, Debug, PartialEq, Eq, Structural, Hash)]
pub enum MouseButton {
    Left,
    Middle,
    Right,
    Back,
    Forward,
    ScrollUp,
    ScrollDown,
    ScrollLeft,
    ScrollRight,
}

/// Modifier state carried with key events (bit set; empty when unknown).
#[derive(Clone, Copy, Debug, PartialEq, Eq, Structural, Hash)]
pub struct KeyModifiers {
    pub bits: u8,
}

impl KeyModifiers {
    /// No modifier held.
    pub fn none() -> (m: KeyModifiers)
        ensures
            m.bits == 0,
    {
        KeyModifiers { bits: 0 }
    }
}

/// A platform-independent input event, captured locally or received from a
/// peer to be injected.
#[derive(Clone, Copy, Debug, PartialEq, Eq, Structural)]
pub enum CapturedEvent {
    /// Absolute position of the real cursor on this machine.
    AbsolutePosition { x: i32, y: i32 },
    /// Position on the virtual desktop of the machine that owns control.
    MouseMove { x: i32, y: i32 },
    MouseButton { button: MouseButton, pressed: bool },
    Key { keycode: u32, modifiers: KeyModifiers, pressed: bool },
}

/// Absolute pointer position on the receiving machine's desktop.
#[derive(Clone, Copy, Debug, PartialEq, Eq)]
pub struct MouseMove {
    pub x: i32,
    pub y: i32,
}

/// A button press or release at `(x, y)`.
#[derive(Clone, Copy, Debug, PartialEq, Eq)]
pub struct MouseClick {
    pub button: MouseButton,
    pub pressed: bool,
    pub x: i32,
    pub y: i32,
}

#[derive(Clone, Copy, Debug, PartialEq, Eq)]
pub struct KeyboardPress {
    pub keycode: u32,
    pub modifiers: KeyModifiers,
}

#[derive(Clone, Copy, Debug, PartialEq, Eq)]
pub struct KeyboardRelease {
    pub keycode: u32,
    pub modifiers: KeyModifiers,
}

#[derive(Clone, Copy, Debug, PartialEq, Eq)]
pub struct Heartbeat {
    pub sequence: u64,
}

/// First message on a connection, in both directions: who is speaking.
#[derive(Clone, Debug, PartialEq, Eq)]
pub struct Authentication {
    pub device_id: DeviceId,
    pub device_name: String,
    pub protocol_version: u32,
    pub cert_fingerprint: [u8; 32],
}

/// Kind of clipboard content carried by a [`ClipboardSync`].
#[derive(Clone, Copy, Debug, PartialEq, Eq, Structural)]
pub enum ClipboardMime {
    Text,
}

/// A clipboard change: its kind and its bytes (UTF-8 for text).
#[derive(Clone, Debug, PartialEq, Eq)]
pub struct ClipboardSync {
    pub mime: ClipboardMime,
    pub data: Vec<u8>,
}

/// The real size of the sender's desktop, in pixels.
#[derive(Clone, Copy, Debug, PartialEq, Eq, Structural)]
pub struct DisplayGeometry {
    pub width: u32,
    pub height: u32,
}

/// The UDP port on which the sender takes pointer positions.
#[derive(Clone, Copy, Debug, PartialEq, Eq, Structural)]
pub struct UdpHello {
    pub port: u16,
}

/// The sender is closing the session on purpose.
#[derive(Clone, Copy, Debug, PartialEq, Eq, Structural)]
pub struct Disconnect;

/// The messages exchanged between machines over their session.
#[derive(Clone, Debug, PartialEq, Eq)]
pub enum Message {
    Authentication(Authentication),
    Heartbeat(Heartbeat),
    MouseMove(MouseMove),
    MouseClick(MouseClick),
    KeyboardPress(KeyboardPress),
    KeyboardRelease(KeyboardRelease),
    ClipboardSync(ClipboardSync),
    DisplayGeometry(DisplayGeometry),
    UdpHello(UdpHello),
    Disconnect(Disconnect),
}

} // verus!
