use vstd::prelude::*;

use crate::held::{HeldInput, button_release_event, key_release_event};
use crate::text::{chars_of, str_eq};
use crate::protocol::{text_of_clipboard_sync, utf8_decode};
use crate::session::forward_message;
use crate::types::{CapturedEvent, KeyModifiers, KeyboardPress, KeyboardRelease, Message, MouseButton};

verus! {

// ---------------------------------------------------------------------
// Choice of the injection backend

/// Injection backends available on Linux.
#[derive(Clone, Copy, Debug, PartialEq, Eq, Structural)]
pub enum Backend {
    X11,
    Wayland,
}

impl Backend {
    pub fn name(self) -> (n: &'static str)
        ensures
            n@ == (match self {
                Backend::X11 => "x11"@,
                Backend::Wayland => "wayland"@,
            }),
    {
        match self {
            Backend::X11 => "x11",
            Backend::Wayland => "wayland",
        }
    }
}

/// Order in which to try the injection backends.
#[derive(Clone, Copy, Debug, PartialEq, Eq, Structural)]
pub enum BackendPlan {
    /// Only this one, as the environment demands.
    Forced(Backend),
    /// This one, then the other if it fails. `unknown_forced` tells that a
    /// forced backend was named but not recognised (and is ignored).
    Chain { first: Backend, second: Backend, unknown_forced: bool },
}

pub open spec fn ascii_lower(c: char) -> char {
    if 'A' <= c <= 'Z' {
        ((c as u32) + 32) as char
    } else {
        c
    }
}

/// Whether `s[i..j]` equals `word` ignoring ASCII case.
pub open spec fn eq_ignore_case(s: Seq<char>, i: int, j: int, word: Seq<char>) -> bool {
    j - i == word.len() && forall|k: int| 0 <= k < word.len() ==> ascii_lower(#[trigger] s[i + k]) == ascii_lower(word[k])
}

/// Whether one of the `:`-separated parts of `s` is `word`, ignoring ASCII
/// case.
pub open spec fn has_part(s: Seq<char>, word: Seq<char>) -> bool {
    exists|i: int, j: int|
        #![trigger eq_ignore_case(s, i, j, word)]
        0 <= i <= j <= s.len() && (i == 0 || s[i - 1] == ':') && (j == s.len() || s[j] == ':') && (forall|k: int|
            i <= k < j ==> s[k] != ':') && eq_ignore_case(s, i, j, word)
}

/// The backend order for the environment: a recognised forced backend wins;
/// otherwise the portal comes first only in a Wayland session (or with a
/// Wayland display and no X display) whose desktop is not GNOME, which
/// relays XTEST to the whole system.
pub open spec fn spec_plan(
    forced: Option<Seq<char>>,
    current_desktop: Option<Seq<char>>,
    session_type: Option<Seq<char>>,
    wayland_display: bool,
    x_display: bool,
) -> BackendPlan {
    if forced == Some("x11"@) {
        BackendPlan::Forced(Backend::X11)
    } else if forced == Some("wayland"@) {
        BackendPlan::Forced(Backend::Wayland)
    } else {
        let relays = match current_desktop {
            Some(d) => has_part(d, seq!['g', 'n', 'o', 'm', 'e']),
            None => false,
        };
        let prefers_wayland = !relays && (session_type == Some("wayland"@) || (wayland_display && !x_display));
        let (first, second) = if prefers_wayland {
            (Backend::Wayland, Backend::X11)
        } else {
            (Backend::X11, Backend::Wayland)
        };
        BackendPlan::Chain { first, second, unknown_forced: forced is Some }
    }
}

fn lower(c: char) -> (r: char)
    ensures
        r == ascii_lower(c),
{
    if 'A' <= c && c <= 'Z' {
        ((c as u8) + 32) as char
    } else {
        c
    }
}

/// Whether one of the `:`-separated parts of `s` is `gnome` in any ASCII
/// case.
fn names_gnome(s: &str) -> (r: bool)
    ensures
        r == has_part(s@, seq!['g', 'n', 'o', 'm', 'e']),
{
    let c = chars_of(s);
    let word = ['g', 'n', 'o', 'm', 'e'];
    let ghost w = seq!['g', 'n', 'o', 'm', 'e'];
    assert(word@ =~= w);
    let n = c.len();
    let mut i: usize = 0;
    loop
        invariant
            i <= n,
            n == c@.len(),
            c@ == s@,
            word@ == w,
            w == seq!['g', 'n', 'o', 'm', 'e'],
            i == 0 || c@[i - 1] == ':',
            forall|a: int, b: int|
                #![trigger eq_ignore_case(c@, a, b, w)]
                0 <= a < i && a <= b <= n && (a == 0 || c@[a - 1] == ':') && (b == n || c@[b] == ':') && (forall|k: int|
                    a <= k < b ==> c@[k] != ':') ==> !eq_ignore_case(c@, a, b, w),
        decreases n - i,
    {
        let mut j = i;
        while j < n && c[j] != ':'
            invariant
                i <= j <= n,
                n == c@.len(),
                forall|k: int| i <= k < j ==> c@[k] != ':',
            decreases n - j,
        {
            j = j + 1;
        }
        let mut same = j - i == 5;
        if same {
            let mut k: usize = 0;
            while k < 5
                invariant
                    0 <= k <= 5,
                    j - i == 5,
                    j <= n,
                    n == c@.len(),
                    word@ == w,
                    same == (forall|m: int| 0 <= m < k ==> ascii_lower(c@[i + m]) == ascii_lower(w[m])),
                decreases 5 - k,
            {
                if lower(c[i + k]) != lower(word[k]) {
                    same = false;
                }
                k = k + 1;
            }
        }
        assert(same == eq_ignore_case(c@, i as int, j as int, w));
        if same {
            assert(eq_ignore_case(s@, i as int, j as int, w));
            return true;
        }
        proof {
            assert forall|a: int, b: int|
                #![trigger eq_ignore_case(c@, a, b, w)]
                0 <= a < j + 1 && a <= b <= n && (a == 0 || c@[a - 1] == ':') && (b == n || c@[b] == ':') && (forall|k: int|
                    a <= k < b ==> c@[k] != ':') implies !eq_ignore_case(c@, a, b, w) by {
                if a >= i && a <= j {
                    if a > i {
                        assert(c@[a - 1] != ':');
                    }
                    if b < j {
                        assert(c@[b] != ':');
                    }
                    if b > j {
                        assert(c@[j as int] == ':' || j == n);
                    }
                }
            }
        }
        if j >= n {
            proof {
                assert forall|a: int, b: int|
                    #![trigger eq_ignore_case(c@, a, b, w)]
                    0 <= a <= b <= n && (a == 0 || c@[a - 1] == ':') && (b == n || c@[b] == ':') && (forall|k: int|
                        a <= k < b ==> c@[k] != ':') implies !eq_ignore_case(c@, a, b, w) by {
                    if a > j {
                        assert(false);
                    }
                }
            }
            return false;
        }
        i = j + 1;
    }
}

fn opt_eq(a: Option<&str>, lit: &str) -> (r: bool)
    ensures
        r == (match a {
            Some(s) => s@ == lit@,
            None => false,
        }),
{
    match a {
        Some(s) => str_eq(s, lit),
        None => false,
    }
}

/// Order in which to try the injection backends, from the environment:
/// the forced backend (`IONCONNECT_INJECT_BACKEND`), the desktop
/// (`XDG_CURRENT_DESKTOP`), the session type (`XDG_SESSION_TYPE`) and
/// whether `WAYLAND_DISPLAY` and `DISPLAY` are set.
pub fn plan_backends(
    forced: Option<&str>,
    current_desktop: Option<&str>,
    session_type: Option<&str>,
    wayland_display: bool,
    x_display: bool,
) -> (p: BackendPlan)
    ensures
        p == spec_plan(
            match forced { Some(f) => Some(f@), None => None },
            match current_desktop { Some(d) => Some(d@), None => None },
            match session_type { Some(t) => Some(t@), None => None },
            wayland_display,
            x_display,
        ),
{
    if opt_eq(forced, "x11") {
        return BackendPlan::Forced(Backend::X11);
    }
    if opt_eq(forced, "wayland") {
        return BackendPlan::Forced(Backend::Wayland);
    }
    let relays = match current_desktop {
        Some(d) => names_gnome(d),
        None => false,
    };
    let prefers_wayland = !relays && (opt_eq(session_type, "wayland") || (wayland_display && !x_display));
    let unknown_forced = forced.is_some();
    if prefers_wayland {
        BackendPlan::Chain { first: Backend::Wayland, second: Backend::X11, unknown_forced }
    } else {
        BackendPlan::Chain { first: Backend::X11, second: Backend::Wayland, unknown_forced }
    }
}

// ---------------------------------------------------------------------
// Injection of what the server sends

/// What the session does with a message from the server.
#[derive(Clone, Debug, PartialEq, Eq)]
pub enum ClientAction {
    /// Publish the newest pointer position (absolute).
    Move { x: i32, y: i32 },
    /// Queue a key or button event, in order.
    Inject(CapturedEvent),
    /// Write this text to the local clipboard.
    ApplyClipboard(String),
    /// The server is closing the session.
    EndSession,
    /// Nothing to do.
    Ignore,
}

/// What the session does with a message that is neither a clipboard
/// update nor one that ends the session.
pub open spec fn spec_action_for(m: Message) -> ClientAction {
    match m {
        Message::MouseMove(mv) => ClientAction::Move { x: mv.x, y: mv.y },
        Message::MouseClick(c) => ClientAction::Inject(CapturedEvent::MouseButton { button: c.button, pressed: c.pressed }),
        Message::KeyboardPress(k) => ClientAction::Inject(CapturedEvent::Key { keycode: k.keycode, modifiers: k.modifiers, pressed: true }),
        Message::KeyboardRelease(k) => ClientAction::Inject(CapturedEvent::Key { keycode: k.keycode, modifiers: k.modifiers, pressed: false }),
        Message::Disconnect(_) => ClientAction::EndSession,
        _ => ClientAction::Ignore,
    }
}

/// What the session does with a clipboard update whose bytes decoded to
/// `decoded`: text is applied, anything that is not UTF-8 is ignored.
pub fn clipboard_action(decoded: Option<String>) -> (a: ClientAction)
    ensures
        match decoded {
            Some(t) => a matches ClientAction::ApplyClipboard(s) && s@ == t@,
            None => a == ClientAction::Ignore,
        },
{
    match decoded {
        Some(t) => ClientAction::ApplyClipboard(t),
        None => ClientAction::Ignore,
    }
}

/// What to do with a message received from the server: moves and input
/// events are injected, a clipboard update in UTF-8 is applied (other
/// bytes are ignored), a disconnect ends the session, and anything else
/// is ignored.
pub fn action_for(m: Message) -> (a: ClientAction)
    ensures
        match m {
            Message::ClipboardSync(sync) => match utf8_decode(sync.data@) {
                Some(t) => a matches ClientAction::ApplyClipboard(s) && s@ == t,
                None => a == ClientAction::Ignore,
            },
            _ => a == spec_action_for(m),
        },
        m matches Message::KeyboardPress(k) ==> a == ClientAction::Inject(
            CapturedEvent::Key { keycode: k.keycode, modifiers: k.modifiers, pressed: true },
        ),
        m matches Message::KeyboardRelease(k) ==> a == ClientAction::Inject(
            CapturedEvent::Key { keycode: k.keycode, modifiers: k.modifiers, pressed: false },
        ),
        m matches Message::MouseClick(c) ==> a == ClientAction::Inject(
            CapturedEvent::MouseButton { button: c.button, pressed: c.pressed },
        ),
        m matches Message::MouseMove(mv) ==> a == (ClientAction::Move { x: mv.x, y: mv.y }),
{
    match m {
        Message::MouseMove(mv) => ClientAction::Move { x: mv.x, y: mv.y },
        Message::MouseClick(c) => ClientAction::Inject(CapturedEvent::MouseButton { button: c.button, pressed: c.pressed }),
        Message::KeyboardPress(k) => ClientAction::Inject(CapturedEvent::Key { keycode: k.keycode, modifiers: k.modifiers, pressed: true }),
        Message::KeyboardRelease(k) => ClientAction::Inject(CapturedEvent::Key { keycode: k.keycode, modifiers: k.modifiers, pressed: false }),
        Message::ClipboardSync(sync) => clipboard_action(text_of_clipboard_sync(sync.data)),
        Message::Disconnect(_) => ClientAction::EndSession,
        _ => ClientAction::Ignore,
    }
}

/// What the server forwards is what the client injects: a button or key
/// event captured on the server, turned into its message and handled by
/// the client, comes back as the very same event to inject: a press stays
/// a press, a release stays a release, and the button or key is the same.
pub proof fn lemma_forwarded_input_is_injected_as_captured(event: CapturedEvent, x: i32, y: i32)
    requires
        forward_message(event, x, y) is Some,
    ensures
        spec_action_for(forward_message(event, x, y)->0) == ClientAction::Inject(event),
        forward_message(event, x, y)->0 !is ClipboardSync,
{
}

/// A key the server releases is released on the client, and a key it
/// presses is pressed: the two messages for one key inject opposite
/// states of that same key.
pub proof fn lemma_press_and_release_are_opposite(keycode: u32, modifiers: KeyModifiers)
    ensures
        spec_action_for(Message::KeyboardPress(KeyboardPress { keycode, modifiers })) matches ClientAction::Inject(
            CapturedEvent::Key { keycode: k1, pressed: p1, .. },
        ) && k1 == keycode && p1,
        spec_action_for(Message::KeyboardRelease(KeyboardRelease { keycode, modifiers })) matches ClientAction::Inject(
            CapturedEvent::Key { keycode: k2, pressed: p2, .. },
        ) && k2 == keycode && !p2,
{
}

/// The position a mouse-move datagram brings, if it is accepted. `opened`
/// is what opening the datagram gave: its sequence number and position, or
/// `None` when it could not be opened. `is_newer(seq, last)` says whether
/// sequence `seq` comes after `last`. The first datagram is always
/// accepted; after that only newer ones, and each accepted one becomes
/// the last seen. A datagram that could not be opened, or is old or
/// repeated, is dropped and leaves `last_seen` as it was.
pub fn accept_mouse_move<F: Fn(u32, u32) -> bool>(
    opened: Option<(u32, i32, i32)>,
    is_newer: F,
    last_seen: &mut Option<u32>,
) -> (r: Option<(i32, i32)>)
    requires
        forall|a: u32, b: u32| is_newer.requires((a, b)),
    ensures
        match opened {
            None => r is None && *final(last_seen) == *old(last_seen),
            Some((seq, x, y)) => match *old(last_seen) {
                None => r == Some((x, y)) && *final(last_seen) == Some(seq),
                Some(last) => exists|newer: bool|
                    #[trigger] is_newer.ensures((seq, last), newer) && if newer {
                        r == Some((x, y)) && *final(last_seen) == Some(seq)
                    } else {
                        r is None && *final(last_seen) == *old(last_seen)
                    },
            },
        },
{
    match opened {
        None => None,
        Some((seq, x, y)) => {
            let accept = match *last_seen {
                None => true,
                Some(last) => {
                    let newer = is_newer(seq, last);
                    assert(is_newer.ensures((seq, last), newer));
                    newer
                },
            };
            if accept {
                *last_seen = Some(seq);
                Some((x, y))
            } else {
                None
            }
        },
    }
}

/// State of the task that injects what the server sends: the keys and
/// buttons left down, and the last position injected (moves are absolute,
/// so a repeated one is skipped).
pub struct Injection {
    pub held: HeldInput,
    pub last_injected: Option<(i32, i32)>,
}

/// The move to inject for the newest known `position`, given the last one
/// injected.
pub open spec fn move_for(position: Option<(i32, i32)>, last: Option<(i32, i32)>) -> Option<CapturedEvent> {
    match position {
        Some((x, y)) => if last == Some((x, y)) { None } else { Some(CapturedEvent::MouseMove { x, y }) },
        None => None,
    }
}

impl Injection {
    pub open spec fn wf(&self) -> bool {
        self.held.wf()
    }

    pub fn new() -> (s: Injection)
        ensures
            s.wf(),
            s.held.keys.view() == Set::<u32>::empty(),
            s.held.buttons.view() == Set::<MouseButton>::empty(),
            s.last_injected is None,
    {
        Injection { held: HeldInput::new(), last_injected: None }
    }

    /// The move to inject for the newest position, if it is a new one.
    pub fn on_move(&mut self, position: Option<(i32, i32)>) -> (e: Option<CapturedEvent>)
        ensures
            e == move_for(position, old(self).last_injected),
            final(self).held == old(self).held,
            final(self).last_injected == (if e is Some { position } else { old(self).last_injected }),
    {
        match position {
            None => None,
            Some((x, y)) => {
                let same = match self.last_injected {
                    Some((lx, ly)) => lx == x && ly == y,
                    None => false,
                };
                if same {
                    None
                } else {
                    self.last_injected = Some((x, y));
                    Some(CapturedEvent::MouseMove { x, y })
                }
            },
        }
    }

    /// A key or button event from the server: the newest position first
    /// (so a click lands where the pointer is now), then the event, which
    /// is recorded as held or released.
    pub fn on_discrete(&mut self, position: Option<(i32, i32)>, event: CapturedEvent) -> (out: Vec<CapturedEvent>)
        requires
            old(self).wf(),
        ensures
            final(self).wf(),
            out@ == (match move_for(position, old(self).last_injected) {
                Some(m) => seq![m, event],
                None => seq![event],
            }),
            final(self).last_injected == (if move_for(position, old(self).last_injected) is Some {
                position
            } else {
                old(self).last_injected
            }),
            match event {
                CapturedEvent::Key { keycode, pressed, .. } => {
                    &&& final(self).held.buttons.view() == old(self).held.buttons.view()
                    &&& final(self).held.keys.view() == (if pressed {
                        old(self).held.keys.view().insert(keycode)
                    } else {
                        old(self).held.keys.view().remove(keycode)
                    })
                },
                CapturedEvent::MouseButton { button, pressed } => {
                    &&& final(self).held.keys.view() == old(self).held.keys.view()
                    &&& final(self).held.buttons.view() == (if pressed {
                        old(self).held.buttons.view().insert(button)
                    } else {
                        old(self).held.buttons.view().remove(button)
                    })
                },
                _ => final(self).held.keys.view() == old(self).held.keys.view()
                    && final(self).held.buttons.view() == old(self).held.buttons.view(),
            },
    {
        let mut out: Vec<CapturedEvent> = Vec::new();
        match self.on_move(position) {
            Some(m) => out.push(m),
            None => {},
        }
        self.held.track(&event);
        out.push(event);
        out
    }

    /// End of the session, first step: what was still queued is injected
    /// as it is, and recorded.
    pub fn replay(&mut self, pending: Vec<CapturedEvent>) -> (out: Vec<CapturedEvent>)
        requires
            old(self).wf(),
        ensures
            final(self).wf(),
            out@ == pending@,
            final(self).held.keys.view() == keys_after(old(self).held.keys.view(), pending@),
            final(self).held.buttons.view() == buttons_after(old(self).held.buttons.view(), pending@),
            final(self).last_injected == old(self).last_injected,
    {
        let mut out: Vec<CapturedEvent> = Vec::new();
        let mut i: usize = 0;
        while i < pending.len()
            invariant
                0 <= i <= pending@.len(),
                self.wf(),
                out@ == pending@.take(i as int),
                self.held.keys.view() == keys_after(old(self).held.keys.view(), pending@.take(i as int)),
                self.held.buttons.view() == buttons_after(old(self).held.buttons.view(), pending@.take(i as int)),
                self.last_injected == old(self).last_injected,
            decreases pending@.len() - i,
        {
            let ghost t = pending@.take(i + 1);
            assert(t.drop_last() =~= pending@.take(i as int));
            self.held.track(&pending[i]);
            out.push(pending[i]);
            assert(pending@.take(i + 1) =~= pending@.take(i as int).push(pending@[i as int]));
            i = i + 1;
        }
        assert(pending@.take(pending@.len() as int) =~= pending@);
        out
    }

    /// End of the session, last step: the releases of everything still
    /// down, keys first, then buttons.
    pub fn release_all(&mut self) -> (out: Vec<CapturedEvent>)
        requires
            old(self).wf(),
        ensures
            final(self).wf(),
            final(self).held.keys.view() == Set::<u32>::empty(),
            final(self).held.buttons.view() == Set::<MouseButton>::empty(),
            out@ == old(self).held.keys.items@.map_values(|k: u32| key_release_event(k))
                + old(self).held.buttons.items@.map_values(|b: MouseButton| button_release_event(b)),
    {
        self.held.release_all()
    }
}

/// Keys held after `events` are injected, starting from `keys`.
pub open spec fn keys_after(keys: Set<u32>, events: Seq<CapturedEvent>) -> Set<u32>
    decreases events.len(),
{
    if events.len() == 0 {
        keys
    } else {
        let k = keys_after(keys, events.drop_last());
        match events.last() {
            CapturedEvent::Key { keycode, pressed, .. } => if pressed { k.insert(keycode) } else { k.remove(keycode) },
            _ => k,
        }
    }
}

/// Buttons held after `events` are injected, starting from `buttons`.
pub open spec fn buttons_after(buttons: Set<MouseButton>, events: Seq<CapturedEvent>) -> Set<MouseButton>
    decreases events.len(),
{
    if events.len() == 0 {
        buttons
    } else {
        let b = buttons_after(buttons, events.drop_last());
        match events.last() {
            CapturedEvent::MouseButton { button, pressed } => if pressed { b.insert(button) } else { b.remove(button) },
            _ => b,
        }
    }
}

} // verus!
