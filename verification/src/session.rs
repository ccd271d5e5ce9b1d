use vstd::prelude::*;
use crate::types::{CapturedEvent, DeviceId, KeyModifiers, Message, MouseClick, KeyboardPress, KeyboardRelease};
use crate::held::{HeldGuard, ForwardedHeld, key_release_message, button_release_message, spec_is_scroll};
use crate::key_repeat::{KeyRepeater, Repeating};
use crate::handoff::{Active, HandoffAction, HandoffState};
use crate::x11::SharedPosition;
use crate::screen::clamp_int;

verus! {

/// Minimum time between two `MouseMove`s sent to the same peer (ms).
pub const MOUSE_SEND_INTERVAL_MS: u64 = 4;

/// How often the liveness of the peer that owns control is checked (ms).
pub const PEER_LIVENESS_CHECK_INTERVAL_MS: u64 = 200;

/// `a - b`, or 0 when `b` is later than `a`.
pub open spec fn elapsed(a: u64, b: u64) -> int {
    if a >= b { a - b } else { 0 }
}

/// The message that forwards a button or key event, with the pointer at
/// `(x, y)`; `None` for motion events.
pub open spec fn forward_message(event: CapturedEvent, x: i32, y: i32) -> Option<Message> {
    match event {
        CapturedEvent::MouseButton { button, pressed } => Some(
            Message::MouseClick(MouseClick { button, pressed, x, y }),
        ),
        CapturedEvent::Key { keycode, modifiers, pressed } => if pressed {
            Some(Message::KeyboardPress(KeyboardPress { keycode, modifiers }))
        } else {
            Some(Message::KeyboardRelease(KeyboardRelease { keycode, modifiers }))
        },
        _ => None,
    }
}

/// Mutable state of a capture session: duplicate filtering, forwarded keys,
/// key repetition and `MouseMove` rate limiting. Times are milliseconds.
pub struct SessionState<F: Fn(u32) -> bool> {
    pub held: HeldGuard,
    pub forwarded: ForwardedHeld,
    pub repeater: KeyRepeater<F>,
    /// Last position held back by the rate limit.
    pub pending_move: Option<(DeviceId, i32, i32)>,
    pub last_move_sent: u64,
    pub last_liveness_check: u64,
}

/// Outcome of an input event on the compositor-driven (portal) capture
/// path.
#[derive(Debug)]
pub enum PortalInputOutcome {
    /// A press or release reported twice: dropped.
    Dropped,
    /// Control is local: nothing to forward.
    Local,
    /// The pointer came back: send `releases` to `losing`, then release the
    /// capture with the cursor at `(x, y)`.
    Returned { losing: DeviceId, releases: Vec<Message>, x: i32, y: i32 },
    /// Control stays remote: the capture position becomes `(x, y)`, and
    /// `send` is the `MouseMove` due now, if any.
    Moved { device: DeviceId, x: i32, y: i32, send: Option<(DeviceId, i32, i32)> },
    /// Send `message` to `device`.
    Forward { device: DeviceId, message: Message },
    /// Nothing to do.
    Nothing,
}

/// Outcome of an activation of the capture by the compositor.
#[derive(Debug)]
pub enum ActivationOutcome {
    /// No cursor position was reported: ignored.
    NoCursor,
    /// Control goes to `device`; the capture position becomes `(x, y)` and
    /// a `MouseMove` to `(x, y)` is sent there.
    HandedOff { device: DeviceId, x: i32, y: i32 },
    /// No hand-off applies (no neighbour beyond that edge): release the
    /// capture.
    Release,
}

/// Outcome of a position report.
#[derive(Debug)]
pub enum PositionOutcome {
    /// The report does not matter in the current state.
    Ignored,
    /// Still inside the local desktop: nothing to do.
    Unchanged,
    /// Control changes hands: first send `releases` to the machine that
    /// loses control (if it was remote), then apply `action`.
    HandedOff { losing: Option<DeviceId>, releases: Vec<Message>, action: HandoffAction },
    /// Control stays remote: the position (pinned to the remote desktop) is
    /// recorded, and `send` is the `MouseMove` due now, if any.
    Moved { device: DeviceId, x: i32, y: i32, send: Option<(DeviceId, i32, i32)> },
}

impl<F: Fn(u32) -> bool> SessionState<F> {
    pub open spec fn wf(&self) -> bool {
        &&& self.held.wf()
        &&& self.forwarded.wf()
        &&& self.repeater.wf()
        &&& self.repeater.interval > 0
    }

    /// A fresh session at time `now`, as if a move had just been allowed one
    /// interval ago (so the first one goes out at once).
    pub fn new(repeatable: F, delay: u64, interval: u64, now: u64) -> (s: Self)
        requires
            forall|k: u32| repeatable.requires((k,)),
            interval > 0,
        ensures
            s.wf(),
            s.held.keys.view().len() == 0 && s.held.buttons.view().len() == 0,
            s.forwarded.keys.view().len() == 0 && s.forwarded.buttons.view().len() == 0,
            s.repeater.current is None,
            s.repeater.delay == delay && s.repeater.interval == interval,
            s.pending_move is None,
            s.last_move_sent == (if now >= MOUSE_SEND_INTERVAL_MS { now - MOUSE_SEND_INTERVAL_MS } else { now as int }),
            s.last_liveness_check == s.last_move_sent,
    {
        let past = if now >= MOUSE_SEND_INTERVAL_MS { now - MOUSE_SEND_INTERVAL_MS } else { now };
        SessionState {
            held: HeldGuard::new(),
            forwarded: ForwardedHeld::new(),
            repeater: KeyRepeater::new(delay, interval, repeatable),
            pending_move: None,
            last_move_sent: past,
            last_liveness_check: past,
        }
    }

    /// A move to `(x, y)` on `device` at `now`: returned if it may be sent
    /// now, otherwise kept as the pending one.
    pub fn send_move(&mut self, device: DeviceId, x: i32, y: i32, now: u64) -> (send: Option<(DeviceId, i32, i32)>)
        ensures
            final(self).held == old(self).held,
            final(self).forwarded == old(self).forwarded,
            final(self).repeater == old(self).repeater,
            final(self).last_liveness_check == old(self).last_liveness_check,
            if elapsed(now, old(self).last_move_sent) < MOUSE_SEND_INTERVAL_MS {
                send is None && final(self).pending_move == Some((device, x, y))
                    && final(self).last_move_sent == old(self).last_move_sent
            } else {
                send == Some((device, x, y)) && final(self).pending_move is None
                    && final(self).last_move_sent == now
            },
    {
        let since = now.saturating_sub(self.last_move_sent);
        if since < MOUSE_SEND_INTERVAL_MS {
            self.pending_move = Some((device, x, y));
            return None;
        }
        self.pending_move = None;
        self.last_move_sent = now;
        Some((device, x, y))
    }

    /// The pending move, if there is one and the interval has passed.
    pub fn flush_pending_move(&mut self, now: u64) -> (send: Option<(DeviceId, i32, i32)>)
        ensures
            final(self).held == old(self).held,
            final(self).forwarded == old(self).forwarded,
            final(self).repeater == old(self).repeater,
            final(self).last_liveness_check == old(self).last_liveness_check,
            match old(self).pending_move {
                None => send is None && final(self).pending_move is None
                    && final(self).last_move_sent == old(self).last_move_sent,
                Some(p) => if elapsed(now, old(self).last_move_sent) < MOUSE_SEND_INTERVAL_MS {
                    send is None && final(self).pending_move == old(self).pending_move
                        && final(self).last_move_sent == old(self).last_move_sent
                } else {
                    send == Some(p) && final(self).pending_move is None
                        && final(self).last_move_sent == now
                },
            },
    {
        let p = match self.pending_move {
            Some(p) => p,
            None => return None,
        };
        let since = now.saturating_sub(self.last_move_sent);
        if since < MOUSE_SEND_INTERVAL_MS {
            return None;
        }
        self.pending_move = None;
        self.last_move_sent = now;
        Some(p)
    }

    /// Drop what only made sense for the previous owner of control: the
    /// repeating key and the pending move.
    pub fn on_control_changed(&mut self)
        ensures
            final(self).held == old(self).held,
            final(self).forwarded == old(self).forwarded,
            final(self).repeater.current is None,
            final(self).repeater.delay == old(self).repeater.delay,
            final(self).repeater.interval == old(self).repeater.interval,
            final(self).repeater.repeatable == old(self).repeater.repeatable,
            final(self).pending_move is None,
            final(self).last_move_sent == old(self).last_move_sent,
            final(self).last_liveness_check == old(self).last_liveness_check,
    {
        self.repeater.clear();
        self.pending_move = None;
    }

    /// How long to sleep before there is own work to do (a key repetition or
    /// the pending move); `None` if nothing is scheduled.
    pub fn next_wakeup(&self, now: u64) -> (w: Option<u64>)
        requires
            self.last_move_sent + MOUSE_SEND_INTERVAL_MS <= u64::MAX,
        ensures
            w == (match (self.repeater.current, self.pending_move) {
                (None, None) => None,
                (Some(r), None) => Some(elapsed(r.next, now) as u64),
                (None, Some(_)) => Some(elapsed((self.last_move_sent + MOUSE_SEND_INTERVAL_MS) as u64, now) as u64),
                (Some(r), Some(_)) => {
                    let a = elapsed(r.next, now);
                    let b = elapsed((self.last_move_sent + MOUSE_SEND_INTERVAL_MS) as u64, now);
                    Some((if a <= b { a } else { b }) as u64)
                },
            }),
    {
        let repeat = match self.repeater.next_deadline() {
            Some(deadline) => Some(deadline.saturating_sub(now)),
            None => None,
        };
        let pending = match self.pending_move {
            Some(_) => Some((self.last_move_sent + MOUSE_SEND_INTERVAL_MS).saturating_sub(now)),
            None => None,
        };
        match (repeat, pending) {
            (Some(a), Some(b)) => Some(if a <= b { a } else { b }),
            (Some(a), None) => Some(a),
            (None, Some(b)) => Some(b),
            (None, None) => None,
        }
    }

    /// Whether the liveness of the remote owner should be checked at `now`
    /// (at most once per check interval); records the check when it is due.
    pub fn liveness_check_due(&mut self, now: u64) -> (due: bool)
        ensures
            final(self).held == old(self).held,
            final(self).forwarded == old(self).forwarded,
            final(self).repeater == old(self).repeater,
            final(self).pending_move == old(self).pending_move,
            final(self).last_move_sent == old(self).last_move_sent,
            due == (elapsed(now, old(self).last_liveness_check) >= PEER_LIVENESS_CHECK_INTERVAL_MS),
            final(self).last_liveness_check == (if due { now } else { old(self).last_liveness_check }),
    {
        let since = now.saturating_sub(self.last_liveness_check);
        if since < PEER_LIVENESS_CHECK_INTERVAL_MS {
            return false;
        }
        self.last_liveness_check = now;
        true
    }

    /// Forward a button or key event to the remote owner with the pointer at
    /// `(x, y)`, recording it as forwarded; `None` for motion events.
    pub fn forward_button_or_key(&mut self, event: CapturedEvent, x: i32, y: i32) -> (m: Option<Message>)
        requires
            old(self).wf(),
        ensures
            final(self).wf(),
            m == forward_message(event, x, y),
            final(self).held == old(self).held,
            final(self).repeater == old(self).repeater,
            final(self).pending_move == old(self).pending_move,
            final(self).last_move_sent == old(self).last_move_sent,
            final(self).last_liveness_check == old(self).last_liveness_check,
            m is None ==> final(self).forwarded == old(self).forwarded,
            m is Some ==> match event {
                CapturedEvent::Key { keycode, pressed, .. } => {
                    &&& final(self).forwarded.buttons.view() == old(self).forwarded.buttons.view()
                    &&& final(self).forwarded.keys.view() == (if pressed {
                        old(self).forwarded.keys.view().insert(keycode)
                    } else {
                        old(self).forwarded.keys.view().remove(keycode)
                    })
                },
                CapturedEvent::MouseButton { button, pressed } => {
                    &&& final(self).forwarded.keys.view() == old(self).forwarded.keys.view()
                    &&& final(self).forwarded.buttons.view() == (if pressed && !spec_is_scroll(button) {
                        old(self).forwarded.buttons.view().insert(button)
                    } else if pressed {
                        old(self).forwarded.buttons.view()
                    } else {
                        old(self).forwarded.buttons.view().remove(button)
                    })
                },
                _ => true,
            },
    {
        let message = match event {
            CapturedEvent::MouseButton { button, pressed } => Some(
                Message::MouseClick(MouseClick { button, pressed, x, y }),
            ),
            CapturedEvent::Key { keycode, modifiers, pressed } => if pressed {
                Some(Message::KeyboardPress(KeyboardPress { keycode, modifiers }))
            } else {
                Some(Message::KeyboardRelease(KeyboardRelease { keycode, modifiers }))
            },
            _ => None,
        };
        if message.is_some() {
            self.forwarded.track_forwarded(&event);
        }
        message
    }

    /// Key repetitions due at `now`: while control is remote, the repeating
    /// key is forwarded as a press (and recorded as forwarded); while it is
    /// local, repetition is cancelled instead.
    pub fn emit_due_key_repeats(&mut self, active: Active, now: u64) -> (m: Option<(DeviceId, Message)>)
        requires
            old(self).wf(),
            now + old(self).repeater.interval <= u64::MAX,
        ensures
            final(self).wf(),
            final(self).held == old(self).held,
            final(self).pending_move == old(self).pending_move,
            final(self).last_move_sent == old(self).last_move_sent,
            final(self).last_liveness_check == old(self).last_liveness_check,
            final(self).repeater.delay == old(self).repeater.delay,
            final(self).repeater.interval == old(self).repeater.interval,
            final(self).repeater.repeatable == old(self).repeater.repeatable,
            match (old(self).repeater.current, active) {
                (None, _) => m is None && final(self).repeater.current is None
                    && final(self).forwarded == old(self).forwarded,
                (Some(_), Active::Local) => m is None && final(self).repeater.current is None
                    && final(self).forwarded == old(self).forwarded,
                (Some(r), Active::Remote(device)) => if now < r.next {
                    m is None && final(self).repeater.current == old(self).repeater.current
                        && final(self).forwarded == old(self).forwarded
                } else {
                    &&& m == Some((device, Message::KeyboardPress(KeyboardPress { keycode: r.keycode, modifiers: KeyModifiers { bits: 0 } })))
                    &&& final(self).repeater.current == Some(Repeating { keycode: r.keycode, next: (now + old(self).repeater.interval) as u64 })
                    &&& final(self).forwarded.keys.view() == old(self).forwarded.keys.view().insert(r.keycode)
                    &&& final(self).forwarded.buttons.view() == old(self).forwarded.buttons.view()
                },
            },
    {
        if self.repeater.next_deadline().is_none() {
            return None;
        }
        let device = match active {
            Active::Remote(device) => device,
            Active::Local => {
                self.repeater.clear();
                return None;
            },
        };
        match self.repeater.tick(now) {
            Some(keycode) => {
                let event = CapturedEvent::Key { keycode, modifiers: KeyModifiers::none(), pressed: true };
                self.forwarded.track_forwarded(&event);
                Some((device, Message::KeyboardPress(KeyboardPress { keycode, modifiers: KeyModifiers::none() })))
            },
            None => None,
        }
    }

    /// Empty the forwarded record, returning the releases owed to the
    /// machine that loses control.
    pub fn release_forwarded(&mut self) -> (out: Vec<Message>)
        requires
            old(self).wf(),
        ensures
            final(self).wf(),
            final(self).forwarded.keys.view() == Set::<u32>::empty(),
            final(self).forwarded.buttons.view() == Set::<crate::types::MouseButton>::empty(),
            out@ == old(self).forwarded.keys.items@.map_values(|k: u32| key_release_message(k))
                + old(self).forwarded.buttons.items@.map_values(|b| button_release_message(b)),
            final(self).held == old(self).held,
            final(self).repeater == old(self).repeater,
            final(self).pending_move == old(self).pending_move,
            final(self).last_move_sent == old(self).last_move_sent,
            final(self).last_liveness_check == old(self).last_liveness_check,
    {
        self.forwarded.drain_releases()
    }

    /// A position report `(x, y)` carried by `event`, processed against the
    /// hand-off state:
    /// - while local, an absolute report resynchronises `position`;
    /// - absolute reports only matter while local, raw moves always;
    /// - a crossing hands control over (dropping repetition and the pending
    ///   move, and releasing what was forwarded to a remote loser);
    /// - otherwise, while remote, the position is pinned to the remote
    ///   desktop, recorded in `position` and rate-limited.
    pub fn on_position_report(
        &mut self,
        handoff: &mut HandoffState,
        position: &mut SharedPosition,
        event: CapturedEvent,
        x: i32,
        y: i32,
        now: u64,
    ) -> (out: PositionOutcome)
        requires
            old(self).wf(),
            old(handoff).wf(),
        ensures
            final(self).wf(),
            final(handoff).wf(),
            final(handoff).layout == old(handoff).layout,
            final(handoff).local_device == old(handoff).local_device,
            final(self).held == old(self).held,
            ({
                let local = old(handoff).active == Active::Local;
                let absolute = event is AbsolutePosition;
                let relevant = (local && (absolute || event is MouseMove)) || (!local && event is MouseMove);
                let start = if local && absolute { SharedPosition { x, y } } else { *old(position) };
                if !relevant {
                    out is Ignored && *final(position) == start && final(handoff).active == old(handoff).active
                        && final(self).forwarded == old(self).forwarded
                } else {
                    match old(handoff).layout.spec_crossing(old(handoff).current_device(), x as int, y as int) {
                        Some(c) => {
                            &&& final(handoff).active == old(handoff).active_for(c.0)
                            &&& *final(position) == start
                            &&& final(self).repeater.current is None
                            &&& final(self).pending_move is None
                            &&& out matches PositionOutcome::HandedOff { losing, releases, action }
                            &&& action == old(handoff).action_for(c.0, c.1, c.2)
                            &&& match old(handoff).active {
                                Active::Local => losing is None && releases@.len() == 0
                                    && final(self).forwarded == old(self).forwarded,
                                Active::Remote(d) => losing == Some(d)
                                    && final(self).forwarded.keys.view().is_empty()
                                    && final(self).forwarded.buttons.view().is_empty()
                                    && releases@ == old(self).forwarded.keys.items@.map_values(|k: u32| key_release_message(k))
                                        + old(self).forwarded.buttons.items@.map_values(|b| button_release_message(b)),
                            }
                        },
                        None => match old(handoff).active {
                            Active::Local => out is Unchanged && *final(position) == start
                                && final(handoff).active == old(handoff).active
                                && final(self).forwarded == old(self).forwarded,
                            Active::Remote(d) => {
                                &&& final(handoff).active == old(handoff).active
                                &&& final(self).forwarded == old(self).forwarded
                                &&& out matches PositionOutcome::Moved { device, x: px, y: py, send }
                                &&& device == d
                                &&& match old(handoff).layout.spec_bounds_of(d) {
                                    Some(Some(b)) => px == clamp_int(x as int, b.x as int, b.last_x())
                                        && py == clamp_int(y as int, b.y as int, b.last_y()),
                                    _ => px == x && py == y,
                                }
                                &&& final(position).x == px && final(position).y == py
                                &&& if elapsed(now, old(self).last_move_sent) < MOUSE_SEND_INTERVAL_MS {
                                    send is None && final(self).pending_move == Some((d, px, py))
                                } else {
                                    send == Some((d, px, py)) && final(self).pending_move is None
                                        && final(self).last_move_sent == now
                                }
                            },
                        },
                    }
                }
            }),
    {
        let local = match handoff.active() {
            Active::Local => true,
            Active::Remote(_) => false,
        };
        let absolute = match event {
            CapturedEvent::AbsolutePosition { .. } => true,
            _ => false,
        };
        let raw = match event {
            CapturedEvent::MouseMove { .. } => true,
            _ => false,
        };
        if local && absolute {
            position.reset(x, y);
        }
        let relevant = (local && (absolute || raw)) || (!local && raw);
        if !relevant {
            return PositionOutcome::Ignored;
        }
        let previous = handoff.active();
        match handoff.on_position(x, y) {
            Some(action) => {
                self.on_control_changed();
                match previous {
                    Active::Remote(d) => {
                        let releases = self.release_forwarded();
                        PositionOutcome::HandedOff { losing: Some(d), releases, action }
                    },
                    Active::Local => PositionOutcome::HandedOff { losing: None, releases: Vec::new(), action },
                }
            },
            None => {
                match handoff.active() {
                    Active::Remote(device) => {
                        let (cx, cy) = handoff.clamp_to_active_desktop(x, y);
                        position.reset(cx, cy);
                        let send = self.send_move(device, cx, cy, now);
                        PositionOutcome::Moved { device, x: cx, y: cy, send }
                    },
                    Active::Local => PositionOutcome::Unchanged,
                }
            },
        }
    }

    /// The owner of control is `device` but it is no longer connected:
    /// control comes back, repetition and the pending move are dropped, and
    /// what was forwarded to it is forgotten (it cannot be told any more).
    /// `true` when that happened.
    pub fn reclaim_if_gone(&mut self, handoff: &mut HandoffState, device: DeviceId, connected: bool) -> (reclaimed: bool)
        requires
            old(self).wf(),
        ensures
            final(self).wf(),
            final(handoff).layout == old(handoff).layout,
            final(handoff).local_device == old(handoff).local_device,
            final(self).held == old(self).held,
            reclaimed == (!connected && old(handoff).active == Active::Remote(device)),
            reclaimed ==> {
                &&& final(handoff).active == Active::Local
                &&& final(self).repeater.current is None
                &&& final(self).pending_move is None
                &&& final(self).forwarded.keys.view().is_empty()
                &&& final(self).forwarded.buttons.view().is_empty()
            },
            !reclaimed ==> final(handoff).active == old(handoff).active && final(self).forwarded == old(self).forwarded
                && final(self).repeater == old(self).repeater && final(self).pending_move == old(self).pending_move,
    {
        if connected {
            return false;
        }
        let reclaimed = handoff.reclaim_if_remote(device);
        if reclaimed {
            self.on_control_changed();
            self.forwarded.clear();
        }
        reclaimed
    }

    /// The compositor activated the capture with the cursor at `cursor`:
    /// the position goes through the hand-off state; a hand-off to a peer
    /// drops what belonged to the previous owner, anything else releases
    /// the capture.
    pub fn on_activation(&mut self, handoff: &mut HandoffState, cursor: Option<(i32, i32)>) -> (out: ActivationOutcome)
        requires
            old(self).wf(),
            old(handoff).wf(),
        ensures
            final(self).wf(),
            final(handoff).wf(),
            final(handoff).layout == old(handoff).layout,
            final(handoff).local_device == old(handoff).local_device,
            final(self).held == old(self).held,
            final(self).forwarded == old(self).forwarded,
            match cursor {
                None => out is NoCursor && final(handoff).active == old(handoff).active,
                Some((x, y)) => match old(handoff).layout.spec_crossing(old(handoff).current_device(), x as int, y as int) {
                    Some(c) => {
                        &&& final(handoff).active == old(handoff).active_for(c.0)
                        &&& match old(handoff).action_for(c.0, c.1, c.2) {
                            HandoffAction::ForwardTo { device, x: fx, y: fy } => out matches ActivationOutcome::HandedOff { device: d, x: ox, y: oy }
                                && d == device && ox == fx && oy == fy && final(self).repeater.current is None
                                && final(self).pending_move is None,
                            HandoffAction::ReturnLocal { .. } => out is Release,
                        }
                    },
                    None => out is Release && final(handoff).active == old(handoff).active,
                },
            },
    {
        let (x, y) = match cursor {
            Some(p) => p,
            None => return ActivationOutcome::NoCursor,
        };
        match handoff.on_position(x, y) {
            Some(HandoffAction::ForwardTo { device, x, y }) => {
                self.on_control_changed();
                ActivationOutcome::HandedOff { device, x, y }
            },
            _ => ActivationOutcome::Release,
        }
    }

    /// An input event on the portal capture path, with the capture position
    /// at `pointer`:
    /// - presses and releases reported twice are dropped; key presses and
    ///   releases feed the repeater;
    /// - while local nothing is forwarded;
    /// - while remote, a move goes through the hand-off state: coming back
    ///   releases what was forwarded and returns control; otherwise the
    ///   position is pinned to the active desktop and rate-limited;
    /// - buttons and keys are forwarded (buttons at `pointer`).
    pub fn on_portal_input(
        &mut self,
        handoff: &mut HandoffState,
        event: CapturedEvent,
        pointer: (i32, i32),
        now: u64,
    ) -> (out: PortalInputOutcome)
        requires
            old(self).wf(),
            old(handoff).wf(),
            now + old(self).repeater.delay <= u64::MAX,
        ensures
            final(self).wf(),
            final(handoff).wf(),
            final(handoff).layout == old(handoff).layout,
            final(handoff).local_device == old(handoff).local_device,
            ({
                let discrete = event is Key || event is MouseButton;
                let fresh = match event {
                    CapturedEvent::Key { keycode, pressed, .. } => old(self).held.keys.view().contains(keycode) != pressed,
                    CapturedEvent::MouseButton { button, pressed } => old(self).held.buttons.view().contains(button) != pressed,
                    _ => true,
                };
                &&& !fresh ==> out is Dropped && final(handoff).active == old(handoff).active
                    && final(self).forwarded == old(self).forwarded && final(self).repeater == old(self).repeater
                &&& (fresh && old(handoff).active == Active::Local) ==> out is Local && final(handoff).active == old(handoff).active
                    && final(self).forwarded == old(self).forwarded
                &&& fresh ==> match old(handoff).active {
                    Active::Local => true,
                    Active::Remote(d) => match event {
                        CapturedEvent::MouseMove { x, y } => match old(handoff).layout.spec_crossing(d, x as int, y as int) {
                            Some(c) if c.0 == old(handoff).local_device => {
                                &&& out matches PortalInputOutcome::Returned { losing, releases, x: rx, y: ry }
                                &&& losing == d && rx == c.1 as i32 && ry == c.2 as i32
                                &&& releases@ == old(self).forwarded.keys.items@.map_values(|k: u32| key_release_message(k))
                                    + old(self).forwarded.buttons.items@.map_values(|b| button_release_message(b))
                                &&& final(handoff).active == Active::Local
                                &&& final(self).repeater.current is None
                                &&& final(self).pending_move is None
                            },
                            _ => {
                                &&& out matches PortalInputOutcome::Moved { device, x: px, y: py, send }
                                &&& device == d
                                &&& match final(handoff).layout.spec_bounds_of(final(handoff).current_device()) {
                                    Some(Some(b)) => px == clamp_int(x as int, b.x as int, b.last_x())
                                        && py == clamp_int(y as int, b.y as int, b.last_y()),
                                    _ => px == x && py == y,
                                }
                                &&& if elapsed(now, old(self).last_move_sent) < MOUSE_SEND_INTERVAL_MS {
                                    send is None && final(self).pending_move == Some((d, px, py))
                                } else {
                                    send == Some((d, px, py)) && final(self).pending_move is None
                                }
                            },
                        },
                        CapturedEvent::AbsolutePosition { .. } => out is Nothing,
                        _ => out matches PortalInputOutcome::Forward { device, message }
                            && device == d && message == forward_message(event, pointer.0, pointer.1)->0,
                    },
                }
                &&& !discrete ==> final(self).held == old(self).held
            }),
    {
        let discrete = match event {
            CapturedEvent::Key { .. } => true,
            CapturedEvent::MouseButton { .. } => true,
            _ => false,
        };
        if discrete && !self.held.accept(&event) {
            return PortalInputOutcome::Dropped;
        }
        match event {
            CapturedEvent::Key { keycode, pressed, .. } => {
                if pressed {
                    self.repeater.on_press(keycode, now);
                } else {
                    self.repeater.on_release(keycode);
                }
            },
            _ => {},
        }
        let device = match handoff.active() {
            Active::Remote(d) => d,
            Active::Local => return PortalInputOutcome::Local,
        };
        match event {
            CapturedEvent::MouseMove { x, y } => {
                match handoff.on_position(x, y) {
                    Some(HandoffAction::ReturnLocal { x: rx, y: ry }) => {
                        self.on_control_changed();
                        let releases = self.release_forwarded();
                        PortalInputOutcome::Returned { losing: device, releases, x: rx, y: ry }
                    },
                    _ => {
                        let (cx, cy) = handoff.clamp_to_active_desktop(x, y);
                        let send = self.send_move(device, cx, cy, now);
                        PortalInputOutcome::Moved { device, x: cx, y: cy, send }
                    },
                }
            },
            CapturedEvent::AbsolutePosition { .. } => PortalInputOutcome::Nothing,
            _ => {
                match self.forward_button_or_key(event, pointer.0, pointer.1) {
                    Some(message) => PortalInputOutcome::Forward { device, message },
                    None => PortalInputOutcome::Nothing,
                }
            },
        }
    }

    /// A button or key report: duplicates are dropped (`None`); key presses
    /// and releases feed the repeater even while control is local; while
    /// remote the event is forwarded with the pointer at `(x, y)`.
    pub fn on_button_or_key(&mut self, active: Active, event: CapturedEvent, x: i32, y: i32, now: u64) -> (m: Option<(DeviceId, Message)>)
        requires
            old(self).wf(),
            now + old(self).repeater.delay <= u64::MAX,
            event is Key || event is MouseButton,
        ensures
            final(self).wf(),
            ({
                let fresh = match event {
                    CapturedEvent::Key { keycode, pressed, .. } => old(self).held.keys.view().contains(keycode) != pressed,
                    CapturedEvent::MouseButton { button, pressed } => old(self).held.buttons.view().contains(button) != pressed,
                    _ => false,
                };
                &&& !fresh ==> m is None && final(self).forwarded == old(self).forwarded
                    && final(self).repeater == old(self).repeater
                &&& fresh ==> match active {
                    Active::Local => m is None && final(self).forwarded == old(self).forwarded,
                    Active::Remote(d) => m == Some((d, forward_message(event, x, y)->0)),
                }
            }),
    {
        if !self.held.accept(&event) {
            return None;
        }
        match event {
            CapturedEvent::Key { keycode, pressed, .. } => {
                if pressed {
                    self.repeater.on_press(keycode, now);
                } else {
                    self.repeater.on_release(keycode);
                }
            },
            _ => {},
        }
        match active {
            Active::Remote(device) => {
                match self.forward_button_or_key(event, x, y) {
                    Some(message) => Some((device, message)),
                    None => None,
                }
            },
            Active::Local => None,
        }
    }
}

} // verus!
