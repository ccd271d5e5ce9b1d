use vstd::prelude::*;
use crate::types::{CapturedEvent, KeyModifiers, MouseButton};
use crate::types::{Message, KeyboardRelease, MouseClick};

verus! {

/// A set of keycodes, kept as a list without repetitions.
pub struct KeySet {
    pub items: Vec<u32>,
}

/// A set of mouse buttons, kept as a list without repetitions.
pub struct ButtonSet {
    pub items: Vec<MouseButton>,
}

pub open spec fn distinct<T>(s: Seq<T>) -> bool {
    forall|i: int, j: int| 0 <= i < j < s.len() ==> s[i] != s[j]
}

impl KeySet {
    pub open spec fn wf(&self) -> bool {
        distinct(self.items@)
    }

    pub open spec fn view(&self) -> Set<u32> {
        self.items@.to_set()
    }

    pub fn new() -> (s: KeySet)
        ensures
            s.wf(),
            s.view() == Set::<u32>::empty(),
    {
        let s = KeySet { items: Vec::new() };
        assert(s.items@.to_set() =~= Set::<u32>::empty());
        s
    }

    pub fn contains(&self, k: u32) -> (r: bool)
        ensures
            r == self.view().contains(k),
    {
        let mut i: usize = 0;
        while i < self.items.len()
            invariant
                0 <= i <= self.items@.len(),
                forall|j: int| 0 <= j < i ==> self.items@[j] != k,
            decreases self.items.len() - i,
        {
            if self.items[i] == k {
                assert(self.items@.contains(k));
                return true;
            }
            i = i + 1;
        }
        assert(!self.items@.contains(k));
        false
    }

    /// Add `k`; `true` if it was not already present.
    pub fn insert(&mut self, k: u32) -> (added: bool)
        requires
            old(self).wf(),
        ensures
            final(self).wf(),
            added == !old(self).view().contains(k),
            final(self).view() == old(self).view().insert(k),
    {
        if self.contains(k) {
            assert(self.view().insert(k) =~= self.view());
            return false;
        }
        self.items.push(k);
        assert(self.items@.to_set() =~= old(self).items@.to_set().insert(k)) by {
            assert forall|x: u32| self.items@.contains(x) <==> old(self).items@.contains(x) || x == k by {
                if old(self).items@.contains(x) {
                    let j = choose|j: int| 0 <= j < old(self).items@.len() && old(self).items@[j] == x;
                    assert(self.items@[j] == x);
                }
                if x == k {
                    assert(self.items@[self.items@.len() - 1] == k);
                }
                if self.items@.contains(x) && x != k {
                    let j = choose|j: int| 0 <= j < self.items@.len() && self.items@[j] == x;
                    assert(j < old(self).items@.len());
                    assert(old(self).items@[j] == x);
                }
            }
        }
        true
    }

    /// Remove `k`; `true` if it was present.
    pub fn remove(&mut self, k: u32) -> (removed: bool)
        requires
            old(self).wf(),
        ensures
            final(self).wf(),
            removed == old(self).view().contains(k),
            final(self).view() == old(self).view().remove(k),
    {
        let mut i: usize = 0;
        while i < self.items.len()
            invariant
                0 <= i <= self.items@.len(),
                self.items@ == old(self).items@,
                distinct(old(self).items@),
                forall|j: int| 0 <= j < i ==> self.items@[j] != k,
            decreases self.items.len() - i,
        {
            if self.items[i] == k {
                let ghost before = self.items@;
                self.items.remove(i);
                assert(before[i as int] == k);
                assert forall|j: int| 0 <= j < self.items@.len() implies self.items@[j] == (if j < i {
                    before[j]
                } else {
                    before[j + 1]
                }) by {}
                assert(distinct(self.items@)) by {
                    assert forall|a: int, b: int| 0 <= a < b < self.items@.len() implies self.items@[a]
                        != self.items@[b] by {
                        let a2 = if a < i { a } else { a + 1 };
                        let b2 = if b < i { b } else { b + 1 };
                        assert(a2 < b2);
                        assert(self.items@[a] == before[a2]);
                        assert(self.items@[b] == before[b2]);
                    }
                }
                assert(self.items@.to_set() =~= before.to_set().remove(k)) by {
                    assert forall|x: u32| self.items@.contains(x) <==> before.contains(x) && x != k by {
                        if self.items@.contains(x) {
                            let j = choose|j: int| 0 <= j < self.items@.len() && self.items@[j] == x;
                            if j < i {
                                assert(before[j] == x);
                                assert(before[j] != before[i as int]);
                            } else {
                                assert(before[j + 1] == x);
                                assert(before[j + 1] != before[i as int]);
                            }
                        }
                        if before.contains(x) && x != k {
                            let j = choose|j: int| 0 <= j < before.len() && before[j] == x;
                            if j < i {
                                assert(self.items@[j] == x);
                            } else {
                                assert(j != i);
                                assert(self.items@[j - 1] == x);
                            }
                        }
                    }
                }
                assert(before.contains(k));
                return true;
            }
            i = i + 1;
        }
        assert(!self.items@.contains(k));
        assert(self.view().remove(k) =~= self.view());
        false
    }

    /// Empty the set, returning its former members.
    pub fn drain(&mut self) -> (items: Vec<u32>)
        requires
            old(self).wf(),
        ensures
            final(self).wf(),
            final(self).view() == Set::<u32>::empty(),
            items@ == old(self).items@,
            distinct(items@),
    {
        let mut items = Vec::new();
        std::mem::swap(&mut items, &mut self.items);
        assert(self.items@.to_set() =~= Set::<u32>::empty());
        items
    }
}

impl ButtonSet {
    pub open spec fn wf(&self) -> bool {
        distinct(self.items@)
    }

    pub open spec fn view(&self) -> Set<MouseButton> {
        self.items@.to_set()
    }

    pub fn new() -> (s: ButtonSet)
        ensures
            s.wf(),
            s.view() == Set::<MouseButton>::empty(),
    {
        let s = ButtonSet { items: Vec::new() };
        assert(s.items@.to_set() =~= Set::<MouseButton>::empty());
        s
    }

    pub fn contains(&self, k: MouseButton) -> (r: bool)
        ensures
            r == self.view().contains(k),
    {
        let mut i: usize = 0;
        while i < self.items.len()
            invariant
                0 <= i <= self.items@.len(),
                forall|j: int| 0 <= j < i ==> self.items@[j] != k,
            decreases self.items.len() - i,
        {
            if self.items[i] == k {
                assert(self.items@.contains(k));
                return true;
            }
            i = i + 1;
        }
        assert(!self.items@.contains(k));
        false
    }

    /// Add `k`; `true` if it was not already present.
    pub fn insert(&mut self, k: MouseButton) -> (added: bool)
        requires
            old(self).wf(),
        ensures
            final(self).wf(),
            added == !old(self).view().contains(k),
            final(self).view() == old(self).view().insert(k),
    {
        if self.contains(k) {
            assert(self.view().insert(k) =~= self.view());
            return false;
        }
        self.items.push(k);
        assert(self.items@.to_set() =~= old(self).items@.to_set().insert(k)) by {
            assert forall|x: MouseButton| self.items@.contains(x) <==> old(self).items@.contains(x) || x == k by {
                if old(self).items@.contains(x) {
                    let j = choose|j: int| 0 <= j < old(self).items@.len() && old(self).items@[j] == x;
                    assert(self.items@[j] == x);
                }
                if x == k {
                    assert(self.items@[self.items@.len() - 1] == k);
                }
                if self.items@.contains(x) && x != k {
                    let j = choose|j: int| 0 <= j < self.items@.len() && self.items@[j] == x;
                    assert(j < old(self).items@.len());
                    assert(old(self).items@[j] == x);
                }
            }
        }
        true
    }

    /// Remove `k`; `true` if it was present.
    pub fn remove(&mut self, k: MouseButton) -> (removed: bool)
        requires
            old(self).wf(),
        ensures
            final(self).wf(),
            removed == old(self).view().contains(k),
            final(self).view() == old(self).view().remove(k),
    {
        let mut i: usize = 0;
        while i < self.items.len()
            invariant
                0 <= i <= self.items@.len(),
                self.items@ == old(self).items@,
                distinct(old(self).items@),
                forall|j: int| 0 <= j < i ==> self.items@[j] != k,
            decreases self.items.len() - i,
        {
            if self.items[i] == k {
                let ghost before = self.items@;
                self.items.remove(i);
                assert(before[i as int] == k);
                assert forall|j: int| 0 <= j < self.items@.len() implies self.items@[j] == (if j < i {
                    before[j]
                } else {
                    before[j + 1]
                }) by {}
                assert(distinct(self.items@)) by {
                    assert forall|a: int, b: int| 0 <= a < b < self.items@.len() implies self.items@[a]
                        != self.items@[b] by {
                        let a2 = if a < i { a } else { a + 1 };
                        let b2 = if b < i { b } else { b + 1 };
                        assert(a2 < b2);
                        assert(self.items@[a] == before[a2]);
                        assert(self.items@[b] == before[b2]);
                    }
                }
                assert(self.items@.to_set() =~= before.to_set().remove(k)) by {
                    assert forall|x: MouseButton| self.items@.contains(x) <==> before.contains(x) && x != k by {
                        if self.items@.contains(x) {
                            let j = choose|j: int| 0 <= j < self.items@.len() && self.items@[j] == x;
                            if j < i {
                                assert(before[j] == x);
                                assert(before[j] != before[i as int]);
                            } else {
                                assert(before[j + 1] == x);
                                assert(before[j + 1] != before[i as int]);
                            }
                        }
                        if before.contains(x) && x != k {
                            let j = choose|j: int| 0 <= j < before.len() && before[j] == x;
                            if j < i {
                                assert(self.items@[j] == x);
                            } else {
                                assert(j != i);
                                assert(self.items@[j - 1] == x);
                            }
                        }
                    }
                }
                assert(before.contains(k));
                return true;
            }
            i = i + 1;
        }
        assert(!self.items@.contains(k));
        assert(self.view().remove(k) =~= self.view());
        false
    }

    /// Empty the set, returning its former members.
    pub fn drain(&mut self) -> (items: Vec<MouseButton>)
        requires
            old(self).wf(),
        ensures
            final(self).wf(),
            final(self).view() == Set::<MouseButton>::empty(),
            items@ == old(self).items@,
            distinct(items@),
    {
        let mut items = Vec::new();
        std::mem::swap(&mut items, &mut self.items);
        assert(self.items@.to_set() =~= Set::<MouseButton>::empty());
        items
    }
}

/// Whether `button` is a scroll notch rather than a button that stays down.
pub open spec fn spec_is_scroll(button: MouseButton) -> bool {
    button == MouseButton::ScrollUp || button == MouseButton::ScrollDown || button
        == MouseButton::ScrollLeft || button == MouseButton::ScrollRight
}

pub fn is_scroll(button: MouseButton) -> (r: bool)
    ensures
        r == spec_is_scroll(button),
{
    match button {
        MouseButton::ScrollUp | MouseButton::ScrollDown | MouseButton::ScrollLeft
        | MouseButton::ScrollRight => true,
        _ => false,
    }
}

/// Drops key/button reports that repeat the previous state of the same key
/// or button (a press while already down, a release while already up).
pub struct HeldGuard {
    pub keys: KeySet,
    pub buttons: ButtonSet,
}

impl HeldGuard {
    pub open spec fn wf(&self) -> bool {
        self.keys.wf() && self.buttons.wf()
    }

    pub fn new() -> (g: HeldGuard)
        ensures
            g.wf(),
            g.keys.view() == Set::<u32>::empty(),
            g.buttons.view() == Set::<MouseButton>::empty(),
    {
        HeldGuard { keys: KeySet::new(), buttons: ButtonSet::new() }
    }

    /// `true` if `event` is a new state transition to process; `false` if it
    /// repeats the last reported state of its key or button. Motion events
    /// are always accepted.
    pub fn accept(&mut self, event: &CapturedEvent) -> (accepted: bool)
        requires
            old(self).wf(),
        ensures
            final(self).wf(),
            match *event {
                CapturedEvent::Key { keycode, pressed, .. } => {
                    &&& final(self).buttons.view() == old(self).buttons.view()
                    &&& accepted == (old(self).keys.view().contains(keycode) != pressed)
                    &&& final(self).keys.view() == (if pressed {
                        old(self).keys.view().insert(keycode)
                    } else {
                        old(self).keys.view().remove(keycode)
                    })
                },
                CapturedEvent::MouseButton { button, pressed } => {
                    &&& final(self).keys.view() == old(self).keys.view()
                    &&& accepted == (old(self).buttons.view().contains(button) != pressed)
                    &&& final(self).buttons.view() == (if pressed {
                        old(self).buttons.view().insert(button)
                    } else {
                        old(self).buttons.view().remove(button)
                    })
                },
                _ => accepted && final(self).keys.view() == old(self).keys.view()
                    && final(self).buttons.view() == old(self).buttons.view(),
            },
    {
        match *event {
            CapturedEvent::Key { keycode, pressed, .. } => {
                if pressed {
                    self.keys.insert(keycode)
                } else {
                    self.keys.remove(keycode)
                }
            },
            CapturedEvent::MouseButton { button, pressed } => {
                if pressed {
                    self.buttons.insert(button)
                } else {
                    self.buttons.remove(button)
                }
            },
            _ => true,
        }
    }
}

/// Keys and buttons forwarded as pressed to the machine that owns control
/// and not yet released; scroll notches are not tracked.
pub struct ForwardedHeld {
    pub keys: KeySet,
    pub buttons: ButtonSet,
}

/// The release message owed for a key left down.
pub open spec fn key_release_message(k: u32) -> Message {
    Message::KeyboardRelease(KeyboardRelease { keycode: k, modifiers: KeyModifiers { bits: 0 } })
}

/// The release message owed for a button left down (coordinates are zero).
pub open spec fn button_release_message(b: MouseButton) -> Message {
    Message::MouseClick(MouseClick { button: b, pressed: false, x: 0, y: 0 })
}

impl ForwardedHeld {
    pub open spec fn wf(&self) -> bool {
        self.keys.wf() && self.buttons.wf()
    }

    pub fn new() -> (f: ForwardedHeld)
        ensures
            f.wf(),
            f.keys.view() == Set::<u32>::empty(),
            f.buttons.view() == Set::<MouseButton>::empty(),
    {
        ForwardedHeld { keys: KeySet::new(), buttons: ButtonSet::new() }
    }

    /// Record that `event` was forwarded.
    pub fn track_forwarded(&mut self, event: &CapturedEvent)
        requires
            old(self).wf(),
        ensures
            final(self).wf(),
            match *event {
                CapturedEvent::Key { keycode, pressed, .. } => {
                    &&& final(self).buttons.view() == old(self).buttons.view()
                    &&& final(self).keys.view() == (if pressed {
                        old(self).keys.view().insert(keycode)
                    } else {
                        old(self).keys.view().remove(keycode)
                    })
                },
                CapturedEvent::MouseButton { button, pressed } => {
                    &&& final(self).keys.view() == old(self).keys.view()
                    &&& final(self).buttons.view() == (if pressed && !spec_is_scroll(button) {
                        old(self).buttons.view().insert(button)
                    } else if pressed {
                        old(self).buttons.view()
                    } else {
                        old(self).buttons.view().remove(button)
                    })
                },
                _ => final(self).keys.view() == old(self).keys.view() && final(self).buttons.view()
                    == old(self).buttons.view(),
            },
    {
        match *event {
            CapturedEvent::Key { keycode, pressed, .. } => {
                if pressed {
                    self.keys.insert(keycode);
                } else {
                    self.keys.remove(keycode);
                }
            },
            CapturedEvent::MouseButton { button, pressed } => {
                if pressed {
                    if !is_scroll(button) {
                        self.buttons.insert(button);
                    }
                } else {
                    self.buttons.remove(button);
                }
            },
            _ => {},
        }
    }

    /// Empty the record and return the release owed for each entry: key
    /// releases first, then button releases at `(0, 0)`.
    pub fn drain_releases(&mut self) -> (out: Vec<Message>)
        requires
            old(self).wf(),
        ensures
            final(self).wf(),
            final(self).keys.view() == Set::<u32>::empty(),
            final(self).buttons.view() == Set::<MouseButton>::empty(),
            out@ == old(self).keys.items@.map_values(|k: u32| key_release_message(k))
                + old(self).buttons.items@.map_values(|b: MouseButton| button_release_message(b)),
    {
        let keys = self.keys.drain();
        let buttons = self.buttons.drain();
        let mut out: Vec<Message> = Vec::new();
        let mut i: usize = 0;
        while i < keys.len()
            invariant
                0 <= i <= keys@.len(),
                out@ == keys@.take(i as int).map_values(|k: u32| key_release_message(k)),
            decreases keys.len() - i,
        {
            out.push(Message::KeyboardRelease(KeyboardRelease { keycode: keys[i], modifiers: KeyModifiers::none() }));
            assert(keys@.take(i + 1) =~= keys@.take(i as int).push(keys@[i as int]));
            i = i + 1;
        }
        assert(keys@.take(keys@.len() as int) =~= keys@);
        let ghost key_part = out@;
        let mut j: usize = 0;
        while j < buttons.len()
            invariant
                0 <= j <= buttons@.len(),
                out@ == key_part + buttons@.take(j as int).map_values(|b: MouseButton| button_release_message(b)),
            decreases buttons.len() - j,
        {
            out.push(Message::MouseClick(MouseClick { button: buttons[j], pressed: false, x: 0, y: 0 }));
            assert(buttons@.take(j + 1) =~= buttons@.take(j as int).push(buttons@[j as int]));
            j = j + 1;
        }
        assert(buttons@.take(buttons@.len() as int) =~= buttons@);
        out
    }

    /// Forget everything without producing releases.
    pub fn clear(&mut self)
        requires
            old(self).wf(),
        ensures
            final(self).wf(),
            final(self).keys.view() == Set::<u32>::empty(),
            final(self).buttons.view() == Set::<MouseButton>::empty(),
    {
        let _ = self.keys.drain();
        let _ = self.buttons.drain();
    }
}

/// Keys and buttons injected as pressed on this machine and not yet
/// released, so that they can be released if the session ends.
pub struct HeldInput {
    pub keys: KeySet,
    pub buttons: ButtonSet,
}

/// The release event injected for a key left down.
pub open spec fn key_release_event(k: u32) -> CapturedEvent {
    CapturedEvent::Key { keycode: k, modifiers: KeyModifiers { bits: 0 }, pressed: false }
}

/// The release event injected for a button left down.
pub open spec fn button_release_event(b: MouseButton) -> CapturedEvent {
    CapturedEvent::MouseButton { button: b, pressed: false }
}

impl HeldInput {
    pub open spec fn wf(&self) -> bool {
        self.keys.wf() && self.buttons.wf()
    }

    pub fn new() -> (h: HeldInput)
        ensures
            h.wf(),
            h.keys.view() == Set::<u32>::empty(),
            h.buttons.view() == Set::<MouseButton>::empty(),
    {
        HeldInput { keys: KeySet::new(), buttons: ButtonSet::new() }
    }

    /// Record that `event` was injected.
    pub fn track(&mut self, event: &CapturedEvent)
        requires
            old(self).wf(),
        ensures
            final(self).wf(),
            match *event {
                CapturedEvent::Key { keycode, pressed, .. } => {
                    &&& final(self).buttons.view() == old(self).buttons.view()
                    &&& final(self).keys.view() == (if pressed {
                        old(self).keys.view().insert(keycode)
                    } else {
                        old(self).keys.view().remove(keycode)
                    })
                },
                CapturedEvent::MouseButton { button, pressed } => {
                    &&& final(self).keys.view() == old(self).keys.view()
                    &&& final(self).buttons.view() == (if pressed {
                        old(self).buttons.view().insert(button)
                    } else {
                        old(self).buttons.view().remove(button)
                    })
                },
                _ => final(self).keys.view() == old(self).keys.view() && final(self).buttons.view()
                    == old(self).buttons.view(),
            },
    {
        match *event {
            CapturedEvent::Key { keycode, pressed, .. } => {
                if pressed {
                    self.keys.insert(keycode);
                } else {
                    self.keys.remove(keycode);
                }
            },
            CapturedEvent::MouseButton { button, pressed } => {
                if pressed {
                    self.buttons.insert(button);
                } else {
                    self.buttons.remove(button);
                }
            },
            _ => {},
        }
    }

    /// Empty the record and return the release events to inject: keys
    /// first, then buttons.
    pub fn release_all(&mut self) -> (out: Vec<CapturedEvent>)
        requires
            old(self).wf(),
        ensures
            final(self).wf(),
            final(self).keys.view() == Set::<u32>::empty(),
            final(self).buttons.view() == Set::<MouseButton>::empty(),
            out@ == old(self).keys.items@.map_values(|k: u32| key_release_event(k))
                + old(self).buttons.items@.map_values(|b: MouseButton| button_release_event(b)),
    {
        let keys = self.keys.drain();
        let buttons = self.buttons.drain();
        let mut out: Vec<CapturedEvent> = Vec::new();
        let mut i: usize = 0;
        while i < keys.len()
            invariant
                0 <= i <= keys@.len(),
                out@ == keys@.take(i as int).map_values(|k: u32| key_release_event(k)),
            decreases keys.len() - i,
        {
            out.push(CapturedEvent::Key { keycode: keys[i], modifiers: KeyModifiers::none(), pressed: false });
            assert(keys@.take(i + 1) =~= keys@.take(i as int).push(keys@[i as int]));
            i = i + 1;
        }
        assert(keys@.take(keys@.len() as int) =~= keys@);
        let ghost key_part = out@;
        let mut j: usize = 0;
        while j < buttons.len()
            invariant
                0 <= j <= buttons@.len(),
                out@ == key_part + buttons@.take(j as int).map_values(|b: MouseButton| button_release_event(b)),
            decreases buttons.len() - j,
        {
            out.push(CapturedEvent::MouseButton { button: buttons[j], pressed: false });
            assert(buttons@.take(j + 1) =~= buttons@.take(j as int).push(buttons@[j as int]));
            j = j + 1;
        }
        assert(buttons@.take(buttons@.len() as int) =~= buttons@);
        out
    }
}

/// Key or button state after a report of it, as the duplicate filter
/// records it: held exactly when the report was a press.
pub open spec fn after_report<A>(held: Set<A>, item: A, pressed: bool) -> Set<A> {
    if pressed { held.insert(item) } else { held.remove(item) }
}

/// The duplicate filter drops a report that repeats the last one for the
/// same key or button, and accepts the opposite report: a press reported
/// twice passes once, and a press followed by its release passes whole
/// (so legitimate repeated taps all get through).
pub proof fn lemma_repeated_report_dropped<A>(held: Set<A>, item: A, pressed: bool)
    ensures
        !(after_report(held, item, pressed).contains(item) != pressed),
        after_report(held, item, pressed).contains(item) != !pressed,
{
}

} // verus!
