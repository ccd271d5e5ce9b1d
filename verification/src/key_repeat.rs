use vstd::prelude::*;

verus! {

/// The key currently auto-repeating and when its next repetition is due
/// (milliseconds on the caller's monotonic clock).
#[derive(Clone, Copy, Debug, PartialEq, Eq, Structural)]
pub struct Repeating {
    pub keycode: u32,
    pub next: u64,
}

/// What one `tick` at `now` reports, and the repeating state after it.
pub open spec fn spec_tick(current: Option<Repeating>, interval: u64, now: u64) -> (Option<u32>, Option<Repeating>) {
    match current {
        None => (None, None),
        Some(r) => if now < r.next {
            (None, current)
        } else {
            (Some(r.keycode), Some(Repeating { keycode: r.keycode, next: (now + interval) as u64 }))
        },
    }
}

/// However long the clock stalled, ticking again at the same instant
/// yields no further repetition: at most one repetition per instant.
pub proof fn lemma_one_repetition_per_instant(current: Option<Repeating>, interval: u64, now: u64)
    requires
        interval > 0,
        now + interval <= u64::MAX,
    ensures
        spec_tick(spec_tick(current, interval, now).1, interval, now).0 is None,
{
}

/// Synthesises auto-repeat for the key being held, like a local keyboard:
/// only the last key pressed repeats, after an initial delay, and keys that
/// `repeatable` rejects (modifiers) cancel repetition instead.
///
/// Times are milliseconds of a monotonic clock chosen by the caller.
pub struct KeyRepeater<F: Fn(u32) -> bool> {
    pub delay: u64,
    pub interval: u64,
    pub repeatable: F,
    pub current: Option<Repeating>,
}

impl<F: Fn(u32) -> bool> KeyRepeater<F> {
    /// The predicate can be asked about any keycode.
    pub open spec fn wf(&self) -> bool {
        forall|k: u32| self.repeatable.requires((k,))
    }

    /// `delay` before the first repetition, then one every `interval`.
    pub fn new(delay: u64, interval: u64, repeatable: F) -> (r: Self)
        requires
            forall|k: u32| repeatable.requires((k,)),
        ensures
            r.wf(),
            r.delay == delay,
            r.interval == interval,
            r.repeatable == repeatable,
            r.current is None,
    {
        KeyRepeater { delay, interval, repeatable, current: None }
    }

    /// `keycode` was pressed at `now`: it becomes the repeating key, unless
    /// `repeatable` rejects it, in which case any repetition stops.
    pub fn on_press(&mut self, keycode: u32, now: u64)
        requires
            old(self).wf(),
            now + old(self).delay <= u64::MAX,
        ensures
            final(self).wf(),
            final(self).delay == old(self).delay,
            final(self).interval == old(self).interval,
            final(self).repeatable == old(self).repeatable,
            exists|accepted: bool|
                old(self).repeatable.ensures((keycode,), accepted) && final(self).current == (if accepted {
                    Some(Repeating { keycode, next: (now + old(self).delay) as u64 })
                } else {
                    None
                }),
    {
        let accepted = (self.repeatable)(keycode);
        if !accepted {
            self.current = None;
            return;
        }
        self.current = Some(Repeating { keycode, next: now + self.delay });
    }

    /// `keycode` was released: repetition stops only if it is the key that
    /// is repeating.
    pub fn on_release(&mut self, keycode: u32)
        ensures
            final(self).delay == old(self).delay,
            final(self).interval == old(self).interval,
            final(self).repeatable == old(self).repeatable,
            final(self).current == (match old(self).current {
                Some(r) => if r.keycode == keycode {
                    None
                } else {
                    Some(r)
                },
                None => None,
            }),
    {
        let stop = match &self.current {
            Some(r) => r.keycode == keycode,
            None => false,
        };
        if stop {
            self.current = None;
        }
    }

    /// Stop any repetition.
    pub fn clear(&mut self)
        ensures
            final(self).delay == old(self).delay,
            final(self).interval == old(self).interval,
            final(self).repeatable == old(self).repeatable,
            final(self).current is None,
    {
        self.current = None;
    }

    /// When `tick` must next be called; `None` if nothing repeats.
    pub fn next_deadline(&self) -> (d: Option<u64>)
        ensures
            d == (match self.current {
                Some(r) => Some(r.next),
                None => None,
            }),
    {
        match &self.current {
            Some(r) => Some(r.next),
            None => None,
        }
    }

    /// The keycode to repeat if its deadline has passed at `now`; the next
    /// deadline is then counted from `now`, so a long stall yields a single
    /// repetition rather than a burst.
    pub fn tick(&mut self, now: u64) -> (k: Option<u32>)
        requires
            now + old(self).interval <= u64::MAX,
        ensures
            final(self).delay == old(self).delay,
            final(self).interval == old(self).interval,
            final(self).repeatable == old(self).repeatable,
            (k, final(self).current) == spec_tick(old(self).current, old(self).interval, now),
    {
        match self.current {
            None => None,
            Some(r) => {
                if now < r.next {
                    None
                } else {
                    self.current = Some(Repeating { keycode: r.keycode, next: now + self.interval });
                    Some(r.keycode)
                }
            },
        }
    }
}

} // verus!
