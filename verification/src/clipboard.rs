use vstd::prelude::*;

verus! {

/// Failure of the operating system clipboard backend.
#[derive(Debug)]
pub enum ClipboardError {
    Backend(String),
}

/// Remembers the last clipboard text this machine knows about, so that a
/// value written on behalf of a remote peer is not echoed back to it.
pub struct LoopGuard {
    pub last_known: Option<String>,
}

/// What the guard currently remembers, as characters.
pub open spec fn known_text(known: Option<String>) -> Option<Seq<char>> {
    match known {
        Some(t) => Some(t@),
        None => None,
    }
}

impl LoopGuard {
    pub open spec fn known(&self) -> Option<Seq<char>> {
        known_text(self.last_known)
    }

    pub fn new() -> (guard: Self)
        ensures
            guard.known() is None,
    {
        LoopGuard { last_known: None }
    }

    /// Record a value this machine just wrote to its own clipboard.
    pub fn record_own_write(&mut self, text: String)
        ensures
            final(self).known() == known_after(old(self).known(), text@),
    {
        self.last_known = Some(text);
    }

    /// Observe a value read from the local clipboard: it is a genuine change
    /// (returned) exactly when it differs from the last known value.
    pub fn observe(&mut self, text: String) -> (changed: Option<String>)
        ensures
            !is_new(old(self).known(), text@) ==> changed is None && final(self).known() == old(self).known(),
            is_new(old(self).known(), text@) ==> (changed matches Some(t) && t@ == text@)
                && final(self).known() == known_after(old(self).known(), text@),
    {
        let same = match &self.last_known {
            Some(known) => known.eq(&text),
            None => false,
        };
        if same {
            return None;
        }
        self.last_known = Some(text.clone());
        Some(text)
    }
}

/// Whether `text` is a change with respect to what the guard knows.
pub open spec fn is_new(known: Option<Seq<char>>, text: Seq<char>) -> bool {
    known != Some(text)
}

/// What the guard knows after observing `text`.
pub open spec fn known_after(known: Option<Seq<char>>, text: Seq<char>) -> Option<Seq<char>> {
    Some(text)
}

/// A value written on behalf of a peer is not reported back as a local
/// change, and a value seen once is not reported again.
pub proof fn lemma_no_echo(known: Option<Seq<char>>, text: Seq<char>)
    ensures
        !is_new(known_after(known, text), text),
{
}

/// Read and write access to the operating system clipboard (text only).
pub trait ClipboardProvider {
    /// The text this provider last put on the clipboard, if it put any.
    /// Every provider defines it.
    spec fn written(&self) -> Option<Seq<char>>;

    /// The current text, `None` when the clipboard holds no text.
    fn get_text(&mut self) -> Result<Option<String>, ClipboardError>;

    /// Replaces the clipboard text with `text`.
    fn set_text(&mut self, text: &str) -> (r: Result<(), ClipboardError>)
        ensures
            r is Ok ==> final(self).written() == Some(text@),
    ;
}

/// Keeps the local clipboard in step with the peers: detects local changes
/// to forward them, and applies remote ones without echoing them back.
pub struct ClipboardWatcher<P: ClipboardProvider> {
    pub provider: P,
    pub guard: LoopGuard,
}

impl<P: ClipboardProvider> ClipboardWatcher<P> {
    pub fn new(provider: P) -> (w: Self)
        ensures
            w.provider == provider,
            w.guard.known() is None,
    {
        ClipboardWatcher { provider, guard: LoopGuard::new() }
    }

    /// Writes a change received from a peer to the local clipboard and
    /// remembers it, so that the next poll does not forward it as new.
    pub fn apply_remote_change(&mut self, text: String) -> (r: Result<(), ClipboardError>)
        ensures
            r is Ok ==> final(self).provider.written() == Some(text@),
            r is Ok ==> final(self).guard.known() == known_after(old(self).guard.known(), text@),
            r is Err ==> final(self).guard.known() == old(self).guard.known(),
    {
        let written = self.provider.set_text(text.as_str());
        self.after_write(text, written)
    }

    /// What follows an attempt to write `text` to the local clipboard: a
    /// successful write is remembered as the known value and `Ok` is
    /// returned; a failed one changes nothing and its error is passed on.
    pub fn after_write(&mut self, text: String, written: Result<(), ClipboardError>) -> (r: Result<(), ClipboardError>)
        ensures
            final(self).provider == old(self).provider,
            match written {
                Ok(()) => r is Ok && final(self).guard.known() == known_after(old(self).guard.known(), text@),
                Err(e) => r == Err::<(), ClipboardError>(e) && final(self).guard.known() == old(self).guard.known(),
            },
    {
        match written {
            Ok(()) => {
                self.guard.record_own_write(text);
                Ok(())
            },
            Err(e) => Err(e),
        }
    }

    /// What one poll reports for what the clipboard gave back: a read error
    /// is passed on, no text is no change, and a text is a change exactly
    /// when it differs from the last known one.
    pub fn judge_read(&mut self, read: Result<Option<String>, ClipboardError>) -> (r: Result<Option<String>, ClipboardError>)
        ensures
            match read {
                Err(e) => r == Err::<Option<String>, ClipboardError>(e) && final(self).guard.known() == old(self).guard.known(),
                Ok(None) => r matches Ok(None) && final(self).guard.known() == old(self).guard.known(),
                Ok(Some(t)) => if !is_new(old(self).guard.known(), t@) {
                    r matches Ok(None) && final(self).guard.known() == old(self).guard.known()
                } else {
                    (r matches Ok(Some(c)) && c@ == t@) && final(self).guard.known() == known_after(old(self).guard.known(), t@)
                },
            },
    {
        match read {
            Err(e) => Err(e),
            Ok(None) => Ok(None),
            Ok(Some(text)) => Ok(self.guard.observe(text)),
        }
    }

    /// One poll: reads the clipboard and returns the text when it is a
    /// genuine local change.
    pub fn poll_once(&mut self) -> (r: Result<Option<String>, ClipboardError>)
        ensures
            r is Err ==> final(self).guard.known() == old(self).guard.known(),
            r matches Ok(None) ==> final(self).guard.known() == old(self).guard.known(),
            r matches Ok(Some(t)) ==> is_new(old(self).guard.known(), t@) && final(self).guard.known() == known_after(old(self).guard.known(), t@),
    {
        let read = self.provider.get_text();
        self.judge_read(read)
    }
}

} // verus!
