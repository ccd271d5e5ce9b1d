use std::collections::VecDeque;

use ionconnect::clipboard::{ClipboardError, ClipboardProvider, ClipboardWatcher, LoopGuard};

#[test]
fn first_observation_is_always_a_change() {
    let mut guard = LoopGuard::new();
    assert_eq!(guard.observe("hola".to_string()), Some("hola".to_string()));
}

#[test]
fn repeating_the_same_value_is_not_a_change() {
    let mut guard = LoopGuard::new();
    guard.observe("hola".to_string());
    assert_eq!(guard.observe("hola".to_string()), None);
}

#[test]
fn own_write_is_not_echoed_back_as_a_change() {
    let mut guard = LoopGuard::new();
    guard.record_own_write("desde el peer".to_string());
    assert_eq!(guard.observe("desde el peer".to_string()), None);
}

#[test]
fn a_genuinely_new_value_after_own_write_is_still_detected() {
    let mut guard = LoopGuard::new();
    guard.record_own_write("desde el peer".to_string());
    guard.observe("desde el peer".to_string());
    assert_eq!(
        guard.observe("copiado a mano".to_string()),
        Some("copiado a mano".to_string())
    );
}

#[derive(Default)]
struct FakeProvider {
    reads: VecDeque<Option<String>>,
    last_write: Option<String>,
    fail_reads: bool,
    fail_writes: bool,
}

impl ClipboardProvider for FakeProvider {
    // A specification item: only the verifier reads it, no running code
    // ever calls it.
    fn written(&self) -> Option<vstd::seq::Seq<char>> {
        unreachable!("written is read by the verifier only")
    }

    fn get_text(&mut self) -> Result<Option<String>, ClipboardError> {
        if self.fail_reads {
            return Err(ClipboardError::Backend("lectura".to_string()));
        }
        Ok(self.reads.pop_front().flatten())
    }

    fn set_text(&mut self, text: &str) -> Result<(), ClipboardError> {
        if self.fail_writes {
            return Err(ClipboardError::Backend("escritura".to_string()));
        }
        self.last_write = Some(text.to_string());
        Ok(())
    }
}

#[test]
fn poll_once_emits_only_genuine_external_changes() {
    let mut provider = FakeProvider::default();
    provider.reads.push_back(Some("uno".to_string()));
    provider.reads.push_back(Some("uno".to_string()));
    provider.reads.push_back(None);
    provider.reads.push_back(Some("dos".to_string()));

    let mut watcher = ClipboardWatcher::new(provider);
    assert_eq!(watcher.poll_once().unwrap(), Some("uno".to_string()));
    assert_eq!(watcher.poll_once().unwrap(), None);
    assert_eq!(watcher.poll_once().unwrap(), None);
    assert_eq!(watcher.poll_once().unwrap(), Some("dos".to_string()));
}

#[test]
fn applying_a_remote_change_does_not_echo_back() {
    let provider = FakeProvider::default();
    let mut watcher = ClipboardWatcher::new(provider);
    watcher
        .apply_remote_change("del peer".to_string())
        .expect("aplicar no debería fallar");
    assert_eq!(watcher.provider.last_write.as_deref(), Some("del peer"));

    watcher
        .provider
        .reads
        .push_back(Some("del peer".to_string()));
    assert_eq!(watcher.poll_once().unwrap(), None);
}

#[test]
fn a_failed_read_is_reported_and_changes_nothing() {
    let mut provider = FakeProvider::default();
    provider.reads.push_back(Some("uno".to_string()));
    let mut watcher = ClipboardWatcher::new(provider);
    assert_eq!(watcher.poll_once().unwrap(), Some("uno".to_string()));
    watcher.provider.fail_reads = true;
    assert!(matches!(watcher.poll_once(), Err(ClipboardError::Backend(_))));
    watcher.provider.fail_reads = false;
    watcher.provider.reads.push_back(Some("uno".to_string()));
    assert_eq!(watcher.poll_once().unwrap(), None);
}

#[test]
fn a_failed_remote_write_is_not_remembered() {
    let mut provider = FakeProvider::default();
    provider.fail_writes = true;
    let mut watcher = ClipboardWatcher::new(provider);
    assert!(watcher.apply_remote_change("del peer".to_string()).is_err());
    watcher.provider.reads.push_back(Some("del peer".to_string()));
    assert_eq!(watcher.poll_once().unwrap(), Some("del peer".to_string()));
}

#[test]
fn judging_an_error_passes_it_on() {
    let mut watcher = ClipboardWatcher::new(FakeProvider::default());
    let r = watcher.judge_read(Err(ClipboardError::Backend("x".to_string())));
    assert!(matches!(r, Err(ClipboardError::Backend(m)) if m == "x"));
    assert_eq!(watcher.judge_read(Ok(None)).unwrap(), None);
    assert_eq!(watcher.judge_read(Ok(Some("a".to_string()))).unwrap(), Some("a".to_string()));
    assert_eq!(watcher.judge_read(Ok(Some("a".to_string()))).unwrap(), None);
}

#[test]
fn after_write_remembers_only_a_successful_write() {
    let mut watcher = ClipboardWatcher::new(FakeProvider::default());
    let r = watcher.after_write("perdido".to_string(), Err(ClipboardError::Backend("w".to_string())));
    assert!(matches!(r, Err(ClipboardError::Backend(m)) if m == "w"));
    assert_eq!(watcher.judge_read(Ok(Some("perdido".to_string()))).unwrap(), Some("perdido".to_string()));

    assert!(watcher.after_write("escrito".to_string(), Ok(())).is_ok());
    assert_eq!(watcher.judge_read(Ok(Some("escrito".to_string()))).unwrap(), None);
}

#[test]
fn a_remote_change_hands_its_own_text_to_the_clipboard() {
    let mut watcher = ClipboardWatcher::new(FakeProvider::default());
    watcher.apply_remote_change("texto exacto".to_string()).expect("aplicar no debería fallar");
    assert_eq!(watcher.provider.last_write.as_deref(), Some("texto exacto"));
}
