//! Monitor state transitions and per-tick deduplication.

use everypaste::{compute_hash, ClipboardMonitor, ClipboardSnapshot, ContentType};

fn text_snapshot(text: &str) -> ClipboardSnapshot {
    ClipboardSnapshot {
        content_type: ContentType::Text,
        plain_text: Some(text.to_string()),
        rich_text: None,
        image_data: None,
        hash: compute_hash(text.as_bytes()),
    }
}

#[test]
fn start_is_a_no_op_when_running() {
    let mut m = ClipboardMonitor::new(150);
    assert_eq!(m.poll_interval_ms(), 150);
    assert!(m.start());
    // Already running: no second worker is spawned.
    assert!(!m.start());
    m.stop();
    assert!(!m.should_poll());
    // Stop is idempotent.
    m.stop();
    assert!(m.start());
}

#[test]
fn monitor_dedup_fires_once_per_change() {
    let mut m = ClipboardMonitor::new(150);
    m.start();
    let snap = text_snapshot("same content");
    // The same snapshot on consecutive ticks produces exactly one callback.
    assert!(m.observe(Some(&snap)));
    assert!(!m.observe(Some(&snap)));
    assert!(!m.observe(Some(&snap)));
    // A different snapshot fires again.
    let other = text_snapshot("different content");
    assert!(m.observe(Some(&other)));
    assert!(!m.observe(Some(&other)));
}

#[test]
fn no_probe_result_fires_nothing() {
    let mut m = ClipboardMonitor::new(150);
    m.start();
    assert!(!m.observe(None));
    let snap = text_snapshot("content");
    assert!(m.observe(Some(&snap)));
    // An empty tick does not disturb the remembered fingerprint.
    assert!(!m.observe(None));
    assert!(!m.observe(Some(&snap)));
}

#[test]
fn stopped_monitor_ignores_ticks() {
    let mut m = ClipboardMonitor::new(150);
    assert!(!m.should_poll());
    let snap = text_snapshot("content");
    assert!(!m.observe(Some(&snap)));
    m.start();
    assert!(m.observe(Some(&snap)));
}

#[test]
fn pause_masks_and_resume_delivers_pending_change() {
    let mut m = ClipboardMonitor::new(150);
    m.start();
    let before = text_snapshot("before pause");
    assert!(m.observe(Some(&before)));

    // Pause, then simulate a clipboard change: no callback fires while
    // paused.
    m.pause();
    assert!(!m.should_poll());
    let pending = text_snapshot("changed while paused");
    assert!(!m.observe(Some(&pending)));
    assert!(!m.observe(Some(&pending)));

    // Resume: the next tick detects the still-pending change and fires
    // exactly once.
    m.resume();
    assert!(m.should_poll());
    assert!(m.observe(Some(&pending)));
    assert!(!m.observe(Some(&pending)));
}

#[test]
fn pause_is_orthogonal_to_run_state() {
    let mut m = ClipboardMonitor::new(50);
    m.pause();
    assert!(m.start());
    // Paused and running: ticks only sleep.
    assert!(!m.should_poll());
    m.resume();
    assert!(m.should_poll());
}
