//! The probe chain: strategy order, fallthrough, fingerprint domains, and
//! the dropped-file filter, exercised against the real image encoder.

use everypaste::compute_hash;
use everypaste::probe::{
    on_direct, on_file_data, on_files, on_legacy, on_text, probe_start, DirectImageProbe,
    ProbeOutcome, ProbeState,
};
use everypaste::ContentType;

const PNG_MAGIC: [u8; 4] = [137, 80, 78, 71];

/// A 1x1 red pixel in RGBA.
fn red_pixel() -> Vec<u8> {
    vec![255, 0, 0, 255]
}

fn captured(outcome: ProbeOutcome) -> everypaste::ClipboardSnapshot {
    match outcome {
        ProbeOutcome::Captured(s) => s,
        _ => panic!("expected a capture"),
    }
}

#[test]
fn chain_starts_at_direct_image() {
    assert!(matches!(probe_start(), ProbeState::AwaitDirect));
}

#[test]
fn direct_pixels_become_png_snapshot() {
    let raw = red_pixel();
    let expected_hash = compute_hash(&raw);
    let snap = captured(on_direct(DirectImageProbe::Pixels {
        raw,
        width: 1,
        height: 1,
    }));
    assert_eq!(snap.content_type, ContentType::Image);
    // The fingerprint covers the raw pixels, not the encoded output.
    assert_eq!(snap.hash, expected_hash);
    assert_eq!(snap.hash.len(), 64);
    let png = snap.image_data.expect("image payload");
    assert!(png.len() > 4);
    assert_eq!(&png[..4], &PNG_MAGIC);
    assert!(snap.plain_text.is_none() && snap.rich_text.is_none());
}

#[test]
fn direct_missing_falls_through_to_legacy() {
    assert!(matches!(
        on_direct(DirectImageProbe::Missing),
        ProbeOutcome::Next(ProbeState::AwaitLegacy)
    ));
}

#[test]
fn direct_encode_failure_skips_legacy() {
    // A buffer too small for the claimed dimensions cannot be encoded; the
    // chain falls through to the file list, not to the legacy bitmap.
    let out = on_direct(DirectImageProbe::Pixels {
        raw: vec![1, 2, 3],
        width: 4,
        height: 4,
    });
    assert!(matches!(out, ProbeOutcome::Next(ProbeState::AwaitFiles)));
}

#[test]
fn legacy_bitmap_fingerprints_encoded_bytes() {
    // Build a valid PNG through the direct path first.
    let direct = captured(on_direct(DirectImageProbe::Pixels {
        raw: red_pixel(),
        width: 1,
        height: 1,
    }));
    let encoded = direct.image_data.unwrap();
    let expected_hash = compute_hash(&encoded);

    let snap = captured(on_legacy(Some(encoded)));
    assert_eq!(snap.content_type, ContentType::Image);
    // The fingerprint covers the encoded input bytes — a different domain
    // than the direct-pixel path.
    assert_eq!(snap.hash, expected_hash);
    let png = snap.image_data.expect("re-encoded payload");
    assert_eq!(&png[..4], &PNG_MAGIC);
}

#[test]
fn legacy_failures_fall_through_to_files() {
    assert!(matches!(
        on_legacy(None),
        ProbeOutcome::Next(ProbeState::AwaitFiles)
    ));
    assert!(matches!(
        on_legacy(Some(Vec::new())),
        ProbeOutcome::Next(ProbeState::AwaitFiles)
    ));
    // Undecodable bytes are a failed read: fall through, no snapshot.
    assert!(matches!(
        on_legacy(Some(vec![1, 2, 3, 4])),
        ProbeOutcome::Next(ProbeState::AwaitFiles)
    ));
}

#[test]
fn file_list_filters_by_image_extension() {
    let files = vec![
        "/tmp/notes.txt".to_string(),
        "/tmp/shot.PNG".to_string(),
        "/tmp/pic.jpeg".to_string(),
    ];
    match on_files(files) {
        ProbeOutcome::Next(ProbeState::AwaitFileData { files, idx }) => {
            // The text file is skipped; the extension match ignores case.
            assert_eq!(idx, 1);
            assert_eq!(files[idx], "/tmp/shot.PNG");
        }
        _ => panic!("expected a file-data request"),
    }
}

#[test]
fn file_list_without_candidates_goes_to_text() {
    let files = vec![
        "/tmp/readme.md".to_string(),
        "/tmp/archive.tar.gz".to_string(),
        "/tmp/.png".to_string(),
        "/tmp/noext".to_string(),
    ];
    assert!(matches!(
        on_files(files),
        ProbeOutcome::Next(ProbeState::AwaitText)
    ));
}

#[test]
fn file_data_decodes_and_fingerprints_reencoded_bytes() {
    let direct = captured(on_direct(DirectImageProbe::Pixels {
        raw: red_pixel(),
        width: 1,
        height: 1,
    }));
    let bytes = direct.image_data.unwrap();

    let files = vec!["/tmp/shot.png".to_string()];
    let snap = captured(on_file_data(files, 0, Some(bytes)));
    assert_eq!(snap.content_type, ContentType::Image);
    // The fingerprint covers the final re-encoded bytes.
    let png = snap.image_data.expect("payload");
    assert_eq!(snap.hash, compute_hash(&png));
    assert_eq!(&png[..4], &PNG_MAGIC);
}

#[test]
fn file_data_failure_moves_to_next_candidate() {
    let files = vec![
        "/tmp/one.png".to_string(),
        "/tmp/skip.txt".to_string(),
        "/tmp/two.gif".to_string(),
    ];
    // The first candidate is unreadable: the chain moves to the next
    // accepted path, skipping the non-image in between.
    match on_file_data(files, 0, None) {
        ProbeOutcome::Next(ProbeState::AwaitFileData { idx, .. }) => assert_eq!(idx, 2),
        _ => panic!("expected the next candidate"),
    }
    // Undecodable bytes behave the same, and with no candidate left the
    // chain moves on to text.
    let files = vec!["/tmp/one.png".to_string()];
    assert!(matches!(
        on_file_data(files, 0, Some(vec![9, 9, 9])),
        ProbeOutcome::Next(ProbeState::AwaitText)
    ));
}

#[test]
fn text_capture_fingerprints_utf8_bytes() {
    let snap = captured(on_text(Some("hello".to_string())));
    assert_eq!(snap.content_type, ContentType::Text);
    assert_eq!(snap.plain_text.as_deref(), Some("hello"));
    assert_eq!(snap.hash, compute_hash(b"hello"));
    assert!(snap.image_data.is_none() && snap.rich_text.is_none());
}

#[test]
fn empty_clipboard_yields_no_snapshot() {
    // An empty dropped-file list, no text, and no image format present yield
    // "no snapshot", and the monitor fires no callback that tick.
    assert!(matches!(
        on_direct(DirectImageProbe::Missing),
        ProbeOutcome::Next(ProbeState::AwaitLegacy)
    ));
    assert!(matches!(
        on_legacy(None),
        ProbeOutcome::Next(ProbeState::AwaitFiles)
    ));
    assert!(matches!(
        on_files(Vec::new()),
        ProbeOutcome::Next(ProbeState::AwaitText)
    ));
    assert!(matches!(on_text(None), ProbeOutcome::NoSnapshot));
    assert!(matches!(
        on_text(Some(String::new())),
        ProbeOutcome::NoSnapshot
    ));

    let mut monitor = everypaste::ClipboardMonitor::new(150);
    monitor.start();
    assert!(!monitor.observe(None));
}
