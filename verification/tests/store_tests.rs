//! History store behaviour: deduplication, eviction, listing order, and the
//! full capture lifecycle.

use everypaste::capture::{commit_capture, plan_capture, CapturePlan};
use everypaste::{compute_hash, ClipboardItem, ContentType, HistoryStore, StoreError};

fn text_item(text: &str, created_at: i64) -> ClipboardItem {
    let hash = compute_hash(text.as_bytes());
    ClipboardItem::new_text(0, text.to_string(), hash, created_at)
}

#[test]
fn store_dedup_rejects_same_fingerprint() {
    let mut store = HistoryStore::new();
    let first = text_item("alpha", 10);
    let id = store
        .insert_clipboard_item(&first)
        .expect("first insert succeeds");
    assert_eq!(store.get_item_count(), 1);

    // A second record with the same fingerprint is rejected and the store is
    // unchanged.
    let again = text_item("alpha", 99);
    let err = store.insert_clipboard_item(&again);
    assert!(matches!(err, Err(StoreError::Duplicate)));
    assert_eq!(store.get_item_count(), 1);

    // The first record's fields are untouched.
    let kept = store.get_item_by_id(id).expect("record still there");
    assert_eq!(kept.plain_text.as_deref(), Some("alpha"));
    assert_eq!(kept.created_at, 10);
    assert!(!kept.is_pinned);
}

#[test]
fn insert_assigns_increasing_ids() {
    let mut store = HistoryStore::new();
    let a = store.insert_clipboard_item(&text_item("a", 1)).unwrap();
    let b = store.insert_clipboard_item(&text_item("b", 2)).unwrap();
    let c = store.insert_clipboard_item(&text_item("c", 3)).unwrap();
    assert!(a < b && b < c);

    // Ids are not reused after deletion.
    assert!(store.delete_item(c));
    let d = store.insert_clipboard_item(&text_item("d", 4)).unwrap();
    assert!(d > c);
}

#[test]
fn hash_exists_tracks_contents() {
    let mut store = HistoryStore::new();
    let item = text_item("needle", 5);
    assert!(!store.hash_exists(item.hash.as_str()));
    store.insert_clipboard_item(&item).unwrap();
    assert!(store.hash_exists(item.hash.as_str()));
    let other = compute_hash(b"something else");
    assert!(!store.hash_exists(other.as_str()));
}

#[test]
fn delete_and_clear() {
    let mut store = HistoryStore::new();
    let a = store.insert_clipboard_item(&text_item("a", 1)).unwrap();
    store.insert_clipboard_item(&text_item("b", 2)).unwrap();
    assert!(store.delete_item(a));
    assert!(!store.delete_item(a));
    assert_eq!(store.get_item_count(), 1);
    assert!(store.get_item_by_id(a).is_none());
    store.clear_all_items();
    assert_eq!(store.get_item_count(), 0);
}

#[test]
fn eviction_keeps_pinned_and_most_recent() {
    let mut store = HistoryStore::new();
    // Two pinned and four unpinned records with distinct timestamps.
    let p1 = store.insert_clipboard_item(&text_item("p1", 100)).unwrap();
    let p2 = store.insert_clipboard_item(&text_item("p2", 50)).unwrap();
    store.insert_clipboard_item(&text_item("u1", 40)).unwrap();
    store.insert_clipboard_item(&text_item("u2", 80)).unwrap();
    store.insert_clipboard_item(&text_item("u3", 20)).unwrap();
    store.insert_clipboard_item(&text_item("u4", 60)).unwrap();
    assert!(store.set_pinned(p1, true));
    assert!(store.set_pinned(p2, true));

    // Keep the 2 most recent unpinned records: u2 (80) and u4 (60).
    let deleted = store.cleanup_old_items(2);
    assert_eq!(deleted, 2);
    assert_eq!(store.get_item_count(), 4);

    let listed = store.get_all_items(None);
    let texts: Vec<&str> = listed
        .iter()
        .map(|it| it.plain_text.as_deref().unwrap())
        .collect();
    assert_eq!(texts, vec!["p1", "p2", "u2", "u4"]);
    // All survivors that are unpinned are newer than every deleted record
    // (deleted: 40 and 20).
    assert!(listed.iter().filter(|it| !it.is_pinned).all(|it| it.created_at >= 60));

    // Idempotent: running again with the same cap deletes nothing further.
    assert_eq!(store.cleanup_old_items(2), 0);
    assert_eq!(store.get_item_count(), 4);
}

#[test]
fn eviction_no_op_on_non_positive_cap() {
    let mut store = HistoryStore::new();
    for (t, n) in [("a", 1), ("b", 2), ("c", 3)] {
        store.insert_clipboard_item(&text_item(t, n)).unwrap();
    }
    assert_eq!(store.cleanup_old_items(0), 0);
    assert_eq!(store.get_item_count(), 3);
    assert_eq!(store.cleanup_old_items(-1), 0);
    assert_eq!(store.get_item_count(), 3);
}

#[test]
fn listing_order_pinned_first_then_newest() {
    let mut store = HistoryStore::new();
    let a = store.insert_clipboard_item(&text_item("a", 30)).unwrap();
    store.insert_clipboard_item(&text_item("b", 10)).unwrap();
    let c = store.insert_clipboard_item(&text_item("c", 20)).unwrap();
    store.insert_clipboard_item(&text_item("d", 40)).unwrap();
    assert!(store.set_pinned(a, true));
    assert!(store.set_pinned(c, true));

    let listed = store.get_all_items(None);
    let texts: Vec<&str> = listed
        .iter()
        .map(|it| it.plain_text.as_deref().unwrap())
        .collect();
    // Pinned first (a at 30, c at 20), then unpinned newest first (d, b).
    assert_eq!(texts, vec!["a", "c", "d", "b"]);

    // Unpinning moves a record back into the unpinned group by its time.
    assert!(store.set_pinned(a, false));
    let listed = store.get_all_items(None);
    let texts: Vec<&str> = listed
        .iter()
        .map(|it| it.plain_text.as_deref().unwrap())
        .collect();
    assert_eq!(texts, vec!["c", "d", "a", "b"]);
}

#[test]
fn listing_limit_bounds_results() {
    let mut store = HistoryStore::new();
    for (t, n) in [("a", 1), ("b", 2), ("c", 3)] {
        store.insert_clipboard_item(&text_item(t, n)).unwrap();
    }
    assert_eq!(store.get_all_items(Some(2)).len(), 2);
    assert_eq!(store.get_all_items(Some(0)).len(), 3);
    assert_eq!(store.get_all_items(Some(-5)).len(), 3);
    assert_eq!(store.get_all_items(Some(99)).len(), 3);
}

#[test]
fn search_matches_text_and_preview() {
    let mut store = HistoryStore::new();
    store
        .insert_clipboard_item(&text_item("the quick brown fox", 1))
        .unwrap();
    store
        .insert_clipboard_item(&text_item("lazy dog", 2))
        .unwrap();
    store
        .insert_clipboard_item(&text_item("quicksilver", 3))
        .unwrap();

    let hits = store.search_items("quick", None);
    assert_eq!(hits.len(), 2);
    // Same ordering as list: newest first within the unpinned group.
    assert_eq!(hits[0].plain_text.as_deref(), Some("quicksilver"));
    assert_eq!(hits[1].plain_text.as_deref(), Some("the quick brown fox"));

    // The match is case-sensitive.
    assert_eq!(store.search_items("QUICK", None).len(), 0);
    // A limit bounds the result count.
    assert_eq!(store.search_items("quick", Some(1)).len(), 1);
    assert_eq!(store.search_items("nowhere", None).len(), 0);
}

#[test]
fn end_to_end_capture_pin_and_evict() {
    let mut store = HistoryStore::new();

    // Insert text "hello": count becomes 1.
    let h1 = compute_hash(b"hello");
    let first = ClipboardItem::new_text(0, "hello".to_string(), h1.clone(), 1000);
    let id1 = store.insert_clipboard_item(&first).unwrap();
    assert_eq!(store.get_item_count(), 1);

    // Insert "hello" again: rejected, count stays 1.
    let again = ClipboardItem::new_text(0, "hello".to_string(), h1, 2000);
    assert!(matches!(
        store.insert_clipboard_item(&again),
        Err(StoreError::Duplicate)
    ));
    assert_eq!(store.get_item_count(), 1);

    // Insert "world": count becomes 2.
    let h2 = compute_hash(b"world");
    let second = ClipboardItem::new_text(0, "world".to_string(), h2, 3000);
    let id2 = store.insert_clipboard_item(&second).unwrap();
    assert_eq!(store.get_item_count(), 2);

    // Pin the "hello" record, then enforce a cap of 1: the pinned record
    // survives and the unpinned one over the cap is deleted.
    assert!(store.set_pinned(id1, true));
    let deleted = store.cleanup_old_items(1);
    // "world" is the single most recent unpinned record, so it survives too.
    assert_eq!(deleted, 0);
    assert_eq!(store.get_item_count(), 2);

    // Add one more unpinned record and enforce the cap again: now only the
    // newest unpinned record stays beside the pinned one.
    let h3 = compute_hash(b"third");
    let third = ClipboardItem::new_text(0, "third".to_string(), h3, 4000);
    let id3 = store.insert_clipboard_item(&third).unwrap();
    assert_eq!(store.cleanup_old_items(1), 1);
    assert_eq!(store.get_item_count(), 2);
    assert!(store.get_item_by_id(id1).is_some());
    assert!(store.get_item_by_id(id2).is_none());
    assert!(store.get_item_by_id(id3).is_some());
}

#[test]
fn commit_capture_inserts_and_enforces_cap() {
    let mut store = HistoryStore::new();
    for (t, n) in [("a", 10), ("b", 20), ("c", 30)] {
        let item = text_item(t, n);
        commit_capture(&mut store, &item, 2).unwrap();
    }
    // The cap was enforced after each insert: only the two newest stay.
    assert_eq!(store.get_item_count(), 2);
    let texts: Vec<String> = store
        .get_all_items(None)
        .iter()
        .map(|it| it.plain_text.clone().unwrap())
        .collect();
    assert_eq!(texts, vec!["c".to_string(), "b".to_string()]);

    // A duplicate is rejected by commit as well.
    let dup = text_item("c", 99);
    assert!(matches!(
        commit_capture(&mut store, &dup, 2),
        Err(StoreError::Duplicate)
    ));
    assert_eq!(store.get_item_count(), 2);
}

#[test]
fn plan_capture_skips_known_fingerprints() {
    let mut store = HistoryStore::new();
    let item = text_item("seen before", 1);
    store.insert_clipboard_item(&item).unwrap();

    let snapshot = everypaste::ClipboardSnapshot {
        content_type: ContentType::Text,
        plain_text: Some("seen before".to_string()),
        rich_text: None,
        image_data: None,
        hash: compute_hash(b"seen before"),
    };
    assert!(matches!(
        plan_capture(&store, snapshot, 5),
        CapturePlan::Skip
    ));
}

#[test]
fn plan_capture_builds_text_record() {
    let store = HistoryStore::new();
    let snapshot = everypaste::ClipboardSnapshot {
        content_type: ContentType::Text,
        plain_text: Some("fresh".to_string()),
        rich_text: None,
        image_data: None,
        hash: compute_hash(b"fresh"),
    };
    match plan_capture(&store, snapshot, 77) {
        CapturePlan::Store(item) => {
            assert_eq!(item.content_type, ContentType::Text);
            assert_eq!(item.plain_text.as_deref(), Some("fresh"));
            assert_eq!(item.preview, "fresh");
            assert_eq!(item.created_at, 77);
            assert!(!item.is_pinned);
        }
        _ => panic!("expected a ready text record"),
    }
}
