//! Settings persistence and the command layer's verified pieces.

use everypaste::capture::{generate_thumbnail, plan_capture, CapturePlan};
use everypaste::commands::{
    apply_settings_update, plan_paste, CommandResult, PasteAction, SettingsUpdate,
};
use everypaste::probe::{on_direct, DirectImageProbe, ProbeOutcome};
use everypaste::settings::{
    get_settings, init_settings, is_first_run, mark_first_run_completed, update_settings,
};
use everypaste::{
    compute_hash, ClipboardItem, ClipboardSnapshot, ContentType, HistoryStore, Settings,
    SettingsStore, StorageLimit, Theme,
};

#[test]
fn storage_limit_numeric_round_trip() {
    assert_eq!(StorageLimit::Limit100.as_i32(), 100);
    assert_eq!(StorageLimit::Limit200.as_i32(), 200);
    assert_eq!(StorageLimit::Limit500.as_i32(), 500);
    assert_eq!(StorageLimit::Unlimited.as_i32(), -1);
    assert_eq!(StorageLimit::from_i32(100), StorageLimit::Limit100);
    assert_eq!(StorageLimit::from_i32(200), StorageLimit::Limit200);
    assert_eq!(StorageLimit::from_i32(500), StorageLimit::Limit500);
    assert_eq!(StorageLimit::from_i32(-1), StorageLimit::Unlimited);
    // Any value that is not an offered cap means unlimited.
    assert_eq!(StorageLimit::from_i32(0), StorageLimit::Unlimited);
    assert_eq!(StorageLimit::from_i32(333), StorageLimit::Unlimited);
}

#[test]
fn settings_table_stores_and_replaces() {
    let mut table = SettingsStore::new();
    assert_eq!(table.get_setting("theme"), None);
    table.save_setting("theme", "dark");
    assert_eq!(table.get_setting("theme").as_deref(), Some("dark"));
    table.save_setting("theme", "light");
    assert_eq!(table.get_setting("theme").as_deref(), Some("light"));
    // Other keys are untouched.
    table.save_setting("shortcut", "Ctrl+Shift+V");
    assert_eq!(table.get_setting("theme").as_deref(), Some("light"));
    assert_eq!(table.get_setting("shortcut").as_deref(), Some("Ctrl+Shift+V"));
}

#[test]
fn settings_save_load_round_trip() {
    let mut table = SettingsStore::new();
    let settings = Settings {
        theme: Theme::Dark,
        storage_limit: StorageLimit::Limit500,
        auto_start: true,
        preview_length: 100,
        shortcut: "Ctrl+Alt+C".to_string(),
    };
    settings.save(&mut table);
    let loaded = Settings::load(&table);
    assert_eq!(loaded.theme, Theme::Dark);
    assert_eq!(loaded.storage_limit, StorageLimit::Limit500);
    assert!(loaded.auto_start);
    assert_eq!(loaded.shortcut, "Ctrl+Alt+C");
}

#[test]
fn load_falls_back_on_missing_or_malformed_entries() {
    let table = SettingsStore::new();
    let loaded = Settings::load(&table);
    assert_eq!(loaded.theme, Theme::Light);
    assert_eq!(loaded.storage_limit, StorageLimit::Limit100);
    assert!(!loaded.auto_start);
    assert_eq!(loaded.shortcut, "Alt+V");
    assert_eq!(loaded.preview_length, 100);

    let mut table = SettingsStore::new();
    table.save_setting("theme", "blue");
    table.save_setting("storage_limit", "not a number");
    table.save_setting("auto_start", "yes");
    let loaded = Settings::load(&table);
    // Unknown theme strings mean light; an unparsable cap keeps the default;
    // autostart is on only for the exact string "true".
    assert_eq!(loaded.theme, Theme::Light);
    assert_eq!(loaded.storage_limit, StorageLimit::Limit100);
    assert!(!loaded.auto_start);

    let mut table = SettingsStore::new();
    table.save_setting("storage_limit", "42");
    let loaded = Settings::load(&table);
    // A parsable value that is no offered cap means unlimited.
    assert_eq!(loaded.storage_limit, StorageLimit::Unlimited);
}

#[test]
fn init_get_and_update_settings() {
    let mut table = SettingsStore::new();
    let mut current = init_settings(&table);
    assert_eq!(get_settings(&current).theme, Theme::Light);

    let new_settings = Settings {
        theme: Theme::Dark,
        storage_limit: StorageLimit::Limit200,
        auto_start: false,
        preview_length: 100,
        shortcut: "Alt+V".to_string(),
    };
    update_settings(&mut current, new_settings, &mut table);
    assert_eq!(current.theme, Theme::Dark);
    // The update was persisted: a fresh load sees it.
    assert_eq!(Settings::load(&table).storage_limit, StorageLimit::Limit200);
}

#[test]
fn first_run_marker() {
    let mut table = SettingsStore::new();
    assert!(is_first_run(&table));
    mark_first_run_completed(&mut table);
    assert!(!is_first_run(&table));
    // Any other stored value still counts as a first run.
    let mut table = SettingsStore::new();
    table.save_setting("first_run_completed", "false");
    assert!(is_first_run(&table));
}

#[test]
fn command_result_envelopes() {
    let ok: CommandResult<i64> = CommandResult::ok(7);
    assert!(ok.success);
    assert_eq!(ok.data, Some(7));
    assert!(ok.error.is_none());
    let err: CommandResult<i64> = CommandResult::err("went wrong".to_string());
    assert!(!err.success);
    assert!(err.data.is_none());
    assert_eq!(err.error.as_deref(), Some("went wrong"));
}

#[test]
fn settings_update_merges_present_fields() {
    let current = Settings {
        theme: Theme::Light,
        storage_limit: StorageLimit::Limit100,
        auto_start: false,
        preview_length: 100,
        shortcut: "Alt+V".to_string(),
    };
    let updates = SettingsUpdate {
        theme: Some("dark".to_string()),
        storage_limit: Some(500),
        auto_start: None,
        shortcut: None,
    };
    let merged = apply_settings_update(&current, &updates);
    assert_eq!(merged.theme, Theme::Dark);
    assert_eq!(merged.storage_limit, StorageLimit::Limit500);
    assert!(!merged.auto_start);
    assert_eq!(merged.shortcut, "Alt+V");

    let updates = SettingsUpdate {
        theme: Some("mauve".to_string()),
        storage_limit: None,
        auto_start: Some(true),
        shortcut: Some("Win+V".to_string()),
    };
    let merged = apply_settings_update(&merged, &updates);
    // An unknown theme string falls back to light.
    assert_eq!(merged.theme, Theme::Light);
    assert_eq!(merged.storage_limit, StorageLimit::Limit500);
    assert!(merged.auto_start);
    assert_eq!(merged.shortcut, "Win+V");
}

#[test]
fn paste_plan_follows_content_type() {
    let text = ClipboardItem::new_text(1, "hello".to_string(), compute_hash(b"hello"), 1);
    assert!(matches!(
        plan_paste(&text, false),
        PasteAction::SetText(t) if t == "hello"
    ));

    let rich = ClipboardItem::new_rich_text(
        2,
        "plain".to_string(),
        "<b>plain</b>".to_string(),
        compute_hash(b"<b>plain</b>"),
        2,
    );
    // Rich text pastes its plain rendering whether or not plain was asked.
    assert!(matches!(
        plan_paste(&rich, true),
        PasteAction::SetText(t) if t == "plain"
    ));
    assert!(matches!(
        plan_paste(&rich, false),
        PasteAction::SetText(t) if t == "plain"
    ));

    let image = ClipboardItem::new_image(
        3,
        "images/shot.png".to_string(),
        None,
        compute_hash(b"img"),
        3,
    );
    assert!(matches!(
        plan_paste(&image, false),
        PasteAction::LoadImage(p) if p == "images/shot.png"
    ));
    assert_eq!(image.preview, "[Image]");

    let mut broken = image;
    broken.image_path = None;
    assert!(matches!(
        plan_paste(&broken, false),
        PasteAction::MissingImagePath
    ));
}

#[test]
fn content_type_string_round_trip() {
    for t in [ContentType::Text, ContentType::RichText, ContentType::Image] {
        assert_eq!(ContentType::from_str(t.as_str()), Some(t));
    }
    assert_eq!(ContentType::from_str("video"), None);
    assert_eq!(ContentType::Text.as_str(), "text");
    assert_eq!(ContentType::RichText.as_str(), "rich_text");
    assert_eq!(ContentType::Image.as_str(), "image");
}

#[test]
fn image_capture_plan_carries_thumbnail() {
    // Build a real PNG through the probe, then plan its capture.
    let snap = match on_direct(DirectImageProbe::Pixels {
        raw: vec![0, 128, 255, 255],
        width: 1,
        height: 1,
    }) {
        ProbeOutcome::Captured(s) => s,
        _ => panic!("expected a capture"),
    };
    let store = HistoryStore::new();
    match plan_capture(&store, snap, 123) {
        CapturePlan::SaveImage {
            png,
            thumbnail,
            hash,
        } => {
            assert_eq!(&png[..4], &[137, 80, 78, 71]);
            assert_eq!(hash.len(), 64);
            let url = thumbnail.expect("a 1x1 image thumbnails fine");
            assert!(url.starts_with("data:image/png;base64,"));
            assert!(url.len() > "data:image/png;base64,".len());
        }
        _ => panic!("expected an image plan"),
    }
}

#[test]
fn thumbnail_of_garbage_is_none() {
    assert!(generate_thumbnail(&vec![1, 2, 3]).is_none());
    let snap = match on_direct(DirectImageProbe::Pixels {
        raw: vec![9, 9, 9, 255],
        width: 1,
        height: 1,
    }) {
        ProbeOutcome::Captured(s) => s,
        _ => panic!("expected a capture"),
    };
    let url = generate_thumbnail(&snap.image_data.unwrap()).expect("valid png thumbnails");
    assert!(url.starts_with("data:image/png;base64,"));
}

#[test]
fn rich_text_snapshot_plans_a_rich_record() {
    let store = HistoryStore::new();
    let snap = ClipboardSnapshot {
        content_type: ContentType::RichText,
        plain_text: Some("plain".to_string()),
        rich_text: Some("<i>plain</i>".to_string()),
        image_data: None,
        hash: compute_hash(b"rich"),
    };
    match plan_capture(&store, snap, 9) {
        CapturePlan::Store(item) => {
            assert_eq!(item.content_type, ContentType::RichText);
            assert_eq!(item.plain_text.as_deref(), Some("plain"));
            assert_eq!(item.rich_text.as_deref(), Some("<i>plain</i>"));
            assert_eq!(item.preview, "plain");
        }
        _ => panic!("expected a ready record"),
    }
    // A malformed rich-text snapshot is skipped.
    let snap = ClipboardSnapshot {
        content_type: ContentType::RichText,
        plain_text: Some("plain".to_string()),
        rich_text: None,
        image_data: None,
        hash: compute_hash(b"rich2"),
    };
    let store = HistoryStore::new();
    assert!(matches!(plan_capture(&store, snap, 9), CapturePlan::Skip));
}
