//! The command layer's verified pieces: the uniform command result shape,
//! the settings-update merge, and the decision of what a paste of a stored
//! record puts back on the clipboard. The window plumbing and the native
//! clipboard write around them stay outside the library.

use vstd::prelude::*;
use crate::models::{ClipboardItem, ContentType};
use crate::settings::{Settings, StorageLimit, Theme};
use crate::text::str_eq;

verus! {

/// The uniform result envelope handed to command callers.
pub struct CommandResult<T> {
    /// Whether the command succeeded.
    pub success: bool,
    /// The payload, on success.
    pub data: Option<T>,
    /// The error message, on failure.
    pub error: Option<String>,
}

impl<T> CommandResult<T> {
    /// A successful result carrying its payload.
    pub fn ok(data: T) -> (r: Self)
        ensures
            r.success,
            r.data == Some(data),
            r.error is None,
    {
        CommandResult { success: true, data: Some(data), error: None }
    }

    /// A failed result carrying its message.
    pub fn err(error: String) -> (r: Self)
        ensures
            !r.success,
            r.data is None,
            r.error == Some(error),
    {
        CommandResult { success: false, data: None, error: Some(error) }
    }
}

/// A settings-update request: each field present replaces the current value.
pub struct SettingsUpdate {
    /// New theme, by its string form.
    pub theme: Option<String>,
    /// New storage cap, by its numeric value.
    pub storage_limit: Option<i32>,
    /// New autostart flag.
    pub auto_start: Option<bool>,
    /// New global shortcut.
    pub shortcut: Option<String>,
}

/// Merge an update request into the current settings: each present field
/// replaces the current value — an unknown theme string falls back to light,
/// an unknown cap value to unlimited — and each absent field keeps it.
pub fn apply_settings_update(current: &Settings, updates: &SettingsUpdate) -> (r: Settings)
    ensures
        r.theme == match updates.theme {
            Some(t) => if t@ == "dark"@ {
                Theme::Dark
            } else {
                Theme::Light
            },
            None => current.theme,
        },
        r.storage_limit == match updates.storage_limit {
            Some(v) => StorageLimit::spec_from_i32(v as int),
            None => current.storage_limit,
        },
        r.auto_start == match updates.auto_start {
            Some(b) => b,
            None => current.auto_start,
        },
        r.shortcut@ == match updates.shortcut {
            Some(s) => s@,
            None => current.shortcut@,
        },
        r.preview_length == current.preview_length,
{
    let mut settings = current.clone();
    match &updates.theme {
        Some(t) => {
            settings.theme = if str_eq(t.as_str(), "dark") {
                Theme::Dark
            } else {
                Theme::Light
            };
        },
        None => {},
    }
    match &updates.storage_limit {
        Some(v) => {
            settings.storage_limit = StorageLimit::from_i32(*v);
        },
        None => {},
    }
    match &updates.auto_start {
        Some(b) => {
            settings.auto_start = *b;
        },
        None => {},
    }
    match &updates.shortcut {
        Some(s) => {
            settings.shortcut = s.clone();
        },
        None => {},
    }
    settings
}

/// What pasting a stored record puts back on the clipboard.
pub enum PasteAction {
    /// Write this text to the native clipboard.
    SetText(String),
    /// Load the image bytes this reference resolves to and write them to the
    /// native clipboard.
    LoadImage(String),
    /// The record carries no payload to paste; the command succeeds without
    /// touching the clipboard.
    Nothing,
    /// An image record without a reference: the paste fails.
    MissingImagePath,
}

/// Decide what a paste of this record writes: its plain text for text and
/// rich-text records — rich text is pasted as its plain rendering — and the
/// image its reference resolves to for image records.
pub fn plan_paste(item: &ClipboardItem, as_plain_text: bool) -> (r: PasteAction)
    ensures
        item.content_type == ContentType::Text || item.content_type == ContentType::RichText
            ==> match item.plain_text {
            Some(t) => r == PasteAction::SetText(t),
            None => r == PasteAction::Nothing,
        },
        item.content_type == ContentType::Image ==> match item.image_path {
            Some(p) => r == PasteAction::LoadImage(p),
            None => r == PasteAction::MissingImagePath,
        },
{
    match item.content_type {
        ContentType::Text => match &item.plain_text {
            Some(t) => PasteAction::SetText(t.clone()),
            None => PasteAction::Nothing,
        },
        ContentType::RichText => {
            // Rich text is not pasted as HTML yet: plain text is used whether
            // or not it was asked for.
            let text = if as_plain_text {
                &item.plain_text
            } else {
                &item.plain_text
            };
            match text {
                Some(t) => PasteAction::SetText(t.clone()),
                None => PasteAction::Nothing,
            }
        },
        ContentType::Image => match &item.image_path {
            Some(p) => PasteAction::LoadImage(p.clone()),
            None => PasteAction::MissingImagePath,
        },
    }
}

} // verus!
