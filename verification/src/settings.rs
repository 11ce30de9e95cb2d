//! User settings: the theme, the storage cap, autostart, preview length and
//! the global shortcut, loaded from and saved to the persisted key-value
//! table. The storage cap is re-read at each eviction, never cached.

use vstd::prelude::*;
use crate::storage::{SettingsStore, kv_get};
use crate::text::{parse_i32, spec_parse_i32, str_eq};

verus! {

/// The display theme.
#[derive(Debug, Clone, Copy, PartialEq, Eq, Structural)]
pub enum Theme {
    Light,
    Dark,
}

impl Default for Theme {
    /// Light, until the user chooses otherwise.
    fn default() -> (r: Self)
        ensures
            r == Theme::Light,
    {
        Theme::Light
    }
}

/// The record-count cap offered to the user; non-positive means unlimited.
#[derive(Debug, Clone, Copy, PartialEq, Eq, Structural)]
pub enum StorageLimit {
    /// Keep 100 records.
    Limit100,
    /// Keep 200 records.
    Limit200,
    /// Keep 500 records.
    Limit500,
    /// Keep everything.
    Unlimited,
}

impl Default for StorageLimit {
    /// 100 records, until the user chooses otherwise.
    fn default() -> (r: Self)
        ensures
            r == StorageLimit::Limit100,
    {
        StorageLimit::Limit100
    }
}

impl StorageLimit {
    /// The numeric value of this cap; -1 means unlimited.
    pub open spec fn spec_as_i32(self) -> int {
        match self {
            StorageLimit::Limit100 => 100,
            StorageLimit::Limit200 => 200,
            StorageLimit::Limit500 => 500,
            StorageLimit::Unlimited => -1,
        }
    }

    /// The cap a numeric value denotes; anything but the three offered caps
    /// means unlimited.
    pub open spec fn spec_from_i32(v: int) -> StorageLimit {
        if v == 100 {
            StorageLimit::Limit100
        } else if v == 200 {
            StorageLimit::Limit200
        } else if v == 500 {
            StorageLimit::Limit500
        } else {
            StorageLimit::Unlimited
        }
    }

    /// The numeric value of this cap (-1 means unlimited).
    pub fn as_i32(&self) -> (r: i32)
        ensures
            r == self.spec_as_i32(),
    {
        match self {
            StorageLimit::Limit100 => 100,
            StorageLimit::Limit200 => 200,
            StorageLimit::Limit500 => 500,
            StorageLimit::Unlimited => -1,
        }
    }

    /// The cap a numeric value denotes.
    pub fn from_i32(value: i32) -> (r: Self)
        ensures
            r == Self::spec_from_i32(value as int),
    {
        match value {
            100 => StorageLimit::Limit100,
            200 => StorageLimit::Limit200,
            500 => StorageLimit::Limit500,
            _ => StorageLimit::Unlimited,
        }
    }
}

/// The theme a stored setting denotes: dark only when it says so.
pub open spec fn theme_from_setting(v: Option<Seq<char>>) -> Theme {
    match v {
        Some(s) => if s == "dark"@ {
            Theme::Dark
        } else {
            Theme::Light
        },
        None => Theme::Light,
    }
}

/// The cap a stored setting denotes: the parsed number's cap, or the default
/// when absent or unparsable.
pub open spec fn limit_from_setting(v: Option<Seq<char>>) -> StorageLimit {
    match v {
        Some(s) => match spec_parse_i32(s) {
            Some(n) => StorageLimit::spec_from_i32(n as int),
            None => StorageLimit::Limit100,
        },
        None => StorageLimit::Limit100,
    }
}

/// Whether a stored setting turns autostart on.
pub open spec fn autostart_from_setting(v: Option<Seq<char>>) -> bool {
    match v {
        Some(s) => s == "true"@,
        None => false,
    }
}

/// The shortcut a stored setting denotes, or the default.
pub open spec fn shortcut_from_setting(v: Option<Seq<char>>) -> Seq<char> {
    match v {
        Some(s) => s,
        None => "Alt+V"@,
    }
}

/// The string form a theme is stored under.
pub open spec fn theme_setting_str(t: Theme) -> Seq<char> {
    match t {
        Theme::Light => "light"@,
        Theme::Dark => "dark"@,
    }
}

/// The string form a cap is stored under: its numeric value in decimal.
pub open spec fn limit_setting_str(l: StorageLimit) -> Seq<char> {
    match l {
        StorageLimit::Limit100 => "100"@,
        StorageLimit::Limit200 => "200"@,
        StorageLimit::Limit500 => "500"@,
        StorageLimit::Unlimited => "-1"@,
    }
}

/// The user settings.
pub struct Settings {
    /// Display theme.
    pub theme: Theme,
    /// Record-count cap enforced after each capture.
    pub storage_limit: StorageLimit,
    /// Launch on login.
    pub auto_start: bool,
    /// Preview text length in characters.
    pub preview_length: usize,
    /// Global shortcut that raises the window.
    pub shortcut: String,
}

impl Clone for Settings {
    /// An exact copy of the settings.
    fn clone(&self) -> (r: Self)
        ensures
            r == *self,
    {
        Settings {
            theme: self.theme,
            storage_limit: self.storage_limit,
            auto_start: self.auto_start,
            preview_length: self.preview_length,
            shortcut: self.shortcut.clone(),
        }
    }
}

impl Default for Settings {
    /// Light theme, a cap of 100 records, no autostart, 100-character
    /// previews, Alt+V.
    fn default() -> (r: Self)
        ensures
            r.theme == Theme::Light,
            r.storage_limit == StorageLimit::Limit100,
            !r.auto_start,
            r.preview_length == 100,
            r.shortcut@ == "Alt+V"@,
    {
        Settings {
            theme: Theme::Light,
            storage_limit: StorageLimit::Limit100,
            auto_start: false,
            preview_length: 100,
            shortcut: String::from_str("Alt+V"),
        }
    }
}

impl Settings {
    /// Load the settings from the persisted table; each missing or
    /// malformed entry falls back to its default.
    pub fn load(store: &SettingsStore) -> (r: Settings)
        ensures
            r.theme == theme_from_setting(kv_get(store@, "theme"@)),
            r.storage_limit == limit_from_setting(kv_get(store@, "storage_limit"@)),
            r.auto_start == autostart_from_setting(kv_get(store@, "auto_start"@)),
            r.shortcut@ == shortcut_from_setting(kv_get(store@, "shortcut"@)),
            r.preview_length == 100,
    {
        let mut settings = Settings::default();
        match store.get_setting("theme") {
            Some(t) => {
                settings.theme = if str_eq(t.as_str(), "dark") {
                    Theme::Dark
                } else {
                    Theme::Light
                };
            },
            None => {},
        }
        match store.get_setting("storage_limit") {
            Some(l) => {
                match parse_i32(l.as_str()) {
                    Some(v) => {
                        settings.storage_limit = StorageLimit::from_i32(v);
                    },
                    None => {},
                }
            },
            None => {},
        }
        match store.get_setting("auto_start") {
            Some(a) => {
                settings.auto_start = str_eq(a.as_str(), "true");
            },
            None => {},
        }
        match store.get_setting("shortcut") {
            Some(s) => {
                settings.shortcut = s;
            },
            None => {},
        }
        settings
    }

    /// Save the settings to the persisted table: one entry each for the
    /// theme, the cap, autostart and the shortcut. Every other key keeps its
    /// value.
    pub fn save(&self, store: &mut SettingsStore)
        requires
            old(store).wf(),
        ensures
            final(store).wf(),
            kv_get(final(store)@, "theme"@) == Some(theme_setting_str(self.theme)),
            kv_get(final(store)@, "storage_limit"@) == Some(limit_setting_str(self.storage_limit)),
            kv_get(final(store)@, "auto_start"@) == Some(
                if self.auto_start {
                    "true"@
                } else {
                    "false"@
                },
            ),
            kv_get(final(store)@, "shortcut"@) == Some(self.shortcut@),
            forall|k: Seq<char>|
                k != "theme"@ && k != "storage_limit"@ && k != "auto_start"@ && k != "shortcut"@
                    ==> #[trigger] kv_get(final(store)@, k) == kv_get(old(store)@, k),
    {
        proof {
            lemma_setting_keys_distinct();
        }
        let theme_str: &str = match self.theme {
            Theme::Light => "light",
            Theme::Dark => "dark",
        };
        store.save_setting("theme", theme_str);
        let limit_str: &str = match self.storage_limit {
            StorageLimit::Limit100 => "100",
            StorageLimit::Limit200 => "200",
            StorageLimit::Limit500 => "500",
            StorageLimit::Unlimited => "-1",
        };
        store.save_setting("storage_limit", limit_str);
        store.save_setting("auto_start", if self.auto_start {
            "true"
        } else {
            "false"
        });
        store.save_setting("shortcut", self.shortcut.as_str());
    }
}

/// The four setting keys are pairwise distinct.
proof fn lemma_setting_keys_distinct()
    ensures
        "theme"@ != "storage_limit"@,
        "theme"@ != "auto_start"@,
        "theme"@ != "shortcut"@,
        "storage_limit"@ != "auto_start"@,
        "storage_limit"@ != "shortcut"@,
        "auto_start"@ != "shortcut"@,
        "first_run_completed"@ != "theme"@,
        "first_run_completed"@ != "storage_limit"@,
        "first_run_completed"@ != "auto_start"@,
        "first_run_completed"@ != "shortcut"@,
{
    reveal_strlit("theme");
    reveal_strlit("storage_limit");
    reveal_strlit("auto_start");
    reveal_strlit("shortcut");
    reveal_strlit("first_run_completed");
    assert("theme"@.len() == 5);
    assert("storage_limit"@.len() == 13);
    assert("auto_start"@.len() == 10);
    assert("shortcut"@.len() == 8);
    assert("first_run_completed"@.len() == 19);
}

/// Load the settings at startup.
pub fn init_settings(store: &SettingsStore) -> (r: Settings)
    ensures
        r.theme == theme_from_setting(kv_get(store@, "theme"@)),
        r.storage_limit == limit_from_setting(kv_get(store@, "storage_limit"@)),
        r.auto_start == autostart_from_setting(kv_get(store@, "auto_start"@)),
        r.shortcut@ == shortcut_from_setting(kv_get(store@, "shortcut"@)),
        r.preview_length == 100,
{
    Settings::load(store)
}

/// A copy of the current settings for a caller to read.
pub fn get_settings(current: &Settings) -> (r: Settings)
    ensures
        r == *current,
{
    current.clone()
}

/// Replace the current settings and persist them.
pub fn update_settings(current: &mut Settings, new_settings: Settings, store: &mut SettingsStore)
    requires
        old(store).wf(),
    ensures
        final(store).wf(),
        *final(current) == new_settings,
        kv_get(final(store)@, "theme"@) == Some(theme_setting_str(new_settings.theme)),
        kv_get(final(store)@, "storage_limit"@) == Some(
            limit_setting_str(new_settings.storage_limit),
        ),
        kv_get(final(store)@, "auto_start"@) == Some(
            if new_settings.auto_start {
                "true"@
            } else {
                "false"@
            },
        ),
        kv_get(final(store)@, "shortcut"@) == Some(new_settings.shortcut@),
        forall|k: Seq<char>|
            k != "theme"@ && k != "storage_limit"@ && k != "auto_start"@ && k != "shortcut"@
                ==> #[trigger] kv_get(final(store)@, k) == kv_get(old(store)@, k),
{
    new_settings.save(store);
    *current = new_settings;
}

/// Whether this is the first run: no completed marker is stored yet.
pub fn is_first_run(store: &SettingsStore) -> (r: bool)
    ensures
        r == (kv_get(store@, "first_run_completed"@) != Some("true"@)),
{
    match store.get_setting("first_run_completed") {
        Some(v) => !str_eq(v.as_str(), "true"),
        None => true,
    }
}

/// Store the marker that the first run is done. Every other key keeps its
/// value.
pub fn mark_first_run_completed(store: &mut SettingsStore)
    requires
        old(store).wf(),
    ensures
        final(store).wf(),
        kv_get(final(store)@, "first_run_completed"@) == Some("true"@),
        forall|k: Seq<char>|
            k != "first_run_completed"@ ==> #[trigger] kv_get(final(store)@, k) == kv_get(
                old(store)@,
                k,
            ),
{
    store.save_setting("first_run_completed", "true");
}

} // verus!
