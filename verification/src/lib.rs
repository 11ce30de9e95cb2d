//! A verified core for a clipboard history manager: content fingerprinting,
//! an ordered fallback chain for reading one clipboard snapshot, a polling
//! monitor that suppresses repeated captures, and a bounded, pin-aware
//! history store with fingerprint deduplication and eviction.

pub mod capture;
pub mod commands;
pub mod fingerprint;
pub mod models;
pub mod monitor;
pub mod probe;
pub mod settings;
pub mod storage;
pub mod text;

pub use fingerprint::compute_hash;
pub use fingerprint::fingerprint_of;
pub use models::{ClipboardItem, ClipboardItemView, ContentType};
pub use monitor::{ClipboardMonitor, ClipboardSnapshot};
pub use storage::{HistoryStore, SettingsStore, StoreError};
pub use settings::{Settings, StorageLimit, Theme};
