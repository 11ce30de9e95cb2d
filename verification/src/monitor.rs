//! The polling monitor's state: start/stop with an orthogonal pause flag,
//! and per-tick deduplication against the single most recently emitted
//! fingerprint. The background worker that sleeps, opens a fresh native
//! clipboard handle each tick and runs the probe lives outside the library;
//! it consults and updates this state through `should_poll` and `observe`.

use vstd::prelude::*;
use crate::models::ContentType;
use crate::text::str_eq;

verus! {

/// One clipboard capture, produced by the probe chain and consumed once.
/// Exactly one payload field is populated, matching `content_type`.
pub struct ClipboardSnapshot {
    /// Which payload the snapshot carries.
    pub content_type: ContentType,
    /// Plain text content.
    pub plain_text: Option<String>,
    /// Rich text HTML content.
    pub rich_text: Option<String>,
    /// Image bytes in the portable container.
    pub image_data: Option<Vec<u8>>,
    /// Fingerprint of the payload, in the domain the producing probe step
    /// defines.
    pub hash: String,
}

/// Exactly one payload field is populated, matching the content type.
pub open spec fn snapshot_wf(s: ClipboardSnapshot) -> bool {
    match s.content_type {
        ContentType::Text => s.plain_text is Some && s.rich_text is None && s.image_data is None,
        ContentType::RichText => s.plain_text is Some && s.rich_text is Some && s.image_data
            is None,
        ContentType::Image => s.plain_text is None && s.rich_text is None && s.image_data is Some,
    }
}

/// Whether a tick in the given monitor state, offered a probe result with
/// the given fingerprint, invokes the capture callback: only while running
/// and not paused, only when the probe yielded a snapshot, and only when its
/// fingerprint differs from the last emitted one.
pub open spec fn observe_fires(
    running: bool,
    paused: bool,
    last: Seq<char>,
    probe: Option<Seq<char>>,
) -> bool {
    running && !paused && (probe matches Some(h) && h != last)
}

/// The fingerprint remembered after such a tick: updated exactly when the
/// callback fires.
pub open spec fn observe_next_last(
    running: bool,
    paused: bool,
    last: Seq<char>,
    probe: Option<Seq<char>>,
) -> Seq<char> {
    if observe_fires(running, paused, last, probe) {
        probe->0
    } else {
        last
    }
}

/// Monitor dedup: once a snapshot fires the callback, offering the same
/// fingerprint again on the next tick fires nothing — one change, one
/// callback.
pub proof fn lemma_monitor_dedup(running: bool, paused: bool, last: Seq<char>, h: Seq<char>)
    requires
        observe_fires(running, paused, last, Some(h)),
    ensures
        observe_next_last(running, paused, last, Some(h)) == h,
        !observe_fires(running, paused, h, Some(h)),
{
}

/// Pause masks captures without consuming them: while paused nothing fires
/// and the remembered fingerprint stays, so after a resume the still-pending
/// change fires exactly once.
pub proof fn lemma_pause_and_resume(last: Seq<char>, h: Seq<char>)
    requires
        h != last,
    ensures
        !observe_fires(true, true, last, Some(h)),
        observe_next_last(true, true, last, Some(h)) == last,
        observe_fires(true, false, last, Some(h)),
        !observe_fires(true, false, h, Some(h)),
{
}

/// The clipboard monitor's state. A single background worker polls while
/// `running`; `paused` is sampled each tick; `last_hash` is the fingerprint
/// of the most recently emitted snapshot.
pub struct ClipboardMonitor {
    running: bool,
    paused: bool,
    poll_interval_ms: u64,
    last_hash: String,
}

impl ClipboardMonitor {
    /// Whether the worker is running.
    pub closed spec fn is_running(&self) -> bool {
        self.running
    }

    /// Whether ticks are currently masked.
    pub closed spec fn is_paused(&self) -> bool {
        self.paused
    }

    /// The tick interval in milliseconds, fixed at construction.
    pub closed spec fn interval_ms(&self) -> u64 {
        self.poll_interval_ms
    }

    /// The last emitted fingerprint; empty before the first capture.
    pub closed spec fn last_fingerprint(&self) -> Seq<char> {
        self.last_hash@
    }

    /// A stopped, unpaused monitor with no remembered fingerprint.
    pub fn new(poll_interval_ms: u64) -> (m: Self)
        ensures
            !m.is_running(),
            !m.is_paused(),
            m.interval_ms() == poll_interval_ms,
            m.last_fingerprint() == Seq::<char>::empty(),
    {
        ClipboardMonitor {
            running: false,
            paused: false,
            poll_interval_ms,
            last_hash: String::new(),
        }
    }

    /// The tick interval the worker sleeps between ticks.
    pub fn poll_interval_ms(&self) -> (r: u64)
        ensures
            r == self.interval_ms(),
    {
        self.poll_interval_ms
    }

    /// Begin monitoring. A no-op returning false when already running, so at
    /// most one worker is ever spawned; otherwise transitions to running and
    /// returns true, telling the caller to spawn the single worker.
    pub fn start(&mut self) -> (started: bool)
        ensures
            started == !old(self).is_running(),
            final(self).is_running(),
            final(self).is_paused() == old(self).is_paused(),
            final(self).interval_ms() == old(self).interval_ms(),
            final(self).last_fingerprint() == old(self).last_fingerprint(),
    {
        if self.running {
            false
        } else {
            self.running = true;
            true
        }
    }

    /// Signal the worker to exit after its current tick. Idempotent.
    pub fn stop(&mut self)
        ensures
            !final(self).is_running(),
            final(self).is_paused() == old(self).is_paused(),
            final(self).interval_ms() == old(self).interval_ms(),
            final(self).last_fingerprint() == old(self).last_fingerprint(),
    {
        self.running = false;
    }

    /// Mask future ticks. Independent of the run state; effective on the
    /// next tick.
    pub fn pause(&mut self)
        ensures
            final(self).is_paused(),
            final(self).is_running() == old(self).is_running(),
            final(self).interval_ms() == old(self).interval_ms(),
            final(self).last_fingerprint() == old(self).last_fingerprint(),
    {
        self.paused = true;
    }

    /// Unmask ticks.
    pub fn resume(&mut self)
        ensures
            !final(self).is_paused(),
            final(self).is_running() == old(self).is_running(),
            final(self).interval_ms() == old(self).interval_ms(),
            final(self).last_fingerprint() == old(self).last_fingerprint(),
    {
        self.paused = false;
    }

    /// Whether the worker should keep looping: stop() ends it after its
    /// current tick.
    pub fn is_active(&self) -> (r: bool)
        ensures
            r == self.is_running(),
    {
        self.running
    }

    /// Whether the worker should probe the clipboard this tick; while paused
    /// or stopped it only sleeps.
    pub fn should_poll(&self) -> (r: bool)
        ensures
            r == (self.is_running() && !self.is_paused()),
    {
        self.running && !self.paused
    }

    /// One tick's dedup decision: given what the probe yielded, decide
    /// whether to invoke the capture callback, and remember the fingerprint
    /// exactly when it fires. The caller invokes the callback after this
    /// call returns, so no monitor state is held across the callback.
    pub fn observe(&mut self, probe: Option<&ClipboardSnapshot>) -> (fire: bool)
        ensures
            fire == observe_fires(
                old(self).is_running(),
                old(self).is_paused(),
                old(self).last_fingerprint(),
                match probe {
                    Some(s) => Some(s.hash@),
                    None => None,
                },
            ),
            final(self).last_fingerprint() == observe_next_last(
                old(self).is_running(),
                old(self).is_paused(),
                old(self).last_fingerprint(),
                match probe {
                    Some(s) => Some(s.hash@),
                    None => None,
                },
            ),
            final(self).is_running() == old(self).is_running(),
            final(self).is_paused() == old(self).is_paused(),
            final(self).interval_ms() == old(self).interval_ms(),
    {
        if !self.running || self.paused {
            return false;
        }
        match probe {
            Some(s) => {
                if str_eq(s.hash.as_str(), self.last_hash.as_str()) {
                    false
                } else {
                    self.last_hash = s.hash.clone();
                    true
                }
            },
            None => false,
        }
    }
}

impl Default for ClipboardMonitor {
    /// A stopped monitor with the default 150 ms polling interval.
    fn default() -> (r: Self)
        ensures
            !r.is_running(),
            !r.is_paused(),
            r.interval_ms() == 150,
            r.last_fingerprint() == Seq::<char>::empty(),
    {
        ClipboardMonitor::new(150)
    }
}

} // verus!
