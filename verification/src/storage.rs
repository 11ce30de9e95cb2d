//! The history store: a bounded, ordered, pin-aware collection of captured
//! records, keyed by id, enforcing fingerprint uniqueness and a configurable
//! size cap. Records are kept in listing order — every pinned record before
//! every unpinned one, newest first within each group — so that listing,
//! search and eviction all read off one sorted sequence.

use vstd::prelude::*;
use crate::models::ClipboardItem;
use crate::text::{str_eq, str_contains, seq_contains};

verus! {

/// Rank of a record's pin flag: pinned records come first.
pub open spec fn pin_rank(r: ClipboardItem) -> int {
    if r.is_pinned {
        1
    } else {
        0
    }
}

/// `a` comes no later than `b` in listing order: pinned before unpinned,
/// newer before older within a group.
pub open spec fn comes_before_eq(a: ClipboardItem, b: ClipboardItem) -> bool {
    pin_rank(a) > pin_rank(b) || (pin_rank(a) == pin_rank(b) && a.created_at >= b.created_at)
}

/// The sequence is in listing order.
pub open spec fn listing_sorted(s: Seq<ClipboardItem>) -> bool {
    forall|i: int, j: int| 0 <= i < j < s.len() ==> comes_before_eq(s[i], s[j])
}

/// Some record carries this fingerprint.
pub open spec fn contains_fp(s: Seq<ClipboardItem>, h: Seq<char>) -> bool {
    exists|i: int| 0 <= i < s.len() && s[i].hash@ == h
}

/// Some record carries this id.
pub open spec fn contains_id(s: Seq<ClipboardItem>, id: int) -> bool {
    exists|i: int| 0 <= i < s.len() && s[i].id == id
}

/// No two records share a fingerprint.
pub open spec fn unique_fps(s: Seq<ClipboardItem>) -> bool {
    forall|i: int, j: int| 0 <= i < j < s.len() ==> s[i].hash@ != s[j].hash@
}

/// No two records share an id.
pub open spec fn unique_ids(s: Seq<ClipboardItem>) -> bool {
    forall|i: int, j: int| 0 <= i < j < s.len() ==> s[i].id != s[j].id
}

/// Where a new record lands in listing order: after every record that comes
/// no later than it.
pub open spec fn insert_pos(s: Seq<ClipboardItem>, r: ClipboardItem) -> int
    decreases s.len(),
{
    if s.len() == 0 {
        0
    } else if comes_before_eq(s[0], r) {
        1 + insert_pos(s.drop_first(), r)
    } else {
        0
    }
}

/// The sequence with a record inserted at its listing position.
pub open spec fn spec_insert(s: Seq<ClipboardItem>, r: ClipboardItem) -> Seq<ClipboardItem> {
    s.insert(insert_pos(s, r), r)
}

/// Index of the record with this id, or -1 when there is none.
pub open spec fn idx_of_id(s: Seq<ClipboardItem>, id: int) -> int
    decreases s.len(),
{
    if s.len() == 0 {
        -1
    } else if s[0].id == id {
        0
    } else if idx_of_id(s.drop_first(), id) == -1 {
        -1
    } else {
        1 + idx_of_id(s.drop_first(), id)
    }
}

/// The record carrying this id.
pub open spec fn record_of(s: Seq<ClipboardItem>, id: int) -> ClipboardItem {
    s[idx_of_id(s, id)]
}

/// The sequence with the record of this id removed, or unchanged when no
/// record carries it.
pub open spec fn spec_delete(s: Seq<ClipboardItem>, id: int) -> Seq<ClipboardItem> {
    if contains_id(s, id) {
        s.remove(idx_of_id(s, id))
    } else {
        s
    }
}

/// The record with its id replaced.
pub open spec fn with_id(r: ClipboardItem, id: int) -> ClipboardItem {
    ClipboardItem { id: id as i64, ..r }
}

/// The record with its pin flag replaced.
pub open spec fn with_pinned(r: ClipboardItem, pinned: bool) -> ClipboardItem {
    ClipboardItem { is_pinned: pinned, ..r }
}

proof fn lemma_insert_pos(s: Seq<ClipboardItem>, r: ClipboardItem)
    ensures
        0 <= insert_pos(s, r) <= s.len(),
        forall|k: int| 0 <= k < insert_pos(s, r) ==> comes_before_eq(s[k], r),
        insert_pos(s, r) < s.len() ==> !comes_before_eq(s[insert_pos(s, r)], r),
    decreases s.len(),
{
    if s.len() == 0 {
    } else if comes_before_eq(s[0], r) {
        lemma_insert_pos(s.drop_first(), r);
        assert forall|k: int| 0 <= k < insert_pos(s, r) implies comes_before_eq(s[k], r) by {
            if k > 0 {
                assert(comes_before_eq(s.drop_first()[k - 1], r));
                assert(s.drop_first()[k - 1] == s[k]);
            }
        }
        if insert_pos(s, r) < s.len() {
            assert(s.drop_first()[insert_pos(s, r) - 1] == s[insert_pos(s, r)]);
        }
    }
}

proof fn lemma_idx_of_id(s: Seq<ClipboardItem>, id: int)
    ensures
        contains_id(s, id) ==> 0 <= idx_of_id(s, id) < s.len() && s[idx_of_id(s, id)].id == id,
        !contains_id(s, id) ==> idx_of_id(s, id) == -1,
        forall|k: int| 0 <= k < idx_of_id(s, id) ==> s[k].id != id,
    decreases s.len(),
{
    if s.len() == 0 {
        assert(!contains_id(s, id));
    } else if s[0].id == id {
    } else {
        lemma_idx_of_id(s.drop_first(), id);
        assert forall|k: int| 0 <= k < idx_of_id(s, id) implies s[k].id != id by {
            if k > 0 {
                assert(s.drop_first()[k - 1].id != id);
                assert(s.drop_first()[k - 1] == s[k]);
            }
        }
        if contains_id(s, id) {
            let w = choose|i: int| 0 <= i < s.len() && s[i].id == id;
            assert(s.drop_first()[w - 1] == s[w]);
            assert(contains_id(s.drop_first(), id));
        }
        if contains_id(s.drop_first(), id) {
            let w = choose|i: int| 0 <= i < s.drop_first().len() && s.drop_first()[i].id == id;
            assert(s[w + 1] == s.drop_first()[w]);
            assert(contains_id(s, id));
        }
    }
}

/// Inserting a record puts its fingerprint in the store: together with the
/// rejection of duplicates this is the store-level deduplication law.
pub proof fn lemma_insert_adds_fingerprint(s: Seq<ClipboardItem>, r: ClipboardItem)
    ensures
        contains_fp(spec_insert(s, r), r.hash@),
        spec_insert(s, r).len() == s.len() + 1,
{
    lemma_insert_pos(s, r);
    let p = insert_pos(s, r);
    s.insert_ensures(p, r);
    assert(spec_insert(s, r)[p] == r);
}

/// Every pair drawn from the result of an insert maps back to the inserted
/// record or to a pair of the original, in order.
proof fn lemma_insert_preserves_wf(s: Seq<ClipboardItem>, r: ClipboardItem)
    requires
        listing_sorted(s),
        unique_fps(s),
        unique_ids(s),
        !contains_fp(s, r.hash@),
        !contains_id(s, r.id as int),
    ensures
        listing_sorted(spec_insert(s, r)),
        unique_fps(spec_insert(s, r)),
        unique_ids(spec_insert(s, r)),
        spec_insert(s, r).len() == s.len() + 1,
{
    lemma_insert_pos(s, r);
    let p = insert_pos(s, r);
    s.insert_ensures(p, r);
    let t = spec_insert(s, r);
    assert forall|i: int, j: int|
        0 <= i < j < t.len() implies comes_before_eq(t[i], t[j]) && t[i].hash@ != t[j].hash@
        && t[i].id != t[j].id by {
        if i == p && j > p {
            assert(t[i] == r && t[j] == s[j - 1]);
            assert(!comes_before_eq(s[p], r));
            if j - 1 > p {
                assert(comes_before_eq(s[p], s[j - 1]));
            }
        } else if i < p && j == p {
            assert(t[i] == s[i] && t[j] == r);
        } else {
            let i0 = if i < p {
                i
            } else {
                i - 1
            };
            let j0 = if j < p {
                j
            } else {
                j - 1
            };
            assert(t[i] == s[i0] && t[j] == s[j0]);
        }
    }
}

/// A property of every record of a sequence holds of every record after an
/// insert of a record that also has it.
proof fn lemma_insert_keeps_all(
    s: Seq<ClipboardItem>,
    r: ClipboardItem,
    p: spec_fn(ClipboardItem) -> bool,
)
    requires
        forall|i: int| 0 <= i < s.len() ==> p(#[trigger] s[i]),
        p(r),
    ensures
        forall|k: int| 0 <= k < spec_insert(s, r).len() ==> p(#[trigger] spec_insert(s, r)[k]),
{
    lemma_insert_pos(s, r);
    let pos = insert_pos(s, r);
    s.insert_ensures(pos, r);
    let t = spec_insert(s, r);
    assert forall|k: int| 0 <= k < t.len() implies p(#[trigger] t[k]) by {
        if k < pos {
            assert(t[k] == s[k]);
        } else if k > pos {
            assert(t[k] == s[k - 1]);
        } else {
            assert(t[k] == r);
        }
    }
}

/// Every pair drawn from the result of a removal maps back to a pair of the
/// original, in order.
proof fn lemma_remove_preserves_wf(s: Seq<ClipboardItem>, idx: int)
    requires
        listing_sorted(s),
        unique_fps(s),
        unique_ids(s),
        0 <= idx < s.len(),
    ensures
        listing_sorted(s.remove(idx)),
        unique_fps(s.remove(idx)),
        unique_ids(s.remove(idx)),
        s.remove(idx).len() == s.len() - 1,
{
    s.remove_ensures(idx);
    let t = s.remove(idx);
    assert forall|i: int, j: int|
        0 <= i < j < t.len() implies comes_before_eq(t[i], t[j]) && t[i].hash@ != t[j].hash@
        && t[i].id != t[j].id by {
        let i0 = if i < idx {
            i
        } else {
            i + 1
        };
        let j0 = if j < idx {
            j
        } else {
            j + 1
        };
        assert(t[i] == s[i0] && t[j] == s[j0]);
    }
}

proof fn lemma_take_preserves_wf(s: Seq<ClipboardItem>, l: int)
    requires
        listing_sorted(s),
        unique_fps(s),
        unique_ids(s),
        0 <= l <= s.len(),
    ensures
        listing_sorted(s.take(l)),
        unique_fps(s.take(l)),
        unique_ids(s.take(l)),
        s.take(l).len() == l,
{
    let t = s.take(l);
    assert forall|i: int, j: int|
        0 <= i < j < t.len() implies comes_before_eq(t[i], t[j]) && t[i].hash@ != t[j].hash@
        && t[i].id != t[j].id by {
        assert(t[i] == s[i] && t[j] == s[j]);
    }
}

proof fn lemma_take_sorted(s: Seq<ClipboardItem>, l: int)
    requires
        listing_sorted(s),
        0 <= l <= s.len(),
    ensures
        listing_sorted(s.take(l)),
{
    assert forall|i: int, j: int| 0 <= i < j < s.take(l).len() implies comes_before_eq(
        s.take(l)[i],
        s.take(l)[j],
    ) by {
        assert(s.take(l)[i] == s[i] && s.take(l)[j] == s[j]);
    }
}

proof fn lemma_take_keeps_all(s: Seq<ClipboardItem>, l: int, p: spec_fn(ClipboardItem) -> bool)
    requires
        0 <= l <= s.len(),
        forall|i: int| 0 <= i < s.len() ==> p(#[trigger] s[i]),
    ensures
        forall|k: int| 0 <= k < s.take(l).len() ==> p(#[trigger] s.take(l)[k]),
{
    assert forall|k: int| 0 <= k < s.take(l).len() implies p(#[trigger] s.take(l)[k]) by {
        assert(s.take(l)[k] == s[k]);
    }
}

/// A property of every record of a sequence holds of every record after a
/// removal.
proof fn lemma_remove_keeps_all(s: Seq<ClipboardItem>, idx: int, p: spec_fn(ClipboardItem) -> bool)
    requires
        0 <= idx < s.len(),
        forall|i: int| 0 <= i < s.len() ==> p(#[trigger] s[i]),
    ensures
        forall|k: int| 0 <= k < s.remove(idx).len() ==> p(#[trigger] s.remove(idx)[k]),
{
    s.remove_ensures(idx);
    let t = s.remove(idx);
    assert forall|k: int| 0 <= k < t.len() implies p(#[trigger] t[k]) by {
        let k0 = if k < idx {
            k
        } else {
            k + 1
        };
        assert(t[k] == s[k0]);
    }
}

/// Length of the pinned prefix: how many records from the front are pinned.
/// In a sequence in listing order these are exactly the pinned records.
pub open spec fn pinned_prefix_len(s: Seq<ClipboardItem>) -> int
    decreases s.len(),
{
    if s.len() == 0 {
        0
    } else if s[0].is_pinned {
        1 + pinned_prefix_len(s.drop_first())
    } else {
        0
    }
}

/// How many records eviction with cap `max` retains: the pinned prefix plus
/// up to `max` unpinned records.
pub open spec fn retain_len(s: Seq<ClipboardItem>, max: int) -> int {
    if pinned_prefix_len(s) + max < s.len() {
        pinned_prefix_len(s) + max
    } else {
        s.len() as int
    }
}

/// What eviction leaves: everything when the cap is non-positive (unlimited
/// mode), else every pinned record together with the `max` most recent
/// unpinned ones — a prefix, in listing order.
pub open spec fn spec_cleanup(s: Seq<ClipboardItem>, max: int) -> Seq<ClipboardItem> {
    if max <= 0 {
        s
    } else {
        s.take(retain_len(s, max))
    }
}

proof fn lemma_pinned_prefix(s: Seq<ClipboardItem>)
    ensures
        0 <= pinned_prefix_len(s) <= s.len(),
        forall|k: int| 0 <= k < pinned_prefix_len(s) ==> s[k].is_pinned,
        pinned_prefix_len(s) < s.len() ==> !s[pinned_prefix_len(s)].is_pinned,
    decreases s.len(),
{
    if s.len() == 0 {
    } else if s[0].is_pinned {
        lemma_pinned_prefix(s.drop_first());
        assert forall|k: int| 0 <= k < pinned_prefix_len(s) implies s[k].is_pinned by {
            if k > 0 {
                assert(s.drop_first()[k - 1].is_pinned);
                assert(s.drop_first()[k - 1] == s[k]);
            }
        }
        if pinned_prefix_len(s) < s.len() {
            assert(s.drop_first()[pinned_prefix_len(s) - 1] == s[pinned_prefix_len(s)]);
        }
    }
}

/// In a sequence in listing order, the pinned records are exactly the ones
/// before `pinned_prefix_len`.
pub proof fn lemma_pinned_iff_prefix(s: Seq<ClipboardItem>)
    requires
        listing_sorted(s),
    ensures
        0 <= pinned_prefix_len(s) <= s.len(),
        forall|k: int| 0 <= k < s.len() ==> (s[k].is_pinned <==> k < pinned_prefix_len(s)),
{
    lemma_pinned_prefix(s);
    let p = pinned_prefix_len(s);
    assert forall|k: int| 0 <= k < s.len() implies (s[k].is_pinned <==> k < p) by {
        if k >= p && s[k].is_pinned {
            assert(!s[p].is_pinned);
            if p < k {
                assert(comes_before_eq(s[p], s[k]));
            }
        }
    }
}

/// Eviction correctness: with a positive cap, eviction keeps every pinned
/// record in place and exactly the `max` most recent unpinned ones (or all,
/// if fewer); every deleted record is unpinned and no newer than any
/// surviving unpinned record.
pub proof fn lemma_eviction_correct(s: Seq<ClipboardItem>, max: int)
    requires
        listing_sorted(s),
        max > 0,
    ensures
        spec_cleanup(s, max) == s.take(retain_len(s, max)),
        pinned_prefix_len(s) <= retain_len(s, max) <= s.len(),
        forall|k: int|
            0 <= k < s.len() && s[k].is_pinned ==> k < retain_len(s, max) && spec_cleanup(
                s,
                max,
            )[k] == s[k],
        forall|k: int| retain_len(s, max) <= k < s.len() ==> !s[k].is_pinned,
        retain_len(s, max) - pinned_prefix_len(s) == if max < s.len() - pinned_prefix_len(s) {
            max
        } else {
            s.len() - pinned_prefix_len(s)
        },
        forall|i: int, j: int|
            pinned_prefix_len(s) <= i < retain_len(s, max) && retain_len(s, max) <= j < s.len()
                ==> s[i].created_at >= s[j].created_at,
{
    lemma_pinned_iff_prefix(s);
    let p = pinned_prefix_len(s);
    let l = retain_len(s, max);
    assert forall|i: int, j: int| p <= i < l && l <= j < s.len() implies s[i].created_at
        >= s[j].created_at by {
        assert(!s[i].is_pinned && !s[j].is_pinned);
        assert(comes_before_eq(s[i], s[j]));
    }
}

/// Eviction is idempotent: running it again with the same cap and no
/// intervening writes deletes nothing further.
pub proof fn lemma_eviction_idempotent(s: Seq<ClipboardItem>, max: int)
    requires
        listing_sorted(s),
    ensures
        spec_cleanup(spec_cleanup(s, max), max) == spec_cleanup(s, max),
{
    if max > 0 {
        lemma_pinned_prefix(s);
        let p = pinned_prefix_len(s);
        let l = retain_len(s, max);
        let t = spec_cleanup(s, max);
        assert(t.len() == l);
        assert(p <= l);
        lemma_pinned_prefix(t);
        assert(pinned_prefix_len(t) == p) by {
            if pinned_prefix_len(t) < p {
                assert(t[pinned_prefix_len(t)] == s[pinned_prefix_len(t)]);
                assert(s[pinned_prefix_len(t)].is_pinned);
            }
            if pinned_prefix_len(t) > p {
                assert(p < t.len());
                assert(t[p] == s[p]);
                assert(t[p].is_pinned);
                assert(!s[p].is_pinned);
            }
        }
        assert(retain_len(t, max) == t.len());
        assert(t.take(t.len() as int) =~= t);
    }
}

/// Listing order, spelled out: every pinned record precedes every unpinned
/// one, and within each group records are ordered newest first.
pub proof fn lemma_listing_order(s: Seq<ClipboardItem>)
    requires
        listing_sorted(s),
    ensures
        forall|i: int, j: int| 0 <= i < j < s.len() && s[j].is_pinned ==> s[i].is_pinned,
        forall|i: int, j: int|
            0 <= i < j < s.len() && s[i].is_pinned == s[j].is_pinned ==> s[i].created_at
                >= s[j].created_at,
{
    assert forall|i: int, j: int| 0 <= i < j < s.len() && s[j].is_pinned implies s[i].is_pinned by {
        assert(comes_before_eq(s[i], s[j]));
    }
    assert forall|i: int, j: int|
        0 <= i < j < s.len() && s[i].is_pinned == s[j].is_pinned implies s[i].created_at
        >= s[j].created_at by {
        assert(comes_before_eq(s[i], s[j]));
    }
}

/// The sequence cut down to a positive limit; a missing or non-positive
/// limit means unlimited.
pub open spec fn spec_limited(s: Seq<ClipboardItem>, limit: Option<i32>) -> Seq<ClipboardItem> {
    match limit {
        Some(n) => if 0 < n < s.len() {
            s.take(n as int)
        } else {
            s
        },
        None => s,
    }
}

/// A record matches a query when the query occurs in its plain text or in
/// its preview (case-sensitive).
pub open spec fn item_matches(r: ClipboardItem, q: Seq<char>) -> bool {
    (match r.plain_text {
        Some(t) => seq_contains(t@, q),
        None => false,
    }) || seq_contains(r.preview@, q)
}

/// The records matching a query, in their listing order.
pub open spec fn spec_search(s: Seq<ClipboardItem>, q: Seq<char>) -> Seq<ClipboardItem>
    decreases s.len(),
{
    if s.len() == 0 {
        Seq::empty()
    } else if item_matches(s[0], q) {
        seq![s[0]] + spec_search(s.drop_first(), q)
    } else {
        spec_search(s.drop_first(), q)
    }
}

proof fn lemma_search_keeps_all(
    s: Seq<ClipboardItem>,
    q: Seq<char>,
    p: spec_fn(ClipboardItem) -> bool,
)
    requires
        forall|i: int| 0 <= i < s.len() ==> p(#[trigger] s[i]),
    ensures
        forall|k: int| 0 <= k < spec_search(s, q).len() ==> p(#[trigger] spec_search(s, q)[k]),
    decreases s.len(),
{
    if s.len() > 0 {
        assert(forall|i: int| 0 <= i < s.drop_first().len() ==> p(#[trigger] s.drop_first()[i]))
            by {
            assert(forall|i: int|
                0 <= i < s.drop_first().len() ==> #[trigger] s.drop_first()[i] == s[i + 1]);
        }
        lemma_search_keeps_all(s.drop_first(), q, p);
        let t = spec_search(s, q);
        let rest = spec_search(s.drop_first(), q);
        if item_matches(s[0], q) {
            assert forall|k: int| 0 <= k < t.len() implies p(#[trigger] t[k]) by {
                if k == 0 {
                    assert(t[0] == s[0]);
                } else {
                    assert(t[k] == rest[k - 1]);
                }
            }
        }
    }
}

/// Matching records come out of a search in listing order.
pub proof fn lemma_search_sorted(s: Seq<ClipboardItem>, q: Seq<char>)
    requires
        listing_sorted(s),
    ensures
        listing_sorted(spec_search(s, q)),
    decreases s.len(),
{
    if s.len() > 0 {
        assert(listing_sorted(s.drop_first())) by {
            assert(forall|i: int|
                0 <= i < s.drop_first().len() ==> #[trigger] s.drop_first()[i] == s[i + 1]);
        }
        lemma_search_sorted(s.drop_first(), q);
        let t = spec_search(s, q);
        let rest = spec_search(s.drop_first(), q);
        if item_matches(s[0], q) {
            lemma_search_keeps_all(
                s.drop_first(),
                q,
                |x: ClipboardItem| comes_before_eq(s[0], x),
            );
            assert forall|i: int, j: int| 0 <= i < j < t.len() implies comes_before_eq(
                t[i],
                t[j],
            ) by {
                if i == 0 {
                    assert(t[j] == rest[j - 1]);
                } else {
                    assert(t[i] == rest[i - 1] && t[j] == rest[j - 1]);
                }
            }
        }
    }
}

/// The failure a store operation can report.
#[derive(Debug, Clone, Copy, PartialEq, Eq, Structural)]
pub enum StoreError {
    /// A record with the same fingerprint is already present; the store is
    /// left untouched.
    Duplicate,
}

/// Listing-order comparison of two records.
fn before_eq(a: &ClipboardItem, b: &ClipboardItem) -> (r: bool)
    ensures
        r == comes_before_eq(*a, *b),
{
    (a.is_pinned && !b.is_pinned) || (a.is_pinned == b.is_pinned && a.created_at >= b.created_at)
}

/// The bounded, ordered, pin-aware history store.
pub struct HistoryStore {
    items: Vec<ClipboardItem>,
    next_id: i64,
}

impl View for HistoryStore {
    type V = Seq<ClipboardItem>;

    /// The records in listing order.
    closed spec fn view(&self) -> Seq<ClipboardItem> {
        self.items@
    }
}

impl HistoryStore {
    /// The id the next inserted record will receive; ids are assigned in
    /// increasing order and never reused.
    pub closed spec fn spec_next_id(&self) -> int {
        self.next_id as int
    }

    /// The store's invariant: records in listing order, fingerprints and ids
    /// unique, ids assigned below `next_id`, and the record count bounded by
    /// `next_id`.
    pub closed spec fn wf(&self) -> bool {
        &&& listing_sorted(self@)
        &&& unique_fps(self@)
        &&& unique_ids(self@)
        &&& forall|i: int| 0 <= i < self@.len() ==> 0 <= #[trigger] self@[i].id < self.next_id
        &&& self@.len() <= self.next_id
        &&& self.next_id >= 0
    }

    /// A well-formed store holds its records in listing order, so the
    /// listing and eviction laws apply to its contents; and every assigned
    /// id lies below the next one, so an id is never reused.
    pub proof fn lemma_wf_sorted(&self)
        requires
            self.wf(),
        ensures
            listing_sorted(self@),
            unique_fps(self@),
            unique_ids(self@),
            forall|i: int| 0 <= i < self@.len() ==> 0 <= #[trigger] self@[i].id < self.spec_next_id(),
    {
    }

    /// An empty store.
    pub fn new() -> (s: Self)
        ensures
            s.wf(),
            s@.len() == 0,
            s.spec_next_id() == 0,
    {
        HistoryStore { items: Vec::new(), next_id: 0 }
    }

    /// Whether the store can still assign a fresh id.
    pub fn can_insert(&self) -> (r: bool)
        ensures
            r == (self.spec_next_id() < i64::MAX as int),
    {
        self.next_id < i64::MAX
    }

    /// Whether a record with this fingerprint is already present. Used by
    /// callers before any expensive work, so duplicate captures are
    /// abandoned early.
    pub fn hash_exists(&self, hash: &str) -> (r: bool)
        ensures
            r == contains_fp(self@, hash@),
    {
        let n = self.items.len();
        let mut i: usize = 0;
        while i < n
            invariant
                0 <= i <= n,
                n == self@.len(),
                forall|k: int| 0 <= k < i ==> self@[k].hash@ != hash@,
            decreases n - i,
        {
            if str_eq(self.items[i].hash.as_str(), hash) {
                return true;
            }
            i = i + 1;
        }
        false
    }

    /// Place a record at its listing position. The caller hands over a
    /// record whose fingerprint and id are fresh.
    fn insert_in_order(&mut self, rec: ClipboardItem)
        requires
            listing_sorted(old(self)@),
            unique_fps(old(self)@),
            unique_ids(old(self)@),
            !contains_fp(old(self)@, rec.hash@),
            !contains_id(old(self)@, rec.id as int),
            forall|i: int|
                0 <= i < old(self)@.len() ==> 0 <= #[trigger] old(self)@[i].id < old(
                    self,
                ).spec_next_id(),
            0 <= rec.id < old(self).spec_next_id(),
            old(self)@.len() < old(self).spec_next_id(),
        ensures
            final(self).wf(),
            final(self)@ == spec_insert(old(self)@, rec),
            final(self).spec_next_id() == old(self).spec_next_id(),
    {
        let ghost s0 = self.items@;
        let ghost nid = self.next_id;
        let n = self.items.len();
        let mut i: usize = 0;
        while i < n && before_eq(&self.items[i], &rec)
            invariant
                0 <= i <= n,
                n == s0.len(),
                self.items@ == s0,
                self.next_id == nid,
                forall|k: int| 0 <= k < i ==> comes_before_eq(s0[k], rec),
            decreases n - i,
        {
            i = i + 1;
        }
        proof {
            lemma_insert_pos(s0, rec);
            if i < insert_pos(s0, rec) {
                assert(!comes_before_eq(s0[i as int], rec));
            }
            if insert_pos(s0, rec) < i {
                assert(comes_before_eq(s0[insert_pos(s0, rec)], rec));
            }
            assert(i == insert_pos(s0, rec));
            lemma_insert_preserves_wf(s0, rec);
            lemma_insert_keeps_all(s0, rec, |it: ClipboardItem| 0 <= it.id < nid as int);
        }
        self.items.insert(i, rec);
    }

    /// Insert a record, assigning it the next id. Rejected with `Duplicate`,
    /// and the store left unchanged, exactly when the record's fingerprint is
    /// already present.
    pub fn insert_clipboard_item(&mut self, item: &ClipboardItem) -> (r: Result<i64, StoreError>)
        requires
            old(self).wf(),
            old(self).spec_next_id() < i64::MAX as int,
        ensures
            final(self).wf(),
            contains_fp(old(self)@, item.hash@) ==> r == Err::<i64, StoreError>(
                StoreError::Duplicate,
            ) && final(self)@ == old(self)@ && final(self).spec_next_id() == old(
                self,
            ).spec_next_id(),
            !contains_fp(old(self)@, item.hash@) ==> r == Ok::<i64, StoreError>(
                old(self).spec_next_id() as i64,
            ) && final(self)@ == spec_insert(old(self)@, with_id(*item, old(self).spec_next_id()))
                && final(self).spec_next_id() == old(self).spec_next_id() + 1,
    {
        if self.hash_exists(item.hash.as_str()) {
            return Err(StoreError::Duplicate);
        }
        let id = self.next_id;
        let mut rec = item.clone();
        rec.id = id;
        self.next_id = self.next_id + 1;
        proof {
            assert(rec == with_id(*item, id as int));
            assert(!contains_id(self@, rec.id as int)) by {
                if contains_id(self@, rec.id as int) {
                    let w = choose|k: int| 0 <= k < self@.len() && self@[k].id == rec.id as int;
                    assert(self@[w].id < id);
                }
            }
        }
        self.insert_in_order(rec);
        Ok(id)
    }

    /// The number of records held.
    pub fn get_item_count(&self) -> (r: i64)
        requires
            self.wf(),
        ensures
            r == self@.len(),
    {
        self.items.len() as i64
    }

    /// The record carrying this id, if any.
    pub fn get_item_by_id(&self, id: i64) -> (r: Option<ClipboardItem>)
        ensures
            contains_id(self@, id as int) ==> r == Some(record_of(self@, id as int)),
            !contains_id(self@, id as int) ==> r is None,
    {
        proof {
            lemma_idx_of_id(self@, id as int);
        }
        let n = self.items.len();
        let mut i: usize = 0;
        while i < n
            invariant
                0 <= i <= n,
                n == self@.len(),
                forall|k: int| 0 <= k < i ==> self@[k].id != id,
        decreases n - i,
        {
            if self.items[i].id == id {
                proof {
                    lemma_idx_of_id(self@, id as int);
                    assert(contains_id(self@, id as int));
                    if idx_of_id(self@, id as int) < i {
                        assert(self@[idx_of_id(self@, id as int)].id != id);
                    }
                    assert(idx_of_id(self@, id as int) == i);
                }
                return Some(self.items[i].clone());
            }
            i = i + 1;
        }
        proof {
            if contains_id(self@, id as int) {
                let w = choose|k: int| 0 <= k < self@.len() && self@[k].id == id;
                assert(self@[w].id != id);
            }
        }
        None
    }

    /// Remove the record carrying this id. Returns whether one was removed.
    pub fn delete_item(&mut self, id: i64) -> (r: bool)
        requires
            old(self).wf(),
        ensures
            final(self).wf(),
            r == contains_id(old(self)@, id as int),
            final(self)@ == spec_delete(old(self)@, id as int),
            final(self).spec_next_id() == old(self).spec_next_id(),
    {
        proof {
            lemma_idx_of_id(self@, id as int);
        }
        let ghost s0 = self.items@;
        let ghost nid = self.next_id;
        let n = self.items.len();
        let mut i: usize = 0;
        while i < n
            invariant
                0 <= i <= n,
                n == s0.len(),
                self.items@ == s0,
                self.next_id == nid,
                old(self).wf(),
                s0 == old(self)@,
                nid == old(self).spec_next_id(),
                forall|k: int| 0 <= k < i ==> s0[k].id != id,
            decreases n - i,
        {
            if self.items[i].id == id {
                proof {
                    lemma_idx_of_id(s0, id as int);
                    assert(contains_id(s0, id as int));
                    if idx_of_id(s0, id as int) < i {
                        assert(s0[idx_of_id(s0, id as int)].id != id);
                    }
                    assert(idx_of_id(s0, id as int) == i);
                    lemma_remove_preserves_wf(s0, i as int);
                    lemma_remove_keeps_all(
                        s0,
                        i as int,
                        |it: ClipboardItem| 0 <= it.id < nid as int,
                    );
                }
                self.items.remove(i);
                return true;
            }
            i = i + 1;
        }
        proof {
            if contains_id(s0, id as int) {
                let w = choose|k: int| 0 <= k < s0.len() && s0[k].id == id;
                assert(s0[w].id != id);
            }
        }
        false
    }

    /// Enforce the retention cap: keep every pinned record plus the
    /// `max_count` most recent unpinned ones, and delete the rest. A
    /// non-positive cap means unlimited mode and deletes nothing. Computed
    /// against one consistent snapshot of the store, and idempotent. Returns
    /// how many records were deleted.
    pub fn cleanup_old_items(&mut self, max_count: i32) -> (r: i64)
        requires
            old(self).wf(),
        ensures
            final(self).wf(),
            final(self)@ == spec_cleanup(old(self)@, max_count as int),
            r == old(self)@.len() - final(self)@.len(),
            final(self).spec_next_id() == old(self).spec_next_id(),
            max_count <= 0 ==> final(self)@ == old(self)@ && r == 0,
    {
        if max_count <= 0 {
            return 0;
        }
        let ghost s0 = self.items@;
        let ghost nid = self.next_id;
        let n = self.items.len();
        let mut p: usize = 0;
        while p < n && self.items[p].is_pinned
            invariant
                0 <= p <= n,
                n == s0.len(),
                self.items@ == s0,
                self.next_id == nid,
                forall|k: int| 0 <= k < p ==> s0[k].is_pinned,
            decreases n - p,
        {
            p = p + 1;
        }
        proof {
            lemma_pinned_prefix(s0);
            if p < pinned_prefix_len(s0) {
                assert(s0[p as int].is_pinned);
            }
            if pinned_prefix_len(s0) < p {
                assert(!s0[pinned_prefix_len(s0)].is_pinned);
            }
            assert(p == pinned_prefix_len(s0));
        }
        let cap = max_count as usize;
        let keep = if cap < n - p {
            p + cap
        } else {
            n
        };
        proof {
            assert(keep == retain_len(s0, max_count as int));
            lemma_take_preserves_wf(s0, keep as int);
            lemma_take_keeps_all(s0, keep as int, |it: ClipboardItem| 0 <= it.id < nid as int);
        }
        let deleted = (n - keep) as i64;
        self.items.truncate(keep);
        proof {
            assert(self.items@ =~= s0.take(keep as int));
        }
        deleted
    }

    /// All records in listing order — every pinned record before every
    /// unpinned one, newest first within each group — cut down to `limit`
    /// when that is positive.
    pub fn get_all_items(&self, limit: Option<i32>) -> (r: Vec<ClipboardItem>)
        requires
            self.wf(),
        ensures
            r@ == spec_limited(self@, limit),
            listing_sorted(r@),
    {
        let n = self.items.len();
        let cap: usize = match limit {
            Some(l) => {
                if l > 0 && (l as usize) < n {
                    l as usize
                } else {
                    n
                }
            },
            None => n,
        };
        let mut out: Vec<ClipboardItem> = Vec::new();
        let mut i: usize = 0;
        while i < cap
            invariant
                0 <= i <= cap <= n,
                n == self@.len(),
                out@ == self@.take(i as int),
            decreases cap - i,
        {
            out.push(self.items[i].clone());
            proof {
                assert(out@ =~= self@.take(i + 1));
            }
            i = i + 1;
        }
        proof {
            if cap == n {
                assert(self@.take(n as int) =~= self@);
            }
            lemma_take_preserves_wf(self@, cap as int);
        }
        out
    }

    /// The records whose plain text or preview contains the query
    /// (case-sensitive), in listing order, cut down to `limit` when that is
    /// positive.
    pub fn search_items(&self, query: &str, limit: Option<i32>) -> (r: Vec<ClipboardItem>)
        requires
            self.wf(),
        ensures
            r@ == spec_limited(spec_search(self@, query@), limit),
            listing_sorted(r@),
    {
        let n = self.items.len();
        let mut bounded = false;
        let mut cap: usize = 0;
        match limit {
            Some(l) => {
                if l > 0 {
                    bounded = true;
                    cap = l as usize;
                }
            },
            None => {},
        }
        let ghost s = self@;
        let ghost full = spec_search(s, query@);
        let mut out: Vec<ClipboardItem> = Vec::new();
        let mut i: usize = 0;
        proof {
            assert(s.skip(0) =~= s);
            assert(out@ + spec_search(s, query@) =~= spec_search(s, query@));
        }
        while i < n
            invariant
                0 <= i <= n,
                n == s.len(),
                s == self@,
                full == spec_search(s, query@),
                self.wf(),
                full == out@ + spec_search(s.skip(i as int), query@),
                bounded ==> out@.len() < cap,
                bounded ==> (limit matches Some(l) && l > 0 && cap == l),
                !bounded ==> (match limit {
                    Some(l) => l <= 0,
                    None => true,
                }),
            decreases n - i,
        {
            let it = &self.items[i];
            let matched = (match &it.plain_text {
                Some(t) => str_contains(t.as_str(), query),
                None => false,
            }) || str_contains(it.preview.as_str(), query);
            proof {
                assert(s.skip(i as int)[0] == s[i as int]);
                assert(s.skip(i as int).drop_first() =~= s.skip(i + 1));
                assert(matched == item_matches(s[i as int], query@));
            }
            if matched {
                out.push(self.items[i].clone());
                proof {
                    assert(full =~= out@ + spec_search(s.skip(i + 1), query@));
                }
                if bounded && out.len() == cap {
                    proof {
                        assert(out@ =~= full.take(cap as int));
                        assert(0 < cap);
                        if cap < full.len() {
                        } else {
                            assert(full =~= out@);
                        }
                        lemma_search_sorted(s, query@);
                        lemma_take_sorted(full, cap as int);
                    }
                    return out;
                }
            } else {
                proof {
                    assert(full =~= out@ + spec_search(s.skip(i + 1), query@));
                }
            }
            i = i + 1;
        }
        proof {
            assert(s.skip(n as int) =~= Seq::<ClipboardItem>::empty());
            assert(full =~= out@);
            lemma_search_sorted(s, query@);
        }
        out
    }

    /// Set or clear the pin flag of the record carrying this id, moving it
    /// to its new listing position. Returns whether such a record exists.
    pub fn set_pinned(&mut self, id: i64, pinned: bool) -> (r: bool)
        requires
            old(self).wf(),
        ensures
            final(self).wf(),
            r == contains_id(old(self)@, id as int),
            !contains_id(old(self)@, id as int) ==> final(self)@ == old(self)@,
            contains_id(old(self)@, id as int) ==> final(self)@ == spec_insert(
                spec_delete(old(self)@, id as int),
                with_pinned(record_of(old(self)@, id as int), pinned),
            ),
            final(self).spec_next_id() == old(self).spec_next_id(),
    {
        let ghost s0 = self.items@;
        let ghost nid = self.next_id;
        let n = self.items.len();
        let mut i: usize = 0;
        while i < n
            invariant
                0 <= i <= n,
                n == s0.len(),
                self.items@ == s0,
                self.next_id == nid,
                old(self).wf(),
                s0 == old(self)@,
                nid == old(self).spec_next_id(),
                forall|k: int| 0 <= k < i ==> s0[k].id != id,
            decreases n - i,
        {
            if self.items[i].id == id {
                proof {
                    lemma_idx_of_id(s0, id as int);
                    assert(contains_id(s0, id as int));
                    if idx_of_id(s0, id as int) < i {
                        assert(s0[idx_of_id(s0, id as int)].id != id);
                    }
                    assert(idx_of_id(s0, id as int) == i);
                    lemma_remove_preserves_wf(s0, i as int);
                    lemma_remove_keeps_all(
                        s0,
                        i as int,
                        |it: ClipboardItem| 0 <= it.id < nid as int,
                    );
                }
                let mut rec = self.items.remove(i);
                let ghost s1 = s0.remove(i as int);
                rec.is_pinned = pinned;
                proof {
                    assert(rec == with_pinned(record_of(s0, id as int), pinned));
                    s0.remove_ensures(i as int);
                    assert(!contains_fp(s1, rec.hash@)) by {
                        if contains_fp(s1, rec.hash@) {
                            let w = choose|k: int|
                                0 <= k < s1.len() && s1[k].hash@ == rec.hash@;
                            let w0 = if w < i {
                                w
                            } else {
                                w + 1
                            };
                            assert(s1[w] == s0[w0]);
                            if w0 < i {
                                assert(s0[w0].hash@ != s0[i as int].hash@);
                            } else {
                                assert(s0[i as int].hash@ != s0[w0].hash@);
                            }
                        }
                    }
                    assert(!contains_id(s1, rec.id as int)) by {
                        if contains_id(s1, rec.id as int) {
                            let w = choose|k: int| 0 <= k < s1.len() && s1[k].id == rec.id;
                            let w0 = if w < i {
                                w
                            } else {
                                w + 1
                            };
                            assert(s1[w] == s0[w0]);
                            if w0 < i {
                                assert(s0[w0].id != s0[i as int].id);
                            } else {
                                assert(s0[i as int].id != s0[w0].id);
                            }
                        }
                    }
                }
                self.insert_in_order(rec);
                return true;
            }
            i = i + 1;
        }
        proof {
            if contains_id(s0, id as int) {
                let w = choose|k: int| 0 <= k < s0.len() && s0[k].id == id;
                assert(s0[w].id != id);
            }
        }
        false
    }

    /// Remove every record unconditionally, pinned ones included. Ids are
    /// still never reused.
    pub fn clear_all_items(&mut self)
        requires
            old(self).wf(),
        ensures
            final(self).wf(),
            final(self)@.len() == 0,
            final(self).spec_next_id() == old(self).spec_next_id(),
    {
        self.items.clear();
    }
}

/// The value stored under a key, walking the entries front to back.
pub open spec fn kv_get(s: Seq<(String, String)>, k: Seq<char>) -> Option<Seq<char>>
    decreases s.len(),
{
    if s.len() == 0 {
        None
    } else if s[0].0@ == k {
        Some(s[0].1@)
    } else {
        kv_get(s.drop_first(), k)
    }
}

proof fn lemma_kv_skip(s: Seq<(String, String)>, k: Seq<char>, i: int)
    requires
        0 <= i <= s.len(),
        forall|j: int| 0 <= j < i ==> s[j].0@ != k,
    ensures
        kv_get(s, k) == kv_get(s.skip(i), k),
    decreases i,
{
    if i > 0 {
        assert(s[0].0@ != k);
        assert(forall|j: int| 0 <= j < s.drop_first().len() ==> #[trigger] s.drop_first()[j] == s[
            j + 1
        ]);
        lemma_kv_skip(s.drop_first(), k, i - 1);
        assert(s.drop_first().skip(i - 1) =~= s.skip(i));
    } else {
        assert(s.skip(0) =~= s);
    }
}

proof fn lemma_kv_update(s: Seq<(String, String)>, i: int, p2: (String, String), k2: Seq<char>)
    requires
        0 <= i < s.len(),
        p2.0@ == s[i].0@,
        forall|j: int| 0 <= j < i ==> s[j].0@ != s[i].0@,
    ensures
        kv_get(s.update(i, p2), k2) == if k2 == s[i].0@ {
            Some(p2.1@)
        } else {
            kv_get(s, k2)
        },
    decreases i,
{
    let t = s.update(i, p2);
    if i == 0 {
        assert(t[0] == p2);
        if k2 != s[0].0@ {
            assert(t.drop_first() =~= s.drop_first());
        }
    } else {
        assert(t[0] == s[0]);
        if k2 == s[0].0@ {
            assert(kv_get(t, k2) == Some(t[0].1@));
        } else {
            assert(forall|j: int|
                0 <= j < s.drop_first().len() ==> #[trigger] s.drop_first()[j] == s[j + 1]);
            lemma_kv_update(s.drop_first(), i - 1, p2, k2);
            assert(t.drop_first() =~= s.drop_first().update(i - 1, p2));
        }
    }
}

proof fn lemma_kv_push(s: Seq<(String, String)>, p: (String, String), k2: Seq<char>)
    ensures
        kv_get(s.push(p), k2) == if kv_get(s, k2) is Some {
            kv_get(s, k2)
        } else if p.0@ == k2 {
            Some(p.1@)
        } else {
            None
        },
    decreases s.len(),
{
    let t = s.push(p);
    if s.len() == 0 {
        assert(t[0] == p);
        assert(t.drop_first() =~= Seq::<(String, String)>::empty());
        assert(kv_get(s, k2) is None);
        if p.0@ == k2 {
            assert(kv_get(t, k2) == Some(p.1@));
        } else {
            assert(kv_get(Seq::<(String, String)>::empty(), k2) is None);
            assert(kv_get(t, k2) is None);
        }
    } else {
        assert(t[0] == s[0]);
        if s[0].0@ == k2 {
            assert(kv_get(t, k2) == Some(s[0].1@));
            assert(kv_get(s, k2) == Some(s[0].1@));
        } else {
            lemma_kv_push(s.drop_first(), p, k2);
            assert(t.drop_first() =~= s.drop_first().push(p));
            assert(kv_get(t, k2) == kv_get(s.drop_first().push(p), k2));
            assert(kv_get(s, k2) == kv_get(s.drop_first(), k2));
            if kv_get(s, k2) is Some {
                assert(kv_get(t, k2) == kv_get(s, k2));
            } else if p.0@ == k2 {
                assert(kv_get(t, k2) == Some(p.1@));
            } else {
                assert(kv_get(t, k2) is None);
            }
        }
    }
}

/// The persisted key-value table backing the user settings.
pub struct SettingsStore {
    entries: Vec<(String, String)>,
}

impl View for SettingsStore {
    type V = Seq<(String, String)>;

    /// The stored entries, in insertion order.
    closed spec fn view(&self) -> Seq<(String, String)> {
        self.entries@
    }
}

impl SettingsStore {
    /// The table's invariant: no key occurs twice.
    pub closed spec fn wf(&self) -> bool {
        forall|i: int, j: int| 0 <= i < j < self@.len() ==> self@[i].0@ != self@[j].0@
    }

    /// An empty settings table.
    pub fn new() -> (s: Self)
        ensures
            s.wf(),
            s@.len() == 0,
    {
        SettingsStore { entries: Vec::new() }
    }

    /// The value stored under a key, if any.
    pub fn get_setting(&self, key: &str) -> (r: Option<String>)
        ensures
            r matches Some(v) ==> kv_get(self@, key@) == Some(v@),
            r is None ==> kv_get(self@, key@) is None,
    {
        let ghost s = self@;
        let n = self.entries.len();
        let mut i: usize = 0;
        while i < n
            invariant
                0 <= i <= n,
                n == s.len(),
                s == self@,
                forall|j: int| 0 <= j < i ==> s[j].0@ != key@,
            decreases n - i,
        {
            if str_eq(self.entries[i].0.as_str(), key) {
                proof {
                    lemma_kv_skip(s, key@, i as int);
                    assert(s.skip(i as int)[0] == s[i as int]);
                }
                return Some(self.entries[i].1.clone());
            }
            i = i + 1;
        }
        proof {
            lemma_kv_skip(s, key@, n as int);
            assert(s.skip(n as int) =~= Seq::<(String, String)>::empty());
        }
        None
    }

    /// Store a value under a key, replacing any previous value. Every other
    /// key keeps its value.
    pub fn save_setting(&mut self, key: &str, value: &str)
        requires
            old(self).wf(),
        ensures
            final(self).wf(),
            kv_get(final(self)@, key@) == Some(value@),
            forall|k2: Seq<char>|
                k2 != key@ ==> #[trigger] kv_get(final(self)@, k2) == kv_get(old(self)@, k2),
    {
        let ghost s = self@;
        let n = self.entries.len();
        let mut i: usize = 0;
        while i < n
            invariant
                0 <= i <= n,
                n == s.len(),
                s == self@,
                old(self).wf(),
                s == old(self)@,
                forall|j: int| 0 <= j < i ==> s[j].0@ != key@,
            decreases n - i,
        {
            if str_eq(self.entries[i].0.as_str(), key) {
                let pair = self.entries.remove(i);
                self.entries.insert(i, (pair.0, value.to_owned()));
                proof {
                    let t = self@;
                    assert(t =~= s.update(i as int, t[i as int]));
                    assert(t[i as int].0@ == s[i as int].0@ && t[i as int].1@ == value@);
                    assert forall|k2: Seq<char>|
                        k2 != key@ implies #[trigger] kv_get(t, k2) == kv_get(s, k2) by {
                        lemma_kv_update(s, i as int, t[i as int], k2);
                    }
                    lemma_kv_update(s, i as int, t[i as int], key@);
                    assert forall|a: int, b: int| 0 <= a < b < t.len() implies t[a].0@
                        != t[b].0@ by {
                        assert(s[a].0@ != s[b].0@);
                        assert(t[a].0@ == s[a].0@ && t[b].0@ == s[b].0@);
                    }
                }
                return ;
            }
            i = i + 1;
        }
        self.entries.push((key.to_owned(), value.to_owned()));
        proof {
            let t = self@;
            assert(t == s.push(t[n as int]));
            assert(t[n as int].0@ == key@ && t[n as int].1@ == value@);
            lemma_kv_skip(s, key@, n as int);
            assert(s.skip(n as int) =~= Seq::<(String, String)>::empty());
            lemma_kv_push(s, t[n as int], key@);
            assert forall|k2: Seq<char>| k2 != key@ implies #[trigger] kv_get(t, k2) == kv_get(
                s,
                k2,
            ) by {
                lemma_kv_push(s, t[n as int], k2);
                if kv_get(s, k2) is None {
                }
            }
            assert forall|a: int, b: int| 0 <= a < b < t.len() implies t[a].0@ != t[b].0@ by {
                if b < n {
                    assert(s[a].0@ != s[b].0@);
                    assert(t[a].0@ == s[a].0@ && t[b].0@ == s[b].0@);
                } else {
                    assert(t[a].0@ == s[a].0@ && t[b].0@ == key@);
                }
            }
        }
    }
}

} // verus!
