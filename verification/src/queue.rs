//! The outbound queue: entries that database triggers record for local
//! mutations of items and collections in event-driven libraries. The
//! queue table lives in the relational store; these functions carry its
//! exact semantics — readiness, leasing order, completion, exponential
//! backoff and cleanup — on plain values, and the outside SQL mirrors
//! them.

use vstd::prelude::*;
use crate::types::LibraryType;

verus! {

/// One pending outbound mutation; times are seconds since the epoch.
/// `processed_at` set means the entry is terminal.
#[derive(Debug, Clone, PartialEq)]
pub struct SyncQueueEntry {
    pub id: i64,
    pub entity_type: String,
    pub entity_key: String,
    pub library_id: i64,
    pub library_type: LibraryType,
    pub operation: String,
    pub priority: i32,
    pub retry_count: i32,
    pub max_retries: i32,
    pub next_retry_at: i64,
    pub last_error: Option<String>,
    pub created_at: i64,
    pub processed_at: Option<i64>,
}

/// Counts of the queue's entries for monitoring.
#[derive(Debug, Clone, PartialEq)]
pub struct QueueStats {
    pub pending: i64,
    pub processed: i64,
    pub failed: i64,
}

/// Whether an entry is ready to be leased: not yet processed, retries
/// left, and its backoff pause over.
pub open spec fn spec_ready(e: SyncQueueEntry, now: i64) -> bool {
    e.processed_at is None && e.retry_count < e.max_retries && e.next_retry_at <= now
}

/// Decides whether an entry is ready to be leased.
pub fn is_ready(e: &SyncQueueEntry, now: i64) -> (r: bool)
    ensures
        r == spec_ready(*e, now),
{
    match e.processed_at {
        Some(_) => false,
        None => e.retry_count < e.max_retries && e.next_retry_at <= now,
    }
}

/// The leasing order: higher priority first, older creation first among
/// equals.
pub open spec fn spec_before(a: SyncQueueEntry, b: SyncQueueEntry) -> bool {
    a.priority > b.priority || (a.priority == b.priority && a.created_at < b.created_at)
}

/// Decides the leasing order.
pub fn comes_before(a: &SyncQueueEntry, b: &SyncQueueEntry) -> (r: bool)
    ensures
        r == spec_before(*a, *b),
{
    a.priority > b.priority || (a.priority == b.priority && a.created_at < b.created_at)
}

/// Whether a place list holds the given place.
fn idx_contained(s: &Vec<usize>, v: usize) -> (r: bool)
    ensures
        r <==> exists|a: int| 0 <= a < s@.len() && s@[a] == v,
{
    let n = s.len();
    let mut i: usize = 0;
    while i < n
        invariant
            n == s@.len(),
            i <= n,
            forall|a: int| 0 <= a < i ==> s@[a] != v,
        decreases n - i,
    {
        if s[i] == v {
            return true;
        }
        i = i + 1;
    }
    false
}

/// Leases up to `batch_size` ready entries, capped at fifty (the remote's
/// batch bound), in leasing order: highest priority first, oldest first
/// among equals. A zero batch leases nothing. The result names places in
/// the given snapshot; no place repeats, every named entry is ready, no
/// ready entry left out comes strictly before a leased one, and the lease
/// is as large as the ready entries and the cap allow.
pub fn fetch_pending(entries: &Vec<SyncQueueEntry>, now: i64, batch_size: usize) -> (r: Vec<usize>)
    ensures
        r@.len() <= batch_size,
        r@.len() <= 50,
        forall|a: int| 0 <= a < r@.len() ==> (#[trigger] r@[a]) < entries@.len(),
        forall|a: int|
            0 <= a < r@.len() ==> spec_ready(entries@[#[trigger] r@[a] as int], now),
        forall|a: int, b: int| 0 <= a < b < r@.len() ==> r@[a] != r@[b],
        forall|a: int, b: int|
            0 <= a < b < r@.len() ==> !spec_before(
                entries@[#[trigger] r@[b] as int],
                entries@[#[trigger] r@[a] as int],
            ),
        forall|i: int|
            0 <= i < entries@.len() && spec_ready(#[trigger] entries@[i], now) && (forall|a: int|
                0 <= a < r@.len() ==> #[trigger] r@[a] != i) ==> (forall|a: int|
                0 <= a < r@.len() ==> !spec_before(
                    entries@[i],
                    entries@[#[trigger] r@[a] as int],
                )),
        (r@.len() < batch_size && r@.len() < 50) ==> forall|i: int|
            0 <= i < entries@.len() && spec_ready(#[trigger] entries@[i], now) ==> exists|a: int|
                0 <= a < r@.len() && r@[a] == i,
{
    let limit: usize = if batch_size < 50 {
        batch_size
    } else {
        50
    };
    let n = entries.len();
    let mut picked: Vec<usize> = Vec::new();
    while picked.len() < limit
        invariant
            limit <= batch_size,
            limit <= 50,
            n == entries@.len(),
            picked@.len() <= limit,
            forall|a: int| 0 <= a < picked@.len() ==> (#[trigger] picked@[a]) < n,
            forall|a: int|
                0 <= a < picked@.len() ==> spec_ready(entries@[#[trigger] picked@[a] as int], now),
            forall|a: int, b: int| 0 <= a < b < picked@.len() ==> picked@[a] != picked@[b],
            forall|a: int|
                0 <= a < picked@.len() ==> forall|i: int|
                    0 <= i < n && spec_ready(#[trigger] entries@[i], now) && (forall|c: int|
                        0 <= c < picked@.len() ==> #[trigger] picked@[c] != i) ==> !spec_before(
                        entries@[i],
                        entries@[#[trigger] picked@[a] as int],
                    ),
            forall|a: int, b: int|
                0 <= a < b < picked@.len() ==> !spec_before(
                    entries@[#[trigger] picked@[b] as int],
                    entries@[#[trigger] picked@[a] as int],
                ),
        decreases limit - picked.len(),
    {
        let ghost picked_before = picked@;
        let mut best: Option<usize> = None;
        let mut i: usize = 0;
        while i < n
            invariant
                n == entries@.len(),
                i <= n,
                forall|a: int| 0 <= a < picked@.len() ==> (#[trigger] picked@[a]) < n,
                match best {
                    Some(b) => b < n && spec_ready(entries@[b as int], now) && (forall|c: int|
                        0 <= c < picked@.len() ==> #[trigger] picked@[c] != b) && (forall|j: int|
                        0 <= j < i && spec_ready(#[trigger] entries@[j], now) && (forall|c: int|
                            0 <= c < picked@.len() ==> #[trigger] picked@[c] != j)
                            ==> !spec_before(entries@[j], entries@[b as int])),
                    None => forall|j: int|
                        0 <= j < i ==> !(spec_ready(#[trigger] entries@[j], now) && (forall|c: int|
                            0 <= c < picked@.len() ==> #[trigger] picked@[c] != j)),
                },
            decreases n - i,
        {
            if is_ready(&entries[i], now) && !idx_contained(&picked, i) {
                let take = match best {
                    Some(b) => comes_before(&entries[i], &entries[b]),
                    None => true,
                };
                if take {
                    best = Some(i);
                }
            }
            i = i + 1;
        }
        match best {
            Some(b) => {
                picked.push(b);
                proof {
                    assert(picked@ == picked_before.push(b));
                    assert forall|a: int, i: int|
                        0 <= a < picked@.len() && 0 <= i < n && spec_ready(entries@[i], now) && (
                        forall|c: int| 0 <= c < picked@.len() ==> #[trigger] picked@[c] != i)
                        implies !spec_before(
                        entries@[i],
                        entries@[picked@[a] as int],
                    ) by {
                        assert forall|c: int|
                            0 <= c < picked_before.len() implies #[trigger] picked_before[c]
                            != i by {
                            assert(picked@[c] == picked_before[c]);
                        }
                        if a < picked_before.len() {
                            assert(picked@[a] == picked_before[a]);
                        } else {
                            assert(picked@[a] == b);
                        }
                    }
                }
            },
            None => {
                proof {
                    assert forall|i: int|
                        0 <= i < n && spec_ready(#[trigger] entries@[i], now) implies exists|a: int|
                        0 <= a < picked@.len() && picked@[a] == i by {
                        if forall|c: int| 0 <= c < picked@.len() ==> #[trigger] picked@[c] != i {
                            assert(false);
                        }
                    }
                }
                return picked;
            },
        }
    }
    picked
}

/// An entry after its work succeeded: stamped processed now, everything
/// else kept; a processed entry is terminal.
pub open spec fn spec_mark_completed(e: SyncQueueEntry, now: i64) -> SyncQueueEntry {
    SyncQueueEntry { processed_at: Some(now), ..e }
}

/// Stamps an entry processed.
pub fn mark_completed(e: SyncQueueEntry, now: i64) -> (r: SyncQueueEntry)
    ensures
        r == spec_mark_completed(e, now),
{
    SyncQueueEntry { processed_at: Some(now), ..e }
}

/// Two to the given power.
pub open spec fn spec_pow2(k: int) -> int
    decreases k,
{
    if k <= 0 {
        1
    } else {
        2 * spec_pow2(k - 1)
    }
}

/// An entry after its work failed: the retry count up by one, the error
/// recorded, and the next try pushed out by `2^retry_count` minutes —
/// one, two, four, eight minutes and so on.
pub open spec fn spec_mark_failed(e: SyncQueueEntry, now: i64, error: String) -> SyncQueueEntry {
    SyncQueueEntry {
        retry_count: (e.retry_count + 1) as i32,
        last_error: Some(error),
        next_retry_at: (now + 60 * spec_pow2(e.retry_count as int)) as i64,
        ..e
    }
}

/// Records a failure on an entry with exponential backoff.
pub fn mark_failed(e: SyncQueueEntry, now: i64, error: String) -> (r: SyncQueueEntry)
    requires
        0 <= e.retry_count <= 30,
        0 <= now,
        now <= i64::MAX - 60 * 0x4000_0000,
    ensures
        r == spec_mark_failed(e, now, error),
        r.retry_count == e.retry_count + 1,
        r.next_retry_at == now + 60 * spec_pow2(e.retry_count as int),
{
    let mut p: i64 = 1;
    let mut k: i32 = 0;
    while k < e.retry_count
        invariant
            0 <= k <= e.retry_count <= 30,
            p == spec_pow2(k as int),
            1 <= p,
            p <= 0x4000_0000,
        decreases e.retry_count - k,
    {
        proof {
            lemma_pow2_mono(k as int + 1, 30);
            lemma_pow2_30();
            lemma_pow2_pos(k as int);
        }
        p = p * 2;
        k = k + 1;
    }
    let retry_count = e.retry_count + 1;
    let next_retry_at = now + 60 * p;
    SyncQueueEntry { retry_count, last_error: Some(error), next_retry_at, ..e }
}

/// A power of two is at least one.
proof fn lemma_pow2_pos(k: int)
    ensures
        1 <= spec_pow2(k),
    decreases
        if k > 0 {
            k
        } else {
            0
        },
{
    if k > 0 {
        lemma_pow2_pos(k - 1);
    }
}

/// Powers of two grow with the exponent.
proof fn lemma_pow2_mono(a: int, b: int)
    requires
        a <= b,
    ensures
        spec_pow2(a) <= spec_pow2(b),
    decreases b - a,
{
    if a < b {
        lemma_pow2_mono(a, b - 1);
        lemma_pow2_pos(b - 1);
    }
}

/// The thirtieth power of two, written out.
proof fn lemma_pow2_30()
    ensures
        spec_pow2(30) == 0x4000_0000,
{
    reveal_with_fuel(spec_pow2, 32);
}

/// Whether a processed entry has outlived the retention window that ends
/// at `cutoff`.
pub open spec fn spec_expired(e: SyncQueueEntry, cutoff: int) -> bool {
    match e.processed_at {
        Some(t) => t < cutoff,
        None => false,
    }
}

/// Selects the entries that cleanup removes: those processed before the
/// retention window of the given days, counted back from now.
pub fn cleanup_expired(entries: &Vec<SyncQueueEntry>, now: i64, days_to_keep: i32) -> (r: Vec<
    usize,
>)
    requires
        0 <= days_to_keep,
        i64::MIN + 86400 * 0x8000_0000 <= now,
    ensures
        forall|a: int| 0 <= a < r@.len() ==> (#[trigger] r@[a]) < entries@.len(),
        forall|a: int|
            0 <= a < r@.len() ==> spec_expired(
                entries@[#[trigger] r@[a] as int],
                now - 86400 * days_to_keep,
            ),
        forall|i: int|
            0 <= i < entries@.len() && spec_expired(
                #[trigger] entries@[i],
                now - 86400 * days_to_keep,
            ) ==> exists|a: int| 0 <= a < r@.len() && r@[a] == i,
        forall|a: int, b: int| 0 <= a < b < r@.len() ==> r@[a] < r@[b],
    {
    let cutoff: i64 = now - 86400 * (days_to_keep as i64);
    let n = entries.len();
    let mut r: Vec<usize> = Vec::new();
    let mut i: usize = 0;
    while i < n
        invariant
            n == entries@.len(),
            i <= n,
            forall|a: int| 0 <= a < r@.len() ==> (#[trigger] r@[a]) < i,
            forall|a: int|
                0 <= a < r@.len() ==> spec_expired(
                    entries@[#[trigger] r@[a] as int],
                    cutoff as int,
                ),
            forall|j: int|
                0 <= j < i && spec_expired(#[trigger] entries@[j], cutoff as int) ==> exists|a: int|
                    0 <= a < r@.len() && r@[a] == j,
            forall|a: int, b: int| 0 <= a < b < r@.len() ==> r@[a] < r@[b],
        decreases n - i,
    {
        let expired = match entries[i].processed_at {
            Some(t) => t < cutoff,
            None => false,
        };
        let ghost before = r@;
        if expired {
            r.push(i);
        }
        proof {
            assert forall|j: int|
                0 <= j < i + 1 && spec_expired(#[trigger] entries@[j], cutoff as int) implies exists|
                    a: int,
                |
                0 <= a < r@.len() && r@[a] == j by {
                if j < i {
                    let w = choose|a: int| 0 <= a < before.len() && before[a] == j;
                    assert(r@[w] == j);
                } else {
                    assert(r@[before.len() as int] == i as usize);
                }
            }
        }
        i = i + 1;
    }
    r
}

/// Counts the queue's entries: pending (unprocessed with retries left),
/// processed, and failed (unprocessed with retries exhausted).
pub open spec fn spec_count_pending(s: Seq<SyncQueueEntry>) -> int
    decreases s.len(),
{
    if s.len() == 0 {
        0int
    } else {
        spec_count_pending(s.drop_last()) + if s.last().processed_at is None && s.last().retry_count
            < s.last().max_retries {
            1int
        } else {
            0int
        }
    }
}

/// Counts the processed entries.
pub open spec fn spec_count_processed(s: Seq<SyncQueueEntry>) -> int
    decreases s.len(),
{
    if s.len() == 0 {
        0int
    } else {
        spec_count_processed(s.drop_last()) + if s.last().processed_at is Some {
            1int
        } else {
            0int
        }
    }
}

/// Counts the failed entries: unprocessed with retries exhausted.
pub open spec fn spec_count_failed(s: Seq<SyncQueueEntry>) -> int
    decreases s.len(),
{
    if s.len() == 0 {
        0int
    } else {
        spec_count_failed(s.drop_last()) + if s.last().processed_at is None && s.last().retry_count
            >= s.last().max_retries {
            1int
        } else {
            0int
        }
    }
}

/// Takes the queue's monitoring counts.
pub fn get_stats(entries: &Vec<SyncQueueEntry>) -> (r: QueueStats)
    requires
        entries@.len() <= 0x7fff_ffff,
    ensures
        r.pending == spec_count_pending(entries@),
        r.processed == spec_count_processed(entries@),
        r.failed == spec_count_failed(entries@),
{
    let n = entries.len();
    let mut pending: i64 = 0;
    let mut processed: i64 = 0;
    let mut failed: i64 = 0;
    let mut i: usize = 0;
    proof {
        assert(entries@.subrange(0, 0) =~= Seq::<SyncQueueEntry>::empty());
    }
    while i < n
        invariant
            n == entries@.len(),
            n <= 0x7fff_ffff,
            i <= n,
            pending == spec_count_pending(entries@.subrange(0, i as int)),
            processed == spec_count_processed(entries@.subrange(0, i as int)),
            failed == spec_count_failed(entries@.subrange(0, i as int)),
            0 <= pending <= i,
            0 <= processed <= i,
            0 <= failed <= i,
        decreases n - i,
    {
        proof {
            let pre = entries@.subrange(0, i + 1 as int);
            assert(pre.drop_last() =~= entries@.subrange(0, i as int));
            assert(pre.last() == entries@[i as int]);
            lemma_count_bounds(entries@.subrange(0, i + 1 as int));
        }
        let e = &entries[i];
        match e.processed_at {
            Some(_) => {
                processed = processed + 1;
            },
            None => {
                if e.retry_count < e.max_retries {
                    pending = pending + 1;
                } else {
                    failed = failed + 1;
                }
            },
        }
        i = i + 1;
    }
    proof {
        assert(entries@.subrange(0, n as int) =~= entries@);
    }
    QueueStats { pending, processed, failed }
}

/// Each count stays within the queue's length.
proof fn lemma_count_bounds(s: Seq<SyncQueueEntry>)
    ensures
        0 <= spec_count_pending(s) <= s.len(),
        0 <= spec_count_processed(s) <= s.len(),
        0 <= spec_count_failed(s) <= s.len(),
    decreases s.len(),
{
    if s.len() > 0 {
        lemma_count_bounds(s.drop_last());
    }
}

/// The libraries that hold a ready entry and sync event-driven: each
/// such library once, and no other.
pub fn libraries_with_pending(
    entries: &Vec<SyncQueueEntry>,
    event_libs: &Vec<(i64, LibraryType)>,
    now: i64,
) -> (r: Vec<(i64, LibraryType)>)
    ensures
        forall|a: int, b: int| 0 <= a < b < r@.len() ==> r@[a] != r@[b],
        forall|a: int|
            0 <= a < r@.len() ==> (exists|i: int|
                0 <= i < entries@.len() && spec_ready(#[trigger] entries@[i], now) && (
                entries@[i].library_id, entries@[i].library_type) == r@[a]) && event_libs@.contains(
                #[trigger] r@[a],
            ),
        forall|i: int|
            0 <= i < entries@.len() && spec_ready(#[trigger] entries@[i], now)
                && event_libs@.contains((entries@[i].library_id, entries@[i].library_type))
                ==> r@.contains((entries@[i].library_id, entries@[i].library_type)),
{
    let n = entries.len();
    let mut r: Vec<(i64, LibraryType)> = Vec::new();
    let mut i: usize = 0;
    while i < n
        invariant
            n == entries@.len(),
            i <= n,
            forall|a: int, b: int| 0 <= a < b < r@.len() ==> r@[a] != r@[b],
            forall|a: int|
                0 <= a < r@.len() ==> (exists|j: int|
                    0 <= j < entries@.len() && spec_ready(#[trigger] entries@[j], now) && (
                    entries@[j].library_id, entries@[j].library_type) == r@[a])
                    && event_libs@.contains(#[trigger] r@[a]),
            forall|j: int|
                0 <= j < i && spec_ready(#[trigger] entries@[j], now) && event_libs@.contains(
                    (entries@[j].library_id, entries@[j].library_type),
                ) ==> r@.contains((entries@[j].library_id, entries@[j].library_type)),
        decreases n - i,
    {
        let ghost rs_before = r@;
        let lib = (entries[i].library_id, entries[i].library_type);
        if is_ready(&entries[i], now) && pair_contained(event_libs, lib) && !pair_contained(
            &r,
            lib,
        ) {
            r.push(lib);
            proof {
                assert(r@[rs_before.len() as int] == lib);
                assert(spec_ready(entries@[i as int], now));
                assert((entries@[i as int].library_id, entries@[i as int].library_type) == lib);
                assert forall|a: int|
                    0 <= a < r@.len() implies (exists|j: int|
                    0 <= j < entries@.len() && spec_ready(#[trigger] entries@[j], now) && (
                    entries@[j].library_id, entries@[j].library_type) == r@[a])
                    && event_libs@.contains(#[trigger] r@[a]) by {
                    if a < rs_before.len() {
                        assert(r@[a] == rs_before[a]);
                    } else {
                        assert(r@[a] == lib);
                        assert(0 <= i < entries@.len() && spec_ready(entries@[i as int], now) && (
                        entries@[i as int].library_id, entries@[i as int].library_type) == r@[a]);
                    }
                }
                assert forall|j: int|
                    0 <= j < i + 1 && spec_ready(#[trigger] entries@[j], now)
                        && event_libs@.contains(
                        (entries@[j].library_id, entries@[j].library_type),
                    ) implies r@.contains((entries@[j].library_id, entries@[j].library_type)) by {
                    let p = (entries@[j].library_id, entries@[j].library_type);
                    if j < i {
                        assert(rs_before.contains(p));
                        let w = choose|a: int| 0 <= a < rs_before.len() && rs_before[a] == p;
                        assert(r@[w] == p);
                    } else {
                        assert(r@[rs_before.len() as int] == p);
                    }
                }
            }
        } else {
            proof {
                if spec_ready(entries@[i as int], now) && event_libs@.contains(lib) {
                    assert(exists|a: int| 0 <= a < r@.len() && r@[a] == lib);
                }
            }
        }
        i = i + 1;
    }
    proof {
        assert forall|a: int| 0 <= a < r@.len() implies (exists|i: int|
            0 <= i < entries@.len() && spec_ready(#[trigger] entries@[i], now) && (
            entries@[i].library_id, entries@[i].library_type) == #[trigger] r@[a]) by {
            let w = choose|j: int|
                0 <= j < entries@.len() && spec_ready(#[trigger] entries@[j], now) && (
                entries@[j].library_id, entries@[j].library_type) == r@[a];
            assert(0 <= w < entries@.len() && spec_ready(entries@[w], now) && (
            entries@[w].library_id, entries@[w].library_type) == r@[a]);
        }
    }
    r
}

/// Whether a pair list holds the given pair.
fn pair_contained(s: &Vec<(i64, LibraryType)>, v: (i64, LibraryType)) -> (r: bool)
    ensures
        r <==> s@.contains(v),
{
    let n = s.len();
    let mut i: usize = 0;
    while i < n
        invariant
            n == s@.len(),
            i <= n,
            forall|a: int| 0 <= a < i ==> s@[a] != v,
        decreases n - i,
    {
        if s[i].0 == v.0 && s[i].1 == v.1 {
            proof {
                assert(s@[i as int] == v);
            }
            return true;
        }
        i = i + 1;
    }
    proof {
        if s@.contains(v) {
            let w = choose|a: int| 0 <= a < s@.len() && s@[a] == v;
            assert(s@[w] != v);
        }
    }
    false
}

} // verus!
