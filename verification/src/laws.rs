//! The engine's stated laws: the version bound every commit upholds, the
//! queue's retry discipline, and the idempotence of a repeated sync.

use vstd::prelude::*;
use crate::collection::Collection;
use crate::engine::KeyVersion;
use crate::engine::spec_as_synced_col;
use crate::engine::spec_as_synced_item;
use crate::engine::spec_col_upload_idxs;
use crate::engine::spec_item_upload_idxs;
use crate::engine::spec_stale_col_keys;
use crate::engine::spec_stale_item_keys;
use crate::item::Item;
use crate::library::Library;
use crate::queue::SyncQueueEntry;
use crate::queue::spec_mark_completed;
use crate::queue::spec_mark_failed;
use crate::queue::spec_ready;
use crate::store::LocalStore;
use crate::store::spec_col_version;
use crate::store::spec_item_version;
use crate::types::spec_needs_upload;

verus! {

/// Every collection row in step with the remote has its version within
/// the bound.
pub open spec fn spec_cols_bounded(s: Seq<Collection>, v: int) -> bool {
    forall|i: int|
        0 <= i < s.len() && (#[trigger] s[i]).sync_status is Synced ==> s[i].version <= v
}

/// Every item row in step with the remote has its version within the
/// bound.
pub open spec fn spec_items_bounded(s: Seq<Item>, v: int) -> bool {
    forall|i: int|
        0 <= i < s.len() && (#[trigger] s[i]).sync_status is Synced ==> s[i].version <= v
}

/// Storing a fetched collection within the phase's version bound keeps
/// every synced row within it. The two hypotheses about the new table
/// are what `apply_downloaded_collection` ensures.
pub proof fn lemma_download_keeps_collection_bound(
    olds: Seq<Collection>,
    news: Seq<Collection>,
    c: Collection,
    v: int,
)
    requires
        spec_cols_bounded(olds, v),
        c.version <= v,
        forall|i: int|
            0 <= i < news.len() && (#[trigger] news[i]).key@ == c.key@ ==> news[i]
                == spec_as_synced_col(c),
        forall|i: int|
            0 <= i < news.len() && (#[trigger] news[i]).key@ != c.key@ ==> exists|j: int|
                0 <= j < olds.len() && olds[j] == news[i],
    ensures
        spec_cols_bounded(news, v),
{
    assert forall|i: int|
        0 <= i < news.len() && (#[trigger] news[i]).sync_status is Synced implies news[i].version
        <= v by {
        if news[i].key@ == c.key@ {
            assert(news[i] == spec_as_synced_col(c));
        } else {
            let j = choose|j: int| 0 <= j < olds.len() && olds[j] == news[i];
            assert(olds[j].sync_status is Synced);
        }
    }
}

/// Storing a fetched item within the phase's version bound keeps every
/// synced row within it.
pub proof fn lemma_download_keeps_item_bound(olds: Seq<Item>, news: Seq<Item>, c: Item, v: int)
    requires
        spec_items_bounded(olds, v),
        c.version <= v,
        forall|i: int|
            0 <= i < news.len() && (#[trigger] news[i]).key@ == c.key@ ==> news[i]
                == spec_as_synced_item(c),
        forall|i: int|
            0 <= i < news.len() && (#[trigger] news[i]).key@ != c.key@ ==> exists|j: int|
                0 <= j < olds.len() && olds[j] == news[i],
    ensures
        spec_items_bounded(news, v),
{
    assert forall|i: int|
        0 <= i < news.len() && (#[trigger] news[i]).sync_status is Synced implies news[i].version
        <= v by {
        if news[i].key@ == c.key@ {
            assert(news[i] == spec_as_synced_item(c));
        } else {
            let j = choose|j: int| 0 <= j < olds.len() && olds[j] == news[i];
            assert(olds[j].sync_status is Synced);
        }
    }
}

/// Rewriting one collection row — an accepted upload, a tombstone, a
/// stamp — keeps the bound, as long as the new row itself obeys it.
pub proof fn lemma_update_keeps_collection_bound(
    olds: Seq<Collection>,
    idx: int,
    row: Collection,
    v: int,
)
    requires
        spec_cols_bounded(olds, v),
        0 <= idx < olds.len(),
        row.sync_status is Synced ==> row.version <= v,
    ensures
        spec_cols_bounded(olds.update(idx, row), v),
{
    let news = olds.update(idx, row);
    assert forall|i: int|
        0 <= i < news.len() && (#[trigger] news[i]).sync_status is Synced implies news[i].version
        <= v by {
        if i != idx {
            assert(news[i] == olds[i]);
        }
    }
}

/// Rewriting one item row keeps the bound, as long as the new row itself
/// obeys it.
pub proof fn lemma_update_keeps_item_bound(olds: Seq<Item>, idx: int, row: Item, v: int)
    requires
        spec_items_bounded(olds, v),
        0 <= idx < olds.len(),
        row.sync_status is Synced ==> row.version <= v,
    ensures
        spec_items_bounded(olds.update(idx, row), v),
{
    let news = olds.update(idx, row);
    assert forall|i: int|
        0 <= i < news.len() && (#[trigger] news[i]).sync_status is Synced implies news[i].version
        <= v by {
        if i != idx {
            assert(news[i] == olds[i]);
        }
    }
}

/// Dropping a collection row keeps the bound.
pub proof fn lemma_remove_keeps_collection_bound(olds: Seq<Collection>, idx: int, v: int)
    requires
        spec_cols_bounded(olds, v),
        0 <= idx < olds.len(),
    ensures
        spec_cols_bounded(olds.remove(idx), v),
{
    let news = olds.remove(idx);
    assert forall|i: int|
        0 <= i < news.len() && (#[trigger] news[i]).sync_status is Synced implies news[i].version
        <= v by {
        if i < idx {
            assert(news[i] == olds[i]);
        } else {
            assert(news[i] == olds[i + 1]);
        }
    }
}

/// Dropping an item row keeps the bound.
pub proof fn lemma_remove_keeps_item_bound(olds: Seq<Item>, idx: int, v: int)
    requires
        spec_items_bounded(olds, v),
        0 <= idx < olds.len(),
    ensures
        spec_items_bounded(olds.remove(idx), v),
{
    let news = olds.remove(idx);
    assert forall|i: int|
        0 <= i < news.len() && (#[trigger] news[i]).sync_status is Synced implies news[i].version
        <= v by {
        if i < idx {
            assert(news[i] == olds[i]);
        } else {
            assert(news[i] == olds[i + 1]);
        }
    }
}

/// A bound survives a watermark's advance.
pub proof fn lemma_bound_advances_col(s: Seq<Collection>, v: int, w: int)
    requires
        spec_cols_bounded(s, v),
        v <= w,
    ensures
        spec_cols_bounded(s, w),
{
}

/// A bound survives a watermark's advance.
pub proof fn lemma_bound_advances_item(s: Seq<Item>, v: int, w: int)
    requires
        spec_items_bounded(s, v),
        v <= w,
    ensures
        spec_items_bounded(s, w),
{
}

/// After a sync's commit, every row in step with the remote has its
/// version within the library's matching resource watermark: the mirror
/// was kept within the phases' final versions, and the commit writes
/// exactly those versions into the record.
pub proof fn lemma_commit_version_bound(
    store: LocalStore,
    lib: Library,
    collection_version: i64,
    item_version: i64,
    tag_version: i64,
    now: i64,
)
    requires
        spec_cols_bounded(store.collections@, collection_version as int),
        spec_items_bounded(store.items@, item_version as int),
    ensures
        ({
            let committed = Library {
                collection_version,
                item_version,
                tag_version,
                modified: Some(now),
                is_modified: lib.is_modified || collection_version > lib.collection_version
                    || item_version > lib.item_version || tag_version > lib.tag_version,
                ..lib
            };
            spec_cols_bounded(store.collections@, committed.collection_version as int)
                && spec_items_bounded(store.items@, committed.item_version as int)
        }),
{
}

/// The queue's retry discipline: an entry is leased only while it is
/// unprocessed with retries left; failing a leased entry keeps its retry
/// count within its bound and the entry unprocessed, so the count can
/// never pass the bound; completing an entry freezes the count and makes
/// the entry terminal.
pub proof fn lemma_queue_retry_discipline(
    e: SyncQueueEntry,
    lease_now: i64,
    fail_now: i64,
    done_now: i64,
    err: String,
)
    requires
        spec_ready(e, lease_now),
    ensures
        e.processed_at is None,
        e.retry_count < e.max_retries,
        spec_mark_failed(e, fail_now, err).retry_count <= e.max_retries,
        spec_mark_failed(e, fail_now, err).processed_at is None,
        spec_mark_failed(e, fail_now, err).max_retries == e.max_retries,
        spec_mark_completed(e, done_now).retry_count == e.retry_count,
        spec_mark_completed(e, done_now).processed_at == Some(done_now),
{
}

/// A table with no new or modified row plans no collection upload.
pub proof fn lemma_no_collection_uploads(s: Seq<Collection>)
    requires
        forall|i: int| 0 <= i < s.len() ==> !spec_needs_upload((#[trigger] s[i]).sync_status),
    ensures
        spec_col_upload_idxs(s).len() == 0,
    decreases s.len(),
{
    if s.len() > 0 {
        assert(forall|i: int|
            0 <= i < s.drop_last().len() ==> s.drop_last()[i] == s[i]);
        lemma_no_collection_uploads(s.drop_last());
    }
}

/// A table with no new or modified row plans no item upload.
pub proof fn lemma_no_item_uploads(s: Seq<Item>)
    requires
        forall|i: int| 0 <= i < s.len() ==> !spec_needs_upload((#[trigger] s[i]).sync_status),
    ensures
        spec_item_upload_idxs(s).len() == 0,
    decreases s.len(),
{
    if s.len() > 0 {
        assert(forall|i: int|
            0 <= i < s.drop_last().len() ==> s.drop_last()[i] == s[i]);
        lemma_no_item_uploads(s.drop_last());
    }
}

/// A version map that reports nothing newer than the mirror selects no
/// collection to fetch.
pub proof fn lemma_no_collection_fetches(s: Seq<Collection>, remote: Seq<KeyVersion>)
    requires
        forall|i: int|
            0 <= i < remote.len() ==> spec_col_version(s, (#[trigger] remote[i]).key@)
                >= remote[i].version,
    ensures
        spec_stale_col_keys(s, remote).len() == 0,
    decreases remote.len(),
{
    if remote.len() > 0 {
        assert(forall|i: int|
            0 <= i < remote.drop_last().len() ==> remote.drop_last()[i] == remote[i]);
        lemma_no_collection_fetches(s, remote.drop_last());
        assert(remote[remote.len() - 1] == remote.last());
    }
}

/// A version map that reports nothing newer than the mirror selects no
/// item to fetch.
pub proof fn lemma_no_item_fetches(s: Seq<Item>, remote: Seq<KeyVersion>)
    requires
        forall|i: int|
            0 <= i < remote.len() ==> spec_item_version(s, (#[trigger] remote[i]).key@)
                >= remote[i].version,
    ensures
        spec_stale_item_keys(s, remote).len() == 0,
    decreases remote.len(),
{
    if remote.len() > 0 {
        assert(forall|i: int|
            0 <= i < remote.drop_last().len() ==> remote.drop_last()[i] == remote[i]);
        lemma_no_item_fetches(s, remote.drop_last());
        assert(remote[remote.len() - 1] == remote.last());
    }
}

/// Idempotence of a full sync: with every local row in step with the
/// remote and the remote's version maps reporting nothing newer than the
/// mirror, the sync plans no upload and fetches no entity — so after the
/// listing probes it issues no write — and a commit of the unchanged
/// watermarks leaves every watermark and the modified flag as they were.
pub proof fn lemma_sync_idempotent(
    store: LocalStore,
    lib: Library,
    remote_cols: Seq<KeyVersion>,
    remote_items: Seq<KeyVersion>,
    now: i64,
)
    requires
        forall|i: int|
            0 <= i < store.collections@.len() ==> !spec_needs_upload(
                (#[trigger] store.collections@[i]).sync_status,
            ),
        forall|i: int|
            0 <= i < store.items@.len() ==> !spec_needs_upload(
                (#[trigger] store.items@[i]).sync_status,
            ),
        forall|i: int|
            0 <= i < remote_cols.len() ==> spec_col_version(
                store.collections@,
                (#[trigger] remote_cols[i]).key@,
            ) >= remote_cols[i].version,
        forall|i: int|
            0 <= i < remote_items.len() ==> spec_item_version(
                store.items@,
                (#[trigger] remote_items[i]).key@,
            ) >= remote_items[i].version,
    ensures
        spec_col_upload_idxs(store.collections@).len() == 0,
        spec_item_upload_idxs(store.items@).len() == 0,
        spec_stale_col_keys(store.collections@, remote_cols).len() == 0,
        spec_stale_item_keys(store.items@, remote_items).len() == 0,
        ({
            let committed = Library {
                collection_version: lib.collection_version,
                item_version: lib.item_version,
                tag_version: lib.tag_version,
                modified: Some(now),
                is_modified: lib.is_modified || lib.collection_version > lib.collection_version
                    || lib.item_version > lib.item_version || lib.tag_version > lib.tag_version,
                ..lib
            };
            committed.collection_version == lib.collection_version && committed.item_version
                == lib.item_version && committed.tag_version == lib.tag_version
                && committed.is_modified == lib.is_modified
        }),
{
    lemma_no_collection_uploads(store.collections@);
    lemma_no_item_uploads(store.items@);
    lemma_no_collection_fetches(store.collections@, remote_cols);
    lemma_no_item_fetches(store.items@, remote_items);
}

} // verus!
