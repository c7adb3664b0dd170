//! The per-library sync engine. A full sync runs five ordered phases —
//! collections, item upload, item download, tags, deletions — and then
//! commits the advanced watermarks. The functions here plan each phase's
//! work from the mirror and the remote's version maps, and fold each
//! remote answer back into the mirror; the transport outside only carries
//! requests and answers between them.

use vstd::prelude::*;
use crate::collection::Collection;
use crate::item::Item;
use crate::library::Library;
use crate::protocol::WriteOutcome;
use crate::store::LocalStore;
use crate::store::TagRow;
use crate::store::lemma_col_key_unique;
use crate::store::lemma_item_key_unique;
use crate::store::spec_col_index;
use crate::store::spec_col_version;
use crate::store::spec_item_index;
use crate::store::spec_item_version;
use crate::types::SyncStatus;
use crate::types::Tag;
use crate::types::TagMeta;
use crate::types::spec_needs_upload;

verus! {

/// One entry of a remote version map: an entity key and the version the
/// remote holds for it.
#[derive(Debug, Clone, PartialEq)]
pub struct KeyVersion {
    pub key: String,
    pub version: i64,
}

/// How an upload phase goes on after one write's outcome: to the next
/// entity, or aborting the phase on a version conflict.
#[derive(Debug, Clone, Copy, PartialEq, Eq, Structural)]
pub enum PhaseStep {
    Continue,
    AbortConflict,
}

/// The work a full sync has before it, phase by phase, under the
/// library's policy.
#[derive(Debug, Clone, Copy, PartialEq, Eq, Structural)]
pub struct PhasePlan {
    pub collections: bool,
    pub upload_items: bool,
    pub download_items: bool,
    pub tags: bool,
    pub deletions: bool,
}

/// Plans the phases of a full sync: a library whose policy is `Off` gets
/// none; uploads and downloads follow the policy; tags also ask for the
/// library's tag flag; deletions ride with downloads.
pub fn plan_phases(lib: &Library) -> (r: PhasePlan)
    ensures
        r.collections == !(lib.sync_direction is Off),
        r.upload_items == (lib.sync_direction is ToCloud || lib.sync_direction is BothCloud
            || lib.sync_direction is BothLocal || lib.sync_direction is BothManual),
        r.download_items == (lib.sync_direction is ToLocal || lib.sync_direction is BothCloud
            || lib.sync_direction is BothLocal || lib.sync_direction is BothManual),
        r.tags == ((lib.sync_direction is ToLocal || lib.sync_direction is BothCloud
            || lib.sync_direction is BothLocal || lib.sync_direction is BothManual)
            && lib.sync_tags),
        r.deletions == (lib.sync_direction is ToLocal || lib.sync_direction is BothCloud
            || lib.sync_direction is BothLocal || lib.sync_direction is BothManual),
{
    let up = lib.can_upload();
    let down = lib.can_download();
    let off = match lib.sync_direction {
        crate::types::SyncDirection::Off => true,
        _ => false,
    };
    PhasePlan {
        collections: !off,
        upload_items: up,
        download_items: down,
        tags: down && lib.sync_tags,
        deletions: down,
    }
}

/// The watermark after seeing a listing's version: it only ever advances.
pub fn advance_version(current: i64, lmv: i64) -> (r: i64)
    ensures
        r == if lmv > current {
            lmv
        } else {
            current
        },
{
    if lmv > current {
        lmv
    } else {
        current
    }
}

/// The places of the collection rows an upload phase must push: the rows
/// whose state is new or modified, in table order, which is ascending key
/// order.
pub open spec fn spec_col_upload_idxs(s: Seq<Collection>) -> Seq<usize>
    decreases s.len(),
{
    if s.len() == 0 {
        Seq::empty()
    } else {
        spec_col_upload_idxs(s.drop_last()) + if spec_needs_upload(s.last().sync_status) {
            seq![(s.len() - 1) as usize]
        } else {
            Seq::empty()
        }
    }
}

/// The places of the item rows an upload phase must push.
pub open spec fn spec_item_upload_idxs(s: Seq<Item>) -> Seq<usize>
    decreases s.len(),
{
    if s.len() == 0 {
        Seq::empty()
    } else {
        spec_item_upload_idxs(s.drop_last()) + if spec_needs_upload(s.last().sync_status) {
            seq![(s.len() - 1) as usize]
        } else {
            Seq::empty()
        }
    }
}

/// Selects the collection rows an upload phase must push.
pub fn collections_to_upload(store: &LocalStore) -> (r: Vec<usize>)
    ensures
        r@ == spec_col_upload_idxs(store.collections@),
{
    let n = store.collections.len();
    let mut r: Vec<usize> = Vec::new();
    let mut i: usize = 0;
    proof {
        assert(store.collections@.subrange(0, 0) =~= Seq::<Collection>::empty());
    }
    while i < n
        invariant
            n == store.collections@.len(),
            i <= n,
            r@ == spec_col_upload_idxs(store.collections@.subrange(0, i as int)),
        decreases n - i,
    {
        proof {
            let pre = store.collections@.subrange(0, i + 1 as int);
            assert(pre.drop_last() =~= store.collections@.subrange(0, i as int));
            assert(pre.last() == store.collections@[i as int]);
        }
        if store.collections[i].sync_status.needs_upload() {
            r.push(i);
        }
        i = i + 1;
    }
    proof {
        assert(store.collections@.subrange(0, n as int) =~= store.collections@);
    }
    r
}

/// Selects the item rows an upload phase must push.
pub fn items_to_upload(store: &LocalStore) -> (r: Vec<usize>)
    ensures
        r@ == spec_item_upload_idxs(store.items@),
{
    let n = store.items.len();
    let mut r: Vec<usize> = Vec::new();
    let mut i: usize = 0;
    proof {
        assert(store.items@.subrange(0, 0) =~= Seq::<Item>::empty());
    }
    while i < n
        invariant
            n == store.items@.len(),
            i <= n,
            r@ == spec_item_upload_idxs(store.items@.subrange(0, i as int)),
        decreases n - i,
    {
        proof {
            let pre = store.items@.subrange(0, i + 1 as int);
            assert(pre.drop_last() =~= store.items@.subrange(0, i as int));
            assert(pre.last() == store.items@[i as int]);
        }
        if store.items[i].sync_status.needs_upload() {
            r.push(i);
        }
        i = i + 1;
    }
    proof {
        assert(store.items@.subrange(0, n as int) =~= store.items@);
    }
    r
}

/// The keys of a remote collection version map whose local row is older
/// than the remote's version (a key with no row counts as version zero).
pub open spec fn spec_stale_col_keys(s: Seq<Collection>, remote: Seq<KeyVersion>) -> Seq<Seq<char>>
    decreases remote.len(),
{
    if remote.len() == 0 {
        Seq::empty()
    } else {
        spec_stale_col_keys(s, remote.drop_last()) + if spec_col_version(s, remote.last().key@)
            < remote.last().version {
            seq![remote.last().key@]
        } else {
            Seq::empty()
        }
    }
}

/// The keys of a remote item version map whose local row is older than
/// the remote's version.
pub open spec fn spec_stale_item_keys(s: Seq<Item>, remote: Seq<KeyVersion>) -> Seq<Seq<char>>
    decreases remote.len(),
{
    if remote.len() == 0 {
        Seq::empty()
    } else {
        spec_stale_item_keys(s, remote.drop_last()) + if spec_item_version(s, remote.last().key@)
            < remote.last().version {
            seq![remote.last().key@]
        } else {
            Seq::empty()
        }
    }
}

/// Selects, from a remote collection version map, the keys a download
/// phase must fetch: exactly those whose local version is behind.
pub fn collections_to_fetch(store: &LocalStore, remote: &Vec<KeyVersion>) -> (r: Vec<String>)
    requires
        store.wf(),
    ensures
        r@.map_values(|k: String| k@) == spec_stale_col_keys(store.collections@, remote@),
{
    let n = remote.len();
    let mut r: Vec<String> = Vec::new();
    let mut i: usize = 0;
    proof {
        assert(remote@.subrange(0, 0) =~= Seq::<KeyVersion>::empty());
        assert(r@.map_values(|k: String| k@) =~= spec_stale_col_keys(
            store.collections@,
            remote@.subrange(0, 0),
        ));
    }
    while i < n
        invariant
            store.wf(),
            n == remote@.len(),
            i <= n,
            r@.map_values(|k: String| k@) == spec_stale_col_keys(
                store.collections@,
                remote@.subrange(0, i as int),
            ),
        decreases n - i,
    {
        proof {
            let pre = remote@.subrange(0, i + 1 as int);
            assert(pre.drop_last() =~= remote@.subrange(0, i as int));
            assert(pre.last() == remote@[i as int]);
        }
        let local = store.collection_version(remote[i].key.as_str());
        if local < remote[i].version {
            let ghost before = r@;
            r.push(remote[i].key.clone());
            proof {
                assert(r@.map_values(|k: String| k@) =~= before.map_values(|k: String| k@)
                    + seq![remote@[i as int].key@]);
            }
        }
        i = i + 1;
    }
    proof {
        assert(remote@.subrange(0, n as int) =~= remote@);
    }
    r
}

/// Selects, from a remote item version map, the keys a download phase
/// must fetch: exactly those whose local version is behind.
pub fn items_to_fetch(store: &LocalStore, remote: &Vec<KeyVersion>) -> (r: Vec<String>)
    requires
        store.wf(),
    ensures
        r@.map_values(|k: String| k@) == spec_stale_item_keys(store.items@, remote@),
{
    let n = remote.len();
    let mut r: Vec<String> = Vec::new();
    let mut i: usize = 0;
    proof {
        assert(remote@.subrange(0, 0) =~= Seq::<KeyVersion>::empty());
        assert(r@.map_values(|k: String| k@) =~= spec_stale_item_keys(
            store.items@,
            remote@.subrange(0, 0),
        ));
    }
    while i < n
        invariant
            store.wf(),
            n == remote@.len(),
            i <= n,
            r@.map_values(|k: String| k@) == spec_stale_item_keys(
                store.items@,
                remote@.subrange(0, i as int),
            ),
        decreases n - i,
    {
        proof {
            let pre = remote@.subrange(0, i + 1 as int);
            assert(pre.drop_last() =~= remote@.subrange(0, i as int));
            assert(pre.last() == remote@[i as int]);
        }
        let local = store.item_version(remote[i].key.as_str());
        if local < remote[i].version {
            let ghost before = r@;
            r.push(remote[i].key.clone());
            proof {
                assert(r@.map_values(|k: String| k@) =~= before.map_values(|k: String| k@)
                    + seq![remote@[i as int].key@]);
            }
        }
        i = i + 1;
    }
    proof {
        assert(remote@.subrange(0, n as int) =~= remote@);
    }
    r
}

/// Cuts a key list of the given length into fetch batches: each batch
/// spans at most fifty keys, the batches cover the list in order, and an
/// empty list gets no batch — so no request is issued for it.
pub fn fetch_batch_bounds(n: usize) -> (r: Vec<(usize, usize)>)
    requires
        n <= usize::MAX - 50,
    ensures
        n == 0 ==> r@.len() == 0,
        forall|a: int|
            0 <= a < r@.len() ==> (#[trigger] r@[a]).0 == 50 * a && r@[a].1 == if 50 * a + 50 <= n {
                50 * a + 50
            } else {
                n as int
            },
        r@.len() * 50 >= n,
        forall|a: int| 0 <= a < r@.len() ==> (#[trigger] r@[a]).0 < r@[a].1 <= n,
{
    let mut r: Vec<(usize, usize)> = Vec::new();
    let mut s: usize = 0;
    while s < n
        invariant
            n <= usize::MAX - 50,
            s <= n + 49,
            s == r@.len() * 50,
            forall|a: int|
                0 <= a < r@.len() ==> (#[trigger] r@[a]).0 == 50 * a && r@[a].1 == if 50 * a + 50
                    <= n {
                    50 * a + 50
                } else {
                    n as int
                },
            forall|a: int| 0 <= a < r@.len() ==> (#[trigger] r@[a]).0 < r@[a].1 <= n,
        decreases n + 50 - s,
    {
        let e = if s + 50 <= n {
            s + 50
        } else {
            n
        };
        r.push((s, e));
        s = s + 50;
    }
    r
}

/// Which push a row asks for: a tombstoned row is deleted on the remote
/// and dropped locally, any other row is uploaded.
#[derive(Debug, Clone, Copy, PartialEq, Eq, Structural)]
pub enum PushKind {
    Delete,
    Upload,
}

/// Picks the push a collection row asks for.
pub fn collection_push_kind(c: &Collection) -> (r: PushKind)
    ensures
        r is Delete <==> c.deleted,
{
    if c.deleted {
        PushKind::Delete
    } else {
        PushKind::Upload
    }
}

/// Picks the push an item row asks for.
pub fn item_push_kind(c: &Item) -> (r: PushKind)
    ensures
        r is Delete <==> c.deleted,
{
    if c.deleted {
        PushKind::Delete
    } else {
        PushKind::Upload
    }
}

/// Folds the outcome of one collection upload into the mirror: an
/// accepted write marks the row synced at the new version and advances
/// the phase's precondition baseline; a conflict aborts the phase; any
/// other failure leaves the row for a later sync and goes on.
pub fn apply_collection_upload(
    store: &mut LocalStore,
    idx: usize,
    outcome: &WriteOutcome,
    baseline: i64,
) -> (r: (i64, PhaseStep))
    requires
        old(store).wf(),
        idx < old(store).collections@.len(),
    ensures
        final(store).wf(),
        final(store).items == old(store).items,
        final(store).tags == old(store).tags,
        match *outcome {
            WriteOutcome::Accepted { new_version } => final(store).collections@ == old(store).collections@.update(
                idx as int,
                Collection {
                    version: new_version,
                    sync_status: SyncStatus::Synced,
                    ..old(store).collections@[idx as int]
                },
            ) && r == (new_version, PhaseStep::Continue),
            WriteOutcome::Conflict => final(store).collections == old(store).collections && r == (
                baseline,
                PhaseStep::AbortConflict,
            ),
            _ => final(store).collections == old(store).collections && r == (
                baseline,
                PhaseStep::Continue,
            ),
        },
{
    match outcome {
        WriteOutcome::Accepted { new_version } => {
            store.set_collection_synced_at(idx, *new_version);
            (*new_version, PhaseStep::Continue)
        },
        WriteOutcome::Conflict => (baseline, PhaseStep::AbortConflict),
        _ => (baseline, PhaseStep::Continue),
    }
}

/// Folds the outcome of one collection deletion into the mirror: an
/// accepted deletion drops the local row and advances the baseline; a
/// conflict aborts the phase.
pub fn apply_collection_delete(
    store: &mut LocalStore,
    idx: usize,
    outcome: &WriteOutcome,
    baseline: i64,
) -> (r: (i64, PhaseStep))
    requires
        old(store).wf(),
        idx < old(store).collections@.len(),
    ensures
        final(store).wf(),
        final(store).items == old(store).items,
        final(store).tags == old(store).tags,
        match *outcome {
            WriteOutcome::Accepted { new_version } => final(store).collections@ == old(store).collections@.remove(idx as int) && r == (new_version, PhaseStep::Continue),
            WriteOutcome::Conflict => final(store).collections == old(store).collections && r == (
                baseline,
                PhaseStep::AbortConflict,
            ),
            _ => final(store).collections == old(store).collections && r == (
                baseline,
                PhaseStep::Continue,
            ),
        },
{
    match outcome {
        WriteOutcome::Accepted { new_version } => {
            let removed = store.remove_collection_at(idx);
            (*new_version, PhaseStep::Continue)
        },
        WriteOutcome::Conflict => (baseline, PhaseStep::AbortConflict),
        _ => (baseline, PhaseStep::Continue),
    }
}

/// Folds the outcome of one item upload into the mirror; as with
/// collections, but per the item phases' policy every non-conflict
/// failure is logged and skipped.
pub fn apply_item_upload(store: &mut LocalStore, idx: usize, outcome: &WriteOutcome, baseline: i64)
    -> (r: (i64, PhaseStep))
    requires
        old(store).wf(),
        idx < old(store).items@.len(),
    ensures
        final(store).wf(),
        final(store).collections == old(store).collections,
        final(store).tags == old(store).tags,
        match *outcome {
            WriteOutcome::Accepted { new_version } => final(store).items@ == old(store).items@.update(
                idx as int,
                Item {
                    version: new_version,
                    sync_status: SyncStatus::Synced,
                    ..old(store).items@[idx as int]
                },
            ) && r == (new_version, PhaseStep::Continue),
            WriteOutcome::Conflict => final(store).items == old(store).items && r == (
                baseline,
                PhaseStep::AbortConflict,
            ),
            _ => final(store).items == old(store).items && r == (baseline, PhaseStep::Continue),
        },
{
    match outcome {
        WriteOutcome::Accepted { new_version } => {
            store.set_item_synced_at(idx, *new_version);
            (*new_version, PhaseStep::Continue)
        },
        WriteOutcome::Conflict => (baseline, PhaseStep::AbortConflict),
        _ => (baseline, PhaseStep::Continue),
    }
}

/// Folds the outcome of one item deletion into the mirror.
pub fn apply_item_delete(store: &mut LocalStore, idx: usize, outcome: &WriteOutcome, baseline: i64)
    -> (r: (i64, PhaseStep))
    requires
        old(store).wf(),
        idx < old(store).items@.len(),
    ensures
        final(store).wf(),
        final(store).collections == old(store).collections,
        final(store).tags == old(store).tags,
        match *outcome {
            WriteOutcome::Accepted { new_version } => final(store).items@ == old(store).items@.remove(idx as int) && r == (new_version, PhaseStep::Continue),
            WriteOutcome::Conflict => final(store).items == old(store).items && r == (
                baseline,
                PhaseStep::AbortConflict,
            ),
            _ => final(store).items == old(store).items && r == (baseline, PhaseStep::Continue),
        },
{
    match outcome {
        WriteOutcome::Accepted { new_version } => {
            let removed = store.remove_item_at(idx);
            (*new_version, PhaseStep::Continue)
        },
        WriteOutcome::Conflict => (baseline, PhaseStep::AbortConflict),
        _ => (baseline, PhaseStep::Continue),
    }
}

/// A downloaded collection as the mirror stores it: in step with the
/// remote.
pub open spec fn spec_as_synced_col(c: Collection) -> Collection {
    Collection { sync_status: SyncStatus::Synced, ..c }
}

/// A downloaded item as the mirror stores it: in step with the remote.
pub open spec fn spec_as_synced_item(c: Item) -> Item {
    Item { sync_status: SyncStatus::Synced, ..c }
}

/// Stores one fetched collection: the row lands in the mirror marked
/// synced; every row with another key stays.
pub fn apply_downloaded_collection(store: &mut LocalStore, c: Collection)
    requires
        old(store).wf(),
    ensures
        final(store).wf(),
        final(store).items == old(store).items,
        final(store).tags == old(store).tags,
        crate::store::spec_col_has(final(store).collections@, c.key@),
        forall|i: int|
            0 <= i < final(store).collections@.len() && #[trigger] final(store).collections@[i].key@ == c.key@ ==> final(store).collections@[i] == spec_as_synced_col(
                c,
            ),
        forall|i: int|
            0 <= i < final(store).collections@.len() && #[trigger] final(store).collections@[i].key@ != c.key@ ==> exists|j: int|
                0 <= j < old(store).collections@.len() && old(store).collections@[j] == final(store).collections@[i],
        forall|j: int|
            0 <= j < old(store).collections@.len() && #[trigger] old(store).collections@[j].key@
                != c.key@ ==> exists|i: int|
                0 <= i < final(store).collections@.len() && final(store).collections@[i] == old(store).collections@[j],
        crate::store::spec_col_has(old(store).collections@, c.key@) ==> final(store).collections@.len() == old(store).collections@.len(),
        !crate::store::spec_col_has(old(store).collections@, c.key@) ==> final(store).collections@.len() == old(store).collections@.len() + 1,
{
    let stored = Collection { sync_status: SyncStatus::Synced, ..c };
    store.upsert_collection(stored);
}

/// Stores one fetched item: the row lands in the mirror marked synced;
/// every row with another key stays.
pub fn apply_downloaded_item(store: &mut LocalStore, c: Item)
    requires
        old(store).wf(),
    ensures
        final(store).wf(),
        final(store).collections == old(store).collections,
        final(store).tags == old(store).tags,
        crate::store::spec_item_has(final(store).items@, c.key@),
        forall|i: int|
            0 <= i < final(store).items@.len() && #[trigger] final(store).items@[i].key@ == c.key@
                ==> final(store).items@[i] == spec_as_synced_item(c),
        forall|i: int|
            0 <= i < final(store).items@.len() && #[trigger] final(store).items@[i].key@ != c.key@
                ==> exists|j: int|
                0 <= j < old(store).items@.len() && old(store).items@[j] == final(store).items@[i],
        forall|j: int|
            0 <= j < old(store).items@.len() && #[trigger] old(store).items@[j].key@ != c.key@
                ==> exists|i: int|
                0 <= i < final(store).items@.len() && final(store).items@[i] == old(store).items@[j],
        crate::store::spec_item_has(old(store).items@, c.key@) ==> final(store).items@.len()
            == old(store).items@.len(),
        !crate::store::spec_item_has(old(store).items@, c.key@) ==> final(store).items@.len()
            == old(store).items@.len() + 1,
{
    let stored = Item { sync_status: SyncStatus::Synced, ..c };
    store.upsert_item(stored);
}

/// The tag row a remote tag becomes: its type (zero when the remote gave
/// none) and a fresh item count.
pub open spec fn spec_tag_row_of(t: Tag, library_id: i64, library_type: crate::types::LibraryType)
    -> TagRow {
    TagRow {
        tag: t.data.tag,
        meta: TagMeta {
            tag_type: match t.data.tag_type {
                Some(v) => v as i64,
                None => 0,
            },
            num_items: 0,
        },
        library_id,
        library_type,
    }
}

/// Stores one fetched tag; every row with another name stays.
pub fn apply_downloaded_tag(
    store: &mut LocalStore,
    t: Tag,
    library_id: i64,
    library_type: crate::types::LibraryType,
)
    requires
        old(store).wf(),
    ensures
        final(store).wf(),
        final(store).collections == old(store).collections,
        final(store).items == old(store).items,
        crate::store::spec_tag_has(final(store).tags@, spec_tag_row_of(t, library_id, library_type).tag@),
        forall|i: int|
            0 <= i < final(store).tags@.len() && #[trigger] final(store).tags@[i].tag@
                == spec_tag_row_of(t, library_id, library_type).tag@ ==> final(store).tags@[i]
                == spec_tag_row_of(t, library_id, library_type),
        forall|j: int|
            0 <= j < old(store).tags@.len() && #[trigger] old(store).tags@[j].tag@
                != spec_tag_row_of(t, library_id, library_type).tag@ ==> exists|i: int|
                0 <= i < final(store).tags@.len() && final(store).tags@[i] == old(store).tags@[j],
{
    let tag_type: i64 = match t.data.tag_type {
        Some(v) => v as i64,
        None => 0,
    };
    let row = TagRow {
        tag: t.data.tag,
        meta: TagMeta { tag_type, num_items: 0 },
        library_id,
        library_type,
    };
    store.upsert_tag(row);
}

/// What a remote tombstone does to the local row: nothing when the row
/// is absent or already tombstoned; a tombstone when the row is in step
/// with the remote or when only the cloud leads; otherwise the local row
/// is kept and stamped with the remote's version so a later upload can
/// re-create the entity.
#[derive(Debug, Clone, Copy, PartialEq, Eq, Structural)]
pub enum TombstoneAction {
    Ignore,
    MarkDeleted,
    StampSynced,
}

/// The tombstone policy on one local row.
pub open spec fn spec_tombstone_action(
    present: bool,
    already_deleted: bool,
    status: SyncStatus,
    can_download: bool,
    can_upload: bool,
) -> TombstoneAction {
    if !present || already_deleted {
        TombstoneAction::Ignore
    } else if status is Synced || (can_download && !can_upload) {
        TombstoneAction::MarkDeleted
    } else {
        TombstoneAction::StampSynced
    }
}

/// Applies a remote item tombstone to the mirror, per the tombstone
/// policy, and reports what it did. `lmv` is the deletion feed's library
/// version, which a stamped row takes.
pub fn apply_item_tombstone(
    store: &mut LocalStore,
    key: &str,
    lmv: i64,
    can_download: bool,
    can_upload: bool,
) -> (r: TombstoneAction)
    requires
        old(store).wf(),
    ensures
        final(store).wf(),
        final(store).collections == old(store).collections,
        final(store).tags == old(store).tags,
        !crate::store::spec_item_has(old(store).items@, key@) ==> r
            == TombstoneAction::Ignore && final(store).items == old(store).items,
        crate::store::spec_item_has(old(store).items@, key@) ==> {
            let idx = spec_item_index(old(store).items@, key@);
            let row = old(store).items@[idx];
            r == spec_tombstone_action(true, row.deleted, row.sync_status, can_download, can_upload)
                && (r == TombstoneAction::Ignore ==> final(store).items == old(store).items) && (r
                == TombstoneAction::MarkDeleted ==> final(store).items@ == old(store).items@.update(idx, Item { deleted: true, ..row })) && (r
                == TombstoneAction::StampSynced ==> final(store).items@ == old(store).items@.update(
                idx,
                Item { version: lmv, sync_status: SyncStatus::Synced, ..row },
            ))
        },
{
    match store.find_item(key) {
        None => TombstoneAction::Ignore,
        Some(i) => {
            proof {
                lemma_item_key_unique(
                    store.items@,
                    i as int,
                    spec_item_index(store.items@, key@),
                );
            }
            if store.items[i].deleted {
                TombstoneAction::Ignore
            } else {
                let synced = match store.items[i].sync_status {
                    SyncStatus::Synced => true,
                    _ => false,
                };
                if synced || (can_download && !can_upload) {
                    store.set_item_deleted_at(i);
                    TombstoneAction::MarkDeleted
                } else {
                    store.set_item_synced_at(i, lmv);
                    TombstoneAction::StampSynced
                }
            }
        },
    }
}

/// Applies a remote collection tombstone to the mirror, per the
/// tombstone policy, and reports what it did.
pub fn apply_collection_tombstone(
    store: &mut LocalStore,
    key: &str,
    lmv: i64,
    can_download: bool,
    can_upload: bool,
) -> (r: TombstoneAction)
    requires
        old(store).wf(),
    ensures
        final(store).wf(),
        final(store).items == old(store).items,
        final(store).tags == old(store).tags,
        !crate::store::spec_col_has(old(store).collections@, key@) ==> r
            == TombstoneAction::Ignore && final(store).collections == old(store).collections,
        crate::store::spec_col_has(old(store).collections@, key@) ==> {
            let idx = spec_col_index(old(store).collections@, key@);
            let row = old(store).collections@[idx];
            r == spec_tombstone_action(true, row.deleted, row.sync_status, can_download, can_upload)
                && (r == TombstoneAction::Ignore ==> final(store).collections == old(store).collections) && (r == TombstoneAction::MarkDeleted ==> final(store).collections@
                == old(store).collections@.update(idx, Collection { deleted: true, ..row })) && (r
                == TombstoneAction::StampSynced ==> final(store).collections@ == old(store).collections@.update(
                idx,
                Collection { version: lmv, sync_status: SyncStatus::Synced, ..row },
            ))
        },
{
    match store.find_collection(key) {
        None => TombstoneAction::Ignore,
        Some(i) => {
            proof {
                lemma_col_key_unique(
                    store.collections@,
                    i as int,
                    spec_col_index(store.collections@, key@),
                );
            }
            if store.collections[i].deleted {
                TombstoneAction::Ignore
            } else {
                let synced = match store.collections[i].sync_status {
                    SyncStatus::Synced => true,
                    _ => false,
                };
                if synced || (can_download && !can_upload) {
                    store.set_collection_deleted_at(i);
                    TombstoneAction::MarkDeleted
                } else {
                    store.set_collection_synced_at(i, lmv);
                    TombstoneAction::StampSynced
                }
            }
        },
    }
}

} // verus!
