//! The library registry: which libraries a batch sync visits, when a
//! group's metadata is refreshed, which local libraries are dropped, and
//! how a fresh group record starts.

use vstd::prelude::*;
use crate::library::Library;
use crate::numtext::parse_u64_dec;
use crate::numtext::spec_all_digits;
use crate::numtext::spec_dec_value;
use crate::types::LibraryType;
use crate::types::SyncDirection;

verus! {

/// Whether a library takes part in this run: an empty allowlist admits
/// every library, a non-empty one only its members.
pub fn should_sync_library(synconly: &Vec<i64>, library_id: i64) -> (r: bool)
    ensures
        r <==> (synconly@.len() == 0 || synconly@.contains(library_id)),
{
    if synconly.len() == 0 {
        return true;
    }
    let n = synconly.len();
    let mut i: usize = 0;
    while i < n
        invariant
            n == synconly@.len(),
            i <= n,
            forall|j: int| 0 <= j < i ==> synconly@[j] != library_id,
        decreases n - i,
    {
        if synconly[i] == library_id {
            proof {
                assert(synconly@[i as int] == library_id);
            }
            return true;
        }
        i = i + 1;
    }
    proof {
        if synconly@.contains(library_id) {
            let w = choose|j: int| 0 <= j < synconly@.len() && synconly@[j] == library_id;
            assert(synconly@[w] != library_id);
        }
    }
    false
}

/// Whether a library's local state is reset before its sync.
pub fn should_clear_before_sync(clear_before_sync: &Vec<i64>, library_id: i64) -> (r: bool)
    ensures
        r <==> clear_before_sync@.contains(library_id),
{
    let n = clear_before_sync.len();
    let mut i: usize = 0;
    while i < n
        invariant
            n == clear_before_sync@.len(),
            i <= n,
            forall|j: int| 0 <= j < i ==> clear_before_sync@[j] != library_id,
        decreases n - i,
    {
        if clear_before_sync[i] == library_id {
            proof {
                assert(clear_before_sync@[i as int] == library_id);
            }
            return true;
        }
        i = i + 1;
    }
    proof {
        if clear_before_sync@.contains(library_id) {
            let w = choose|j: int|
                0 <= j < clear_before_sync@.len() && clear_before_sync@[j] == library_id;
            assert(clear_before_sync@[w] != library_id);
        }
    }
    false
}

/// Whether a group's metadata blob must be refreshed from the remote:
/// the local record is behind the remote's version, or it was marked
/// deleted, or a sync advanced its watermarks.
pub fn needs_group_refresh(lib: &Library, remote_version: i64) -> (r: bool)
    ensures
        r <==> (lib.version < remote_version || lib.deleted || lib.is_modified),
{
    lib.version < remote_version || lib.deleted || lib.is_modified
}

/// A refreshed group record: the remote's fresh metadata and version,
/// with the local sync state — watermarks, deletion flag, activity,
/// policy and tag flag — carried over.
pub fn merge_group_metadata(fresh: Library, local: &Library) -> (r: Library)
    ensures
        r == (Library {
            collection_version: local.collection_version,
            item_version: local.item_version,
            tag_version: local.tag_version,
            deleted: local.deleted,
            active: local.active,
            sync_direction: local.sync_direction,
            sync_tags: local.sync_tags,
            ..fresh
        }),
{
    Library {
        collection_version: local.collection_version,
        item_version: local.item_version,
        tag_version: local.tag_version,
        deleted: local.deleted,
        active: local.active,
        sync_direction: local.sync_direction,
        sync_tags: local.sync_tags,
        ..fresh
    }
}

/// The record a library unknown to the mirror starts from: version zero,
/// cloud-to-local policy, no tag sync, and the activity the configuration
/// gives new libraries.
pub fn new_empty_library(library_id: i64, library_type: LibraryType, active: bool) -> (r: Library)
    ensures
        r.id == library_id,
        r.library_type == library_type,
        r.version == 0,
        r.item_version == 0,
        r.collection_version == 0,
        r.tag_version == 0,
        r.data is None,
        !r.deleted,
        r.active == active,
        r.sync_direction is ToLocal,
        !r.sync_tags,
        !r.is_modified,
{
    Library {
        id: library_id,
        library_type,
        version: 0,
        created: None,
        modified: None,
        data: None,
        deleted: false,
        item_version: 0,
        collection_version: 0,
        tag_version: 0,
        gitlab: None,
        active,
        sync_direction: SyncDirection::ToLocal,
        sync_tags: false,
        is_modified: false,
    }
}

/// The local library identifiers that the remote no longer reports. An
/// empty known set deletes nothing: a run that saw no remote library must
/// not purge the mirror.
pub open spec fn spec_unknown_ids(local: Seq<i64>, known: Seq<i64>) -> Seq<i64>
    decreases local.len(),
{
    if known.len() == 0 {
        Seq::empty()
    } else if local.len() == 0 {
        Seq::empty()
    } else {
        spec_unknown_ids(local.drop_last(), known) + if known.contains(local.last()) {
            Seq::empty()
        } else {
            seq![local.last()]
        }
    }
}

/// Selects the local library identifiers to delete: those absent from
/// the remote's current set, kept in their local order; with no known
/// libraries at all, none.
pub fn libraries_to_delete(local: &Vec<i64>, known: &Vec<i64>) -> (r: Vec<i64>)
    ensures
        r@ == spec_unknown_ids(local@, known@),
{
    let mut r: Vec<i64> = Vec::new();
    if known.len() == 0 {
        proof {
            assert(spec_unknown_ids(local@, known@) =~= Seq::<i64>::empty());
        }
        return r;
    }
    let n = local.len();
    let mut i: usize = 0;
    proof {
        assert(local@.subrange(0, 0) =~= Seq::<i64>::empty());
    }
    while i < n
        invariant
            known@.len() > 0,
            n == local@.len(),
            i <= n,
            r@ == spec_unknown_ids(local@.subrange(0, i as int), known@),
        decreases n - i,
    {
        proof {
            let pre = local@.subrange(0, i + 1 as int);
            assert(pre.drop_last() =~= local@.subrange(0, i as int));
            assert(pre.last() == local@[i as int]);
        }
        let mut found = false;
        let kn = known.len();
        let mut k: usize = 0;
        while k < kn
            invariant
                kn == known@.len(),
                k <= kn,
                found <==> exists|j: int| 0 <= j < k && known@[j] == local@[i as int],
                i < n,
                n == local@.len(),
            decreases kn - k,
        {
            if known[k] == local[i] {
                proof {
                    assert(known@[k as int] == local@[i as int]);
                }
                found = true;
            }
            k = k + 1;
        }
        proof {
            if known@.contains(local@[i as int]) {
                let w = choose|j: int| 0 <= j < known@.len() && known@[j] == local@[i as int];
                assert(exists|j: int| 0 <= j < kn && known@[j] == local@[i as int]);
            }
        }
        if !found {
            r.push(local[i]);
        }
        i = i + 1;
    }
    proof {
        assert(local@.subrange(0, n as int) =~= local@);
    }
    r
}

/// The group identifiers and versions of a remote listing. The remote
/// keys the map by the group's identifier as decimal text; a key that is
/// not a number is dropped.
pub open spec fn spec_group_versions(pairs: Seq<(String, i64)>) -> Seq<(i64, i64)>
    decreases pairs.len(),
{
    if pairs.len() == 0 {
        Seq::empty()
    } else {
        spec_group_versions(pairs.drop_last()) + if spec_all_digits(pairs.last().0@)
            && spec_dec_value(pairs.last().0@) <= i64::MAX {
            seq![(spec_dec_value(pairs.last().0@) as i64, pairs.last().1)]
        } else {
            Seq::empty()
        }
    }
}

/// Decodes a remote group listing's keys into identifiers, dropping any
/// key that is not a decimal number within range.
pub fn group_versions_from_pairs(pairs: &Vec<(String, i64)>) -> (r: Vec<(i64, i64)>)
    ensures
        r@ == spec_group_versions(pairs@),
{
    let n = pairs.len();
    let mut r: Vec<(i64, i64)> = Vec::new();
    let mut i: usize = 0;
    proof {
        assert(pairs@.subrange(0, 0) =~= Seq::<(String, i64)>::empty());
    }
    while i < n
        invariant
            n == pairs@.len(),
            i <= n,
            r@ == spec_group_versions(pairs@.subrange(0, i as int)),
        decreases n - i,
    {
        proof {
            let pre = pairs@.subrange(0, i + 1 as int);
            assert(pre.drop_last() =~= pairs@.subrange(0, i as int));
            assert(pre.last() == pairs@[i as int]);
        }
        match parse_u64_dec(pairs[i].0.as_str()) {
            Some(v) => {
                if v <= 0x7fff_ffff_ffff_ffff {
                    r.push((v as i64, pairs[i].1));
                }
            },
            None => {},
        }
        i = i + 1;
    }
    proof {
        assert(pairs@.subrange(0, n as int) =~= pairs@);
    }
    r
}

} // verus!
