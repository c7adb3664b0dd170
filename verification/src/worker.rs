//! The queue worker's decisions: the worker polls the outbound queue,
//! leases entries per library, pushes collection entries before item
//! entries (items may reference collections), retires each entry by its
//! outcome, and runs a periodic cleanup.

use vstd::prelude::*;
use crate::error::Error;
use crate::error::SyncResult;
use crate::queue::SyncQueueEntry;
use crate::types::compare_str;

verus! {

/// The worker's knobs: the poll pause in seconds, how many entries one
/// lease takes, how many libraries run at once, and how many days a
/// processed entry is kept before cleanup.
#[derive(Debug, Clone, PartialEq)]
pub struct SyncWorkerConfig {
    pub poll_interval_secs: u64,
    pub batch_size: i32,
    pub max_concurrent_libraries: usize,
    pub cleanup_days: i32,
}

impl Default for SyncWorkerConfig {
    /// Five-second polls, the remote's batch bound of fifty, four
    /// libraries at once, a week of retention.
    fn default() -> (r: Self)
        ensures
            r.poll_interval_secs == 5,
            r.batch_size == 50,
            r.max_concurrent_libraries == 4,
            r.cleanup_days == 7,
    {
        SyncWorkerConfig {
            poll_interval_secs: 5,
            batch_size: 50,
            max_concurrent_libraries: 4,
            cleanup_days: 7,
        }
    }
}

/// What kind of entity a queue entry names.
#[derive(Debug, Clone, Copy, PartialEq, Eq, Structural)]
pub enum EntryEntity {
    ItemEntry,
    CollectionEntry,
}

/// Decodes a queue entry's entity type; anything but "item" and
/// "collection" is invalid data.
pub fn entry_entity(e: &SyncQueueEntry) -> (r: SyncResult<EntryEntity>)
    ensures
        e.entity_type@ == "item"@ ==> r == Ok::<_, Error>(EntryEntity::ItemEntry),
        e.entity_type@ == "collection"@ ==> r == Ok::<_, Error>(EntryEntity::CollectionEntry),
        e.entity_type@ != "item"@ && e.entity_type@ != "collection"@ ==> (r matches Err(err)
            && err is InvalidData),
{
    proof {
        reveal_strlit("item");
        reveal_strlit("collection");
        assert("item"@.len() == 4);
        assert("collection"@.len() == 10);
    }
    if compare_str(e.entity_type.as_str(), "item") {
        Ok(EntryEntity::ItemEntry)
    } else if compare_str(e.entity_type.as_str(), "collection") {
        Ok(EntryEntity::CollectionEntry)
    } else {
        Err(Error::InvalidData("unknown entity type in queue entry".to_owned()))
    }
}

/// What a queue entry asks the remote for: a deletion by key, or a push
/// of the entity's current state.
#[derive(Debug, Clone, Copy, PartialEq, Eq, Structural)]
pub enum EntryAction {
    DeleteRemote,
    PushEntity,
}

/// Picks a queue entry's action from its operation: "delete" deletes the
/// remote entity by key; "insert" and "update" (and anything else the
/// triggers may record) push the entity's current local state.
pub fn entry_action(e: &SyncQueueEntry) -> (r: EntryAction)
    ensures
        r is DeleteRemote <==> e.operation@ == "delete"@,
{
    if compare_str(e.operation.as_str(), "delete") {
        EntryAction::DeleteRemote
    } else {
        EntryAction::PushEntity
    }
}

/// The places of the collection entries in a leased batch, in lease
/// order.
pub open spec fn spec_collection_entry_idxs(s: Seq<SyncQueueEntry>) -> Seq<usize>
    decreases s.len(),
{
    if s.len() == 0 {
        Seq::empty()
    } else {
        spec_collection_entry_idxs(s.drop_last()) + if s.last().entity_type@ == "collection"@ {
            seq![(s.len() - 1) as usize]
        } else {
            Seq::empty()
        }
    }
}

/// The places of the non-collection entries in a leased batch, in lease
/// order.
pub open spec fn spec_other_entry_idxs(s: Seq<SyncQueueEntry>) -> Seq<usize>
    decreases s.len(),
{
    if s.len() == 0 {
        Seq::empty()
    } else {
        spec_other_entry_idxs(s.drop_last()) + if s.last().entity_type@ == "collection"@ {
            Seq::empty()
        } else {
            seq![(s.len() - 1) as usize]
        }
    }
}

/// Splits a leased batch for processing: collection entries first, item
/// entries after, each side in lease order — items may reference
/// collections, so collections must land first.
pub fn partition_entries(entries: &Vec<SyncQueueEntry>) -> (r: (Vec<usize>, Vec<usize>))
    ensures
        r.0@ == spec_collection_entry_idxs(entries@),
        r.1@ == spec_other_entry_idxs(entries@),
{
    proof {
        reveal_strlit("collection");
    }
    let n = entries.len();
    let mut cols: Vec<usize> = Vec::new();
    let mut others: Vec<usize> = Vec::new();
    let mut i: usize = 0;
    proof {
        assert(entries@.subrange(0, 0) =~= Seq::<SyncQueueEntry>::empty());
    }
    while i < n
        invariant
            n == entries@.len(),
            i <= n,
            cols@ == spec_collection_entry_idxs(entries@.subrange(0, i as int)),
            others@ == spec_other_entry_idxs(entries@.subrange(0, i as int)),
        decreases n - i,
    {
        proof {
            let pre = entries@.subrange(0, i + 1 as int);
            assert(pre.drop_last() =~= entries@.subrange(0, i as int));
            assert(pre.last() == entries@[i as int]);
        }
        if compare_str(entries[i].entity_type.as_str(), "collection") {
            cols.push(i);
        } else {
            others.push(i);
        }
        i = i + 1;
    }
    proof {
        assert(entries@.subrange(0, n as int) =~= entries@);
    }
    (cols, others)
}

/// Advances the worker's tick counter and says whether this tick runs the
/// periodic cleanup: every hundredth tick does, and the count then starts
/// over.
pub fn cleanup_due(counter: u64) -> (r: (bool, u64))
    requires
        counter < u64::MAX,
    ensures
        r.0 <==> counter + 1 >= 100,
        r.0 ==> r.1 == 0,
        !r.0 ==> r.1 == counter + 1,
{
    let next = counter + 1;
    if next >= 100 {
        (true, 0)
    } else {
        (false, next)
    }
}

} // verus!
