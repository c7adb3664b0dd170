//! Collection entities: the remote's collection data and the local row
//! that mirrors it.

use vstd::prelude::*;
use crate::types::CollectionMeta;
use crate::types::LibraryType;
use crate::types::RelationList;
use crate::types::SyncStatus;

verus! {

/// A collection's user-facing data. The remote encodes an absent parent
/// as the JSON literal `false`; decoders turn both that and `null` into
/// `None` here.
#[derive(Debug, Clone, PartialEq)]
pub struct CollectionData {
    pub key: String,
    pub version: i64,
    pub name: String,
    pub parent_collection: Option<String>,
    pub relations: Option<RelationList>,
}

/// One collection row of the local mirror.
#[derive(Debug, Clone, PartialEq)]
pub struct Collection {
    pub key: String,
    pub version: i64,
    pub library_id: i64,
    pub library_type: LibraryType,
    pub data: CollectionData,
    pub meta: Option<CollectionMeta>,
    pub deleted: bool,
    pub sync_status: SyncStatus,
}

impl Collection {
    /// The row as it stands after a successful upload: in step with the
    /// remote at the given version, everything else kept.
    pub fn into_synced(self, version: i64) -> (r: Collection)
        ensures
            r == (Collection { version, sync_status: SyncStatus::Synced, ..self }),
    {
        Collection { version, sync_status: SyncStatus::Synced, ..self }
    }

    /// The row with its tombstone set, everything else kept.
    pub fn into_deleted(self) -> (r: Collection)
        ensures
            r == (Collection { deleted: true, ..self }),
    {
        Collection { deleted: true, ..self }
    }
}

} // verus!
