//! Item entities: the remote's item data, the flattened type-specific
//! fields, and the local row that mirrors an item.

use vstd::prelude::*;
use crate::types::Creator;
use crate::types::LibraryType;
use crate::types::RelationList;
use crate::types::SyncStatus;
use crate::types::TagData;
use crate::types::UserData;
use crate::types::compare_str;

verus! {

/// One flattened type-specific field of an item's data. The engine reads
/// only string-valued fields (link mode, filename, content hash); other
/// values ride through as their document text.
#[derive(Debug, Clone, PartialEq)]
pub struct ExtraField {
    pub name: String,
    pub value: String,
}

/// An item's user-facing data; times are seconds since the epoch. The
/// known fields stand beside the flattened map of type-specific extras,
/// which uploads write back untouched.
#[derive(Debug, Clone, PartialEq)]
pub struct ItemData {
    pub key: String,
    pub version: i64,
    pub item_type: String,
    pub title: Option<String>,
    pub creators: Option<Vec<Creator>>,
    pub date: Option<String>,
    pub date_added: i64,
    pub date_modified: i64,
    pub tags: Option<Vec<TagData>>,
    pub collections: Option<Vec<String>>,
    pub relations: Option<RelationList>,
    pub extra_fields: Vec<ExtraField>,
}

/// The well-known kinds of an item; the remote serves more, which all
/// fall under `Other`.
#[derive(Debug, Clone, Copy, PartialEq, Eq, Structural)]
pub enum ItemType {
    Book,
    Article,
    Chapter,
    Note,
    Attachment,
    Document,
    Other,
}

/// The remote's metadata about an item.
#[derive(Debug, Clone, PartialEq)]
pub struct ItemMeta {
    pub created_by_user: Option<UserData>,
    pub creator_summary: Option<String>,
    pub parsed_date: Option<String>,
    pub num_children: i32,
}

/// One item row of the local mirror. `trashed` is the recoverable state,
/// `deleted` the tombstone; `md5` carries the attachment content hash
/// when the item is an attachment.
#[derive(Debug, Clone, PartialEq)]
pub struct Item {
    pub key: String,
    pub version: i64,
    pub library_id: i64,
    pub library_type: LibraryType,
    pub data: ItemData,
    pub meta: Option<ItemMeta>,
    pub trashed: bool,
    pub deleted: bool,
    pub sync_status: SyncStatus,
    pub md5: Option<String>,
}

/// The value of the first field with the given name, if any.
pub open spec fn spec_field_lookup(s: Seq<ExtraField>, name: Seq<char>) -> Option<Seq<char>>
    decreases s.len(),
{
    if s.len() == 0 {
        Option::None
    } else if s[0].name@ == name {
        Option::Some(s[0].value@)
    } else {
        spec_field_lookup(s.drop_first(), name)
    }
}

impl Item {
    /// Looks a flattened type-specific field up by name; the first field
    /// with that name answers.
    pub fn extra_field(&self, name: &str) -> (r: Option<&String>)
        ensures
            match r {
                Some(v) => spec_field_lookup(self.data.extra_fields@, name@) == Some(v@),
                None => spec_field_lookup(self.data.extra_fields@, name@) is None,
            },
    {
        let n = self.data.extra_fields.len();
        let mut i: usize = 0;
        proof {
            assert(self.data.extra_fields@.skip(0) =~= self.data.extra_fields@);
        }
        while i < n
            invariant
                n == self.data.extra_fields@.len(),
                i <= n,
                spec_field_lookup(self.data.extra_fields@, name@) == spec_field_lookup(
                    self.data.extra_fields@.skip(i as int),
                    name@,
                ),
            decreases n - i,
        {
            proof {
                assert(self.data.extra_fields@.skip(i as int)[0] == self.data.extra_fields@[
                    i as int]);
                assert(self.data.extra_fields@.skip(i as int).drop_first()
                    =~= self.data.extra_fields@.skip(i + 1 as int));
            }
            if compare_str(self.data.extra_fields[i].name.as_str(), name) {
                return Some(&self.data.extra_fields[i].value);
            }
            i = i + 1;
        }
        None
    }

    /// Whether this item is an attachment.
    pub fn is_attachment(&self) -> (r: bool)
        ensures
            r <==> self.data.item_type@ == "attachment"@,
    {
        compare_str(self.data.item_type.as_str(), "attachment")
    }

    /// The row as it stands after a successful upload: in step with the
    /// remote at the given version, everything else kept.
    pub fn into_synced(self, version: i64) -> (r: Item)
        ensures
            r == (Item { version, sync_status: SyncStatus::Synced, ..self }),
    {
        Item { version, sync_status: SyncStatus::Synced, ..self }
    }

    /// The row with its tombstone set, everything else kept.
    pub fn into_deleted(self) -> (r: Item)
        ensures
            r == (Item { deleted: true, ..self }),
    {
        Item { deleted: true, ..self }
    }
}

} // verus!
