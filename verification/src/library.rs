//! The library record: the synchronization unit. A library is the user's
//! own or a group's; it carries the per-resource version watermarks, the
//! conflict policy, and the remote's metadata about it.

use vstd::prelude::*;
use crate::numtext::i64_to_dec;
use crate::numtext::spec_dec_int;
use crate::types::GroupData;
use crate::types::LibraryType;
use crate::types::SyncDirection;
use crate::types::UserData;

verus! {

/// The remote's metadata blob about a library: group metadata for group
/// libraries, the user profile for the user library.
#[derive(Debug, Clone, PartialEq)]
pub enum LibraryData {
    Group(GroupData),
    User(UserData),
}

/// One library of the mirror; times are seconds since the epoch.
#[derive(Debug, Clone, PartialEq)]
pub struct Library {
    pub id: i64,
    pub library_type: LibraryType,
    pub version: i64,
    pub created: Option<i64>,
    pub modified: Option<i64>,
    pub data: Option<LibraryData>,
    pub deleted: bool,
    pub item_version: i64,
    pub collection_version: i64,
    pub tag_version: i64,
    pub gitlab: Option<i64>,
    pub active: bool,
    pub sync_direction: SyncDirection,
    pub sync_tags: bool,
    pub is_modified: bool,
}

/// The library's display name: a group's name, or the user's display
/// name; empty when the metadata does not carry one.
pub open spec fn spec_library_name(lib: Library) -> Seq<char> {
    match lib.library_type {
        LibraryType::Group => match lib.data {
            Some(LibraryData::Group(g)) => match g.name {
                Some(n) => n@,
                None => Seq::<char>::empty(),
            },
            _ => Seq::<char>::empty(),
        },
        LibraryType::User => match lib.data {
            Some(LibraryData::User(u)) => u.display_name@,
            _ => Seq::<char>::empty(),
        },
    }
}

impl Library {
    /// A fresh library record for a group the remote reported: versions
    /// zeroed, cloud-to-local policy, active, not deleted.
    pub fn from_group_data(data: GroupData) -> (r: Library)
        ensures
            r.id == data.id,
            r.library_type is Group,
            r.version == data.version,
            r.created is None,
            r.modified is None,
            r.data == Some(LibraryData::Group(data)),
            !r.deleted,
            r.item_version == 0,
            r.collection_version == 0,
            r.tag_version == 0,
            r.gitlab is None,
            r.active,
            r.sync_direction is ToLocal,
            !r.sync_tags,
            !r.is_modified,
    {
        Library {
            id: data.id,
            library_type: LibraryType::Group,
            version: data.version,
            created: None,
            modified: None,
            data: Some(LibraryData::Group(data)),
            deleted: false,
            item_version: 0,
            collection_version: 0,
            tag_version: 0,
            gitlab: None,
            active: true,
            sync_direction: SyncDirection::ToLocal,
            sync_tags: false,
            is_modified: false,
        }
    }

    /// A fresh library record for the user's own library: versions
    /// zeroed, cloud-to-local policy, active, not deleted.
    pub fn from_user_data(data: UserData) -> (r: Library)
        ensures
            r.id == data.id,
            r.library_type is User,
            r.version == 0,
            r.created is None,
            r.modified is None,
            r.data == Some(LibraryData::User(data)),
            !r.deleted,
            r.item_version == 0,
            r.collection_version == 0,
            r.tag_version == 0,
            r.gitlab is None,
            r.active,
            r.sync_direction is ToLocal,
            !r.sync_tags,
            !r.is_modified,
    {
        Library {
            id: data.id,
            library_type: LibraryType::User,
            version: 0,
            created: None,
            modified: None,
            data: Some(LibraryData::User(data)),
            deleted: false,
            item_version: 0,
            collection_version: 0,
            tag_version: 0,
            gitlab: None,
            active: true,
            sync_direction: SyncDirection::ToLocal,
            sync_tags: false,
            is_modified: false,
        }
    }

    /// The library's display name.
    pub fn name(&self) -> (r: String)
        ensures
            r@ == spec_library_name(*self),
    {
        match self.library_type {
            LibraryType::Group => match &self.data {
                Some(LibraryData::Group(g)) => match &g.name {
                    Some(n) => n.clone(),
                    None => String::new(),
                },
                _ => String::new(),
            },
            LibraryType::User => match &self.data {
                Some(LibraryData::User(u)) => u.display_name.clone(),
                _ => String::new(),
            },
        }
    }

    /// A group's description; user libraries carry none.
    pub fn description(&self) -> (r: Option<String>)
        ensures
            match (self.library_type, self.data) {
                (LibraryType::Group, Some(LibraryData::Group(g))) => match (g.description, r) {
                    (Some(d), Some(v)) => d@ == v@,
                    (None, None) => true,
                    _ => false,
                },
                _ => r is None,
            },
    {
        match self.library_type {
            LibraryType::Group => match &self.data {
                Some(LibraryData::Group(g)) => match &g.description {
                    Some(d) => Some(d.clone()),
                    None => None,
                },
                _ => None,
            },
            LibraryType::User => None,
        }
    }

    /// The owning user: a group's owner (zero when the metadata lacks
    /// one), or the user library's own holder.
    pub fn owner(&self) -> (r: i64)
        ensures
            match (self.library_type, self.data) {
                (LibraryType::Group, Some(LibraryData::Group(g))) => r == match g.owner {
                    Some(o) => o,
                    None => 0,
                },
                (LibraryType::Group, _) => r == 0,
                (LibraryType::User, _) => r == self.id,
            },
    {
        match self.library_type {
            LibraryType::Group => match &self.data {
                Some(LibraryData::Group(g)) => match g.owner {
                    Some(o) => o,
                    None => 0,
                },
                _ => 0,
            },
            LibraryType::User => self.id,
        }
    }

    /// The group's kind label; the user library answers "user".
    pub fn group_type(&self) -> (r: String)
        ensures
            match (self.library_type, self.data) {
                (LibraryType::Group, Some(LibraryData::Group(g))) => r@ == match g.group_type {
                    Some(t) => t@,
                    None => Seq::<char>::empty(),
                },
                (LibraryType::Group, _) => r@ == Seq::<char>::empty(),
                (LibraryType::User, _) => r@ == "user"@,
            },
    {
        match self.library_type {
            LibraryType::Group => match &self.data {
                Some(LibraryData::Group(g)) => match &g.group_type {
                    Some(t) => t.clone(),
                    None => String::new(),
                },
                _ => String::new(),
            },
            LibraryType::User => "user".to_owned(),
        }
    }

    /// Who may read the library; groups default to "public", the user
    /// library is "private".
    pub fn library_reading(&self) -> (r: String)
        ensures
            match (self.library_type, self.data) {
                (LibraryType::Group, Some(LibraryData::Group(g))) => r@ == match g.library_reading {
                    Some(t) => t@,
                    None => "public"@,
                },
                (LibraryType::Group, _) => r@ == "public"@,
                (LibraryType::User, _) => r@ == "private"@,
            },
    {
        match self.library_type {
            LibraryType::Group => match &self.data {
                Some(LibraryData::Group(g)) => match &g.library_reading {
                    Some(t) => t.clone(),
                    None => "public".to_owned(),
                },
                _ => "public".to_owned(),
            },
            LibraryType::User => "private".to_owned(),
        }
    }

    /// Who may edit the library; the user library answers "owner".
    pub fn library_editing(&self) -> (r: String)
        ensures
            match (self.library_type, self.data) {
                (LibraryType::Group, Some(LibraryData::Group(g))) => r@ == match g.library_editing {
                    Some(t) => t@,
                    None => Seq::<char>::empty(),
                },
                (LibraryType::Group, _) => r@ == Seq::<char>::empty(),
                (LibraryType::User, _) => r@ == "owner"@,
            },
    {
        match self.library_type {
            LibraryType::Group => match &self.data {
                Some(LibraryData::Group(g)) => match &g.library_editing {
                    Some(t) => t.clone(),
                    None => String::new(),
                },
                _ => String::new(),
            },
            LibraryType::User => "owner".to_owned(),
        }
    }

    /// Who may edit files; the user library answers "owner".
    pub fn file_editing(&self) -> (r: String)
        ensures
            match (self.library_type, self.data) {
                (LibraryType::Group, Some(LibraryData::Group(g))) => r@ == match g.file_editing {
                    Some(t) => t@,
                    None => Seq::<char>::empty(),
                },
                (LibraryType::Group, _) => r@ == Seq::<char>::empty(),
                (LibraryType::User, _) => r@ == "owner"@,
            },
    {
        match self.library_type {
            LibraryType::Group => match &self.data {
                Some(LibraryData::Group(g)) => match &g.file_editing {
                    Some(t) => t.clone(),
                    None => String::new(),
                },
                _ => String::new(),
            },
            LibraryType::User => "owner".to_owned(),
        }
    }

    /// Whether this library's policy lets the local side write to the
    /// cloud.
    pub fn can_upload(&self) -> (r: bool)
        ensures
            r <==> (self.sync_direction is ToCloud || self.sync_direction is BothCloud
                || self.sync_direction is BothLocal || self.sync_direction is BothManual),
    {
        self.sync_direction.allows_upload()
    }

    /// Whether this library's policy lets the local side take writes from
    /// the cloud.
    pub fn can_download(&self) -> (r: bool)
        ensures
            r <==> (self.sync_direction is ToLocal || self.sync_direction is BothCloud
                || self.sync_direction is BothLocal || self.sync_direction is BothManual),
    {
        self.sync_direction.allows_download()
    }

    /// The library's URL scope on the remote: `users/{id}` or
    /// `groups/{id}`.
    pub fn scope_path(&self) -> (r: String)
        ensures
            self.library_type is User ==> r@ == "users/"@ + spec_dec_int(self.id as int),
            self.library_type is Group ==> r@ == "groups/"@ + spec_dec_int(self.id as int),
    {
        proof {
            reveal_strlit("users/");
            reveal_strlit("groups/");
        }
        let mut s = String::new();
        match self.library_type {
            LibraryType::User => s.append("users/"),
            LibraryType::Group => s.append("groups/"),
        }
        let digits = i64_to_dec(self.id);
        s.append(digits.as_str());
        s
    }

    /// The items endpoint of this library.
    pub fn build_items_url(&self) -> (r: String)
        ensures
            self.library_type is User ==> r@ == "users/"@ + spec_dec_int(self.id as int)
                + "/items"@,
            self.library_type is Group ==> r@ == "groups/"@ + spec_dec_int(self.id as int)
                + "/items"@,
    {
        let mut s = self.scope_path();
        s.append("/items");
        s
    }

    /// The collections endpoint of this library.
    pub fn build_collections_url(&self) -> (r: String)
        ensures
            self.library_type is User ==> r@ == "users/"@ + spec_dec_int(self.id as int)
                + "/collections"@,
            self.library_type is Group ==> r@ == "groups/"@ + spec_dec_int(self.id as int)
                + "/collections"@,
    {
        let mut s = self.scope_path();
        s.append("/collections");
        s
    }

    /// The tags endpoint of this library.
    pub fn build_tags_url(&self) -> (r: String)
        ensures
            self.library_type is User ==> r@ == "users/"@ + spec_dec_int(self.id as int)
                + "/tags"@,
            self.library_type is Group ==> r@ == "groups/"@ + spec_dec_int(self.id as int)
                + "/tags"@,
    {
        let mut s = self.scope_path();
        s.append("/tags");
        s
    }

    /// The deletions endpoint of this library.
    pub fn build_deleted_url(&self) -> (r: String)
        ensures
            self.library_type is User ==> r@ == "users/"@ + spec_dec_int(self.id as int)
                + "/deleted"@,
            self.library_type is Group ==> r@ == "groups/"@ + spec_dec_int(self.id as int)
                + "/deleted"@,
    {
        let mut s = self.scope_path();
        s.append("/deleted");
        s
    }

    /// The record after a local reset: every version watermark zeroed,
    /// everything else kept. The mirror's rows are truncated beside it.
    pub fn into_cleared(self) -> (r: Library)
        ensures
            r == (Library {
                version: 0,
                item_version: 0,
                collection_version: 0,
                tag_version: 0,
                ..self
            }),
    {
        Library { version: 0, item_version: 0, collection_version: 0, tag_version: 0, ..self }
    }

    /// Commits the watermarks a sync ended with, stamping the
    /// modification time; the record notes whether any watermark
    /// advanced, which tells the registry that group metadata may need a
    /// refresh.
    pub fn into_committed(
        self,
        collection_version: i64,
        item_version: i64,
        tag_version: i64,
        now: i64,
    ) -> (r: Library)
        ensures
            r == (Library {
                collection_version,
                item_version,
                tag_version,
                modified: Some(now),
                is_modified: self.is_modified || collection_version > self.collection_version
                    || item_version > self.item_version || tag_version > self.tag_version,
                ..self
            }),
    {
        let advanced = collection_version > self.collection_version || item_version
            > self.item_version || tag_version > self.tag_version;
        let was = self.is_modified;
        Library {
            collection_version,
            item_version,
            tag_version,
            modified: Some(now),
            is_modified: was || advanced,
            ..self
        }
    }
}

} // verus!
