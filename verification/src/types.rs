//! Core enumerations of the sync protocol: the kind of a library, the
//! per-library conflict policy, and the per-entity sync state.

use vstd::prelude::*;

verus! {

/// The kind of a synchronized library: a user's personal library or a
/// shared group library.
#[derive(Debug, Clone, Copy, PartialEq, Eq, Structural)]
pub enum LibraryType {
    User,
    Group,
}

impl Default for LibraryType {
    fn default() -> (r: Self)
        ensures
            r == LibraryType::Group,
    {
        LibraryType::Group
    }
}

impl LibraryType {
    /// The wire label of this kind, as the relational store and the
    /// remote service spell it.
    pub fn label(&self) -> (r: &'static str)
        ensures
            self is User ==> r@ == "user"@,
            self is Group ==> r@ == "group"@,
    {
        match self {
            LibraryType::User => "user",
            LibraryType::Group => "group",
        }
    }

    /// Decodes a wire label; any text that is not a known label is
    /// rejected.
    pub fn from_label(s: &str) -> (r: Option<LibraryType>)
        ensures
            s@ == "user"@ ==> r == Some(LibraryType::User),
            s@ == "group"@ ==> r == Some(LibraryType::Group),
            s@ != "user"@ && s@ != "group"@ ==> r is None,
    {
        proof {
            reveal_strlit("user");
            reveal_strlit("group");
            assert("user"@.len() == 4);
            assert("group"@.len() == 5);
        }
        if compare_str(s, "user") {
            Some(LibraryType::User)
        } else if compare_str(s, "group") {
            Some(LibraryType::Group)
        } else {
            None
        }
    }
}

/// The per-library conflict policy: which sides may issue writes and
/// which side wins on divergence.
#[derive(Debug, Clone, Copy, PartialEq, Eq, Structural)]
pub enum SyncDirection {
    Off,
    ToCloud,
    ToLocal,
    BothCloud,
    BothLocal,
    BothManual,
}

impl Default for SyncDirection {
    fn default() -> (r: Self)
        ensures
            r == SyncDirection::Off,
    {
        SyncDirection::Off
    }
}

impl SyncDirection {
    /// The wire label of this policy, as the relational store spells it.
    pub fn label(&self) -> (r: &'static str)
        ensures
            self is Off ==> r@ == "none"@,
            self is ToCloud ==> r@ == "tocloud"@,
            self is ToLocal ==> r@ == "tolocal"@,
            self is BothCloud ==> r@ == "bothcloud"@,
            self is BothLocal ==> r@ == "bothlocal"@,
            self is BothManual ==> r@ == "bothmanual"@,
    {
        match self {
            SyncDirection::Off => "none",
            SyncDirection::ToCloud => "tocloud",
            SyncDirection::ToLocal => "tolocal",
            SyncDirection::BothCloud => "bothcloud",
            SyncDirection::BothLocal => "bothlocal",
            SyncDirection::BothManual => "bothmanual",
        }
    }

    /// Decodes a wire label; any unknown label decodes to `Off`, the
    /// policy under which a library takes part in no synchronization.
    pub fn from_label(s: &str) -> (r: SyncDirection)
        ensures
            s@ == "tocloud"@ ==> r == SyncDirection::ToCloud,
            s@ == "tolocal"@ ==> r == SyncDirection::ToLocal,
            s@ == "bothcloud"@ ==> r == SyncDirection::BothCloud,
            s@ == "bothlocal"@ ==> r == SyncDirection::BothLocal,
            s@ == "bothmanual"@ ==> r == SyncDirection::BothManual,
            s@ != "tocloud"@ && s@ != "tolocal"@ && s@ != "bothcloud"@ && s@ != "bothlocal"@
                && s@ != "bothmanual"@ ==> r == SyncDirection::Off,
    {
        proof {
            reveal_strlit("tocloud");
            reveal_strlit("tolocal");
            reveal_strlit("bothcloud");
            reveal_strlit("bothlocal");
            reveal_strlit("bothmanual");
            assert("tocloud"@.len() == 7);
            assert("tolocal"@.len() == 7);
            assert("bothcloud"@.len() == 9);
            assert("bothlocal"@.len() == 9);
            assert("bothmanual"@.len() == 10);
            assert("tocloud"@[2] == 'c' && "tolocal"@[2] == 'l');
            assert("bothcloud"@[4] == 'c' && "bothlocal"@[4] == 'l');
        }
        if compare_str(s, "tocloud") {
            SyncDirection::ToCloud
        } else if compare_str(s, "tolocal") {
            SyncDirection::ToLocal
        } else if compare_str(s, "bothcloud") {
            SyncDirection::BothCloud
        } else if compare_str(s, "bothlocal") {
            SyncDirection::BothLocal
        } else if compare_str(s, "bothmanual") {
            SyncDirection::BothManual
        } else {
            SyncDirection::Off
        }
    }

    /// Whether this policy lets the local side issue writes to the cloud.
    pub fn allows_upload(&self) -> (r: bool)
        ensures
            r <==> (self is ToCloud || self is BothCloud || self is BothLocal
                || self is BothManual),
    {
        match self {
            SyncDirection::ToCloud
            | SyncDirection::BothCloud
            | SyncDirection::BothLocal
            | SyncDirection::BothManual => true,
            _ => false,
        }
    }

    /// Whether this policy lets the local side take writes from the cloud.
    pub fn allows_download(&self) -> (r: bool)
        ensures
            r <==> (self is ToLocal || self is BothCloud || self is BothLocal
                || self is BothManual),
    {
        match self {
            SyncDirection::ToLocal
            | SyncDirection::BothCloud
            | SyncDirection::BothLocal
            | SyncDirection::BothManual => true,
            _ => false,
        }
    }
}

/// The per-entity sync state relative to the remote: freshly created
/// locally, modified locally, in step with the remote, or partially
/// uploaded and awaiting a retry.
#[derive(Debug, Clone, Copy, PartialEq, Eq, Structural)]
pub enum SyncStatus {
    New,
    Synced,
    Modified,
    Incomplete,
}

impl Default for SyncStatus {
    fn default() -> (r: Self)
        ensures
            r == SyncStatus::New,
    {
        SyncStatus::New
    }
}

impl SyncStatus {
    /// The wire label of this state.
    pub fn label(&self) -> (r: &'static str)
        ensures
            self is New ==> r@ == "new"@,
            self is Synced ==> r@ == "synced"@,
            self is Modified ==> r@ == "modified"@,
            self is Incomplete ==> r@ == "incomplete"@,
    {
        match self {
            SyncStatus::New => "new",
            SyncStatus::Synced => "synced",
            SyncStatus::Modified => "modified",
            SyncStatus::Incomplete => "incomplete",
        }
    }

    /// Decodes a wire label; anything unknown is taken as `Synced`, the
    /// state that asks for no work.
    pub fn from_label(s: &str) -> (r: SyncStatus)
        ensures
            s@ == "new"@ ==> r == SyncStatus::New,
            s@ == "modified"@ ==> r == SyncStatus::Modified,
            s@ == "incomplete"@ ==> r == SyncStatus::Incomplete,
            s@ != "new"@ && s@ != "modified"@ && s@ != "incomplete"@ ==> r == SyncStatus::Synced,
    {
        proof {
            reveal_strlit("new");
            reveal_strlit("modified");
            reveal_strlit("incomplete");
            assert("new"@.len() == 3);
            assert("modified"@.len() == 8);
            assert("incomplete"@.len() == 10);
        }
        if compare_str(s, "new") {
            SyncStatus::New
        } else if compare_str(s, "modified") {
            SyncStatus::Modified
        } else if compare_str(s, "incomplete") {
            SyncStatus::Incomplete
        } else {
            SyncStatus::Synced
        }
    }

    /// Whether an entity in this state has local changes that an upload
    /// phase must push.
    pub fn needs_upload(&self) -> (r: bool)
        ensures
            r == spec_needs_upload(*self),
    {
        match self {
            SyncStatus::New | SyncStatus::Modified => true,
            _ => false,
        }
    }
}

/// Whether an entity in this state has local changes that an upload
/// phase must push.
pub open spec fn spec_needs_upload(st: SyncStatus) -> bool {
    st is New || st is Modified
}

/// The remote's description of an API key: who holds it and what it may
/// touch.
#[derive(Debug, Clone, PartialEq)]
pub struct ApiKey {
    pub key: String,
    pub user_id: i64,
    pub username: String,
    pub display_name: String,
    pub access: ApiKeyAccess,
}

/// The access an API key grants, split into the user's own library and
/// group libraries.
#[derive(Debug, Clone, PartialEq)]
pub struct ApiKeyAccess {
    pub user: ApiKeyUserAccess,
    pub groups: ApiKeyGroupAccess,
}

/// Per-capability access flags; a flag the remote did not state is absent.
#[derive(Debug, Clone, PartialEq)]
pub struct ApiKeyUserAccess {
    pub library: Option<bool>,
    pub files: Option<bool>,
    pub notes: Option<bool>,
    pub write: Option<bool>,
}

/// Access to group libraries; the remote states it for all groups at once.
#[derive(Debug, Clone, PartialEq)]
pub struct ApiKeyGroupAccess {
    pub all: ApiKeyUserAccess,
}

/// One creator of an item.
#[derive(Debug, Clone, PartialEq)]
pub struct Creator {
    pub creator_type: String,
    pub first_name: Option<String>,
    pub last_name: String,
    pub name: Option<String>,
}

/// A tag as it appears inside an item's data.
#[derive(Debug, Clone, PartialEq)]
pub struct TagData {
    pub tag: String,
    pub tag_type: Option<i32>,
}

/// The remote's metadata about a collection.
#[derive(Debug, Clone, PartialEq)]
pub struct CollectionMeta {
    pub num_collections: i32,
    pub num_items: i32,
}

/// The stored metadata of a tag row.
#[derive(Debug, Clone, PartialEq)]
pub struct TagMeta {
    pub tag_type: i64,
    pub num_items: i64,
}

/// A tag as the remote lists it.
#[derive(Debug, Clone, PartialEq)]
pub struct Tag {
    pub data: TagData,
}

/// The remote's tombstone feed: the keys and names deleted from the
/// library since a given version.
#[derive(Debug, Clone, PartialEq)]
pub struct Deletions {
    pub collections: Vec<String>,
    pub searches: Vec<String>,
    pub items: Vec<String>,
    pub tags: Vec<String>,
    pub settings: Vec<String>,
}

/// A relation map of an entity. The remote encodes an empty map as an
/// empty array, so the type keeps its own list of pairs.
#[derive(Debug, Clone, PartialEq, Default)]
pub struct RelationList(pub Vec<(String, String)>);

/// A value the remote serves either as one string or as a list of
/// strings.
#[derive(Debug, Clone, PartialEq)]
pub struct ZoteroStringList(pub Vec<String>);

/// A parent-collection reference. The remote encodes "no parent" as the
/// JSON literal `false`; here the empty string stands for it.
#[derive(Debug, Clone, PartialEq, Default)]
pub struct Parent(pub String);

impl Parent {
    /// Whether this reference names no parent.
    pub fn is_absent(&self) -> (r: bool)
        ensures
            r <==> self.0@.len() == 0,
    {
        self.0.as_str().is_empty()
    }
}

/// The remote's description of a group.
#[derive(Debug, Clone, PartialEq)]
pub struct GroupData {
    pub id: i64,
    pub version: i64,
    pub name: Option<String>,
    pub description: Option<String>,
    pub owner: Option<i64>,
    pub group_type: Option<String>,
    pub library_reading: Option<String>,
    pub library_editing: Option<String>,
    pub file_editing: Option<String>,
    pub url: Option<String>,
    pub has_image: Option<i64>,
    pub admins: Option<Vec<i64>>,
}

/// The remote's description of a user.
#[derive(Debug, Clone, PartialEq)]
pub struct UserData {
    pub id: i64,
    pub username: String,
    pub display_name: String,
}

/// A user as the remote lists one.
#[derive(Debug, Clone, PartialEq)]
pub struct User {
    pub data: UserData,
}

/// The library stanza of an entity answer.
#[derive(Debug, Clone, PartialEq)]
pub struct LibraryInfo {
    pub library_type: String,
    pub id: i64,
    pub name: String,
}

/// The remote's metadata about a group listing; times are seconds since
/// the epoch.
#[derive(Debug, Clone, PartialEq)]
pub struct GroupMeta {
    pub created: i64,
    pub last_modified: i64,
    pub num_items: i64,
}

/// One failed entry of a batched create answer.
#[derive(Debug, Clone, PartialEq)]
pub struct ItemCollectionCreateResultFailed {
    pub key: String,
    pub code: i64,
    pub message: String,
}

/// The remote's answer to a batched create: which keys succeeded, which
/// were unchanged, and which failed with what.
#[derive(Debug, Clone, PartialEq)]
pub struct ItemCollectionCreateResult {
    pub success: Vec<(String, String)>,
    pub unchanged: Vec<(String, String)>,
    pub failed: Vec<(String, ItemCollectionCreateResultFailed)>,
}

/// An upload authorization: either the remote already holds identical
/// content, or the URL, key and form parameters of a multipart upload.
#[derive(Debug, Clone, PartialEq)]
pub struct UploadAuthorization {
    pub exists: bool,
    pub upload_url: Option<String>,
    pub upload_key: Option<String>,
    pub params: Option<Vec<(String, String)>>,
}

/// The decoded body of a 201 upload-authorization answer.
#[derive(Debug, Clone, PartialEq)]
pub struct UploadAuthorizationResponse {
    pub url: String,
    pub upload_key: String,
    pub params: Vec<(String, String)>,
}

/// Options of an object-store put.
#[derive(Debug, Clone, PartialEq, Default)]
pub struct FilePutOptions {
    pub content_type: Option<String>,
}

/// Options of an object-store get.
#[derive(Debug, Clone, PartialEq, Default)]
pub struct FileGetOptions {
    pub version_id: Option<String>,
}

/// Options of an object-store stat.
#[derive(Debug, Clone, PartialEq, Default)]
pub struct FileStatOptions {}

/// Options of an object-store folder creation.
#[derive(Debug, Clone, PartialEq, Default)]
pub struct FolderCreateOptions {
    pub object_locking: bool,
}

/// What an object store reports about one blob; the modification time is
/// seconds since the epoch.
#[derive(Debug, Clone, PartialEq)]
pub struct FileInfo {
    pub name: String,
    pub size: u64,
    pub modified: i64,
    pub is_dir: bool,
}

/// Compares two text slices for equality of their character sequences.
pub fn compare_str(a: &str, b: &str) -> (r: bool)
    ensures
        r <==> a@ == b@,
{
    let ab = a.as_bytes();
    let bb = b.as_bytes();
    let r = compare_bytes(ab, bb);
    proof {
        vstd::utf8::encode_utf8_decode_utf8(a@);
        vstd::utf8::encode_utf8_decode_utf8(b@);
    }
    r
}

/// Compares two byte slices for equality.
pub fn compare_bytes(a: &[u8], b: &[u8]) -> (r: bool)
    ensures
        r <==> a@ == b@,
{
    if a.len() != b.len() {
        proof {
            assert(a@.len() != b@.len());
        }
        return false;
    }
    let n = a.len();
    let mut i: usize = 0;
    while i < n
        invariant
            n == a@.len() && n == b@.len(),
            i <= n,
            forall|j: int| 0 <= j < i ==> a@[j] == b@[j],
        decreases n - i,
    {
        if a[i] != b[i] {
            return false;
        }
        i = i + 1;
    }
    proof {
        assert(a@ =~= b@);
    }
    true
}

} // verus!
