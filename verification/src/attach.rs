//! Attachment coordination: content hashes, blob paths, and the
//! decisions of the download and upload flows. Blobs live in an object
//! store keyed `attachments/{item key}/{filename}`; a row is only in step
//! with the remote when the blob at its path carries the row's hash.

use vstd::prelude::*;
use crate::error::Error;
use crate::error::SyncResult;
use crate::item::Item;
use crate::item::spec_field_lookup;
use crate::types::UploadAuthorization;
use crate::types::compare_str;

verus! {

/// The lowercase hex digest of a byte string. It depends on the bytes
/// alone, so two computations of it agree, in any process, on any
/// machine.
pub uninterp spec fn md5_hex_of(data: Seq<u8>) -> Seq<char>;

/// Relies on md5::compute: the digest is a pure function of the input
/// bytes, and its lower-hex form prints each of the sixteen digest bytes
/// as two hex digits.
#[verifier::external_body]
fn md5_hex(data: &[u8]) -> (r: String)
    ensures
        r@ == md5_hex_of(data@),
        r@.len() == 32,
{
    format!("{:x}", md5::compute(data))
}

/// Computes a blob's content hash as lowercase hex text.
pub fn content_md5(data: &[u8]) -> (r: String)
    ensures
        r@ == md5_hex_of(data@),
{
    md5_hex(data)
}

/// Accepts downloaded attachment bytes exactly when their hash is the
/// one the remote promised; corrupted content fails validation and never
/// reaches the object store.
pub fn accept_attachment_blob(data: Vec<u8>, expected_md5: &str) -> (r: SyncResult<Vec<u8>>)
    ensures
        r matches Ok(b) ==> b == data && md5_hex_of(b@) == expected_md5@,
        r is Ok <==> md5_hex_of(data@) == expected_md5@,
        r matches Err(e) ==> e is Validation,
{
    let actual = md5_hex(data.as_slice());
    if compare_str(actual.as_str(), expected_md5) {
        Ok(data)
    } else {
        Err(Error::Validation("attachment content hash mismatch".to_owned()))
    }
}

/// Whether stored bytes already carry the remote's hash, so a download
/// can be skipped.
pub fn blob_matches_md5(data: &[u8], expected_md5: &str) -> (r: bool)
    ensures
        r <==> md5_hex_of(data@) == expected_md5@,
{
    let actual = md5_hex(data);
    compare_str(actual.as_str(), expected_md5)
}

/// The object-store folder of an item's attachments.
pub fn attachment_folder(key: &str) -> (r: String)
    ensures
        r@ == "attachments/"@ + key@,
{
    proof {
        reveal_strlit("attachments/");
    }
    let mut s = String::new();
    s.append("attachments/");
    s.append(key);
    s
}

/// The canonical object-store path of an attachment blob.
pub fn attachment_path(key: &str, filename: &str) -> (r: String)
    ensures
        r@ == "attachments/"@ + key@ + "/"@ + filename@,
{
    proof {
        reveal_strlit("attachments/");
        reveal_strlit("/");
    }
    let mut s = String::new();
    s.append("attachments/");
    s.append(key);
    s.append("/");
    s.append(filename);
    s
}

/// Whether a link mode names a file-backed attachment, the only kind
/// whose blob moves through the object store.
pub fn is_file_link_mode(link_mode: &str) -> (r: bool)
    ensures
        r <==> (link_mode@ == "imported_file"@ || link_mode@ == "linked_file"@),
{
    compare_str(link_mode, "imported_file") || compare_str(link_mode, "linked_file")
}

/// What an item's attachment download asks for next.
#[derive(Debug, Clone, Copy, PartialEq, Eq, Structural)]
pub enum AttachmentPlan {
    /// The item is no file-backed attachment; nothing to do.
    NotFileAttachment,
    /// The stored blob already carries the remote's hash; nothing to do.
    AlreadyPresent,
    /// The blob must be fetched from the remote.
    Fetch,
}

/// The filename under which an item's blob is stored; an item that names
/// none gets "unknown".
pub fn attachment_filename(item: &Item) -> (r: String)
    ensures
        match spec_field_lookup(item.data.extra_fields@, "filename"@) {
            Some(v) => r@ == v,
            None => r@ == "unknown"@,
        },
{
    match item.extra_field("filename") {
        Some(v) => v.clone(),
        None => "unknown".to_owned(),
    }
}

/// Plans an item's attachment download. Items whose link mode is not
/// file-backed are skipped; when the remote states a hash and the stored
/// blob already carries it, the download is skipped; everything else is
/// fetched.
pub fn plan_attachment_download(item: &Item, existing: Option<&Vec<u8>>) -> (r: AttachmentPlan)
    ensures
        ({
            let mode = spec_field_lookup(item.data.extra_fields@, "linkMode"@);
            let cloud = spec_field_lookup(item.data.extra_fields@, "md5"@);
            if !(mode == Some("imported_file"@) || mode == Some("linked_file"@)) {
                r is NotFileAttachment
            } else {
                match (cloud, existing) {
                    (Some(h), Some(b)) => if md5_hex_of(b@) == h {
                        r is AlreadyPresent
                    } else {
                        r is Fetch
                    },
                    _ => r is Fetch,
                }
            }
        }),
{
    proof {
        reveal_strlit("imported_file");
        reveal_strlit("linked_file");
    }
    let is_file = match item.extra_field("linkMode") {
        Some(mode) => is_file_link_mode(mode.as_str()),
        None => false,
    };
    if !is_file {
        return AttachmentPlan::NotFileAttachment;
    }
    match (item.extra_field("md5"), existing) {
        (Some(h), Some(b)) => {
            if blob_matches_md5(b.as_slice(), h.as_str()) {
                AttachmentPlan::AlreadyPresent
            } else {
                AttachmentPlan::Fetch
            }
        },
        _ => AttachmentPlan::Fetch,
    }
}

/// Splits a blob path into its folder and its filename at the last
/// separator; a path without one is malformed.
pub fn split_blob_path(path: &str) -> (r: SyncResult<(String, String)>)
    ensures
        r matches Ok((folder, name)) ==> path@ == folder@ + "/"@ + name@ && (forall|i: int|
            0 <= i < name@.len() ==> name@[i] != '/'),
        r matches Err(e) ==> e is Validation,
        r is Ok <==> exists|i: int| 0 <= i < path@.len() && path@[i] == '/',
{
    proof {
        reveal_strlit("/");
    }
    let n = path.unicode_len();
    let mut cut: Option<usize> = None;
    let mut i: usize = 0;
    while i < n
        invariant
            n == path@.len(),
            i <= n,
            match cut {
                Some(c) => c < i && path@[c as int] == '/' && (forall|j: int|
                    c < j < i ==> path@[j] != '/'),
                None => forall|j: int| 0 <= j < i ==> path@[j] != '/',
            },
        decreases n - i,
    {
        if path.get_char(i) == '/' {
            cut = Some(i);
        }
        i = i + 1;
    }
    match cut {
        None => {
            proof {
                if exists|i: int| 0 <= i < path@.len() && path@[i] == '/' {
                    let w = choose|i: int| 0 <= i < path@.len() && path@[i] == '/';
                    assert(path@[w] != '/');
                }
            }
            Err(Error::Validation("blob path names no folder".to_owned()))
        },
        Some(c) => {
            proof {
                assert(0 <= c < path@.len() && path@[c as int] == '/');
            }
            let folder = path.substring_char(0, c);
            let name = path.substring_char(c + 1, n);
            let sep = path.substring_char(c, c + 1);
            proof {
                assert(sep@ =~= "/"@);
                assert(path@ =~= folder@ + sep@ + name@);
                assert(forall|i: int| 0 <= i < name@.len() ==> name@[i] == path@[c + 1 + i]);
            }
            Ok((folder.to_owned(), name.to_owned()))
        },
    }
}

/// Plans an item's attachment upload: only attachments carry a blob, so
/// anything else fails validation before any store or remote call; an
/// attachment's blob is read from its canonical folder and filename.
pub fn plan_attachment_upload(item: &Item) -> (r: SyncResult<(String, String)>)
    ensures
        item.data.item_type@ != "attachment"@ ==> (r matches Err(e) && e is Validation),
        item.data.item_type@ == "attachment"@ ==> (r matches Ok((folder, name)) && folder@
            == "attachments/"@ + item.key@ && name@ == match spec_field_lookup(
            item.data.extra_fields@,
            "filename"@,
        ) {
            Some(v) => v,
            None => "unknown"@,
        }),
{
    if !item.is_attachment() {
        return Err(Error::Validation("item is not an attachment".to_owned()));
    }
    Ok((attachment_folder(item.key.as_str()), attachment_filename(item)))
}

/// What an upload authorization asks for next: nothing when the remote
/// already holds identical content; otherwise the multipart upload's URL,
/// key and form parameters. An authorization that neither reports the
/// content present nor carries all three parts is malformed.
pub fn upload_auth_plan(auth: UploadAuthorization) -> (r: SyncResult<
    Option<(String, String, Vec<(String, String)>)>,
>)
    ensures
        auth.exists ==> (r matches Ok(p) && p is None),
        !auth.exists && auth.upload_url is Some && auth.upload_key is Some && auth.params is Some
            ==> (r matches Ok(p) && p == Some(
            (auth.upload_url->Some_0, auth.upload_key->Some_0, auth.params->Some_0),
        )),
        !auth.exists && !(auth.upload_url is Some && auth.upload_key is Some
            && auth.params is Some) ==> (r matches Err(Error::Api { code, .. }) && code == 500),
{
    if auth.exists {
        return Ok(None);
    }
    match (auth.upload_url, auth.upload_key, auth.params) {
        (Some(url), Some(key), Some(params)) => Ok(Some((url, key, params))),
        _ => Err(
            Error::Api { code: 500, message: "invalid upload authorization response".to_owned() },
        ),
    }
}

} // verus!
