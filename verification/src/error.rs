//! The error taxonomy of the engine. Failures of outside collaborators
//! (database, transport, blob store, decoding) reach the library as plain
//! values and are classified here.

use vstd::prelude::*;
use crate::types::compare_str;

verus! {

/// One error of the engine. Variants that wrap a `String` carry the
/// collaborator's own message text.
#[derive(Debug, Clone)]
pub enum Error {
    /// A relational-store failure.
    Database(String),
    /// A transport failure.
    Http(String),
    /// A failure to encode or decode a document body.
    Json(String),
    /// A malformed configuration.
    Config(String),
    /// A file-system failure.
    Io(String),
    /// A malformed URL.
    UrlParse(String),
    /// An object-store failure.
    Storage(String),
    /// An entity that was expected to exist is absent.
    NotFound(String),
    /// Content failed an integrity or shape check.
    Validation(String),
    /// A failure of the synchronization protocol itself.
    Sync(String),
    /// An upsert hit a unique constraint.
    UniqueViolation { constraint: String },
    /// A lookup returned no row; drives create-if-missing paths.
    EmptyResult,
    /// A value that the engine cannot work with.
    InvalidData(String),
    /// The remote service answered with a failing status code.
    Api { code: u16, message: String },
    /// The remote service asked for a pause before the next request.
    RateLimit { retry_after: Option<u64> },
}

impl Error {
    /// Whether this error is a unique-constraint violation on the named
    /// constraint.
    pub fn is_unique_violation(&self, constraint: &str) -> (r: bool)
        ensures
            r <==> (self matches Error::UniqueViolation { constraint: c } && c@ == constraint@),
    {
        match self {
            Error::UniqueViolation { constraint: c } => compare_str(c.as_str(), constraint),
            _ => false,
        }
    }

    /// Whether this error reports an absent row.
    pub fn is_empty_result(&self) -> (r: bool)
        ensures
            r <==> self is EmptyResult,
    {
        matches!(self, Error::EmptyResult)
    }

    /// Whether this error reports an entity absent on the remote side.
    pub fn is_not_found(&self) -> (r: bool)
        ensures
            r <==> self is NotFound,
    {
        matches!(self, Error::NotFound(_))
    }

    /// Classifies a relational-store failure from its plain facts: whether
    /// the query found no row, the database's error code if it gave one,
    /// and the violated constraint's name if one was reported. An absent
    /// row becomes `EmptyResult`; code 23505 (a unique-constraint
    /// violation) is downgraded to `UniqueViolation`; everything else
    /// stays a `Database` error with the reported message.
    pub fn from_sqlx_error(
        row_not_found: bool,
        code: Option<&str>,
        constraint: Option<String>,
        message: String,
    ) -> (r: Error)
        ensures
            row_not_found ==> r is EmptyResult,
            !row_not_found && (code matches Some(c) && c@ == "23505"@) ==> (r matches
                Error::UniqueViolation { constraint: k } && k@ == match constraint {
                    Some(k0) => k0@,
                    None => "unknown"@,
                }),
            !row_not_found && !(code matches Some(c) && c@ == "23505"@) ==> (r matches
                Error::Database(m) && m@ == message@),
    {
        if row_not_found {
            return Error::EmptyResult;
        }
        let is_unique = match code {
            Some(c) => compare_str(c, "23505"),
            None => false,
        };
        if is_unique {
            let k = match constraint {
                Some(k0) => k0,
                None => "unknown".to_owned(),
            };
            Error::UniqueViolation { constraint: k }
        } else {
            Error::Database(message)
        }
    }
}

/// The result type of the engine.
pub type SyncResult<T> = Result<T, Error>;

} // verus!
