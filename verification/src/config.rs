//! The engine's configuration, as plain values. Reading and decoding the
//! configuration file happens outside; the accessors here carry the
//! defaults the engine promises.

use vstd::prelude::*;

verus! {

/// The relational store's coordinates.
#[derive(Debug, Clone, PartialEq)]
pub struct DatabaseConfig {
    pub server_type: String,
    pub dsn: String,
    pub conn_max: Option<i32>,
    pub schema: String,
}

/// An optional mirror target's coordinates.
#[derive(Debug, Clone, PartialEq)]
pub struct GitlabConfig {
    pub token: String,
    pub project: String,
    pub url: String,
    pub active: bool,
}

/// The object store's coordinates.
#[derive(Debug, Clone, PartialEq)]
pub struct S3Config {
    pub endpoint: String,
    pub access_key_id: String,
    pub secret_access_key: String,
    pub use_ssl: bool,
}

/// The engine's configuration.
#[derive(Debug, Clone, PartialEq)]
pub struct Config {
    pub service: Option<String>,
    pub synconly: Option<Vec<i64>>,
    pub clear_before_sync: Option<Vec<i64>>,
    pub endpoint: String,
    pub apikey: String,
    pub logfile: Option<String>,
    pub loglevel: Option<String>,
    pub access_log: Option<String>,
    pub new_group_active: Option<bool>,
    pub db: DatabaseConfig,
    pub group_cache_expiration: Option<String>,
    pub gitlab: Option<GitlabConfig>,
    pub s3: S3Config,
}

/// Copies a list of library identifiers.
fn copy_ids(v: &Vec<i64>) -> (r: Vec<i64>)
    ensures
        r@ == v@,
{
    let n = v.len();
    let mut r: Vec<i64> = Vec::new();
    let mut i: usize = 0;
    while i < n
        invariant
            n == v@.len(),
            i <= n,
            r@ == v@.subrange(0, i as int),
        decreases n - i,
    {
        r.push(v[i]);
        proof {
            assert(r@ =~= v@.subrange(0, i + 1 as int));
        }
        i = i + 1;
    }
    proof {
        assert(v@.subrange(0, n as int) =~= v@);
    }
    r
}

impl Config {
    /// The allowlist of libraries to sync; absent means empty, which
    /// admits every library.
    pub fn synconly(&self) -> (r: Vec<i64>)
        ensures
            r@ == match self.synconly {
                Some(v) => v@,
                None => Seq::<i64>::empty(),
            },
    {
        match &self.synconly {
            Some(v) => copy_ids(v),
            None => Vec::new(),
        }
    }

    /// The libraries whose local state is reset before this run; absent
    /// means none.
    pub fn clear_before_sync(&self) -> (r: Vec<i64>)
        ensures
            r@ == match self.clear_before_sync {
                Some(v) => v@,
                None => Seq::<i64>::empty(),
            },
    {
        match &self.clear_before_sync {
            Some(v) => copy_ids(v),
            None => Vec::new(),
        }
    }

    /// Whether a newly discovered group library starts active; unset
    /// means inactive.
    pub fn new_group_active(&self) -> (r: bool)
        ensures
            r == match self.new_group_active {
                Some(b) => b,
                None => false,
            },
    {
        match self.new_group_active {
            Some(b) => b,
            None => false,
        }
    }

    /// The configured log level; unset means "info".
    pub fn loglevel(&self) -> (r: String)
        ensures
            r@ == match self.loglevel {
                Some(l) => l@,
                None => "info"@,
            },
    {
        match &self.loglevel {
            Some(l) => l.clone(),
            None => "info".to_owned(),
        }
    }
}

} // verus!
