//! The decisions around the asset database's index: how paths are written into
//! it, how a query is built, and which uuid and time a refresh records.
use vstd::prelude::*;

use crate::text::push_char;

verus! {

/// A point in time: whole seconds since the Unix epoch, and nanoseconds
/// within that second.
#[derive(Clone, Copy, PartialEq, Eq, Structural)]
pub struct Timestamp {
    pub secs: i64,
    pub nanos: u32,
}

/// Whether `a` is strictly later than `b`.
pub open spec fn is_after(a: Timestamp, b: Timestamp) -> bool {
    a.secs > b.secs || (a.secs == b.secs && a.nanos > b.nanos)
}

impl Timestamp {
    /// Whether `self` is strictly later than `other`.
    pub fn after(&self, other: &Timestamp) -> (r: bool)
        ensures
            r == is_after(*self, *other),
    {
        self.secs > other.secs || (self.secs == other.secs && self.nanos > other.nanos)
    }
}

/// The uuid's version field (bits 76 to 79).
pub open spec fn uuid_version(u: u128) -> u128 {
    (u >> 76u128) & 0xfu128
}

/// The uuid's variant field (bits 62 and 63).
pub open spec fn uuid_variant(u: u128) -> u128 {
    (u >> 62u128) & 0x3u128
}

/// Whether `u` is a random (version 4, RFC 4122 variant) uuid.
pub open spec fn is_random_uuid(u: u128) -> bool {
    uuid_version(u) == 4 && uuid_variant(u) == 2
}

/// Calls `Uuid::new_v4()` and returns its value as an integer. Its source
/// masks random bits so that the version field is 4 and the variant field is
/// binary 10; the other bits come from a random source and are not stated.
#[verifier::external_body]
fn new_random_uuid() -> (u: u128)
    ensures
        is_random_uuid(u),
{
    uuid::Uuid::new_v4().as_u128()
}

/// `path` with each backslash made a forward slash.
pub open spec fn normalized(path: Seq<char>) -> Seq<char> {
    path.map_values(|c: char| if c == '\\' { '/' } else { c })
}

/// Writes a path as the index stores it: with forward slashes only.
pub fn normalize_path(path: &str) -> (r: String)
    ensures
        r@ == normalized(path@),
{
    let n = path.unicode_len();
    let mut r = String::new();
    let mut i: usize = 0;
    while i < n
        invariant
            n == path@.len(),
            i <= n,
            r@ == normalized(path@.subrange(0, i as int)),
        decreases n - i,
    {
        let c = path.get_char(i);
        let d = if c == '\\' {
            '/'
        } else {
            c
        };
        push_char(&mut r, d);
        proof {
            assert(path@.subrange(0, i + 1) =~= path@.subrange(0, i as int).push(c));
            assert(normalized(path@.subrange(0, i + 1)) =~= normalized(path@.subrange(0, i as int)).push(d));
        }
        i += 1;
    }
    proof {
        assert(path@.subrange(0, n as int) =~= path@);
    }
    r
}

/// The condition on the label column for an asset path with label `label`.
pub open spec fn label_condition(label: Option<Seq<char>>) -> Seq<char> {
    match label {
        Some(l) => "label = "@ + l,
        None => "label is null"@,
    }
}

/// The query for the uuid of a live asset at a path (bound as the first
/// parameter) with label `label`.
pub open spec fn uuid_query(label: Option<Seq<char>>) -> Seq<char> {
    "select uuid from assets where not deleted and path = ?1 and "@ + label_condition(label)
}

/// Builds the query for the uuid of a live asset with label `label`; the label
/// is written into the query as it is.
pub fn get_uuid_query(label: Option<&str>) -> (q: String)
    ensures
        q@ == uuid_query(
            match label {
                Some(l) => Some(l@),
                None => None,
            },
        ),
{
    let mut q = "select uuid from assets where not deleted and path = ?1 and ".to_string();
    match label {
        Some(l) => {
            q.append("label = ");
            q.append(l);
        },
        None => {
            q.append("label is null");
        },
    }
    q
}

/// How a query for one row ended.
pub enum QueryError {
    /// The query found no row.
    NoRows,
    /// The database failed, with its message.
    Failed(String),
}

/// The outcome of a lookup: found, found nothing, or failed.
pub open spec fn lookup_outcome<T>(r: Result<T, QueryError>) -> Result<Option<T>, QueryError> {
    match r {
        Ok(v) => Ok(Some(v)),
        Err(QueryError::NoRows) => Ok(None),
        Err(e) => Err(e),
    }
}

/// Turns the result of a one-row query into a lookup: no row is no value.
pub fn to_lookup<T>(r: Result<T, QueryError>) -> (o: Result<Option<T>, QueryError>)
    ensures
        o == lookup_outcome(r),
{
    match r {
        Ok(v) => Ok(Some(v)),
        Err(QueryError::NoRows) => Ok(None),
        Err(e) => Err(e),
    }
}

/// A path in the asset folder, with the label of a sub-asset if it names one.
pub struct AssetPathParts {
    pub path: String,
    pub label: Option<String>,
}

/// The asset path of a row of the index: its path, and its label if it has one.
pub fn asset_path_of_row(path: String, label: Option<String>) -> (p: AssetPathParts)
    ensures
        p.path == path,
        p.label == label,
{
    AssetPathParts { path, label }
}

/// What a refresh records for a source file, given the row the index has for
/// it (its uuid and modification time) and the file's modification time:
/// nothing where the file is not newer; else the row's uuid, or `fresh` for a
/// new row, with the file's time.
pub open spec fn refreshed_entry(existing: Option<(u128, Timestamp)>, modified_at: Timestamp, fresh: u128) -> Option<(u128, Timestamp)> {
    match existing {
        Some((uuid, last)) => if is_after(modified_at, last) {
            Some((uuid, modified_at))
        } else {
            None
        },
        None => Some((fresh, modified_at)),
    }
}

/// Decides what a refresh records for a source file, with `fresh` as the uuid
/// of a new row.
pub fn refresh_entry_with(existing: Option<(u128, Timestamp)>, modified_at: Timestamp, fresh: u128) -> (r: Option<(u128, Timestamp)>)
    ensures
        r == refreshed_entry(existing, modified_at, fresh),
{
    match existing {
        Some((uuid, last)) => {
            if modified_at.after(&last) {
                Some((uuid, modified_at))
            } else {
                None
            }
        },
        None => Some((fresh, modified_at)),
    }
}

/// Decides what a refresh records for a source file; a new row gets a new
/// random uuid.
pub fn refresh_entry(existing: Option<(u128, Timestamp)>, modified_at: Timestamp) -> (r: Option<(u128, Timestamp)>)
    ensures
        existing is None ==> (r matches Some((u, t)) && is_random_uuid(u) && t == modified_at),
        existing is Some ==> r == refreshed_entry(existing, modified_at, 0),
{
    match existing {
        Some(_) => refresh_entry_with(existing, modified_at, 0),
        None => {
            let fresh = new_random_uuid();
            refresh_entry_with(existing, modified_at, fresh)
        },
    }
}

/// The uuid a refresh records for a labelled sub-asset: the one the index has
/// for it, or a new random one.
pub fn labeled_asset_uuid(existing: Option<u128>) -> (u: u128)
    ensures
        match existing {
            Some(e) => u == e,
            None => is_random_uuid(u),
        },
{
    match existing {
        Some(e) => e,
        None => new_random_uuid(),
    }
}

/// The meta file the database writes beside an asset.
pub struct AssetDatabaseMeta {
    pub meta_format_version: String,
    pub uuid: u128,
    pub dependencies: Vec<u128>,
}

impl AssetDatabaseMeta {
    /// Format version "1.0", the nil uuid and no dependencies.
    pub fn default_meta() -> (m: Self)
        ensures
            m.meta_format_version@ == "1.0"@,
            m.uuid == 0,
            m.dependencies@.len() == 0,
    {
        AssetDatabaseMeta { meta_format_version: "1.0".to_string(), uuid: 0, dependencies: Vec::new() }
    }
}

/// The plugin that keeps the asset database.
pub struct EditorAssetDatabasePlugin;

/// What a refresh does with an entry of the asset folder.
#[derive(PartialEq, Eq, Structural)]
pub enum EntryAction {
    /// Refresh the directory's entries.
    Recurse,
    /// Leave the file out: it has no extension, or no loader reads it.
    Skip,
    /// Index the file as an asset.
    Index,
}

/// Decides what a refresh does with an entry: a directory is walked, a file
/// with an extension that a loader reads is indexed, anything else left out.
pub fn classify_entry(is_dir: bool, has_extension: bool, has_loader: bool) -> (a: EntryAction)
    ensures
        a == (if is_dir {
            EntryAction::Recurse
        } else if has_extension && has_loader {
            EntryAction::Index
        } else {
            EntryAction::Skip
        }),
{
    if is_dir {
        EntryAction::Recurse
    } else if !has_extension || !has_loader {
        EntryAction::Skip
    } else {
        EntryAction::Index
    }
}

/// The asset path a resolver gives for an id: the one the database has, or
/// the empty path.
pub fn resolved_asset_path(found: Option<AssetPathParts>) -> (p: AssetPathParts)
    ensures
        match found {
            Some(f) => p == f,
            None => p.path@.len() == 0 && p.label is None,
        },
{
    match found {
        Some(f) => f,
        None => AssetPathParts { path: String::new(), label: None },
    }
}

} // verus!
