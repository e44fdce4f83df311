//! The decisions of the machine-local entry cache: where its database file
//! lives, how its schema version is treated, which files a sync has to
//! re-read or drop, and how stored rows become entries again.  The SQL
//! itself runs around this library.

use std::collections::HashMap;

use vstd::prelude::*;

use crate::calendar::{chrono_datetime_parse, parse_datetime_with};
use crate::datetime::{Date, DateTime, MIN_YEAR};
use crate::entry::{Entry, EntryHeader, EventMeta, Frontmatter, TaskMeta, texts};
use crate::error::Error;
use crate::id::{ID_LIMIT, id_increment};
use crate::journal::{DuplicateTitlePolicy, filename_for, join_path, joined};
use crate::labels::flags_at;
use crate::ops::{entry_filename_from_frontmatter, parent_of, slug_for};
use crate::text::{chars_of, concat, owned, str_eq};

verus! {

/// Version of the cache schema, kept in the database's `user_version`.
pub const SCHEMA_VERSION: i32 = 3;

/// Path of the current cache database file in `cache_dir`.
pub fn db_path(cache_dir: &str) -> (res: String)
    ensures
        res@ == joined(cache_dir@, "cache_v3.db"@),
{
    join_path(cache_dir, "cache_v3.db")
}

/// The files of a cache database: the file itself and its write-ahead log
/// and shared-memory files.
pub fn db_files(db_path: &str) -> (res: Vec<String>)
    ensures
        res@.len() == 3,
        res@[0]@ == db_path@,
        res@[1]@ == db_path@ + "-wal"@,
        res@[2]@ == db_path@ + "-shm"@,
{
    let mut v: Vec<String> = Vec::new();
    v.push(owned(db_path));
    v.push(concat(db_path, "-wal"));
    v.push(concat(db_path, "-shm"));
    v
}

/// Summary of the cache state.
#[derive(Clone, Debug)]
pub struct CacheInfo {
    pub db_path: String,
    pub schema_version: i32,
    /// All `.md` files tracked, entries or not.
    pub file_count: u64,
    pub entry_count: u64,
    pub unique_tag_count: u64,
}

/// What to do with a cache database of a given schema version.
#[derive(Clone, Copy, Debug, PartialEq, Eq, Structural)]
pub enum SchemaAction {
    /// A fresh file: create the schema and record the version.
    Initialize,
    /// The current version: use it as it is.
    Open,
}

/// Version 0 is a fresh file, the current version is opened, any other
/// version is refused.
pub fn schema_action(db_version: i32) -> (res: Result<SchemaAction, Error>)
    ensures
        db_version == 0 ==> res == Ok::<SchemaAction, Error>(SchemaAction::Initialize),
        db_version == SCHEMA_VERSION ==> res == Ok::<SchemaAction, Error>(SchemaAction::Open),
        (db_version != 0 && db_version != SCHEMA_VERSION) ==> (res matches Err(
            Error::CacheSchemaTooNew { db_version: d, app_version: a },
        ) && d == db_version && a == SCHEMA_VERSION),
{
    if db_version == 0 {
        Ok(SchemaAction::Initialize)
    } else if db_version == SCHEMA_VERSION {
        Ok(SchemaAction::Open)
    } else {
        Err(Error::CacheSchemaTooNew { db_version, app_version: SCHEMA_VERSION })
    }
}

// ── sync ─────────────────────────────────────────────────────────────────────

/// The modification time stored for `path`, if it is stored.
pub open spec fn stored_mtime(stored: Seq<(String, i64)>, path: Seq<char>, n: int) -> Option<i64>
    decreases n,
{
    if n <= 0 {
        None
    } else if stored[n - 1].0@ == path {
        match stored_mtime(stored, path, n - 1) {
            Some(m) => Some(m),
            None => Some(stored[n - 1].1),
        }
    } else {
        stored_mtime(stored, path, n - 1)
    }
}

/// `path` is among the first `n` files found on disk.
pub open spec fn on_disk(disk: Seq<(String, i64)>, path: Seq<char>) -> bool {
    exists|i: int| 0 <= i < disk.len() && disk[i].0@ == path
}

/// The stored paths (of the first `n`) no longer on disk, in stored order.
pub open spec fn gone(stored: Seq<(String, i64)>, disk: Seq<(String, i64)>, n: int) -> Seq<Seq<char>>
    decreases n,
{
    if n <= 0 {
        seq![]
    } else if on_disk(disk, stored[n - 1].0@) {
        gone(stored, disk, n - 1)
    } else {
        gone(stored, disk, n - 1).push(stored[n - 1].0@)
    }
}

/// The positions (of the first `n`) of files on disk that are new or whose
/// modification time differs from the stored one.
pub open spec fn stale(disk: Seq<(String, i64)>, stored: Seq<(String, i64)>, n: int) -> Seq<int>
    decreases n,
{
    if n <= 0 {
        seq![]
    } else if stored_mtime(stored, disk[n - 1].0@, stored.len() as int) == Some(disk[n - 1].1) {
        stale(disk, stored, n - 1)
    } else {
        stale(disk, stored, n - 1).push(n - 1)
    }
}

/// The work of one cache sync.
#[derive(Debug)]
pub struct SyncPlan {
    /// Stored paths whose files are gone.
    pub removed: Vec<String>,
    /// Positions of the files on disk to re-read.
    pub changed: Vec<usize>,
}

fn stored_mtime_exec(stored: &Vec<(String, i64)>, path: &str) -> (res: Option<i64>)
    ensures
        res == stored_mtime(stored@, path@, stored@.len() as int),
{
    let mut i: usize = 0;
    while i < stored.len()
        invariant
            i <= stored@.len(),
            forall|j: int| 0 <= j < i ==> stored@[j].0@ != path@,
            forall|k: int| 0 <= k <= i ==> stored_mtime(stored@, path@, k) is None,
        decreases stored@.len() - i,
    {
        if str_eq(stored[i].0.as_str(), path) {
            proof {
                lemma_stored_first(stored@, path@, i as int, stored@.len() as int);
            }
            return Some(stored[i].1);
        }
        assert(stored_mtime(stored@, path@, i + 1) == stored_mtime(stored@, path@, i as int));
        i += 1;
    }
    None
}

proof fn lemma_stored_first(stored: Seq<(String, i64)>, path: Seq<char>, i: int, n: int)
    requires
        0 <= i < n <= stored.len(),
        stored[i].0@ == path,
        stored_mtime(stored, path, i) is None,
    ensures
        stored_mtime(stored, path, n) == Some(stored[i].1),
    decreases n - i,
{
    if n > i + 1 {
        lemma_stored_first(stored, path, i, n - 1);
    }
}

fn on_disk_exec(disk: &Vec<(String, i64)>, path: &str) -> (res: bool)
    ensures
        res == on_disk(disk@, path@),
{
    let mut i: usize = 0;
    while i < disk.len()
        invariant
            i <= disk@.len(),
            forall|j: int| 0 <= j < i ==> disk@[j].0@ != path@,
        decreases disk@.len() - i,
    {
        if str_eq(disk[i].0.as_str(), path) {
            return true;
        }
        i += 1;
    }
    false
}

/// Plan a sync of the stored `(path, mtime)` rows against the files found on
/// disk: stored files gone from disk are removed; files on disk that are new
/// or whose modification time changed are re-read.
pub fn plan_sync(disk: &Vec<(String, i64)>, stored: &Vec<(String, i64)>) -> (res: SyncPlan)
    ensures
        res.removed@.map_values(|s: String| s@) == gone(stored@, disk@, stored@.len() as int),
        res.changed@.map_values(|i: usize| i as int) == stale(disk@, stored@, disk@.len() as int),
{
    let mut removed: Vec<String> = Vec::new();
    let mut i: usize = 0;
    while i < stored.len()
        invariant
            i <= stored@.len(),
            removed@.map_values(|s: String| s@) == gone(stored@, disk@, i as int),
        decreases stored@.len() - i,
    {
        if !on_disk_exec(disk, stored[i].0.as_str()) {
            let ghost before = removed@;
            removed.push(stored[i].0.clone());
            assert(removed@.map_values(|s: String| s@) =~= before.map_values(|s: String| s@).push(
                stored@[i as int].0@,
            ));
        }
        i += 1;
    }
    let mut changed: Vec<usize> = Vec::new();
    let mut j: usize = 0;
    while j < disk.len()
        invariant
            j <= disk@.len(),
            changed@.map_values(|i: usize| i as int) == stale(disk@, stored@, j as int),
        decreases disk@.len() - j,
    {
        let stored_m = stored_mtime_exec(stored, disk[j].0.as_str());
        let same = match stored_m {
            Some(m) => m == disk[j].1,
            None => false,
        };
        if !same {
            let ghost before = changed@;
            changed.push(j);
            assert(changed@.map_values(|i: usize| i as int) =~= before.map_values(|i: usize| i as int).push(
                j as int,
            ));
        }
        j += 1;
    }
    SyncPlan { removed, changed }
}

/// A cache whose stored rows are the files on disk has nothing to do.
pub proof fn lemma_sync_plan_settles(files: Seq<(String, i64)>)
    requires
        forall|i: int, j: int| 0 <= i < j < files.len() ==> files[i].0@ != files[j].0@,
    ensures
        gone(files, files, files.len() as int).len() == 0,
        stale(files, files, files.len() as int).len() == 0,
{
    lemma_gone_empty(files, files.len() as int);
    lemma_stale_empty(files, files.len() as int);
}

proof fn lemma_gone_empty(files: Seq<(String, i64)>, n: int)
    requires
        n <= files.len(),
    ensures
        gone(files, files, n).len() == 0,
    decreases n,
{
    if n > 0 {
        assert(on_disk(files, files[n - 1].0@));
        lemma_gone_empty(files, n - 1);
    }
}

proof fn lemma_stale_empty(files: Seq<(String, i64)>, n: int)
    requires
        n <= files.len(),
        forall|i: int, j: int| 0 <= i < j < files.len() ==> files[i].0@ != files[j].0@,
    ensures
        stale(files, files, n).len() == 0,
    decreases n,
{
    if n > 0 {
        lemma_stored_none_before(files, files[n - 1].0@, n - 1, n - 1);
        lemma_stored_first(files, files[n - 1].0@, n - 1, files.len() as int);
        lemma_stale_empty(files, n - 1);
    }
}

proof fn lemma_stored_none_before(files: Seq<(String, i64)>, path: Seq<char>, i: int, k: int)
    requires
        0 <= k <= i < files.len(),
        files[i].0@ == path,
        forall|a: int, b: int| 0 <= a < b < files.len() ==> files[a].0@ != files[b].0@,
    ensures
        stored_mtime(files, path, k) is None,
    decreases k,
{
    if k > 0 {
        assert(files[k - 1].0@ != files[i].0@);
        lemma_stored_none_before(files, path, i, k - 1);
    }
}

/// What a sync does about a duplicate title found among the entries: with
/// `Allow`, or without duplicates, nothing; with `Warn`, a warning to show;
/// with `Error`, the sync fails.
pub fn duplicate_title_outcome(policy: DuplicateTitlePolicy, dup: Option<String>) -> (res: Result<
    Option<String>,
    Error,
>)
    ensures
        match (policy, dup) {
            (DuplicateTitlePolicy::Allow, _) => res matches Ok(None),
            (_, None) => res matches Ok(None),
            (DuplicateTitlePolicy::Warn, Some(t)) => res matches Ok(Some(w)) && w@
                == "warn: duplicate title detected: `"@ + t@ + "`"@,
            (DuplicateTitlePolicy::Error, Some(t)) => res matches Err(Error::DuplicateTitle(d)) && d@
                == t@,
        },
{
    match (policy, dup) {
        (DuplicateTitlePolicy::Allow, _) => Ok(None),
        (_, None) => Ok(None),
        (DuplicateTitlePolicy::Warn, Some(t)) => Ok(
            Some(concat(&concat("warn: duplicate title detected: `", t.as_str()), "`")),
        ),
        (DuplicateTitlePolicy::Error, Some(t)) => Err(Error::DuplicateTitle(t)),
    }
}

/// Give an entry whose identifier is taken the next identifier, and the path
/// it is renamed to: the same directory under its new canonical name.
pub fn bump_id(entry: Entry) -> (res: (Entry, String))
    requires
        entry.frontmatter.id < ID_LIMIT,
    ensures
        res.0.frontmatter.id == (if entry.frontmatter.id + 1 == ID_LIMIT {
            0
        } else {
            entry.frontmatter.id + 1
        }),
        res.0.frontmatter.title == entry.frontmatter.title,
        res.0.frontmatter.slug == entry.frontmatter.slug,
        res.0.body == entry.body,
        res.0.path@ == res.1@,
        res.1@ == joined(
            parent_of(entry.path@),
            filename_for(res.0.frontmatter.id as int, slug_for(entry.frontmatter)),
        ),
{
    let Entry { path, frontmatter, body } = entry;
    let mut frontmatter = frontmatter;
    frontmatter.id = id_increment(frontmatter.id);
    let name = entry_filename_from_frontmatter(frontmatter.id, &frontmatter);
    let dir = crate::ops::parent_dir(path.as_str());
    let new_path = join_path(dir.as_str(), name.as_str());
    let copy = new_path.clone();
    (Entry { path: new_path, frontmatter, body }, copy)
}

// ── rows ─────────────────────────────────────────────────────────────────────

/// An `entries` row of the cache database, its times as stored text.
#[derive(Clone, Debug)]
pub struct CacheRow {
    pub id: u64,
    pub parent_id: Option<u64>,
    pub path: String,
    pub title: String,
    pub slug: String,
    pub created_at: String,
    pub updated_at: String,
    pub task_status: Option<String>,
    pub task_due: Option<String>,
    pub task_started_at: Option<String>,
    pub task_closed_at: Option<String>,
    pub event_start: Option<String>,
    pub event_end: Option<String>,
}

/// 1970-01-01 00:00:00, the time read for unreadable stored text.
pub open spec fn epoch() -> DateTime {
    DateTime { date: Date { year: 1970, month: 1, day: 1 }, hour: 0, minute: 0, second: 0, nano: 0 }
}

/// A stored time: `YYYY-MM-DDTHH:MM` text.
pub open spec fn stored_time(s: Seq<char>) -> Option<DateTime> {
    chrono_datetime_parse(s, "%Y-%m-%dT%H:%M"@)
}

pub open spec fn stored_time_or_epoch(s: Seq<char>) -> DateTime {
    match stored_time(s) {
        Some(d) => d,
        None => epoch(),
    }
}

pub open spec fn stored_opt(s: Option<String>) -> Option<DateTime> {
    match s {
        Some(t) => stored_time(t@),
        None => None,
    }
}

fn read_time(s: &str) -> (res: Option<DateTime>)
    ensures
        res == stored_time(s@),
        res matches Some(d) ==> d.valid(),
{
    parse_datetime_with(s, "%Y-%m-%dT%H:%M")
}

fn read_time_opt(s: Option<String>) -> (res: Option<DateTime>)
    ensures
        res == stored_opt(s),
{
    match s {
        Some(t) => read_time(t.as_str()),
        None => None,
    }
}

fn read_time_or_epoch(s: &str) -> (res: DateTime)
    ensures
        res == stored_time_or_epoch(s@),
{
    match read_time(s) {
        Some(d) => d,
        None => DateTime { date: Date { year: 1970, month: 1, day: 1 }, hour: 0, minute: 0, second: 0, nano: 0 },
    }
}

/// The task a row stores: present when it has a status.
pub open spec fn row_task(row: CacheRow) -> Option<(Seq<char>, Option<DateTime>, Option<DateTime>, Option<DateTime>)> {
    match row.task_status {
        Some(s) => Some((s@, stored_opt(row.task_due), stored_opt(row.task_started_at), stored_opt(row.task_closed_at))),
        None => None,
    }
}

/// The event a row stores: present when both its times read.
pub open spec fn row_event(row: CacheRow) -> Option<EventMeta> {
    match (stored_opt(row.event_start), stored_opt(row.event_end)) {
        (Some(start), Some(end)) => Some(EventMeta { start, end }),
        _ => None,
    }
}

/// The entry stored in a row, with its tags; the body is not stored.  The
/// slug is: a sync writes the frontmatter slug to the `slug` column, and it
/// is read back as stored.
pub fn entry_from_row(row: CacheRow, tags: Vec<String>) -> (res: Entry)
    ensures
        res.path@ == row.path@,
        res.body@.len() == 0,
        res.frontmatter.id == row.id,
        res.frontmatter.parent_id == row.parent_id,
        res.frontmatter.title@ == row.title@,
        res.frontmatter.slug@ == row.slug@,
        res.frontmatter.tags@ == tags@,
        res.frontmatter.created_at == stored_time_or_epoch(row.created_at@),
        res.frontmatter.updated_at == stored_time_or_epoch(row.updated_at@),
        match res.frontmatter.task {
            Some(t) => row_task(row) == Some((t.status@, t.due, t.started_at, t.closed_at)),
            None => row_task(row) is None,
        },
        res.frontmatter.event == row_event(row),
{
    let ghost r = row;
    let created_at = read_time_or_epoch(row.created_at.as_str());
    let updated_at = read_time_or_epoch(row.updated_at.as_str());
    let CacheRow {
        id,
        parent_id,
        path,
        title,
        slug,
        created_at: _,
        updated_at: _,
        task_status,
        task_due,
        task_started_at,
        task_closed_at,
        event_start,
        event_end,
    } = row;
    let task = match task_status {
        Some(status) => Some(
            TaskMeta {
                status,
                due: read_time_opt(task_due),
                started_at: read_time_opt(task_started_at),
                closed_at: read_time_opt(task_closed_at),
            },
        ),
        None => None,
    };
    let event = match (read_time_opt(event_start), read_time_opt(event_end)) {
        (Some(start), Some(end)) => Some(EventMeta { start, end }),
        _ => None,
    };
    let frontmatter = Frontmatter { id, parent_id, title, slug, created_at, updated_at, tags, task, event };
    proof {
        reveal_strlit("");
    }
    Entry { path, frontmatter, body: owned("") }
}

/// `h` is the header a row reads as at `now`, apart from its tags: the
/// stored fields (the slug among them, as the `slug` column holds it), the
/// times read from their text, and the flags at `now`.
pub open spec fn reads_row(h: EntryHeader, row: CacheRow, now: DateTime) -> bool {
    &&& h.path@ == row.path@
    &&& h.frontmatter.id == row.id
    &&& h.frontmatter.parent_id == row.parent_id
    &&& h.frontmatter.title@ == row.title@
    &&& h.frontmatter.slug@ == row.slug@
    &&& h.frontmatter.created_at == stored_time_or_epoch(row.created_at@)
    &&& h.frontmatter.updated_at == stored_time_or_epoch(row.updated_at@)
    &&& match h.frontmatter.task {
        Some(t) => row_task(row) == Some((t.status@, t.due, t.started_at, t.closed_at)),
        None => row_task(row) is None,
    }
    &&& h.frontmatter.event == row_event(row)
    &&& h.flags@ == flags_at(
        h.frontmatter.task,
        h.frontmatter.event,
        h.frontmatter.created_at,
        h.frontmatter.updated_at,
        now,
    )
}

/// The header stored in a row, its flags computed at `now`.
pub fn header_from_row_at(row: CacheRow, tags: Vec<String>, now: DateTime) -> (res: EntryHeader)
    requires
        now.valid(),
        now.date.year > MIN_YEAR,
    ensures
        reads_row(res, row, now),
        res.frontmatter.tags@ == tags@,
{
    let entry = entry_from_row(row, tags);
    EntryHeader::from_entry_at(entry, now)
}

/// The tags of entry `id` among the `(entry_id, tag)` rows, in row order.
pub open spec fn tags_for(tag_rows: Seq<(u64, String)>, id: u64) -> Seq<Seq<char>>
    decreases tag_rows.len(),
{
    if tag_rows.len() == 0 {
        seq![]
    } else {
        let prev = tags_for(tag_rows.drop_last(), id);
        if tag_rows.last().0 == id {
            prev.push(tag_rows.last().1@)
        } else {
            prev
        }
    }
}

/// An earlier row has the same identifier as row `i`.
pub open spec fn id_seen_before(rows: Seq<CacheRow>, i: int) -> bool {
    exists|j: int| 0 <= j < i && rows[j].id == rows[i].id
}

/// The tags of each identifier among the `(entry_id, tag)` rows, in row
/// order, keyed by identifier; identifiers without tags are absent.
fn tags_by_id(tag_rows: &Vec<(u64, String)>) -> (res: HashMap<u64, Vec<String>>)
    ensures
        forall|id: u64| #[trigger] res@.contains_key(id) <==> tags_for(tag_rows@, id).len() > 0,
        forall|id: u64| res@.contains_key(id) ==> texts(#[trigger] res@[id]@) == tags_for(tag_rows@, id),
{
    broadcast use vstd::std_specs::hash::group_hash_axioms;

    let mut map: HashMap<u64, Vec<String>> = HashMap::new();
    let mut k: usize = 0;
    while k < tag_rows.len()
        invariant
            k <= tag_rows@.len(),
            forall|id: u64| #[trigger] map@.contains_key(id) <==> tags_for(tag_rows@.take(k as int), id).len() > 0,
            forall|id: u64|
                map@.contains_key(id) ==> texts(#[trigger] map@[id]@) == tags_for(tag_rows@.take(k as int), id),
        decreases tag_rows@.len() - k,
    {
        assert(tag_rows@.take(k + 1).drop_last() =~= tag_rows@.take(k as int));
        let id = tag_rows[k].0;
        let ghost before = map@;
        let mut v = match map.remove(&id) {
            Some(v) => v,
            None => Vec::new(),
        };
        let ghost prev = v@;
        proof {
            if !before.contains_key(id) {
                assert(texts(prev) =~= tags_for(tag_rows@.take(k as int), id));
            }
        }
        v.push(tag_rows[k].1.clone());
        assert(texts(v@) =~= texts(prev).push(tag_rows@[k as int].1@));
        map.insert(id, v);
        k += 1;
    }
    assert(tag_rows@.take(k as int) =~= tag_rows@);
    map
}

/// The headers of all stored rows, in row order, at `now`: each row's tags
/// are the `(entry_id, tag)` rows of its identifier, handed to the first
/// row with that identifier.
pub fn headers_from_rows_at(rows: Vec<CacheRow>, tag_rows: &Vec<(u64, String)>, now: DateTime) -> (res: Vec<
    EntryHeader,
>)
    requires
        now.valid(),
        now.date.year > MIN_YEAR,
    ensures
        res@.len() == rows@.len(),
        forall|i: int| 0 <= i < rows@.len() ==> reads_row(#[trigger] res@[i], rows@[i], now),
        forall|i: int|
            0 <= i < rows@.len() ==> texts((#[trigger] res@[i]).frontmatter.tags@) == (if id_seen_before(
                rows@,
                i,
            ) {
                seq![]
            } else {
                tags_for(tag_rows@, rows@[i].id)
            }),
{
    broadcast use vstd::std_specs::hash::group_hash_axioms;

    let mut tags_left = tags_by_id(tag_rows);
    let ghost src = rows@;
    let n = rows.len();
    let mut rest = rows;
    let mut out: Vec<EntryHeader> = Vec::new();
    let mut i: usize = 0;
    assert(src.skip(0) =~= src);
    while rest.len() > 0
        invariant
            i + rest@.len() == src.len(),
            src.len() == n,
            rest@ == src.skip(i as int),
            forall|id: u64|
                #[trigger] tags_left@.contains_key(id) <==> (tags_for(tag_rows@, id).len() > 0 && forall|q: int|
                    0 <= q < i ==> src[q].id != id),
            forall|id: u64|
                tags_left@.contains_key(id) ==> texts(#[trigger] tags_left@[id]@) == tags_for(tag_rows@, id),
            now.valid(),
            now.date.year > MIN_YEAR,
            out@.len() == i,
            forall|q: int| 0 <= q < i ==> reads_row(#[trigger] out@[q], src[q], now),
            forall|q: int|
                0 <= q < i ==> texts((#[trigger] out@[q]).frontmatter.tags@) == (if id_seen_before(src, q) {
                    seq![]
                } else {
                    tags_for(tag_rows@, src[q].id)
                }),
        decreases rest@.len(),
    {
        let row = rest.remove(0);
        assert(row == src[i as int]);
        assert(rest@ =~= src.skip(i + 1));
        let ghost before = tags_left@;
        // The first row of an identifier takes its tags; later ones find
        // them taken.
        let tags = match tags_left.remove(&row.id) {
            Some(v) => v,
            None => Vec::new(),
        };
        proof {
            if id_seen_before(src, i as int) {
                let q = choose|q: int| 0 <= q < i && src[q].id == src[i as int].id;
                assert(!before.contains_key(row.id));
                assert(texts(tags@) =~= Seq::<Seq<char>>::empty());
            } else {
                assert forall|q: int| 0 <= q < i implies src[q].id != row.id by {
                    if src[q].id == row.id {
                        assert(id_seen_before(src, i as int));
                    }
                }
                if !before.contains_key(row.id) {
                    assert(texts(tags@) =~= tags_for(tag_rows@, row.id));
                }
            }
            assert forall|id: u64| #[trigger] tags_left@.contains_key(id) <==> (tags_for(tag_rows@, id).len() > 0
                && forall|q: int| 0 <= q < i + 1 ==> src[q].id != id) by {
                if id != row.id {
                    assert(tags_left@.contains_key(id) == before.contains_key(id));
                }
            }
        }
        let h = header_from_row_at(row, tags, now);
        out.push(h);
        i += 1;
    }
    out
}

/// The entry an exact-title lookup finds among the matching `(id, path)`
/// rows: none is an error, one is the entry, more are ambiguous.
pub fn title_lookup(title: &str, rows: Vec<(u64, String)>) -> (res: Result<(u64, String), Error>)
    ensures
        rows@.len() == 0 ==> (res matches Err(Error::EntryNotFoundByTitle(t)) && t@ == title@),
        rows@.len() == 1 ==> res == Ok::<(u64, String), Error>(rows@[0]),
        rows@.len() > 1 ==> (res matches Err(Error::AmbiguousTitle(t, n)) && t@ == title@ && n == rows@.len()),
{
    let n = rows.len();
    if n == 0 {
        Err(Error::EntryNotFoundByTitle(owned(title)))
    } else if n == 1 {
        let mut rows = rows;
        Ok(rows.remove(0))
    } else {
        Err(Error::AmbiguousTitle(owned(title), n as u64))
    }
}

/// A database file of an older (or newer) cache schema in the cache
/// directory: `cache_v*.db` other than the current one.
pub open spec fn stale_cache_name(name: Seq<char>) -> bool {
    &&& name.len() >= 10
    &&& name.take(7) == "cache_v"@
    &&& name.skip(name.len() - 3) == ".db"@
    &&& name != "cache_v3.db"@
}

/// Whether a file in the cache directory belongs to another cache schema
/// and can be cleaned.
pub fn is_stale_cache_file(name: &str) -> (res: bool)
    ensures
        res == stale_cache_name(name@),
{
    let v = chars_of(name);
    let n = v.len();
    proof {
        reveal_strlit("cache_v");
        reveal_strlit(".db");
        reveal_strlit("cache_v3.db");
    }
    if n < 10 {
        return false;
    }
    let prefix = v[0] == 'c' && v[1] == 'a' && v[2] == 'c' && v[3] == 'h' && v[4] == 'e' && v[5] == '_'
        && v[6] == 'v';
    let suffix = v[n - 3] == '.' && v[n - 2] == 'd' && v[n - 1] == 'b';
    proof {
        assert("cache_v"@ =~= seq!['c', 'a', 'c', 'h', 'e', '_', 'v']);
        assert(".db"@ =~= seq!['.', 'd', 'b']);
        let t = name@.take(7);
        let u = name@.skip(n - 3);
        assert(t =~= seq![v@[0], v@[1], v@[2], v@[3], v@[4], v@[5], v@[6]]);
        assert(u =~= seq![v@[n - 3], v@[n - 2], v@[n - 1]]);
        if t == "cache_v"@ {
            assert(t[0] == 'c' && t[1] == 'a' && t[2] == 'c' && t[3] == 'h' && t[4] == 'e' && t[5] == '_'
                && t[6] == 'v');
        }
        if u == ".db"@ {
            assert(u[0] == '.' && u[1] == 'd' && u[2] == 'b');
        }
    }
    if !(prefix && suffix) {
        return false;
    }
    let current = n == 11 && v[7] == '3';
    proof {
        if current {
            assert(name@ =~= "cache_v3.db"@);
        }
        if name@ == "cache_v3.db"@ {
            assert(name@[7] == '3');
        }
    }
    !current
}

} // verus!
