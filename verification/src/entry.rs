//! The data model of a journal entry: its frontmatter, task and event
//! metadata, and the header returned by list operations.

use vstd::prelude::*;

use crate::datetime::DateTime;
use crate::labels::{EntryFlag, entry_flags, flags_at};

verus! {

/// The texts held by a list of strings.
pub open spec fn texts(v: Seq<String>) -> Seq<Seq<char>> {
    v.map_values(|s: String| s@)
}

/// Task-specific metadata.  Conventional `status` values are `open`,
/// `in_progress`, `done`, `cancelled` and `archived`; any other string is
/// accepted too.
#[derive(Clone, Debug)]
pub struct TaskMeta {
    /// Due date-time.
    pub due: Option<DateTime>,
    /// Task status.
    pub status: String,
    /// When the task was started (status became `in_progress`).
    pub started_at: Option<DateTime>,
    /// When the task was closed (status became `done`, `cancelled` or `archived`).
    pub closed_at: Option<DateTime>,
}

/// Event-specific metadata: an event spans `[start, end]`.
#[derive(Clone, Copy, Debug, PartialEq, Eq, Structural)]
pub struct EventMeta {
    pub start: DateTime,
    pub end: DateTime,
}

/// Frontmatter metadata stored at the top of each entry file.
#[derive(Clone, Debug)]
pub struct Frontmatter {
    /// The entry identifier (a 35-bit value written as seven base-32 characters).
    pub id: u64,
    /// Parent entry for hierarchical relationships.
    pub parent_id: Option<u64>,
    pub title: String,
    /// Optional slug override; when empty the slug is derived from the title.
    pub slug: String,
    /// When the entry was first created.
    pub created_at: DateTime,
    /// When the entry was last written.
    pub updated_at: DateTime,
    pub tags: Vec<String>,
    /// Present only when the entry represents a task.
    pub task: Option<TaskMeta>,
    /// Present only when the entry represents a calendar event.
    pub event: Option<EventMeta>,
}

/// A single entry: one Markdown file of the journal.
#[derive(Clone, Debug)]
pub struct Entry {
    /// Path of the source `.md` file.
    pub path: String,
    pub frontmatter: Frontmatter,
    /// Raw Markdown body (everything after the frontmatter block).
    pub body: String,
}

/// Metadata-only view of an entry: path, frontmatter and the flags computed
/// when the header was made.
#[derive(Clone, Debug)]
pub struct EntryHeader {
    pub path: String,
    pub frontmatter: Frontmatter,
    pub flags: Vec<EntryFlag>,
}

/// The status a new task gets when none is given.
pub fn default_task_status() -> (res: String)
    ensures
        res@ == "open"@,
{
    crate::text::owned("open")
}


/// A copy of a list of strings.
pub fn copy_texts(v: &Vec<String>) -> (res: Vec<String>)
    ensures
        res@ == v@,
{
    let mut res: Vec<String> = Vec::new();
    let mut i: usize = 0;
    while i < v.len()
        invariant
            i <= v@.len(),
            res@ == v@.take(i as int),
        decreases v@.len() - i,
    {
        res.push(v[i].clone());
        assert(res@ =~= v@.take(i + 1));
        i += 1;
    }
    assert(v@.take(i as int) =~= v@);
    res
}

/// A copy of a list of flags.
pub fn copy_flags(v: &Vec<EntryFlag>) -> (res: Vec<EntryFlag>)
    ensures
        res@ == v@,
{
    let mut res: Vec<EntryFlag> = Vec::new();
    let mut i: usize = 0;
    while i < v.len()
        invariant
            i <= v@.len(),
            res@ == v@.take(i as int),
        decreases v@.len() - i,
    {
        res.push(v[i]);
        assert(res@ =~= v@.take(i + 1));
        i += 1;
    }
    assert(v@.take(i as int) =~= v@);
    res
}

/// Two frontmatters hold the same values (the tags compared by content).
pub open spec fn same_frontmatter(a: Frontmatter, b: Frontmatter) -> bool {
    &&& a.id == b.id
    &&& a.parent_id == b.parent_id
    &&& a.title == b.title
    &&& a.slug == b.slug
    &&& a.created_at == b.created_at
    &&& a.updated_at == b.updated_at
    &&& a.tags@ == b.tags@
    &&& a.task == b.task
    &&& a.event == b.event
}

/// Two headers hold the same values.
pub open spec fn same_header(a: EntryHeader, b: EntryHeader) -> bool {
    &&& a.path == b.path
    &&& same_frontmatter(a.frontmatter, b.frontmatter)
    &&& a.flags@ == b.flags@
}

impl TaskMeta {
    /// A field-by-field copy.
    pub fn duplicate(&self) -> (res: TaskMeta)
        ensures
            res == *self,
    {
        TaskMeta {
            due: self.due,
            status: self.status.clone(),
            started_at: self.started_at,
            closed_at: self.closed_at,
        }
    }
}

impl Frontmatter {
    /// A field-by-field copy.
    pub fn duplicate(&self) -> (res: Frontmatter)
        ensures
            same_frontmatter(res, *self),
    {
        Frontmatter {
            id: self.id,
            parent_id: self.parent_id,
            title: self.title.clone(),
            slug: self.slug.clone(),
            created_at: self.created_at,
            updated_at: self.updated_at,
            tags: copy_texts(&self.tags),
            task: match &self.task {
                Some(t) => Some(t.duplicate()),
                None => None,
            },
            event: self.event,
        }
    }
}

impl Entry {
    /// The identifier from the frontmatter.
    pub fn id(&self) -> (res: u64)
        ensures
            res == self.frontmatter.id,
    {
        self.frontmatter.id
    }

    /// The title shown for the entry: the frontmatter title if non-empty,
    /// else the file stem, else `(untitled)`.
    pub fn title(&self) -> (res: String)
        ensures
            res@ == shown_title(*self),
    {
        if !self.frontmatter.title.as_str().is_empty() {
            return self.frontmatter.title.clone();
        }
        match crate::parser::file_stem(self.path.as_str()) {
            Some(st) => {
                if st.as_str().is_empty() {
                    crate::text::owned("(untitled)")
                } else {
                    st
                }
            },
            None => crate::text::owned("(untitled)"),
        }
    }
}

/// The title shown for an entry: the frontmatter title if non-empty, else the
/// stem of its file, else `(untitled)`.
pub open spec fn shown_title(e: Entry) -> Seq<char> {
    if e.frontmatter.title@.len() > 0 {
        e.frontmatter.title@
    } else {
        match crate::parser::path_stem(e.path@) {
            Some(st) if st.len() > 0 => st,
            _ => "(untitled)"@,
        }
    }
}

impl EntryHeader {
    /// A field-by-field copy.
    pub fn duplicate(&self) -> (res: EntryHeader)
        ensures
            same_header(res, *self),
    {
        EntryHeader {
            path: self.path.clone(),
            frontmatter: self.frontmatter.duplicate(),
            flags: copy_flags(&self.flags),
        }
    }

    /// The header of `entry`, with its flags computed at the instant `now`.
    pub fn from_entry_at(entry: Entry, now: DateTime) -> (res: EntryHeader)
        requires
            now.valid(),
            now.date.year > crate::datetime::MIN_YEAR,
        ensures
            res.path == entry.path,
            res.frontmatter == entry.frontmatter,
            res.flags@ == flags_at(
                entry.frontmatter.task,
                entry.frontmatter.event,
                entry.frontmatter.created_at,
                entry.frontmatter.updated_at,
                now,
            ),
    {
        let flags = crate::labels::entry_flags_at(
            entry.frontmatter.task.as_ref(),
            entry.frontmatter.event.as_ref(),
            entry.frontmatter.created_at,
            entry.frontmatter.updated_at,
            now,
        );
        EntryHeader { path: entry.path, frontmatter: entry.frontmatter, flags }
    }

    /// The header of `entry`, with its flags computed at the local time.
    pub fn from_entry(entry: Entry) -> (res: EntryHeader)
        ensures
            res.path == entry.path,
            res.frontmatter == entry.frontmatter,
            exists|now: DateTime|
                now.valid() && res.flags@ == flags_at(
                    entry.frontmatter.task,
                    entry.frontmatter.event,
                    entry.frontmatter.created_at,
                    entry.frontmatter.updated_at,
                    now,
                ),
    {
        let flags = entry_flags(
            entry.frontmatter.task.as_ref(),
            entry.frontmatter.event.as_ref(),
            entry.frontmatter.created_at,
            entry.frontmatter.updated_at,
        );
        EntryHeader { path: entry.path, frontmatter: entry.frontmatter, flags }
    }

    /// The identifier from the frontmatter.
    pub fn id(&self) -> (res: u64)
        ensures
            res == self.frontmatter.id,
    {
        self.frontmatter.id
    }

    /// The frontmatter title.
    pub fn title(&self) -> (res: &str)
        ensures
            res@ == self.frontmatter.title@,
    {
        self.frontmatter.title.as_str()
    }
}

} // verus!
