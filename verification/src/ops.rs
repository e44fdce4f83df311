//! Entry operations shared by the front ends: filtering, sorting, building
//! the hierarchy, and the frontmatter changes made on create, update and fix.

use vstd::prelude::*;

use crate::calendar::local_now;
use crate::datetime::DateTime;
use crate::entry::{Entry, EntryHeader, EventMeta, Frontmatter, TaskMeta, copy_texts, same_header, texts};
use crate::entry_ref::EntryRef;
use crate::id::{ID_LIMIT, caretta_text, id_text};
use crate::journal::{filename_for, join_path, joined, slug_of, slugify};
use crate::labels::is_overdue_at;
use crate::period::Period;
use crate::order::{
    compare_opt_datetime, compare_datetime, compare_text, datetime_order, int_order, lemma_datetime_order,
    lemma_opt_datetime_order, lemma_text_order, opt_datetime_order, text_order,
};
use crate::text::{chars_of, concat, str_eq};

verus! {

// ── SortField / SortOrder ────────────────────────────────────────────────────

/// Which field entries are sorted by.
#[derive(Clone, Copy, Debug, PartialEq, Eq, Structural, Default)]
pub enum SortField {
    #[default]
    Id,
    Title,
    TaskStatus,
    CreatedAt,
    UpdatedAt,
    TaskDue,
    EventStart,
}

/// Sort direction.
#[derive(Clone, Copy, Debug, PartialEq, Eq, Structural, Default)]
pub enum SortOrder {
    #[default]
    Asc,
    Desc,
}

/// The sort field named by `s`, if any.
pub open spec fn sort_field_named(s: Seq<char>) -> Option<SortField> {
    if s == "id"@ {
        Some(SortField::Id)
    } else if s == "title"@ {
        Some(SortField::Title)
    } else if s == "task_status"@ {
        Some(SortField::TaskStatus)
    } else if s == "created_at"@ {
        Some(SortField::CreatedAt)
    } else if s == "updated_at"@ {
        Some(SortField::UpdatedAt)
    } else if s == "task_due"@ {
        Some(SortField::TaskDue)
    } else if s == "event_start"@ {
        Some(SortField::EventStart)
    } else {
        None
    }
}

impl SortField {
    /// Read a sort field name; an unknown name gives the message listing the
    /// accepted ones.
    pub fn parse(s: &str) -> (res: Result<SortField, String>)
        ensures
            match sort_field_named(s@) {
                Some(f) => res == Ok::<SortField, String>(f),
                None => res matches Err(m) && m@ == "unknown sort field `"@ + s@
                    + "`; expected one of: id, title, task_status, created_at, updated_at, task_due, event_start"@,
            },
    {
        if str_eq(s, "id") {
            Ok(SortField::Id)
        } else if str_eq(s, "title") {
            Ok(SortField::Title)
        } else if str_eq(s, "task_status") {
            Ok(SortField::TaskStatus)
        } else if str_eq(s, "created_at") {
            Ok(SortField::CreatedAt)
        } else if str_eq(s, "updated_at") {
            Ok(SortField::UpdatedAt)
        } else if str_eq(s, "task_due") {
            Ok(SortField::TaskDue)
        } else if str_eq(s, "event_start") {
            Ok(SortField::EventStart)
        } else {
            Err(
                concat(
                    &concat("unknown sort field `", s),
                    "`; expected one of: id, title, task_status, created_at, updated_at, task_due, event_start",
                ),
            )
        }
    }
}

/// The sort order named by `s`, if any.
pub open spec fn sort_order_named(s: Seq<char>) -> Option<SortOrder> {
    if s == "asc"@ {
        Some(SortOrder::Asc)
    } else if s == "desc"@ {
        Some(SortOrder::Desc)
    } else {
        None
    }
}

impl SortOrder {
    /// Read `asc` or `desc`.
    pub fn parse(s: &str) -> (res: Result<SortOrder, String>)
        ensures
            match sort_order_named(s@) {
                Some(o) => res == Ok::<SortOrder, String>(o),
                None => res matches Err(m) && m@ == "unknown sort order `"@ + s@
                    + "`; expected `asc` or `desc`"@,
            },
    {
        if str_eq(s, "asc") {
            Ok(SortOrder::Asc)
        } else if str_eq(s, "desc") {
            Ok(SortOrder::Desc)
        } else {
            Err(concat(&concat("unknown sort order `", s), "`; expected `asc` or `desc`"))
        }
    }
}

impl core::str::FromStr for SortField {
    type Err = String;

    fn from_str(s: &str) -> (res: Result<SortField, String>)
        ensures
            match sort_field_named(s@) {
                Some(f) => res == Ok::<SortField, String>(f),
                None => res matches Err(m) && m@ == "unknown sort field `"@ + s@
                    + "`; expected one of: id, title, task_status, created_at, updated_at, task_due, event_start"@,
            },
    {
        SortField::parse(s)
    }
}

impl core::str::FromStr for SortOrder {
    type Err = String;

    fn from_str(s: &str) -> (res: Result<SortOrder, String>)
        ensures
            match sort_order_named(s@) {
                Some(o) => res == Ok::<SortOrder, String>(o),
                None => res matches Err(m) && m@ == "unknown sort order `"@ + s@
                    + "`; expected `asc` or `desc`"@,
            },
    {
        SortOrder::parse(s)
    }
}

// ── FieldSelector ────────────────────────────────────────────────────────────

/// Selects the timestamp fields a filter period applies to.  With none
/// selected the period applies to all of them; without a period a selected
/// field must be present.
#[derive(Clone, Copy, Debug, Default)]
pub struct FieldSelector {
    pub task_due: bool,
    pub event_span: bool,
    pub created_at: bool,
    pub updated_at: bool,
}

impl FieldSelector {
    pub open spec fn none_selected(self) -> bool {
        !self.task_due && !self.event_span && !self.created_at && !self.updated_at
    }

    /// No field is selected.
    pub fn is_empty(&self) -> (res: bool)
        ensures
            res == self.none_selected(),
    {
        !self.task_due && !self.event_span && !self.created_at && !self.updated_at
    }
}

// ── MatchLabel ───────────────────────────────────────────────────────────────

/// The timestamp condition that made an entry match a filter.
#[derive(Clone, Copy, Debug, PartialEq, Eq, Structural)]
pub enum MatchLabel {
    TaskDue,
    TaskStarted,
    /// The filter period overlaps the event's `[start, end]` span.
    EventSpan,
    CreatedAt,
    UpdatedAt,
    Overdue,
}

impl MatchLabel {
    pub open spec fn text(self) -> Seq<char> {
        match self {
            MatchLabel::TaskDue => "TASK_DUE"@,
            MatchLabel::TaskStarted => "TASK_STARTED"@,
            MatchLabel::EventSpan => "EVENT_SPAN"@,
            MatchLabel::CreatedAt => "CREATED"@,
            MatchLabel::UpdatedAt => "UPDATED"@,
            MatchLabel::Overdue => "OVERDUE"@,
        }
    }

    /// The name shown for the label.
    pub fn as_str(self) -> (res: &'static str)
        ensures
            res@ == self.text(),
    {
        match self {
            MatchLabel::TaskDue => "TASK_DUE",
            MatchLabel::TaskStarted => "TASK_STARTED",
            MatchLabel::EventSpan => "EVENT_SPAN",
            MatchLabel::CreatedAt => "CREATED",
            MatchLabel::UpdatedAt => "UPDATED",
            MatchLabel::Overdue => "OVERDUE",
        }
    }
}

// ── EntryFilter ──────────────────────────────────────────────────────────────

/// Filter criteria for listing entries.
///
/// The timestamp filter is the union (OR) of: the period on the selected
/// fields (all fields when none is selected), or the presence of the
/// selected fields when there is no period; overdue tasks when `overdue` is
/// set; started, unclosed tasks (started no later than the period's end)
/// when `task_started` is set.  The task status and tag conditions are
/// ANDed on top.
#[derive(Debug, Default)]
pub struct EntryFilter {
    /// Period to match against timestamp fields.
    pub period: Option<Period>,
    /// Which fields the period applies to (none = all).
    pub fields: FieldSelector,
    /// The task status must be one of these (empty = no constraint).
    pub task_status: Vec<String>,
    /// The entry must carry all of these tags (empty = no constraint).
    pub tags: Vec<String>,
    /// Include tasks whose due time is past and that are not closed.
    pub overdue: bool,
    /// Include tasks that are started and not closed.
    pub task_started: bool,
    /// Field to sort by (`None` keeps the input order).
    pub sort_by: Option<SortField>,
    /// Sort direction.
    pub sort_order: SortOrder,
}

pub open spec fn push_if(s: Seq<MatchLabel>, b: bool, l: MatchLabel) -> Seq<MatchLabel> {
    if b {
        s.push(l)
    } else {
        s
    }
}

/// The due time of the entry's task, if any.
pub open spec fn due_of(fm: Frontmatter) -> Option<DateTime> {
    match fm.task {
        Some(t) => t.due,
        None => None,
    }
}

pub open spec fn event_start_of(fm: Frontmatter) -> Option<DateTime> {
    match fm.event {
        Some(e) => Some(e.start),
        None => None,
    }
}

pub open spec fn event_end_of(fm: Frontmatter) -> Option<DateTime> {
    match fm.event {
        Some(e) => Some(e.end),
        None => None,
    }
}

/// The end of a range period.
pub open spec fn period_end(p: Option<Period>) -> Option<DateTime> {
    match p {
        Some(Period::Range(_, end)) => Some(end),
        _ => None,
    }
}

/// A task that is started, not closed, and (given a period end) started no
/// later than it.
pub open spec fn is_started_by(task: Option<TaskMeta>, end: Option<DateTime>) -> bool {
    match task {
        Some(t) => t.started_at is Some && t.closed_at is None && match end {
            Some(e) => t.started_at->0.not_after(e),
            None => true,
        },
        None => false,
    }
}

impl EntryFilter {
    pub open spec fn timestamp_filtered(&self) -> bool {
        self.period is Some || !self.fields.none_selected() || self.overdue || self.task_started
    }

    pub open spec fn any_filtered(&self) -> bool {
        self.timestamp_filtered() || self.task_status@.len() > 0 || self.tags@.len() > 0
    }

    /// The labels of the period/field conditions an entry meets.
    pub open spec fn field_labels(&self, fm: Frontmatter) -> Seq<MatchLabel> {
        match self.period {
            Some(p) => {
                let all = self.fields.none_selected();
                let l1 = push_if(
                    seq![],
                    (all || self.fields.task_due) && p.admits(due_of(fm)),
                    MatchLabel::TaskDue,
                );
                let l2 = push_if(
                    l1,
                    (all || self.fields.event_span) && p.overlaps(event_start_of(fm), event_end_of(fm)),
                    MatchLabel::EventSpan,
                );
                let l3 = push_if(
                    l2,
                    (all || self.fields.created_at) && p.admits(Some(fm.created_at)),
                    MatchLabel::CreatedAt,
                );
                push_if(
                    l3,
                    (all || self.fields.updated_at) && p.admits(Some(fm.updated_at)),
                    MatchLabel::UpdatedAt,
                )
            },
            None => {
                let l1 = push_if(seq![], self.fields.task_due && due_of(fm) is Some, MatchLabel::TaskDue);
                push_if(
                    l1,
                    self.fields.event_span && (event_start_of(fm) is Some || event_end_of(fm) is Some),
                    MatchLabel::EventSpan,
                )
            },
        }
    }

    /// The labels of all timestamp conditions an entry meets at `now`.
    pub open spec fn timestamp_labels(&self, fm: Frontmatter, now: DateTime) -> Seq<MatchLabel> {
        let l = push_if(
            self.field_labels(fm),
            self.overdue && is_overdue_at(fm.task, now),
            MatchLabel::Overdue,
        );
        push_if(l, self.task_started && is_started_by(fm.task, period_end(self.period)), MatchLabel::TaskStarted)
    }

    pub open spec fn status_admits(&self, fm: Frontmatter) -> bool {
        self.task_status@.len() > 0 ==> (fm.task matches Some(t) && texts(self.task_status@).contains(
            t.status@,
        ))
    }

    pub open spec fn tags_admit(&self, fm: Frontmatter) -> bool {
        forall|i: int| 0 <= i < self.tags@.len() ==> texts(fm.tags@).contains(#[trigger] self.tags@[i]@)
    }

    /// Whether an entry is included at `now`, and the labels it is shown with.
    pub open spec fn verdict(&self, fm: Frontmatter, now: DateTime) -> (bool, Seq<MatchLabel>) {
        let labels = if self.timestamp_filtered() {
            self.timestamp_labels(fm, now)
        } else {
            seq![]
        };
        let timestamp_ok = !self.timestamp_filtered() || labels.len() > 0;
        (timestamp_ok && self.status_admits(fm) && self.tags_admit(fm), labels)
    }

    /// A timestamp condition is set.
    pub fn has_timestamp_filter(&self) -> (res: bool)
        ensures
            res == self.timestamp_filtered(),
    {
        self.period.is_some() || !self.fields.is_empty() || self.overdue || self.task_started
    }

    /// Any condition is set.
    pub fn has_any_filter(&self) -> (res: bool)
        ensures
            res == self.any_filtered(),
    {
        self.has_timestamp_filter() || self.task_status.len() > 0 || self.tags.len() > 0
    }

    /// Whether `entry` is included at the instant `now`, with the labels of
    /// the timestamp conditions it met (empty when no timestamp condition is
    /// set).
    pub fn matches_at(&self, entry: &EntryHeader, now: DateTime) -> (res: (bool, Vec<MatchLabel>))
        ensures
            (res.0, res.1@) == self.verdict(entry.frontmatter, now),
            // An included entry carries every wanted tag.
            res.0 ==> forall|i: int|
                0 <= i < self.tags@.len() ==> texts(entry.frontmatter.tags@).contains(#[trigger] self.tags@[i]@),
    {
        let fm = &entry.frontmatter;
        let mut labels: Vec<MatchLabel> = Vec::new();
        let filtered = self.has_timestamp_filter();
        if filtered {
            let due = match &fm.task {
                Some(t) => t.due,
                None => None,
            };
            let event_start = match &fm.event {
                Some(e) => Some(e.start),
                None => None,
            };
            let event_end = match &fm.event {
                Some(e) => Some(e.end),
                None => None,
            };
            match &self.period {
                Some(p) => {
                    let all = self.fields.is_empty();
                    if (all || self.fields.task_due) && p.matches(due) {
                        labels.push(MatchLabel::TaskDue);
                    }
                    if (all || self.fields.event_span) && p.overlaps_event(event_start, event_end) {
                        labels.push(MatchLabel::EventSpan);
                    }
                    if (all || self.fields.created_at) && p.matches(Some(fm.created_at)) {
                        labels.push(MatchLabel::CreatedAt);
                    }
                    if (all || self.fields.updated_at) && p.matches(Some(fm.updated_at)) {
                        labels.push(MatchLabel::UpdatedAt);
                    }
                },
                None => {
                    if self.fields.task_due && due.is_some() {
                        labels.push(MatchLabel::TaskDue);
                    }
                    if self.fields.event_span && (event_start.is_some() || event_end.is_some()) {
                        labels.push(MatchLabel::EventSpan);
                    }
                },
            }
            if self.overdue {
                let is_overdue = match &fm.task {
                    Some(t) => match t.due {
                        Some(d) => d.is_before(&now) && t.closed_at.is_none(),
                        None => false,
                    },
                    None => false,
                };
                if is_overdue {
                    labels.push(MatchLabel::Overdue);
                }
            }
            if self.task_started {
                let end = match &self.period {
                    Some(Period::Range(_, e)) => Some(*e),
                    _ => None,
                };
                let is_started = match &fm.task {
                    Some(t) => match t.started_at {
                        Some(s) => t.closed_at.is_none() && match end {
                            Some(e) => s.is_not_after(&e),
                            None => true,
                        },
                        None => false,
                    },
                    None => false,
                };
                if is_started {
                    labels.push(MatchLabel::TaskStarted);
                }
            }
        }
        let timestamp_ok = !filtered || labels.len() > 0;
        let status_ok = if self.task_status.len() > 0 {
            match &fm.task {
                Some(t) => has_text(&self.task_status, t.status.as_str()),
                None => false,
            }
        } else {
            true
        };
        let tags_ok = has_all_texts(&fm.tags, &self.tags);
        (timestamp_ok && status_ok && tags_ok, labels)
    }

    /// Whether `entry` is included at the local time, with its labels.
    pub fn matches(&self, entry: &EntryHeader) -> (res: (bool, Vec<MatchLabel>))
        ensures
            exists|now: DateTime| now.valid() && (res.0, res.1@) == self.verdict(entry.frontmatter, now),
    {
        let now = local_now();
        self.matches_at(entry, now)
    }
}

/// `v` holds the text `s`.
pub fn has_text(v: &Vec<String>, s: &str) -> (res: bool)
    ensures
        res == texts(v@).contains(s@),
{
    let mut i: usize = 0;
    while i < v.len()
        invariant
            i <= v@.len(),
            forall|j: int| 0 <= j < i ==> v@[j]@ != s@,
        decreases v@.len() - i,
    {
        if str_eq(v[i].as_str(), s) {
            assert(texts(v@)[i as int] == s@);
            return true;
        }
        i += 1;
    }
    assert(!texts(v@).contains(s@)) by {
        if texts(v@).contains(s@) {
            let j = choose|j: int| 0 <= j < texts(v@).len() && texts(v@)[j] == s@;
            assert(v@[j]@ == s@);
        }
    }
    false
}

/// Every text of `wanted` is held by `have`.
pub fn has_all_texts(have: &Vec<String>, wanted: &Vec<String>) -> (res: bool)
    ensures
        res == forall|i: int| 0 <= i < wanted@.len() ==> texts(have@).contains(#[trigger] wanted@[i]@),
{
    let mut i: usize = 0;
    while i < wanted.len()
        invariant
            i <= wanted@.len(),
            forall|j: int| 0 <= j < i ==> texts(have@).contains(#[trigger] wanted@[j]@),
        decreases wanted@.len() - i,
    {
        if !has_text(have, wanted[i].as_str()) {
            return false;
        }
        i += 1;
    }
    true
}


// ── sorting ──────────────────────────────────────────────────────────────────

/// The task status of an entry, empty when it is no task.
pub open spec fn status_text(fm: Frontmatter) -> Seq<char> {
    match fm.task {
        Some(t) => t.status@,
        None => seq![],
    }
}

/// How two entries compare on a sort field: `-1`, `0` or `1`.
pub open spec fn entry_order(a: Frontmatter, b: Frontmatter, field: SortField) -> int {
    match field {
        SortField::Id => int_order(a.id as int, b.id as int),
        SortField::Title => text_order(a.title@, b.title@),
        SortField::TaskStatus => text_order(status_text(a), status_text(b)),
        SortField::CreatedAt => datetime_order(a.created_at, b.created_at),
        SortField::UpdatedAt => datetime_order(a.updated_at, b.updated_at),
        SortField::TaskDue => opt_datetime_order(due_of(a), due_of(b)),
        SortField::EventStart => opt_datetime_order(event_start_of(a), event_start_of(b)),
    }
}

/// The comparison in the requested direction.
pub open spec fn directed_order(a: Frontmatter, b: Frontmatter, field: SortField, order: SortOrder) -> int {
    match order {
        SortOrder::Asc => entry_order(a, b, field),
        SortOrder::Desc => -entry_order(a, b, field),
    }
}

/// The directed comparison is a three-way comparison: bounded, antisymmetric,
/// and transitive in its "not above" part.
pub proof fn lemma_directed_order(
    a: Frontmatter,
    b: Frontmatter,
    c: Frontmatter,
    field: SortField,
    order: SortOrder,
)
    ensures
        -1 <= directed_order(a, b, field, order) <= 1,
        directed_order(a, b, field, order) == -directed_order(b, a, field, order),
        (directed_order(a, b, field, order) <= 0 && directed_order(b, c, field, order) <= 0)
            ==> directed_order(a, c, field, order) <= 0,
{
    lemma_entry_order(a, b, c, field);
    lemma_entry_order(c, b, a, field);
    lemma_entry_order(a, c, b, field);
}

/// An entry a filter includes carries every tag the filter asks for: one
/// missing tag is enough to leave it out.
pub proof fn lemma_included_entries_carry_all_tags(filter: EntryFilter, fm: Frontmatter, now: DateTime)
    ensures
        filter.verdict(fm, now).0 ==> forall|i: int|
            0 <= i < filter.tags@.len() ==> texts(fm.tags@).contains(#[trigger] filter.tags@[i]@),
{
}

/// A filter that asks only for tags includes exactly the entries that carry
/// every one of them, with no labels.
pub proof fn lemma_tag_only_filter(filter: EntryFilter, fm: Frontmatter, now: DateTime)
    requires
        !filter.timestamp_filtered(),
        filter.task_status@.len() == 0,
    ensures
        filter.verdict(fm, now).0 == forall|i: int|
            0 <= i < filter.tags@.len() ==> texts(fm.tags@).contains(#[trigger] filter.tags@[i]@),
        filter.verdict(fm, now).1.len() == 0,
{
}

/// A title that begins another (a proper prefix) sorts before it.
proof fn lemma_prefix_first(a: Seq<char>, x: Seq<char>)
    requires
        x.len() > 0,
    ensures
        text_order(a, a + x) == -1,
    decreases a.len(),
{
    if a.len() > 0 {
        assert((a + x)[0] == a[0]);
        assert((a + x).drop_first() =~= a.drop_first() + x);
        lemma_prefix_first(a.drop_first(), x);
    }
}

/// Sorting by title puts a title before the longer titles it begins, and
/// sorting by task status puts entries without a task before tasks with a
/// status.
pub proof fn lemma_text_sort_keys(a: Frontmatter, b: Frontmatter)
    ensures
        (a.title@.len() < b.title@.len() && b.title@.take(a.title@.len() as int) == a.title@) ==> entry_order(
            a,
            b,
            SortField::Title,
        ) < 0,
        (a.task is None && b.task is Some && b.task->0.status@.len() > 0) ==> entry_order(
            a,
            b,
            SortField::TaskStatus,
        ) < 0,
{
    if a.title@.len() < b.title@.len() && b.title@.take(a.title@.len() as int) == a.title@ {
        let x = b.title@.skip(a.title@.len() as int);
        assert(a.title@ + x =~= b.title@);
        lemma_prefix_first(a.title@, x);
    }
}

/// Each sort field orders entries by that field: the entry whose key comes
/// first compares first (entries with a due time or event before those
/// without).
pub proof fn lemma_sort_keys(a: Frontmatter, b: Frontmatter)
    ensures
        a.id < b.id ==> entry_order(a, b, SortField::Id) < 0,
        a.created_at.before(b.created_at) ==> entry_order(a, b, SortField::CreatedAt) < 0,
        a.updated_at.before(b.updated_at) ==> entry_order(a, b, SortField::UpdatedAt) < 0,
        (due_of(a) matches Some(x) && due_of(b) matches Some(y) && x.before(y)) ==> entry_order(
            a,
            b,
            SortField::TaskDue,
        ) < 0,
        (due_of(a) is Some && due_of(b) is None) ==> entry_order(a, b, SortField::TaskDue) < 0,
        (event_start_of(a) matches Some(x) && event_start_of(b) matches Some(y) && x.before(y)) ==> entry_order(
            a,
            b,
            SortField::EventStart,
        ) < 0,
        (event_start_of(a) is Some && event_start_of(b) is None) ==> entry_order(a, b, SortField::EventStart) < 0,
{
}

/// In a list sorted on the identifier or a creation or update time, that key
/// never goes back in ascending order, and never forward in descending order.
pub proof fn lemma_sorted_by_field(
    out: Seq<(EntryHeader, Vec<MatchLabel>)>,
    src: Seq<(EntryHeader, Vec<MatchLabel>)>,
    perm: Seq<int>,
    field: SortField,
    order: SortOrder,
)
    requires
        arranged(out, src, perm, field, order),
    ensures
        forall|i: int, j: int|
            0 <= i < j < out.len() ==> {
                let x = (#[trigger] out[i]).0.frontmatter;
                let y = (#[trigger] out[j]).0.frontmatter;
                &&& (field == SortField::Id && order == SortOrder::Asc) ==> x.id <= y.id
                &&& (field == SortField::Id && order == SortOrder::Desc) ==> x.id >= y.id
                &&& (field == SortField::CreatedAt && order == SortOrder::Asc) ==> !y.created_at.before(x.created_at)
                &&& (field == SortField::CreatedAt && order == SortOrder::Desc) ==> !x.created_at.before(y.created_at)
                &&& (field == SortField::UpdatedAt && order == SortOrder::Asc) ==> !y.updated_at.before(x.updated_at)
                &&& (field == SortField::UpdatedAt && order == SortOrder::Desc) ==> !x.updated_at.before(y.updated_at)
            },
{
    assert forall|i: int, j: int| 0 <= i < j < out.len() implies {
        let x = (#[trigger] out[i]).0.frontmatter;
        let y = (#[trigger] out[j]).0.frontmatter;
        &&& (field == SortField::Id && order == SortOrder::Asc) ==> x.id <= y.id
        &&& (field == SortField::Id && order == SortOrder::Desc) ==> x.id >= y.id
        &&& (field == SortField::CreatedAt && order == SortOrder::Asc) ==> !y.created_at.before(x.created_at)
        &&& (field == SortField::CreatedAt && order == SortOrder::Desc) ==> !x.created_at.before(y.created_at)
        &&& (field == SortField::UpdatedAt && order == SortOrder::Asc) ==> !y.updated_at.before(x.updated_at)
        &&& (field == SortField::UpdatedAt && order == SortOrder::Desc) ==> !x.updated_at.before(y.updated_at)
    } by {
        let x = out[i].0.frontmatter;
        let y = out[j].0.frontmatter;
        assert(directed_order(x, y, field, order) <= 0);
        lemma_sort_keys(x, y);
        lemma_sort_keys(y, x);
        lemma_entry_order(x, y, x, field);
    }
}

proof fn lemma_entry_order(a: Frontmatter, b: Frontmatter, c: Frontmatter, field: SortField)
    ensures
        -1 <= entry_order(a, b, field) <= 1,
        entry_order(a, b, field) == -entry_order(b, a, field),
        (entry_order(a, b, field) <= 0 && entry_order(b, c, field) <= 0) ==> entry_order(a, c, field) <= 0,
{
    match field {
        SortField::Id => {
            let x = a.id as int;
            let y = b.id as int;
            let z = c.id as int;
            assert(entry_order(a, b, field) == int_order(x, y));
            assert(entry_order(b, c, field) == int_order(y, z));
            assert(entry_order(a, c, field) == int_order(x, z));
            if x <= y && y <= z {
                assert(x <= z);
            }
            if x >= y && y >= z {
                assert(x >= z);
            }
        },
        SortField::Title => {
            lemma_text_order(a.title@, b.title@, c.title@);
            lemma_text_order(c.title@, b.title@, a.title@);
        },
        SortField::TaskStatus => {
            lemma_text_order(status_text(a), status_text(b), status_text(c));
            lemma_text_order(status_text(c), status_text(b), status_text(a));
        },
        SortField::CreatedAt => {
            lemma_datetime_order(a.created_at, b.created_at, c.created_at);
            lemma_datetime_order(c.created_at, b.created_at, a.created_at);
        },
        SortField::UpdatedAt => {
            lemma_datetime_order(a.updated_at, b.updated_at, c.updated_at);
            lemma_datetime_order(c.updated_at, b.updated_at, a.updated_at);
        },
        SortField::TaskDue => {
            lemma_opt_datetime_order(due_of(a), due_of(b), due_of(c));
            lemma_opt_datetime_order(due_of(c), due_of(b), due_of(a));
        },
        SortField::EventStart => {
            lemma_opt_datetime_order(event_start_of(a), event_start_of(b), event_start_of(c));
            lemma_opt_datetime_order(event_start_of(c), event_start_of(b), event_start_of(a));
        },
    }
}

/// Compare two entries on a sort field.
fn compare_entries(a: &EntryHeader, b: &EntryHeader, field: SortField) -> (res: i8)
    ensures
        res == entry_order(a.frontmatter, b.frontmatter, field),
{
    let fa = &a.frontmatter;
    let fb = &b.frontmatter;
    match field {
        SortField::Id => if fa.id < fb.id {
            -1
        } else if fa.id == fb.id {
            0
        } else {
            1
        },
        SortField::Title => compare_text(a.title(), b.title()),
        SortField::TaskStatus => {
            let sa = match &fa.task {
                Some(t) => t.status.as_str(),
                None => "",
            };
            let sb = match &fb.task {
                Some(t) => t.status.as_str(),
                None => "",
            };
            proof {
                reveal_strlit("");
            }
            compare_text(sa, sb)
        },
        SortField::CreatedAt => compare_datetime(&fa.created_at, &fb.created_at),
        SortField::UpdatedAt => compare_datetime(&fa.updated_at, &fb.updated_at),
        SortField::TaskDue => compare_opt_datetime(
            match &fa.task {
                Some(t) => t.due,
                None => None,
            },
            match &fb.task {
                Some(t) => t.due,
                None => None,
            },
        ),
        SortField::EventStart => compare_opt_datetime(
            match &fa.event {
                Some(e) => Some(e.start),
                None => None,
            },
            match &fb.event {
                Some(e) => Some(e.start),
                None => None,
            },
        ),
    }
}

/// `perm` lists each of `0..n` exactly once.
pub open spec fn is_permutation(perm: Seq<int>, n: int) -> bool {
    &&& perm.len() == n
    &&& perm.no_duplicates()
    &&& forall|i: int| 0 <= i < n ==> 0 <= #[trigger] perm[i] < n
}

/// `out` is `src` rearranged by `perm` into sorted order on `field` in the
/// direction `order`, entries that compare equal keeping their order.
pub open spec fn arranged(
    out: Seq<(EntryHeader, Vec<MatchLabel>)>,
    src: Seq<(EntryHeader, Vec<MatchLabel>)>,
    perm: Seq<int>,
    field: SortField,
    order: SortOrder,
) -> bool {
    &&& out.len() == src.len()
    &&& is_permutation(perm, src.len() as int)
    &&& forall|i: int| 0 <= i < out.len() ==> #[trigger] out[i] == src[perm[i]]
    &&& forall|i: int, j: int|
        0 <= i < j < out.len() ==> directed_order(
            (#[trigger] out[i]).0.frontmatter,
            (#[trigger] out[j]).0.frontmatter,
            field,
            order,
        ) <= 0
    &&& forall|i: int, j: int|
        0 <= i < j < out.len() && directed_order(
            (#[trigger] out[i]).0.frontmatter,
            (#[trigger] out[j]).0.frontmatter,
            field,
            order,
        ) == 0 ==> perm[i] < perm[j]
}

/// Sort stably on `field` in the direction `order`.
pub fn stable_sort(items: Vec<(EntryHeader, Vec<MatchLabel>)>, field: SortField, order: SortOrder) -> (res: Vec<
    (EntryHeader, Vec<MatchLabel>),
>)
    ensures
        exists|perm: Seq<int>| arranged(res@, items@, perm, field, order),
{
    let ghost src = items@;
    let total = items.len();
    let mut rest = items;
    let mut out: Vec<(EntryHeader, Vec<MatchLabel>)> = Vec::new();
    let ghost mut perm: Seq<int> = seq![];
    let mut m: usize = 0;
    assert(src.skip(0) =~= src);
    while rest.len() > 0
        invariant
            m + rest@.len() == src.len(),
            src.len() == total,
            rest@ == src.skip(m as int),
            out@.len() == m,
            perm.len() == m,
            perm.no_duplicates(),
            forall|i: int| 0 <= i < m ==> 0 <= #[trigger] perm[i] < m,
            forall|i: int| 0 <= i < m ==> #[trigger] out@[i] == src[perm[i]],
            forall|i: int, j: int|
                0 <= i < j < m ==> directed_order(
                    (#[trigger] out@[i]).0.frontmatter,
                    (#[trigger] out@[j]).0.frontmatter,
                    field,
                    order,
                ) <= 0,
            forall|i: int, j: int|
                0 <= i < j < m && directed_order(
                    (#[trigger] out@[i]).0.frontmatter,
                    (#[trigger] out@[j]).0.frontmatter,
                    field,
                    order,
                ) == 0 ==> perm[i] < perm[j],
        decreases rest@.len(),
    {
        let x = rest.remove(0);
        assert(x == src[m as int]);
        assert(rest@ =~= src.skip(m + 1));
        let mut k: usize = 0;
        while k < out.len()
            invariant
                k <= out@.len(),
                forall|j: int|
                    0 <= j < k ==> directed_order(
                        (#[trigger] out@[j]).0.frontmatter,
                        x.0.frontmatter,
                        field,
                        order,
                    ) <= 0,
            ensures
                k <= out@.len(),
                forall|j: int|
                    0 <= j < k ==> directed_order(
                        (#[trigger] out@[j]).0.frontmatter,
                        x.0.frontmatter,
                        field,
                        order,
                    ) <= 0,
                k < out@.len() ==> directed_order(out@[k as int].0.frontmatter, x.0.frontmatter, field, order) > 0,
            decreases out@.len() - k,
        {
            let c = compare_entries(&out[k].0, &x.0, field);
            let above = match order {
                SortOrder::Asc => c > 0,
                SortOrder::Desc => c < 0,
            };
            if above {
                break;
            }
            k += 1;
        }
        let ghost old_out = out@;
        let ghost old_perm = perm;
        out.insert(k, x);
        proof {
            perm = perm.insert(k as int, m as int);
            let n = out@.len();
            assert forall|i: int| 0 <= i < n implies 0 <= #[trigger] perm[i] < n by {
                if i < k {
                } else if i == k {
                } else {
                    assert(perm[i] == old_perm[i - 1]);
                }
            }
            assert forall|i: int, j: int| 0 <= i < j < n implies perm[i] != perm[j] by {
                if j < k {
                } else if j == k {
                } else if i < k {
                    assert(perm[j] == old_perm[j - 1]);
                } else if i == k {
                    assert(perm[j] == old_perm[j - 1]);
                } else {
                    assert(perm[i] == old_perm[i - 1]);
                    assert(perm[j] == old_perm[j - 1]);
                }
            }
            assert forall|i: int| 0 <= i < n implies #[trigger] out@[i] == src[perm[i]] by {
                if i < k {
                } else if i == k {
                } else {
                    assert(out@[i] == old_out[i - 1]);
                    assert(perm[i] == old_perm[i - 1]);
                }
            }
            assert forall|i: int, j: int| 0 <= i < j < n implies directed_order(
                (#[trigger] out@[i]).0.frontmatter,
                (#[trigger] out@[j]).0.frontmatter,
                field,
                order,
            ) <= 0 && (directed_order(out@[i].0.frontmatter, out@[j].0.frontmatter, field, order) == 0
                ==> perm[i] < perm[j]) by {
                let xf = x.0.frontmatter;
                if j < k {
                    assert(out@[i] == old_out[i]);
                    assert(out@[j] == old_out[j]);
                } else if j == k {
                    assert(out@[i] == old_out[i]);
                    assert(old_perm[i] < m);
                } else if i == k {
                    let y = old_out[j - 1].0.frontmatter;
                    let z = old_out[k as int].0.frontmatter;
                    assert(out@[j] == old_out[j - 1]);
                    lemma_directed_order(xf, z, y, field, order);
                    lemma_directed_order(z, y, xf, field, order);
                    lemma_directed_order(y, xf, xf, field, order);
                    lemma_directed_order(xf, y, y, field, order);
                } else if i < k {
                    assert(out@[i] == old_out[i]);
                    assert(out@[j] == old_out[j - 1]);
                    assert(perm[j] == old_perm[j - 1]);
                } else {
                    assert(out@[i] == old_out[i - 1]);
                    assert(out@[j] == old_out[j - 1]);
                    assert(perm[i] == old_perm[i - 1]);
                    assert(perm[j] == old_perm[j - 1]);
                }
            }
        }
        m += 1;
    }
    assert(arranged(out@, src, perm, field, order));
    out
}


/// An entry with its labels, the labels taken as a sequence.
pub open spec fn item_view(p: (EntryHeader, Vec<MatchLabel>)) -> (EntryHeader, Seq<MatchLabel>) {
    (p.0, p.1@)
}

/// The entries a filter keeps at `now`, in input order, with their labels
/// (every entry when no condition is set).
pub open spec fn kept(es: Seq<EntryHeader>, f: EntryFilter, now: DateTime) -> Seq<(EntryHeader, Seq<MatchLabel>)>
    decreases es.len(),
{
    if es.len() == 0 {
        seq![]
    } else {
        let prev = kept(es.drop_last(), f, now);
        let v = f.verdict(es.last().frontmatter, now);
        if !f.any_filtered() || v.0 {
            prev.push((es.last(), v.1))
        } else {
            prev
        }
    }
}

/// Filter `entries` at the instant `now`, then sort them stably when a sort
/// field is set.
pub fn apply_filter_and_sort_at(entries: Vec<EntryHeader>, filter: &EntryFilter, now: DateTime) -> (res: Vec<
    (EntryHeader, Vec<MatchLabel>),
>)
    ensures
        match filter.sort_by {
            None => res@.map_values(|p: (EntryHeader, Vec<MatchLabel>)| item_view(p)) == kept(
                entries@,
                *filter,
                now,
            ),
            Some(field) => exists|mid: Seq<(EntryHeader, Vec<MatchLabel>)>, perm: Seq<int>|
                mid.map_values(|p: (EntryHeader, Vec<MatchLabel>)| item_view(p)) == kept(
                    entries@,
                    *filter,
                    now,
                ) && arranged(res@, mid, perm, field, filter.sort_order),
        },
{
    let ghost src = entries@;
    let total = entries.len();
    let has_filter = filter.has_any_filter();
    let mut rest = entries;
    let mut result: Vec<(EntryHeader, Vec<MatchLabel>)> = Vec::new();
    let mut i: usize = 0;
    assert(src.skip(0) =~= src);
    assert(src.take(0) =~= Seq::<EntryHeader>::empty());
    while rest.len() > 0
        invariant
            i + rest@.len() == src.len(),
            src.len() == total,
            rest@ == src.skip(i as int),
            has_filter == filter.any_filtered(),
            result@.map_values(|p: (EntryHeader, Vec<MatchLabel>)| item_view(p)) == kept(
                src.take(i as int),
                *filter,
                now,
            ),
        decreases rest@.len(),
    {
        let entry = rest.remove(0);
        assert(entry == src[i as int]);
        assert(rest@ =~= src.skip(i + 1));
        let (keep, labels) = filter.matches_at(&entry, now);
        let ghost before = result@;
        assert(src.take(i + 1).drop_last() =~= src.take(i as int));
        assert(src.take(i + 1).last() == entry);
        if !has_filter || keep {
            result.push((entry, labels));
            assert(result@.map_values(|p: (EntryHeader, Vec<MatchLabel>)| item_view(p)) =~= before.map_values(
                |p: (EntryHeader, Vec<MatchLabel>)| item_view(p),
            ).push(item_view(result@.last())));
        }
        i += 1;
    }
    assert(src.take(i as int) =~= src);
    match filter.sort_by {
        Some(field) => stable_sort(result, field, filter.sort_order),
        None => result,
    }
}

/// Filter and sort `entries` at the local time.
pub fn apply_filter_and_sort(entries: Vec<EntryHeader>, filter: &EntryFilter) -> (res: Vec<
    (EntryHeader, Vec<MatchLabel>),
>)
    ensures
        exists|now: DateTime|
            now.valid() && match filter.sort_by {
                None => res@.map_values(|p: (EntryHeader, Vec<MatchLabel>)| item_view(p)) == kept(
                    entries@,
                    *filter,
                    now,
                ),
                Some(field) => exists|mid: Seq<(EntryHeader, Vec<MatchLabel>)>, perm: Seq<int>|
                    mid.map_values(|p: (EntryHeader, Vec<MatchLabel>)| item_view(p)) == kept(
                        entries@,
                        *filter,
                        now,
                    ) && arranged(res@, mid, perm, field, filter.sort_order),
            },
{
    let now = local_now();
    apply_filter_and_sort_at(entries, filter, now)
}


// ── tree ─────────────────────────────────────────────────────────────────────

/// A node of the entry hierarchy.
#[derive(Debug)]
pub struct EntryTreeNode {
    pub entry: EntryHeader,
    pub labels: Vec<MatchLabel>,
    pub children: Vec<EntryTreeNode>,
}

/// The last of the first `n` entries whose identifier is `id`.
pub open spec fn find_last(es: Seq<(EntryHeader, Vec<MatchLabel>)>, id: u64, n: int) -> Option<int>
    decreases n,
{
    if n <= 0 {
        None
    } else if es[n - 1].0.frontmatter.id == id {
        Some(n - 1)
    } else {
        find_last(es, id, n - 1)
    }
}

/// The position of an entry's parent in the list: the last entry carrying
/// its `parent_id`; none when it has no parent or the parent is not listed.
pub open spec fn parent_index(es: Seq<(EntryHeader, Vec<MatchLabel>)>, i: int) -> Option<int> {
    match es[i].0.frontmatter.parent_id {
        Some(p) => find_last(es, p, es.len() as int),
        None => None,
    }
}

/// The positions among the first `n` entries whose parent is the entry at
/// `p`, in input order.
pub open spec fn kids(es: Seq<(EntryHeader, Vec<MatchLabel>)>, p: int, n: int) -> Seq<int>
    decreases n,
{
    if n <= 0 {
        seq![]
    } else if parent_index(es, n - 1) == Some(p) {
        kids(es, p, n - 1).push(n - 1)
    } else {
        kids(es, p, n - 1)
    }
}

/// The positions among the first `n` entries that have no listed parent, in
/// input order.
pub open spec fn roots(es: Seq<(EntryHeader, Vec<MatchLabel>)>, n: int) -> Seq<int>
    decreases n,
{
    if n <= 0 {
        seq![]
    } else if parent_index(es, n - 1) is None {
        roots(es, n - 1).push(n - 1)
    } else {
        roots(es, n - 1)
    }
}

/// `node` holds the entry at `i` and, down to `depth` more levels, its
/// children in input order.
pub open spec fn node_fits(node: EntryTreeNode, es: Seq<(EntryHeader, Vec<MatchLabel>)>, i: int, depth: nat) -> bool
    decreases depth,
{
    &&& 0 <= i < es.len()
    &&& same_header(node.entry, es[i].0)
    &&& node.labels@ == es[i].1@
    &&& if depth == 0 {
        node.children@.len() == 0
    } else {
        let ks = kids(es, i, es.len() as int);
        &&& node.children@.len() == ks.len()
        &&& forall|k: int|
            0 <= k < ks.len() ==> node_fits(#[trigger] node.children@[k], es, ks[k], (depth - 1) as nat)
    }
}

/// `node_fits`, and every node where the depth ran out has no children in
/// the list: the node holds its entry's whole subtree.
pub open spec fn node_complete(node: EntryTreeNode, es: Seq<(EntryHeader, Vec<MatchLabel>)>, i: int, depth: nat) -> bool
    decreases depth,
{
    &&& 0 <= i < es.len()
    &&& if depth == 0 {
        kids(es, i, es.len() as int).len() == 0
    } else {
        let ks = kids(es, i, es.len() as int);
        &&& node.children@.len() == ks.len()
        &&& forall|k: int|
            0 <= k < ks.len() ==> node_complete(#[trigger] node.children@[k], es, ks[k], (depth - 1) as nat)
    }
}

/// The entry reached by following `d` parent links up from `j`.
pub open spec fn ancestor(es: Seq<(EntryHeader, Vec<MatchLabel>)>, j: int, d: nat) -> Option<int>
    decreases d,
{
    if d == 0 {
        Some(j)
    } else {
        match parent_index(es, j) {
            Some(p) => ancestor(es, p, (d - 1) as nat),
            None => None,
        }
    }
}

/// Every listed parent position lies inside the list.
pub open spec fn parents_in_range(es: Seq<(EntryHeader, Vec<MatchLabel>)>) -> bool {
    forall|j: int|
        0 <= j < es.len() ==> match #[trigger] parent_index(es, j) {
            Some(p) => 0 <= p < es.len(),
            None => true,
        }
}

proof fn lemma_find_last(es: Seq<(EntryHeader, Vec<MatchLabel>)>, id: u64, n: int)
    ensures
        find_last(es, id, n) matches Some(k) ==> 0 <= k < n && es[k].0.frontmatter.id == id,
    decreases n,
{
    if n > 0 {
        lemma_find_last(es, id, n - 1);
    }
}

proof fn lemma_parent_in_range(es: Seq<(EntryHeader, Vec<MatchLabel>)>, i: int)
    ensures
        parent_index(es, i) matches Some(p) ==> 0 <= p < es.len(),
{
    if let Some(pid) = es[i].0.frontmatter.parent_id {
        lemma_find_last(es, pid, es.len() as int);
    }
}

proof fn lemma_kids(es: Seq<(EntryHeader, Vec<MatchLabel>)>, p: int, n: int)
    requires
        n <= es.len(),
    ensures
        forall|k: int| 0 <= k < kids(es, p, n).len() ==> 0 <= #[trigger] kids(es, p, n)[k] < n
            && parent_index(es, kids(es, p, n)[k]) == Some(p),
    decreases n,
{
    if n > 0 {
        lemma_kids(es, p, n - 1);
    }
}

proof fn lemma_ancestor_in_range(es: Seq<(EntryHeader, Vec<MatchLabel>)>, j: int, d: nat)
    requires
        0 <= j < es.len(),
    ensures
        ancestor(es, j, d) matches Some(a) ==> 0 <= a < es.len(),
    decreases d,
{
    if d > 0 {
        lemma_parent_in_range(es, j);
        if let Some(p) = parent_index(es, j) {
            lemma_ancestor_in_range(es, p, (d - 1) as nat);
        }
    }
}

proof fn lemma_ancestor_add(es: Seq<(EntryHeader, Vec<MatchLabel>)>, x: int, p: nat, q: nat)
    ensures
        ancestor(es, x, p + q) == match ancestor(es, x, p) {
            Some(y) => ancestor(es, y, q),
            None => None,
        },
    decreases p,
{
    if p > 0 {
        match parent_index(es, x) {
            Some(z) => {
                lemma_ancestor_add(es, z, (p - 1) as nat, q);
                assert((p + q - 1) as nat == ((p - 1) as nat + q) as nat);
            },
            None => {},
        }
    }
}

/// Following parent links from any entry reaches an entry without a listed
/// parent in fewer steps than there are entries, if at all: the chain of
/// parents from a root cannot repeat.
pub proof fn lemma_root_chain_bounded(es: Seq<(EntryHeader, Vec<MatchLabel>)>, j: int, d: nat, r: int)
    requires
        0 <= j < es.len(),
        ancestor(es, j, d) == Some(r),
        parent_index(es, r) is None,
    ensures
        d < es.len(),
{
    let path = Seq::new(d + 1, |t: int| ancestor(es, j, t as nat)->0);
    assert forall|t: int| 0 <= t <= d implies (#[trigger] ancestor(es, j, t as nat)) is Some by {
        lemma_ancestor_add(es, j, t as nat, (d - t) as nat);
        assert((t as nat + (d - t) as nat) as nat == d);
    }
    assert forall|a: int, b: int| 0 <= a < b <= d implies #[trigger] path[a] != #[trigger] path[b] by {
        let x = path[a];
        lemma_ancestor_add(es, j, a as nat, (d - a) as nat);
        lemma_ancestor_add(es, j, b as nat, (d - b) as nat);
        assert((a as nat + (d - a) as nat) as nat == d);
        assert((b as nat + (d - b) as nat) as nat == d);
        if path[a] == path[b] {
            // From x, d - a steps and d - b steps both reach r.
            lemma_ancestor_add(es, x, (d - b) as nat, (b - a) as nat);
            assert(((d - b) as nat + (b - a) as nat) as nat == (d - a) as nat);
            assert(ancestor(es, r, (b - a) as nat) is None);
        }
    }
    assert forall|a: int, b: int| 0 <= a < path.len() && 0 <= b < path.len() && a != b implies #[trigger] path[a]
        != #[trigger] path[b] by {
        if a > b {
            assert(path[b] != path[a]);
        }
    }
    assert(path.no_duplicates());
    assert forall|t: int| 0 <= t < path.len() implies 0 <= #[trigger] path[t] < es.len() by {
        lemma_ancestor_in_range(es, j, t as nat);
    }
    let range = vstd::set_lib::set_int_range(0, es.len() as int);
    vstd::set_lib::lemma_int_range(0, es.len() as int);
    path.unique_seq_to_set();
    assert(path.to_set().subset_of(range)) by {
        assert forall|x: int| path.to_set().contains(x) implies range.contains(x) by {
            let t = choose|t: int| 0 <= t < path.len() && path[t] == x;
            assert(0 <= path[t] < es.len());
        }
    }
    vstd::set_lib::lemma_len_subset(path.to_set(), range);
}

proof fn lemma_fits_complete(
    node: EntryTreeNode,
    es: Seq<(EntryHeader, Vec<MatchLabel>)>,
    i: int,
    d: nat,
    r: int,
)
    requires
        0 <= i < es.len(),
        d <= es.len(),
        ancestor(es, i, d) == Some(r),
        parent_index(es, r) is None,
        node_fits(node, es, i, (es.len() - d) as nat),
    ensures
        node_complete(node, es, i, (es.len() - d) as nat),
    decreases es.len() - d,
{
    lemma_root_chain_bounded(es, i, d, r);
    let depth = (es.len() - d) as nat;
    let ks = kids(es, i, es.len() as int);
    lemma_kids(es, i, es.len() as int);
    assert forall|k: int| 0 <= k < ks.len() implies node_complete(
        #[trigger] node.children@[k],
        es,
        ks[k],
        (depth - 1) as nat,
    ) by {
        let c = ks[k];
        assert(parent_index(es, c) == Some(i));
        assert(ancestor(es, c, d + 1) == ancestor(es, i, d));
        assert((es.len() - (d + 1)) as nat == (depth - 1) as nat);
        lemma_fits_complete(node.children@[k], es, c, d + 1, r);
    }
}

/// The hierarchy holds every entry below each root: each root tree built
/// down to as many levels as there are entries is complete.
pub proof fn lemma_forest_complete(node: EntryTreeNode, es: Seq<(EntryHeader, Vec<MatchLabel>)>, r: int)
    requires
        0 <= r < es.len(),
        parent_index(es, r) is None,
        node_fits(node, es, r, es.len() as nat),
    ensures
        node_complete(node, es, r, es.len() as nat),
{
    lemma_fits_complete(node, es, r, 0, r);
}

fn copy_labels(v: &Vec<MatchLabel>) -> (res: Vec<MatchLabel>)
    ensures
        res@ == v@,
{
    let mut res: Vec<MatchLabel> = Vec::new();
    let mut i: usize = 0;
    while i < v.len()
        invariant
            i <= v@.len(),
            res@ == v@.take(i as int),
        decreases v@.len() - i,
    {
        res.push(v[i]);
        assert(res@ =~= v@.take(i + 1));
        i += 1;
    }
    assert(v@.take(i as int) =~= v@);
    res
}

/// The parent position of each entry.
fn parent_positions(entries: &Vec<(EntryHeader, Vec<MatchLabel>)>) -> (res: Vec<Option<usize>>)
    ensures
        res@.len() == entries@.len(),
        forall|i: int| 0 <= i < entries@.len() ==> #[trigger] res@[i] == match parent_index(entries@, i) {
            Some(p) => Some(p as usize),
            None => None::<usize>,
        },
        parents_in_range(entries@),
{
    let n = entries.len();
    let mut res: Vec<Option<usize>> = Vec::new();
    let mut i: usize = 0;
    while i < n
        invariant
            n == entries@.len(),
            i <= n,
            res@.len() == i,
            forall|j: int| 0 <= j < i ==> #[trigger] res@[j] == match parent_index(entries@, j) {
                Some(p) => Some(p as usize),
                None => None::<usize>,
            },
        decreases n - i,
    {
        let found = match entries[i].0.frontmatter.parent_id {
            None => None,
            Some(pid) => {
                let mut k: usize = n;
                let mut hit: Option<usize> = None;
                while k > 0 && hit.is_none()
                    invariant
                        k <= n,
                        n == entries@.len(),
                        hit is None ==> find_last(entries@, pid, n as int) == find_last(
                            entries@,
                            pid,
                            k as int,
                        ),
                        hit matches Some(h) ==> find_last(entries@, pid, n as int) == Some(h as int),
                    decreases k,
                {
                    if entries[k - 1].0.frontmatter.id == pid {
                        assert(find_last(entries@, pid, k as int) == Some((k - 1) as int));
                        hit = Some(k - 1);
                        k = 0;
                    } else {
                        k -= 1;
                    }
                }
                proof {
                    lemma_find_last(entries@, pid, n as int);
                }
                hit
            },
        };
        res.push(found);
        i += 1;
    }
    proof {
        assert forall|i: int| 0 <= i < entries@.len() implies match #[trigger] parent_index(entries@, i) {
            Some(p) => 0 <= p < entries@.len(),
            None => true,
        } by {
            lemma_parent_in_range(entries@, i);
        }
    }
    res
}

fn build_node(
    entries: &Vec<(EntryHeader, Vec<MatchLabel>)>,
    parents: &Vec<Option<usize>>,
    i: usize,
    depth: usize,
) -> (res: EntryTreeNode)
    requires
        i < entries@.len(),
        parents@.len() == entries@.len(),
        forall|j: int| 0 <= j < entries@.len() ==> #[trigger] parents@[j] == match parent_index(entries@, j) {
            Some(p) => Some(p as usize),
            None => None::<usize>,
        },
        parents_in_range(entries@),
    ensures
        node_fits(res, entries@, i as int, depth as nat),
    decreases depth,
{
    let entry = entries[i].0.duplicate();
    let labels = copy_labels(&entries[i].1);
    let mut children: Vec<EntryTreeNode> = Vec::new();
    if depth > 0 {
        let n = entries.len();
        let mut c: usize = 0;
        while c < n
            invariant
                n == entries@.len(),
                c <= n,
                i < n,
                depth > 0,
                parents@.len() == entries@.len(),
                forall|j: int| 0 <= j < entries@.len() ==> #[trigger] parents@[j] == match parent_index(
                    entries@,
                    j,
                ) {
                    Some(p) => Some(p as usize),
                    None => None::<usize>,
                },
                parents_in_range(entries@),
                children@.len() == kids(entries@, i as int, c as int).len(),
                forall|k: int|
                    0 <= k < children@.len() ==> node_fits(
                        #[trigger] children@[k],
                        entries@,
                        kids(entries@, i as int, c as int)[k],
                        (depth - 1) as nat,
                    ),
            decreases n - c,
        {
            let is_child = match parents[c] {
                Some(p) => p == i,
                None => false,
            };
            if is_child {
                let child = build_node(entries, parents, c, depth - 1);
                children.push(child);
            }
            c += 1;
        }
    }
    EntryTreeNode { entry, labels, children }
}

/// Organise `(entry, labels)` pairs into a forest by `parent_id`.
///
/// An entry is a root when it has no `parent_id` or its parent is not in the
/// list; siblings keep the input order.  Each root tree is built down to as
/// many levels as there are entries, which [`lemma_forest_complete`] shows
/// to be all of it.
pub fn build_entry_tree(entries: Vec<(EntryHeader, Vec<MatchLabel>)>) -> (res: Vec<EntryTreeNode>)
    ensures
        res@.len() == roots(entries@, entries@.len() as int).len(),
        forall|k: int|
            0 <= k < res@.len() ==> node_fits(
                #[trigger] res@[k],
                entries@,
                roots(entries@, entries@.len() as int)[k],
                entries@.len() as nat,
            ),
{
    let parents = parent_positions(&entries);
    let n = entries.len();
    let mut res: Vec<EntryTreeNode> = Vec::new();
    let mut i: usize = 0;
    while i < n
        invariant
            n == entries@.len(),
            i <= n,
            parents@.len() == entries@.len(),
            forall|j: int| 0 <= j < entries@.len() ==> #[trigger] parents@[j] == match parent_index(
                entries@,
                j,
            ) {
                Some(p) => Some(p as usize),
                None => None::<usize>,
            },
            parents_in_range(entries@),
            res@.len() == roots(entries@, i as int).len(),
            forall|k: int|
                0 <= k < res@.len() ==> node_fits(
                    #[trigger] res@[k],
                    entries@,
                    roots(entries@, i as int)[k],
                    n as nat,
                ),
        decreases n - i,
    {
        if parents[i].is_none() {
            let node = build_node(&entries, &parents, i, n);
            res.push(node);
        }
        i += 1;
    }
    res
}


// ── fields of create and update ──────────────────────────────────────────────

/// Frontmatter fields given for creating or updating an entry.  On create,
/// an absent title, body or tag list is empty; on update, an absent field is
/// left unchanged.
#[derive(Debug, Default)]
pub struct EntryFields {
    pub title: Option<String>,
    pub body: Option<String>,
    /// The parent entry, resolved to an identifier by the caller.
    pub parent: Option<EntryRef>,
    pub slug: Option<String>,
    /// `Some` of an empty list clears the tags.
    pub tags: Option<Vec<String>>,
    pub task_due: Option<DateTime>,
    pub task_status: Option<String>,
    pub task_started_at: Option<DateTime>,
    pub task_closed_at: Option<DateTime>,
    pub event_start: Option<DateTime>,
    pub event_end: Option<DateTime>,
}

/// A date-time field given as text: absent, read, or the reason it does not
/// read.
pub open spec fn field_reading(s: Option<&str>, end_of_day: bool) -> Result<Option<DateTime>, Seq<char>> {
    match s {
        None => Ok(None),
        Some(t) => match crate::period::datetime_result(t@, end_of_day) {
            Ok(d) => Ok(Some(d)),
            Err(e) => Err(e),
        },
    }
}

fn read_field(s: Option<&str>, end_of_day: bool) -> (res: Result<Option<DateTime>, String>)
    ensures
        match res {
            Ok(v) => field_reading(s, end_of_day) == Ok::<Option<DateTime>, Seq<char>>(v),
            Err(e) => field_reading(s, end_of_day) == Err::<Option<DateTime>, Seq<char>>(e@),
        },
{
    match s {
        None => Ok(None),
        Some(t) => {
            let r = if end_of_day {
                crate::period::parse_datetime_end(t)
            } else {
                crate::period::parse_datetime(t)
            };
            match r {
                Ok(d) => Ok(Some(d)),
                Err(e) => Err(e),
            }
        },
    }
}

/// The fields of an update request given as text: the tags as a
/// comma-separated list, the due date and event end read with a date alone
/// meaning its last second, the other times with a date alone meaning its
/// start.  The first time that does not read, in the order due, started,
/// closed, event start, event end, gives the error.
pub fn parse_entry_fields(
    slug: Option<String>,
    tags: Option<String>,
    task_due: Option<&str>,
    task_status: Option<String>,
    task_started_at: Option<&str>,
    task_closed_at: Option<&str>,
    event_start: Option<&str>,
    event_end: Option<&str>,
) -> (res: Result<EntryFields, String>)
    ensures
        res is Ok == (field_reading(task_due, true) is Ok && field_reading(task_started_at, false) is Ok
            && field_reading(task_closed_at, false) is Ok && field_reading(event_start, false) is Ok
            && field_reading(event_end, true) is Ok),
        res matches Ok(f) ==> {
            &&& f.title is None
            &&& f.body is None
            &&& f.parent is None
            &&& f.slug == slug
            &&& match tags {
                Some(t) => f.tags matches Some(v) && texts(v@) == crate::home::tags_typed(t@),
                None => f.tags is None,
            }
            &&& f.task_status == task_status
            &&& field_reading(task_due, true) == Ok::<Option<DateTime>, Seq<char>>(f.task_due)
            &&& field_reading(task_started_at, false) == Ok::<Option<DateTime>, Seq<char>>(f.task_started_at)
            &&& field_reading(task_closed_at, false) == Ok::<Option<DateTime>, Seq<char>>(f.task_closed_at)
            &&& field_reading(event_start, false) == Ok::<Option<DateTime>, Seq<char>>(f.event_start)
            &&& field_reading(event_end, true) == Ok::<Option<DateTime>, Seq<char>>(f.event_end)
        },
        res matches Err(m) ==> match field_reading(task_due, true) {
            Err(e) => m@ == e,
            Ok(_) => match field_reading(task_started_at, false) {
                Err(e) => m@ == e,
                Ok(_) => match field_reading(task_closed_at, false) {
                    Err(e) => m@ == e,
                    Ok(_) => match field_reading(event_start, false) {
                        Err(e) => m@ == e,
                        Ok(_) => field_reading(event_end, true) == Err::<Option<DateTime>, Seq<char>>(m@),
                    },
                },
            },
        },
{
    let tags = match tags {
        Some(t) => Some(crate::home::parse_tags(t.as_str())),
        None => None,
    };
    let task_due = read_field(task_due, true)?;
    let task_started_at = read_field(task_started_at, false)?;
    let task_closed_at = read_field(task_closed_at, false)?;
    let event_start = read_field(event_start, false)?;
    let event_end = read_field(event_end, true)?;
    Ok(
        EntryFields {
            title: None,
            body: None,
            parent: None,
            slug,
            tags,
            task_due,
            task_status,
            task_started_at,
            task_closed_at,
            event_start,
            event_end,
        },
    )
}

/// The values of a task.
pub struct TaskState {
    pub due: Option<DateTime>,
    pub status: Seq<char>,
    pub started_at: Option<DateTime>,
    pub closed_at: Option<DateTime>,
}

pub open spec fn task_state(t: Option<TaskMeta>) -> Option<TaskState> {
    match t {
        Some(t) => Some(TaskState { due: t.due, status: t.status@, started_at: t.started_at, closed_at: t.closed_at }),
        None => None,
    }
}

/// A status that closes a task.
pub open spec fn is_closing(s: Seq<char>) -> bool {
    s == "done"@ || s == "cancelled"@ || s == "archived"@
}

/// Some task field is given.
pub open spec fn touches_task(f: EntryFields) -> bool {
    f.task_due is Some || f.task_status is Some || f.task_started_at is Some || f.task_closed_at is Some
}

pub open spec fn either(a: Option<DateTime>, b: Option<DateTime>) -> Option<DateTime> {
    match a {
        Some(x) => Some(x),
        None => b,
    }
}

/// The task of a new entry: present when a task field is given; the status
/// defaults to `open`; an `in_progress` task is started and a closing status
/// closes it at `now`, unless those times are given.
pub open spec fn created_task(f: EntryFields, now: DateTime) -> Option<TaskState> {
    if !touches_task(f) {
        None
    } else {
        let status = match f.task_status {
            Some(s) => s@,
            None => "open"@,
        };
        Some(
            TaskState {
                due: f.task_due,
                status,
                started_at: either(
                    f.task_started_at,
                    if status == "in_progress"@ {
                        Some(now)
                    } else {
                        None
                    },
                ),
                closed_at: either(
                    f.task_closed_at,
                    if is_closing(status) {
                        Some(now)
                    } else {
                        None
                    },
                ),
            },
        )
    }
}

/// The event of a new entry: present when a start or an end is given, the
/// missing one taken from the other.
pub open spec fn created_event(f: EntryFields) -> Option<EventMeta> {
    if f.event_start is None && f.event_end is None {
        None
    } else {
        Some(
            EventMeta {
                start: either(f.event_start, f.event_end)->0,
                end: either(f.event_end, f.event_start)->0,
            },
        )
    }
}

/// The text of an optional string, empty when absent.
pub open spec fn text_or_empty(s: Option<String>) -> Seq<char> {
    match s {
        Some(t) => t@,
        None => seq![],
    }
}

fn is_closing_exec(s: &str) -> (res: bool)
    ensures
        res == is_closing(s@),
{
    str_eq(s, "done") || str_eq(s, "cancelled") || str_eq(s, "archived")
}

fn or_empty(s: Option<String>) -> (res: String)
    ensures
        res@ == text_or_empty(s),
{
    proof {
        reveal_strlit("");
    }
    match s {
        Some(t) => t,
        None => crate::text::owned(""),
    }
}

/// The frontmatter and body of a new entry with identifier `id`, parent
/// `parent_id`, created at `now`.
pub fn new_frontmatter(fields: EntryFields, id: u64, parent_id: Option<u64>, now: DateTime) -> (res: (
    Frontmatter,
    String,
))
    ensures
        res.0.id == id,
        res.0.parent_id == parent_id,
        res.0.title@ == text_or_empty(fields.title),
        res.0.slug@ == text_or_empty(fields.slug),
        res.0.created_at == now,
        res.0.updated_at == now,
        res.0.tags@ == match fields.tags {
            Some(t) => t@,
            None => Seq::<String>::empty(),
        },
        task_state(res.0.task) == created_task(fields, now),
        res.0.event == created_event(fields),
        res.1@ == text_or_empty(fields.body),
{
    let ghost f = fields;
    let touches = fields.task_due.is_some() || fields.task_status.is_some() || fields.task_started_at.is_some()
        || fields.task_closed_at.is_some();
    let EntryFields {
        title,
        body,
        parent: _,
        slug,
        tags,
        task_due,
        task_status,
        task_started_at,
        task_closed_at,
        event_start,
        event_end,
    } = fields;
    let task = if touches {
        let status = match task_status {
            Some(s) => s,
            None => crate::text::owned("open"),
        };
        let in_progress = str_eq(status.as_str(), "in_progress");
        let inactive = is_closing_exec(status.as_str());
        let started_at = match task_started_at {
            Some(x) => Some(x),
            None => if in_progress {
                Some(now)
            } else {
                None
            },
        };
        let closed_at = match task_closed_at {
            Some(x) => Some(x),
            None => if inactive {
                Some(now)
            } else {
                None
            },
        };
        Some(TaskMeta { due: task_due, status, started_at, closed_at })
    } else {
        None
    };
    let event = if event_start.is_some() || event_end.is_some() {
        let start = match event_start {
            Some(x) => x,
            None => event_end.unwrap(),
        };
        let end = match event_end {
            Some(x) => x,
            None => event_start.unwrap(),
        };
        Some(EventMeta { start, end })
    } else {
        None
    };
    let tags = match tags {
        Some(t) => t,
        None => Vec::new(),
    };
    let fm = Frontmatter {
        id,
        parent_id,
        title: or_empty(title),
        slug: or_empty(slug),
        created_at: now,
        updated_at: now,
        tags,
        task,
        event,
    };
    (fm, or_empty(body))
}

/// The task after an update: when a task field is given, the existing task
/// (or a new `open` one) takes the given due time and status; a status
/// change to `in_progress` starts it and a closing status closes it at
/// `now` unless it already has, or the update gives, that time; given start
/// and close times are set last.
pub open spec fn updated_task(old: Option<TaskState>, f: EntryFields, now: DateTime) -> Option<TaskState> {
    if !touches_task(f) {
        old
    } else {
        let t0 = match old {
            Some(t) => t,
            None => TaskState { due: None, status: "open"@, started_at: None, closed_at: None },
        };
        let t1 = TaskState {
            due: either(f.task_due, t0.due),
            status: t0.status,
            started_at: t0.started_at,
            closed_at: t0.closed_at,
        };
        let t2 = match f.task_status {
            Some(s) => TaskState {
                due: t1.due,
                status: s@,
                started_at: if s@ == "in_progress"@ && t1.started_at is None && f.task_started_at is None {
                    Some(now)
                } else {
                    t1.started_at
                },
                closed_at: if is_closing(s@) && t1.closed_at is None && f.task_closed_at is None {
                    Some(now)
                } else {
                    t1.closed_at
                },
            },
            None => t1,
        };
        Some(
            TaskState {
                due: t2.due,
                status: t2.status,
                started_at: either(f.task_started_at, t2.started_at),
                closed_at: either(f.task_closed_at, t2.closed_at),
            },
        )
    }
}

/// The event after an update: when a start or an end is given, the existing
/// event (or a new one made from the given times) takes them.
pub open spec fn updated_event(old: Option<EventMeta>, f: EntryFields) -> Option<EventMeta> {
    if f.event_start is None && f.event_end is None {
        old
    } else {
        let e0 = match old {
            Some(e) => e,
            None => EventMeta {
                start: either(f.event_start, f.event_end)->0,
                end: either(f.event_end, f.event_start)->0,
            },
        };
        Some(
            EventMeta {
                start: either(f.event_start, Some(e0.start))->0,
                end: either(f.event_end, Some(e0.end))->0,
            },
        )
    }
}

/// A new title must be checked against the other entries when it changes to
/// a non-empty one.
pub fn title_change_needs_check(new_title: &str, current: &str) -> (res: bool)
    ensures
        res == (new_title@ != current@ && new_title@.len() > 0),
{
    !str_eq(new_title, current) && !new_title.is_empty()
}

/// Whether an entry other than `except_id` holds the title `title`.
pub open spec fn title_held(headers: Seq<EntryHeader>, title: Seq<char>, except_id: Option<u64>) -> bool {
    exists|i: int|
        0 <= i < headers.len() && (#[trigger] headers[i]).frontmatter.title@ == title && !(except_id
            == Some(headers[i].frontmatter.id))
}

/// Whether the title `title` is taken by one of the entries, the entry
/// `except_id` (the one being renamed) left out.
pub fn title_taken(headers: &Vec<EntryHeader>, title: &str, except_id: Option<u64>) -> (res: bool)
    ensures
        res == title_held(headers@, title@, except_id),
{
    let mut i: usize = 0;
    while i < headers.len()
        invariant
            i <= headers@.len(),
            forall|j: int|
                0 <= j < i ==> !((#[trigger] headers@[j]).frontmatter.title@ == title@ && !(except_id
                    == Some(headers@[j].frontmatter.id))),
        decreases headers@.len() - i,
    {
        let h = &headers[i];
        let other = match except_id {
            Some(x) => h.frontmatter.id != x,
            None => true,
        };
        if other && str_eq(h.frontmatter.title.as_str(), title) {
            return true;
        }
        i += 1;
    }
    false
}

/// Whether `title` is refused: a non-empty title another entry holds, for a
/// new entry (`current` none) or as the new title of the entry `current`
/// (its identifier and present title; keeping the present title is fine).
pub open spec fn title_refused(headers: Seq<EntryHeader>, title: Seq<char>, current: Option<(u64, Seq<char>)>) -> bool {
    &&& title.len() > 0
    &&& match current {
        None => title_held(headers, title, None),
        Some((id, present)) => title != present && title_held(headers, title, Some(id)),
    }
}

/// Refuse a duplicate title on create (`current` none) or on update
/// (`current` the entry's identifier and present title).
pub fn check_title(headers: &Vec<EntryHeader>, title: &str, current: Option<(u64, &str)>) -> (res: Result<(), crate::error::Error>)
    ensures
        res is Err <==> title_refused(
            headers@,
            title@,
            match current {
                Some((id, p)) => Some((id, p@)),
                None => None,
            },
        ),
        res matches Err(e) ==> (e matches crate::error::Error::DuplicateTitle(m) && m@ == title@),
{
    if title.is_empty() {
        return Ok(());
    }
    let refused = match current {
        None => title_taken(headers, title, None),
        Some((id, present)) => !str_eq(title, present) && title_taken(headers, title, Some(id)),
    };
    if refused {
        Err(crate::error::Error::DuplicateTitle(crate::text::owned(title)))
    } else {
        Ok(())
    }
}

/// Apply the given fields to an entry; `parent_id`, when given, is the
/// resolved parent.
pub fn apply_fields(entry: Entry, fields: EntryFields, parent_id: Option<u64>, now: DateTime) -> (res: Entry)
    ensures
        res.path == entry.path,
        res.body@ == match fields.body {
            Some(b) => b@,
            None => entry.body@,
        },
        res.frontmatter.id == entry.frontmatter.id,
        res.frontmatter.parent_id == match parent_id {
            Some(p) => Some(p),
            None => entry.frontmatter.parent_id,
        },
        res.frontmatter.title@ == match fields.title {
            Some(t) => t@,
            None => entry.frontmatter.title@,
        },
        res.frontmatter.slug@ == match fields.slug {
            Some(t) => t@,
            None => entry.frontmatter.slug@,
        },
        res.frontmatter.tags@ == match fields.tags {
            Some(t) => t@,
            None => entry.frontmatter.tags@,
        },
        res.frontmatter.created_at == entry.frontmatter.created_at,
        res.frontmatter.updated_at == entry.frontmatter.updated_at,
        task_state(res.frontmatter.task) == updated_task(task_state(entry.frontmatter.task), fields, now),
        res.frontmatter.event == updated_event(entry.frontmatter.event, fields),
{
    let ghost f = fields;
    let touches = fields.task_due.is_some() || fields.task_status.is_some() || fields.task_started_at.is_some()
        || fields.task_closed_at.is_some();
    let touches_event = fields.event_start.is_some() || fields.event_end.is_some();
    let Entry { path, frontmatter, body } = entry;
    let Frontmatter { id, parent_id: old_parent, title, slug, created_at, updated_at, tags, task, event } =
        frontmatter;
    let EntryFields {
        title: new_title,
        body: new_body,
        parent: _,
        slug: new_slug,
        tags: new_tags,
        task_due,
        task_status,
        task_started_at,
        task_closed_at,
        event_start,
        event_end,
    } = fields;
    let task = if touches {
        let t0 = match task {
            Some(t) => t,
            None => TaskMeta { status: crate::text::owned("open"), due: None, started_at: None, closed_at: None },
        };
        let TaskMeta { due, status, started_at, closed_at } = t0;
        let due = match task_due {
            Some(d) => Some(d),
            None => due,
        };
        let mut started_at = started_at;
        let mut closed_at = closed_at;
        let status = match task_status {
            Some(s) => {
                let in_progress = str_eq(s.as_str(), "in_progress");
                let inactive = is_closing_exec(s.as_str());
                if in_progress && started_at.is_none() && task_started_at.is_none() {
                    started_at = Some(now);
                }
                if inactive && closed_at.is_none() && task_closed_at.is_none() {
                    closed_at = Some(now);
                }
                s
            },
            None => status,
        };
        if let Some(sa) = task_started_at {
            started_at = Some(sa);
        }
        if let Some(ca) = task_closed_at {
            closed_at = Some(ca);
        }
        Some(TaskMeta { due, status, started_at, closed_at })
    } else {
        task
    };
    let event = if touches_event {
        let e0 = match event {
            Some(e) => e,
            None => {
                let start = match event_start {
                    Some(x) => x,
                    None => event_end.unwrap(),
                };
                let end = match event_end {
                    Some(x) => x,
                    None => event_start.unwrap(),
                };
                EventMeta { start, end }
            },
        };
        Some(
            EventMeta {
                start: match event_start {
                    Some(s) => s,
                    None => e0.start,
                },
                end: match event_end {
                    Some(e) => e,
                    None => e0.end,
                },
            },
        )
    } else {
        event
    };
    let frontmatter = Frontmatter {
        id,
        parent_id: match parent_id {
            Some(p) => Some(p),
            None => old_parent,
        },
        title: match new_title {
            Some(t) => t,
            None => title,
        },
        slug: match new_slug {
            Some(s) => s,
            None => slug,
        },
        created_at,
        updated_at,
        tags: match new_tags {
            Some(t) => t,
            None => tags,
        },
        task,
        event,
    };
    Entry {
        path,
        frontmatter,
        body: match new_body {
            Some(b) => b,
            None => body,
        },
    }
}

// ── check and fix ────────────────────────────────────────────────────────────

/// The slug an entry's filename uses: the frontmatter slug when set, else
/// the slug of its title.
pub open spec fn slug_for(fm: Frontmatter) -> Seq<char> {
    if fm.slug@.len() > 0 {
        fm.slug@
    } else {
        slug_of(fm.title@)
    }
}

/// The canonical filename of an entry, from its identifier and its slug.
pub fn entry_filename_from_frontmatter(id: u64, fm: &Frontmatter) -> (res: String)
    requires
        id < ID_LIMIT,
    ensures
        res@ == filename_for(id as int, slug_for(*fm)),
{
    proof {
        reveal_strlit("");
    }
    let slug = if !fm.slug.as_str().is_empty() {
        fm.slug.clone()
    } else if fm.title.as_str().is_empty() {
        proof {
            assert(slug_of(fm.title@) =~= Seq::<char>::empty());
        }
        crate::text::owned("")
    } else {
        slugify(fm.title.as_str())
    };
    let id_part = caretta_text(id);
    if slug.as_str().is_empty() {
        concat(id_part.as_str(), ".md")
    } else {
        concat(&concat(&concat(id_part.as_str(), "_"), slug.as_str()), ".md")
    }
}

/// The last component of a path: the text after its last `/`.
pub open spec fn file_name_of(path: Seq<char>) -> Seq<char> {
    if crate::text::has_char(path, '/') {
        let i = choose|i: int| 0 <= i < path.len() && path[i] == '/' && forall|j: int|
            i < j < path.len() ==> path[j] != '/';
        path.skip(i + 1)
    } else {
        path
    }
}

/// The directory part of a path: the text before its last `/`, empty when
/// there is none.
pub open spec fn parent_of(path: Seq<char>) -> Seq<char> {
    if crate::text::has_char(path, '/') {
        let i = choose|i: int| 0 <= i < path.len() && path[i] == '/' && forall|j: int|
            i < j < path.len() ==> path[j] != '/';
        path.take(i)
    } else {
        seq![]
    }
}

/// Position of the last `/` of a path.
fn last_slash(v: &Vec<char>) -> (res: Option<usize>)
    ensures
        match res {
            Some(i) => i < v@.len() && v@[i as int] == '/' && forall|j: int| i < j < v@.len() ==> v@[j] != '/',
            None => !crate::text::has_char(v@, '/'),
        },
{
    let mut k = v.len();
    while k > 0
        invariant
            k <= v@.len(),
            forall|j: int| k <= j < v@.len() ==> v@[j] != '/',
        decreases k,
    {
        if v[k - 1] == '/' {
            return Some(k - 1);
        }
        k -= 1;
    }
    None
}

proof fn lemma_last_slash_unique(p: Seq<char>, i: int, k: int)
    requires
        0 <= i < p.len() && p[i] == '/' && forall|j: int| i < j < p.len() ==> p[j] != '/',
        0 <= k < p.len() && p[k] == '/' && forall|j: int| k < j < p.len() ==> p[j] != '/',
    ensures
        i == k,
{
    if i < k {
        assert(p[k] != '/');
    } else if k < i {
        assert(p[i] != '/');
    }
}

/// The last component of a path.
pub fn file_name(path: &str) -> (res: String)
    ensures
        res@ == file_name_of(path@),
{
    let v = chars_of(path);
    match last_slash(&v) {
        Some(i) => {
            proof {
                let k = choose|k: int| 0 <= k < path@.len() && path@[k] == '/' && forall|j: int|
                    k < j < path@.len() ==> path@[j] != '/';
                lemma_last_slash_unique(path@, i as int, k);
            }
            let n = v.len();
            assert(i < n);
            let r = crate::text::string_from_chars(&v[i + 1..n]);
            assert(r@ =~= path@.skip(i + 1));
            r
        },
        None => crate::text::owned(path),
    }
}

/// The directory part of a path.
pub fn parent_dir(path: &str) -> (res: String)
    ensures
        res@ == parent_of(path@),
{
    let v = chars_of(path);
    match last_slash(&v) {
        Some(i) => {
            proof {
                let k = choose|k: int| 0 <= k < path@.len() && path@[k] == '/' && forall|j: int|
                    k < j < path@.len() ==> path@[j] != '/';
                lemma_last_slash_unique(path@, i as int, k);
            }
            let r = crate::text::string_from_chars(&v[0..i]);
            assert(r@ =~= path@.take(i as int));
            r
        },
        None => {
            proof {
                reveal_strlit("");
            }
            crate::text::owned("")
        },
    }
}

/// A problem found by [`check_entry`].
#[derive(Clone, Debug)]
pub enum CheckIssue {
    /// The filename does not match the identifier and slug of the frontmatter.
    FilenameMismatch {
        /// The filename the entry should have.
        expected_filename: String,
    },
}

impl CheckIssue {
    pub open spec fn text(self) -> Seq<char> {
        match self {
            CheckIssue::FilenameMismatch { expected_filename } => "filename mismatch — should be `"@
                + expected_filename@ + "`"@,
        }
    }

    /// The message describing the issue.
    pub fn as_str(&self) -> (res: String)
        ensures
            res@ == self.text(),
    {
        match self {
            CheckIssue::FilenameMismatch { expected_filename } => concat(
                &concat("filename mismatch — should be `", expected_filename.as_str()),
                "`",
            ),
        }
    }
}

/// The issues of the entry file at `path` with frontmatter `fm`: a filename
/// mismatch when the file is not named canonically.
pub fn check_entry(path: &str, fm: &Frontmatter) -> (res: Vec<CheckIssue>)
    requires
        fm.id < ID_LIMIT,
    ensures
        file_name_of(path@) == filename_for(fm.id as int, slug_for(*fm)) ==> res@.len() == 0,
        file_name_of(path@) != filename_for(fm.id as int, slug_for(*fm)) ==> res@.len() == 1,
        file_name_of(path@) != filename_for(fm.id as int, slug_for(*fm)) ==> (res@[0] matches CheckIssue::FilenameMismatch { expected_filename }
            && expected_filename@ == filename_for(fm.id as int, slug_for(*fm))),
{
    let expected = entry_filename_from_frontmatter(fm.id, fm);
    let actual = file_name(path);
    let mut issues: Vec<CheckIssue> = Vec::new();
    if !str_eq(actual.as_str(), expected.as_str()) {
        issues.push(CheckIssue::FilenameMismatch { expected_filename: expected });
    }
    issues
}

/// An `in_progress` task gets a start time, and a task with a closing status
/// a close time, at `now` when missing.
pub open spec fn synced_task(t: Option<TaskState>, now: DateTime) -> Option<TaskState> {
    match t {
        Some(t) => Some(
            TaskState {
                due: t.due,
                status: t.status,
                started_at: if t.status == "in_progress"@ && t.started_at is None {
                    Some(now)
                } else {
                    t.started_at
                },
                closed_at: if is_closing(t.status) && t.closed_at is None {
                    Some(now)
                } else {
                    t.closed_at
                },
            },
        ),
        None => None,
    }
}

/// Normalise an entry at `now`: fill in missing task start and close times
/// and, when `touch` is set, the write time.  Returns the entry to write and,
/// when its filename no longer matches the frontmatter, the path it moves
/// to (same directory, canonical name).
pub fn fix_entry(entry: Entry, touch: bool, now: DateTime) -> (res: (Entry, Option<String>))
    requires
        entry.frontmatter.id < ID_LIMIT,
    ensures
        res.0.path == entry.path,
        res.0.body == entry.body,
        res.0.frontmatter.id == entry.frontmatter.id,
        res.0.frontmatter.parent_id == entry.frontmatter.parent_id,
        res.0.frontmatter.title == entry.frontmatter.title,
        res.0.frontmatter.slug == entry.frontmatter.slug,
        res.0.frontmatter.tags == entry.frontmatter.tags,
        res.0.frontmatter.created_at == entry.frontmatter.created_at,
        res.0.frontmatter.updated_at == (if touch {
            now
        } else {
            entry.frontmatter.updated_at
        }),
        task_state(res.0.frontmatter.task) == synced_task(task_state(entry.frontmatter.task), now),
        res.0.frontmatter.event == entry.frontmatter.event,
        match res.1 {
            None => file_name_of(entry.path@) == filename_for(entry.frontmatter.id as int, slug_for(entry.frontmatter)),
            Some(p) => file_name_of(entry.path@) != filename_for(entry.frontmatter.id as int, slug_for(entry.frontmatter))
                && p@ == joined(parent_of(entry.path@), filename_for(entry.frontmatter.id as int, slug_for(entry.frontmatter))),
        },
{
    let Entry { path, frontmatter, body } = entry;
    let Frontmatter { id, parent_id, title, slug, created_at, updated_at, tags, task, event } = frontmatter;
    let task = match task {
        Some(t) => {
            let TaskMeta { due, status, started_at, closed_at } = t;
            let started_at = if str_eq(status.as_str(), "in_progress") && started_at.is_none() {
                Some(now)
            } else {
                started_at
            };
            let closed_at = if is_closing_exec(status.as_str()) && closed_at.is_none() {
                Some(now)
            } else {
                closed_at
            };
            Some(TaskMeta { due, status, started_at, closed_at })
        },
        None => None,
    };
    let updated_at = if touch {
        now
    } else {
        updated_at
    };
    let frontmatter = Frontmatter { id, parent_id, title, slug, created_at, updated_at, tags, task, event };
    let expected = entry_filename_from_frontmatter(frontmatter.id, &frontmatter);
    let actual = file_name(path.as_str());
    let target = if str_eq(actual.as_str(), expected.as_str()) {
        None
    } else {
        let dir = parent_dir(path.as_str());
        Some(join_path(dir.as_str(), expected.as_str()))
    };
    (Entry { path, frontmatter, body }, target)
}


/// After a fix, the entry sits under its canonical name: the last component
/// of the path it is moved to is the filename its frontmatter asks for.
/// (A frontmatter slug holding `/` is the exception: the name then reaches
/// into a subdirectory.)
pub proof fn lemma_fixed_name_is_canonical(path: Seq<char>, fm: Frontmatter)
    requires
        !crate::text::has_char(fm.slug@, '/'),
    ensures
        file_name_of(joined(parent_of(path), filename_for(fm.id as int, slug_for(fm)))) == filename_for(
            fm.id as int,
            slug_for(fm),
        ),
{
    let name = filename_for(fm.id as int, slug_for(fm));
    crate::journal::lemma_slug_no_slash(fm.title@);
    crate::journal::lemma_filename_no_slash(fm.id as int, slug_for(fm));
    let dir = parent_of(path);
    let full = joined(dir, name);
    if dir.len() == 0 {
        assert(full == name);
    } else {
        let k: int = if dir.last() == '/' {
            dir.len() - 1
        } else {
            dir.len() as int
        };
        if dir.last() == '/' {
            assert(full =~= dir + name);
        } else {
            assert(full =~= dir + "/"@ + name) by {
                reveal_strlit("/");
            }
            reveal_strlit("/");
        }
        assert(full[k] == '/');
        assert forall|j: int| k < j < full.len() implies full[j] != '/' by {
            if j >= dir.len() + (if dir.last() == '/' { 0int } else { 1int }) {
                let off = j - dir.len() - (if dir.last() == '/' { 0int } else { 1int });
                assert(full[j] == name[off]);
            }
        }
        assert(crate::text::has_char(full, '/'));
        let i = choose|i: int| 0 <= i < full.len() && full[i] == '/' && forall|j: int|
            i < j < full.len() ==> full[j] != '/';
        lemma_last_slash_unique(full, i, k);
        assert(full.skip(k + 1) =~= name);
    }
}


// ── new entry for the editor ─────────────────────────────────────────────────

/// The frontmatter template a new entry file starts with: its identifier,
/// its parent when given, an empty title, the creation and write time to
/// the minute, and the optional fields commented out.
pub open spec fn template_text(id: int, parent: Option<u64>, now: DateTime) -> Seq<char> {
    let stamp = crate::calendar::minute_text_of(now);
    "---\nid: '"@ + id_text(id) + "'\n"@ + (match parent {
        Some(p) => "parent_id: '"@ + id_text(p as int) + "'\n"@,
        None => seq![],
    }) + "title: ''\ncreated_at: "@ + stamp + "\nupdated_at: "@ + stamp
        + "\n# slug: ''\n# tags: [tag1, tag2]\n# task:\n#   status: open\n#   due: YYYY-MM-DD\n# event:\n#   start: YYYY-MM-DD\n#   end: YYYY-MM-DD\n---\n\n"@
}

/// The text of a new entry file for the editor.
pub fn new_entry_template(id: u64, parent_id: Option<u64>, now: DateTime) -> (res: String)
    requires
        id < ID_LIMIT,
        parent_id matches Some(p) ==> p < ID_LIMIT,
        now.valid(),
    ensures
        res@ == template_text(id as int, parent_id, now),
{
    let stamp = crate::calendar::minute_text(now);
    let head = concat(&concat("---\nid: '", caretta_text(id).as_str()), "'\n");
    let parent_line = match parent_id {
        Some(p) => concat(&concat("parent_id: '", caretta_text(p).as_str()), "'\n"),
        None => {
            proof {
                reveal_strlit("");
            }
            crate::text::owned("")
        },
    };
    let r = concat(
        &concat(
            &concat(
                &concat(&concat(&concat(head.as_str(), parent_line.as_str()), "title: ''\ncreated_at: "), stamp.as_str()),
                "\nupdated_at: ",
            ),
            stamp.as_str(),
        ),
        "\n# slug: ''\n# tags: [tag1, tag2]\n# task:\n#   status: open\n#   due: YYYY-MM-DD\n# event:\n#   start: YYYY-MM-DD\n#   end: YYYY-MM-DD\n---\n\n",
    );
    proof {
        assert(r@ =~= template_text(id as int, parent_id, now));
    }
    r
}

/// Where a new entry file for the editor goes: `{root}/{year}/{id}.md`.
pub fn new_entry_file(root: &str, year: i32, id: u64) -> (res: String)
    requires
        id < ID_LIMIT,
    ensures
        res@ == joined(joined(root@, crate::number::decimal_digits_signed(year as int)), id_text(id as int) + ".md"@),
{
    let dir = join_path(root, crate::number::signed_decimal_text(year).as_str());
    join_path(dir.as_str(), concat(caretta_text(id).as_str(), ".md").as_str())
}

/// Where a created entry goes: `{root}/{year}/{canonical filename}`.
pub fn new_entry_destination(root: &str, year: i32, fm: &Frontmatter) -> (res: String)
    requires
        fm.id < ID_LIMIT,
    ensures
        res@ == joined(joined(root@, crate::number::decimal_digits_signed(year as int)), filename_for(fm.id as int, slug_for(*fm))),
{
    let dir = join_path(root, crate::number::signed_decimal_text(year).as_str());
    join_path(dir.as_str(), entry_filename_from_frontmatter(fm.id, fm).as_str())
}

} // verus!
