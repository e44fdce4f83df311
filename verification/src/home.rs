//! The logic of the desktop home screen: labels, the entry editor's form,
//! the tree's drop rule, and the filtered, sorted entry list.

use vstd::prelude::*;

use crate::datetime::DateTime;
use crate::entry::{Entry, EntryHeader, EventMeta, TaskMeta, texts};
use crate::labels::EntryFlag;
use crate::period::{datetime_result, parse_datetime, parse_datetime_end, result_view};
use crate::ops::{EntryFilter, FieldSelector, MatchLabel, SortField, SortOrder, arranged, directed_order, is_started_by, period_end, due_of, event_start_of, event_end_of, stable_sort};
use crate::period::{Period, parse_period_at, period_reading};
use crate::text::{chars_of, concat, contains_chars, contains_seq, lowercase_of, owned, str_eq, to_lowercase, trim, trim_range, trim_ws};

verus! {

/// The label shown for a flag in the metadata sidebar.
pub open spec fn flag_caption(flag: EntryFlag) -> Seq<char> {
    match flag {
        EntryFlag::Overdue => "Overdue"@,
        EntryFlag::New => "New"@,
        EntryFlag::Updated => "Updated"@,
        EntryFlag::Event => "Event"@,
        EntryFlag::EventClosed => "Event closed"@,
        EntryFlag::Done => "Done"@,
        EntryFlag::Cancelled => "Cancelled"@,
        EntryFlag::InProgress => "In progress"@,
        EntryFlag::Archived => "Archived"@,
        EntryFlag::Open => "Open"@,
        EntryFlag::Note => "Note"@,
    }
}

/// The label of a flag.
pub fn flag_label(flag: EntryFlag) -> (res: &'static str)
    ensures
        res@ == flag_caption(flag),
{
    match flag {
        EntryFlag::Overdue => "Overdue",
        EntryFlag::New => "New",
        EntryFlag::Updated => "Updated",
        EntryFlag::Event => "Event",
        EntryFlag::EventClosed => "Event closed",
        EntryFlag::Done => "Done",
        EntryFlag::Cancelled => "Cancelled",
        EntryFlag::InProgress => "In progress",
        EntryFlag::Archived => "Archived",
        EntryFlag::Open => "Open",
        EntryFlag::Note => "Note",
    }
}

/// The label of a period choice; `All` for the empty choice and anything
/// unknown.
pub open spec fn period_caption(v: Seq<char>) -> Seq<char> {
    if v == "today"@ {
        "Today"@
    } else if v == "yesterday"@ {
        "Yesterday"@
    } else if v == "tomorrow"@ {
        "Tomorrow"@
    } else if v == "this_week"@ {
        "This week"@
    } else if v == "last_week"@ {
        "Last week"@
    } else if v == "next_week"@ {
        "Next week"@
    } else if v == "this_month"@ {
        "This month"@
    } else if v == "last_month"@ {
        "Last month"@
    } else if v == "next_month"@ {
        "Next month"@
    } else {
        "All"@
    }
}

/// The label of a period choice.
pub fn period_label(value: &str) -> (res: &'static str)
    ensures
        res@ == period_caption(value@),
{
    if str_eq(value, "today") {
        "Today"
    } else if str_eq(value, "yesterday") {
        "Yesterday"
    } else if str_eq(value, "tomorrow") {
        "Tomorrow"
    } else if str_eq(value, "this_week") {
        "This week"
    } else if str_eq(value, "last_week") {
        "Last week"
    } else if str_eq(value, "next_week") {
        "Next week"
    } else if str_eq(value, "this_month") {
        "This month"
    } else if str_eq(value, "last_month") {
        "Last month"
    } else if str_eq(value, "next_month") {
        "Next month"
    } else {
        "All"
    }
}

/// The label of a sort choice; `Updated` for anything unknown.
pub open spec fn sort_caption(v: Seq<char>) -> Seq<char> {
    if v == "created_at"@ {
        "Created"@
    } else if v == "title"@ {
        "Title"@
    } else if v == "id"@ {
        "ID"@
    } else if v == "task_due"@ {
        "Task due"@
    } else if v == "event_start"@ {
        "Event start"@
    } else {
        "Updated"@
    }
}

/// The label of a sort choice.
pub fn sort_label(value: &str) -> (res: &'static str)
    ensures
        res@ == sort_caption(value@),
{
    if str_eq(value, "created_at") {
        "Created"
    } else if str_eq(value, "title") {
        "Title"
    } else if str_eq(value, "id") {
        "ID"
    } else if str_eq(value, "task_due") {
        "Task due"
    } else if str_eq(value, "event_start") {
        "Event start"
    } else {
        "Updated"
    }
}

// ── tags typed as text ───────────────────────────────────────────────────────

/// The pieces of `s` between commas (`str::split(',')`): one more piece
/// than there are commas.
pub open spec fn split_commas(s: Seq<char>) -> Seq<Seq<char>>
    decreases s.len(),
{
    if s.len() == 0 {
        seq![seq![]]
    } else {
        let init = split_commas(s.drop_last());
        if s.last() == ',' {
            init.push(seq![])
        } else {
            init.update(init.len() - 1, init.last().push(s.last()))
        }
    }
}

/// The pieces trimmed, empty ones dropped.
pub open spec fn tag_texts(pieces: Seq<Seq<char>>) -> Seq<Seq<char>>
    decreases pieces.len(),
{
    if pieces.len() == 0 {
        seq![]
    } else {
        let prev = tag_texts(pieces.drop_last());
        let t = trim_ws(pieces.last());
        if t.len() > 0 {
            prev.push(t)
        } else {
            prev
        }
    }
}

/// The tags typed in a comma-separated text field.
pub open spec fn tags_typed(s: Seq<char>) -> Seq<Seq<char>> {
    tag_texts(split_commas(s))
}

proof fn lemma_split_commas_len(s: Seq<char>)
    ensures
        split_commas(s).len() >= 1,
    decreases s.len(),
{
    if s.len() > 0 {
        lemma_split_commas_len(s.drop_last());
    }
}

/// Split a comma-separated list of tags, trimming each and dropping empty
/// ones.
pub fn parse_tags(s: &str) -> (res: Vec<String>)
    ensures
        texts(res@) == tags_typed(s@),
{
    let v = chars_of(s);
    let mut tags: Vec<String> = Vec::new();
    let mut start: usize = 0;
    let mut i: usize = 0;
    proof {
        assert(v@.take(0) =~= Seq::<char>::empty());
    }
    while i < v.len()
        invariant
            v@ == s@,
            start <= i <= v@.len(),
            split_commas(v@.take(i as int)).last() == v@.subrange(start as int, i as int),
            split_commas(v@.take(i as int)).len() >= 1,
            texts(tags@) == tag_texts(split_commas(v@.take(i as int)).drop_last()),
        decreases v@.len() - i,
    {
        let ghost before = split_commas(v@.take(i as int));
        assert(v@.take(i + 1).drop_last() =~= v@.take(i as int));
        if v[i] == ',' {
            let t = trim_range(&v, start, i);
            let ghost tags_before = tags@;
            if !t.as_str().is_empty() {
                tags.push(t);
                assert(texts(tags@) =~= texts(tags_before).push(t@));
            }
            proof {
                let after = split_commas(v@.take(i + 1));
                assert(after == before.push(seq![]));
                assert(after.drop_last() =~= before);
                assert(before.drop_last().push(before.last()) =~= before);
                assert(tag_texts(before) == (if trim_ws(before.last()).len() > 0 {
                    tag_texts(before.drop_last()).push(trim_ws(before.last()))
                } else {
                    tag_texts(before.drop_last())
                }));
                assert(v@.subrange((i + 1) as int, (i + 1) as int) =~= Seq::<char>::empty());
            }
            start = i + 1;
        } else {
            proof {
                let after = split_commas(v@.take(i + 1));
                assert(after == before.update(before.len() - 1, before.last().push(v@[i as int])));
                assert(after.drop_last() =~= before.drop_last());
                assert(after.last() =~= v@.subrange(start as int, i + 1));
            }
        }
        i += 1;
    }
    let t = trim_range(&v, start, v.len());
    proof {
        assert(v@.take(v@.len() as int) =~= s@);
        let all = split_commas(s@);
        assert(all.drop_last().push(all.last()) =~= all);
    }
    let ghost tags_before = tags@;
    if !t.as_str().is_empty() {
        tags.push(t);
        assert(texts(tags@) =~= texts(tags_before).push(t@));
    }
    tags
}

/// The tags written back into the text field: joined by `, `.
pub open spec fn joined_tags(tags: Seq<Seq<char>>) -> Seq<char>
    decreases tags.len(),
{
    if tags.len() == 0 {
        seq![]
    } else if tags.len() == 1 {
        tags[0]
    } else {
        joined_tags(tags.drop_last()) + ", "@ + tags.last()
    }
}

/// Join tags with `, `.
pub fn join_tags(tags: &Vec<String>) -> (res: String)
    ensures
        res@ == joined_tags(texts(tags@)),
{
    let mut out = owned("");
    proof {
        reveal_strlit("");
    }
    let mut i: usize = 0;
    while i < tags.len()
        invariant
            i <= tags@.len(),
            out@ == joined_tags(texts(tags@.take(i as int))),
        decreases tags@.len() - i,
    {
        proof {
            assert(texts(tags@.take(i + 1)).drop_last() =~= texts(tags@.take(i as int)));
        }
        if i == 0 {
            out = tags[0].clone();
            assert(texts(tags@.take(1)) =~= seq![tags@[0]@]);
        } else {
            out = concat(&concat(out.as_str(), ", "), tags[i].as_str());
        }
        i += 1;
    }
    assert(tags@.take(i as int) =~= tags@);
    out
}


/// A tag that survives being written into the text field and read back:
/// not empty, no comma, no white space at either end.
pub open spec fn plain_tag(t: Seq<char>) -> bool {
    t.len() > 0 && !crate::text::has_char(t, ',') && trim_ws(t) == t
}

proof fn lemma_split_append(s: Seq<char>, u: Seq<char>)
    requires
        !crate::text::has_char(u, ','),
    ensures
        split_commas(s + u) == split_commas(s).update(
            split_commas(s).len() - 1,
            split_commas(s).last() + u,
        ),
    decreases u.len(),
{
    lemma_split_commas_len(s);
    if u.len() == 0 {
        assert(s + u =~= s);
        assert(split_commas(s).last() + u =~= split_commas(s).last());
        assert(split_commas(s).update(split_commas(s).len() - 1, split_commas(s).last()) =~= split_commas(s));
    } else {
        let w = u.drop_last();
        assert(!crate::text::has_char(w, ',')) by {
            if crate::text::has_char(w, ',') {
                let i = choose|i: int| 0 <= i < w.len() && w[i] == ',';
                assert(u[i] == ',');
            }
        }
        lemma_split_append(s, w);
        assert((s + u).drop_last() =~= s + w);
        assert((s + u).last() == u.last());
        assert(u.last() != ',') by {
            if u.last() == ',' {
                assert(u[u.len() - 1] == ',');
            }
        }
        let init = split_commas(s);
        assert((init.last() + w).push(u.last()) =~= init.last() + u);
        assert(split_commas(s + w).update(split_commas(s + w).len() - 1, split_commas(s + w).last().push(u.last()))
            =~= init.update(init.len() - 1, init.last() + u));
    }
}

proof fn lemma_trim_after_space(t: Seq<char>)
    requires
        trim_ws(t) == t,
    ensures
        trim_ws(seq![' '] + t) == t,
{
    let u = seq![' '] + t;
    assert(u.drop_first() =~= t);
    assert(crate::text::is_white_space(' '));
    assert(crate::text::trim_start_ws(u) == crate::text::trim_start_ws(t));
}

/// Tags written into the editor's text field (joined by `, `) read back as
/// the same tags, when each is plain: not empty, without a comma, and
/// without white space at either end.
pub proof fn lemma_tags_round_trip(tags: Seq<Seq<char>>)
    requires
        forall|i: int| 0 <= i < tags.len() ==> plain_tag(#[trigger] tags[i]),
    ensures
        tags_typed(joined_tags(tags)) == tags,
    decreases tags.len(),
{
    reveal_strlit(", ");
    assert(", "@ =~= seq![',', ' ']);
    if tags.len() == 0 {
        let e = Seq::<char>::empty();
        assert(joined_tags(tags) == e);
        let p = split_commas(e);
        assert(p =~= seq![e]);
        assert(p.drop_last() =~= Seq::<Seq<char>>::empty());
        assert(trim_ws(e) =~= e);
        assert(p.last() == e);
        assert(tag_texts(Seq::<Seq<char>>::empty()) =~= Seq::<Seq<char>>::empty());
        assert(tag_texts(p) =~= Seq::<Seq<char>>::empty());
        assert(tags =~= Seq::<Seq<char>>::empty());
    } else if tags.len() == 1 {
        let t = tags[0];
        assert(plain_tag(t));
        assert(joined_tags(tags) == t);
        lemma_split_append(seq![], t);
        assert(seq![] + t =~= t);
        assert(split_commas(Seq::<char>::empty()) =~= seq![Seq::<char>::empty()]);
        assert(Seq::<char>::empty() + t =~= t);
        assert(split_commas(t) =~= seq![t]);
        assert(split_commas(t).drop_last() =~= Seq::<Seq<char>>::empty());
        assert(tag_texts(split_commas(t)) == tag_texts(Seq::<Seq<char>>::empty()).push(t));
        assert(tags =~= seq![t]);
        assert(tag_texts(split_commas(t)) =~= tags);
    } else {
        let init = tags.drop_last();
        let t = tags.last();
        assert(plain_tag(t));
        assert forall|i: int| 0 <= i < init.len() implies plain_tag(#[trigger] init[i]) by {
            assert(init[i] == tags[i]);
        }
        lemma_tags_round_trip(init);
        let j = joined_tags(init);
        let u = seq![' '] + t;
        assert(!crate::text::has_char(u, ',')) by {
            if crate::text::has_char(u, ',') {
                let i = choose|i: int| 0 <= i < u.len() && u[i] == ',';
                assert(t[i - 1] == ',');
            }
        }
        assert(joined_tags(tags) =~= j.push(',') + u);
        lemma_split_commas_len(j);
        assert(j.push(',').drop_last() =~= j);
        let pieces = split_commas(j.push(','));
        assert(pieces == split_commas(j).push(seq![]));
        lemma_split_append(j.push(','), u);
        assert(seq![] + u =~= u);
        assert(pieces.update(pieces.len() - 1, pieces.last() + u) =~= split_commas(j).push(u));
        lemma_trim_after_space(t);
        assert(split_commas(j).push(u).drop_last() =~= split_commas(j));
        assert(tag_texts(split_commas(j).push(u)) == tag_texts(split_commas(j)).push(t));
        assert(init.push(t) =~= tags);
    }
}

// ── the entry editor ─────────────────────────────────────────────────────────

/// The fields of the entry editor, as typed.
#[derive(Clone, Debug)]
pub struct EditorState {
    pub id: String,
    pub title: String,
    /// Comma-separated tags.
    pub tags: String,
    pub body: String,
    pub has_task: bool,
    pub task_status: String,
    /// `YYYY-MM-DD`, or empty.
    pub task_due: String,
    pub has_event: bool,
    pub event_start: String,
    pub event_end: String,
}

/// The due time typed in the editor: none when blank, else the date-time it
/// reads as (a date alone meaning its last second).
pub open spec fn due_field(ed: EditorState) -> Result<Option<DateTime>, Seq<char>> {
    let t = trim_ws(ed.task_due@);
    if t.len() == 0 {
        Ok(None)
    } else {
        match datetime_result(t, true) {
            Ok(d) => Ok(Some(d)),
            Err(e) => Err("task.due: "@ + e),
        }
    }
}

/// The event typed in the editor: none unless the event box is ticked; a
/// missing start or end is taken from the other; both missing is an error.
pub open spec fn event_field(ed: EditorState) -> Result<Option<EventMeta>, Seq<char>> {
    if !ed.has_event {
        Ok(None)
    } else {
        let s = trim_ws(ed.event_start@);
        let e = trim_ws(ed.event_end@);
        if s.len() == 0 && e.len() == 0 {
            Err("event requires a start or end date"@)
        } else {
            let from = if s.len() == 0 {
                e
            } else {
                s
            };
            let to = if e.len() == 0 {
                s
            } else {
                e
            };
            match datetime_result(from, false) {
                Err(m) => Err("event.start: "@ + m),
                Ok(a) => match datetime_result(to, true) {
                    Err(m) => Err("event.end: "@ + m),
                    Ok(b) => Ok(Some(EventMeta { start: a, end: b })),
                },
            }
        }
    }
}

/// The status typed in the editor, `open` when blank.
pub open spec fn status_field(ed: EditorState) -> Seq<char> {
    if ed.task_status@.len() == 0 {
        "open"@
    } else {
        ed.task_status@
    }
}

pub open spec fn started_of(t: Option<TaskMeta>) -> Option<DateTime> {
    match t {
        Some(o) => o.started_at,
        None => None,
    }
}

pub open spec fn closed_of(t: Option<TaskMeta>) -> Option<DateTime> {
    match t {
        Some(o) => o.closed_at,
        None => None,
    }
}

/// Write the editor's fields into `entry`: title, tags, body, the task
/// (keeping its start and close times) and the event.  A due time or event
/// that does not read gives the message shown to the user.
pub fn apply_editor(entry: Entry, ed: &EditorState) -> (res: Result<Entry, String>)
    ensures
        match res {
            Ok(e) => {
                &&& (ed.has_task ==> due_field(*ed) is Ok)
                &&& event_field(*ed) is Ok
                &&& e.path == entry.path
                &&& e.frontmatter.id == entry.frontmatter.id
                &&& e.frontmatter.parent_id == entry.frontmatter.parent_id
                &&& e.frontmatter.slug == entry.frontmatter.slug
                &&& e.frontmatter.created_at == entry.frontmatter.created_at
                &&& e.frontmatter.updated_at == entry.frontmatter.updated_at
                &&& e.frontmatter.title@ == ed.title@
                &&& texts(e.frontmatter.tags@) == tags_typed(ed.tags@)
                &&& e.body@ == ed.body@
                &&& (ed.has_task ==> (e.frontmatter.task matches Some(t) && t.due == due_field(*ed)->Ok_0
                    && t.status@ == status_field(*ed) && t.started_at == started_of(entry.frontmatter.task)
                    && t.closed_at == closed_of(entry.frontmatter.task)))
                &&& (!ed.has_task ==> e.frontmatter.task is None)
                &&& e.frontmatter.event == event_field(*ed)->Ok_0
            },
            Err(m) => (ed.has_task && due_field(*ed) == Err::<Option<DateTime>, Seq<char>>(m@)) || ((
            !ed.has_task || due_field(*ed) is Ok) && event_field(*ed) == Err::<Option<EventMeta>, Seq<char>>(
                m@,
            )),
        },
{
    let Entry { path, frontmatter, body: _ } = entry;
    let mut fm = frontmatter;
    fm.title = ed.title.clone();
    fm.tags = parse_tags(ed.tags.as_str());
    let body = ed.body.clone();
    if ed.has_task {
        let due_text = trim(ed.task_due.as_str());
        let due = if due_text.as_str().is_empty() {
            None
        } else {
            match parse_datetime_end(due_text.as_str()) {
                Ok(d) => Some(d),
                Err(e) => {
                    return Err(concat("task.due: ", e.as_str()));
                },
            }
        };
        let status = if ed.task_status.as_str().is_empty() {
            owned("open")
        } else {
            ed.task_status.clone()
        };
        let (started_at, closed_at) = match &fm.task {
            Some(t) => (t.started_at, t.closed_at),
            None => (None, None),
        };
        fm.task = Some(TaskMeta { due, status, started_at, closed_at });
    } else {
        fm.task = None;
    }
    if ed.has_event {
        let s = trim(ed.event_start.as_str());
        let e = trim(ed.event_end.as_str());
        if s.as_str().is_empty() && e.as_str().is_empty() {
            return Err(owned("event requires a start or end date"));
        }
        let from = if s.as_str().is_empty() {
            e.clone()
        } else {
            s.clone()
        };
        let to = if e.as_str().is_empty() {
            s
        } else {
            e
        };
        let start = match parse_datetime(from.as_str()) {
            Ok(d) => d,
            Err(m) => {
                return Err(concat("event.start: ", m.as_str()));
            },
        };
        let end = match parse_datetime_end(to.as_str()) {
            Ok(d) => d,
            Err(m) => {
                return Err(concat("event.end: ", m.as_str()));
            },
        };
        fm.event = Some(EventMeta { start, end });
    } else {
        fm.event = None;
    }
    Ok(Entry { path, frontmatter: fm, body })
}

/// The date of an optional time as `YYYY-MM-DD`, empty when absent.
pub open spec fn date_field(t: Option<DateTime>) -> Seq<char> {
    match t {
        Some(d) => crate::calendar::date_text_of(d.date),
        None => seq![],
    }
}

fn date_field_text(t: Option<DateTime>) -> (res: String)
    requires
        t matches Some(d) ==> d.valid(),
    ensures
        res@ == date_field(t),
{
    match t {
        Some(d) => crate::calendar::date_text(d.date),
        None => {
            proof {
                reveal_strlit("");
            }
            owned("")
        },
    }
}

/// The editor's fields for an entry.
pub fn load_editor(entry: &Entry) -> (res: EditorState)
    requires
        entry.frontmatter.id < crate::id::ID_LIMIT,
        entry.frontmatter.task matches Some(t) ==> (t.due matches Some(d) ==> d.valid()),
        entry.frontmatter.event matches Some(e) ==> e.start.valid() && e.end.valid(),
    ensures
        res.id@ == crate::id::id_text(entry.frontmatter.id as int),
        res.title@ == entry.frontmatter.title@,
        res.tags@ == joined_tags(texts(entry.frontmatter.tags@)),
        res.body@ == entry.body@,
        res.has_task == entry.frontmatter.task is Some,
        res.task_status@ == match entry.frontmatter.task {
            Some(t) => t.status@,
            None => "open"@,
        },
        res.task_due@ == match entry.frontmatter.task {
            Some(t) => date_field(t.due),
            None => seq![],
        },
        res.has_event == entry.frontmatter.event is Some,
        res.event_start@ == match entry.frontmatter.event {
            Some(e) => date_field(Some(e.start)),
            None => seq![],
        },
        res.event_end@ == match entry.frontmatter.event {
            Some(e) => date_field(Some(e.end)),
            None => seq![],
        },
{
    let fm = &entry.frontmatter;
    proof {
        reveal_strlit("");
    }
    EditorState {
        id: crate::id::id_to_text(fm.id),
        title: fm.title.clone(),
        tags: join_tags(&fm.tags),
        body: entry.body.clone(),
        has_task: fm.task.is_some(),
        task_status: match &fm.task {
            Some(t) => t.status.clone(),
            None => owned("open"),
        },
        task_due: match &fm.task {
            Some(t) => date_field_text(t.due),
            None => owned(""),
        },
        has_event: fm.event.is_some(),
        event_start: match &fm.event {
            Some(e) => date_field_text(Some(e.start)),
            None => owned(""),
        },
        event_end: match &fm.event {
            Some(e) => date_field_text(Some(e.end)),
            None => owned(""),
        },
    }
}


// ── the tree's drop rule ─────────────────────────────────────────────────────

/// Position of the first entry with identifier `id`.
pub open spec fn find_id(es: Seq<EntryHeader>, id: u64, n: int) -> Option<int>
    decreases n,
{
    if n <= 0 {
        None
    } else {
        match find_id(es, id, n - 1) {
            Some(k) => Some(k),
            None => if es[n - 1].frontmatter.id == id {
                Some(n - 1)
            } else {
                None
            },
        }
    }
}

/// Following `parent_id` links up from the entry `cur` reaches `ancestor`
/// within `steps` links.
pub open spec fn climbs_to(es: Seq<EntryHeader>, cur: u64, ancestor: u64, steps: nat) -> bool
    decreases steps,
{
    if steps == 0 {
        false
    } else {
        match find_id(es, cur, es.len() as int) {
            None => false,
            Some(k) => match es[k].frontmatter.parent_id {
                None => false,
                Some(p) => p == ancestor || climbs_to(es, p, ancestor, (steps - 1) as nat),
            },
        }
    }
}

fn find_id_exec(es: &Vec<EntryHeader>, id: u64) -> (res: Option<usize>)
    ensures
        match res {
            Some(k) => find_id(es@, id, es@.len() as int) == Some(k as int) && k < es@.len(),
            None => find_id(es@, id, es@.len() as int) is None,
        },
{
    let mut i: usize = 0;
    while i < es.len()
        invariant
            i <= es@.len(),
            find_id(es@, id, i as int) is None,
        decreases es@.len() - i,
    {
        if es[i].frontmatter.id == id {
            proof {
                lemma_find_id_stays(es@, id, i + 1, es@.len() as int);
            }
            return Some(i);
        }
        i += 1;
    }
    None
}

proof fn lemma_find_id_stays(es: Seq<EntryHeader>, id: u64, m: int, n: int)
    requires
        0 < m <= n <= es.len(),
        find_id(es, id, m) is Some,
    ensures
        find_id(es, id, n) == find_id(es, id, m),
    decreases n - m,
{
    if n > m {
        lemma_find_id_stays(es, id, m, n - 1);
    }
}

/// The identifier reached from `cur` after `t` parent links, each looked up
/// as the first entry with that identifier.
pub open spec fn walk(es: Seq<EntryHeader>, cur: u64, t: nat) -> Option<u64>
    decreases t,
{
    if t == 0 {
        Some(cur)
    } else {
        match walk(es, cur, (t - 1) as nat) {
            Some(x) => match find_id(es, x, es.len() as int) {
                Some(k) => es[k].frontmatter.parent_id,
                None => None,
            },
            None => None,
        }
    }
}

proof fn lemma_find_id_found(es: Seq<EntryHeader>, id: u64, n: int)
    requires
        n <= es.len(),
    ensures
        find_id(es, id, n) matches Some(k) ==> 0 <= k < n && es[k].frontmatter.id == id,
    decreases n,
{
    if n > 0 {
        lemma_find_id_found(es, id, n - 1);
    }
}

/// One link, then `t` more, is `t + 1` links.
proof fn lemma_walk_first(es: Seq<EntryHeader>, cur: u64, t: nat)
    ensures
        walk(es, cur, t + 1) == match find_id(es, cur, es.len() as int) {
            Some(k) => match es[k].frontmatter.parent_id {
                Some(p) => walk(es, p, t),
                None => None,
            },
            None => None,
        },
    decreases t,
{
    if t > 0 {
        lemma_walk_first(es, cur, (t - 1) as nat);
        assert(walk(es, cur, t + 1) == match walk(es, cur, t) {
            Some(x) => match find_id(es, x, es.len() as int) {
                Some(k) => es[k].frontmatter.parent_id,
                None => None,
            },
            None => None,
        });
        match find_id(es, cur, es.len() as int) {
            Some(k) => match es[k].frontmatter.parent_id {
                Some(p) => {
                    assert(walk(es, cur, t) == walk(es, p, (t - 1) as nat));
                    assert(walk(es, p, t) == match walk(es, p, (t - 1) as nat) {
                        Some(x) => match find_id(es, x, es.len() as int) {
                            Some(k) => es[k].frontmatter.parent_id,
                            None => None,
                        },
                        None => None,
                    });
                },
                None => {},
            },
            None => {},
        }
    }
}

/// Walking `i` links, then `r` more, is walking `i + r` links.
proof fn lemma_walk_add(es: Seq<EntryHeader>, cur: u64, i: nat, r: nat)
    requires
        walk(es, cur, i) is Some,
    ensures
        walk(es, cur, i + r) == walk(es, walk(es, cur, i)->0, r),
    decreases r,
{
    if r > 0 {
        lemma_walk_add(es, cur, i, (r - 1) as nat);
        assert((i + r - 1) as nat + 1 == i + r);
    }
}

/// Climbing within `n` links is reaching `ancestor` after some number of
/// links between 1 and `n`.
proof fn lemma_climbs_walk(es: Seq<EntryHeader>, cur: u64, ancestor: u64, n: nat)
    ensures
        climbs_to(es, cur, ancestor, n) <==> exists|t: nat| 1 <= t <= n && #[trigger] walk(es, cur, t) == Some(ancestor),
    decreases n,
{
    if n > 0 {
        lemma_walk_first(es, cur, 0);
        match find_id(es, cur, es.len() as int) {
            Some(k) => match es[k].frontmatter.parent_id {
                Some(p) => {
                    lemma_climbs_walk(es, p, ancestor, (n - 1) as nat);
                    if climbs_to(es, cur, ancestor, n) {
                        if p == ancestor {
                            assert(walk(es, cur, 1) == Some(ancestor));
                        } else {
                            let t = choose|t: nat| 1 <= t <= n - 1 && #[trigger] walk(es, p, t) == Some(ancestor);
                            lemma_walk_first(es, cur, t);
                            assert(walk(es, cur, t + 1) == Some(ancestor));
                        }
                    }
                    if exists|t: nat| 1 <= t <= n && #[trigger] walk(es, cur, t) == Some(ancestor) {
                        let t = choose|t: nat| 1 <= t <= n && #[trigger] walk(es, cur, t) == Some(ancestor);
                        lemma_walk_first(es, cur, (t - 1) as nat);
                        if t == 1 {
                            assert(walk(es, p, 0) == Some(p));
                        } else {
                            assert(walk(es, p, (t - 1) as nat) == Some(ancestor));
                        }
                    }
                },
                None => {
                    assert forall|t: nat| 1 <= t <= n implies #[trigger] walk(es, cur, t) != Some(ancestor) by {
                        lemma_walk_first(es, cur, (t - 1) as nat);
                    }
                },
            },
            None => {
                assert forall|t: nat| 1 <= t <= n implies #[trigger] walk(es, cur, t) != Some(ancestor) by {
                    lemma_walk_first(es, cur, (t - 1) as nat);
                }
            },
        }
    } else {
        assert forall|t: nat| 1 <= t <= n implies #[trigger] walk(es, cur, t) != Some(ancestor) by {}
    }
}

/// A link walked from an identifier means the identifier was found.
proof fn lemma_walk_found(es: Seq<EntryHeader>, cur: u64, s: nat)
    requires
        walk(es, cur, s + 1) is Some,
    ensures
        walk(es, cur, s) is Some,
        find_id(es, walk(es, cur, s)->0, es.len() as int) is Some,
{
}

/// A walk that reaches `ancestor` after more links than there are entries
/// passes some identifier twice, and the loop between the two visits can be
/// cut out: it reaches `ancestor` after fewer links.
proof fn lemma_walk_shorter(es: Seq<EntryHeader>, cur: u64, ancestor: u64, t: nat)
    requires
        t > es.len(),
        walk(es, cur, t) == Some(ancestor),
    ensures
        exists|u: nat| 1 <= u < t && #[trigger] walk(es, cur, u) == Some(ancestor),
{
    assert forall|s: nat| s < t implies #[trigger] walk(es, cur, s) is Some && find_id(
        es,
        walk(es, cur, s)->0,
        es.len() as int,
    ) is Some by {
        lemma_walk_add(es, cur, 0, s);
        assert forall|q: nat| s < q <= t implies walk(es, cur, q) is Some by {
            lemma_walk_some_before(es, cur, q, t);
        }
        lemma_walk_found(es, cur, s);
    }
    let ks = Seq::new(t, |s: int| find_id(es, walk(es, cur, s as nat)->0, es.len() as int)->0);
    assert forall|s: int| 0 <= s < ks.len() implies 0 <= #[trigger] ks[s] < es.len() by {
        lemma_find_id_found(es, walk(es, cur, s as nat)->0, es.len() as int);
    }
    if ks.no_duplicates() {
        let range = vstd::set_lib::set_int_range(0, es.len() as int);
        vstd::set_lib::lemma_int_range(0, es.len() as int);
        ks.unique_seq_to_set();
        assert(ks.to_set().subset_of(range)) by {
            assert forall|x: int| ks.to_set().contains(x) implies range.contains(x) by {
                let s = choose|s: int| 0 <= s < ks.len() && ks[s] == x;
                assert(0 <= ks[s] < es.len());
            }
        }
        vstd::set_lib::lemma_len_subset(ks.to_set(), range);
        assert(false);
    } else {
        let (i, j) = choose|i: int, j: int| 0 <= i < ks.len() && 0 <= j < ks.len() && i != j && ks[i] == ks[j];
        let (a, b) = if i < j { (i, j) } else { (j, i) };
        assert(0 <= a < b < t);
        assert(ks[a] == ks[b]);
        lemma_find_id_found(es, walk(es, cur, a as nat)->0, es.len() as int);
        lemma_find_id_found(es, walk(es, cur, b as nat)->0, es.len() as int);
        assert(walk(es, cur, a as nat) == walk(es, cur, b as nat));
        let r = (t - b) as nat;
        lemma_walk_add(es, cur, a as nat, r);
        lemma_walk_add(es, cur, b as nat, r);
        assert((b as nat + r) as nat == t);
        let u = (a + r) as nat;
        assert(walk(es, cur, u) == Some(ancestor));
        assert(1 <= u < t);
    }
}

/// A walk defined after `t` links is defined after fewer.
proof fn lemma_walk_some_before(es: Seq<EntryHeader>, cur: u64, q: nat, t: nat)
    requires
        q <= t,
        walk(es, cur, t) is Some,
    ensures
        walk(es, cur, q) is Some,
    decreases t - q,
{
    if q < t {
        lemma_walk_some_before(es, cur, (q + 1) as nat, t);
    }
}

/// Reaching `ancestor` at all means reaching it within as many links as
/// there are entries.
proof fn lemma_walk_bounded(es: Seq<EntryHeader>, cur: u64, ancestor: u64, t: nat)
    requires
        t >= 1,
        walk(es, cur, t) == Some(ancestor),
    ensures
        exists|u: nat| 1 <= u <= es.len() && #[trigger] walk(es, cur, u) == Some(ancestor),
    decreases t,
{
    if t > es.len() {
        lemma_walk_shorter(es, cur, ancestor, t);
        let u = choose|u: nat| 1 <= u < t && #[trigger] walk(es, cur, u) == Some(ancestor);
        lemma_walk_bounded(es, cur, ancestor, u);
    }
}

/// Climbing within some number of links is climbing within as many links as
/// there are entries, plus one.
pub proof fn lemma_climbs_bounded(es: Seq<EntryHeader>, cur: u64, ancestor: u64, n: nat)
    requires
        climbs_to(es, cur, ancestor, n),
    ensures
        climbs_to(es, cur, ancestor, (es.len() + 1) as nat),
{
    lemma_climbs_walk(es, cur, ancestor, n);
    let t = choose|t: nat| 1 <= t <= n && #[trigger] walk(es, cur, t) == Some(ancestor);
    lemma_walk_bounded(es, cur, ancestor, t);
    let u = choose|u: nat| 1 <= u <= es.len() && #[trigger] walk(es, cur, u) == Some(ancestor);
    lemma_climbs_walk(es, cur, ancestor, (es.len() + 1) as nat);
    assert(1 <= u <= es.len() + 1);
}

/// `candidate` is `ancestor` itself or lies below it: its chain of parents
/// (each looked up as the first entry with that identifier) reaches
/// `ancestor`.  A chain that runs into a loop does not.  Used to refuse
/// dropping an entry into its own subtree.
pub fn is_descendant_or_self(entries: &Vec<EntryHeader>, ancestor: u64, candidate: u64) -> (res: bool)
    ensures
        res == (candidate == ancestor || exists|n: nat| climbs_to(entries@, candidate, ancestor, n)),
{
    let r = descends_within(entries, ancestor, candidate);
    proof {
        if exists|n: nat| climbs_to(entries@, candidate, ancestor, n) {
            let n = choose|n: nat| climbs_to(entries@, candidate, ancestor, n);
            lemma_climbs_bounded(entries@, candidate, ancestor, n);
        }
        if candidate != ancestor && r {
            assert(climbs_to(entries@, candidate, ancestor, (entries@.len() + 1) as nat));
        }
    }
    r
}

/// What dropping the entry `source` does in the tree: onto the entry `target`,
/// or onto the root zone when `target` is none.
pub open spec fn reparent_spec(es: Seq<EntryHeader>, source: u64, target: Option<u64>) -> Option<(Seq<char>, Option<u64>)> {
    match find_id(es, source, es.len() as int) {
        None => None,
        Some(k) => match target {
            Some(t) => if source == t || (exists|n: nat| climbs_to(es, t, source, n)) || es[k].frontmatter.parent_id == Some(t) {
                None
            } else {
                Some((es[k].path@, Some(t)))
            },
            None => if es[k].frontmatter.parent_id is Some {
                Some((es[k].path@, None))
            } else {
                None
            },
        },
    }
}

/// The move a drop in the tree asks for: the path of the dragged entry
/// `source` (the first with that identifier) and its new parent.  Dropped
/// onto the entry `target`, it becomes that entry's child, unless `target`
/// is `source` itself or lies below it, or already is its parent.  Dropped
/// onto the root zone (`target` none), it loses its parent, if it has one.
/// Nothing moves for an unknown `source`.
pub fn reparent_action(entries: &Vec<EntryHeader>, source: u64, target: Option<u64>) -> (res: Option<(String, Option<u64>)>)
    ensures
        match res {
            Some((p, t)) => reparent_spec(entries@, source, target) == Some((p@, t)),
            None => reparent_spec(entries@, source, target) is None,
        },
{
    let k = match find_id_exec(entries, source) {
        Some(k) => k,
        None => return None,
    };
    let h = &entries[k];
    match target {
        Some(t) => {
            if is_descendant_or_self(entries, source, t) {
                return None;
            }
            if h.frontmatter.parent_id == Some(t) {
                None
            } else {
                Some((h.path.clone(), Some(t)))
            }
        },
        None => {
            if h.frontmatter.parent_id.is_some() {
                Some((h.path.clone(), None))
            } else {
                None
            }
        },
    }
}

fn descends_within(entries: &Vec<EntryHeader>, ancestor: u64, candidate: u64) -> (res: bool)
    ensures
        res == (candidate == ancestor || climbs_to(entries@, candidate, ancestor, (entries@.len() + 1) as nat)),
{
    if candidate == ancestor {
        return true;
    }
    let mut current = candidate;
    let mut steps: usize = entries.len();
    let total = entries.len();
    assert(total + 1 <= usize::MAX + 1);
    loop
        invariant
            steps <= total,
            total == entries@.len(),
            candidate != ancestor,
            climbs_to(entries@, candidate, ancestor, (total + 1) as nat) == climbs_to(
                entries@,
                current,
                ancestor,
                (steps + 1) as nat,
            ),
        decreases steps,
    {
        let k = match find_id_exec(entries, current) {
            Some(k) => k,
            None => {
                return false;
            },
        };
        match entries[k].frontmatter.parent_id {
            None => {
                return false;
            },
            Some(p) => {
                if p == ancestor {
                    return true;
                }
                if steps == 0 {
                    proof {
                        assert(climbs_to(entries@, p, ancestor, 0) == false);
                    }
                    return false;
                }
                current = p;
                steps -= 1;
            },
        }
    }
}


// ── the entry list ───────────────────────────────────────────────────────────

/// An entry shows in a period view when the period holds its due time,
/// overlaps its event, or holds its creation or last write, or when it is an
/// overdue task or a task started by the period's end.
pub open spec fn in_period_view(p: Period, fm: crate::entry::Frontmatter, now: DateTime) -> bool {
    ||| p.admits(due_of(fm))
    ||| p.overlaps(event_start_of(fm), event_end_of(fm))
    ||| p.admits(Some(fm.created_at))
    ||| p.admits(Some(fm.updated_at))
    ||| crate::labels::is_overdue_at(fm.task, now)
    ||| is_started_by(fm.task, period_end(Some(p)))
}

/// The period a view text selects, when it reads as one.
pub open spec fn view_period(text: Seq<char>, now: DateTime) -> Option<Period> {
    let t = trim_ws(text);
    if t.len() > 0 {
        match period_reading(t, now.date) {
            Some(Ok(p)) => Some(p),
            _ => None,
        }
    } else {
        None
    }
}

/// The entries (of the first `n`) a period view keeps, in order.
pub open spec fn period_kept(es: Seq<EntryHeader>, p: Option<Period>, now: DateTime, n: int) -> Seq<EntryHeader>
    decreases n,
{
    if n <= 0 {
        seq![]
    } else {
        let prev = period_kept(es, p, now, n - 1);
        match p {
            Some(q) => if in_period_view(q, es[n - 1].frontmatter, now) {
                prev.push(es[n - 1])
            } else {
                prev
            },
            None => prev.push(es[n - 1]),
        }
    }
}

/// An entry matches a search text when its title, its identifier or one of
/// its tags contains it, all lowercased.
pub open spec fn matches_needle(h: EntryHeader, needle: Seq<char>) -> bool {
    ||| contains_seq(lowercase_of(h.frontmatter.title@), needle)
    ||| contains_seq(lowercase_of(crate::id::id_text(h.frontmatter.id as int)), needle)
    ||| exists|i: int| 0 <= i < h.frontmatter.tags@.len() && contains_seq(lowercase_of(#[trigger] h.frontmatter.tags@[i]@), needle)
}

/// The entries (of the first `n`) a search keeps, in order; all of them for
/// an empty search.
pub open spec fn needle_kept(es: Seq<EntryHeader>, needle: Seq<char>, n: int) -> Seq<EntryHeader>
    decreases n,
{
    if n <= 0 {
        seq![]
    } else {
        let prev = needle_kept(es, needle, n - 1);
        if needle.len() == 0 || matches_needle(es[n - 1], needle) {
            prev.push(es[n - 1])
        } else {
            prev
        }
    }
}

/// The sort field a view's sort choice names, if any.
pub open spec fn view_sort_field(s: Seq<char>) -> Option<SortField> {
    if s == "title"@ {
        Some(SortField::Title)
    } else if s == "id"@ {
        Some(SortField::Id)
    } else if s == "created_at"@ {
        Some(SortField::CreatedAt)
    } else if s == "updated_at"@ {
        Some(SortField::UpdatedAt)
    } else if s == "task_due"@ {
        Some(SortField::TaskDue)
    } else if s == "event_start"@ {
        Some(SortField::EventStart)
    } else {
        None
    }
}

fn view_sort_field_exec(s: &str) -> (res: Option<SortField>)
    ensures
        res == view_sort_field(s@),
{
    if str_eq(s, "title") {
        Some(SortField::Title)
    } else if str_eq(s, "id") {
        Some(SortField::Id)
    } else if str_eq(s, "created_at") {
        Some(SortField::CreatedAt)
    } else if str_eq(s, "updated_at") {
        Some(SortField::UpdatedAt)
    } else if str_eq(s, "task_due") {
        Some(SortField::TaskDue)
    } else if str_eq(s, "event_start") {
        Some(SortField::EventStart)
    } else {
        None
    }
}

fn needle_hit(h: &EntryHeader, needle: &Vec<char>) -> (res: bool)
    requires
        h.frontmatter.id < crate::id::ID_LIMIT,
    ensures
        res == matches_needle(*h, needle@),
{
    let title = to_lowercase(h.title());
    if contains_chars(&chars_of(title.as_str()), needle) {
        return true;
    }
    let id = to_lowercase(crate::id::id_to_text(h.frontmatter.id).as_str());
    if contains_chars(&chars_of(id.as_str()), needle) {
        return true;
    }
    let tags = &h.frontmatter.tags;
    let mut i: usize = 0;
    while i < tags.len()
        invariant
            i <= tags@.len(),
            tags@ == h.frontmatter.tags@,
            forall|j: int| 0 <= j < i ==> !contains_seq(lowercase_of(#[trigger] tags@[j]@), needle@),
        decreases tags@.len() - i,
    {
        let t = to_lowercase(tags[i].as_str());
        if contains_chars(&chars_of(t.as_str()), needle) {
            return true;
        }
        i += 1;
    }
    false
}

/// `res` is the home screen's list for these entries and choices at `now`:
/// the entries the period text selects (all of them when it is blank or
/// does not read as a period), then those matching the search text, sorted
/// stably by the chosen field (input order for an unknown one), reversed for
/// `desc`.
pub open spec fn home_list(
    res: Seq<EntryHeader>,
    entries: Seq<EntryHeader>,
    period: Seq<char>,
    filter_text: Seq<char>,
    sort_by: Seq<char>,
    sort_order: Seq<char>,
    now: DateTime,
) -> bool {
            let kept = needle_kept(
                period_kept(entries, view_period(period, now), now, entries.len() as int),
                lowercase_of(trim_ws(filter_text)),
                period_kept(entries, view_period(period, now), now, entries.len() as int).len() as int,
            );
            &&& res.len() == kept.len()
            &&& match view_sort_field(sort_by) {
                None => if sort_order == "desc"@ {
                    res == kept.reverse()
                } else {
                    res == kept
                },
                Some(field) => exists|sorted: Seq<EntryHeader>, perm: Seq<int>|
                    (if sort_order == "desc"@ {
                        res == sorted.reverse()
                    } else {
                        res == sorted
                    }) && sorted.len() == kept.len() && crate::ops::is_permutation(perm, kept.len() as int)
                        && (forall|i: int| 0 <= i < sorted.len() ==> #[trigger] sorted[i] == kept[perm[i]])
                        && (forall|i: int, j: int|
                        0 <= i < j < sorted.len() ==> directed_order(
                            (#[trigger] sorted[i]).frontmatter,
                            (#[trigger] sorted[j]).frontmatter,
                            field,
                            SortOrder::Asc,
                        ) <= 0),
            }
}

/// The entry list of the home screen at `now`: the entries the period text
/// selects (all of them when it is blank or does not read as a period),
/// then those matching the search text, sorted stably by the chosen field
/// (input order for an unknown one), reversed for `desc`.
#[verifier::spinoff_prover]
#[verifier::rlimit(40)]
pub fn filter_and_sort_at(
    entries: Vec<EntryHeader>,
    period: &str,
    filter_text: &str,
    sort_by: &str,
    sort_order: &str,
    now: DateTime,
) -> (res: Vec<EntryHeader>)
    requires
        now.valid(),
        forall|i: int| 0 <= i < entries@.len() ==> (#[trigger] entries@[i]).frontmatter.id < crate::id::ID_LIMIT,
    ensures
        home_list(res@, entries@, period@, filter_text@, sort_by@, sort_order@, now),
{
    let ghost src = entries@;
    let n0 = entries.len();
    // The period filter.
    let ptext = trim(period);
    let chosen: Option<Period> = if !ptext.as_str().is_empty() {
        match parse_period_at(ptext.as_str(), now.date) {
            Some(Ok(p)) => Some(p),
            _ => None,
        }
    } else {
        None
    };
    assert(chosen == view_period(period@, now));
    let mut rest = entries;
    let mut kept: Vec<EntryHeader> = Vec::new();
    let mut i: usize = 0;
    assert(src.skip(0) =~= src);
    while rest.len() > 0
        invariant
            i + rest@.len() == src.len(),
            src.len() == n0,
            rest@ == src.skip(i as int),
            now.valid(),
            kept@ == period_kept(src, chosen, now, i as int),
            forall|k: int| 0 <= k < kept@.len() ==> (#[trigger] kept@[k]).frontmatter.id < crate::id::ID_LIMIT,
            forall|k: int| 0 <= k < src.len() ==> (#[trigger] src[k]).frontmatter.id < crate::id::ID_LIMIT,
        decreases rest@.len(),
    {
        let h = rest.remove(0);
        assert(h == src[i as int]);
        assert(rest@ =~= src.skip(i + 1));
        let keep = match chosen {
            Some(p) => {
                let filter = EntryFilter {
                    period: Some(p),
                    fields: FieldSelector { task_due: true, event_span: true, created_at: true, updated_at: true },
                    task_status: Vec::new(),
                    tags: Vec::new(),
                    overdue: true,
                    task_started: true,
                    sort_by: None,
                    sort_order: SortOrder::Asc,
                };
                let (ok, _labels) = filter.matches_at(&h, now);
                proof {
                    let fm = h.frontmatter;
                    let ls = filter.timestamp_labels(fm, now);
                    assert(ok == (ls.len() > 0)) by {
                        assert(filter.tags_admit(fm));
                        assert(filter.status_admits(fm));
                    }
                    assert((ls.len() > 0) == in_period_view(p, fm, now));
                }
                ok
            },
            None => true,
        };
        if keep {
            kept.push(h);
        }
        i += 1;
    }
    assert(src.take(i as int) =~= src);
    // The search.
    let needle_s = to_lowercase(trim(filter_text).as_str());
    let needle = chars_of(needle_s.as_str());
    let ghost mid = kept@;
    let n1 = kept.len();
    let mut rest2 = kept;
    let mut found: Vec<EntryHeader> = Vec::new();
    let mut j: usize = 0;
    assert(mid.skip(0) =~= mid);
    while rest2.len() > 0
        invariant
            j + rest2@.len() == mid.len(),
            mid.len() == n1,
            rest2@ == mid.skip(j as int),
            needle@ == lowercase_of(trim_ws(filter_text@)),
            found@ == needle_kept(mid, needle@, j as int),
            forall|k: int| 0 <= k < mid.len() ==> (#[trigger] mid[k]).frontmatter.id < crate::id::ID_LIMIT,
        decreases rest2@.len(),
    {
        let h = rest2.remove(0);
        assert(h == mid[j as int]);
        assert(rest2@ =~= mid.skip(j + 1));
        let keep = needle.len() == 0 || needle_hit(&h, &needle);
        if keep {
            found.push(h);
        }
        j += 1;
    }
    let ghost kept_all = found@;
    assert(mid =~= period_kept(src, view_period(period@, now), now, src.len() as int));
    assert(kept_all == needle_kept(mid, lowercase_of(trim_ws(filter_text@)), mid.len() as int));
    let ghost mut g_perm: Seq<int> = seq![];
    // The sort.
    let ordered: Vec<EntryHeader> = match view_sort_field_exec(sort_by) {
        None => found,
        Some(field) => {
            let mut pairs: Vec<(EntryHeader, Vec<MatchLabel>)> = Vec::new();
            let ghost fsrc = found@;
            let nf = found.len();
            let mut rest3 = found;
            let mut k: usize = 0;
            assert(fsrc.skip(0) =~= fsrc);
            while rest3.len() > 0
                invariant
                    k + rest3@.len() == fsrc.len(),
                    fsrc.len() == nf,
                    rest3@ == fsrc.skip(k as int),
                    pairs@.len() == k,
                    forall|m: int| 0 <= m < k ==> (#[trigger] pairs@[m]).0 == fsrc[m],
                decreases rest3@.len(),
            {
                let h = rest3.remove(0);
                assert(h == fsrc[k as int]);
                assert(rest3@ =~= fsrc.skip(k + 1));
                pairs.push((h, Vec::new()));
                k += 1;
            }
            let sorted_pairs = stable_sort(pairs, field, SortOrder::Asc);
            let ghost sp = sorted_pairs@;
            let mut out: Vec<EntryHeader> = Vec::new();
            let ns = sorted_pairs.len();
            let mut rest4 = sorted_pairs;
            let mut m: usize = 0;
            assert(sp.skip(0) =~= sp);
            while rest4.len() > 0
                invariant
                    m + rest4@.len() == sp.len(),
                    sp.len() == ns,
                    rest4@ == sp.skip(m as int),
                    out@.len() == m,
                    forall|q: int| 0 <= q < m ==> #[trigger] out@[q] == sp[q].0,
                decreases rest4@.len(),
            {
                let (h, _) = rest4.remove(0);
                assert(rest4@ =~= sp.skip(m + 1));
                out.push(h);
                m += 1;
            }
            proof {
                let perm = choose|perm: Seq<int>| arranged(sp, pairs@, perm, field, SortOrder::Asc);
                assert(arranged(sp, pairs@, perm, field, SortOrder::Asc));
                g_perm = perm;
                assert forall|q: int| 0 <= q < out@.len() implies #[trigger] out@[q] == fsrc[perm[q]] by {
                    assert(sp[q] == pairs@[perm[q]]);
                }
                assert forall|a: int, b: int| 0 <= a < b < out@.len() implies directed_order(
                    (#[trigger] out@[a]).frontmatter,
                    (#[trigger] out@[b]).frontmatter,
                    field,
                    SortOrder::Asc,
                ) <= 0 by {
                    assert(out@[a] == sp[a].0 && out@[b] == sp[b].0);
                }
            }
            out
        },
    };
    let desc = str_eq(sort_order, "desc");
    proof {
        match view_sort_field(sort_by@) {
            None => {
                assert(ordered@ == kept_all);
            },
            Some(field) => {
                assert(ordered@.len() == kept_all.len());
                assert(crate::ops::is_permutation(g_perm, kept_all.len() as int));
                assert(forall|i: int| 0 <= i < ordered@.len() ==> #[trigger] ordered@[i] == kept_all[g_perm[i]]);
            },
        }
    }
    if desc {
        let mut rev: Vec<EntryHeader> = Vec::new();
        let ghost o = ordered@;
        let mut rest5 = ordered;
        while rest5.len() > 0
            invariant
                rest5@.len() + rev@.len() == o.len(),
                rest5@ == o.take(rest5@.len() as int),
                rev@ == o.skip(rest5@.len() as int).reverse(),
            decreases rest5@.len(),
        {
            let last = rest5.pop().unwrap();
            let ghost r = rest5@.len();
            assert(rest5@ =~= o.take(r as int));
            rev.push(last);
            assert(rev@ =~= o.skip(r as int).reverse());
        }
        assert(o.skip(0) =~= o);
        rev
    } else {
        ordered
    }
}


/// The home screen's entry list at the local time.
pub fn filter_and_sort(
    entries: Vec<EntryHeader>,
    period: &str,
    filter_text: &str,
    sort_by: &str,
    sort_order: &str,
) -> (res: Vec<EntryHeader>)
    requires
        forall|i: int| 0 <= i < entries@.len() ==> (#[trigger] entries@[i]).frontmatter.id < crate::id::ID_LIMIT,
    ensures
        exists|now: DateTime| now.valid() && home_list(res@, entries@, period@, filter_text@, sort_by@, sort_order@, now),
{
    let now = crate::calendar::local_now();
    filter_and_sort_at(entries, period, filter_text, sort_by, sort_order, now)
}

} // verus!
