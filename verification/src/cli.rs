//! Text rendering for the command line: entry flags, the entry list, the
//! entry tree.

use vstd::prelude::*;

use crate::calendar::{date_text_of, minute_text_of, date_text, minute_text};
use crate::datetime::{Date, DateTime, MIN_YEAR};
use crate::entry::{Entry, EntryHeader, EventMeta, Frontmatter, TaskMeta, texts};
use crate::home::{join_tags, joined_tags};
use crate::id::{ID_LIMIT, caretta_text, id_text};
use crate::labels::{EntryFlag, entry_flags_at, flags_at};
use crate::ops::{EntryFilter, EntryTreeNode, FieldSelector, SortField, SortOrder, sort_field_named, sort_order_named};
use crate::journal::WeekStart;
use crate::period::Period;
use crate::week_period::{parse_period_at, week_period_reading};
use crate::text::{concat, owned, string_from_chars};

verus! {

/// How flags are drawn.
#[derive(Clone, Copy, Debug, PartialEq, Eq, Structural)]
pub enum DisplayMode {
    Initials,
    Emoji,
    Nerd,
}

impl DisplayMode {
    /// Emoji when asked for, else Nerd Font glyphs when asked for, else
    /// initials.
    pub fn from_flags(emoji: bool, nerd: bool) -> (res: DisplayMode)
        ensures
            res == (if emoji {
                DisplayMode::Emoji
            } else if nerd {
                DisplayMode::Nerd
            } else {
                DisplayMode::Initials
            }),
    {
        if emoji {
            DisplayMode::Emoji
        } else if nerd {
            DisplayMode::Nerd
        } else {
            DisplayMode::Initials
        }
    }
}

/// How one flag is drawn in a mode.
pub open spec fn glyph(f: EntryFlag, mode: DisplayMode) -> Seq<char> {
    match mode {
        DisplayMode::Initials => seq![f.initial()],
        DisplayMode::Emoji => f.emoji(),
        DisplayMode::Nerd => f.nerd(),
    }
}

/// What stands in the freshness slot when there is no freshness flag.
pub open spec fn blank(mode: DisplayMode) -> Seq<char> {
    match mode {
        DisplayMode::Initials => "·"@,
        DisplayMode::Emoji => "・"@,
        DisplayMode::Nerd => " "@,
    }
}

/// The two-slot text of a flag list: the freshness slot (blank unless two
/// flags are given), then the type slot (the last of at most two flags, a
/// note when there is none).
pub open spec fn slot_text(flags: Seq<EntryFlag>, mode: DisplayMode) -> Seq<char> {
    if flags.len() == 0 {
        blank(mode) + glyph(EntryFlag::Note, mode)
    } else if flags.len() == 1 {
        blank(mode) + glyph(flags[0], mode)
    } else {
        glyph(flags[0], mode) + glyph(flags[1], mode)
    }
}

fn glyph_text(f: EntryFlag, mode: DisplayMode) -> (res: String)
    ensures
        res@ == glyph(f, mode),
{
    match mode {
        DisplayMode::Initials => {
            let mut v: Vec<char> = Vec::new();
            v.push(f.to_initial());
            string_from_chars(&v)
        },
        DisplayMode::Emoji => crate::text::owned(f.to_emoji()),
        DisplayMode::Nerd => crate::text::owned(f.to_nerd()),
    }
}

/// Render the flags of an entry in two slots.
pub fn render_slot(flags: &[EntryFlag], mode: DisplayMode) -> (res: String)
    ensures
        res@ == slot_text(flags@, mode),
{
    let absent = match mode {
        DisplayMode::Initials => "·",
        DisplayMode::Emoji => "・",
        DisplayMode::Nerd => " ",
    };
    if flags.len() == 0 {
        concat(absent, glyph_text(EntryFlag::Note, mode).as_str())
    } else if flags.len() == 1 {
        concat(absent, glyph_text(flags[0], mode).as_str())
    } else {
        concat(glyph_text(flags[0], mode).as_str(), glyph_text(flags[1], mode).as_str())
    }
}


/// One entry as a list row: its flag slot, its identifier and its title,
/// two spaces apart.
pub open spec fn row_text(h: EntryHeader, mode: DisplayMode) -> Seq<char> {
    slot_text(h.flags@, mode) + "  "@ + id_text(h.frontmatter.id as int) + "  "@ + h.frontmatter.title@
}

fn row_string(h: &EntryHeader, mode: DisplayMode) -> (res: String)
    requires
        h.frontmatter.id < ID_LIMIT,
    ensures
        res@ == row_text(*h, mode),
{
    let slot = render_slot(h.flags.as_slice(), mode);
    let id = caretta_text(h.frontmatter.id);
    concat(&concat(&concat(&concat(slot.as_str(), "  "), id.as_str()), "  "), h.frontmatter.title.as_str())
}

/// The lines of the entry list, one per entry in order.  Identifiers are
/// all seven characters wide, so the identifier column needs no padding.
pub fn list_lines(entries: &Vec<EntryHeader>, mode: DisplayMode) -> (res: Vec<String>)
    requires
        forall|i: int| 0 <= i < entries@.len() ==> (#[trigger] entries@[i]).frontmatter.id < ID_LIMIT,
    ensures
        res@.len() == entries@.len(),
        forall|i: int| 0 <= i < entries@.len() ==> (#[trigger] res@[i])@ == row_text(entries@[i], mode),
{
    let mut out: Vec<String> = Vec::new();
    let mut i: usize = 0;
    while i < entries.len()
        invariant
            i <= entries@.len(),
            out@.len() == i,
            forall|j: int| 0 <= j < entries@.len() ==> (#[trigger] entries@[j]).frontmatter.id < ID_LIMIT,
            forall|j: int| 0 <= j < i ==> (#[trigger] out@[j])@ == row_text(entries@[j], mode),
        decreases entries@.len() - i,
    {
        out.push(row_string(&entries[i], mode));
        i += 1;
    }
    out
}

/// Every identifier in the tree is in range.
pub open spec fn tree_ids_ok(node: EntryTreeNode) -> bool
    decreases node,
{
    &&& node.entry.frontmatter.id < ID_LIMIT
    &&& forall|k: int| 0 <= k < node.children@.len() ==> tree_ids_ok(#[trigger] node.children@[k])
}

/// The branch drawn before a node: `└─` for the last of its siblings.
pub open spec fn connector(is_last: bool) -> Seq<char> {
    if is_last {
        "└─"@
    } else {
        "├─"@
    }
}

/// What the children of a node are indented by, below `prefix`.
pub open spec fn child_prefix(prefix: Seq<char>, is_last: bool) -> Seq<char> {
    prefix + if is_last {
        "   "@
    } else {
        "│  "@
    }
}

/// The lines of a node and its subtree: the node's row (behind the prefix
/// and branch, except at the top), then its children, each indented one
/// step further.
pub open spec fn node_lines(node: EntryTreeNode, mode: DisplayMode, prefix: Seq<char>, is_last: bool) -> Seq<
    Seq<char>,
>
    decreases node, 0int,
{
    let head = if prefix.len() == 0 {
        row_text(node.entry, mode)
    } else {
        prefix + connector(is_last) + " "@ + row_text(node.entry, mode)
    };
    seq![head] + siblings_lines(
        node.children@,
        mode,
        child_prefix(prefix, is_last),
        node.children@.len() as int,
    )
}

/// The lines of the first `n` of a node's children, the last child of all
/// drawn as such.
pub open spec fn siblings_lines(kids: Seq<EntryTreeNode>, mode: DisplayMode, prefix: Seq<char>, n: int) -> Seq<
    Seq<char>,
>
    decreases kids, n,
{
    if n <= 0 || n > kids.len() {
        seq![]
    } else {
        siblings_lines(kids, mode, prefix, n - 1) + node_lines(kids[n - 1], mode, prefix, n == kids.len())
    }
}

fn render_node(node: &EntryTreeNode, mode: DisplayMode, prefix: &str, is_last: bool, out: &mut Vec<String>)
    requires
        tree_ids_ok(*node),
    ensures
        final(out)@.map_values(|l: String| l@) == old(out)@.map_values(|l: String| l@) + node_lines(
            *node,
            mode,
            prefix@,
            is_last,
        ),
    decreases node, 0int,
{
    proof {
        reveal_strlit("");
        reveal_strlit("└─");
        reveal_strlit("├─");
        reveal_strlit("   ");
        reveal_strlit("│  ");
        reveal_strlit(" ");
    }
    let row = row_string(&node.entry, mode);
    let head = if prefix.is_empty() {
        row
    } else {
        let branch = if is_last {
            "└─"
        } else {
            "├─"
        };
        concat(&concat(&concat(prefix, branch), " "), row.as_str())
    };
    let ghost before = out@;
    out.push(head);
    assert(out@.map_values(|l: String| l@) =~= before.map_values(|l: String| l@) + seq![head@]);
    let step = if is_last {
        "   "
    } else {
        "│  "
    };
    let next = concat(prefix, step);
    render_children(&node.children, mode, next.as_str(), out);
    assert(seq![head@] + siblings_lines(node.children@, mode, next@, node.children@.len() as int) =~= node_lines(
        *node,
        mode,
        prefix@,
        is_last,
    ));
}

fn render_children(kids: &Vec<EntryTreeNode>, mode: DisplayMode, prefix: &str, out: &mut Vec<String>)
    requires
        forall|k: int| 0 <= k < kids@.len() ==> tree_ids_ok(#[trigger] kids@[k]),
    ensures
        final(out)@.map_values(|l: String| l@) == old(out)@.map_values(|l: String| l@) + siblings_lines(
            kids@,
            mode,
            prefix@,
            kids@.len() as int,
        ),
    decreases kids@, 1int,
{
    let ghost start = out@.map_values(|l: String| l@);
    let mut i: usize = 0;
    while i < kids.len()
        invariant
            i <= kids@.len(),
            forall|k: int| 0 <= k < kids@.len() ==> tree_ids_ok(#[trigger] kids@[k]),
            out@.map_values(|l: String| l@) == start + siblings_lines(kids@, mode, prefix@, i as int),
        decreases kids@.len() - i,
    {
        let ghost mid = out@.map_values(|l: String| l@);
        render_node(&kids[i], mode, prefix, i + 1 == kids.len(), out);
        assert(start + siblings_lines(kids@, mode, prefix@, i + 1) =~= mid + node_lines(
            kids@[i as int],
            mode,
            prefix@,
            i + 1 == kids@.len(),
        ));
        i += 1;
    }
}

/// The lines of the entry tree: each root and its subtree, the last root
/// drawn as the last sibling.
pub fn tree_lines(roots: &Vec<EntryTreeNode>, mode: DisplayMode) -> (res: Vec<String>)
    requires
        forall|k: int| 0 <= k < roots@.len() ==> tree_ids_ok(#[trigger] roots@[k]),
    ensures
        res@.map_values(|l: String| l@) == siblings_lines(roots@, mode, seq![], roots@.len() as int),
{
    let mut out: Vec<String> = Vec::new();
    proof {
        reveal_strlit("");
    }
    let empty = owned("");
    assert(empty@ =~= Seq::<char>::empty());
    let ghost start = out@.map_values(|l: String| l@);
    assert(start =~= Seq::<Seq<char>>::empty());
    render_children(roots, mode, empty.as_str(), &mut out);
    assert(start + siblings_lines(roots@, mode, seq![], roots@.len() as int) =~= siblings_lines(
        roots@,
        mode,
        seq![],
        roots@.len() as int,
    ));
    out
}

/// The names of flags, in order.
pub open spec fn flag_names(flags: Seq<EntryFlag>) -> Seq<Seq<char>> {
    flags.map_values(|f: EntryFlag| f.text())
}

/// The first lines shown of an entry: title, flags and its two times.
pub open spec fn show_top(fm: Frontmatter, flags: Seq<EntryFlag>) -> Seq<char> {
    "# "@ + fm.title@ + "\n"@ + "flags:    "@ + joined_tags(flag_names(flags)) + "\n"@ + "created:  "@
        + minute_text_of(fm.created_at) + "\n"@ + "updated:  "@ + minute_text_of(fm.updated_at)
        + "\n"@
}

/// The tags line, when there are tags.
pub open spec fn show_tags(tags: Seq<Seq<char>>) -> Seq<char> {
    if tags.len() > 0 {
        "tags:     "@ + joined_tags(tags) + "\n"@
    } else {
        seq![]
    }
}

/// The task lines: status and due date, then the start and close times
/// that are set.
pub open spec fn show_task(task: Option<TaskMeta>) -> Seq<char> {
    match task {
        Some(t) => {
            let line = match t.due {
                Some(d) => "task:     "@ + t.status@ + " (due "@ + date_text_of(d.date) + ")\n"@,
                None => "task:     "@ + t.status@ + "\n"@,
            };
            let started = match t.started_at {
                Some(a) => "started:  "@ + minute_text_of(a) + "\n"@,
                None => seq![],
            };
            let closed = match t.closed_at {
                Some(c) => "closed:   "@ + minute_text_of(c) + "\n"@,
                None => seq![],
            };
            line + started + closed
        },
        None => seq![],
    }
}

/// The event line: its first and last day.
pub open spec fn show_event(event: Option<EventMeta>) -> Seq<char> {
    match event {
        Some(e) => "event:    "@ + date_text_of(e.start.date) + " – "@ + date_text_of(e.end.date) + "\n"@,
        None => seq![],
    }
}

/// The header block of an entry shown on the command line, before its
/// body: title, flags, times, tags, task and event, each on a line of its
/// own, then an empty line.
pub open spec fn show_head(fm: Frontmatter, flags: Seq<EntryFlag>) -> Seq<char> {
    show_top(fm, flags) + show_tags(texts(fm.tags@)) + show_task(fm.task) + show_event(fm.event) + "\n"@
}

/// Every time an entry shows is a valid date-time.
pub open spec fn times_valid(fm: Frontmatter) -> bool {
    &&& fm.created_at.valid()
    &&& fm.updated_at.valid()
    &&& fm.task matches Some(t) ==> {
        &&& t.due matches Some(d) ==> d.valid()
        &&& t.started_at matches Some(a) ==> a.valid()
        &&& t.closed_at matches Some(c) ==> c.valid()
    }
    &&& fm.event matches Some(e) ==> e.start.valid() && e.end.valid()
}

fn flag_name_list(flags: &Vec<EntryFlag>) -> (res: Vec<String>)
    ensures
        texts(res@) == flag_names(flags@),
{
    let mut out: Vec<String> = Vec::new();
    let mut i: usize = 0;
    while i < flags.len()
        invariant
            i <= flags@.len(),
            texts(out@) == flag_names(flags@.take(i as int)),
        decreases flags@.len() - i,
    {
        let ghost before = out@;
        out.push(owned(flags[i].as_str()));
        assert(texts(out@) =~= texts(before).push(flags@[i as int].text()));
        assert(flag_names(flags@.take(i + 1)) =~= flag_names(flags@.take(i as int)).push(flags@[i as int].text()));
        i += 1;
    }
    assert(flags@.take(i as int) =~= flags@);
    out
}

fn top_text(fm: &Frontmatter, flags: &Vec<EntryFlag>) -> (res: String)
    requires
        fm.created_at.valid(),
        fm.updated_at.valid(),
    ensures
        res@ == show_top(*fm, flags@),
{
    let names = join_tags(&flag_name_list(flags));
    let a = concat(&concat(&concat(&concat("# ", fm.title.as_str()), "\n"), "flags:    "), names.as_str());
    let b = concat(&concat(&concat(a.as_str(), "\n"), "created:  "), minute_text(fm.created_at).as_str());
    let c = concat(&concat(&concat(b.as_str(), "\n"), "updated:  "), minute_text(fm.updated_at).as_str());
    let r = concat(c.as_str(), "\n");
    assert(r@ =~= show_top(*fm, flags@));
    r
}

fn tags_text(tags: &Vec<String>) -> (res: String)
    ensures
        res@ == show_tags(texts(tags@)),
{
    if tags.len() > 0 {
        let r = concat(&concat("tags:     ", join_tags(tags).as_str()), "\n");
        assert(r@ =~= show_tags(texts(tags@)));
        r
    } else {
        proof {
            reveal_strlit("");
        }
        owned("")
    }
}

fn task_text(task: &Option<TaskMeta>) -> (res: String)
    requires
        task matches Some(t) ==> {
            &&& t.due matches Some(d) ==> d.valid()
            &&& t.started_at matches Some(a) ==> a.valid()
            &&& t.closed_at matches Some(c) ==> c.valid()
        },
    ensures
        res@ == show_task(*task),
{
    proof {
        reveal_strlit("");
    }
    match task {
        Some(t) => {
            let line = match t.due {
                Some(d) => concat(
                    &concat(&concat(&concat("task:     ", t.status.as_str()), " (due "), date_text(d.date).as_str()),
                    ")\n",
                ),
                None => concat(&concat("task:     ", t.status.as_str()), "\n"),
            };
            let started = match t.started_at {
                Some(a) => concat(&concat("started:  ", minute_text(a).as_str()), "\n"),
                None => owned(""),
            };
            let closed = match t.closed_at {
                Some(c) => concat(&concat("closed:   ", minute_text(c).as_str()), "\n"),
                None => owned(""),
            };
            let r = concat(&concat(line.as_str(), started.as_str()), closed.as_str());
            assert(r@ =~= show_task(*task));
            r
        },
        None => owned(""),
    }
}

fn event_text(event: &Option<EventMeta>) -> (res: String)
    requires
        event matches Some(e) ==> e.start.valid() && e.end.valid(),
    ensures
        res@ == show_event(*event),
{
    match event {
        Some(e) => {
            let r = concat(
                &concat(&concat(&concat("event:    ", date_text(e.start.date).as_str()), " – "), date_text(e.end.date).as_str()),
                "\n",
            );
            assert(r@ =~= show_event(*event));
            r
        },
        None => {
            proof {
                reveal_strlit("");
            }
            owned("")
        },
    }
}

/// An entry as the command line shows it at `now`: its header block, then
/// its body.
pub fn show_text_at(entry: &Entry, now: DateTime) -> (res: String)
    requires
        now.valid(),
        now.date.year > MIN_YEAR,
        times_valid(entry.frontmatter),
    ensures
        res@ == show_head(
            entry.frontmatter,
            flags_at(
                entry.frontmatter.task,
                entry.frontmatter.event,
                entry.frontmatter.created_at,
                entry.frontmatter.updated_at,
                now,
            ),
        ) + entry.body@,
{
    let fm = &entry.frontmatter;
    let flags = entry_flags_at(fm.task.as_ref(), fm.event.as_ref(), fm.created_at, fm.updated_at, now);
    assert(flags@ == flags_at(fm.task, fm.event, fm.created_at, fm.updated_at, now));
    let top = top_text(fm, &flags);
    let tags = tags_text(&fm.tags);
    let task = task_text(&fm.task);
    let event = event_text(&fm.event);
    let head = concat(
        &concat(&concat(&concat(top.as_str(), tags.as_str()), task.as_str()), event.as_str()),
        "\n",
    );
    let r = concat(head.as_str(), entry.body.as_str());
    assert(r@ =~= show_head(*fm, flags@) + entry.body@);
    r
}


// ── commands ─────────────────────────────────────────────────────────────────

/// The `cache` subcommands.
#[derive(Clone, Copy, Debug, PartialEq, Eq, Structural)]
pub enum CacheCommand {
    /// Show where the cache lives and what it holds.
    Info,
    /// Bring the cache up to date with the entry files.
    Sync,
    /// Delete the current cache and build it again.
    Rebuild,
    /// Compute embeddings for entries that have none.
    Embed,
    /// Remove cache files of other schema versions.
    Clean,
}

/// The `config` subcommands.
#[derive(Clone, Copy, Debug, PartialEq, Eq, Structural)]
pub enum ConfigCommand {
    /// Show the effective configuration.
    Show,
}

/// The filter and sort options of the entry listing commands, as given.
#[derive(Clone, Debug)]
pub struct EntryFilterArgs {
    /// The period, as typed.
    pub period: Option<String>,
    /// List every entry when no period is given.
    pub all_periods: bool,
    pub task_due: bool,
    pub event_span: bool,
    pub created_at: bool,
    pub updated_at: bool,
    /// Include tasks past their due time that are not closed.
    pub overdue: bool,
    /// Include tasks that are started and not closed.
    pub task_started: bool,
    pub task_status: Option<Vec<String>>,
    pub tags: Option<Vec<String>>,
    pub sort_by: Option<String>,
    pub sort_order: String,
}

/// The message when neither a period nor `--all-periods` is given.
pub open spec fn period_required_message() -> Seq<char> {
    "PERIOD is required (e.g. `today`, `this_week`, `2026-03-15`), or pass `--all-periods` to show all entries"@
}

pub open spec fn opt_texts(v: Option<Vec<String>>) -> Seq<Seq<char>> {
    match v {
        Some(x) => texts(x@),
        None => seq![],
    }
}

/// `f` is the filter the options give, with the period `period` read.
pub open spec fn filter_fits(f: EntryFilter, args: EntryFilterArgs, period: Option<Period>) -> bool {
    &&& f.period == period
    &&& f.fields == (FieldSelector {
        task_due: args.task_due,
        event_span: args.event_span,
        created_at: args.created_at,
        updated_at: args.updated_at,
    })
    &&& texts(f.task_status@) == opt_texts(args.task_status)
    &&& texts(f.tags@) == opt_texts(args.tags)
    &&& f.overdue == args.overdue
    &&& f.task_started == args.task_started
    &&& f.sort_by == match args.sort_by {
        Some(s) => sort_field_named(s@),
        None => None,
    }
    &&& sort_order_named(args.sort_order@) == Some(f.sort_order)
}

/// The error the listing options give on `today`, if any: a missing period,
/// then a period that does not read, then an unknown sort field, then an
/// unknown sort order.
pub open spec fn filter_error(args: EntryFilterArgs, week_start: WeekStart, today: Date) -> Option<Seq<char>> {
    if args.period is None && !args.all_periods {
        Some(period_required_message())
    } else if args.period matches Some(p) && week_period_reading(p@, today, week_start) matches Some(Err(e)) {
        match week_period_reading(args.period->0@, today, week_start) {
            Some(Err(e)) => Some(e),
            _ => None,
        }
    } else if args.sort_by matches Some(s) && sort_field_named(s@) is None {
        Some(
            "unknown sort field `"@ + args.sort_by->0@
                + "`; expected one of: id, title, task_status, created_at, updated_at, task_due, event_start"@,
        )
    } else if sort_order_named(args.sort_order@) is None {
        Some("unknown sort order `"@ + args.sort_order@ + "`; expected `asc` or `desc`"@)
    } else {
        None
    }
}

/// A period is given whose dates leave the range `chrono` represents.
pub open spec fn period_out_of_range(args: EntryFilterArgs, week_start: WeekStart, today: Date) -> bool {
    args.period matches Some(p) && week_period_reading(p@, today, week_start) is None
}

/// The period the options give, read on `today`.
pub open spec fn period_given(args: EntryFilterArgs, week_start: WeekStart, today: Date) -> Option<Period> {
    match args.period {
        Some(p) => match week_period_reading(p@, today, week_start) {
            Some(Ok(per)) => Some(per),
            _ => None,
        },
        None => None,
    }
}

fn texts_or_empty(v: Option<Vec<String>>) -> (res: Vec<String>)
    ensures
        texts(res@) == opt_texts(v),
{
    match v {
        Some(x) => x,
        None => {
            let e: Vec<String> = Vec::new();
            assert(texts(e@) =~= Seq::<Seq<char>>::empty());
            e
        },
    }
}

/// The entry filter the listing options describe, periods read relative to
/// `today` with weeks starting on `week_start`.  Without a period, `--all-periods` is required.  A period that
/// does not read, an unknown sort field and an unknown sort order are
/// errors, checked in that order; `None` where the period's dates leave the
/// range `chrono` represents.
pub fn build_filter(args: EntryFilterArgs, week_start: WeekStart, today: Date) -> (res: Option<Result<EntryFilter, String>>)
    requires
        today.valid(),
    ensures
        period_out_of_range(args, week_start, today) ==> res is None,
        !period_out_of_range(args, week_start, today) ==> match filter_error(args, week_start, today) {
            Some(e) => res matches Some(Err(m)) && m@ == e,
            None => res matches Some(Ok(f)) && filter_fits(f, args, period_given(args, week_start, today)),
        },
{
    if args.period.is_none() && !args.all_periods {
        return Some(
            Err(
                owned(
                    "PERIOD is required (e.g. `today`, `this_week`, `2026-03-15`), or pass `--all-periods` to show all entries",
                ),
            ),
        );
    }
    let period = match &args.period {
        Some(p) => match parse_period_at(p.as_str(), today, week_start) {
            None => {
                return None;
            },
            Some(Err(m)) => {
                return Some(Err(m));
            },
            Some(Ok(per)) => Some(per),
        },
        None => None,
    };
    let sort_by = match &args.sort_by {
        Some(s) => match SortField::parse(s.as_str()) {
            Ok(f) => Some(f),
            Err(m) => {
                return Some(Err(m));
            },
        },
        None => None,
    };
    let sort_order = match SortOrder::parse(args.sort_order.as_str()) {
        Ok(o) => o,
        Err(m) => {
            return Some(Err(m));
        },
    };
    let EntryFilterArgs {
        period: _,
        all_periods: _,
        task_due,
        event_span,
        created_at,
        updated_at,
        overdue,
        task_started,
        task_status,
        tags,
        sort_by: _,
        sort_order: _,
    } = args;
    Some(
        Ok(
            EntryFilter {
                period,
                fields: FieldSelector { task_due, event_span, created_at, updated_at },
                task_status: texts_or_empty(task_status),
                tags: texts_or_empty(tags),
                overdue,
                task_started,
                sort_by,
                sort_order,
            },
        ),
    )
}
} // verus!
