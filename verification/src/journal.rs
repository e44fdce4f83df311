//! Journals: the marker directory, journal configuration values, and the
//! filenames entries are stored under.

use vstd::prelude::*;

use crate::id::{ID_LIMIT, id_now, id_text, id_to_text};
use crate::text::{chars_of, concat, is_white_space, is_white_space_char, string_from_chars};

verus! {

/// Name of the directory that marks a journal root.
pub const JOURNAL_DIR_NAME: &'static str = ".sapphire-journal";

// ── slugs ────────────────────────────────────────────────────────────────────

pub open spec fn is_ascii_upper(c: char) -> bool {
    'A' <= c <= 'Z'
}

pub open spec fn is_ascii_alnum(c: char) -> bool {
    ('0' <= c <= '9') || ('a' <= c <= 'z') || ('A' <= c <= 'Z')
}

/// How one character of a title is written in a slug: whitespace becomes
/// `_`, ASCII letters are lowercased, ASCII digits, `-`, `_`, `.` and all
/// non-ASCII characters stay, any other ASCII character becomes `_`.
pub open spec fn slug_char(c: char) -> char {
    if is_white_space(c) {
        '_'
    } else if is_ascii_upper(c) {
        ((c as int) + 32) as char
    } else if is_ascii_alnum(c) || c == '-' || c == '_' || c == '.' || (c as int) >= 128 {
        c
    } else {
        '_'
    }
}

/// `acc` followed by the pieces of `s` between underscores, empty pieces
/// dropped, joined by single underscores.  `pending` records an underscore
/// seen after a piece and not yet written.
pub open spec fn squeeze(s: Seq<char>, acc: Seq<char>, pending: bool) -> Seq<char>
    decreases s.len(),
{
    if s.len() == 0 {
        acc
    } else if s[0] == '_' {
        squeeze(s.drop_first(), acc, acc.len() > 0)
    } else if pending {
        squeeze(s.drop_first(), acc.push('_').push(s[0]), false)
    } else {
        squeeze(s.drop_first(), acc.push(s[0]), false)
    }
}

/// The slug of a title: its characters mapped by [`slug_char`], then split
/// at `_`, empty pieces dropped, and joined by `_`.
pub open spec fn slug_of(title: Seq<char>) -> Seq<char> {
    squeeze(title.map_values(|c: char| slug_char(c)), seq![], false)
}

fn slug_char_exec(c: char) -> (res: char)
    ensures
        res == slug_char(c),
{
    if is_white_space_char(c) {
        '_'
    } else if 'A' <= c && c <= 'Z' {
        let b = (c as u32 - 'A' as u32 + 'a' as u32) as u8;
        b as char
    } else if ('0' <= c && c <= '9') || ('a' <= c && c <= 'z') || c == '-' || c == '_' || c == '.' || (c
        as u32) >= 128 {
        c
    } else {
        '_'
    }
}

/// Convert a title to a filename-safe slug.
pub fn slugify(title: &str) -> (res: String)
    ensures
        res@ == slug_of(title@),
        forall|i: int|
            0 <= i < res@.len() ==> {
                let c = #[trigger] res@[i];
                ('a' <= c && c <= 'z') || ('0' <= c && c <= '9') || c == '-' || c == '_' || c == '.' || (c as int)
                    >= 128
            },
{
    proof {
        lemma_slug_chars(title@);
    }
    let v = chars_of(title);
    let ghost mapped = title@.map_values(|c: char| slug_char(c));
    let mut out: Vec<char> = Vec::new();
    let mut pending = false;
    let mut i: usize = 0;
    assert(mapped.skip(0) =~= mapped);
    while i < v.len()
        invariant
            v@ == title@,
            i <= v@.len(),
            mapped == title@.map_values(|c: char| slug_char(c)),
            squeeze(mapped.skip(i as int), out@, pending) == slug_of(title@),
        decreases v@.len() - i,
    {
        let c = slug_char_exec(v[i]);
        assert(mapped.skip(i as int)[0] == c);
        assert(mapped.skip(i as int).drop_first() =~= mapped.skip(i + 1));
        if c == '_' {
            pending = out.len() > 0;
        } else {
            if pending {
                out.push('_');
            }
            out.push(c);
            pending = false;
        }
        i += 1;
    }
    string_from_chars(&out)
}

/// No underscore at either end and no two in a row.
pub open spec fn tidy(t: Seq<char>) -> bool {
    &&& (t.len() > 0 ==> t[0] != '_' && t.last() != '_')
    &&& forall|i: int| 0 <= i < t.len() - 1 ==> !(t[i] == '_' && #[trigger] t[i + 1] == '_')
}

proof fn lemma_squeeze_tidy(s: Seq<char>, acc: Seq<char>, pending: bool)
    requires
        tidy(acc),
        pending ==> acc.len() > 0,
    ensures
        tidy(squeeze(s, acc, pending)),
    decreases s.len(),
{
    if s.len() > 0 {
        if s[0] == '_' {
            lemma_squeeze_tidy(s.drop_first(), acc, acc.len() > 0);
        } else if pending {
            let a2 = acc.push('_').push(s[0]);
            assert forall|i: int| 0 <= i < a2.len() - 1 implies !(a2[i] == '_' && #[trigger] a2[i + 1] == '_') by {
                if i < acc.len() - 1 {
                    assert(a2[i] == acc[i] && a2[i + 1] == acc[i + 1]);
                }
            }
            lemma_squeeze_tidy(s.drop_first(), a2, false);
        } else {
            let a2 = acc.push(s[0]);
            assert forall|i: int| 0 <= i < a2.len() - 1 implies !(a2[i] == '_' && #[trigger] a2[i + 1] == '_') by {
                if i < acc.len() - 1 {
                    assert(a2[i] == acc[i] && a2[i + 1] == acc[i + 1]);
                }
            }
            lemma_squeeze_tidy(s.drop_first(), a2, false);
        }
    }
}

/// Squeezing text that is already tidy after the context `acc` appends it
/// unchanged.
proof fn lemma_squeeze_keeps(t: Seq<char>, acc: Seq<char>, pending: bool)
    requires
        t.len() > 0 ==> t.last() != '_',
        forall|i: int| 0 <= i < t.len() - 1 ==> !(t[i] == '_' && #[trigger] t[i + 1] == '_'),
        pending ==> acc.len() > 0 && t.len() > 0 && t[0] != '_',
        !pending && t.len() > 0 && t[0] == '_' ==> acc.len() > 0,
    ensures
        squeeze(t, acc, pending) == acc + (if pending {
            seq!['_']
        } else {
            seq![]
        }) + t,
    decreases t.len(),
{
    if t.len() > 0 {
        let r = t.drop_first();
        assert forall|i: int| 0 <= i < r.len() - 1 implies !(r[i] == '_' && #[trigger] r[i + 1] == '_') by {
            assert(r[i] == t[i + 1] && r[i + 1] == t[i + 2]);
        }
        if t[0] == '_' {
            assert(r.len() > 0);
            assert(r[0] != '_') by {
                assert(r[0] == t[1]);
            }
            lemma_squeeze_keeps(r, acc, true);
            assert(acc + seq!['_'] + r =~= acc + seq![] + t);
        } else if pending {
            lemma_squeeze_keeps(r, acc.push('_').push(t[0]), false);
            assert(acc.push('_').push(t[0]) + seq![] + r =~= acc + seq!['_'] + t);
        } else {
            lemma_squeeze_keeps(r, acc.push(t[0]), false);
            assert(acc.push(t[0]) + seq![] + r =~= acc + seq![] + t);
        }
    } else {
        assert(acc + seq![] + t =~= acc);
    }
}

/// Every character squeeze writes is an underscore or a character of its
/// inputs.
proof fn lemma_squeeze_chars(s: Seq<char>, acc: Seq<char>, pending: bool)
    requires
        forall|i: int| 0 <= i < s.len() ==> slug_char(#[trigger] s[i]) == s[i],
        forall|i: int| 0 <= i < acc.len() ==> slug_char(#[trigger] acc[i]) == acc[i],
    ensures
        forall|i: int|
            0 <= i < squeeze(s, acc, pending).len() ==> slug_char(#[trigger] squeeze(s, acc, pending)[i])
                == squeeze(s, acc, pending)[i],
    decreases s.len(),
{
    if s.len() > 0 {
        let r = s.drop_first();
        assert forall|i: int| 0 <= i < r.len() implies slug_char(#[trigger] r[i]) == r[i] by {
            assert(r[i] == s[i + 1]);
        }
        assert(slug_char('_') == '_');
        if s[0] == '_' {
            lemma_squeeze_chars(r, acc, acc.len() > 0);
            assert(squeeze(s, acc, pending) == squeeze(r, acc, acc.len() > 0));
        } else if pending {
            let a2 = acc.push('_').push(s[0]);
            assert forall|i: int| 0 <= i < a2.len() implies slug_char(#[trigger] a2[i]) == a2[i] by {
                if i < acc.len() {
                    assert(a2[i] == acc[i]);
                }
            }
            lemma_squeeze_chars(r, a2, false);
            assert(squeeze(s, acc, pending) == squeeze(r, a2, false));
        } else {
            let a2 = acc.push(s[0]);
            assert forall|i: int| 0 <= i < a2.len() implies slug_char(#[trigger] a2[i]) == a2[i] by {
                if i < acc.len() {
                    assert(a2[i] == acc[i]);
                }
            }
            lemma_squeeze_chars(r, a2, false);
            assert(squeeze(s, acc, pending) == squeeze(r, a2, false));
        }
    }
}

proof fn lemma_slug_char_idempotent(c: char)
    ensures
        slug_char(slug_char(c)) == slug_char(c),
{
}

/// Every character of a slug is an ASCII lowercase letter or digit, `-`,
/// `_`, `.`, or a character outside ASCII: punctuation, upper case and
/// white space never reach a file name.
pub proof fn lemma_slug_chars(title: Seq<char>)
    ensures
        forall|i: int|
            0 <= i < slug_of(title).len() ==> {
                let c = #[trigger] slug_of(title)[i];
                ('a' <= c && c <= 'z') || ('0' <= c && c <= '9') || c == '-' || c == '_' || c == '.' || (c as int)
                    >= 128
            },
{
    let m = title.map_values(|c: char| slug_char(c));
    assert forall|i: int| 0 <= i < m.len() implies slug_char(#[trigger] m[i]) == m[i] by {
        lemma_slug_char_idempotent(title[i]);
    }
    lemma_squeeze_chars(m, seq![], false);
    let t = slug_of(title);
    assert forall|i: int| 0 <= i < t.len() implies {
        let c = #[trigger] t[i];
        ('a' <= c && c <= 'z') || ('0' <= c && c <= '9') || c == '-' || c == '_' || c == '.' || (c as int) >= 128
    } by {
        let c = t[i];
        assert(slug_char(c) == c);
        if is_ascii_upper(c) {
            assert(((c as int) + 32) as char != c);
        }
    }
}

/// A slug is its own slug: slugifying twice changes nothing, so a file
/// renamed to its canonical name keeps that name.
pub proof fn lemma_slug_idempotent(title: Seq<char>)
    ensures
        slug_of(slug_of(title)) == slug_of(title),
        tidy(slug_of(title)),
{
    let m = title.map_values(|c: char| slug_char(c));
    assert forall|i: int| 0 <= i < m.len() implies slug_char(#[trigger] m[i]) == m[i] by {
        lemma_slug_char_idempotent(title[i]);
    }
    let t = slug_of(title);
    lemma_squeeze_tidy(m, seq![], false);
    lemma_squeeze_chars(m, seq![], false);
    let m2 = t.map_values(|c: char| slug_char(c));
    assert(m2 =~= t);
    lemma_squeeze_keeps(t, seq![], false);
    assert(seq![] + seq![] + t =~= t);
}

// ── filenames ────────────────────────────────────────────────────────────────

/// The canonical filename of an entry: `{id}_{slug}.md`, or `{id}.md` when
/// the slug is empty.
pub open spec fn filename_for(id: int, slug: Seq<char>) -> Seq<char> {
    if slug.len() == 0 {
        id_text(id) + ".md"@
    } else {
        id_text(id) + "_"@ + slug + ".md"@
    }
}

/// The canonical filename for an entry with this identifier and title.
pub fn entry_filename(id: u64, title: &str) -> (res: String)
    requires
        id < ID_LIMIT,
    ensures
        res@ == filename_for(id as int, slug_of(title@)),
{
    let slug = slugify(title);
    let id_part = id_to_text(id);
    if slug.as_str().is_empty() {
        concat(id_part.as_str(), ".md")
    } else {
        concat(&concat(&concat(id_part.as_str(), "_"), slug.as_str()), ".md")
    }
}

/// Join a relative path component onto a base path, with one `/` between
/// them (none when the base is empty or already ends with `/`).
pub open spec fn joined(base: Seq<char>, name: Seq<char>) -> Seq<char> {
    if base.len() == 0 {
        name
    } else if base.last() == '/' {
        base + name
    } else {
        base + "/"@ + name
    }
}

/// `base` joined with the relative component `name`.
pub fn join_path(base: &str, name: &str) -> (res: String)
    ensures
        res@ == joined(base@, name@),
{
    let v = chars_of(base);
    if v.len() == 0 {
        crate::text::owned(name)
    } else if v[v.len() - 1] == '/' {
        concat(base, name)
    } else {
        concat(&concat(base, "/"), name)
    }
}

/// The path of a new entry created in `year`: `{year}/{id}_{slug}.md`.
pub fn new_entry_path_at(title: &str, year: i32, id: u64) -> (res: (String, u64))
    requires
        id < ID_LIMIT,
    ensures
        res.1 == id,
        res.0@ == joined(crate::number::decimal_digits_signed(year as int), filename_for(id as int, slug_of(title@))),
{
    let year_text = crate::number::signed_decimal_text(year);
    let name = entry_filename(id, title);
    (join_path(year_text.as_str(), name.as_str()), id)
}


proof fn lemma_squeeze_no_slash(s: Seq<char>, acc: Seq<char>, pending: bool)
    requires
        !crate::text::has_char(s, '/'),
        !crate::text::has_char(acc, '/'),
    ensures
        !crate::text::has_char(squeeze(s, acc, pending), '/'),
    decreases s.len(),
{
    if s.len() > 0 {
        let r = s.drop_first();
        assert(!crate::text::has_char(r, '/')) by {
            if crate::text::has_char(r, '/') {
                let i = choose|i: int| 0 <= i < r.len() && r[i] == '/';
                assert(s[i + 1] == '/');
            }
        }
        if s[0] == '_' {
            lemma_squeeze_no_slash(r, acc, acc.len() > 0);
        } else if pending {
            let a2 = acc.push('_').push(s[0]);
            assert(!crate::text::has_char(a2, '/')) by {
                if crate::text::has_char(a2, '/') {
                    let i = choose|i: int| 0 <= i < a2.len() && a2[i] == '/';
                    if i < acc.len() {
                        assert(acc[i] == '/');
                    }
                }
            }
            lemma_squeeze_no_slash(r, a2, false);
        } else {
            let a2 = acc.push(s[0]);
            assert(!crate::text::has_char(a2, '/')) by {
                if crate::text::has_char(a2, '/') {
                    let i = choose|i: int| 0 <= i < a2.len() && a2[i] == '/';
                    if i < acc.len() {
                        assert(acc[i] == '/');
                    }
                }
            }
            lemma_squeeze_no_slash(r, a2, false);
        }
    }
}

/// A slug never holds a `/`.
pub proof fn lemma_slug_no_slash(title: Seq<char>)
    ensures
        !crate::text::has_char(slug_of(title), '/'),
{
    let m = title.map_values(|c: char| slug_char(c));
    assert(!crate::text::has_char(m, '/')) by {
        if crate::text::has_char(m, '/') {
            let i = choose|i: int| 0 <= i < m.len() && m[i] == '/';
            assert(slug_char(title[i]) == '/');
        }
    }
    lemma_squeeze_no_slash(m, seq![], false);
}

/// An identifier's text never holds a `/`.
pub proof fn lemma_id_text_no_slash(v: int)
    ensures
        !crate::text::has_char(id_text(v), '/'),
{
    let t = id_text(v);
    assert forall|i: int| 0 <= i < t.len() implies t[i] != '/' by {
        let d = (v / crate::id::pow32((6 - i) as nat)) % 32;
        let alphabet = seq!['a', 'b', 'c', 'd', 'e', 'f', 'g', 'h', 'j', 'k', 'm', 'n', 'p', 'q', 'r', 's', 't', 'v', 'w', 'x', 'y', 'z'];
        if d >= 10 {
            assert('a' <= alphabet[d - 10] <= 'z');
        }
    }
}

/// A canonical filename holds a `/` only where its slug does.
pub proof fn lemma_filename_no_slash(id: int, slug: Seq<char>)
    requires
        !crate::text::has_char(slug, '/'),
    ensures
        !crate::text::has_char(filename_for(id, slug), '/'),
{
    reveal_strlit(".md");
    reveal_strlit("_");
    lemma_id_text_no_slash(id);
    let f = filename_for(id, slug);
    assert forall|i: int| 0 <= i < f.len() implies f[i] != '/' by {
        let t = id_text(id);
        if i < t.len() {
            assert(f[i] == t[i]);
        } else if slug.len() > 0 && i == t.len() {
        } else if slug.len() > 0 && i < t.len() + 1 + slug.len() {
            assert(f[i] == slug[i - t.len() - 1]);
        }
    }
}


// ── configuration ────────────────────────────────────────────────────────────

/// First day of the week.
#[derive(Clone, Copy, Debug, PartialEq, Eq, Structural)]
pub enum WeekStart {
    Monday,
    Sunday,
}

/// How duplicate entry titles are treated when the cache is synced.
#[derive(Clone, Copy, Debug, PartialEq, Eq, Structural)]
pub enum DuplicateTitlePolicy {
    /// Duplicates are allowed silently.
    Allow,
    /// A warning names the first duplicate title; the sync goes on.
    Warn,
    /// The sync fails on the first duplicate title.
    Error,
}

impl Default for WeekStart {
    fn default() -> (res: WeekStart)
        ensures
            res == WeekStart::Monday,
    {
        WeekStart::Monday
    }
}

impl Default for DuplicateTitlePolicy {
    fn default() -> (res: DuplicateTitlePolicy)
        ensures
            res == DuplicateTitlePolicy::Warn,
    {
        DuplicateTitlePolicy::Warn
    }
}

/// The `[journal]` section of a journal's `config.toml`.
#[derive(Clone, Debug)]
pub struct JournalSection {
    /// First day of the week; Monday by default.
    pub week_start: WeekStart,
    /// Stable identifier of the journal (UUID text), used to place its cache.
    pub id: Option<String>,
    /// What to do with duplicate titles; a warning by default.
    pub duplicate_title: DuplicateTitlePolicy,
    /// Directory, relative to the journal root, that holds the year
    /// directories; the root itself when unset.
    pub entries_dir: Option<String>,
}

/// A journal's `config.toml`.
#[derive(Clone, Debug)]
pub struct JournalConfig {
    pub journal: JournalSection,
}

impl Default for JournalSection {
    fn default() -> (res: JournalSection)
        ensures
            res.week_start == WeekStart::Monday,
            res.id is None,
            res.duplicate_title == DuplicateTitlePolicy::Warn,
            res.entries_dir is None,
    {
        JournalSection {
            week_start: WeekStart::Monday,
            id: None,
            duplicate_title: DuplicateTitlePolicy::Warn,
            entries_dir: None,
        }
    }
}

impl Default for JournalConfig {
    fn default() -> (res: JournalConfig)
        ensures
            res.journal.week_start == WeekStart::Monday,
            res.journal.id is None,
            res.journal.duplicate_title == DuplicateTitlePolicy::Warn,
            res.journal.entries_dir is None,
    {
        JournalConfig { journal: JournalSection::default() }
    }
}

// ── journals ─────────────────────────────────────────────────────────────────

/// A located journal: a directory that directly contains `.sapphire-journal/`.
#[derive(Clone, Debug)]
pub struct Journal {
    pub root: String,
}

/// `p` without its trailing `/` characters.
pub open spec fn trim_slashes_end(p: Seq<char>) -> Seq<char>
    decreases p.len(),
{
    if p.len() > 0 && p.last() == '/' {
        trim_slashes_end(p.drop_last())
    } else {
        p
    }
}

/// The directory above `p`, as `PathBuf::pop` leaves it: the path without
/// its last component; `/` above a top-level directory; empty above a lone
/// relative component; none at the root or for an empty path.
pub open spec fn path_parent(p: Seq<char>) -> Option<Seq<char>> {
    let q = trim_slashes_end(p);
    if q.len() == 0 {
        None
    } else if !crate::text::has_char(q, '/') {
        Some(seq![])
    } else {
        let k = choose|k: int| 0 <= k < q.len() && q[k] == '/' && forall|j: int| k < j < q.len() ==> q[j] != '/';
        let up = trim_slashes_end(q.take(k));
        if up.len() == 0 {
            Some(seq!['/'])
        } else {
            Some(up)
        }
    }
}

/// The directories searched for a journal from `start`: `start`, then each
/// directory above it, up to `n` of them.
pub open spec fn search_path(start: Seq<char>, n: nat) -> Seq<Seq<char>>
    decreases n,
{
    if n == 0 {
        seq![]
    } else {
        match path_parent(start) {
            Some(up) => seq![start] + search_path(up, (n - 1) as nat),
            None => seq![start],
        }
    }
}

fn trim_slashes_end_exec(v: &Vec<char>, to: usize) -> (res: usize)
    requires
        to <= v@.len(),
    ensures
        res <= to,
        v@.take(res as int) == trim_slashes_end(v@.take(to as int)),
{
    let mut k = to;
    while k > 0 && v[k - 1] == '/'
        invariant
            k <= to <= v@.len(),
            trim_slashes_end(v@.take(k as int)) == trim_slashes_end(v@.take(to as int)),
        decreases k,
    {
        assert(v@.take(k as int).drop_last() =~= v@.take(k - 1));
        k -= 1;
    }
    k
}

/// The directory above `path`, if any.
pub fn parent_path(path: &str) -> (res: Option<String>)
    ensures
        match res {
            Some(r) => path_parent(path@) == Some(r@),
            None => path_parent(path@) is None,
        },
{
    let v = chars_of(path);
    assert(v@.take(v@.len() as int) =~= path@);
    let end = trim_slashes_end_exec(&v, v.len());
    let ghost q = path@.take(end as int);
    if end == 0 {
        return None;
    }
    let mut k = end;
    while k > 0 && v[k - 1] != '/'
        invariant
            k <= end <= v@.len(),
            forall|j: int| k <= j < end ==> v@[j] != '/',
        decreases k,
    {
        k -= 1;
    }
    if k == 0 {
        assert(!crate::text::has_char(q, '/')) by {
            if crate::text::has_char(q, '/') {
                let j = choose|j: int| 0 <= j < q.len() && q[j] == '/';
                assert(v@[j] == '/');
            }
        }
        proof {
            reveal_strlit("");
        }
        return Some(crate::text::owned(""));
    }
    let slash = k - 1;
    assert(crate::text::has_char(q, '/')) by {
        assert(q[slash as int] == '/');
    }
    proof {
        let c = choose|c: int| 0 <= c < q.len() && q[c] == '/' && forall|j: int| c < j < q.len() ==> q[j] != '/';
        if c < slash {
            assert(q[slash as int] != '/');
        } else if c > slash {
            assert(q[c] != '/');
        }
        assert(q.take(slash as int) =~= v@.take(slash as int));
    }
    let up = trim_slashes_end_exec(&v, slash);
    if up == 0 {
        let mut r: Vec<char> = Vec::new();
        r.push('/');
        return Some(string_from_chars(&r));
    }
    let r = string_from_chars(&v[0..up]);
    assert(r@ =~= v@.take(up as int));
    Some(r)
}

/// `start` and the directories above it, nearest first.
pub fn search_dirs(start: &str) -> (res: Vec<String>)
    ensures
        texts_of(res@) == search_path(start@, (start@.len() + 1) as nat),
{
    let mut res: Vec<String> = Vec::new();
    let mut cur = crate::text::owned(start);
    let ghost mut fuel: nat = (start@.len() + 1) as nat;
    proof {
        lemma_search_path_len(start@, fuel);
    }
    loop
        invariant
            fuel >= 1,
            fuel > cur@.len(),
            texts_of(res@) + search_path(cur@, fuel) == search_path(start@, (start@.len() + 1) as nat),
        decreases fuel,
    {
        let next = parent_path(cur.as_str());
        proof {
            lemma_parent_shorter(cur@);
        }
        let ghost c = cur@;
        match next {
            Some(up) => {
                let ghost before = res@;
                res.push(cur);
                proof {
                    assert(res@.drop_last() =~= before);
                    assert(texts_of(res@) =~= texts_of(before).push(c));
                    assert(search_path(c, fuel) == seq![c] + search_path(up@, (fuel - 1) as nat));
                    assert(texts_of(res@) + search_path(up@, (fuel - 1) as nat) =~= texts_of(before)
                        + search_path(c, fuel));
                    fuel = (fuel - 1) as nat;
                }
                cur = up;
            },
            None => {
                let ghost before = res@;
                res.push(cur);
                proof {
                    assert(res@.drop_last() =~= before);
                    assert(search_path(c, fuel) == seq![c]);
                    assert(texts_of(res@) =~= texts_of(before) + seq![c]);
                }
                return res;
            },
        }
    }
}

/// The texts of a list of strings.
pub open spec fn texts_of(v: Seq<String>) -> Seq<Seq<char>> {
    v.map_values(|s: String| s@)
}

proof fn lemma_trim_slashes_shorter(p: Seq<char>)
    ensures
        trim_slashes_end(p).len() <= p.len(),
        trim_slashes_end(p) == p.take(trim_slashes_end(p).len() as int),
        trim_slashes_end(p).len() > 0 ==> trim_slashes_end(p).last() != '/',
    decreases p.len(),
{
    if p.len() > 0 && p.last() == '/' {
        lemma_trim_slashes_shorter(p.drop_last());
        assert(p.drop_last().take(trim_slashes_end(p).len() as int) =~= p.take(trim_slashes_end(p).len() as int));
    } else {
        assert(p.take(p.len() as int) =~= p);
    }
}

proof fn lemma_parent_shorter(p: Seq<char>)
    ensures
        path_parent(p) matches Some(up) ==> up.len() < p.len(),
{
    let q = trim_slashes_end(p);
    lemma_trim_slashes_shorter(p);
    if q.len() > 0 && crate::text::has_char(q, '/') {
        let k = choose|k: int| 0 <= k < q.len() && q[k] == '/' && forall|j: int| k < j < q.len() ==> q[j] != '/';
        assert(exists|k: int| 0 <= k < q.len() && q[k] == '/' && forall|j: int| k < j < q.len() ==> q[j] != '/') by {
            let i = choose|i: int| 0 <= i < q.len() && q[i] == '/';
            lemma_last_of(q, i);
        }
        lemma_trim_slashes_shorter(q.take(k));
        if q.len() == 1 {
            assert(q.last() == q[k]);
        }
    }
}

/// Some `/` is the last one.
proof fn lemma_last_of(q: Seq<char>, i: int)
    requires
        0 <= i < q.len(),
        q[i] == '/',
    ensures
        exists|k: int| 0 <= k < q.len() && q[k] == '/' && forall|j: int| k < j < q.len() ==> q[j] != '/',
    decreases q.len() - i,
{
    if exists|j: int| i < j < q.len() && q[j] == '/' {
        let j = choose|j: int| i < j < q.len() && q[j] == '/';
        lemma_last_of(q, j);
    } else {
        assert(forall|j: int| i < j < q.len() ==> q[j] != '/');
    }
}

proof fn lemma_search_path_len(p: Seq<char>, n: nat)
    ensures
        search_path(p, n).len() <= n,
    decreases n,
{
    if n > 0 {
        if let Some(up) = path_parent(p) {
            lemma_search_path_len(up, (n - 1) as nat);
        }
    }
}

impl Journal {
    /// The journal at `root`, which holds the marker directory exactly when
    /// `marker_is_dir` says so.
    pub fn from_root(root: String, marker_is_dir: bool) -> (res: Result<Journal, crate::error::Error>)
        ensures
            marker_is_dir ==> (res matches Ok(j) && j.root@ == root@),
            !marker_is_dir ==> res matches Err(crate::error::Error::JournalNotFound),
    {
        if marker_is_dir {
            Ok(Journal { root })
        } else {
            Err(crate::error::Error::JournalNotFound)
        }
    }

    /// The first of the searched directories (see [`search_dirs`]) whose
    /// marker directory exists, `marked[i]` telling whether the `i`-th has it.
    pub fn find_from(dirs: &Vec<String>, marked: &Vec<bool>) -> (res: Result<Journal, crate::error::Error>)
        requires
            marked@.len() == dirs@.len(),
        ensures
            match res {
                Ok(j) => exists|i: int|
                    0 <= i < dirs@.len() && marked@[i] && j.root@ == dirs@[i]@ && forall|k: int|
                        0 <= k < i ==> !marked@[k],
                Err(e) => e matches crate::error::Error::JournalNotFound && forall|k: int|
                    0 <= k < dirs@.len() ==> !marked@[k],
            },
    {
        let mut i: usize = 0;
        while i < dirs.len()
            invariant
                marked@.len() == dirs@.len(),
                i <= dirs@.len(),
                forall|k: int| 0 <= k < i ==> !marked@[k],
            decreases dirs@.len() - i,
        {
            if marked[i] {
                return Ok(Journal { root: dirs[i].clone() });
            }
            i += 1;
        }
        Err(crate::error::Error::JournalNotFound)
    }

    /// Path of the `.sapphire-journal` directory.
    pub fn journal_dir(&self) -> (res: String)
        ensures
            res@ == joined(self.root@, ".sapphire-journal"@),
    {
        join_path(self.root.as_str(), JOURNAL_DIR_NAME)
    }

    /// Path of the directory that holds the year directories: the configured
    /// `entries_dir` under the root, or the root itself.
    pub fn entries_root(&self, config: &JournalConfig) -> (res: String)
        ensures
            res@ == match config.journal.entries_dir {
                Some(d) => if d@.len() > 0 {
                    joined(self.root@, d@)
                } else {
                    self.root@
                },
                None => self.root@,
            },
    {
        match &config.journal.entries_dir {
            Some(d) => if !d.as_str().is_empty() {
                join_path(self.root.as_str(), d.as_str())
            } else {
                self.root.clone()
            },
            None => self.root.clone(),
        }
    }

    /// The machine-local cache directory of the journal with identifier
    /// `journal_id`, under the user's cache directory `cache_home`.
    pub fn cache_dir(&self, cache_home: &str, journal_id: &str) -> (res: String)
        ensures
            res@ == joined(joined(cache_home@, "sapphire-journal"@), journal_id@),
    {
        join_path(join_path(cache_home, "sapphire-journal").as_str(), journal_id)
    }
}

/// An entry file whose name starts with the identifier prefix `prefix`: a
/// `.md` file (see [`is_markdown_name`]) whose stem begins with it.
pub open spec fn id_prefix_match(path: Seq<char>, prefix: Seq<char>) -> bool {
    let name = crate::ops::file_name_of(path);
    &&& name.len() >= 4
    &&& name.skip(name.len() - 3) == ".md"@
    &&& prefix.len() <= name.len() - 3
    &&& name.take(prefix.len() as int) == prefix
}

/// The paths (of the first `n`) that match the prefix, in order.
pub open spec fn prefix_matches(paths: Seq<String>, prefix: Seq<char>, n: int) -> Seq<Seq<char>>
    decreases n,
{
    if n <= 0 {
        seq![]
    } else if id_prefix_match(paths[n - 1]@, prefix) {
        prefix_matches(paths, prefix, n - 1).push(paths[n - 1]@)
    } else {
        prefix_matches(paths, prefix, n - 1)
    }
}

fn matches_prefix(path: &str, prefix: &Vec<char>) -> (res: bool)
    ensures
        res == id_prefix_match(path@, prefix@),
{
    let name = crate::ops::file_name(path);
    let v = chars_of(name.as_str());
    let n = v.len();
    proof {
        reveal_strlit(".md");
        assert(".md"@ =~= seq!['.', 'm', 'd']);
    }
    if n < 4 || !(v[n - 3] == '.' && v[n - 2] == 'm' && v[n - 1] == 'd') {
        proof {
            if n >= 4 {
                let t = name@.skip(n - 3);
                assert(t[0] == name@[n - 3] && t[1] == name@[n - 2] && t[2] == name@[n - 1]);
            }
        }
        return false;
    }
    assert(name@.skip(n - 3) =~= ".md"@);
    if prefix.len() > n - 3 {
        return false;
    }
    let mut i: usize = 0;
    while i < prefix.len()
        invariant
            v@ == name@,
            name@ == crate::ops::file_name_of(path@),
            prefix@.len() <= v@.len() - 3,
            i <= prefix@.len(),
            forall|j: int| 0 <= j < i ==> v@[j] == prefix@[j],
        decreases prefix@.len() - i,
    {
        if v[i] != prefix[i] {
            proof {
                let t = name@.take(prefix@.len() as int);
                assert(t[i as int] == v@[i as int]);
                if t == prefix@ {
                    assert(t[i as int] == prefix@[i as int]);
                }
            }
            return false;
        }
        i += 1;
    }
    assert(name@.take(prefix@.len() as int) =~= prefix@);
    true
}

impl Journal {
    /// The one entry file among `paths` whose name starts with the
    /// identifier prefix `id_prefix`: none is an error, several are
    /// ambiguous.  `paths` are the files of the entries root and of its
    /// year directories.
    pub fn find_entry_by_id_in(paths: &Vec<String>, id_prefix: &str) -> (res: Result<String, crate::error::Error>)
        ensures
            ({
                let m = prefix_matches(paths@, id_prefix@, paths@.len() as int);
                &&& m.len() == 0 ==> (res matches Err(crate::error::Error::EntryNotFound(p)) && p@ == id_prefix@)
                &&& m.len() == 1 ==> (res matches Ok(found) && found@ == m[0])
                &&& m.len() > 1 ==> (res matches Err(crate::error::Error::AmbiguousId(p, k)) && p@ == id_prefix@
                    && k == m.len())
            }),
    {
        let prefix = chars_of(id_prefix);
        let mut found: Vec<String> = Vec::new();
        let mut i: usize = 0;
        while i < paths.len()
            invariant
                i <= paths@.len(),
                prefix@ == id_prefix@,
                texts_of(found@) == prefix_matches(paths@, id_prefix@, i as int),
            decreases paths@.len() - i,
        {
            if matches_prefix(paths[i].as_str(), &prefix) {
                let ghost before = found@;
                found.push(paths[i].clone());
                assert(texts_of(found@) =~= texts_of(before).push(paths@[i as int]@));
            }
            i += 1;
        }
        let n = found.len();
        assert(texts_of(found@).len() == n);
        if n == 0 {
            Err(crate::error::Error::EntryNotFound(crate::text::owned(id_prefix)))
        } else if n == 1 {
            assert(texts_of(found@)[0] == found@[0]@);
            Ok(found.remove(0))
        } else {
            Err(crate::error::Error::AmbiguousId(crate::text::owned(id_prefix), n as u64))
        }
    }
}

/// A directory directly under the entries root holds entries of one year
/// when its name is all ASCII digits and does not start with `.`.
pub open spec fn is_year_dir(name: Seq<char>) -> bool {
    !(name.len() > 0 && name[0] == '.') && forall|i: int| 0 <= i < name.len() ==> '0' <= #[trigger] name[i] <= '9'
}

/// Whether a directory name is a year directory.
pub fn is_year_dir_name(name: &str) -> (res: bool)
    ensures
        res == is_year_dir(name@),
{
    let v = chars_of(name);
    if v.len() > 0 && v[0] == '.' {
        return false;
    }
    let mut i: usize = 0;
    while i < v.len()
        invariant
            v@ == name@,
            i <= v@.len(),
            forall|j: int| 0 <= j < i ==> '0' <= #[trigger] v@[j] <= '9',
        decreases v@.len() - i,
    {
        if !('0' <= v[i] && v[i] <= '9') {
            return false;
        }
        i += 1;
    }
    true
}

/// Whether a file name has the extension `md` (`Path::extension`): a name
/// like `.md` is hidden, with no extension.
pub fn is_markdown_name(name: &str) -> (res: bool)
    ensures
        res == (name@.len() >= 4 && name@.subrange(name@.len() - 3, name@.len() as int) == ".md"@),
{
    let v = chars_of(name);
    let n = v.len();
    proof {
        reveal_strlit(".md");
        assert(".md"@ =~= seq!['.', 'm', 'd']);
        if n >= 4 {
            let t = name@.subrange(n - 3, n as int);
            assert(t =~= seq![v@[n - 3], v@[n - 2], v@[n - 1]]);
            if t == ".md"@ {
                assert(t[0] == '.' && t[1] == 'm' && t[2] == 'd');
            }
        }
    }
    n >= 4 && v[n - 3] == '.' && v[n - 2] == 'm' && v[n - 1] == 'd'
}


/// The path of a new entry created now: `{year}/{id}_{slug}.md` with the
/// current year and an identifier from the current time.
pub fn new_entry_path(title: &str) -> (res: (String, u64))
    ensures
        res.1 < ID_LIMIT,
        exists|year: i32| res.0@ == joined(crate::number::decimal_digits_signed(year as int), filename_for(res.1 as int, slug_of(title@))),
{
    let id = id_now();
    let year = crate::calendar::local_now().date.year;
    new_entry_path_at(title, year, id)
}

} // verus!
