//! The framing of an entry file: a `---` fenced YAML frontmatter block
//! followed by the Markdown body.  The YAML itself is read and written by
//! `serde_yaml` around this library.

use vstd::prelude::*;

use crate::text::{chars_of, concat, owned, string_from_chars};

verus! {

/// Why a file is not an entry.
#[derive(Clone, Debug, PartialEq, Eq, Structural)]
pub enum FrameError {
    /// The file does not start with a `---` line.
    MissingFrontmatter,
    /// No closing `---` line follows the opening one.
    Unclosed,
}

impl FrameError {
    pub open spec fn text(self) -> Seq<char> {
        match self {
            FrameError::MissingFrontmatter => "missing frontmatter block"@,
            FrameError::Unclosed => "frontmatter block is not closed"@,
        }
    }

    /// The message of the error.
    pub fn message(&self) -> (res: String)
        ensures
            res@ == self.text(),
    {
        match self {
            FrameError::MissingFrontmatter => owned("missing frontmatter block"),
            FrameError::Unclosed => owned("frontmatter block is not closed"),
        }
    }
}

/// `s` without its trailing `\n` and `\r` characters.
pub open spec fn trim_newlines_end(s: Seq<char>) -> Seq<char>
    decreases s.len(),
{
    if s.len() > 0 && (s.last() == '\n' || s.last() == '\r') {
        trim_newlines_end(s.drop_last())
    } else {
        s
    }
}

/// `s` without its leading `\n` and `\r` characters.
pub open spec fn trim_newlines_start(s: Seq<char>) -> Seq<char>
    decreases s.len(),
{
    if s.len() > 0 && (s[0] == '\n' || s[0] == '\r') {
        trim_newlines_start(s.drop_first())
    } else {
        s
    }
}

/// The end of the line starting at `o`: just past its `\n`, or the end of
/// the text.
pub open spec fn line_end(r: Seq<char>, o: int) -> int
    decreases r.len() - o,
{
    if o >= r.len() {
        r.len() as int
    } else if r[o] == '\n' {
        o + 1
    } else {
        line_end(r, o + 1)
    }
}

/// A line starts at `o`.
pub open spec fn line_start(r: Seq<char>, o: int) -> bool {
    0 <= o < r.len() && (o == 0 || r[o - 1] == '\n')
}

/// The line starting at `o` is a fence: `---` apart from line endings.
pub open spec fn fence_at(r: Seq<char>, o: int) -> bool {
    line_start(r, o) && trim_newlines_end(r.subrange(o, line_end(r, o))) == "---"@
}

/// The first fence line starts at `o`.
pub open spec fn first_fence(r: Seq<char>, o: int) -> bool {
    fence_at(r, o) && forall|p: int| 0 <= p < o ==> !#[trigger] fence_at(r, p)
}

/// The text after the opening fence line, if the source opens with one.
pub open spec fn after_opening(source: Seq<char>) -> Option<Seq<char>> {
    if source.len() >= 4 && source.take(3) == "---"@ && source[3] == '\n' {
        Some(source.skip(4))
    } else if source.len() >= 5 && source.take(3) == "---"@ && source[3] == '\r' && source[4] == '\n' {
        Some(source.skip(5))
    } else {
        None
    }
}

/// How the text after the opening fence splits at the first closing fence.
pub open spec fn frame_rest(rest: Seq<char>) -> Result<(Seq<char>, Seq<char>), FrameError> {
    if exists|o: int| first_fence(rest, o) {
        let o = choose|o: int| first_fence(rest, o);
        Ok((rest.take(o), trim_newlines_start(rest.skip(line_end(rest, o)))))
    } else {
        Err(FrameError::Unclosed)
    }
}

/// How an entry file splits into its YAML block and its body (leading blank
/// line characters removed from the body).
pub open spec fn frame_of(source: Seq<char>) -> Result<(Seq<char>, Seq<char>), FrameError> {
    match after_opening(source) {
        None => Err(FrameError::MissingFrontmatter),
        Some(rest) => frame_rest(rest),
    }
}

proof fn lemma_line_end(r: Seq<char>, o: int)
    requires
        0 <= o <= r.len(),
    ensures
        o < line_end(r, o) <= r.len() || (o == r.len() && line_end(r, o) == r.len()),
        forall|k: int| o <= k < line_end(r, o) - 1 ==> r[k] != '\n',
        line_end(r, o) < r.len() ==> r[line_end(r, o) - 1] == '\n',
        line_end(r, o) == r.len() && o < r.len() ==> (r.last() == '\n' || forall|k: int|
            o <= k < r.len() ==> r[k] != '\n'),
    decreases r.len() - o,
{
    if o < r.len() && r[o] != '\n' {
        lemma_line_end(r, o + 1);
    }
}

proof fn lemma_fence_unique(r: Seq<char>, o: int, p: int)
    requires
        first_fence(r, o),
        first_fence(r, p),
    ensures
        o == p,
{
    if o < p {
        assert(!fence_at(r, o));
    } else if p < o {
        assert(!fence_at(r, p));
    }
}

/// Index just past the line starting at `o`.
fn line_end_exec(v: &Vec<char>, o: usize) -> (res: usize)
    requires
        o <= v@.len(),
    ensures
        res == line_end(v@, o as int),
{
    let mut k = o;
    while k < v.len() && v[k] != '\n'
        invariant
            o <= k <= v@.len(),
            line_end(v@, o as int) == line_end(v@, k as int),
        decreases v@.len() - k,
    {
        k += 1;
    }
    if k < v.len() {
        k + 1
    } else {
        k
    }
}

/// The line `v[o..e]` is `---` apart from trailing line endings.
fn is_fence_line(v: &Vec<char>, o: usize, e: usize) -> (res: bool)
    requires
        o <= e <= v@.len(),
    ensures
        res == (trim_newlines_end(v@.subrange(o as int, e as int)) == "---"@),
{
    let mut k = e;
    while k > o && (v[k - 1] == '\n' || v[k - 1] == '\r')
        invariant
            o <= k <= e,
            e <= v@.len(),
            trim_newlines_end(v@.subrange(o as int, e as int)) == trim_newlines_end(
                v@.subrange(o as int, k as int),
            ),
        decreases k,
    {
        assert(v@.subrange(o as int, k as int).drop_last() =~= v@.subrange(o as int, k - 1));
        k -= 1;
    }
    proof {
        reveal_strlit("---");
        assert("---"@ =~= seq!['-', '-', '-']);
        let t = v@.subrange(o as int, k as int);
        assert(trim_newlines_end(t) == t);
        if k - o == 3 {
            assert(t =~= seq![v@[o as int], v@[o + 1], v@[o + 2]]);
        }
        if t == "---"@ {
            assert(t.len() == 3 && t[0] == '-' && t[1] == '-' && t[2] == '-');
        }
    }
    k - o == 3 && v[o] == '-' && v[o + 1] == '-' && v[o + 2] == '-'
}

fn trim_start_index(v: &Vec<char>, from: usize) -> (res: usize)
    requires
        from <= v@.len(),
    ensures
        from <= res <= v@.len(),
        v@.subrange(res as int, v@.len() as int) == trim_newlines_start(v@.subrange(from as int, v@.len() as int)),
{
    let mut k = from;
    while k < v.len() && (v[k] == '\n' || v[k] == '\r')
        invariant
            from <= k <= v@.len(),
            trim_newlines_start(v@.subrange(from as int, v@.len() as int)) == trim_newlines_start(
                v@.subrange(k as int, v@.len() as int),
            ),
        decreases v@.len() - k,
    {
        assert(v@.subrange(k as int, v@.len() as int).drop_first() =~= v@.subrange(k + 1, v@.len() as int));
        k += 1;
    }
    k
}

/// Split an entry file into its YAML frontmatter text and its body.
///
/// The file must open with a `---` line (LF or CRLF); the block ends at the
/// first line that reads `---` apart from its line ending.  Blank-line
/// characters at the start of the body are dropped.
pub fn split_frontmatter(source: &str) -> (res: Result<(String, String), FrameError>)
    ensures
        match res {
            Ok((yaml, body)) => frame_of(source@) == Ok::<(Seq<char>, Seq<char>), FrameError>(
                (yaml@, body@),
            ),
            Err(e) => frame_of(source@) == Err::<(Seq<char>, Seq<char>), FrameError>(e),
        },
{
    let mut s = chars_of(source);
    proof {
        reveal_strlit("---");
    }
    let n = s.len();
    let opened = n >= 3 && s[0] == '-' && s[1] == '-' && s[2] == '-';
    proof {
        if n >= 3 {
            assert("---"@ =~= seq!['-', '-', '-']);
            assert(s@.take(3) =~= seq![s@[0], s@[1], s@[2]]);
            if s@.take(3) == "---"@ {
                assert(s@.take(3)[0] == '-' && s@.take(3)[1] == '-' && s@.take(3)[2] == '-');
            }
        }
    }
    let start = if opened && n >= 4 && s[3] == '\n' {
        4
    } else if opened && n >= 5 && s[3] == '\r' && s[4] == '\n' {
        5
    } else {
        return Err(FrameError::MissingFrontmatter);
    };
    let rest_v: Vec<char> = s.split_off(start);
    let ghost rest = source@.skip(start as int);
    assert(rest_v@ =~= rest);
    assert(after_opening(source@) == Some(rest));
    let m = rest_v.len();
    let mut o: usize = 0;
    while o < m
        invariant
            m == rest_v@.len(),
            rest_v@ == rest,
            o <= m,
            o == 0 || o == m || rest[o - 1] == '\n',
            after_opening(source@) == Some(rest),
            forall|p: int| 0 <= p < o ==> !#[trigger] fence_at(rest, p),
        decreases m - o,
    {
        let e = line_end_exec(&rest_v, o);
        proof {
            lemma_line_end(rest, o as int);
        }
        if is_fence_line(&rest_v, o, e) {
            assert(first_fence(rest, o as int));
            let yaml = string_from_chars(&rest_v[0..o]);
            let b = trim_start_index(&rest_v, e);
            let body = string_from_chars(&rest_v[b..m]);
            assert(yaml@ =~= rest.take(o as int));
            assert(rest.skip(e as int) =~= rest.subrange(e as int, m as int));
            assert(body@ == trim_newlines_start(rest.skip(e as int)));
            proof {
                let here = o as int;
                assert(exists|o: int| first_fence(rest, o));
                let c = choose|o: int| first_fence(rest, o);
                lemma_fence_unique(rest, here, c);
                assert(frame_rest(rest) == Ok::<(Seq<char>, Seq<char>), FrameError>(
                    (rest.take(c), trim_newlines_start(rest.skip(line_end(rest, c)))),
                ));
            }
            return Ok((yaml, body));
        }
        proof {
            assert forall|p: int| 0 <= p < e implies !#[trigger] fence_at(rest, p) by {
                if o < p < e {
                    assert(rest[p - 1] != '\n');
                }
            }
        }
        o = e;
    }
    proof {
        assert(!exists|c: int| first_fence(rest, c)) by {
            if exists|c: int| first_fence(rest, c) {
                let c = choose|c: int| first_fence(rest, c);
                assert(fence_at(rest, c));
            }
        }
    }
    Err(FrameError::Unclosed)
}

/// The text of an entry file with YAML block `yaml` and body `body`.
pub open spec fn framed(yaml: Seq<char>, body: Seq<char>) -> Seq<char> {
    "---\n"@ + yaml + "---\n"@ + (if body.len() > 0 {
        "\n"@
    } else {
        seq![]
    }) + body
}

/// Write an entry file from its YAML block and its body: the block between
/// `---` lines, then a blank line and the body when there is one.
pub fn render_frame(yaml: &str, body: &str) -> (res: String)
    ensures
        res@ == framed(yaml@, body@),
{
    let head = concat(&concat("---\n", yaml), "---\n");
    if body.is_empty() {
        proof {
            assert(framed(yaml@, body@) =~= head@);
        }
        head
    } else {
        let r = concat(&concat(head.as_str(), "\n"), body);
        proof {
            assert(framed(yaml@, body@) =~= r@);
        }
        r
    }
}


proof fn lemma_line_end_prefix(y: Seq<char>, t: Seq<char>, o: int)
    requires
        0 <= o < y.len(),
        y.last() == '\n',
    ensures
        line_end(y + t, o) == line_end(y, o),
        o < line_end(y, o) <= y.len(),
    decreases y.len() - o,
{
    let r = y + t;
    assert(r[o] == y[o]);
    if y[o] != '\n' {
        assert(o + 1 < y.len());
        lemma_line_end_prefix(y, t, o + 1);
    }
}

/// Reading back a written entry file gives its YAML block and body again,
/// when the block ends with a line break and has no line of its own reading
/// `---`, and the body does not start with a line break (the reader drops
/// blank lines there).
pub proof fn lemma_frame_roundtrip(yaml: Seq<char>, body: Seq<char>)
    requires
        yaml.len() == 0 || yaml.last() == '\n',
        forall|o: int|
            line_start(yaml, o) ==> trim_newlines_end(#[trigger] yaml.subrange(o, line_end(yaml, o))) != "---"@,
        body.len() == 0 || (body[0] != '\n' && body[0] != '\r'),
    ensures
        frame_of(framed(yaml, body)) == Ok::<(Seq<char>, Seq<char>), FrameError>((yaml, body)),
{
    reveal_strlit("---\n");
    reveal_strlit("---");
    reveal_strlit("\n");
    let sep: Seq<char> = if body.len() > 0 {
        "\n"@
    } else {
        seq![]
    };
    let tail = "---\n"@ + sep + body;
    let rest = yaml + tail;
    let source = framed(yaml, body);
    assert(source =~= "---\n"@ + rest);
    assert(source.take(3) =~= "---"@);
    assert(source.skip(4) =~= rest);
    assert(after_opening(source) == Some(rest));
    let n = yaml.len() as int;
    // The fence line right after the block.
    assert(rest[n] == '-' && rest[n + 1] == '-' && rest[n + 2] == '-' && rest[n + 3] == '\n');
    assert(line_end(rest, n + 3) == n + 4);
    assert(line_end(rest, n + 2) == n + 4);
    assert(line_end(rest, n + 1) == n + 4);
    assert(line_end(rest, n) == n + 4);
    let fence_line = rest.subrange(n, n + 4);
    assert(fence_line =~= seq!['-', '-', '-', '\n']);
    assert(fence_line.drop_last() =~= "---"@);
    assert(trim_newlines_end(fence_line.drop_last()) == fence_line.drop_last());
    assert(fence_at(rest, n));
    assert forall|p: int| 0 <= p < n implies !#[trigger] fence_at(rest, p) by {
        if line_start(rest, p) {
            lemma_line_end_prefix(yaml, tail, p);
            assert(line_start(yaml, p));
            assert(rest.subrange(p, line_end(rest, p)) =~= yaml.subrange(p, line_end(yaml, p)));
        }
    }
    assert(first_fence(rest, n));
    let c = choose|o: int| first_fence(rest, o);
    lemma_fence_unique(rest, n, c);
    assert(rest.take(n) =~= yaml);
    assert(rest.skip(n + 4) =~= sep + body);
    assert(trim_newlines_start(body) == body);
    if body.len() > 0 {
        assert((sep + body)[0] == '\n');
        assert((sep + body).drop_first() =~= body);
        assert(trim_newlines_start(sep + body) == trim_newlines_start((sep + body).drop_first()));
    } else {
        assert(sep + body =~= body);
    }
    assert(frame_rest(rest) == Ok::<(Seq<char>, Seq<char>), FrameError>(
        (rest.take(c), trim_newlines_start(rest.skip(line_end(rest, c)))),
    ));
}


// ── files that may lack a frontmatter block ─────────────────────────────────

/// `s` without its leading `\n` characters.
pub open spec fn trim_lf_start(s: Seq<char>) -> Seq<char>
    decreases s.len(),
{
    if s.len() > 0 && s[0] == '\n' {
        trim_lf_start(s.drop_first())
    } else {
        s
    }
}

/// How a file that may lack a frontmatter block splits: none when it does
/// not start with a `---` line (the whole text is the body), else the YAML
/// up to the first `\n---` and the body after it, leading `\n` removed.
pub open spec fn optional_frame_of(source: Seq<char>) -> Result<Option<(Seq<char>, Seq<char>)>, FrameError> {
    if !(source.len() >= 4 && source.take(4) == "---\n"@) {
        Ok(None)
    } else {
        let rest = source.skip(4);
        if crate::text::contains_seq(rest, "\n---"@) {
            let e = choose|e: int| crate::text::first_occurrence(rest, "\n---"@, e);
            Ok(Some((rest.take(e), trim_lf_start(rest.skip(e + 4)))))
        } else {
            Err(FrameError::Unclosed)
        }
    }
}

fn trim_lf_index(v: &Vec<char>, from: usize) -> (res: usize)
    requires
        from <= v@.len(),
    ensures
        from <= res <= v@.len(),
        v@.skip(res as int) == trim_lf_start(v@.skip(from as int)),
    decreases v@.len() - from,
{
    if from < v.len() && v[from] == '\n' {
        assert(v@.skip(from as int).drop_first() =~= v@.skip(from + 1));
        trim_lf_index(v, from + 1)
    } else {
        from
    }
}

fn sub_chars(v: &Vec<char>, from: usize, to: usize) -> (res: Vec<char>)
    requires
        from <= to <= v@.len(),
    ensures
        res@ == v@.subrange(from as int, to as int),
{
    let mut out: Vec<char> = Vec::new();
    let mut i = from;
    while i < to
        invariant
            from <= i <= to <= v@.len(),
            out@ == v@.subrange(from as int, i as int),
        decreases to - i,
    {
        out.push(v[i]);
        assert(out@ =~= v@.subrange(from as int, i + 1));
        i += 1;
    }
    out
}

/// Split a file that may lack a frontmatter block: `Ok(None)` when it has
/// none, else its YAML block and body.
pub fn split_optional_frontmatter(source: &str) -> (res: Result<Option<(String, String)>, FrameError>)
    ensures
        match res {
            Ok(None) => optional_frame_of(source@) == Ok::<Option<(Seq<char>, Seq<char>)>, FrameError>(None),
            Ok(Some((y, b))) => optional_frame_of(source@) == Ok::<Option<(Seq<char>, Seq<char>)>, FrameError>(
                Some((y@, b@)),
            ),
            Err(e) => optional_frame_of(source@) == Err::<Option<(Seq<char>, Seq<char>)>, FrameError>(e),
        },
{
    proof {
        reveal_strlit("---\n");
        reveal_strlit("\n---");
    }
    let v = chars_of(source);
    let n = v.len();
    let opens = n >= 4 && v[0] == '-' && v[1] == '-' && v[2] == '-' && v[3] == '\n';
    proof {
        assert("---\n"@ =~= seq!['-', '-', '-', '\n']);
        if n >= 4 {
            let t = source@.take(4);
            assert(t =~= seq![v@[0], v@[1], v@[2], v@[3]]);
            if t == "---\n"@ {
                assert(t[0] == '-' && t[1] == '-' && t[2] == '-' && t[3] == '\n');
            }
        }
    }
    if !opens {
        return Ok(None);
    }
    let rest_v: Vec<char> = sub_chars(&v, 4, n);
    assert(rest_v@ =~= source@.skip(4));
    let needle = chars_of("\n---");
    match crate::text::find_seq(&rest_v, &needle) {
        None => Err(FrameError::Unclosed),
        Some(e) => {
            proof {
                let c = choose|c: int| crate::text::first_occurrence(rest_v@, "\n---"@, c);
                assert(crate::text::first_occurrence(rest_v@, "\n---"@, c));
                if c < e {
                    assert(!crate::text::occurs_at(rest_v@, "\n---"@, c));
                }
                if e < c {
                    assert(!crate::text::occurs_at(rest_v@, "\n---"@, e as int));
                }
                assert(c == e);
                assert(needle@.len() == 4);
            }
            let yaml = string_from_chars(&rest_v[0..e]);
            let b = trim_lf_index(&rest_v, e + 4);
            let body = string_from_chars(&rest_v[b..rest_v.len()]);
            assert(yaml@ =~= rest_v@.take(e as int));
            assert(body@ =~= rest_v@.skip(b as int));
            Ok(Some((yaml, body)))
        },
    }
}

/// The bytes taken by a character in UTF-8.
pub open spec fn utf8_len(c: char) -> int {
    if (c as int) < 0x80 {
        1
    } else if (c as int) < 0x800 {
        2
    } else if (c as int) < 0x10000 {
        3
    } else {
        4
    }
}

/// The bytes taken by the first `n` characters of `s` in UTF-8.
pub open spec fn utf8_bytes(s: Seq<char>, n: int) -> int
    decreases n,
{
    if n <= 0 {
        0
    } else {
        utf8_bytes(s, n - 1) + utf8_len(s[n - 1])
    }
}

/// The stem of a file name (`Path::file_stem`): the name before its last
/// `.`, unless that `.` starts the name or the name is `..`.
pub open spec fn stem_of(name: Seq<char>) -> Seq<char> {
    if name == ".."@ || !crate::text::has_char(name, '.') {
        name
    } else {
        let i = choose|i: int| 0 <= i < name.len() && name[i] == '.' && forall|j: int| i < j < name.len() ==> name[j] != '.';
        if i == 0 {
            name
        } else {
            name.take(i)
        }
    }
}

/// The first seven bytes of the stem end a character when some number of
/// its characters takes exactly seven bytes; all are ASCII when that number
/// is seven.
pub open spec fn seven_byte_chars(stem: Seq<char>) -> Option<int> {
    if exists|k: int| 0 <= k <= stem.len() && utf8_bytes(stem, k) == 7 {
        Some(choose|k: int| 0 <= k <= stem.len() && utf8_bytes(stem, k) == 7)
    } else {
        None
    }
}

/// The identifier at the start of a file name: the stem's first seven bytes
/// read as one, when they are seven characters of the alphabet.
pub open spec fn name_id(name: Seq<char>) -> Option<u64> {
    match seven_byte_chars(stem_of(name)) {
        Some(k) => if k == 7 && crate::id::is_id_text(stem_of(name).take(7)) {
            Some(crate::id::id_value(stem_of(name).take(7)) as u64)
        } else {
            None
        },
        None => None,
    }
}

proof fn lemma_utf8_bytes_grow(s: Seq<char>, a: int, b: int)
    requires
        0 <= a <= b <= s.len(),
    ensures
        utf8_bytes(s, a) + (b - a) <= utf8_bytes(s, b),
        a < b ==> utf8_bytes(s, a) < utf8_bytes(s, b),
    decreases b - a,
{
    if a < b {
        lemma_utf8_bytes_grow(s, a, b - 1);
    }
}

/// Characters that fit seven bytes in seven characters take one byte each.
proof fn lemma_ascii_prefix(s: Seq<char>, i: int)
    requires
        7 <= s.len(),
        utf8_bytes(s, 7) == 7,
        0 <= i < 7,
    ensures
        (s[i] as int) < 0x80,
{
    lemma_utf8_bytes_grow(s, 0, i);
    lemma_utf8_bytes_grow(s, i + 1, 7);
    assert(utf8_bytes(s, i + 1) == utf8_bytes(s, i) + utf8_len(s[i]));
}

fn char_utf8_len(c: char) -> (res: usize)
    ensures
        res == utf8_len(c),
{
    let u = c as u32;
    if u < 0x80 {
        1
    } else if u < 0x800 {
        2
    } else if u < 0x10000 {
        3
    } else {
        4
    }
}

/// The stem of a file name, as [`stem_of`] says.
pub(crate) fn stem(name: &Vec<char>) -> (res: Vec<char>)
    ensures
        res@ == stem_of(name@),
{
    proof {
        reveal_strlit("..");
        assert(".."@ =~= seq!['.', '.']);
    }
    let n = name.len();
    if n == 2 && name[0] == '.' && name[1] == '.' {
        assert(name@ =~= ".."@);
        return name.clone();
    }
    assert(name@ != ".."@) by {
        if name@ == ".."@ {
            assert(name@.len() == 2);
            assert(name@[0] == '.' && name@[1] == '.');
        }
    }
    let mut i = n;
    while i > 0
        invariant
            i <= n == name@.len(),
            name@ != ".."@,
            forall|j: int| i <= j < n ==> name@[j] != '.',
        decreases i,
    {
        if name[i - 1] == '.' {
            let k = i - 1;
            proof {
                let c = choose|c: int| 0 <= c < name@.len() && name@[c] == '.' && forall|j: int|
                    c < j < name@.len() ==> name@[j] != '.';
                if c < k {
                    assert(name@[k as int] != '.');
                }
                if c > k {
                    assert(name@[c] != '.');
                }
                assert(c == k);
            }
            assert(crate::text::has_char(name@, '.')) by {
                assert(name@[k as int] == '.');
            }
            if k == 0 {
                return name.clone();
            }
            let r: Vec<char> = sub_chars(name, 0, k);
            assert(r@ =~= name@.take(k as int));
            return r;
        }
        i -= 1;
    }
    assert(!crate::text::has_char(name@, '.'));
    name.clone()
}

/// The identifier the file name `name` starts with, if its stem's first
/// seven bytes are one.
pub fn id_from_file_name(name: &str) -> (res: Option<u64>)
    requires
        !(seven_byte_chars(stem_of(name@)) matches Some(k) && k < 7),
    ensures
        res == name_id(name@),
{
    let st = stem(&chars_of(name));
    let mut k: usize = 0;
    let mut bytes: usize = 0;
    while k < st.len() && bytes < 7
        invariant
            k <= st@.len(),
            bytes == utf8_bytes(st@, k as int),
            bytes <= 10,
            forall|j: int| 0 <= j < k ==> utf8_bytes(st@, j) < 7,
        decreases st@.len() - k,
    {
        bytes = bytes + char_utf8_len(st[k]);
        k += 1;
    }
    proof {
        if bytes == 7 {
            assert(seven_byte_chars(st@) == Some(k as int)) by {
                assert forall|j: int| 0 <= j <= st@.len() && utf8_bytes(st@, j) == 7 implies j == k by {
                    if j < k {
                        assert(utf8_bytes(st@, j) < 7);
                    }
                    if j > k {
                        lemma_utf8_bytes_grow(st@, k as int, j);
                    }
                }
            }
        } else {
            assert forall|j: int| 0 <= j <= st@.len() implies utf8_bytes(st@, j) != 7 by {
                if j < k {
                    assert(utf8_bytes(st@, j) < 7);
                } else if j > k {
                    lemma_utf8_bytes_grow(st@, k as int, j);
                }
            }
        }
    }
    if bytes != 7 {
        return None;
    }
    proof {
        lemma_utf8_bytes_grow(st@, 0, k as int);
        assert(k == 7);
    }
    // Seven bytes in seven characters: all ASCII.
    let prefix: Vec<char> = sub_chars(&st, 0, 7);
    assert(prefix@ =~= st@.take(7));
    let text = string_from_chars(&prefix);
    proof {
        assert forall|i: int| 0 <= i < text@.len() implies (text@[i] as int) < 0x80 by {
            lemma_ascii_prefix(st@, i);
        }
    }
    crate::id::caretta_parse(text.as_str())
}

/// The frontmatter given to a file without a frontmatter block: the
/// identifier `id`, everything else empty, its times 1970-01-01 00:00:00.
pub open spec fn is_bare_frontmatter(fm: crate::entry::Frontmatter, id: u64) -> bool {
    &&& fm.id == id
    &&& fm.parent_id is None
    &&& fm.title@.len() == 0
    &&& fm.slug@.len() == 0
    &&& fm.tags@.len() == 0
    &&& fm.task is None
    &&& fm.event is None
    &&& fm.created_at == crate::cache::epoch()
    &&& fm.updated_at == crate::cache::epoch()
}

/// The frontmatter of a file without a frontmatter block: the identifier its
/// name starts with, everything else empty, its times 1970-01-01 00:00:00.
pub fn bare_frontmatter(name: &str) -> (res: Result<crate::entry::Frontmatter, crate::error::Error>)
    requires
        !(seven_byte_chars(stem_of(name@)) matches Some(k) && k < 7),
    ensures
        match name_id(name@) {
            Some(id) => res matches Ok(fm) && is_bare_frontmatter(fm, id),
            None => res matches Err(crate::error::Error::InvalidEntry(m)) && m@
                == "no frontmatter and filename does not contain a valid CarettaId"@,
        },
{
    proof {
        reveal_strlit("");
    }
    match id_from_file_name(name) {
        Some(id) => {
            let epoch = crate::datetime::DateTime {
                date: crate::datetime::Date { year: 1970, month: 1, day: 1 },
                hour: 0,
                minute: 0,
                second: 0,
                nano: 0,
            };
            Ok(
                crate::entry::Frontmatter {
                    id,
                    parent_id: None,
                    title: owned(""),
                    slug: owned(""),
                    created_at: epoch,
                    updated_at: epoch,
                    tags: Vec::new(),
                    task: None,
                    event: None,
                },
            )
        },
        None => Err(
            crate::error::Error::InvalidEntry(owned("no frontmatter and filename does not contain a valid CarettaId")),
        ),
    }
}
// ── entry files ──────────────────────────────────────────────────────────────

/// Whether a file's text opens a frontmatter block: it starts with `---`.
pub open spec fn opens_with_fence(s: Seq<char>) -> bool {
    s.len() >= 3 && s.take(3) == "---"@
}

/// Whether the identifier a file name starts with can be read: its stem's
/// first seven bytes do not end inside fewer than seven characters.
pub open spec fn name_readable(name: Seq<char>) -> bool {
    !(seven_byte_chars(stem_of(name)) matches Some(k) && k < 7)
}

/// An entry file's text, split before its YAML is read.
pub enum EntrySource {
    /// The file opens with a frontmatter block: its YAML and the body after it.
    Framed { yaml: String, body: String },
    /// The file has no frontmatter: the entry its name gives, the whole text
    /// its body.
    Bare(crate::entry::Entry),
}

/// How many of the stem's first characters take exactly seven bytes, if any
/// number does.
fn seven_byte_count(st: &Vec<char>) -> (res: Option<usize>)
    ensures
        res matches Some(k) ==> seven_byte_chars(st@) == Some(k as int),
        res is None ==> seven_byte_chars(st@) is None,
{
    let mut k: usize = 0;
    let mut bytes: usize = 0;
    while k < st.len() && bytes < 7
        invariant
            k <= st@.len(),
            bytes == utf8_bytes(st@, k as int),
            bytes <= 10,
            forall|j: int| 0 <= j < k ==> utf8_bytes(st@, j) < 7,
        decreases st@.len() - k,
    {
        bytes = bytes + char_utf8_len(st[k]);
        k += 1;
    }
    if bytes == 7 {
        proof {
            assert(seven_byte_chars(st@) == Some(k as int)) by {
                assert forall|j: int| 0 <= j <= st@.len() && utf8_bytes(st@, j) == 7 implies j == k by {
                    if j < k {
                        assert(utf8_bytes(st@, j) < 7);
                    }
                    if j > k {
                        lemma_utf8_bytes_grow(st@, k as int, j);
                    }
                }
            }
        }
        Some(k)
    } else {
        proof {
            assert forall|j: int| 0 <= j <= st@.len() implies utf8_bytes(st@, j) != 7 by {
                if j < k {
                    assert(utf8_bytes(st@, j) < 7);
                } else if j > k {
                    lemma_utf8_bytes_grow(st@, k as int, j);
                }
            }
        }
        None
    }
}

/// Whether the identifier at the start of the file name `name` can be read
/// (see [`name_readable`]).
pub fn is_readable_name(name: &str) -> (res: bool)
    ensures
        res == name_readable(name@),
{
    let st = stem(&chars_of(name));
    match seven_byte_count(&st) {
        Some(k) => k >= 7,
        None => true,
    }
}

/// Whether `source` starts with `---`.
fn opens_fence(source: &str) -> (res: bool)
    ensures
        res == opens_with_fence(source@),
{
    let v = chars_of(source);
    let opens = v.len() >= 3 && v[0] == '-' && v[1] == '-' && v[2] == '-';
    proof {
        reveal_strlit("---");
        assert("---"@ =~= seq!['-', '-', '-']);
        if v.len() >= 3 {
            assert(source@.take(3) =~= seq![v@[0], v@[1], v@[2]]);
        }
        if opens_with_fence(source@) {
            assert(source@.take(3)[0] == '-' && source@.take(3)[1] == '-' && source@.take(3)[2] == '-');
        }
    }
    opens
}

/// Split the text of the entry file at `path`.  Frontmatter is optional: a
/// text that starts with `---` must hold a closed block, which yields its
/// YAML and body; any other text is the body of an entry whose frontmatter
/// the file name gives.
pub fn read_entry_source(path: &str, source: &str) -> (res: Result<EntrySource, crate::error::Error>)
    requires
        !opens_with_fence(source@) ==> name_readable(crate::ops::file_name_of(path@)),
    ensures
        opens_with_fence(source@) ==> match frame_of(source@) {
            Ok((y, b)) => res matches Ok(EntrySource::Framed { yaml, body }) && yaml@ == y && body@ == b,
            Err(e) => res matches Err(crate::error::Error::InvalidEntry(m)) && m@ == e.text(),
        },
        !opens_with_fence(source@) ==> match name_id(crate::ops::file_name_of(path@)) {
            Some(id) => res matches Ok(EntrySource::Bare(entry)) && entry.path@ == path@ && entry.body@
                == source@ && is_bare_frontmatter(entry.frontmatter, id),
            None => res matches Err(crate::error::Error::InvalidEntry(m)) && m@
                == "no frontmatter and filename does not contain a valid CarettaId"@,
        },
{
    let opens = opens_fence(source);
    if opens {
        match split_frontmatter(source) {
            Ok((yaml, body)) => Ok(EntrySource::Framed { yaml, body }),
            Err(e) => Err(crate::error::Error::InvalidEntry(e.message())),
        }
    } else {
        let name = crate::ops::file_name(path);
        match bare_frontmatter(name.as_str()) {
            Ok(fm) => Ok(EntrySource::Bare(crate::entry::Entry { path: owned(path), frontmatter: fm, body: owned(source) })),
            Err(e) => Err(e),
        }
    }
}

// ── file stems ───────────────────────────────────────────────────────────────

/// A path without the `/` and final `.` components it ends with, which do
/// not name a file.
pub open spec fn trim_path_tail(p: Seq<char>) -> Seq<char>
    decreases p.len(),
{
    if p.len() > 0 && p.last() == '/' {
        trim_path_tail(p.drop_last())
    } else if p.len() >= 2 && p.last() == '.' && p[p.len() - 2] == '/' {
        trim_path_tail(p.drop_last())
    } else {
        p
    }
}

/// The stem of the file a path names (`Path::file_stem`): the stem of its
/// last component, none when the path names no file (empty, `.` or `..`).
pub open spec fn path_stem(path: Seq<char>) -> Option<Seq<char>> {
    let name = crate::ops::file_name_of(trim_path_tail(path));
    if name.len() == 0 || name == "."@ || name == ".."@ {
        None
    } else {
        Some(stem_of(name))
    }
}

/// The stem of the file `path` names, as [`path_stem`] says.
pub fn file_stem(path: &str) -> (res: Option<String>)
    ensures
        match res {
            Some(st) => path_stem(path@) == Some(st@),
            None => path_stem(path@) is None,
        },
{
    proof {
        reveal_strlit(".");
        reveal_strlit("..");
        assert("."@ =~= seq!['.']);
        assert(".."@ =~= seq!['.', '.']);
    }
    let v = chars_of(path);
    let mut e = v.len();
    proof {
        assert(v@.take(e as int) =~= v@);
    }
    while e > 0 && (v[e - 1] == '/' || (e >= 2 && v[e - 1] == '.' && v[e - 2] == '/'))
        invariant
            e <= v@.len(),
            trim_path_tail(v@.take(e as int)) == trim_path_tail(path@),
            v@ == path@,
        decreases e,
    {
        proof {
            let t = v@.take(e as int);
            assert(t.drop_last() =~= v@.take(e - 1));
            assert(t.last() == v@[e - 1]);
            if e >= 2 {
                assert(t[t.len() - 2] == v@[e - 2]);
            }
        }
        e -= 1;
    }
    let ghost t = v@.take(e as int);
    proof {
        if t.len() > 0 {
            assert(t.last() == v@[e - 1]);
        }
        if t.len() >= 2 {
            assert(t[t.len() - 2] == v@[e - 2]);
        }
        assert(trim_path_tail(t) == t);
    }
    let trimmed = string_from_chars(&v[0..e]);
    assert(trimmed@ =~= t);
    let name = crate::ops::file_name(trimmed.as_str());
    let nv = chars_of(name.as_str());
    let n = nv.len();
    let dot = n == 1 && nv[0] == '.';
    let dotdot = n == 2 && nv[0] == '.' && nv[1] == '.';
    proof {
        if name@ == "."@ {
            assert(name@[0] == '.');
        }
        if name@ == ".."@ {
            assert(name@[0] == '.' && name@[1] == '.');
        }
        if dot {
            assert(name@ =~= "."@);
        }
        if dotdot {
            assert(name@ =~= ".."@);
        }
    }
    if n == 0 || dot || dotdot {
        None
    } else {
        let st = stem(&nv);
        Some(string_from_chars(st.as_slice()))
    }
}

} // verus!
