//! References to one entry as typed on a command line: a path, an
//! identifier, or a title.

use vstd::prelude::*;

use crate::id::{is_id_text, id_value, parse_id};
use crate::text::{chars_of, has_char, owned, string_from_chars};

verus! {

/// A reference to a journal entry.
#[derive(Clone, Debug)]
pub enum EntryRef {
    /// A filesystem path to the entry file.
    Path(String),
    /// An entry identifier (given as `@` followed by its seven characters).
    Id(u64),
    /// An exact entry title (case-sensitive).
    Title(String),
}

/// How a string reads as an entry reference: `Id` for `@` followed by an
/// identifier of ASCII characters; else `Path` when it contains `/` or `\`,
/// starts with `.` or `~`, or ends with `.md`; else `Title`.
pub open spec fn ref_kind(s: Seq<char>) -> (int, u64) {
    if s.len() > 0 && s[0] == '@' && is_id_text(s.drop_first()) {
        (0, id_value(s.drop_first()) as u64)
    } else if has_char(s, '/') || has_char(s, '\\') || (s.len() > 0 && (s[0] == '.' || s[0] == '~'))
        || (s.len() >= 3 && s.subrange(s.len() - 3, s.len() as int) == ".md"@) {
        (1, 0)
    } else {
        (2, 0)
    }
}

impl EntryRef {
    pub open spec fn matches_text(self, s: Seq<char>) -> bool {
        let (kind, id) = ref_kind(s);
        match self {
            EntryRef::Id(v) => kind == 0 && v == id,
            EntryRef::Path(p) => kind == 1 && p@ == s,
            EntryRef::Title(t) => kind == 2 && t@ == s,
        }
    }

    /// Classify a raw string as an identifier, a path, or a title.
    pub fn parse(s: &str) -> (res: EntryRef)
        ensures
            res.matches_text(s@),
    {
        let v = chars_of(s);
        proof {
            reveal_strlit(".md");
        }
        if v.len() > 0 && v[0] == '@' {
            let rest = string_from_chars(&v[1..v.len()]);
            assert(rest@ =~= s@.drop_first());
            let mut ascii = true;
            let mut i: usize = 1;
            while i < v.len()
                invariant
                    1 <= i <= v@.len(),
                    ascii == forall|j: int| 1 <= j < i ==> v@[j] < '\u{80}',
                decreases v@.len() - i,
            {
                if v[i] >= '\u{80}' {
                    ascii = false;
                }
                i += 1;
            }
            if ascii {
                if let Some(id) = parse_id(rest.as_str()) {
                    return EntryRef::Id(id);
                }
            } else {
                proof {
                    // Every identifier character is ASCII.
                    let j = choose|j: int| 1 <= j < v@.len() && !(v@[j] < '\u{80}');
                    assert(crate::id::id_digit(s@.drop_first()[j - 1]) < 0);
                }
            }
        }
        let n = v.len();
        let is_path = crate::text::find_char(&v, '/').is_some() || crate::text::find_char(&v, '\\').is_some()
            || (n > 0 && (v[0] == '.' || v[0] == '~')) || (n >= 3 && v[n - 3] == '.' && v[n - 2] == 'm'
            && v[n - 1] == 'd');
        proof {
            assert(".md"@ =~= seq!['.', 'm', 'd']);
            if n >= 3 {
                let tail = s@.subrange(n - 3, n as int);
                assert(tail =~= seq![v@[n - 3], v@[n - 2], v@[n - 1]]);
                if tail == ".md"@ {
                    assert(tail[0] == '.' && tail[1] == 'm' && tail[2] == 'd');
                }
            }
        }
        if is_path {
            EntryRef::Path(owned(s))
        } else {
            EntryRef::Title(owned(s))
        }
    }
}


/// `@` followed by an identifier's text refers to that identifier: it reads
/// as nothing but `EntryRef::Id` of it.
pub proof fn lemma_id_ref_round_trip(v: u64)
    requires
        v < crate::id::ID_LIMIT,
    ensures
        ref_kind(seq!['@'] + crate::id::id_text(v as int)) == (0int, v),
        EntryRef::Id(v).matches_text(seq!['@'] + crate::id::id_text(v as int)),
        forall|r: EntryRef| #[trigger] r.matches_text(seq!['@'] + crate::id::id_text(v as int)) ==> r == EntryRef::Id(v),
{
    crate::id::lemma_id_text_round_trip(v as int);
    let s = seq!['@'] + crate::id::id_text(v as int);
    assert(s.drop_first() =~= crate::id::id_text(v as int));
    assert(s[0] == '@');
}
} // verus!
