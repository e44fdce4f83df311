//! The entry files of a journal: the `.md` files of the entries root and of
//! its year directories, in path order.  The directory listings are read
//! around this library; which names are entries, and their order, are decided
//! here.

use vstd::prelude::*;

use crate::journal::{is_markdown_name, is_year_dir, is_year_dir_name, join_path, joined, Journal, JournalConfig};
use crate::order::{compare_text, lemma_text_order, text_order};
use crate::text::owned;

verus! {

broadcast use vstd::seq_lib::group_to_multiset_ensures;

/// An entry file found under the entries root: the year directory that holds
/// it (none for a file of the root itself), its name, and its path.
pub struct EntryFile {
    pub year: Option<String>,
    pub name: String,
    pub path: String,
}

/// Where a file sits below the entries root, by path components: the first,
/// and the second for a file of a year directory.
pub open spec fn file_key(f: EntryFile) -> (Seq<char>, Option<Seq<char>>) {
    match f.year {
        Some(y) => (y@, Some(f.name@)),
        None => (f.name@, None),
    }
}

pub open spec fn file_keys(s: Seq<EntryFile>) -> Seq<(Seq<char>, Option<Seq<char>>)> {
    s.map_values(|f: EntryFile| file_key(f))
}

/// The order of paths below one root, component by component: a path comes
/// before the longer paths it begins.
pub open spec fn key_order(a: (Seq<char>, Option<Seq<char>>), b: (Seq<char>, Option<Seq<char>>)) -> int {
    let c = text_order(a.0, b.0);
    if c != 0 {
        c
    } else {
        match (a.1, b.1) {
            (None, None) => 0,
            (None, Some(_)) => -1,
            (Some(_), None) => 1,
            (Some(x), Some(y)) => text_order(x, y),
        }
    }
}

/// The path of the file at `key` below `root`.
pub open spec fn key_path(root: Seq<char>, key: (Seq<char>, Option<Seq<char>>)) -> Seq<char> {
    match key.1 {
        None => joined(root, key.0),
        Some(n) => joined(joined(root, key.0), n),
    }
}

/// The directory that holds the year directories, as `Journal::entries_root`
/// gives it.
pub open spec fn entries_root_of(root: Seq<char>, config: JournalConfig) -> Seq<char> {
    match config.journal.entries_dir {
        Some(d) => if d@.len() > 0 {
            joined(root, d@)
        } else {
            root
        },
        None => root,
    }
}

/// A file name with the extension `md`.
pub open spec fn md_name(s: Seq<char>) -> bool {
    s.len() >= 4 && s.subrange(s.len() - 3, s.len() as int) == ".md"@
}

/// The entry files among the names listed in the entries root.
pub open spec fn root_keys(names: Seq<String>) -> Seq<(Seq<char>, Option<Seq<char>>)>
    decreases names.len(),
{
    if names.len() == 0 {
        seq![]
    } else {
        let r = root_keys(names.drop_last());
        if md_name(names.last()@) {
            r.push((names.last()@, None))
        } else {
            r
        }
    }
}

/// The entry files among the names listed in the year directory `year`.
pub open spec fn year_keys(year: Seq<char>, names: Seq<String>) -> Seq<(Seq<char>, Option<Seq<char>>)>
    decreases names.len(),
{
    if names.len() == 0 {
        seq![]
    } else {
        let r = year_keys(year, names.drop_last());
        if md_name(names.last()@) {
            r.push((year, Some(names.last()@)))
        } else {
            r
        }
    }
}

/// The entry files of the year directories among the listed directories.
pub open spec fn dir_keys(dirs: Seq<(String, Vec<String>)>) -> Seq<(Seq<char>, Option<Seq<char>>)>
    decreases dirs.len(),
{
    if dirs.len() == 0 {
        seq![]
    } else {
        let r = dir_keys(dirs.drop_last());
        if is_year_dir(dirs.last().0@) {
            r + year_keys(dirs.last().0@, dirs.last().1@)
        } else {
            r
        }
    }
}

proof fn lemma_key_order(
    a: (Seq<char>, Option<Seq<char>>),
    b: (Seq<char>, Option<Seq<char>>),
    c: (Seq<char>, Option<Seq<char>>),
)
    ensures
        -1 <= key_order(a, b) <= 1,
        key_order(a, b) == -key_order(b, a),
        (key_order(a, b) <= 0 && key_order(b, c) <= 0) ==> key_order(a, c) <= 0,
{
    lemma_text_order(a.0, b.0, c.0);
    lemma_text_order(b.0, c.0, a.0);
    lemma_text_order(c.0, a.0, b.0);
    lemma_text_order(a.0, c.0, b.0);
    match (a.1, b.1, c.1) {
        (Some(x), Some(y), Some(z)) => {
            lemma_text_order(x, y, z);
            lemma_text_order(y, z, x);
        },
        (Some(x), Some(y), None) => {
            lemma_text_order(x, y, x);
        },
        (None, Some(y), Some(z)) => {
            lemma_text_order(y, z, y);
        },
        (Some(x), None, Some(z)) => {
            lemma_text_order(x, z, x);
        },
        _ => {},
    }
}

/// The order of two files, as [`key_order`] says.
fn compare_files(a: &EntryFile, b: &EntryFile) -> (res: i8)
    ensures
        res as int == key_order(file_key(*a), file_key(*b)),
{
    let (a0, a1) = match &a.year {
        Some(y) => (y.as_str(), Some(a.name.as_str())),
        None => (a.name.as_str(), None),
    };
    let (b0, b1) = match &b.year {
        Some(y) => (y.as_str(), Some(b.name.as_str())),
        None => (b.name.as_str(), None),
    };
    let c = compare_text(a0, b0);
    if c != 0 {
        return c;
    }
    match (a1, b1) {
        (None, None) => 0,
        (None, Some(_)) => -1,
        (Some(_), None) => 1,
        (Some(x), Some(y)) => compare_text(x, y),
    }
}

fn copy_file(f: &EntryFile) -> (res: EntryFile)
    ensures
        file_key(res) == file_key(*f),
        res.path@ == f.path@,
{
    EntryFile {
        year: match &f.year {
            Some(y) => Some(owned(y.as_str())),
            None => None,
        },
        name: owned(f.name.as_str()),
        path: owned(f.path.as_str()),
    }
}

/// The files of `items` in path order; equal keys keep their order.
fn sort_files(items: &Vec<EntryFile>, Ghost(root): Ghost<Seq<char>>) -> (res: Vec<EntryFile>)
    requires
        forall|i: int| 0 <= i < items@.len() ==> (#[trigger] items@[i]).path@ == key_path(root, file_key(items@[i])),
    ensures
        forall|i: int| 0 <= i < res@.len() ==> (#[trigger] res@[i]).path@ == key_path(root, file_key(res@[i])),
        forall|i: int, j: int|
            0 <= i < j < res@.len() ==> key_order(file_key(#[trigger] res@[i]), file_key(#[trigger] res@[j])) <= 0,
        file_keys(res@).to_multiset() == file_keys(items@).to_multiset(),
{
    let mut out: Vec<EntryFile> = Vec::new();
    let mut i: usize = 0;
    while i < items.len()
        invariant
            i <= items@.len(),
            forall|k: int| 0 <= k < items@.len() ==> (#[trigger] items@[k]).path@ == key_path(root, file_key(items@[k])),
            forall|k: int| 0 <= k < out@.len() ==> (#[trigger] out@[k]).path@ == key_path(root, file_key(out@[k])),
            forall|a: int, b: int|
                0 <= a < b < out@.len() ==> key_order(file_key(#[trigger] out@[a]), file_key(#[trigger] out@[b])) <= 0,
            file_keys(out@).to_multiset() == file_keys(items@.take(i as int)).to_multiset(),
        decreases items@.len() - i,
    {
        let x = copy_file(&items[i]);
        let ghost kx = file_key(x);
        let mut p: usize = 0;
        while p < out.len() && compare_files(&out[p], &x) <= 0
            invariant
                p <= out@.len(),
                kx == file_key(x),
                forall|q: int| 0 <= q < p ==> key_order(file_key(#[trigger] out@[q]), kx) <= 0,
            decreases out@.len() - p,
        {
            p += 1;
        }
        let ghost before = out@;
        proof {
            if p < before.len() {
                assert(key_order(file_key(before[p as int]), kx) > 0);
                lemma_key_order(file_key(before[p as int]), kx, kx);
            }
        }
        out.insert(p, x);
        proof {
            assert forall|a: int, b: int| 0 <= a < b < out@.len() implies key_order(
                file_key(#[trigger] out@[a]),
                file_key(#[trigger] out@[b]),
            ) <= 0 by {
                if b < p {
                    assert(out@[a] == before[a] && out@[b] == before[b]);
                } else if b == p {
                    assert(out@[a] == before[a]);
                } else if a == p {
                    assert(out@[b] == before[b - 1]);
                    if b - 1 > p {
                        assert(key_order(file_key(before[p as int]), file_key(before[b - 1])) <= 0);
                        lemma_key_order(kx, file_key(before[p as int]), file_key(before[b - 1]));
                    }
                } else if a < p {
                    assert(out@[a] == before[a] && out@[b] == before[b - 1]);
                    assert(key_order(file_key(before[a]), kx) <= 0);
                    if b - 1 > p {
                        assert(key_order(file_key(before[p as int]), file_key(before[b - 1])) <= 0);
                        lemma_key_order(kx, file_key(before[p as int]), file_key(before[b - 1]));
                    }
                    lemma_key_order(file_key(before[a]), kx, file_key(before[b - 1]));
                } else {
                    assert(out@[a] == before[a - 1] && out@[b] == before[b - 1]);
                }
            }
            assert forall|k: int| 0 <= k < out@.len() implies (#[trigger] out@[k]).path@ == key_path(
                root,
                file_key(out@[k]),
            ) by {
                if k < p {
                    assert(out@[k] == before[k]);
                } else if k > p {
                    assert(out@[k] == before[k - 1]);
                }
            }
            assert(file_keys(out@) =~= file_keys(before).insert(p as int, kx));
            vstd::seq_lib::to_multiset_insert(file_keys(before), p as int, kx);
            assert(file_keys(items@.take(i + 1)) =~= file_keys(items@.take(i as int)).push(kx));
            vstd::seq_lib::to_multiset_build(file_keys(items@.take(i as int)), kx);
        }
        i += 1;
    }
    assert(items@.take(i as int) =~= items@);
    out
}

/// Make the files of one listing that are entries, pushed to `items`.
fn push_entries(
    items: &mut Vec<EntryFile>,
    root: &str,
    year: Option<&str>,
    names: &Vec<String>,
)
    requires
        forall|k: int| 0 <= k < old(items)@.len() ==> (#[trigger] old(items)@[k]).path@ == key_path(root@, file_key(old(items)@[k])),
    ensures
        forall|k: int| 0 <= k < final(items)@.len() ==> (#[trigger] final(items)@[k]).path@ == key_path(root@, file_key(final(items)@[k])),
        file_keys(final(items)@) == file_keys(old(items)@) + match year {
            Some(y) => year_keys(y@, names@),
            None => root_keys(names@),
        },
{
    let ghost start = items@;
    let mut i: usize = 0;
    proof {
        reveal_strlit(".md");
        assert(names@.take(0) =~= Seq::<String>::empty());
        assert(file_keys(items@) =~= file_keys(start) + seq![]);
    }
    while i < names.len()
        invariant
            i <= names@.len(),
            forall|k: int| 0 <= k < items@.len() ==> (#[trigger] items@[k]).path@ == key_path(root@, file_key(items@[k])),
            file_keys(items@) == file_keys(start) + match year {
                Some(y) => year_keys(y@, names@.take(i as int)),
                None => root_keys(names@.take(i as int)),
            },
        decreases names@.len() - i,
    {
        let name = names[i].as_str();
        let ghost t = names@.take(i + 1);
        proof {
            assert(t.drop_last() =~= names@.take(i as int));
            assert(t.last() == names@[i as int]);
        }
        if is_markdown_name(name) {
            let f = match year {
                Some(y) => {
                    let dir = join_path(root, y);
                    EntryFile { year: Some(owned(y)), name: owned(name), path: join_path(dir.as_str(), name) }
                },
                None => EntryFile { year: None, name: owned(name), path: join_path(root, name) },
            };
            let ghost before = items@;
            items.push(f);
            proof {
                assert(items@[before.len() as int] == f);
                assert forall|k: int| 0 <= k < items@.len() implies (#[trigger] items@[k]).path@ == key_path(
                    root@,
                    file_key(items@[k]),
                ) by {
                    if k < before.len() {
                        assert(items@[k] == before[k]);
                    }
                }
                assert(file_keys(items@) =~= file_keys(before).push(file_key(f)));
            }
        }
        i += 1;
    }
    proof {
        assert(names@.take(i as int) =~= names@);
    }
}

impl Journal {
    /// Every entry file of the journal, in path order: the `.md` files of the
    /// entries root and of its year directories.  `root_names` are the names
    /// the entries root lists; `dirs` are its directories, each with the names
    /// it lists.
    pub fn collect_entries(
        &self,
        config: &JournalConfig,
        root_names: &Vec<String>,
        dirs: &Vec<(String, Vec<String>)>,
    ) -> (res: Vec<EntryFile>)
        ensures
            forall|i: int|
                0 <= i < res@.len() ==> (#[trigger] res@[i]).path@ == key_path(
                    entries_root_of(self.root@, *config),
                    file_key(res@[i]),
                ),
            forall|i: int, j: int|
                0 <= i < j < res@.len() ==> key_order(file_key(#[trigger] res@[i]), file_key(#[trigger] res@[j]))
                    <= 0,
            file_keys(res@).to_multiset() == (root_keys(root_names@) + dir_keys(dirs@)).to_multiset(),
    {
        let root = self.entries_root(config);
        let mut items: Vec<EntryFile> = Vec::new();
        push_entries(&mut items, root.as_str(), None, root_names);
        let mut j: usize = 0;
        proof {
            assert(dirs@.take(0) =~= Seq::<(String, Vec<String>)>::empty());
            assert(file_keys(items@) =~= root_keys(root_names@) + dir_keys(dirs@.take(0)));
        }
        while j < dirs.len()
            invariant
                j <= dirs@.len(),
                forall|k: int| 0 <= k < items@.len() ==> (#[trigger] items@[k]).path@ == key_path(root@, file_key(items@[k])),
                file_keys(items@) == root_keys(root_names@) + dir_keys(dirs@.take(j as int)),
            decreases dirs@.len() - j,
        {
            let ghost t = dirs@.take(j + 1);
            proof {
                assert(t.drop_last() =~= dirs@.take(j as int));
                assert(t.last() == dirs@[j as int]);
            }
            let (name, files) = &dirs[j];
            if is_year_dir_name(name.as_str()) {
                push_entries(&mut items, root.as_str(), Some(name.as_str()), files);
                proof {
                    assert(file_keys(items@) =~= root_keys(root_names@) + dir_keys(t));
                }
            }
            j += 1;
        }
        proof {
            assert(dirs@.take(j as int) =~= dirs@);
        }
        sort_files(&items, Ghost(root@))
    }
}

} // verus!
