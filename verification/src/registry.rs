//! The list of journals the desktop application knows, each under the stable
//! identifier written in its configuration (a UUID, held as its 128-bit value).

use vstd::prelude::*;

use crate::journal::{join_path, joined};
use crate::text::{str_eq, trim, trim_ws};
use crate::user_config::opt_text;

verus! {

/// One registered journal.
#[derive(Clone, Debug)]
pub struct RegistryEntry {
    /// The journal's identifier, the UUID's 128-bit value.
    pub id: u128,
    /// The name shown to the user.
    pub name: String,
    /// Where the journal's repository lives.
    pub storage_path: String,
}

/// The registered journals, in the order they were added.
pub struct JournalRegistry {
    pub journals: Vec<RegistryEntry>,
}

/// Some entry of `s` carries `id`.
pub open spec fn has_id(s: Seq<RegistryEntry>, id: u128) -> bool {
    exists|i: int| 0 <= i < s.len() && (#[trigger] s[i]).id == id
}

/// No two entries of `s` carry the same identifier.
pub open spec fn distinct_ids(s: Seq<RegistryEntry>) -> bool {
    forall|i: int, j: int| 0 <= i < j < s.len() ==> (#[trigger] s[i]).id != (#[trigger] s[j]).id
}

/// `s` without its entries that carry `id`, the others in their order.
pub open spec fn without_id(s: Seq<RegistryEntry>, id: u128) -> Seq<RegistryEntry> {
    s.filter(|e: RegistryEntry| e.id != id)
}

proof fn lemma_without_step(s: Seq<RegistryEntry>, id: u128, k: int)
    requires
        0 <= k < s.len(),
    ensures
        without_id(s.take(k + 1), id) == if s[k].id != id {
            without_id(s.take(k), id).push(s[k])
        } else {
            without_id(s.take(k), id)
        },
{
    reveal(Seq::filter);
    assert(s.take(k + 1).drop_last() == s.take(k));
}

proof fn lemma_without_members(s: Seq<RegistryEntry>, id: u128)
    ensures
        forall|i: int|
            0 <= i < without_id(s, id).len() ==> (#[trigger] without_id(s, id)[i]).id != id
                && s.contains(without_id(s, id)[i]),
    decreases s.len(),
{
    reveal(Seq::filter);
    if s.len() > 0 {
        lemma_without_members(s.drop_last(), id);
        assert forall|i: int| 0 <= i < without_id(s, id).len() implies (#[trigger] without_id(
            s,
            id,
        )[i]).id != id && s.contains(without_id(s, id)[i]) by {
            let w = without_id(s.drop_last(), id);
            if i < w.len() {
                let j = choose|j: int| 0 <= j < s.drop_last().len() && s.drop_last()[j] == w[i];
                assert(s[j] == w[i]);
            } else {
                assert(s[s.len() - 1] == s.last());
            }
        }
    }
}

/// Dropping the entries of an identifier that no entry carries changes nothing.
proof fn lemma_without_absent(s: Seq<RegistryEntry>, id: u128)
    requires
        !has_id(s, id),
    ensures
        without_id(s, id) == s,
    decreases s.len(),
{
    reveal(Seq::filter);
    if s.len() > 0 {
        assert(!has_id(s.drop_last(), id)) by {
            if has_id(s.drop_last(), id) {
                let i = choose|i: int| 0 <= i < s.drop_last().len() && (#[trigger] s.drop_last()[i]).id == id;
                assert(s[i].id == id);
            }
        }
        lemma_without_absent(s.drop_last(), id);
        assert(s.last().id != id) by {
            assert(s[s.len() - 1].id == s.last().id);
        }
        assert(s.drop_last().push(s.last()) == s);
    }
}

/// Removing the journal just added under a new identifier gives back the
/// registry as it was before the addition.
pub proof fn lemma_add_then_remove(s: Seq<RegistryEntry>, entry: RegistryEntry)
    requires
        !has_id(s, entry.id),
    ensures
        without_id(s.push(entry), entry.id) == s,
{
    reveal(Seq::filter);
    assert(s.push(entry).drop_last() == s);
    lemma_without_absent(s, entry.id);
}

/// Once the entries of an identifier are removed, no entry carries it, and
/// the entries that stay keep their identifiers apart.
pub proof fn lemma_removed_id_is_gone(s: Seq<RegistryEntry>, id: u128)
    requires
        distinct_ids(s),
    ensures
        !has_id(without_id(s, id), id),
        distinct_ids(without_id(s, id)),
    decreases s.len(),
{
    reveal(Seq::filter);
    lemma_without_members(s, id);
    if s.len() > 0 {
        let t = s.drop_last();
        assert(distinct_ids(t)) by {
            assert forall|i: int, j: int| 0 <= i < j < t.len() implies (#[trigger] t[i]).id != (
            #[trigger] t[j]).id by {
                assert(s[i] == t[i] && s[j] == t[j]);
            }
        }
        lemma_removed_id_is_gone(t, id);
        lemma_without_members(t, id);
        let w = without_id(t, id);
        if s.last().id != id {
            assert forall|i: int, j: int|
                0 <= i < j < w.push(s.last()).len() implies (#[trigger] w.push(s.last())[i]).id != (
            #[trigger] w.push(s.last())[j]).id by {
                if j == w.len() {
                    let k = choose|k: int| 0 <= k < t.len() && t[k] == w[i];
                    assert(s[k] == w[i]);
                    assert(s[s.len() - 1] == s.last());
                } else {
                    assert(w.push(s.last())[i] == w[i] && w.push(s.last())[j] == w[j]);
                }
            }
        }
    }
}

impl Default for JournalRegistry {
    /// A registry with no journals.
    fn default() -> (res: JournalRegistry)
        ensures
            res.journals@.len() == 0,
    {
        JournalRegistry { journals: Vec::new() }
    }
}

impl JournalRegistry {
    /// Whether a registered journal carries `id`.
    pub fn contains_id(&self, id: u128) -> (res: bool)
        ensures
            res == has_id(self.journals@, id),
    {
        let mut i: usize = 0;
        while i < self.journals.len()
            invariant
                i <= self.journals@.len(),
                forall|j: int| 0 <= j < i ==> (#[trigger] self.journals@[j]).id != id,
            decreases self.journals@.len() - i,
        {
            if self.journals[i].id == id {
                return true;
            }
            i += 1;
        }
        false
    }

    /// Add a journal at the end, unless one with its identifier is registered
    /// already, in which case nothing changes.
    pub fn add(&mut self, entry: RegistryEntry)
        ensures
            has_id(old(self).journals@, entry.id) ==> final(self).journals@ == old(self).journals@,
            !has_id(old(self).journals@, entry.id) ==> final(self).journals@ == old(self).journals@.push(
                entry,
            ),
            distinct_ids(old(self).journals@) ==> distinct_ids(final(self).journals@),
            has_id(final(self).journals@, entry.id),
    {
        if !self.contains_id(entry.id) {
            let ghost before = self.journals@;
            let id = entry.id;
            self.journals.push(entry);
            proof {
                assert(self.journals@[before.len() as int].id == id);
                assert forall|i: int, j: int|
                    distinct_ids(before) && 0 <= i < j < self.journals@.len() implies (
                #[trigger] self.journals@[i]).id != (#[trigger] self.journals@[j]).id by {
                    assert(before[i] == self.journals@[i]);
                    if j < before.len() {
                        assert(before[j] == self.journals@[j]);
                    }
                }
            }
        }
    }

    /// Remove the journals that carry `id`, keeping the others in order.
    pub fn remove_by_id(&mut self, id: u128)
        ensures
            final(self).journals@ == without_id(old(self).journals@, id),
            !has_id(final(self).journals@, id),
    {
        let ghost orig = self.journals@;
        let ghost mut k: int = 0;
        let mut i: usize = 0;
        proof {
            reveal(Seq::filter);
            assert(self.journals@.take(0) == without_id(orig.take(0), id));
            assert(self.journals@.skip(0) == orig.skip(0));
        }
        while i < self.journals.len()
            invariant
                i <= self.journals@.len(),
                0 <= k <= orig.len(),
                self.journals@.take(i as int) == without_id(orig.take(k), id),
                self.journals@.skip(i as int) == orig.skip(k),
            decreases self.journals@.len() - i,
        {
            let ghost cur = self.journals@;
            proof {
                assert(cur[i as int] == cur.skip(i as int)[0]);
                assert(orig.skip(k).len() == cur.skip(i as int).len());
                assert(k < orig.len());
                assert(orig[k] == orig.skip(k)[0]);
                lemma_without_step(orig, id, k);
            }
            if self.journals[i].id == id {
                self.journals.remove(i);
                proof {
                    assert(self.journals@.take(i as int) == cur.take(i as int));
                    assert(self.journals@.skip(i as int) == cur.skip(i as int + 1));
                    assert(cur.skip(i as int + 1) == cur.skip(i as int).skip(1));
                    assert(orig.skip(k + 1) == orig.skip(k).skip(1));
                }
            } else {
                i += 1;
                proof {
                    assert(self.journals@.take(i as int) == cur.take(i as int - 1).push(cur[i as int - 1]));
                    assert(self.journals@.skip(i as int) == cur.skip(i as int - 1).skip(1));
                    assert(orig.skip(k + 1) == orig.skip(k).skip(1));
                }
            }
            proof {
                k = k + 1;
            }
        }
        proof {
            assert(orig.skip(k).len() == 0);
            assert(orig.take(k) == orig);
            assert(self.journals@.take(i as int) == self.journals@);
            lemma_without_members(orig, id);
        }
    }
}

/// The user's data directory: `$XDG_DATA_HOME` when set and non-empty, else
/// `$HOME/.local/share`, else the temporary directory.
pub open spec fn data_home_of(xdg: Option<Seq<char>>, home: Option<Seq<char>>, temp: Seq<char>) -> Seq<char> {
    match xdg {
        Some(d) if d.len() > 0 => d,
        _ => match home {
            Some(h) => joined(joined(h, ".local"@), "share"@),
            None => temp,
        },
    }
}

/// Resolve the user's data directory from the environment values.
pub fn xdg_data_home(xdg: Option<String>, home: Option<String>, temp: String) -> (res: String)
    ensures
        res@ == data_home_of(opt_text(xdg), opt_text(home), temp@),
{
    if let Some(d) = xdg {
        if !d.as_str().is_empty() {
            return d;
        }
    }
    match home {
        Some(h) => {
            let local = join_path(h.as_str(), ".local");
            join_path(local.as_str(), "share")
        },
        None => temp,
    }
}

/// The application's data directory under the user's data directory.
pub fn data_dir(data_home: &str) -> (res: String)
    ensures
        res@ == joined(data_home@, "sapphire-journal"@),
{
    join_path(data_home, "sapphire-journal")
}

/// Where the repositories of the registered journals live.
pub fn journals_dir(data_home: &str) -> (res: String)
    ensures
        res@ == joined(joined(data_home@, "sapphire-journal"@), "journals"@),
{
    let d = data_dir(data_home);
    join_path(d.as_str(), "journals")
}

/// The file the registry is kept in.
pub fn registry_path(data_home: &str) -> (res: String)
    ensures
        res@ == joined(joined(data_home@, "sapphire-journal"@), "journals.toml"@),
{
    let d = data_dir(data_home);
    join_path(d.as_str(), "journals.toml")
}

// ── the journal list's dialogs ───────────────────────────────────────────────

/// What the clone dialog submits: the name and remote URL without surrounding
/// white space, when neither is blank and no clone is running.
pub fn clone_request(name: &str, url: &str, in_progress: bool) -> (res: Option<(String, String)>)
    ensures
        res is Some <==> (!in_progress && trim_ws(name@).len() > 0 && trim_ws(url@).len() > 0),
        res matches Some((n, u)) ==> n@ == trim_ws(name@) && u@ == trim_ws(url@),
{
    if in_progress {
        return None;
    }
    let n = trim(name);
    let u = trim(url);
    if n.as_str().is_empty() || u.as_str().is_empty() {
        None
    } else {
        Some((n, u))
    }
}

/// What the new-journal dialog submits: the name without surrounding white
/// space, when it is not blank and no creation is running.
pub fn new_journal_request(name: &str, in_progress: bool) -> (res: Option<String>)
    ensures
        res is Some <==> (!in_progress && trim_ws(name@).len() > 0),
        res matches Some(n) ==> n@ == trim_ws(name@),
{
    if in_progress {
        return None;
    }
    let n = trim(name);
    if n.as_str().is_empty() {
        None
    } else {
        Some(n)
    }
}

/// Whether the delete dialog may delete: the typed confirmation, without
/// surrounding white space, is the journal's name, and no deletion is running.
pub fn delete_confirmed(typed: &str, journal_name: &str, deleting: bool) -> (res: bool)
    ensures
        res == (trim_ws(typed@) == journal_name@ && !deleting),
{
    let t = trim(typed);
    str_eq(t.as_str(), journal_name) && !deleting
}

} // verus!
