//! Workspaces of the recall tool: a directory whose search index lives in a
//! per-directory folder of the user's cache directory.

use vstd::prelude::*;

use crate::journal::{join_path, joined};
use crate::ops::{file_name, file_name_of};
use crate::text::{concat, owned, string_from_chars};

verus! {

pub const FNV_OFFSET: u64 = 14695981039346656037;

pub const FNV_PRIME: u64 = 1099511628211;

/// The 64-bit FNV-1a hash of a byte string.
pub open spec fn fnv1a(bytes: Seq<u8>) -> u64
    decreases bytes.len(),
{
    if bytes.len() == 0 {
        FNV_OFFSET
    } else {
        let h = fnv1a(bytes.drop_last());
        ((((h ^ (bytes.last() as u64)) as int) * (FNV_PRIME as int)) % 0x1_0000_0000_0000_0000) as u64
    }
}

/// FNV-1a hash of a path's UTF-8 bytes.
pub fn path_hash(p: &str) -> (res: u64)
    ensures
        res == fnv1a(vstd::utf8::encode_utf8(p@)),
{
    let bytes = p.as_bytes();
    let mut h: u64 = FNV_OFFSET;
    let mut i: usize = 0;
    while i < bytes.len()
        invariant
            i <= bytes@.len(),
            bytes@ == vstd::utf8::encode_utf8(p@),
            h == fnv1a(bytes@.take(i as int)),
        decreases bytes@.len() - i,
    {
        assert(bytes@.take(i + 1).drop_last() =~= bytes@.take(i as int));
        h = h ^ (bytes[i] as u64);
        h = h.wrapping_mul(FNV_PRIME);
        i += 1;
    }
    assert(bytes@.take(i as int) =~= bytes@);
    h
}

/// Lower-case hexadecimal digit.
pub open spec fn hex_char(d: int) -> char {
    if d < 10 {
        (d + '0' as int) as char
    } else {
        (d - 10 + 'a' as int) as char
    }
}

/// The last `k` hexadecimal digits of `n`, zero-padded.
pub open spec fn hex_digits(n: nat, k: nat) -> Seq<char>
    decreases k,
{
    if k == 0 {
        seq![]
    } else {
        hex_digits(n / 16, (k - 1) as nat).push(hex_char((n % 16) as int))
    }
}

/// `n` as sixteen lower-case hexadecimal digits (`{:016x}`).
pub fn hex16(n: u64) -> (res: String)
    ensures
        res@ == hex_digits(n as nat, 16),
{
    let mut digits: Vec<char> = Vec::new();
    let mut k: usize = 16;
    let mut m: u64 = n;
    let ghost mut tail: Seq<char> = seq![];
    while k > 0
        invariant
            k <= 16,
            hex_digits(n as nat, 16) == hex_digits(m as nat, k as nat) + tail,
            digits@.len() == tail.len(),
            forall|j: int| 0 <= j < tail.len() ==> digits@[j] == tail[tail.len() - 1 - j],
        decreases k,
    {
        let d = (m % 16) as u8;
        let c = if d < 10 {
            (d + 48) as char
        } else {
            (d - 10 + 97) as char
        };
        assert(c == hex_char((m % 16) as int));
        proof {
            assert(hex_digits(m as nat, k as nat) == hex_digits((m / 16) as nat, (k - 1) as nat).push(c));
            assert(hex_digits(m as nat, k as nat) + tail =~= hex_digits((m / 16) as nat, (k - 1) as nat)
                + (seq![c] + tail));
            tail = seq![c] + tail;
        }
        digits.push(c);
        m = m / 16;
        k -= 1;
    }
    assert(hex_digits(m as nat, 0) + tail =~= tail);
    let mut out: Vec<char> = Vec::new();
    let mut i = digits.len();
    while i > 0
        invariant
            i <= digits@.len(),
            digits@.len() == tail.len(),
            forall|j: int| 0 <= j < tail.len() ==> digits@[j] == tail[tail.len() - 1 - j],
            out@ =~= tail.subrange(0, (digits@.len() - i) as int),
        decreases i,
    {
        i -= 1;
        out.push(digits[i]);
    }
    assert(out@ =~= tail);
    string_from_chars(&out)
}

/// A resolved workspace directory.
#[derive(Clone, Debug)]
pub struct Workspace {
    /// Canonical absolute path of the workspace root.
    pub root: String,
}

/// The name of the folder holding a workspace's index: the hash of its path
/// and its last component (`root` for the file-system root).
pub open spec fn index_folder_name(root: Seq<char>, hash: u64) -> Seq<char> {
    let base = file_name_of(root);
    hex_digits(hash as nat, 16) + "-"@ + (if base.len() > 0 {
        base
    } else {
        "root"@
    })
}

impl Workspace {
    /// `{cache_home}/archelon-recall/{hash16}-{basename}`.
    pub fn cache_dir(&self, cache_home: &str) -> (res: String)
        ensures
            res@ == joined(
                joined(cache_home@, "archelon-recall"@),
                index_folder_name(self.root@, fnv1a(vstd::utf8::encode_utf8(self.root@))),
            ),
    {
        let hash = path_hash(self.root.as_str());
        let base = file_name(self.root.as_str());
        let base = if base.as_str().is_empty() {
            owned("root")
        } else {
            base
        };
        let folder = concat(&concat(hex16(hash).as_str(), "-"), base.as_str());
        join_path(join_path(cache_home, "archelon-recall").as_str(), folder.as_str())
    }

    /// `{cache_dir}/retrieve_v{schema}.db`, with the retrieval database's
    /// schema version `schema`.
    pub fn retrieve_db_path(&self, cache_home: &str, schema: i32) -> (res: String)
        ensures
            res@ == joined(
                joined(
                    joined(cache_home@, "archelon-recall"@),
                    index_folder_name(self.root@, fnv1a(vstd::utf8::encode_utf8(self.root@))),
                ),
                "retrieve_v"@ + crate::number::decimal_digits_signed(schema as int) + ".db"@,
            ),
    {
        let dir = self.cache_dir(cache_home);
        let name = concat(&concat("retrieve_v", crate::number::signed_decimal_text(schema).as_str()), ".db");
        join_path(dir.as_str(), name.as_str())
    }
}

} // verus!
