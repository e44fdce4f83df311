//! Errors of journal operations.

use vstd::prelude::*;

use crate::number::decimal_digits_signed;
use crate::text::{concat, owned};

verus! {

/// A failed journal operation.  Errors raised by the file system, the YAML
/// reader, the cache database or an embedding service are carried as their
/// message.
#[derive(Clone, Debug)]
pub enum Error {
    Io(String),
    FrontmatterParse(String),
    InvalidEntry(String),
    JournalNotFound,
    EntryNotFound(String),
    AmbiguousId(String, u64),
    EntryNotFoundByTitle(String),
    AmbiguousTitle(String, u64),
    DuplicateTitle(String),
    DuplicateId(String, String, String),
    EntryAlreadyExists(String),
    InvalidConfig(String),
    Cache(String),
    Embed(String),
    /// The cache database was made by a newer version of the program.
    CacheSchemaTooNew { db_version: i32, app_version: i32 },
}

impl Error {
    /// The message shown for the error.
    pub open spec fn text(self) -> Seq<char> {
        match self {
            Error::Io(m) => "IO error: "@ + m@,
            Error::FrontmatterParse(m) => "Failed to parse frontmatter: "@ + m@,
            Error::InvalidEntry(m) => "Invalid entry file: "@ + m@,
            Error::JournalNotFound => "no .sapphire-journal directory found in current directory or any parent"@,
            Error::EntryNotFound(p) => "no entry found with id prefix `"@ + p@ + "`"@,
            Error::AmbiguousId(p, n) => "id prefix `"@ + p@ + "` is ambiguous ("@ + decimal_digits_signed(
                n as int,
            ) + " matches)"@,
            Error::EntryNotFoundByTitle(t) => "no entry found with title `"@ + t@ + "`"@,
            Error::AmbiguousTitle(t, n) => "title `"@ + t@ + "` is ambiguous ("@ + decimal_digits_signed(
                n as int,
            ) + " matches)"@,
            Error::DuplicateTitle(t) => "duplicate title `"@ + t@
                + "` — set duplicate_title = \"allow\" in config to permit this"@,
            Error::DuplicateId(id, a, b) => "duplicate id `"@ + id@ + "` found in files: "@ + a@ + " and "@
                + b@,
            Error::EntryAlreadyExists(p) => p@ + " already exists"@,
            Error::InvalidConfig(m) => "invalid config: "@ + m@,
            Error::Cache(m) => "cache error: "@ + m@,
            Error::Embed(m) => "embedding error: "@ + m@,
            Error::CacheSchemaTooNew { db_version, app_version } => "cache schema v"@ + decimal_digits_signed(
                db_version as int,
            ) + " is newer than this app supports (v"@ + decimal_digits_signed(app_version as int)
                + "); update sapphire-journal, or recreate the cache with `sapphire-journal cache rebuild`"@,
        }
    }

    /// The message shown for the error.
    pub fn message(&self) -> (res: String)
        ensures
            res@ == self.text(),
    {
        match self {
            Error::Io(m) => concat("IO error: ", m.as_str()),
            Error::FrontmatterParse(m) => concat("Failed to parse frontmatter: ", m.as_str()),
            Error::InvalidEntry(m) => concat("Invalid entry file: ", m.as_str()),
            Error::JournalNotFound => owned(
                "no .sapphire-journal directory found in current directory or any parent",
            ),
            Error::EntryNotFound(p) => concat(&concat("no entry found with id prefix `", p.as_str()), "`"),
            Error::AmbiguousId(p, n) => {
                let count = unsigned_text(*n);
                concat(
                    &concat(&concat(&concat("id prefix `", p.as_str()), "` is ambiguous ("), count.as_str()),
                    " matches)",
                )
            },
            Error::EntryNotFoundByTitle(t) => concat(&concat("no entry found with title `", t.as_str()), "`"),
            Error::AmbiguousTitle(t, n) => {
                let count = unsigned_text(*n);
                concat(
                    &concat(&concat(&concat("title `", t.as_str()), "` is ambiguous ("), count.as_str()),
                    " matches)",
                )
            },
            Error::DuplicateTitle(t) => concat(
                &concat("duplicate title `", t.as_str()),
                "` — set duplicate_title = \"allow\" in config to permit this",
            ),
            Error::DuplicateId(id, a, b) => concat(
                &concat(
                    &concat(&concat(&concat("duplicate id `", id.as_str()), "` found in files: "), a.as_str()),
                    " and ",
                ),
                b.as_str(),
            ),
            Error::EntryAlreadyExists(p) => concat(p.as_str(), " already exists"),
            Error::InvalidConfig(m) => concat("invalid config: ", m.as_str()),
            Error::Cache(m) => concat("cache error: ", m.as_str()),
            Error::Embed(m) => concat("embedding error: ", m.as_str()),
            Error::CacheSchemaTooNew { db_version, app_version } => {
                let d = crate::number::signed_decimal_text(*db_version);
                let a = crate::number::signed_decimal_text(*app_version);
                concat(
                    &concat(
                        &concat(&concat("cache schema v", d.as_str()), " is newer than this app supports (v"),
                        a.as_str(),
                    ),
                    "); update sapphire-journal, or recreate the cache with `sapphire-journal cache rebuild`",
                )
            },
        }
    }
}

/// Decimal text of a count.
pub fn unsigned_text(n: u64) -> (res: String)
    ensures
        res@ == decimal_digits_signed(n as int),
{
    let digits = crate::number::decimal_text(n);
    crate::text::string_from_chars(&digits)
}

} // verus!
