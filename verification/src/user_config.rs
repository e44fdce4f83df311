//! The user-level configuration (`config.toml` under the user's config
//! directory): retrieval and sync settings, their defaults, and the
//! environment variables that override them.

use vstd::prelude::*;

use crate::journal::{join_path, joined};
use crate::number::{parse_u32, u32_from_text};
use crate::text::{chars_of, owned, str_eq};

verus! {

/// Vector database used for semantic search.
#[derive(Clone, Copy, Debug, PartialEq, Eq, Structural)]
pub enum VectorDb {
    /// Vector search is off (the default).
    Disabled,
    /// The sqlite-vec extension inside the cache database.
    SqliteVec,
    /// LanceDB in a directory of its own.
    LanceDb,
}

impl VectorDb {
    pub open spec fn text(self) -> Seq<char> {
        match self {
            VectorDb::Disabled => "none"@,
            VectorDb::SqliteVec => "sqlite_vec"@,
            VectorDb::LanceDb => "lancedb"@,
        }
    }

    /// The name written in configuration files.
    pub fn as_str(self) -> (res: &'static str)
        ensures
            res@ == self.text(),
    {
        match self {
            VectorDb::Disabled => "none",
            VectorDb::SqliteVec => "sqlite_vec",
            VectorDb::LanceDb => "lancedb",
        }
    }
}

/// The vector database named by `s`.
pub open spec fn vector_db_named(s: Seq<char>) -> Option<VectorDb> {
    if s == "none"@ {
        Some(VectorDb::Disabled)
    } else if s == "sqlite_vec"@ {
        Some(VectorDb::SqliteVec)
    } else if s == "lancedb"@ {
        Some(VectorDb::LanceDb)
    } else {
        None
    }
}

/// Read a vector database name.
pub fn parse_vector_db(s: &str) -> (res: Option<VectorDb>)
    ensures
        res == vector_db_named(s@),
{
    if str_eq(s, "none") {
        Some(VectorDb::Disabled)
    } else if str_eq(s, "sqlite_vec") {
        Some(VectorDb::SqliteVec)
    } else if str_eq(s, "lancedb") {
        Some(VectorDb::LanceDb)
    } else {
        None
    }
}

/// Which sync backend to use.
#[derive(Clone, Copy, Debug, PartialEq, Eq, Structural)]
pub enum SyncBackendKind {
    /// Git when the journal is a git repository, nothing otherwise.
    Auto,
    /// No sync.
    Disabled,
    Git,
}

/// The sync backend named by `s`: `auto`, `none` or `git`.
pub open spec fn sync_backend_named(s: Seq<char>) -> Option<SyncBackendKind> {
    if s == "auto"@ {
        Some(SyncBackendKind::Auto)
    } else if s == "none"@ {
        Some(SyncBackendKind::Disabled)
    } else if s == "git"@ {
        Some(SyncBackendKind::Git)
    } else {
        None
    }
}

/// Read a sync backend name.
pub fn parse_sync_backend(s: &str) -> (res: Option<SyncBackendKind>)
    ensures
        res == sync_backend_named(s@),
{
    if str_eq(s, "auto") {
        Some(SyncBackendKind::Auto)
    } else if str_eq(s, "none") {
        Some(SyncBackendKind::Disabled)
    } else if str_eq(s, "git") {
        Some(SyncBackendKind::Git)
    } else {
        None
    }
}

/// Embedding provider settings.
#[derive(Clone, Debug)]
pub struct EmbeddingConfig {
    pub enabled: bool,
    /// `openai`, `ollama`, `fastembed`, ...
    pub provider: String,
    pub model: String,
    /// Environment variable holding the API key.
    pub api_key_env: Option<String>,
    pub base_url: Option<String>,
    /// Output dimension of the model.
    pub dimension: Option<u32>,
}

impl EmbeddingConfig {
    /// Disabled, with no provider or model named.
    pub fn empty() -> (res: EmbeddingConfig)
        ensures
            !res.enabled,
            res.provider@.len() == 0,
            res.model@.len() == 0,
            res.api_key_env is None,
            res.base_url is None,
            res.dimension is None,
    {
        proof {
            reveal_strlit("");
        }
        EmbeddingConfig {
            enabled: false,
            provider: owned(""),
            model: owned(""),
            api_key_env: None,
            base_url: None,
            dimension: None,
        }
    }
}

/// Retrieval settings (`[cache.retrieve]`).
#[derive(Clone, Debug)]
pub struct RetrieveConfig {
    pub db: VectorDb,
    pub embedding: Option<EmbeddingConfig>,
}

/// The `[cache]` section.
#[derive(Clone, Debug)]
pub struct CacheConfig {
    pub retrieve: RetrieveConfig,
}

/// The `[sync]` section.
#[derive(Clone, Copy, Debug)]
pub struct SyncConfig {
    pub backend: SyncBackendKind,
}

/// The user-level configuration.
#[derive(Clone, Debug)]
pub struct UserConfig {
    pub cache: CacheConfig,
    pub sync: SyncConfig,
    /// Minutes between periodic syncs; `0` turns them off.
    pub sync_interval_minutes: Option<u32>,
}

/// Minutes between periodic syncs when nothing is configured.
pub const DEFAULT_SYNC_INTERVAL_MINUTES: u32 = 10;

/// The sync interval a configuration gets by default: ten minutes.
pub fn default_sync_interval_minutes() -> (res: Option<u32>)
    ensures
        res == Some(10u32),
{
    Some(DEFAULT_SYNC_INTERVAL_MINUTES)
}

impl Default for UserConfig {
    fn default() -> (res: UserConfig)
        ensures
            res.cache.retrieve.db == VectorDb::Disabled,
            res.cache.retrieve.embedding is None,
            res.sync.backend == SyncBackendKind::Auto,
            res.sync_interval_minutes == Some(10u32),
    {
        UserConfig {
            cache: CacheConfig { retrieve: RetrieveConfig { db: VectorDb::Disabled, embedding: None } },
            sync: SyncConfig { backend: SyncBackendKind::Auto },
            sync_interval_minutes: default_sync_interval_minutes(),
        }
    }
}

/// The raw values of the environment variables that override the user
/// configuration (`SAPPHIRE_JOURNAL_...`), absent when unset.
#[derive(Clone, Debug, Default)]
pub struct EnvOverrides {
    /// `SAPPHIRE_JOURNAL_CACHE_RETRIEVE_DB`
    pub retrieve_db: Option<String>,
    /// `SAPPHIRE_JOURNAL_CACHE_EMBEDDING_ENABLED`
    pub embedding_enabled: Option<String>,
    /// `SAPPHIRE_JOURNAL_CACHE_EMBEDDING_PROVIDER`
    pub embedding_provider: Option<String>,
    /// `SAPPHIRE_JOURNAL_CACHE_EMBEDDING_MODEL`
    pub embedding_model: Option<String>,
    /// `SAPPHIRE_JOURNAL_CACHE_EMBEDDING_API_KEY_ENV`
    pub embedding_api_key_env: Option<String>,
    /// `SAPPHIRE_JOURNAL_CACHE_EMBEDDING_BASE_URL`
    pub embedding_base_url: Option<String>,
    /// `SAPPHIRE_JOURNAL_CACHE_EMBEDDING_DIMENSION`
    pub embedding_dimension: Option<String>,
    /// `SAPPHIRE_JOURNAL_SYNC_BACKEND`
    pub sync_backend: Option<String>,
    /// `SAPPHIRE_JOURNAL_SYNC_INTERVAL_MINUTES`
    pub sync_interval_minutes: Option<String>,
}

/// A truthy switch value: `1`, `true` or `yes`.
pub open spec fn is_truthy(s: Seq<char>) -> bool {
    s == "1"@ || s == "true"@ || s == "yes"@
}

pub open spec fn opt_then<T>(o: Option<String>, f: spec_fn(Seq<char>) -> Option<T>) -> Option<T> {
    match o {
        Some(s) => f(s@),
        None => None,
    }
}

impl EnvOverrides {
    /// The retrieval database requested, when the value names one.
    pub open spec fn db(self) -> Option<VectorDb> {
        opt_then(self.retrieve_db, |s: Seq<char>| vector_db_named(s))
    }

    pub open spec fn dimension(self) -> Option<u32> {
        opt_then(self.embedding_dimension, |s: Seq<char>| u32_from_text(s))
    }

    /// Some retrieval or embedding override applies.
    pub open spec fn touches_retrieve(self) -> bool {
        self.db() is Some || self.embedding_enabled is Some || self.embedding_provider is Some
            || self.embedding_model is Some || self.embedding_api_key_env is Some
            || self.embedding_base_url is Some || self.dimension() is Some
    }
}

fn parse_u32_text(s: &str) -> (res: Option<u32>)
    ensures
        res == u32_from_text(s@),
{
    let v = chars_of(s);
    parse_u32(&v)
}

impl UserConfig {
    /// The periodic sync interval in seconds; none when turned off (`0`) or
    /// unset.
    pub fn sync_interval(&self) -> (res: Option<u64>)
        ensures
            res == match self.sync_interval_minutes {
                Some(m) => if m > 0 {
                    Some((m as u64 * 60) as u64)
                } else {
                    None
                },
                None => None,
            },
    {
        match self.sync_interval_minutes {
            Some(m) => if m > 0 {
                Some(m as u64 * 60)
            } else {
                None
            },
            None => None,
        }
    }

    /// Path of the user configuration file under the config directory.
    pub fn path(config_home: &str) -> (res: String)
        ensures
            res@ == joined(joined(config_home@, "sapphire-journal"@), "config.toml"@),
    {
        join_path(join_path(config_home, "sapphire-journal").as_str(), "config.toml")
    }

    /// Apply environment overrides: a recognised retrieval database replaces
    /// the configured one; any retrieval or embedding override makes sure an
    /// embedding section exists, then each given value replaces its field
    /// (the switch is on for `1`, `true`, `yes`; an unreadable dimension is
    /// ignored); a recognised sync backend and a readable interval replace
    /// theirs.
    pub fn apply_env_overrides(&mut self, env: EnvOverrides)
        ensures
            final(self).cache.retrieve.db == match env.db() {
                Some(d) => d,
                None => old(self).cache.retrieve.db,
            },
            !env.touches_retrieve() ==> final(self).cache.retrieve.embedding is None == old(
                self,
            ).cache.retrieve.embedding is None,
            env.touches_retrieve() ==> final(self).cache.retrieve.embedding is Some,
            final(self).cache.retrieve.embedding matches Some(e) ==> {
                &&& e.enabled == match env.embedding_enabled {
                    Some(v) => is_truthy(v@),
                    None => match old(self).cache.retrieve.embedding {
                        Some(o) => o.enabled,
                        None => false,
                    },
                }
                &&& e.provider@ == match env.embedding_provider {
                    Some(v) => v@,
                    None => match old(self).cache.retrieve.embedding {
                        Some(o) => o.provider@,
                        None => seq![],
                    },
                }
                &&& e.model@ == match env.embedding_model {
                    Some(v) => v@,
                    None => match old(self).cache.retrieve.embedding {
                        Some(o) => o.model@,
                        None => seq![],
                    },
                }
                &&& e.dimension == match env.dimension() {
                    Some(d) => Some(d),
                    None => match old(self).cache.retrieve.embedding {
                        Some(o) => o.dimension,
                        None => None,
                    },
                }
                &&& opt_text(e.api_key_env) == match env.embedding_api_key_env {
                    Some(v) => Some(v@),
                    None => match old(self).cache.retrieve.embedding {
                        Some(o) => opt_text(o.api_key_env),
                        None => None,
                    },
                }
                &&& opt_text(e.base_url) == match env.embedding_base_url {
                    Some(v) => Some(v@),
                    None => match old(self).cache.retrieve.embedding {
                        Some(o) => opt_text(o.base_url),
                        None => None,
                    },
                }
            },
            final(self).sync.backend == match opt_then(env.sync_backend, |s: Seq<char>| sync_backend_named(s)) {
                Some(b) => b,
                None => old(self).sync.backend,
            },
            final(self).sync_interval_minutes == match opt_then(
                env.sync_interval_minutes,
                |s: Seq<char>| u32_from_text(s),
            ) {
                Some(n) => Some(n),
                None => old(self).sync_interval_minutes,
            },
    {
        let db = match &env.retrieve_db {
            Some(v) => parse_vector_db(v.as_str()),
            None => None,
        };
        let enabled = match &env.embedding_enabled {
            Some(v) => Some(str_eq(v.as_str(), "1") || str_eq(v.as_str(), "true") || str_eq(v.as_str(), "yes")),
            None => None,
        };
        let dimension = match &env.embedding_dimension {
            Some(v) => parse_u32_text(v.as_str()),
            None => None,
        };
        let backend = match &env.sync_backend {
            Some(v) => parse_sync_backend(v.as_str()),
            None => None,
        };
        let interval = match &env.sync_interval_minutes {
            Some(v) => parse_u32_text(v.as_str()),
            None => None,
        };
        let EnvOverrides {
            retrieve_db: _,
            embedding_enabled: _,
            embedding_provider: provider,
            embedding_model: model,
            embedding_api_key_env: api_key_env,
            embedding_base_url: base_url,
            embedding_dimension: _,
            sync_backend: _,
            sync_interval_minutes: _,
        } = env;
        let any = db.is_some() || enabled.is_some() || provider.is_some() || model.is_some()
            || api_key_env.is_some() || base_url.is_some() || dimension.is_some();
        if any {
            if let Some(v) = db {
                self.cache.retrieve.db = v;
            }
            let mut embed = match self.cache.retrieve.embedding.take() {
                Some(e) => e,
                None => EmbeddingConfig::empty(),
            };
            if let Some(v) = enabled {
                embed.enabled = v;
            }
            if let Some(v) = provider {
                embed.provider = v;
            }
            if let Some(v) = model {
                embed.model = v;
            }
            if let Some(v) = api_key_env {
                embed.api_key_env = Some(v);
            }
            if let Some(v) = base_url {
                embed.base_url = Some(v);
            }
            if let Some(v) = dimension {
                embed.dimension = Some(v);
            }
            self.cache.retrieve.embedding = Some(embed);
        }
        if let Some(b) = backend {
            self.sync.backend = b;
        }
        if let Some(n) = interval {
            self.sync_interval_minutes = Some(n);
        }
    }
}

/// The user's config directory: `$XDG_CONFIG_HOME` when set and non-empty,
/// else `$HOME/.config`, else the temporary directory.
pub open spec fn config_home_of(xdg: Option<Seq<char>>, home: Option<Seq<char>>, temp: Seq<char>) -> Seq<char> {
    match xdg {
        Some(d) if d.len() > 0 => d,
        _ => match home {
            Some(h) => joined(h, ".config"@),
            None => temp,
        },
    }
}

/// The user's cache directory: `$XDG_CACHE_HOME` when set and non-empty,
/// else `$HOME/.cache`, else the temporary directory.
pub open spec fn cache_home_of(xdg: Option<Seq<char>>, home: Option<Seq<char>>, temp: Seq<char>) -> Seq<char> {
    match xdg {
        Some(d) if d.len() > 0 => d,
        _ => match home {
            Some(h) => joined(h, ".cache"@),
            None => temp,
        },
    }
}

pub open spec fn opt_text(s: Option<String>) -> Option<Seq<char>> {
    match s {
        Some(t) => Some(t@),
        None => None,
    }
}

/// Resolve the user's config directory from the environment values.
pub fn xdg_config_home(xdg: Option<String>, home: Option<String>, temp: String) -> (res: String)
    ensures
        res@ == config_home_of(opt_text(xdg), opt_text(home), temp@),
{
    if let Some(d) = xdg {
        if !d.as_str().is_empty() {
            return d;
        }
    }
    match home {
        Some(h) => join_path(h.as_str(), ".config"),
        None => temp,
    }
}

/// Resolve the user's cache directory from the environment values.
pub fn xdg_cache_home(xdg: Option<String>, home: Option<String>, temp: String) -> (res: String)
    ensures
        res@ == cache_home_of(opt_text(xdg), opt_text(home), temp@),
{
    if let Some(d) = xdg {
        if !d.as_str().is_empty() {
            return d;
        }
    }
    match home {
        Some(h) => join_path(h.as_str(), ".cache"),
        None => temp,
    }
}

} // verus!
