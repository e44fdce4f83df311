//! The user configuration of the `archelon` command line tool
//! (`archelon/config.toml` under the user's config directory): the vector
//! database and embedding provider of its cache, and the environment
//! variables that override them.

use vstd::prelude::*;

use crate::journal::{join_path, joined};
use crate::number::{parse_u32, u32_from_text};
use crate::recall_config::text_given;
use crate::text::{chars_of, owned};
use crate::user_config::{VectorDb, opt_text, parse_vector_db, vector_db_named};

verus! {

/// The `[cache.embedding]` section.
#[derive(Clone, Debug)]
pub struct EmbeddingConfig {
    pub provider: String,
    pub model: String,
    pub api_key_env: Option<String>,
    pub base_url: Option<String>,
    pub dimension: Option<u32>,
}

/// The `[cache]` section.
#[derive(Clone, Debug)]
pub struct CacheConfig {
    pub vector_db: VectorDb,
    pub embedding: Option<EmbeddingConfig>,
}

/// The tool's user configuration.
#[derive(Clone, Debug)]
pub struct UserConfig {
    pub cache: CacheConfig,
}

impl Default for UserConfig {
    fn default() -> (res: UserConfig)
        ensures
            res.cache.vector_db == VectorDb::Disabled,
            res.cache.embedding is None,
    {
        UserConfig { cache: CacheConfig { vector_db: VectorDb::Disabled, embedding: None } }
    }
}

/// The raw values of the `ARCHELON_CACHE_...` environment variables, absent
/// when unset.
#[derive(Clone, Debug, Default)]
pub struct EnvOverrides {
    /// `ARCHELON_CACHE_VECTOR_DB`
    pub vector_db: Option<String>,
    /// `ARCHELON_CACHE_EMBEDDING_PROVIDER`
    pub provider: Option<String>,
    /// `ARCHELON_CACHE_EMBEDDING_MODEL`
    pub model: Option<String>,
    /// `ARCHELON_CACHE_EMBEDDING_API_KEY_ENV`
    pub api_key_env: Option<String>,
    /// `ARCHELON_CACHE_EMBEDDING_BASE_URL`
    pub base_url: Option<String>,
    /// `ARCHELON_CACHE_EMBEDDING_DIMENSION`
    pub dimension: Option<String>,
}

/// The value of a variable that overrides its field: one set to a non-empty
/// value; an empty value counts as unset.
pub open spec fn set_text(s: Option<String>) -> Option<Seq<char>> {
    match s {
        Some(v) => if v@.len() > 0 {
            Some(v@)
        } else {
            None
        },
        None => None,
    }
}

/// [`set_text`] for a field that is itself optional.
pub open spec fn set_opt(s: Option<String>) -> Option<Option<Seq<char>>> {
    match set_text(s) {
        Some(v) => Some(Some(v)),
        None => None,
    }
}

impl EnvOverrides {
    pub open spec fn db(self) -> Option<VectorDb> {
        match set_text(self.vector_db) {
            Some(v) => vector_db_named(v),
            None => None,
        }
    }

    pub open spec fn dim(self) -> Option<u32> {
        match set_text(self.dimension) {
            Some(v) => u32_from_text(v),
            None => None,
        }
    }

    /// Some embedding override applies: a variable set to a non-empty value
    /// (a dimension that reads as a number).
    pub open spec fn touches_embedding(self) -> bool {
        set_text(self.provider) is Some || set_text(self.model) is Some || set_text(self.api_key_env) is Some
            || set_text(self.base_url) is Some || self.dim() is Some
    }
}

/// `s`, with a value that is empty taken as unset.
fn non_empty(s: Option<String>) -> (res: Option<String>)
    ensures
        text_given(res) == set_text(s),
        res matches Some(v) ==> s == Some(v),
{
    match s {
        Some(v) => if v.as_str().is_empty() {
            None
        } else {
            Some(v)
        },
        None => None,
    }
}

/// An embedding field after the overrides: the override when given, else
/// the configured value, else the value of an empty section.
pub open spec fn field_after<T>(given: Option<T>, old: Option<EmbeddingConfig>, of: spec_fn(EmbeddingConfig) -> T, empty: T) -> T {
    match given {
        Some(v) => v,
        None => match old {
            Some(e) => of(e),
            None => empty,
        },
    }
}

impl UserConfig {
    /// `{config_home}/archelon/config.toml`.
    pub fn path(config_home: &str) -> (res: String)
        ensures
            res@ == joined(joined(config_home@, "archelon"@), "config.toml"@),
    {
        join_path(join_path(config_home, "archelon").as_str(), "config.toml")
    }

    /// Apply the environment overrides.  A variable overrides its field only
    /// when set to a non-empty value: a known vector database replaces the
    /// configured one; any embedding override creates the embedding section
    /// if missing (no provider or model) and each such value replaces its
    /// field, an unreadable dimension being ignored.
    pub fn apply_env_overrides(&mut self, env: EnvOverrides)
        ensures
            final(self).cache.vector_db == match env.db() {
                Some(d) => d,
                None => old(self).cache.vector_db,
            },
            !env.touches_embedding() ==> final(self).cache.embedding == old(self).cache.embedding,
            env.touches_embedding() ==> (final(self).cache.embedding matches Some(e) && {
                let o = old(self).cache.embedding;
                &&& e.provider@ == field_after(set_text(env.provider), o, |c: EmbeddingConfig| c.provider@, seq![])
                &&& e.model@ == field_after(set_text(env.model), o, |c: EmbeddingConfig| c.model@, seq![])
                &&& opt_text(e.api_key_env) == field_after(
                    set_opt(env.api_key_env),
                    o,
                    |c: EmbeddingConfig| opt_text(c.api_key_env),
                    None,
                )
                &&& opt_text(e.base_url) == field_after(
                    set_opt(env.base_url),
                    o,
                    |c: EmbeddingConfig| opt_text(c.base_url),
                    None,
                )
                &&& e.dimension == field_after(
                    match env.dim() {
                        Some(d) => Some(Some(d)),
                        None => None,
                    },
                    o,
                    |c: EmbeddingConfig| c.dimension,
                    None,
                )
            }),
    {
        let EnvOverrides { vector_db, provider, model, api_key_env, base_url, dimension } = env;
        if let Some(v) = non_empty(vector_db) {
            if let Some(d) = parse_vector_db(v.as_str()) {
                self.cache.vector_db = d;
            }
        }
        let dimension = match non_empty(dimension) {
            Some(v) => parse_u32(&chars_of(v.as_str())),
            None => None,
        };
        let provider = non_empty(provider);
        let model = non_empty(model);
        let api_key_env = non_empty(api_key_env);
        let base_url = non_empty(base_url);
        let any = provider.is_some() || model.is_some() || api_key_env.is_some() || base_url.is_some()
            || dimension.is_some();
        if !any {
            return;
        }
        proof {
            reveal_strlit("");
        }
        let mut embed = match self.cache.embedding.take() {
            Some(e) => e,
            None => EmbeddingConfig {
                provider: owned(""),
                model: owned(""),
                api_key_env: None,
                base_url: None,
                dimension: None,
            },
        };
        if let Some(v) = provider {
            embed.provider = v;
        }
        if let Some(v) = model {
            embed.model = v;
        }
        if let Some(v) = api_key_env {
            embed.api_key_env = Some(v);
        }
        if let Some(v) = base_url {
            embed.base_url = Some(v);
        }
        if let Some(v) = dimension {
            embed.dimension = Some(v);
        }
        self.cache.embedding = Some(embed);
    }
}

} // verus!
