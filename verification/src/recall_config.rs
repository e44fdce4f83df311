//! The settings of the recall tool (`config.toml` under the user's config
//! directory): its embedding section and the environment variables that
//! override it.

use vstd::prelude::*;

use crate::journal::{join_path, joined};
use crate::number::{parse_u32, u32_from_text};
use crate::text::{chars_of, owned, str_eq};
use crate::user_config::{VectorDb, is_truthy, opt_text, parse_vector_db, vector_db_named};

verus! {

/// The `[embedding]` section.
#[derive(Clone, Debug)]
pub struct EmbeddingConfig {
    pub enabled: bool,
    pub vector_db: VectorDb,
    pub provider: String,
    pub model: String,
    pub api_key_env: Option<String>,
    pub base_url: Option<String>,
    pub dimension: Option<u32>,
}

/// The recall tool's settings.
#[derive(Clone, Debug)]
pub struct UserConfig {
    pub embedding: Option<EmbeddingConfig>,
}

/// The raw values of the `ARCHELON_RECALL_EMBEDDING_...` environment
/// variables, absent when unset.
#[derive(Clone, Debug, Default)]
pub struct EnvOverrides {
    /// `..._ENABLED`
    pub enabled: Option<String>,
    /// `..._VECTOR_DB`
    pub vector_db: Option<String>,
    /// `..._PROVIDER`
    pub provider: Option<String>,
    /// `..._MODEL`
    pub model: Option<String>,
    /// `..._API_KEY_ENV`
    pub api_key_env: Option<String>,
    /// `..._BASE_URL`
    pub base_url: Option<String>,
    /// `..._DIMENSION`
    pub dimension: Option<String>,
}

impl EnvOverrides {
    pub open spec fn db(self) -> Option<VectorDb> {
        match self.vector_db {
            Some(v) => vector_db_named(v@),
            None => None,
        }
    }

    pub open spec fn dim(self) -> Option<u32> {
        match self.dimension {
            Some(v) => u32_from_text(v@),
            None => None,
        }
    }

    /// Some override applies: a value is set and, for the database and the
    /// dimension, it reads.
    pub open spec fn any(self) -> bool {
        self.enabled is Some || self.db() is Some || self.provider is Some || self.model is Some
            || self.api_key_env is Some || self.base_url is Some || self.dim() is Some
    }
}

/// A field of the embedding section after the overrides: the override when
/// given, else the configured value, else the value of an empty section.
pub open spec fn pick<T>(given: Option<T>, old: Option<EmbeddingConfig>, of: spec_fn(EmbeddingConfig) -> T, empty: T) -> T {
    match given {
        Some(v) => v,
        None => match old {
            Some(e) => of(e),
            None => empty,
        },
    }
}

pub open spec fn text_given(s: Option<String>) -> Option<Seq<char>> {
    match s {
        Some(v) => Some(v@),
        None => None,
    }
}

pub open spec fn opt_given(s: Option<String>) -> Option<Option<Seq<char>>> {
    match s {
        Some(v) => Some(Some(v@)),
        None => None,
    }
}

fn read_u32(s: &str) -> (res: Option<u32>)
    ensures
        res == u32_from_text(s@),
{
    parse_u32(&chars_of(s))
}

impl UserConfig {
    /// `{config_home}/archelon-recall/config.toml`.
    pub fn path(config_home: &str) -> (res: String)
        ensures
            res@ == joined(joined(config_home@, "archelon-recall"@), "config.toml"@),
    {
        join_path(join_path(config_home, "archelon-recall").as_str(), "config.toml")
    }

    /// Apply the environment overrides: when any applies, the embedding
    /// section is created if missing (disabled, no database, no provider or
    /// model) and each given value replaces its field; the switch is on for
    /// `1`, `true` or `yes`; an unknown database or an unreadable dimension
    /// is ignored.  Without any override nothing changes.
    pub fn apply_env_overrides(&mut self, env: EnvOverrides)
        ensures
            !env.any() ==> *final(self) == *old(self),
            env.any() ==> (final(self).embedding matches Some(e) && {
                let o = old(self).embedding;
                &&& e.enabled == pick(
                    match env.enabled {
                        Some(v) => Some(is_truthy(v@)),
                        None => None,
                    },
                    o,
                    |c: EmbeddingConfig| c.enabled,
                    false,
                )
                &&& e.vector_db == pick(env.db(), o, |c: EmbeddingConfig| c.vector_db, VectorDb::Disabled)
                &&& e.provider@ == pick(text_given(env.provider), o, |c: EmbeddingConfig| c.provider@, seq![])
                &&& e.model@ == pick(text_given(env.model), o, |c: EmbeddingConfig| c.model@, seq![])
                &&& opt_text(e.api_key_env) == pick(
                    opt_given(env.api_key_env),
                    o,
                    |c: EmbeddingConfig| opt_text(c.api_key_env),
                    None,
                )
                &&& opt_text(e.base_url) == pick(
                    opt_given(env.base_url),
                    o,
                    |c: EmbeddingConfig| opt_text(c.base_url),
                    None,
                )
                &&& e.dimension == pick(
                    match env.dim() {
                        Some(d) => Some(Some(d)),
                        None => None,
                    },
                    o,
                    |c: EmbeddingConfig| c.dimension,
                    None,
                )
            }),
    {
        let enabled = match &env.enabled {
            Some(v) => Some(str_eq(v.as_str(), "1") || str_eq(v.as_str(), "true") || str_eq(v.as_str(), "yes")),
            None => None,
        };
        let vector_db = match &env.vector_db {
            Some(v) => parse_vector_db(v.as_str()),
            None => None,
        };
        let dimension = match &env.dimension {
            Some(v) => read_u32(v.as_str()),
            None => None,
        };
        let EnvOverrides {
            enabled: _,
            vector_db: _,
            provider,
            model,
            api_key_env,
            base_url,
            dimension: _,
        } = env;
        let any = enabled.is_some() || vector_db.is_some() || provider.is_some() || model.is_some()
            || api_key_env.is_some() || base_url.is_some() || dimension.is_some();
        if !any {
            return;
        }
        proof {
            reveal_strlit("");
        }
        let mut embed = match self.embedding.take() {
            Some(e) => e,
            None => EmbeddingConfig {
                enabled: false,
                vector_db: VectorDb::Disabled,
                provider: owned(""),
                model: owned(""),
                api_key_env: None,
                base_url: None,
                dimension: None,
            },
        };
        if let Some(v) = enabled {
            embed.enabled = v;
        }
        if let Some(v) = vector_db {
            embed.vector_db = v;
        }
        if let Some(v) = provider {
            embed.provider = v;
        }
        if let Some(v) = model {
            embed.model = v;
        }
        if let Some(v) = api_key_env {
            embed.api_key_env = Some(v);
        }
        if let Some(v) = base_url {
            embed.base_url = Some(v);
        }
        if let Some(v) = dimension {
            embed.dimension = Some(v);
        }
        self.embedding = Some(embed);
    }
}

} // verus!
