use sapphire_journal::cli::{render_slot, DisplayMode};
use sapphire_journal::datetime::Date;
use sapphire_journal::error::{unsigned_text, Error};
use sapphire_journal::labels::EntryFlag;
use sapphire_journal::month_grid::{
    add_months, format_period_range, grid_days, last_day_of_month, month_bounds, month_name, selection_from_period,
    week_bounds, Selection,
};
use sapphire_journal::period::{parse_datetime, Period};
use sapphire_journal::cache_config::{EnvOverrides as CacheEnv, UserConfig as CacheUserConfig};
use sapphire_journal::recall_config::{EnvOverrides as RecallEnv, UserConfig as RecallConfig};
use sapphire_journal::settings::{default_mcp_http_port, McpHttpSettings, RightTab, DEFAULT_MCP_HTTP_PORT};
use sapphire_journal::user_config::{
    default_sync_interval_minutes, parse_sync_backend, parse_vector_db, xdg_cache_home, xdg_config_home,
    EmbeddingConfig, EnvOverrides, SyncBackendKind, UserConfig, VectorDb,
};
use sapphire_journal::vector_store::{pending_chunks, vec_info_from, Chunk, VecInfo};
use sapphire_journal::workspace::{hex16, path_hash, Workspace};

fn d(year: i32, month: u32, day: u32) -> Date {
    Date { year, month, day }
}

#[test]
fn user_config_defaults_and_names() {
    let c = UserConfig::default();
    assert_eq!(c.cache.retrieve.db, VectorDb::Disabled);
    assert!(c.cache.retrieve.embedding.is_none());
    assert_eq!(c.sync.backend, SyncBackendKind::Auto);
    assert_eq!(c.sync_interval_minutes, Some(10));
    assert_eq!(c.sync_interval(), Some(600));
    assert_eq!(default_sync_interval_minutes(), Some(10));
    assert_eq!(parse_vector_db("sqlite_vec"), Some(VectorDb::SqliteVec));
    assert_eq!(parse_vector_db("lancedb"), Some(VectorDb::LanceDb));
    assert_eq!(parse_vector_db("none"), Some(VectorDb::Disabled));
    assert_eq!(parse_vector_db("other"), None);
    assert_eq!(VectorDb::SqliteVec.as_str(), "sqlite_vec");
    assert_eq!(parse_sync_backend("git"), Some(SyncBackendKind::Git));
    assert_eq!(parse_sync_backend("none"), Some(SyncBackendKind::Disabled));
    assert_eq!(parse_sync_backend("svn"), None);
    assert_eq!(UserConfig::path("/home/u/.config"), "/home/u/.config/sapphire-journal/config.toml");
    let e = EmbeddingConfig::empty();
    assert!(!e.enabled && e.provider.is_empty() && e.dimension.is_none());
}

#[test]
fn environment_overrides() {
    let mut c = UserConfig::default();
    c.sync_interval_minutes = Some(0);
    assert_eq!(c.sync_interval(), None);
    let env = EnvOverrides {
        retrieve_db: Some("sqlite_vec".to_owned()),
        embedding_enabled: Some("yes".to_owned()),
        embedding_model: Some("m".to_owned()),
        embedding_dimension: Some("abc".to_owned()),
        sync_backend: Some("bogus".to_owned()),
        sync_interval_minutes: Some("5".to_owned()),
        ..EnvOverrides::default()
    };
    c.apply_env_overrides(env);
    assert_eq!(c.cache.retrieve.db, VectorDb::SqliteVec);
    let e = c.cache.retrieve.embedding.clone().unwrap();
    assert!(e.enabled);
    assert_eq!(e.model, "m");
    assert_eq!(e.provider, "");
    // An unreadable dimension and an unknown backend are ignored.
    assert_eq!(e.dimension, None);
    assert_eq!(c.sync.backend, SyncBackendKind::Auto);
    assert_eq!(c.sync_interval_minutes, Some(5));
    // No overrides: nothing changes.
    let mut plain = UserConfig::default();
    plain.apply_env_overrides(EnvOverrides::default());
    assert!(plain.cache.retrieve.embedding.is_none());
    assert_eq!(plain.sync_interval_minutes, Some(10));
    // "0" turns the switch off.
    let mut off = UserConfig::default();
    off.apply_env_overrides(EnvOverrides { embedding_enabled: Some("0".to_owned()), ..EnvOverrides::default() });
    assert!(!off.cache.retrieve.embedding.unwrap().enabled);
}

#[test]
fn xdg_directories() {
    let tmp = "/tmp".to_owned();
    assert_eq!(xdg_config_home(Some("/x".to_owned()), Some("/h".to_owned()), tmp.clone()), "/x");
    assert_eq!(xdg_config_home(Some(String::new()), Some("/h".to_owned()), tmp.clone()), "/h/.config");
    assert_eq!(xdg_cache_home(None, Some("/h".to_owned()), tmp.clone()), "/h/.cache");
    assert_eq!(xdg_cache_home(None, None, tmp.clone()), "/tmp");
}

#[test]
fn workspace_index_folders() {
    assert_eq!(path_hash(""), 0xcbf29ce484222325);
    assert_eq!(path_hash("a"), 0xaf63dc4c8601ec8c);
    assert_eq!(hex16(255), "00000000000000ff");
    let w = Workspace { root: "a".to_owned() };
    assert_eq!(w.cache_dir("/c"), "/c/archelon-recall/af63dc4c8601ec8c-a");
    assert_eq!(w.retrieve_db_path("/c", 2), "/c/archelon-recall/af63dc4c8601ec8c-a/retrieve_v2.db");
    let root = Workspace { root: "/".to_owned() };
    assert!(root.cache_dir("/c").ends_with("-root"));
}

#[test]
fn month_grid_helpers() {
    assert_eq!(month_name(1), "Jan");
    assert_eq!(month_name(12), "Dec");
    assert_eq!(month_name(13), "?");
    assert_eq!(last_day_of_month(2024, 2), 29);
    assert_eq!(last_day_of_month(2026, 2), 28);
    assert_eq!(month_bounds(2026, 4), (d(2026, 4, 1), d(2026, 4, 30)));
    // The day is clamped to the end of the month.
    assert_eq!(add_months(d(2026, 1, 31), 1), d(2026, 2, 28));
    assert_eq!(add_months(d(2026, 1, 15), -1), d(2025, 12, 15));
    assert_eq!(add_months(d(2026, 11, 30), 14), d(2028, 1, 30));
    assert_eq!(week_bounds(d(2026, 3, 30)), (d(2026, 3, 30), d(2026, 4, 5)));
    assert_eq!(format_period_range(d(2026, 3, 5), d(2026, 3, 5)), "2026-03-05");
    assert_eq!(format_period_range(d(2026, 3, 1), d(2026, 3, 7)), "2026-03-01/2026-03-07");
    let p = Period::Range(parse_datetime("2026-03-01T00:00:00").unwrap(), parse_datetime("2026-03-07T23:59:59").unwrap());
    let s = selection_from_period(&p);
    assert_eq!(s, Selection::Range(d(2026, 3, 1), d(2026, 3, 7)));
    assert!(s.contains(d(2026, 3, 7)));
    assert!(!s.contains(d(2026, 3, 8)));
    assert!(!selection_from_period(&Period::Absent).contains(d(2026, 3, 1)));
    // March 2026 starts on a Sunday: the grid starts on Monday 23 February.
    let days = grid_days(d(2026, 3, 17));
    assert_eq!(days.len(), 42);
    assert_eq!(days[0], d(2026, 2, 23));
    assert_eq!(days[6], d(2026, 3, 1));
    assert_eq!(days[41], d(2026, 4, 5));
}

#[test]
fn vector_store_bookkeeping() {
    assert_eq!(
        vec_info_from(Some("384".to_owned()), Some(10), Some(12)),
        VecInfo { embedding_dim: 384, vector_count: 10, pending_count: 2 }
    );
    assert_eq!(vec_info_from(None, None, Some(3)), VecInfo { embedding_dim: 0, vector_count: 0, pending_count: 3 });
    assert_eq!(vec_info_from(Some("x".to_owned()), Some(5), Some(2)).pending_count, 0);
    let chunk = |id: i64, i: usize| Chunk {
        entry_id: id,
        chunk_index: i,
        text: String::new(),
        entry_title: String::new(),
        entry_path: String::new(),
    };
    let out = pending_chunks(vec![chunk(1, 0), chunk(1, 1), chunk(2, 0)], &vec![(1, 1)]);
    let keys: Vec<(i64, usize)> = out.iter().map(|c| (c.entry_id, c.chunk_index)).collect();
    assert_eq!(keys, vec![(1, 0), (2, 0)]);
}

#[test]
fn status_slots() {
    assert_eq!(DisplayMode::from_flags(true, true), DisplayMode::Emoji);
    assert_eq!(DisplayMode::from_flags(false, true), DisplayMode::Nerd);
    assert_eq!(DisplayMode::from_flags(false, false), DisplayMode::Initials);
    assert_eq!(render_slot(&[], DisplayMode::Initials), "·N");
    assert_eq!(render_slot(&[EntryFlag::Open], DisplayMode::Initials), "·O");
    assert_eq!(render_slot(&[EntryFlag::Overdue, EntryFlag::Open, EntryFlag::New], DisplayMode::Initials), "!O");
}

#[test]
fn error_messages() {
    assert_eq!(Error::AmbiguousId("ab".to_owned(), 3).message(), "id prefix `ab` is ambiguous (3 matches)");
    assert_eq!(Error::EntryAlreadyExists("x.md".to_owned()).message(), "x.md already exists");
    assert_eq!(
        Error::CacheSchemaTooNew { db_version: 4, app_version: 3 }.message(),
        "cache schema v4 is newer than this app supports (v3); update sapphire-journal, or recreate the cache with `sapphire-journal cache rebuild`"
    );
    assert_eq!(unsigned_text(0), "0");
    assert_eq!(unsigned_text(1234567), "1234567");
}

#[test]
fn desktop_settings() {
    assert_eq!(default_mcp_http_port(), 3737);
    assert_eq!(DEFAULT_MCP_HTTP_PORT, 3737);
    assert_eq!(McpHttpSettings::BIND, "127.0.0.1");
    let s = McpHttpSettings::default();
    assert_eq!(s.port, 3737);
    assert!(!s.enabled);
    assert_eq!(RightTab::default(), RightTab::Metadata);
}

#[test]
fn recall_settings_overrides() {
    use_recall();
}

fn use_recall() {
    let mut c = RecallConfig { embedding: None };
    c.apply_env_overrides(RecallEnv::default());
    assert!(c.embedding.is_none());
    // An unknown database alone is no override.
    c.apply_env_overrides(RecallEnv { vector_db: Some("faiss".to_owned()), ..RecallEnv::default() });
    assert!(c.embedding.is_none());
    c.apply_env_overrides(RecallEnv {
        vector_db: Some("lancedb".to_owned()),
        dimension: Some("768".to_owned()),
        enabled: Some("true".to_owned()),
        ..RecallEnv::default()
    });
    let e = c.embedding.clone().unwrap();
    assert!(e.enabled);
    assert_eq!(e.vector_db, VectorDb::LanceDb);
    assert_eq!(e.dimension, Some(768));
    assert_eq!(e.provider, "");
    c.apply_env_overrides(RecallEnv { model: Some("m".to_owned()), ..RecallEnv::default() });
    let e = c.embedding.unwrap();
    assert_eq!((e.model.as_str(), e.dimension, e.enabled), ("m", Some(768), true));
    assert_eq!(RecallConfig::path("/c"), "/c/archelon-recall/config.toml");
}

#[test]
fn cache_settings_overrides() {
    let mut c = CacheUserConfig::default();
    assert_eq!(c.cache.vector_db, VectorDb::Disabled);
    c.apply_env_overrides(CacheEnv { vector_db: Some("sqlite_vec".to_owned()), ..CacheEnv::default() });
    assert_eq!(c.cache.vector_db, VectorDb::SqliteVec);
    assert!(c.cache.embedding.is_none());
    c.apply_env_overrides(CacheEnv {
        vector_db: Some("bogus".to_owned()),
        provider: Some("openai".to_owned()),
        dimension: Some("x".to_owned()),
        ..CacheEnv::default()
    });
    assert_eq!(c.cache.vector_db, VectorDb::SqliteVec);
    let e = c.cache.embedding.unwrap();
    assert_eq!(e.provider, "openai");
    assert_eq!(e.dimension, None);
    assert_eq!(CacheUserConfig::path("/c"), "/c/archelon/config.toml");
}

#[test]
fn period_ranges_write_years_as_chrono_does() {
    let d = |y: i32, m: u32, day: u32| sapphire_journal::datetime::Date { year: y, month: m, day };
    assert_eq!(format_period_range(d(999, 1, 2), d(999, 1, 2)), "0999-01-02");
    assert_eq!(format_period_range(d(12345, 11, 30), d(12345, 11, 30)), "+12345-11-30");
    assert_eq!(format_period_range(d(-1, 12, 31), d(-1, 12, 31)), "-0001-12-31");
}

#[test]
fn period_ranges_read_back_as_their_selection() {
    let d = |y: i32, m: u32, day: u32| Date { year: y, month: m, day };
    let today = d(2026, 3, 5);
    for (s, e) in [(d(2026, 3, 1), d(2026, 3, 7)), (d(2026, 3, 5), d(2026, 3, 5)), (d(1999, 12, 31), d(2000, 1, 1))] {
        let text = format_period_range(s, e);
        let period = sapphire_journal::period::parse_period_at(&text, today).unwrap().unwrap();
        assert_eq!(selection_from_period(&period), sapphire_journal::month_grid::Selection::Range(s, e));
    }
}

#[test]
fn empty_cache_overrides_count_as_unset() {
    let mut c = CacheUserConfig::default();
    c.apply_env_overrides(CacheEnv {
        vector_db: Some(String::new()),
        provider: Some(String::new()),
        model: Some(String::new()),
        api_key_env: Some(String::new()),
        base_url: Some(String::new()),
        dimension: Some(String::new()),
    });
    assert_eq!(c.cache.vector_db, VectorDb::Disabled);
    assert!(c.cache.embedding.is_none());
    c.apply_env_overrides(CacheEnv { model: Some("m".to_owned()), base_url: Some(String::new()), ..CacheEnv::default() });
    let e = c.cache.embedding.unwrap();
    assert_eq!(e.model, "m");
    assert_eq!(e.base_url, None);
}
