//! Verified core of a Markdown-based journal: entries with YAML frontmatter,
//! period filters, hierarchy, labels and filenames.

pub mod cache;
pub mod cache_config;
pub mod calendar;
pub mod cli;
pub mod date_range;
pub mod datetime;
pub mod emoji;
pub mod entry;
pub mod entry_files;
pub mod entry_ref;
pub mod error;
pub mod gpu;
pub mod home;
pub mod id;
pub mod journal;
pub mod month_grid;
pub mod labels;
pub mod number;
pub mod ops;
pub mod order;
pub mod parser;
pub mod period;
pub mod recall_config;
pub mod registry;
pub mod settings;
pub mod text;
pub mod user_config;
pub mod vector_store;
pub mod week_period;
pub mod workspace;
