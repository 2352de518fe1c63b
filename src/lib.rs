//! Content and repository-metadata core of a personal portfolio site: GitHub
//! URL parsing, a TTL cache of repository metadata, project enrichment, and a
//! bilingual Markdown blog pipeline.

pub mod text;
pub mod json;
pub mod github_api;
pub mod github_cache;
pub mod i18n;
pub mod projects;
pub mod markdown_loader;
pub mod blog;
pub mod utils;
pub mod project_images;
pub mod github_stats;
pub mod config;
pub mod dict;
pub mod data;
