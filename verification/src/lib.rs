//! Deterministic plugin management for game servers: resolution of manifest
//! entries against several catalogs, a reproducible lockfile, and the plans
//! that bring a plugin directory into line with it.

pub mod add;
pub mod config;
pub mod constants;
pub mod doctor;
pub mod fallback;
pub mod github;
pub mod hangar;
pub mod hash;
pub mod http;
pub mod import;
pub mod lock;
pub mod lockfile;
pub mod manifest;
pub mod messages;
pub mod modrinth;
pub mod numbers;
pub mod order;
pub mod resolution;
pub mod search;
pub mod seqs;
pub mod source_trait;
pub mod sources;
pub mod spigot;
pub mod sync;
pub mod text;
pub mod urls;
pub mod version_data;
pub mod version_matcher;
pub mod version_selector;
