use mpm::doctor::{
    check_health, finding_message, finding_name, output_human_readable, status_name, FileCondition, Finding,
    Observed, Severity,
};
use mpm::fallback::{fallback_error, Attempt, Finished};
use mpm::hash::{compute_hash, verify_plugin_hash, HashAlgorithm, HashError};
use mpm::lockfile::{LockedPlugin, Lockfile};
use mpm::manifest::{Manifest, PluginEntry, PluginSpec};
use mpm::messages::{hash_error_message, sync_error_message};
use mpm::source_trait::{ErrorKind, Reason, ResolveError, SourceKind};
use mpm::sync::{SyncError, SyncReason};

fn locked(name: &str, data: &[u8]) -> LockedPlugin {
    LockedPlugin {
        name: name.to_string(),
        source: "modrinth".to_string(),
        version: "1".to_string(),
        file: format!("{}.jar", name),
        url: "u".to_string(),
        hash: compute_hash(data, HashAlgorithm::Sha256),
    }
}

#[test]
fn error_messages_name_what_went_wrong() {
    let e = ResolveError::new(Reason::VersionIncompatible, Some(SourceKind::Modrinth), "worldedit")
        .about_version("7.3.0")
        .on_platform("1.21")
        .supporting(vec!["1.20".to_string(), "1.20.1".to_string()]);
    assert_eq!(
        e.message(),
        "Plugin 'worldedit' version '7.3.0' is not compatible with Minecraft 1.21. Compatible versions: 1.20, 1.20.1"
    );
    let e = ResolveError::new(Reason::NoneCompatible, None, "x").on_platform("1.21");
    assert_eq!(
        e.message(),
        "No versions of plugin 'x' are compatible with Minecraft 1.21. Latest version supports: unknown"
    );
    let e = ResolveError::new(Reason::VersionMissing, None, "x").about_version("9");
    assert_eq!(e.message(), "Version '9' not found for plugin 'x'");
    assert_eq!(ResolveError::new(Reason::NoVersions, None, "x").message(), "No versions found for plugin 'x'");
    assert_eq!(
        ResolveError::new(Reason::ProjectMissing, Some(SourceKind::Hangar), "a/b").message(),
        "Plugin 'a/b' not found in Hangar"
    );
    assert_eq!(
        ResolveError::new(Reason::EmptyId, Some(SourceKind::Spigot), "").message(),
        "Spigot plugin ID cannot be empty"
    );
    assert_eq!(
        ResolveError::new(Reason::HttpStatus, Some(SourceKind::GitHub), "o/r").with_status(503).message(),
        "Request for plugin 'o/r' failed: HTTP 503"
    );
    assert_eq!(
        ResolveError::new(Reason::UnknownSource, None, "bukkit")
            .supporting(vec!["modrinth".to_string(), "hangar".to_string()])
            .message(),
        "Unsupported source: 'bukkit'. Supported sources: modrinth, hangar"
    );
    assert_eq!(
        ResolveError::new(Reason::NoSearchResults, Some(SourceKind::GitHub), "zzz").message(),
        "No projects found matching 'zzz' in GitHub"
    );
    assert_eq!(ResolveError::new(Reason::TimedOut, None, "x").message(), "Search timed out after 3 minutes");
}

#[test]
fn state_errors_have_their_kind_and_message() {
    for reason in [
        Reason::ManifestMissing,
        Reason::ManifestExists,
        Reason::LockfileMissing,
        Reason::PluginsDirMissing,
        Reason::NotInManifest,
    ] {
        assert_eq!(reason.kind(), ErrorKind::StatePrecondition);
    }
    assert_eq!(
        ResolveError::new(Reason::ManifestMissing, None, "plugins.toml").message(),
        "Manifest not found. Run 'mpm init' first."
    );
    assert_eq!(
        ResolveError::new(Reason::ManifestExists, None, "plugins.toml").message(),
        "plugins.toml already exists. Remove it first before importing."
    );
    assert_eq!(
        ResolveError::new(Reason::NotInManifest, None, "x").message(),
        "Plugin 'x' not found in manifest"
    );
    assert_eq!(
        ResolveError::new(Reason::PluginsDirMissing, None, "./plugins").message(),
        "Plugins directory './plugins' does not exist"
    );
}

#[test]
fn fallback_message_counts_the_attempts() {
    let results = vec![
        Finished {
            attempt: Attempt { source: SourceKind::Hangar, plugin_id: "p".to_string(), priority: 2 },
            outcome: Err(ResolveError::new(Reason::NoSearchResults, Some(SourceKind::Hangar), "p")),
        },
        Finished {
            attempt: Attempt { source: SourceKind::Modrinth, plugin_id: "p".to_string(), priority: 0 },
            outcome: Err(ResolveError::new(Reason::ProjectMissing, Some(SourceKind::Modrinth), "p")),
        },
    ];
    assert_eq!(
        fallback_error("p", &results).message(),
        "Plugin 'p' not found in any source (2 tried). Last attempted source 'Modrinth': Plugin 'p' not found in Modrinth"
    );
    assert_eq!(fallback_error("p", &Vec::new()).message(), "Plugin 'p' not found in any source.");
}

#[test]
fn sync_and_hash_messages() {
    let plugins = vec![locked("a", b"1")];
    let e = SyncError { reason: SyncReason::Integrity, plugin: Some(0) };
    assert_eq!(sync_error_message(&e, &plugins), "Hash mismatch for a");
    let e = SyncError { reason: SyncReason::Io, plugin: None };
    assert_eq!(sync_error_message(&e, &plugins), "File operation failed");
    let e = SyncError { reason: SyncReason::BadHash(HashError::UnsupportedAlgorithm), plugin: Some(7) };
    assert_eq!(sync_error_message(&e, &plugins), "Unsupported hash algorithm");
    assert_eq!(hash_error_message(HashError::MissingSeparator), "Hash has no algorithm: expected 'algorithm:hex'");
}

#[test]
fn verify_plugin_hash_goes_by_the_algorithm_name() {
    assert_eq!(verify_plugin_hash(b"x", "sha256").unwrap(), compute_hash(b"x", HashAlgorithm::Sha256));
    assert_eq!(verify_plugin_hash(b"x", "sha512").unwrap(), compute_hash(b"x", HashAlgorithm::Sha512));
    assert_eq!(verify_plugin_hash(b"x", "md5").unwrap_err(), HashError::UnsupportedAlgorithm);
}

#[test]
fn the_report_reads_the_same_in_words() {
    let mut l = Lockfile::new();
    l.add_plugin(locked("a", b"aaa"));
    l.add_plugin(locked("b", b"bbb"));
    let observed = vec![
        Observed::Present { name: "a.jar".to_string(), data: b"aaa".to_vec() },
        Observed::Missing,
    ];
    let listing = vec!["a.jar".to_string(), "stray.jar".to_string()];
    let report = check_health(FileCondition::Valid, Some(&l), false, &observed, &listing);
    let lines = output_human_readable(&report, &l.plugin);
    assert_eq!(
        lines,
        vec![
            "  [ok] plugins.toml: File exists and parses correctly",
            "  [ok] plugins.lock: File exists and parses correctly (2 plugin(s))",
            "  [ok] plugin:a: All checks passed for 'a.jar'",
            "  [error] plugin:b: File 'b.jar' not found",
            "  [warning] unmanaged:stray.jar: Unmanaged .jar file: 'stray.jar'",
            "Summary: 3 passed, 1 warning(s), 1 error(s); status: error",
        ]
    );
    let f = Finding::HashMismatch { plugin: 1 };
    assert_eq!(finding_name(&f, &l.plugin, &report.unmanaged), "plugin:b");
    assert_eq!(finding_message(&f, &l.plugin, &report.unmanaged), "Hash mismatch for 'b.jar'");
    let f = Finding::PluginOk { plugin: 9 };
    assert_eq!(finding_name(&f, &l.plugin, &report.unmanaged), "plugin:?");
    assert_eq!(status_name(Severity::Healthy), "ok");
    assert_eq!(status_name(Severity::Warning), "warning");
    assert_eq!(status_name(Severity::Error), "error");
}

#[test]
fn manifests_can_be_checked_for_order() {
    let mut m = Manifest::new("1.20");
    assert!(m.is_well_formed());
    m.insert("b", PluginSpec { source: "modrinth".to_string(), id: "b".to_string(), version: None });
    m.insert("a", PluginSpec { source: "modrinth".to_string(), id: "a".to_string(), version: None });
    assert!(m.is_well_formed());
    m.plugins.push(PluginEntry {
        name: "a".to_string(),
        spec: PluginSpec { source: "modrinth".to_string(), id: "a".to_string(), version: None },
    });
    assert!(!m.is_well_formed());
    m.plugins.pop();
    m.plugins.push(PluginEntry {
        name: "b".to_string(),
        spec: PluginSpec { source: "modrinth".to_string(), id: "b".to_string(), version: None },
    });
    assert!(!m.is_well_formed());
}
