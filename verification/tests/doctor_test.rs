use mpm::doctor::{
    check_health, check_lockfile, check_manifest, check_plugin, check_plugin_files, check_unmanaged_files,
    FileCondition, Finding, Observed, Severity,
};
use mpm::hash::{compute_hash, HashAlgorithm, HashError};
use mpm::lockfile::{LockedPlugin, Lockfile};

fn locked(name: &str, data: &[u8]) -> LockedPlugin {
    LockedPlugin {
        name: name.to_string(),
        source: "modrinth".to_string(),
        version: "1".to_string(),
        file: format!("{}.jar", name),
        url: "u".to_string(),
        hash: compute_hash(data, HashAlgorithm::Sha512),
    }
}

fn lockfile(plugins: &[(&str, &[u8])]) -> Lockfile {
    let mut l = Lockfile::new();
    for (n, d) in plugins {
        l.add_plugin(locked(n, d));
    }
    l
}

fn present(name: &str, data: &[u8]) -> Observed {
    Observed::Present { name: name.to_string(), data: data.to_vec() }
}

fn listing(names: &[&str]) -> Vec<String> {
    names.iter().map(|n| n.to_string()).collect()
}

#[test]
fn a_healthy_directory_has_only_good_findings() {
    let l = lockfile(&[("a", b"aaa"), ("b", b"bbb")]);
    let observed = vec![present("a.jar", b"aaa"), present("b.jar", b"bbb")];
    let r = check_health(FileCondition::Valid, Some(&l), false, &observed, &listing(&["a.jar", "b.jar", "plugins.toml"]));
    assert_eq!(r.schema_version, 1);
    assert_eq!(r.status, Severity::Healthy);
    assert_eq!(r.exit_code(), 0);
    assert_eq!(
        r.findings,
        vec![
            Finding::ManifestValid,
            Finding::LockfileValid { plugins: 2 },
            Finding::PluginOk { plugin: 0 },
            Finding::PluginOk { plugin: 1 },
        ]
    );
    assert_eq!((r.ok, r.warnings, r.errors), (4, 0, 0));
    assert!(r.unmanaged.is_empty());
}

#[test]
fn an_unmanaged_jar_is_one_warning_and_exit_code_one() {
    let l = lockfile(&[("a", b"aaa")]);
    let observed = vec![present("a.jar", b"aaa")];
    let r = check_health(FileCondition::Valid, Some(&l), false, &observed, &listing(&["a.jar", "stray.jar"]));
    let warnings: Vec<&Finding> = r.findings.iter().filter(|f| f.severity() == Severity::Warning).collect();
    assert_eq!(warnings, vec![&Finding::Unmanaged { file: 0 }]);
    assert_eq!(r.unmanaged, vec!["stray.jar"]);
    assert_eq!(r.status, Severity::Warning);
    assert_eq!(r.exit_code(), 1);
    assert_eq!((r.ok, r.warnings, r.errors), (3, 1, 0));
}

#[test]
fn corrupted_bytes_are_a_hash_mismatch_and_exit_code_two() {
    let l = lockfile(&[("a", b"aaa"), ("b", b"bbb")]);
    let observed = vec![present("a.jar", b"aaa"), present("b.jar", b"bbX")];
    let r = check_health(FileCondition::Valid, Some(&l), false, &observed, &listing(&["a.jar", "b.jar", "x.jar"]));
    assert!(r.findings.contains(&Finding::HashMismatch { plugin: 1 }));
    assert_eq!(Finding::HashMismatch { plugin: 1 }.severity(), Severity::Error);
    assert_eq!(r.status, Severity::Error);
    assert_eq!(r.exit_code(), 2);
    assert_eq!((r.ok, r.warnings, r.errors), (3, 1, 1));
}

#[test]
fn each_plugin_check_stops_at_its_first_failure() {
    let p = locked("a", b"aaa");
    assert_eq!(check_plugin(&p, 3, &Observed::Missing), Finding::PluginMissing { plugin: 3 });
    assert_eq!(check_plugin(&p, 3, &present("A.jar", b"aaa")), Finding::FilenameMismatch { plugin: 3 });
    assert_eq!(check_plugin(&p, 3, &present("a.jar", b"zzz")), Finding::HashMismatch { plugin: 3 });
    assert_eq!(check_plugin(&p, 3, &present("a.jar", b"aaa")), Finding::PluginOk { plugin: 3 });
    assert_eq!(
        check_plugin(&p, 3, &Observed::Unreadable { name: "a.jar".to_string() }),
        Finding::FileUnreadable { plugin: 3 }
    );
    assert_eq!(
        check_plugin(&p, 3, &Observed::Unreadable { name: "b.jar".to_string() }),
        Finding::FilenameMismatch { plugin: 3 }
    );
    let mut bad = locked("a", b"aaa");
    bad.hash = "md5:1".to_string();
    assert_eq!(
        check_plugin(&bad, 0, &present("a.jar", b"aaa")),
        Finding::HashUnreadable { plugin: 0, error: HashError::UnsupportedAlgorithm }
    );
    assert_eq!(
        check_plugin(&bad, 0, &Observed::Unreadable { name: "a.jar".to_string() }),
        Finding::HashUnreadable { plugin: 0, error: HashError::UnsupportedAlgorithm }
    );
}

#[test]
fn plugin_files_are_checked_one_by_one() {
    let l = lockfile(&[("a", b"aaa"), ("b", b"bbb")]);
    let findings = check_plugin_files(&l, &vec![Observed::Missing, present("b.jar", b"bbb")]);
    assert_eq!(findings, vec![Finding::PluginMissing { plugin: 0 }, Finding::PluginOk { plugin: 1 }]);
}

#[test]
fn unmanaged_files_come_sorted() {
    let l = lockfile(&[("m", b"1")]);
    let found = check_unmanaged_files(&l, &listing(&["z.jar", "m.jar", "B.jar", "a.jar", "readme.md"]));
    assert_eq!(found, vec!["B.jar", "a.jar", "z.jar"]);
}

#[test]
fn missing_or_invalid_configuration_is_an_error() {
    assert_eq!(check_manifest(FileCondition::Missing), Finding::ManifestMissing);
    assert_eq!(check_manifest(FileCondition::Invalid), Finding::ManifestInvalid);
    assert_eq!(check_manifest(FileCondition::Valid), Finding::ManifestValid);
    assert_eq!(check_lockfile(FileCondition::Valid, 7), Finding::LockfileValid { plugins: 7 });
    assert_eq!(check_lockfile(FileCondition::Missing, 7), Finding::LockfileMissing);
    let r = check_health(FileCondition::Missing, None, false, &Vec::new(), &listing(&["x.jar"]));
    assert_eq!(r.findings, vec![Finding::ManifestMissing, Finding::LockfileMissing]);
    assert_eq!(r.exit_code(), 2);
    assert_eq!((r.ok, r.warnings, r.errors), (0, 0, 2));
    assert!(r.unmanaged.is_empty());
    let r = check_health(FileCondition::Valid, None, true, &Vec::new(), &Vec::new());
    assert_eq!(r.findings, vec![Finding::ManifestValid, Finding::LockfileInvalid]);
    assert_eq!(r.status, Severity::Error);
}
