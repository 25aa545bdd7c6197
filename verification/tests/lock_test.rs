use mpm::add::{add_plugin_to_manifest, parse_spec};
use mpm::config::{config_dir, lockfile_path, manifest_path, plugins_dir};
use mpm::lock::{assemble, dry_run_code, has_github_plugins, lock_step, same_lockfile, LockStep};
use mpm::lockfile::{LockedPlugin, Lockfile};
use mpm::manifest::{Manifest, PluginSpec};
use mpm::source_trait::{Reason, ResolvedVersion, SourceKind};
use mpm::sources::SourceRegistry;

fn spec(source: &str, id: &str, version: Option<&str>) -> PluginSpec {
    PluginSpec { source: source.to_string(), id: id.to_string(), version: version.map(String::from) }
}

fn resolved(version: &str, file: &str) -> ResolvedVersion {
    ResolvedVersion {
        version: version.to_string(),
        filename: file.to_string(),
        url: format!("https://cdn/{}", file),
        hash: "sha512:ab".to_string(),
    }
}

fn locked(name: &str) -> LockedPlugin {
    LockedPlugin {
        name: name.to_string(),
        source: "modrinth".to_string(),
        version: "1".to_string(),
        file: format!("{}.jar", name),
        url: "u".to_string(),
        hash: "sha256:00".to_string(),
    }
}

fn names(manifest: &Manifest) -> Vec<&str> {
    manifest.plugins.iter().map(|e| e.name.as_str()).collect()
}

#[test]
fn manifest_keeps_names_unique_and_ascending() {
    let mut m = Manifest::new("1.20.1");
    assert_eq!(m.minecraft.version, "1.20.1");
    m.insert("worldedit", spec("modrinth", "worldedit", None));
    m.insert("fabric-api", spec("modrinth", "fabric-api", None));
    m.insert("zeta", spec("hangar", "a/zeta", Some("2")));
    m.insert("Alpha", spec("github", "o/alpha", None));
    assert_eq!(names(&m), vec!["Alpha", "fabric-api", "worldedit", "zeta"]);
    m.insert("worldedit", spec("hangar", "EngineHub/WorldEdit", Some("7.3.0")));
    assert_eq!(names(&m), vec!["Alpha", "fabric-api", "worldedit", "zeta"]);
    let got = m.get("worldedit").unwrap();
    assert_eq!(got.source, "hangar");
    assert_eq!(got.version.as_deref(), Some("7.3.0"));
    assert!(m.get("missing").is_none());
    let removed = m.remove("fabric-api").unwrap();
    assert_eq!(removed.id, "fabric-api");
    assert!(m.remove("fabric-api").is_none());
    assert_eq!(names(&m), vec!["Alpha", "worldedit", "zeta"]);
}

#[test]
fn lockfile_sorts_by_name() {
    let mut l = Lockfile::new();
    assert!(l.plugin.is_empty());
    for n in ["worldedit", "Zed", "fabric-api", "alpha", "fabric-api"] {
        let mut p = locked(n);
        p.version = l.plugin.len().to_string();
        l.add_plugin(p);
    }
    l.sort_by_name();
    let order: Vec<(&str, &str)> = l.plugin.iter().map(|p| (p.name.as_str(), p.version.as_str())).collect();
    assert_eq!(
        order,
        vec![("Zed", "1"), ("alpha", "3"), ("fabric-api", "2"), ("fabric-api", "4"), ("worldedit", "0")]
    );
    let again: Vec<String> = {
        l.sort_by_name();
        l.plugin.iter().map(|p| p.version.clone()).collect()
    };
    assert_eq!(again, vec!["1", "3", "2", "4", "0"]);
    assert_eq!(l.plugin[0].parse_hash().unwrap().1, "00");
}

#[test]
fn lock_resolves_each_plugin_in_turn() {
    let registry = SourceRegistry::new();
    let mut m = Manifest::new("1.20.1");
    m.insert("fabric-api", spec("modrinth", "fabric-api", None));
    m.insert("essentials", spec("github", "EssentialsX/Essentials", Some("2.20.1")));
    let mut done: Vec<ResolvedVersion> = Vec::new();
    match lock_step(&m, &registry, &done) {
        LockStep::Resolve(r) => {
            assert_eq!(r.name, "essentials");
            assert_eq!(r.source, SourceKind::GitHub);
            assert_eq!(r.plugin_id, "EssentialsX/Essentials");
            assert_eq!(r.version.as_deref(), Some("2.20.1"));
            assert_eq!(r.platform, "1.20.1");
        }
        other => panic!("{:?}", other),
    }
    done.push(resolved("2.20.1", "EssentialsX.jar"));
    match lock_step(&m, &registry, &done) {
        LockStep::Resolve(r) => {
            assert_eq!(r.name, "fabric-api");
            assert_eq!(r.source, SourceKind::Modrinth);
            assert_eq!(r.version, None);
        }
        other => panic!("{:?}", other),
    }
    done.push(resolved("0.92.1", "fabric-api.jar"));
    match lock_step(&m, &registry, &done) {
        LockStep::Finished(lockfile) => {
            assert_eq!(lockfile.plugin.len(), 2);
            assert_eq!(lockfile.plugin[0].name, "essentials");
            assert_eq!(lockfile.plugin[0].source, "github");
            assert_eq!(lockfile.plugin[0].version, "2.20.1");
            assert_eq!(lockfile.plugin[0].file, "EssentialsX.jar");
            assert_eq!(lockfile.plugin[0].url, "https://cdn/EssentialsX.jar");
            assert_eq!(lockfile.plugin[0].hash, "sha512:ab");
            assert_eq!(lockfile.plugin[1].name, "fabric-api");
            let again = assemble(&m, &done);
            assert!(same_lockfile(&lockfile, &again));
            assert_eq!(dry_run_code(&again, Some(&lockfile)), 0);
        }
        other => panic!("{:?}", other),
    }
    assert!(has_github_plugins(&m));
}

#[test]
fn lock_fails_for_unknown_source_and_empty_identifier() {
    let registry = SourceRegistry::new();
    let mut m = Manifest::new("1.20.1");
    m.insert("a", spec("bukkit", "a", None));
    match lock_step(&m, &registry, &Vec::new()) {
        LockStep::Failed(e) => {
            assert_eq!(e.reason, Reason::UnknownSource);
            assert_eq!(e.subject, "bukkit");
        }
        other => panic!("{:?}", other),
    }
    let mut m = Manifest::new("1.20.1");
    m.insert("a", spec("spigot", "", None));
    match lock_step(&m, &registry, &Vec::new()) {
        LockStep::Failed(e) => {
            assert_eq!(e.reason, Reason::EmptyId);
            assert_eq!(e.source, Some(SourceKind::Spigot));
        }
        other => panic!("{:?}", other),
    }
    assert!(!has_github_plugins(&m));
    let empty = Manifest::new("1.20.1");
    match lock_step(&empty, &registry, &Vec::new()) {
        LockStep::Finished(l) => assert!(l.plugin.is_empty()),
        other => panic!("{:?}", other),
    }
}

#[test]
fn dry_run_code_says_whether_the_lockfile_would_change() {
    let mut a = Lockfile::new();
    a.add_plugin(locked("x"));
    let mut b = Lockfile::new();
    b.add_plugin(locked("x"));
    assert_eq!(dry_run_code(&a, Some(&b)), 0);
    b.plugin[0].hash = "sha256:01".to_string();
    assert_eq!(dry_run_code(&a, Some(&b)), 1);
    assert_eq!(dry_run_code(&a, None), 1);
    b.plugin[0].hash = "sha256:00".to_string();
    b.add_plugin(locked("y"));
    assert!(!same_lockfile(&a, &b));
}

#[test]
fn specifications_are_read_by_their_separators() {
    let r = parse_spec("modrinth:worldedit@7.3.0");
    assert_eq!((r.source.as_deref(), r.id.as_str(), r.version.as_deref()), (Some("modrinth"), "worldedit", Some("7.3.0")));
    let r = parse_spec("fabric-api");
    assert_eq!((r.source.as_deref(), r.id.as_str(), r.version.as_deref()), (None, "fabric-api", None));
    let r = parse_spec("worldedit@7.3.0");
    assert_eq!((r.source.as_deref(), r.id.as_str(), r.version.as_deref()), (None, "worldedit", Some("7.3.0")));
    let r = parse_spec("hangar:ViaVersion/ViaVersion");
    assert_eq!((r.source.as_deref(), r.id.as_str(), r.version.as_deref()), (Some("hangar"), "ViaVersion/ViaVersion", None));
    let r = parse_spec("a:b:c@d@e");
    assert_eq!((r.source.as_deref(), r.id.as_str(), r.version.as_deref()), (Some("a"), "b:c", Some("d@e")));
    let r = parse_spec(":@");
    assert_eq!((r.source.as_deref(), r.id.as_str(), r.version.as_deref()), (Some(""), "", Some("")));
}

#[test]
fn adding_puts_the_plugin_under_its_identifier() {
    let mut m = Manifest::new("1.20.1");
    add_plugin_to_manifest(&mut m, "modrinth", "worldedit", Some("7.3.0".to_string()));
    add_plugin_to_manifest(&mut m, "hangar", "a/b", None);
    assert_eq!(names(&m), vec!["a/b", "worldedit"]);
    assert_eq!(m.get("worldedit").unwrap().version.as_deref(), Some("7.3.0"));
}

#[test]
fn paths_follow_the_configuration_directory() {
    assert_eq!(config_dir(None), ".");
    assert_eq!(config_dir(Some("/srv/mc".to_string())), "/srv/mc");
    assert_eq!(manifest_path("."), "plugins.toml");
    assert_eq!(lockfile_path("."), "plugins.lock");
    assert_eq!(manifest_path("/srv/mc"), "/srv/mc/plugins.toml");
    assert_eq!(lockfile_path("server"), "server/plugins.lock");
    assert_eq!(plugins_dir(None, "."), "./plugins");
    assert_eq!(plugins_dir(Some("/p".to_string()), "."), "/p");
}
