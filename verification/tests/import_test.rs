use mpm::import::{
    assemble_import, effective_version, extract_version_from_filename, extract_version_from_manifest,
    fallback_name, import_obstacle, imported_plugin, imported_spec, is_server_jar, Found, Scanned,
};
use mpm::source_trait::{Reason, ResolvedVersion, SourceKind};
use mpm::version_data::{DownloadInfo, NormalizedVersion};

#[test]
fn versions_in_server_jar_names() {
    assert_eq!(extract_version_from_filename("paper-1.20.6-150.jar"), Some("1.20.6".to_string()));
    assert_eq!(extract_version_from_filename("paper-1.20.6.jar"), Some("1.20.6".to_string()));
    assert_eq!(extract_version_from_filename("papermc-1.21-rc1-7.jar"), Some("1.21.rc1".to_string()));
    assert_eq!(extract_version_from_filename("paper.jar"), None);
    assert_eq!(extract_version_from_filename("paper-1.20.6"), None);
    assert_eq!(extract_version_from_filename("paper-latest.jar"), None);
    assert_eq!(extract_version_from_filename("paper--5.jar"), None);
    assert_eq!(extract_version_from_filename(".jar"), None);
}

#[test]
fn versions_in_jar_manifests() {
    let text = "Manifest-Version: 1.0\r\nImplementation-Title: Paper\r\nImplementation-Version: 1.20.4-R0.1-SNAPSHOT \r\nSpecification-Version: 9\r\n";
    assert_eq!(extract_version_from_manifest(text), Some("1.20.4".to_string()));
    assert_eq!(extract_version_from_manifest("Specification-Version:  1.19 \n"), Some("1.19".to_string()));
    assert_eq!(
        extract_version_from_manifest("Implementation-Version: \nSpecification-Version: 1.18.2"),
        Some("1.18.2".to_string())
    );
    assert_eq!(extract_version_from_manifest("Implementation-Version: -abc\nX: y"), None);
    assert_eq!(extract_version_from_manifest("implementation-version: 1.20"), None);
    assert_eq!(extract_version_from_manifest(""), None);
}

#[test]
fn server_jars_and_fallback_names() {
    assert!(is_server_jar("paper-1.20.6-150.jar"));
    assert!(is_server_jar("Paper.jar"));
    assert!(is_server_jar("PAPERMC-1.jar"));
    assert!(!is_server_jar("spigot-1.20.jar"));
    assert!(!is_server_jar("paper-1.20.zip"));
    assert_eq!(fallback_name("WorldEdit.jar"), "WorldEdit");
    assert_eq!(fallback_name("WorldEdit"), "WorldEdit");
    assert_eq!(fallback_name(".jar"), "");
}

#[test]
fn effective_version_prefers_given_then_detected() {
    assert_eq!(effective_version(Some("1.19".to_string()), Some("1.20".to_string())), "1.19");
    assert_eq!(effective_version(None, Some("1.20".to_string())), "1.20");
    assert_eq!(effective_version(None, None), "1.21.11");
}

#[test]
fn imported_plugins_keep_the_local_file_name() {
    let r = ResolvedVersion {
        version: "5.1".to_string(),
        filename: "ViaVersion-5.1.jar".to_string(),
        url: "https://u".to_string(),
        hash: "sha512:aa".to_string(),
    };
    let p = imported_plugin("ViaVersion", "via.jar", SourceKind::Hangar, &r);
    assert_eq!(p.name, "ViaVersion");
    assert_eq!(p.source, "hangar");
    assert_eq!(p.version, "5.1");
    assert_eq!(p.file, "via.jar");
    assert_eq!(p.url, "https://u");
    assert_eq!(p.hash, "sha512:aa");
    let s = imported_spec(SourceKind::Hangar, "ViaVersion", &Some("5.0".to_string()));
    assert_eq!(s.source, "hangar");
    assert_eq!(s.id, "ViaVersion");
    assert_eq!(s.version.as_deref(), Some("5.0"));
}

#[test]
fn version_data_builders() {
    let d = DownloadInfo::with_hash("u", "f.jar", "sha256:1");
    assert_eq!((d.url.as_str(), d.filename.as_deref(), d.hash.as_deref()), ("u", Some("f.jar"), Some("sha256:1")));
    let d = DownloadInfo::without_hash("u", Some("f.jar".to_string()));
    assert_eq!((d.url.as_str(), d.filename.as_deref(), d.hash.as_deref()), ("u", Some("f.jar"), None));
    let d = DownloadInfo::url_only("u");
    assert_eq!((d.url.as_str(), d.filename.as_deref(), d.hash.as_deref()), ("u", None, None));
    let v = NormalizedVersion::new("1.0", "2024", vec!["1.20".to_string()], d);
    assert!(v.has_mc_version_info());
    assert_eq!(v.version, "1.0");
    assert_eq!(v.published_at, "2024");
    let w = NormalizedVersion::new("1.0", "2024", Vec::new(), DownloadInfo::url_only("u"));
    assert!(!w.has_mc_version_info());
    let c = v.clone();
    assert_eq!(c.mc_versions, v.mc_versions);
    assert_eq!(c.download.url, "u");
}

#[test]
fn an_import_keeps_what_was_found_and_lists_what_was_not() {
    let scanned = vec![
        Scanned { name: "Zeta".to_string(), filename: "zeta-1.jar".to_string(), version: Some("1".to_string()) },
        Scanned { name: "alpha".to_string(), filename: "alpha.jar".to_string(), version: None },
        Scanned { name: "lost".to_string(), filename: "lost.jar".to_string(), version: None },
        Scanned { name: "alpha".to_string(), filename: "alpha-copy.jar".to_string(), version: Some("2".to_string()) },
    ];
    let resolved = |v: &str| ResolvedVersion {
        version: v.to_string(),
        filename: "remote.jar".to_string(),
        url: format!("https://cdn/{}", v),
        hash: "sha512:aa".to_string(),
    };
    let found = vec![
        Some(Found { source: SourceKind::Hangar, plugin_id: "o/Zeta".to_string(), resolved: resolved("1.0") }),
        Some(Found { source: SourceKind::Modrinth, plugin_id: "alpha".to_string(), resolved: resolved("0.9") }),
        None,
        Some(Found { source: SourceKind::Spigot, plugin_id: "77".to_string(), resolved: resolved("2.0") }),
    ];
    let imported = assemble_import("1.20.4", &scanned, &found);
    assert_eq!(imported.manifest.minecraft.version, "1.20.4");
    let names: Vec<&str> = imported.manifest.plugins.iter().map(|e| e.name.as_str()).collect();
    assert_eq!(names, vec!["Zeta", "alpha"]);
    let alpha = imported.manifest.get("alpha").unwrap();
    assert_eq!((alpha.source.as_str(), alpha.id.as_str(), alpha.version.as_deref()), ("spigot", "77", Some("2")));
    let locked: Vec<(&str, &str, &str)> = imported
        .lockfile
        .plugin
        .iter()
        .map(|p| (p.name.as_str(), p.file.as_str(), p.version.as_str()))
        .collect();
    assert_eq!(
        locked,
        vec![("Zeta", "zeta-1.jar", "1.0"), ("alpha", "alpha.jar", "0.9"), ("alpha", "alpha-copy.jar", "2.0")]
    );
    assert_eq!(imported.skipped, vec![2]);
    let empty = assemble_import("1.20.4", &Vec::new(), &Vec::new());
    assert!(empty.manifest.plugins.is_empty() && empty.lockfile.plugin.is_empty() && empty.skipped.is_empty());
}

#[test]
fn an_import_needs_a_directory_and_no_manifest() {
    assert_eq!(import_obstacle(true, true), Some(Reason::ManifestExists));
    assert_eq!(import_obstacle(true, false), Some(Reason::ManifestExists));
    assert_eq!(import_obstacle(false, false), Some(Reason::PluginsDirMissing));
    assert_eq!(import_obstacle(false, true), None);
}
