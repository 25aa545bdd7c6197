use mpm::source_trait::Reason;
use mpm::version_data::{DownloadInfo, NormalizedVersion};
use mpm::version_selector::{
    filter_by_mc_version, newest_position, select_latest_version, select_position, select_specific_version,
    select_version, SelectionConfig,
};

fn make_version(version: &str, mc_versions: Vec<&str>) -> NormalizedVersion {
    NormalizedVersion {
        version: version.to_string(),
        published_at: "2024-01-01T00:00:00Z".to_string(),
        mc_versions: mc_versions.into_iter().map(String::from).collect(),
        download: DownloadInfo::with_hash("https://example.com/file.jar", "file.jar", "sha256:abc123"),
    }
}

fn dated(version: &str, published_at: &str, mc_versions: Vec<&str>) -> NormalizedVersion {
    NormalizedVersion::new(
        version,
        published_at,
        mc_versions.into_iter().map(String::from).collect(),
        DownloadInfo::url_only("https://example.com/x"),
    )
}

#[test]
fn test_filter_by_mc_version() {
    let versions = vec![
        make_version("1.0", vec!["1.20.1"]),
        make_version("2.0", vec!["1.21"]),
        make_version("3.0", vec!["1.20.1", "1.21"]),
    ];

    let filtered = filter_by_mc_version(versions, "1.20.1", false);
    assert_eq!(filtered.len(), 2);
    assert_eq!(filtered[0].version, "1.0");
    assert_eq!(filtered[1].version, "3.0");
}

#[test]
fn test_filter_empty_as_compatible() {
    let versions = vec![
        make_version("1.0", vec!["1.20.1"]),
        make_version("2.0", vec![]), // Empty mc_versions
    ];

    // Without treat_empty_as_compatible
    let filtered = filter_by_mc_version(versions.clone(), "1.20.1", false);
    assert_eq!(filtered.len(), 1);

    // With treat_empty_as_compatible
    let filtered = filter_by_mc_version(versions, "1.20.1", true);
    assert_eq!(filtered.len(), 2);
}

#[test]
fn config_defaults_and_builder() {
    let config = SelectionConfig::new("plug");
    assert_eq!(config.plugin_id, "plug");
    assert!(!config.treat_empty_as_compatible);
    let config = config.treat_empty_as_compatible();
    assert_eq!(config.plugin_id, "plug");
    assert!(config.treat_empty_as_compatible);
}

#[test]
fn latest_is_the_newest_and_ties_keep_catalog_order() {
    let versions = vec![
        dated("a", "2024-01-01", vec![]),
        dated("b", "2024-03-01", vec![]),
        dated("c", "2024-03-01", vec![]),
        dated("d", "2024-02-01", vec![]),
    ];
    let config = SelectionConfig::new("plug");
    let chosen = select_version(versions.clone(), None, None, &config).unwrap();
    assert_eq!(chosen.version, "b");
    assert_eq!(select_position(&versions, None, None, &config).unwrap(), 1);
    let mut filtered = versions.clone();
    let picked = select_latest_version(&mut filtered, &versions, None, &config).unwrap();
    assert_eq!(picked.version, "b");
    let order: Vec<&str> = filtered.iter().map(|v| v.version.as_str()).collect();
    assert_eq!(order, vec!["b", "c", "d", "a"]);
}

#[test]
fn latest_skips_incompatible_versions() {
    let versions = vec![
        dated("old", "2023-01-01", vec!["1.20.1"]),
        dated("new", "2024-01-01", vec!["1.21"]),
        dated("mid", "2023-06-01", vec!["1.20"]),
    ];
    let config = SelectionConfig::new("plug");
    let chosen = select_version(versions, None, Some("1.20.1"), &config).unwrap();
    assert_eq!(chosen.version, "mid");
}

#[test]
fn latest_without_compatible_version_names_what_the_newest_supports() {
    let versions = vec![dated("new", "2024-01-01", vec!["1.21", "1.21.1"]), dated("old", "2023-01-01", vec!["1.19"])];
    let config = SelectionConfig::new("plug");
    let e = select_version(versions, None, Some("1.20.1"), &config).unwrap_err();
    assert_eq!(e.reason, Reason::NoneCompatible);
    assert_eq!(e.subject, "plug");
    assert_eq!(e.platform.as_deref(), Some("1.20.1"));
    assert_eq!(e.supported, vec!["1.21".to_string(), "1.21.1".to_string()]);
}

#[test]
fn latest_of_nothing_is_no_versions() {
    let config = SelectionConfig::new("plug");
    let e = select_version(Vec::new(), None, None, &config).unwrap_err();
    assert_eq!(e.reason, Reason::NoVersions);
    let e = select_version(Vec::new(), None, Some("1.20"), &config).unwrap_err();
    assert_eq!(e.reason, Reason::NoneCompatible);
    assert!(e.supported.is_empty());
}

#[test]
fn requested_version_is_found_incompatible_or_missing() {
    let versions = vec![dated("1.0", "2023", vec!["1.19"]), dated("2.0", "2024", vec!["1.20.1"])];
    let config = SelectionConfig::new("plug");
    let ok = select_version(versions.clone(), Some("2.0"), Some("1.20.1"), &config).unwrap();
    assert_eq!(ok.version, "2.0");
    let e = select_version(versions.clone(), Some("1.0"), Some("1.20.1"), &config).unwrap_err();
    assert_eq!(e.reason, Reason::VersionIncompatible);
    assert_eq!(e.version.as_deref(), Some("1.0"));
    assert_eq!(e.supported, vec!["1.19".to_string()]);
    let e = select_version(versions.clone(), Some("3.0"), Some("1.20.1"), &config).unwrap_err();
    assert_eq!(e.reason, Reason::VersionMissing);
    let ok = select_version(versions, Some("1.0"), None, &config).unwrap();
    assert_eq!(ok.version, "1.0");
}

#[test]
fn requested_version_in_filtered_and_unfiltered_lists() {
    let all = vec![dated("1.0", "2023", vec!["1.19"]), dated("2.0", "2024", vec!["1.20.1"])];
    let filtered = filter_by_mc_version(all.clone(), "1.20.1", false);
    let config = SelectionConfig::new("plug");
    let v = select_specific_version(&filtered, &all, "2.0", Some("1.20.1"), &config).unwrap();
    assert_eq!(v.version, "2.0");
    let e = select_specific_version(&filtered, &all, "1.0", Some("1.20.1"), &config).unwrap_err();
    assert_eq!(e.reason, Reason::VersionIncompatible);
    let e = select_specific_version(&filtered, &all, "9", Some("1.20.1"), &config).unwrap_err();
    assert_eq!(e.reason, Reason::VersionMissing);
}

#[test]
fn empty_compatibility_counts_only_where_configured() {
    let versions = vec![dated("1.0", "2023", vec![])];
    let strict = SelectionConfig::new("plug");
    assert!(select_version(versions.clone(), None, Some("1.20"), &strict).is_err());
    let lenient = SelectionConfig::new("plug").treat_empty_as_compatible();
    assert_eq!(select_version(versions, None, Some("1.20"), &lenient).unwrap().version, "1.0");
}

#[test]
fn latest_of_an_empty_filtered_list_is_an_error() {
    let all = vec![dated("1.0", "2023", vec!["1.19"])];
    let config = SelectionConfig::new("plug");
    let mut none: Vec<NormalizedVersion> = Vec::new();
    let e = select_latest_version(&mut none, &all, Some("1.20"), &config).unwrap_err();
    assert_eq!(e.reason, Reason::NoneCompatible);
    assert_eq!(e.supported, vec!["1.19".to_string()]);
    let e = select_latest_version(&mut none, &all, None, &config).unwrap_err();
    assert_eq!(e.reason, Reason::NoVersions);
}

#[test]
fn filtering_then_selecting_agrees_with_selecting_by_position() {
    let all = vec![
        dated("1.0", "2023-01", vec!["1.19"]),
        dated("2.0", "2024-01", vec!["1.20.1"]),
        dated("2.0", "2024-02", vec!["1.21"]),
        dated("3.0", "2024-01", vec!["1.20"]),
    ];
    let config = SelectionConfig::new("plug");
    for platform in [None, Some("1.20.1"), Some("1.21"), Some("1.18")] {
        for requested in [None, Some("1.0"), Some("2.0"), Some("9")] {
            let direct = select_version(all.clone(), requested, platform, &config);
            let mut filtered = match platform {
                Some(p) => filter_by_mc_version(all.clone(), p, false),
                None => all.clone(),
            };
            let by_filter = match requested {
                Some(v) => select_specific_version(&filtered, &all, v, platform, &config).map(|v| v.clone()),
                None => select_latest_version(&mut filtered, &all, platform, &config).map(|v| v.clone()),
            };
            match (direct, by_filter) {
                (Ok(a), Ok(b)) => {
                    assert_eq!(a.version, b.version);
                    assert_eq!(a.published_at, b.published_at);
                }
                (Err(a), Err(b)) => {
                    assert_eq!(a.reason, b.reason);
                    assert_eq!(a.supported, b.supported);
                }
                (a, b) => panic!("{:?} vs {:?}", a.is_ok(), b.is_ok()),
            }
        }
    }
}

#[test]
fn the_hint_is_that_of_the_most_recent_version_wherever_it_is_listed() {
    let oldest_first = vec![dated("a", "1", vec!["1.19"]), dated("b", "2", vec!["1.21"])];
    let config = SelectionConfig::new("plug");
    let e = select_version(oldest_first.clone(), None, Some("1.20.1"), &config).unwrap_err();
    assert_eq!(e.reason, Reason::NoneCompatible);
    assert_eq!(e.supported, vec!["1.21".to_string()]);
    let e = select_position(&oldest_first, None, Some("1.20.1"), &config).unwrap_err();
    assert_eq!(e.supported, vec!["1.21".to_string()]);
    let mut none: Vec<NormalizedVersion> = Vec::new();
    let e = select_latest_version(&mut none, &oldest_first, Some("1.20.1"), &config).unwrap_err();
    assert_eq!(e.supported, vec!["1.21".to_string()]);
    assert_eq!(
        e.message(),
        "No versions of plugin 'plug' are compatible with Minecraft 1.20.1. Latest version supports: 1.21"
    );
    let tied = vec![dated("a", "2", vec!["1.18"]), dated("b", "2", vec!["1.21"]), dated("c", "1", vec![])];
    let e = select_version(tied.clone(), None, Some("1.20.1"), &config).unwrap_err();
    assert_eq!(e.supported, vec!["1.18".to_string()]);
    assert_eq!(newest_position(&tied), 0);
    assert_eq!(newest_position(&oldest_first), 1);
    let silent = vec![dated("a", "1", vec!["1.19"]), dated("b", "2", vec![])];
    let e = select_version(silent, None, Some("1.20.1"), &config).unwrap_err();
    assert!(e.supported.is_empty());
    assert!(e.message().ends_with("Latest version supports: unknown"));
}
