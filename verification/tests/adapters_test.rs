use mpm::github;
use mpm::hangar;
use mpm::hash::{compute_hash, HashAlgorithm};
use mpm::modrinth;
use mpm::resolution::{Action, Event, Expect, Resolution, Stage};
use mpm::source_trait::{ErrorKind, PluginSource, Reason, ResolvedVersion, SourceKind};
use mpm::sources::{advance, begin};
use mpm::spigot;

fn get(action: &Action) -> (&str, Expect) {
    match action {
        Action::Get { url, expect } => (url.as_str(), *expect),
        other => panic!("expected a request, got {:?}", other),
    }
}

fn done(action: Action) -> ResolvedVersion {
    match action {
        Action::Done(r) => r,
        other => panic!("expected a result, got {:?}", other),
    }
}

fn failed(action: Action) -> mpm::source_trait::ResolveError {
    match action {
        Action::Fail(e) => e,
        other => panic!("expected an error, got {:?}", other),
    }
}

fn modrinth_version(number: &str, date: &str, game: &[&str], sha: &str) -> modrinth::Version {
    modrinth::Version {
        id: format!("id-{}", number),
        version_number: number.to_string(),
        date_published: date.to_string(),
        game_versions: game.iter().map(|g| g.to_string()).collect(),
        files: vec![modrinth::VersionFile {
            filename: format!("fabric-api-{}.jar", number),
            url: format!("https://cdn.modrinth.com/data/P7dR8mSH/{}.jar", number),
            hashes: modrinth::FileHashes { sha512: sha.to_string() },
        }],
    }
}

fn modrinth_project() -> Event {
    Event::ModrinthProject(modrinth::Project {
        id: "P7dR8mSH".to_string(),
        slug: "fabric-api".to_string(),
        title: "Fabric API".to_string(),
    })
}

#[test]
fn modrinth_locks_the_newest_compatible_version() {
    let (state, action) = begin(SourceKind::Modrinth, "fabric-api", None, Some("1.20.1"));
    assert_eq!(get(&action), ("https://api.modrinth.com/v2/project/fabric-api", Expect::ModrinthProject));
    assert_eq!(state.stage, Stage::Checking);
    let (state, action) = advance(state, modrinth_project());
    assert_eq!(
        get(&action),
        ("https://api.modrinth.com/v2/project/P7dR8mSH/version", Expect::ModrinthVersions)
    );
    let versions = vec![
        modrinth_version("0.92.0", "2024-01-10T10:00:00Z", &["1.20.4"], "aa"),
        modrinth_version("0.91.0", "2023-12-01T10:00:00Z", &["1.20.1"], "bb"),
        modrinth_version("0.92.1", "2024-02-01T10:00:00Z", &["1.20"], "cc"),
        modrinth_version("0.90.0", "2023-11-01T10:00:00Z", &["1.20.1", "1.20.2"], "dd"),
    ];
    let (state, action) = advance(state, Event::ModrinthVersions(versions));
    let resolved = done(action);
    assert_eq!(resolved.version, "0.92.1");
    assert_eq!(resolved.filename, "fabric-api-0.92.1.jar");
    assert_eq!(resolved.url, "https://cdn.modrinth.com/data/P7dR8mSH/0.92.1.jar");
    assert_eq!(resolved.hash, "sha512:cc");
    assert!(resolved.hash.starts_with("sha512:"));
    assert_eq!(state.stage, Stage::Finished);
}

#[test]
fn modrinth_reports_missing_project_and_other_statuses() {
    let (state, _) = begin(SourceKind::Modrinth, "nope", None, None);
    let e = failed(advance(state, Event::Status(404)).1);
    assert_eq!(e.reason, Reason::ProjectMissing);
    assert_eq!(e.kind(), ErrorKind::NotFound);
    assert_eq!(e.source, Some(SourceKind::Modrinth));
    assert_eq!(e.subject, "nope");

    let (state, _) = begin(SourceKind::Modrinth, "nope", None, None);
    let e = failed(advance(state, Event::Status(500)).1);
    assert_eq!(e.reason, Reason::HttpStatus);
    assert_eq!(e.status, Some(500));
    assert_eq!(e.kind(), ErrorKind::TransportFailure);

    let (state, _) = begin(SourceKind::Modrinth, "nope", None, None);
    let e = failed(advance(state, Event::Failed).1);
    assert_eq!(e.reason, Reason::Network);

    let (state, _) = begin(SourceKind::Modrinth, "x", None, None);
    let (state, _) = advance(state, modrinth_project());
    let e = failed(advance(state, Event::Status(404)).1);
    assert_eq!(e.reason, Reason::HttpStatus);
}

#[test]
fn modrinth_refuses_an_empty_identifier_without_a_request() {
    let (state, action) = begin(SourceKind::Modrinth, "", None, None);
    let e = failed(action);
    assert_eq!(e.reason, Reason::EmptyId);
    assert_eq!(e.kind(), ErrorKind::InvalidIdentifier);
    assert_eq!(state.stage, Stage::Finished);
}

#[test]
fn modrinth_version_without_files_cannot_be_resolved() {
    let (state, _) = begin(SourceKind::Modrinth, "x", Some("1.0"), None);
    let (state, _) = advance(state, modrinth_project());
    let mut v = modrinth_version("1.0", "2024", &[], "aa");
    v.files.clear();
    let e = failed(advance(state, Event::ModrinthVersions(vec![v])).1);
    assert_eq!(e.reason, Reason::NoArtifact);
    assert_eq!(e.version.as_deref(), Some("1.0"));
}

#[test]
fn modrinth_selection_errors_carry_the_source() {
    let (state, _) = begin(SourceKind::Modrinth, "x", Some("1.0"), Some("1.21"));
    let (state, _) = advance(state, modrinth_project());
    let v = modrinth_version("1.0", "2024", &["1.20.1"], "aa");
    let e = failed(advance(state, Event::ModrinthVersions(vec![v])).1);
    assert_eq!(e.reason, Reason::VersionIncompatible);
    assert_eq!(e.kind(), ErrorKind::Incompatible);
    assert_eq!(e.source, Some(SourceKind::Modrinth));
    assert_eq!(e.supported, vec!["1.20.1".to_string()]);
    assert_eq!(e.platform.as_deref(), Some("1.21"));
}

fn hangar_download(platform: &str, url: Option<&str>, external: Option<&str>, info: Option<(Option<&str>, Option<&str>)>) -> hangar::PlatformDownload {
    hangar::PlatformDownload {
        platform: platform.to_string(),
        download: hangar::Download {
            file_info: info.map(|(n, h)| hangar::FileInfo {
                name: n.map(String::from),
                sha256_hash: h.map(String::from),
            }),
            download_url: url.map(String::from),
            external_url: external.map(String::from),
        },
    }
}

fn hangar_version(name: &str, created: &str, deps: &[(&str, &[&str])], downloads: Vec<hangar::PlatformDownload>) -> hangar::Version {
    hangar::Version {
        name: name.to_string(),
        created_at: created.to_string(),
        platform_dependencies: deps
            .iter()
            .map(|(p, v)| hangar::PlatformDependencies {
                platform: p.to_string(),
                versions: v.iter().map(|s| s.to_string()).collect(),
            })
            .collect(),
        downloads,
    }
}

fn hangar_project(name: &str, owner: &str, slug: &str) -> hangar::Project {
    hangar::Project {
        name: name.to_string(),
        namespace: hangar::Namespace { owner: owner.to_string(), slug: slug.to_string() },
    }
}

#[test]
fn hangar_resolves_a_full_identifier_with_the_paper_download() {
    let (state, action) = begin(SourceKind::Hangar, "ViaVersion/ViaVersion", None, Some("1.20.1"));
    assert_eq!(
        get(&action),
        ("https://hangar.papermc.io/api/v1/projects/ViaVersion/ViaVersion", Expect::HangarProject)
    );
    let (state, action) = advance(state, Event::HangarProject(hangar_project("ViaVersion", "ViaVersion", "ViaVersion")));
    assert_eq!(
        get(&action),
        ("https://hangar.papermc.io/api/v1/projects/ViaVersion/ViaVersion/versions", Expect::HangarVersions)
    );
    let versions = vec![hangar_version(
        "5.0.0",
        "2024-05-01T00:00:00Z",
        &[("WATERFALL", &["1.19"]), ("PAPER", &["1.20", "1.21"])],
        vec![
            hangar_download("WATERFALL", Some("https://h/w.jar"), None, Some((Some("w.jar"), Some("11")))),
            hangar_download("PAPER", Some("https://h/p.jar"), None, Some((Some("p.jar"), Some("22")))),
        ],
    )];
    let resolved = done(advance(state, Event::HangarVersions(versions)).1);
    assert_eq!(resolved.version, "5.0.0");
    assert_eq!(resolved.filename, "p.jar");
    assert_eq!(resolved.url, "https://h/p.jar");
    assert_eq!(resolved.hash, "sha256:22");
}

#[test]
fn hangar_falls_back_to_a_download_with_an_address() {
    let v = hangar_version(
        "1.0",
        "2024",
        &[],
        vec![
            hangar_download("PAPER", None, None, None),
            hangar_download("VELOCITY", None, Some("https://ext/v.jar"), None),
        ],
    );
    assert_eq!(hangar::preferred_download(&v.downloads), 1);
    assert_eq!(hangar::download_problem(&v), None);
    let n = hangar::normalize(&v);
    assert_eq!(n.download.url, "https://ext/v.jar");
    assert_eq!(n.download.hash, None);
    assert_eq!(n.download.filename, None);
    assert!(n.mc_versions.is_empty());
}

#[test]
fn hangar_downloads_and_hashes_when_the_catalog_has_no_file_record() {
    let (state, _) = begin(SourceKind::Hangar, "o/s", Some("1.0"), None);
    let (state, _) = advance(state, Event::HangarProject(hangar_project("s", "o", "s")));
    let v = hangar_version("1.0", "2024", &[], vec![hangar_download("PAPER", None, Some("https://ext/files/v.jar?x=1"), None)]);
    let (state, action) = advance(state, Event::HangarVersions(vec![v]));
    assert_eq!(get(&action), ("https://ext/files/v.jar?x=1", Expect::File));
    assert_eq!(state.stage, Stage::Downloading);
    let data = b"jar bytes".to_vec();
    let (_, action) = advance(state, Event::File { content_disposition: None, data: data.clone() });
    let resolved = done(action);
    assert_eq!(resolved.filename, "v.jar");
    assert_eq!(resolved.url, "https://ext/files/v.jar?x=1");
    assert_eq!(resolved.hash, compute_hash(&data, HashAlgorithm::Sha256));
    assert_eq!(resolved.version, "1.0");
}

#[test]
fn hangar_reports_what_is_wrong_with_the_selected_download() {
    let (state, _) = begin(SourceKind::Hangar, "o/s", None, None);
    let (state, _) = advance(state, Event::HangarProject(hangar_project("s", "o", "s")));
    let v = hangar_version("1.0", "2024", &[], vec![hangar_download("PAPER", None, None, None)]);
    let e = failed(advance(state, Event::HangarVersions(vec![v])).1);
    assert_eq!(e.reason, Reason::NoArtifact);
    assert_eq!(e.version.as_deref(), Some("1.0"));

    let (state, _) = begin(SourceKind::Hangar, "o/s", None, None);
    let (state, _) = advance(state, Event::HangarProject(hangar_project("s", "o", "s")));
    let v = hangar_version("1.0", "2024", &[], vec![hangar_download("PAPER", Some("u"), None, Some((Some("a.jar"), None)))]);
    let e = failed(advance(state, Event::HangarVersions(vec![v])).1);
    assert_eq!(e.reason, Reason::IncompleteFileInfo);
}

#[test]
fn hangar_searches_for_a_bare_name_and_takes_the_exact_match() {
    let (state, action) = begin(SourceKind::Hangar, "World Edit", None, None);
    assert_eq!(
        get(&action),
        ("https://hangar.papermc.io/api/v1/projects?q=World%20Edit", Expect::HangarProjects)
    );
    let results = vec![
        hangar_project("AWorldEditAddon", "x", "addon"),
        hangar_project("world-edit", "EngineHub", "WorldEdit"),
    ];
    let (state, action) = advance(state, Event::HangarProjects(results));
    assert_eq!(
        get(&action),
        ("https://hangar.papermc.io/api/v1/projects/EngineHub/WorldEdit", Expect::HangarProject)
    );
    assert_eq!(state.target, "EngineHub/WorldEdit");

    let (state, _) = begin(SourceKind::Hangar, "nothing", None, None);
    let e = failed(advance(state, Event::HangarProjects(Vec::new())).1);
    assert_eq!(e.reason, Reason::NoSearchResults);
}

#[test]
fn hangar_refuses_malformed_identifiers() {
    for id in ["a/b/c", "/x", "x/"] {
        let e = failed(begin(SourceKind::Hangar, id, None, None).1);
        assert_eq!(e.reason, Reason::MalformedId, "{}", id);
    }
    assert_eq!(failed(begin(SourceKind::Hangar, "", None, None).1).reason, Reason::EmptyId);
}

fn spigot_version(id: i64, name: &str, date: i64, tested: Option<&[&str]>) -> spigot::Version {
    spigot::Version {
        id,
        name: name.to_string(),
        release_date: date,
        tested_versions: tested.map(|t| t.iter().map(|s| s.to_string()).collect()),
    }
}

fn spigot_resource(id: i64, name: &str, external: Option<&str>) -> spigot::Resource {
    spigot::Resource { id, name: name.to_string(), external_url: external.map(String::from) }
}

#[test]
fn spigot_resolves_a_number_and_orders_by_release_time() {
    let (state, action) = begin(SourceKind::Spigot, "0019254", None, Some("1.20.1"));
    assert_eq!(get(&action), ("https://api.spiget.org/v2/resources/19254", Expect::SpigotResource));
    let (state, action) = advance(state, Event::SpigotResource(spigot_resource(19254, "ViaVersion", None)));
    assert_eq!(
        get(&action),
        ("https://api.spiget.org/v2/resources/19254/versions?size=1000", Expect::SpigotVersions)
    );
    let versions = vec![
        spigot_version(1, "old", 999_999_999, Some(&["1.20"])),
        spigot_version(2, "new", 1_700_000_000, None),
        spigot_version(3, "wrong", 1_800_000_000, Some(&["1.21"])),
        spigot_version(4, "empty", 1_600_000_000, Some(&[])),
    ];
    let (state, action) = advance(state, Event::SpigotVersions(versions));
    assert_eq!(
        get(&action),
        ("https://api.spiget.org/v2/resources/19254/versions/2/download", Expect::File)
    );
    let data = b"spigot".to_vec();
    let (_, action) = advance(
        state,
        Event::File { content_disposition: Some("attachment; filename=\"Via.jar\"".to_string()), data: data.clone() },
    );
    let resolved = done(action);
    assert_eq!(resolved.version, "new");
    assert_eq!(resolved.filename, "Via.jar");
    assert_eq!(resolved.url, "https://api.spiget.org/v2/resources/19254/versions/2/download");
    assert_eq!(resolved.hash, compute_hash(&data, HashAlgorithm::Sha256));
}

#[test]
fn spigot_names_the_file_after_the_version_without_a_header() {
    let (state, _) = begin(SourceKind::Spigot, "5", None, None);
    let (state, _) = advance(state, Event::SpigotResource(spigot_resource(5, "P", None)));
    let (state, _) = advance(state, Event::SpigotVersions(vec![spigot_version(9, "2.1", 5, None)]));
    let resolved = done(advance(state, Event::File { content_disposition: None, data: vec![1, 2] }).1);
    assert_eq!(resolved.filename, "2.1.jar");
}

#[test]
fn spigot_retries_the_external_address_and_reports_blocking() {
    let (state, _) = begin(SourceKind::Spigot, "5", None, None);
    let (state, _) = advance(state, Event::SpigotResource(spigot_resource(5, "P", Some("https://ext/p.jar"))));
    let (state, _) = advance(state, Event::SpigotVersions(vec![spigot_version(9, "2.1", 5, None)]));
    let (state, action) = advance(state, Event::Status(403));
    assert_eq!(get(&action), ("https://ext/p.jar", Expect::File));
    assert_eq!(state.stage, Stage::Retrying);
    let resolved = done(advance(state, Event::File { content_disposition: None, data: vec![1] }).1);
    assert_eq!(resolved.url, "https://api.spiget.org/v2/resources/5/versions/9/download");

    let (state, _) = begin(SourceKind::Spigot, "5", None, None);
    let (state, _) = advance(state, Event::SpigotResource(spigot_resource(5, "P", None)));
    let (state, _) = advance(state, Event::SpigotVersions(vec![spigot_version(9, "2.1", 5, None)]));
    let e = failed(advance(state, Event::Status(403)).1);
    assert_eq!(e.reason, Reason::DownloadBlocked);

    let (state, _) = begin(SourceKind::Spigot, "5", None, None);
    let (state, _) = advance(state, Event::SpigotResource(spigot_resource(5, "P", None)));
    let (state, _) = advance(state, Event::SpigotVersions(vec![spigot_version(9, "2.1", 5, None)]));
    let e = failed(advance(state, Event::Status(500)).1);
    assert_eq!(e.reason, Reason::HttpStatus);
    assert_eq!(e.status, Some(500));
}

#[test]
fn spigot_searches_twice_for_a_hyphenated_name() {
    let (state, action) = begin(SourceKind::Spigot, "world-edit", None, None);
    assert_eq!(
        get(&action),
        ("https://api.spiget.org/v2/search/resources/world-edit?size=100", Expect::SpigotResources)
    );
    let (state, action) = advance(state, Event::SpigotResources(Vec::new()));
    assert_eq!(
        get(&action),
        ("https://api.spiget.org/v2/search/resources/world%20edit?size=100", Expect::SpigotResources)
    );
    let results = vec![spigot_resource(1, "World Edit Pro", None), spigot_resource(-2, "World Edit", None)];
    let (state, action) = advance(state, Event::SpigotResources(results));
    assert_eq!(get(&action), ("https://api.spiget.org/v2/resources/-2", Expect::SpigotResource));
    assert_eq!(state.alternative, None);

    let (state, _) = begin(SourceKind::Spigot, "plain", None, None);
    let e = failed(advance(state, Event::Status(500)).1);
    assert_eq!(e.reason, Reason::NoSearchResults);
}

#[test]
fn spigot_refuses_numbers_that_are_too_large_and_empty_lists() {
    let e = failed(begin(SourceKind::Spigot, "9223372036854775808", None, None).1);
    assert_eq!(e.reason, Reason::MalformedId);
    let (_, action) = begin(SourceKind::Spigot, "9223372036854775807", None, None);
    assert_eq!(get(&action).0, "https://api.spiget.org/v2/resources/9223372036854775807");

    let (state, _) = begin(SourceKind::Spigot, "5", None, None);
    let (state, _) = advance(state, Event::SpigotResource(spigot_resource(5, "P", None)));
    let e = failed(advance(state, Event::SpigotVersions(Vec::new())).1);
    assert_eq!(e.reason, Reason::NoVersions);
}

fn release(tag: &str, assets: &[(&str, &str)]) -> github::Release {
    github::Release {
        tag_name: tag.to_string(),
        published_at: "2024-01-01T00:00:00Z".to_string(),
        assets: assets
            .iter()
            .map(|(n, u)| github::Asset { name: n.to_string(), browser_download_url: u.to_string() })
            .collect(),
    }
}

fn repository(name: &str, owner: &str) -> github::Repository {
    github::Repository { name: name.to_string(), owner: owner.to_string() }
}

#[test]
fn github_resolves_the_first_jar_of_a_release() {
    let (state, action) = begin(SourceKind::GitHub, "EssentialsX/Essentials", Some("2.20.1"), Some("1.20.1"));
    assert_eq!(get(&action), ("https://api.github.com/repos/EssentialsX/Essentials", Expect::GitHubRepository));
    let (state, action) = advance(state, Event::GitHubRepository(repository("Essentials", "EssentialsX")));
    assert_eq!(
        get(&action),
        ("https://api.github.com/repos/EssentialsX/Essentials/releases/tags/2.20.1", Expect::GitHubRelease)
    );
    let rel = release("2.20.1", &[("notes.txt", "https://gh/notes.txt"), ("EssentialsX-2.20.1.jar", "https://gh/e.jar"), ("b.jar", "https://gh/b.jar")]);
    let (state, action) = advance(state, Event::GitHubRelease(rel));
    assert_eq!(get(&action), ("https://gh/e.jar", Expect::File));
    let data = vec![9u8; 100];
    let resolved = done(advance(state, Event::File { content_disposition: Some("attachment; filename=other.jar".to_string()), data: data.clone() }).1);
    assert_eq!(resolved.version, "2.20.1");
    assert_eq!(resolved.filename, "EssentialsX-2.20.1.jar");
    assert_eq!(resolved.url, "https://gh/e.jar");
    assert_eq!(resolved.hash, compute_hash(&data, HashAlgorithm::Sha256));
}

#[test]
fn github_latest_release_and_missing_releases() {
    let (state, _) = begin(SourceKind::GitHub, "o/r", None, None);
    let (state, action) = advance(state, Event::GitHubRepository(repository("r", "o")));
    assert_eq!(get(&action).0, "https://api.github.com/repos/o/r/releases/latest");
    let e = failed(advance(state, Event::Status(404)).1);
    assert_eq!(e.reason, Reason::NoVersions);

    let (state, _) = begin(SourceKind::GitHub, "o/r", Some("v9"), None);
    let (state, _) = advance(state, Event::GitHubRepository(repository("r", "o")));
    let e = failed(advance(state, Event::Status(404)).1);
    assert_eq!(e.reason, Reason::VersionMissing);
    assert_eq!(e.version.as_deref(), Some("v9"));

    let (state, _) = begin(SourceKind::GitHub, "o/r", None, None);
    let e = failed(advance(state, Event::Status(404)).1);
    assert_eq!(e.reason, Reason::ProjectMissing);

    let (state, _) = begin(SourceKind::GitHub, "o/r", None, None);
    let (state, _) = advance(state, Event::GitHubRepository(repository("r", "o")));
    let e = failed(advance(state, Event::GitHubRelease(release("v1", &[("a.zip", "u")]))).1);
    assert_eq!(e.reason, Reason::NoArtifact);
}

#[test]
fn github_search_keeps_the_order_of_the_results() {
    let (state, action) = begin(SourceKind::GitHub, "Via Version", None, None);
    assert_eq!(
        get(&action),
        (
            "https://api.github.com/search/repositories?q=Via%2520Version%20in%3Aname&sort=stars&order=desc&per_page=100",
            Expect::GitHubRepositories
        )
    );
    let results = vec![repository("zzz", "a"), repository("aaa", "b")];
    let (_, action) = advance(state, Event::GitHubRepositories(results));
    assert_eq!(get(&action).0, "https://api.github.com/repos/a/zzz");

    let (state, _) = begin(SourceKind::GitHub, "viaversion", None, None);
    let results = vec![repository("ViaBackwards", "x"), repository("ViaVersion", "y"), repository("VIAVERSION", "z")];
    let (_, action) = advance(state, Event::GitHubRepositories(results));
    assert_eq!(get(&action).0, "https://api.github.com/repos/y/ViaVersion");
}

#[test]
fn a_download_that_fails_ends_the_resolution() {
    let (state, _) = begin(SourceKind::GitHub, "o/r", None, None);
    let (state, _) = advance(state, Event::GitHubRepository(repository("r", "o")));
    let (state, _) = advance(state, Event::GitHubRelease(release("v1", &[("a.jar", "u")])));
    let (state, action) = advance(state, Event::Status(502));
    let e = failed(action);
    assert_eq!(e.reason, Reason::HttpStatus);
    assert_eq!(e.status, Some(502));
    let e = failed(advance(state, Event::File { content_disposition: None, data: Vec::new() }).1);
    assert_eq!(e.reason, Reason::Network);
}

#[test]
fn adapters_name_themselves_and_check_identifiers() {
    assert_eq!(modrinth::ModrinthSource.name(), "modrinth");
    assert_eq!(hangar::HangarSource.name(), "hangar");
    assert_eq!(spigot::SpigotSource.name(), "spigot");
    assert_eq!(github::GitHubSource.name(), "github");
    assert_eq!(github::GitHubSource.kind(), SourceKind::GitHub);
    assert!(hangar::HangarSource.validate_plugin_id("x").is_ok());
    let e = spigot::SpigotSource.validate_plugin_id("").unwrap_err();
    assert_eq!(e.reason, Reason::EmptyId);
    assert_eq!(e.source, Some(SourceKind::Spigot));
}

#[test]
fn a_fresh_resolution_holds_the_request() {
    let r = Resolution::new(SourceKind::Hangar, "a/b", Some("1"), None);
    assert_eq!(r.plugin_id, "a/b");
    assert_eq!(r.requested_version(), Some("1"));
    assert_eq!(r.minecraft_version(), None);
}
