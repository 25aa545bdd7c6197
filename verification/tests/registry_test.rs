use mpm::fallback::{
    attempt_outcome, choose_fallback, count_sources, retried_outcome, wants_retry, fallback_error, nearest_failure, plan_attempts, retry_without_version, timed_out, Attempt,
    Finished, SEARCH_TIMEOUT_SECS,
};
use mpm::source_trait::{ErrorKind, PluginSource, Reason, ResolveError, ResolvedVersion, SourceKind};
use mpm::sources::SourceRegistry;

fn resolved(version: &str) -> ResolvedVersion {
    ResolvedVersion {
        version: version.to_string(),
        filename: "f.jar".to_string(),
        url: "https://u".to_string(),
        hash: "sha256:00".to_string(),
    }
}

fn ended(source: SourceKind, priority: usize, outcome: Result<ResolvedVersion, ResolveError>) -> Finished {
    Finished { attempt: Attempt { source, plugin_id: "p".to_string(), priority }, outcome }
}

#[test]
fn registry_knows_the_four_sources_in_priority_order() {
    let registry = SourceRegistry::new();
    assert_eq!(
        registry.get_priority_order(),
        vec![SourceKind::Modrinth, SourceKind::Hangar, SourceKind::Spigot, SourceKind::GitHub]
    );
    assert_eq!(registry.names(), vec!["modrinth", "hangar", "spigot", "github"]);
    assert_eq!(registry.get("hangar"), Some(SourceKind::Hangar));
    assert_eq!(registry.get("github"), Some(SourceKind::GitHub));
    assert_eq!(registry.get("Hangar"), None);
    assert_eq!(registry.get(""), None);
    assert!(registry.has(SourceKind::Spigot));
    assert_eq!(SourceKind::Spigot.priority(), 2);
}

#[test]
fn unknown_source_lists_the_valid_names() {
    let registry = SourceRegistry::new();
    assert_eq!(registry.get_or_error("modrinth").unwrap(), SourceKind::Modrinth);
    let e = registry.get_or_error("curseforge").unwrap_err();
    assert_eq!(e.reason, Reason::UnknownSource);
    assert_eq!(e.kind(), ErrorKind::UnsupportedSource);
    assert_eq!(e.subject, "curseforge");
    assert_eq!(e.supported, vec!["modrinth", "hangar", "spigot", "github"]);
}

#[test]
fn attempts_cover_every_source_and_lowercase_for_modrinth() {
    let order = SourceRegistry::new().get_priority_order();
    let attempts = plan_attempts(&order, "ViaVersion");
    let summary: Vec<(SourceKind, &str, usize)> =
        attempts.iter().map(|a| (a.source, a.plugin_id.as_str(), a.priority)).collect();
    assert_eq!(
        summary,
        vec![
            (SourceKind::Modrinth, "ViaVersion", 0),
            (SourceKind::Modrinth, "viaversion", 1),
            (SourceKind::Hangar, "ViaVersion", 2),
            (SourceKind::Spigot, "ViaVersion", 4),
            (SourceKind::GitHub, "ViaVersion", 6),
        ]
    );
    let attempts = plan_attempts(&order, "luckperms");
    assert_eq!(attempts.len(), 4);
    assert_eq!(attempts[1].source, SourceKind::Hangar);
    assert_eq!(SEARCH_TIMEOUT_SECS, 180);
}

#[test]
fn the_highest_priority_success_wins_whatever_came_first() {
    let late_but_first = vec![
        ended(SourceKind::GitHub, 6, Ok(resolved("github"))),
        ended(SourceKind::Spigot, 4, Err(ResolveError::new(Reason::Network, None, "p"))),
        ended(SourceKind::Hangar, 2, Ok(resolved("hangar"))),
        ended(SourceKind::Modrinth, 0, Err(ResolveError::new(Reason::ProjectMissing, None, "p"))),
    ];
    let i = choose_fallback(&late_but_first).unwrap();
    assert_eq!(late_but_first[i].attempt.source, SourceKind::Hangar);

    let other_order = vec![
        ended(SourceKind::Hangar, 2, Ok(resolved("hangar"))),
        ended(SourceKind::GitHub, 6, Ok(resolved("github"))),
    ];
    let j = choose_fallback(&other_order).unwrap();
    assert_eq!(other_order[j].attempt.source, SourceKind::Hangar);
    assert_eq!(other_order[j].outcome.as_ref().unwrap().version, "hangar");
}

#[test]
fn without_success_the_nearest_failure_is_reported() {
    let results = vec![
        ended(SourceKind::Spigot, 4, Err(ResolveError::new(Reason::Network, Some(SourceKind::Spigot), "p"))),
        ended(SourceKind::Modrinth, 0, Err(ResolveError::new(Reason::ProjectMissing, Some(SourceKind::Modrinth), "p"))),
        ended(SourceKind::Hangar, 2, Err(ResolveError::new(Reason::NoSearchResults, Some(SourceKind::Hangar), "p"))),
    ];
    assert_eq!(choose_fallback(&results), None);
    assert_eq!(nearest_failure(&results), Some(1));
    let e = fallback_error("p", &results);
    assert_eq!(e.plugin_id, "p");
    assert_eq!(e.sources, 3);
    let nearest = e.nearest.unwrap();
    assert_eq!(nearest.reason, Reason::ProjectMissing);
    assert_eq!(nearest.source, Some(SourceKind::Modrinth));

    let none: Vec<Finished> = Vec::new();
    assert_eq!(choose_fallback(&none), None);
    let e = fallback_error("p", &none);
    assert_eq!(e.sources, 0);
    assert!(e.nearest.is_none());
}

#[test]
fn retry_and_timeout() {
    assert!(retry_without_version(Some("1.0"), Some("1.20"), true));
    assert!(!retry_without_version(Some("1.0"), Some("1.20"), false));
    assert!(!retry_without_version(None, Some("1.20"), true));
    assert!(!retry_without_version(Some("1.0"), None, true));
    let a = Attempt { source: SourceKind::Hangar, plugin_id: "x".to_string(), priority: 2 };
    let e = timed_out(&a);
    assert_eq!(e.reason, Reason::TimedOut);
    assert_eq!(e.kind(), ErrorKind::TransportFailure);
    assert_eq!(e.source, Some(SourceKind::Hangar));
    assert_eq!(SourceKind::Hangar.name(), "hangar");
}

#[test]
fn every_reason_has_its_kind() {
    let table = [
        (Reason::EmptyId, ErrorKind::InvalidIdentifier),
        (Reason::MalformedId, ErrorKind::InvalidIdentifier),
        (Reason::NoSearchResults, ErrorKind::NotFound),
        (Reason::ProjectMissing, ErrorKind::NotFound),
        (Reason::VersionMissing, ErrorKind::NotFound),
        (Reason::NoVersions, ErrorKind::NotFound),
        (Reason::NoArtifact, ErrorKind::NotFound),
        (Reason::NoSourceFound, ErrorKind::NotFound),
        (Reason::VersionIncompatible, ErrorKind::Incompatible),
        (Reason::NoneCompatible, ErrorKind::Incompatible),
        (Reason::UnknownSource, ErrorKind::UnsupportedSource),
        (Reason::IncompleteFileInfo, ErrorKind::TransportFailure),
        (Reason::HttpStatus, ErrorKind::TransportFailure),
        (Reason::Network, ErrorKind::TransportFailure),
        (Reason::TimedOut, ErrorKind::TransportFailure),
        (Reason::DownloadBlocked, ErrorKind::TransportFailure),
        (Reason::HashMismatch, ErrorKind::IntegrityFailure),
    ];
    for (reason, kind) in table {
        assert_eq!(reason.kind(), kind);
    }
}

#[test]
fn two_attempts_in_one_source_count_once() {
    let results = vec![
        ended(SourceKind::Modrinth, 0, Err(ResolveError::new(Reason::ProjectMissing, Some(SourceKind::Modrinth), "P"))),
        ended(SourceKind::Modrinth, 1, Err(ResolveError::new(Reason::ProjectMissing, Some(SourceKind::Modrinth), "p"))),
        ended(SourceKind::GitHub, 6, Err(ResolveError::new(Reason::Network, Some(SourceKind::GitHub), "P"))),
    ];
    assert_eq!(count_sources(&results), 2);
    let e = fallback_error("P", &results);
    assert_eq!(e.sources, 2);
    assert_eq!(
        e.message(),
        "Plugin 'P' not found in any source (2 tried). Last attempted source 'Modrinth': Plugin 'P' not found in Modrinth"
    );
}

#[test]
fn an_attempt_ends_in_its_answer_or_in_a_timeout() {
    let a = Attempt { source: SourceKind::Spigot, plugin_id: "x".to_string(), priority: 4 };
    assert_eq!(attempt_outcome(&a, Some(Ok(resolved("1")))).unwrap().version, "1");
    let e = attempt_outcome(&a, Some(Err(ResolveError::new(Reason::NoVersions, None, "x")))).unwrap_err();
    assert_eq!(e.reason, Reason::NoVersions);
    let e = attempt_outcome(&a, None).unwrap_err();
    assert_eq!(e.reason, Reason::TimedOut);
    assert_eq!(e.source, Some(SourceKind::Spigot));
    assert_eq!(e.subject, "x");
}

#[test]
fn a_second_try_keeps_the_first_error_unless_it_succeeds() {
    let a = Attempt { source: SourceKind::Hangar, plugin_id: "x".to_string(), priority: 2 };
    let first = || ResolveError::new(Reason::VersionIncompatible, Some(SourceKind::Hangar), "x");
    assert_eq!(retried_outcome(&a, first(), Some(Ok(resolved("2")))).unwrap().version, "2");
    let e = retried_outcome(&a, first(), Some(Err(ResolveError::new(Reason::NoVersions, None, "x")))).unwrap_err();
    assert_eq!(e.reason, Reason::VersionIncompatible);
    let e = retried_outcome(&a, first(), None).unwrap_err();
    assert_eq!(e.reason, Reason::TimedOut);

    let failed: Result<ResolvedVersion, ResolveError> = Err(first());
    assert!(wants_retry(&failed, Some("1.0"), Some("1.20")));
    assert!(!wants_retry(&failed, None, Some("1.20")));
    assert!(!wants_retry(&failed, Some("1.0"), None));
    let late: Result<ResolvedVersion, ResolveError> = Err(timed_out(&a));
    assert!(!wants_retry(&late, Some("1.0"), Some("1.20")));
    let fine: Result<ResolvedVersion, ResolveError> = Ok(resolved("1"));
    assert!(!wants_retry(&fine, Some("1.0"), Some("1.20")));
}
