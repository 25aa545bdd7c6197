use mpm::hash::{compute_hash, HashAlgorithm, HashError};
use mpm::lockfile::{LockedPlugin, Lockfile};
use mpm::sync::{
    has_github_plugins, inspect, managed, unmanaged_files, FileState, SyncAction, SyncError, SyncEvent, SyncReason, SyncRun,
    SyncStage,
};

fn locked(name: &str, data: &[u8]) -> LockedPlugin {
    LockedPlugin {
        name: name.to_string(),
        source: "modrinth".to_string(),
        version: "1".to_string(),
        file: format!("{}.jar", name),
        url: format!("https://cdn/{}.jar", name),
        hash: compute_hash(data, HashAlgorithm::Sha256),
    }
}

fn lockfile(plugins: &[(&str, &[u8])]) -> Lockfile {
    let mut l = Lockfile::new();
    for (n, d) in plugins {
        l.add_plugin(locked(n, d));
    }
    l
}

fn listing(names: &[&str]) -> Vec<String> {
    names.iter().map(|n| n.to_string()).collect()
}

fn is(action: &SyncAction, expected: &str) -> bool {
    format!("{:?}", action).starts_with(expected)
}

#[test]
fn inspect_tells_missing_matching_and_differing_files() {
    let p = locked("a", b"aaa");
    assert_eq!(inspect(&p, None), Ok(FileState::Missing));
    assert_eq!(inspect(&p, Some(b"aaa")), Ok(FileState::Matches));
    assert_eq!(inspect(&p, Some(b"aab")), Ok(FileState::Differs));
    let mut bad = locked("a", b"aaa");
    bad.hash = "whirlpool:00".to_string();
    assert_eq!(inspect(&bad, Some(b"aaa")), Err(HashError::UnsupportedAlgorithm));
    assert_eq!(inspect(&bad, None), Ok(FileState::Missing));
}

#[test]
fn unmanaged_files_are_jars_that_are_not_locked() {
    let l = lockfile(&[("a", b"1"), ("b", b"2")]);
    assert!(managed(&l, "a.jar"));
    assert!(!managed(&l, "a"));
    let found = unmanaged_files(&l, &listing(&["z.jar", "a.jar", "plugins.toml", "c.jar", "notes.txt", "b.jar", ".jar", "x.JAR"]));
    assert_eq!(found, vec!["z.jar", "c.jar", ".jar"]);
}

#[test]
fn a_full_run_downloads_what_is_missing_and_removes_what_is_unmanaged() {
    let l = lockfile(&[("a", b"aaa"), ("b", b"bbb"), ("c", b"ccc")]);
    let (run, action) = SyncRun::begin(false, &l);
    assert!(is(&action, "CleanTemp"));
    let (run, action) = run.advance(&l, SyncEvent::Done);
    assert!(is(&action, "CreateStaging"));
    let (run, action) = run.advance(&l, SyncEvent::Done);
    assert!(is(&action, "Backup"));
    let (run, action) = run.advance(&l, SyncEvent::Done);
    assert!(matches!(action, SyncAction::ReadFile { plugin: 0 }));
    let (run, action) = run.advance(&l, SyncEvent::File(Some(b"aaa".to_vec())));
    assert!(matches!(action, SyncAction::ReadFile { plugin: 1 }));
    let (run, action) = run.advance(&l, SyncEvent::File(None));
    assert!(matches!(action, SyncAction::ReadFile { plugin: 2 }));
    let (run, action) = run.advance(&l, SyncEvent::File(Some(b"old".to_vec())));
    assert!(matches!(action, SyncAction::Download { plugin: 1 }));
    assert_eq!(run.downloads, vec![1, 2]);
    let (run, action) = run.advance(&l, SyncEvent::Downloaded(b"bbb".to_vec()));
    match &action {
        SyncAction::Stage { plugin, data } => {
            assert_eq!(*plugin, 1);
            assert_eq!(data, b"bbb");
        }
        other => panic!("{:?}", other),
    }
    let (run, action) = run.advance(&l, SyncEvent::Done);
    assert!(matches!(action, SyncAction::Download { plugin: 2 }));
    let (run, action) = run.advance(&l, SyncEvent::Downloaded(b"ccc".to_vec()));
    assert!(matches!(action, SyncAction::Stage { plugin: 2, .. }));
    let (run, action) = run.advance(&l, SyncEvent::Done);
    assert!(is(&action, "List"));
    let (run, action) = run.advance(&l, SyncEvent::Listing(listing(&["a.jar", "old.jar", "plugins.lock"])));
    assert!(is(&action, "RemoveUnmanaged"));
    assert_eq!(run.unmanaged, vec!["old.jar"]);
    let (run, action) = run.advance(&l, SyncEvent::Done);
    assert!(is(&action, "Replace"));
    let (run, action) = run.advance(&l, SyncEvent::Done);
    assert!(is(&action, "CleanTemp"));
    let (run, action) = run.advance(&l, SyncEvent::Done);
    assert!(matches!(action, SyncAction::Finish { code: 0 }));
    assert_eq!(run.stage, SyncStage::Finished);
    assert_eq!(run.error, None);
}

#[test]
fn a_run_on_a_matching_directory_changes_nothing() {
    let l = lockfile(&[("a", b"aaa"), ("b", b"bbb")]);
    let (run, _) = SyncRun::begin(false, &l);
    let (run, _) = run.advance(&l, SyncEvent::Done);
    let (run, _) = run.advance(&l, SyncEvent::Done);
    let (run, _) = run.advance(&l, SyncEvent::Done);
    let (run, _) = run.advance(&l, SyncEvent::File(Some(b"aaa".to_vec())));
    let (run, action) = run.advance(&l, SyncEvent::File(Some(b"bbb".to_vec())));
    assert!(is(&action, "List"));
    assert!(run.downloads.is_empty());
    let (run, action) = run.advance(&l, SyncEvent::Listing(listing(&["a.jar", "b.jar", "plugins.toml"])));
    assert!(is(&action, "Replace"));
    assert!(run.unmanaged.is_empty());
    let (run, _) = run.advance(&l, SyncEvent::Done);
    let (_, action) = run.advance(&l, SyncEvent::Done);
    assert!(matches!(action, SyncAction::Finish { code: 0 }));

    let (run, action) = SyncRun::begin(true, &l);
    assert!(matches!(action, SyncAction::ReadFile { plugin: 0 }));
    let (run, _) = run.advance(&l, SyncEvent::File(Some(b"aaa".to_vec())));
    let (run, _) = run.advance(&l, SyncEvent::File(Some(b"bbb".to_vec())));
    let (_, action) = run.advance(&l, SyncEvent::Listing(listing(&["a.jar", "b.jar"])));
    assert!(matches!(action, SyncAction::Finish { code: 0 }));
}

#[test]
fn a_dry_run_reports_pending_changes_without_touching_anything() {
    let l = lockfile(&[("a", b"aaa")]);
    let (run, _) = SyncRun::begin(true, &l);
    let (run, action) = run.advance(&l, SyncEvent::File(None));
    assert!(is(&action, "List"));
    let (run, action) = run.advance(&l, SyncEvent::Listing(Vec::new()));
    assert!(matches!(action, SyncAction::Finish { code: 1 }));
    assert_eq!(run.downloads, vec![0]);

    let (run, _) = SyncRun::begin(true, &l);
    let (run, _) = run.advance(&l, SyncEvent::File(Some(b"aaa".to_vec())));
    let (run, action) = run.advance(&l, SyncEvent::Listing(listing(&["stray.jar"])));
    assert!(matches!(action, SyncAction::Finish { code: 1 }));
    assert_eq!(run.unmanaged, vec!["stray.jar"]);

    let empty = Lockfile::new();
    let (run, action) = SyncRun::begin(true, &empty);
    assert!(is(&action, "List"));
    let (_, action) = run.advance(&empty, SyncEvent::Listing(Vec::new()));
    assert!(matches!(action, SyncAction::Finish { code: 0 }));
}

fn until_download(l: &Lockfile) -> SyncRun {
    let (run, _) = SyncRun::begin(false, l);
    let (run, _) = run.advance(l, SyncEvent::Done);
    let (run, _) = run.advance(l, SyncEvent::Done);
    let (run, _) = run.advance(l, SyncEvent::Done);
    let (run, action) = run.advance(l, SyncEvent::File(None));
    assert!(matches!(action, SyncAction::Download { plugin: 0 }));
    run
}

#[test]
fn a_failed_download_rolls_back() {
    let l = lockfile(&[("a", b"aaa")]);
    let run = until_download(&l);
    let (run, action) = run.advance(&l, SyncEvent::Failed);
    assert!(is(&action, "Restore"));
    assert_eq!(run.error, Some(SyncError { reason: SyncReason::Transport, plugin: Some(0) }));
    let (run, action) = run.advance(&l, SyncEvent::Done);
    assert!(is(&action, "CleanTemp"));
    let (run, action) = run.advance(&l, SyncEvent::Done);
    assert!(matches!(action, SyncAction::Finish { code: 2 }));
    assert_eq!(run.stage, SyncStage::Finished);
}

#[test]
fn a_wrong_digest_is_an_integrity_failure() {
    let l = lockfile(&[("a", b"aaa")]);
    let run = until_download(&l);
    let (run, action) = run.advance(&l, SyncEvent::Downloaded(b"tampered".to_vec()));
    assert!(is(&action, "Restore"));
    assert_eq!(run.error, Some(SyncError { reason: SyncReason::Integrity, plugin: Some(0) }));
    let (run, action) = run.advance(&l, SyncEvent::Failed);
    assert!(is(&action, "CleanTemp"));
    let (_, action) = run.advance(&l, SyncEvent::Failed);
    assert!(matches!(action, SyncAction::Finish { code: 2 }));
}

#[test]
fn failures_before_the_backup_end_the_run_at_once() {
    let l = lockfile(&[("a", b"aaa")]);
    let (run, _) = SyncRun::begin(false, &l);
    let (run, action) = run.advance(&l, SyncEvent::Failed);
    assert!(matches!(action, SyncAction::Finish { code: 2 }));
    assert_eq!(run.error, Some(SyncError { reason: SyncReason::Io, plugin: None }));
    let (_, action) = run.advance(&l, SyncEvent::Done);
    assert!(matches!(action, SyncAction::Finish { code: 2 }));
}

#[test]
fn an_unreadable_locked_digest_and_failures_of_later_steps_roll_back() {
    let mut l = lockfile(&[("a", b"aaa")]);
    l.plugin[0].hash = "nothing".to_string();
    let (run, _) = SyncRun::begin(false, &l);
    let (run, _) = run.advance(&l, SyncEvent::Done);
    let (run, _) = run.advance(&l, SyncEvent::Done);
    let (run, _) = run.advance(&l, SyncEvent::Done);
    let (run, action) = run.advance(&l, SyncEvent::File(Some(b"aaa".to_vec())));
    assert!(is(&action, "Restore"));
    assert_eq!(
        run.error,
        Some(SyncError { reason: SyncReason::BadHash(HashError::MissingSeparator), plugin: Some(0) })
    );

    let l = lockfile(&[("a", b"aaa")]);
    let run = until_download(&l);
    let (run, _) = run.advance(&l, SyncEvent::Downloaded(b"aaa".to_vec()));
    let (run, action) = run.advance(&l, SyncEvent::Failed);
    assert!(is(&action, "Restore"));
    assert_eq!(run.error, Some(SyncError { reason: SyncReason::Io, plugin: Some(0) }));

    let run = until_download(&l);
    let (run, _) = run.advance(&l, SyncEvent::Downloaded(b"aaa".to_vec()));
    let (run, _) = run.advance(&l, SyncEvent::Done);
    let (run, action) = run.advance(&l, SyncEvent::Listing(Vec::new()));
    assert!(is(&action, "Replace"));
    let (run, action) = run.advance(&l, SyncEvent::Failed);
    assert!(is(&action, "Restore"));
    assert_eq!(run.error, Some(SyncError { reason: SyncReason::Io, plugin: None }));

    let run = until_download(&l);
    let (run, action) = run.advance(&l, SyncEvent::Done);
    assert!(is(&action, "Restore"));
    assert_eq!(run.error, Some(SyncError { reason: SyncReason::Protocol, plugin: Some(0) }));
}

#[test]
fn github_plugins_in_a_lockfile_are_noticed() {
    let mut l = lockfile(&[("a", b"1"), ("b", b"2")]);
    assert!(!has_github_plugins(&l));
    l.plugin[1].source = "github".to_string();
    assert!(has_github_plugins(&l));
    assert!(!has_github_plugins(&Lockfile::new()));
}
