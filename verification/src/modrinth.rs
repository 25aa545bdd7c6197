//! The Modrinth catalog.
//!
//! A project is looked up by its slug or identifier; its versions come with
//! the platform versions they support and with a SHA-512 digest of each
//! file, so nothing has to be downloaded to resolve one.

use vstd::prelude::*;
use crate::resolution::{asks, fails, fails_for, fails_looking_up, fails_with_status, finishes, fresh, resolve_known, resolved_known, selection_failure, Action, ActionView, Event, Expect, Resolution, ResolutionView, Stage};
use crate::source_trait::{acceptable_id, plain_error, PluginSource, Reason, ResolveError, ResolveErrorView, SourceKind};
use crate::text::{append_str, chars_of, copy_texts, opt_str, string_of, texts};
use crate::version_data::{version_views, DownloadInfo, DownloadInfoView, NormalizedVersion, NormalizedVersionView};
use crate::version_selector::{position_choice, select_position, SelectionConfig};

verus! {

/// A project as the catalog describes it.
#[derive(Debug)]
pub struct Project {
    pub id: String,
    pub slug: String,
    pub title: String,
}

/// The digests of a file.
#[derive(Debug)]
pub struct FileHashes {
    pub sha512: String,
}

/// A file of a version.
#[derive(Debug)]
pub struct VersionFile {
    pub filename: String,
    pub url: String,
    pub hashes: FileHashes,
}

/// A version as the catalog lists it.
#[derive(Debug)]
pub struct Version {
    pub id: String,
    pub version_number: String,
    pub date_published: String,
    pub game_versions: Vec<String>,
    pub files: Vec<VersionFile>,
}

/// The Modrinth adapter.
#[derive(Debug, Clone, Copy)]
pub struct ModrinthSource;

impl PluginSource for ModrinthSource {
    open spec fn which(&self) -> SourceKind {
        SourceKind::Modrinth
    }

    fn kind(&self) -> (r: SourceKind) {
        SourceKind::Modrinth
    }

    fn name(&self) -> (r: &'static str) {
        SourceKind::Modrinth.name()
    }

    fn validate_plugin_id(&self, plugin_id: &str) -> (r: Result<(), ResolveError>) {
        SourceKind::Modrinth.validate_plugin_id(plugin_id)
    }
}

/// The address of a project.
pub open spec fn project_url(id: Seq<char>) -> Seq<char> {
    "https://api.modrinth.com/v2/project/"@ + id
}

/// The address of the list of a project's versions.
pub open spec fn versions_url(project_id: Seq<char>) -> Seq<char> {
    project_url(project_id) + "/version"@
}

/// The digest of a file in the form that lockfiles hold.
pub open spec fn file_hash(file: VersionFile) -> Seq<char> {
    "sha512:"@ + file.hashes.sha512@
}

/// A version in the common shape. Its download is that of its first file;
/// a version without files has none.
pub open spec fn normalized(v: Version) -> NormalizedVersionView {
    NormalizedVersionView {
        version: v.version_number@,
        published_at: v.date_published@,
        mc_versions: texts(v.game_versions@),
        download: if v.files@.len() > 0 {
            DownloadInfoView {
                url: v.files@[0].url@,
                filename: Some(v.files@[0].filename@),
                hash: Some(file_hash(v.files@[0])),
            }
        } else {
            DownloadInfoView { url: Seq::empty(), filename: None, hash: None }
        },
    }
}

/// The versions of a list in the common shape.
pub open spec fn normalized_all(list: Seq<Version>) -> Seq<NormalizedVersionView> {
    list.map_values(|v: Version| normalized(v))
}

/// What the list of versions leads to: the selected version resolved, the
/// error of the selection, or the error that the selected version has no
/// file.
pub open spec fn listed(s: ResolutionView, list: Seq<Version>) -> (ResolutionView, ActionView) {
    let all = normalized_all(list);
    match position_choice(all, s.requested, s.platform, s.plugin_id, false) {
        Err(e) => fails(s, selection_failure(s, e)),
        Ok(i) => match resolved_known(all[i]) {
            Some(r) => finishes(s, r),
            None => fails(
                s,
                ResolveErrorView {
                    version: Some(all[i].version),
                    ..plain_error(Reason::NoArtifact, Some(s.source), s.plugin_id)
                },
            ),
        },
    }
}

/// How a resolution begins: with the lookup of the project, unless the
/// identifier is empty.
pub open spec fn begun(
    plugin_id: Seq<char>,
    requested: Option<Seq<char>>,
    platform: Option<Seq<char>>,
) -> (ResolutionView, ActionView) {
    let s = fresh(SourceKind::Modrinth, plugin_id, requested, platform);
    if !acceptable_id(plugin_id) {
        fails_for(s, Reason::EmptyId)
    } else {
        asks(
            ResolutionView { target: plugin_id, ..s },
            Stage::Checking,
            project_url(plugin_id),
            Expect::ModrinthProject,
        )
    }
}

/// How a resolution goes on when a request has been answered.
pub open spec fn after(s: ResolutionView, e: Event) -> (ResolutionView, ActionView) {
    match (s.stage, e) {
        (Stage::Checking, Event::ModrinthProject(p)) => asks(
            ResolutionView { target: p.id@, ..s },
            Stage::Listing,
            versions_url(p.id@),
            Expect::ModrinthVersions,
        ),
        (Stage::Checking, Event::Status(status)) => fails_looking_up(s, status),
        (Stage::Listing, Event::ModrinthVersions(list)) => listed(s, list@),
        (Stage::Listing, Event::Status(status)) => fails_with_status(s, status),
        _ => fails_for(s, Reason::Network),
    }
}

fn url_of_project(id: &str) -> (r: Vec<char>)
    ensures
        r@ == project_url(id@),
{
    let mut out = chars_of("https://api.modrinth.com/v2/project/");
    append_str(&mut out, id);
    out
}

fn url_of_versions(project_id: &str) -> (r: String)
    ensures
        r@ == versions_url(project_id@),
{
    let mut out = url_of_project(project_id);
    append_str(&mut out, "/version");
    string_of(&out)
}

/// Brings a version into the common shape.
pub fn normalize(v: &Version) -> (r: NormalizedVersion)
    ensures
        r@ == normalized(*v),
{
    let download = if v.files.len() > 0 {
        let file = &v.files[0];
        let mut hash = chars_of("sha512:");
        append_str(&mut hash, file.hashes.sha512.as_str());
        DownloadInfo {
            url: file.url.clone(),
            filename: Some(file.filename.clone()),
            hash: Some(string_of(&hash)),
        }
    } else {
        DownloadInfo::url_only("")
    };
    proof {
        reveal_strlit("");
        assert(""@ =~= Seq::<char>::empty());
    }
    NormalizedVersion {
        version: v.version_number.clone(),
        published_at: v.date_published.clone(),
        mc_versions: copy_texts(&v.game_versions),
        download,
    }
}

/// Brings the versions of a list into the common shape.
pub fn normalize_all(list: &Vec<Version>) -> (r: Vec<NormalizedVersion>)
    ensures
        version_views(r@) == normalized_all(list@),
{
    let mut out: Vec<NormalizedVersion> = Vec::new();
    let mut i: usize = 0;
    while i < list.len()
        invariant
            i <= list.len(),
            out@.len() == i,
            forall|k: int| 0 <= k < i ==> out@[k]@ == normalized(list@[k]),
        decreases list.len() - i,
    {
        out.push(normalize(&list[i]));
        i = i + 1;
    }
    assert(version_views(out@) =~= normalized_all(list@));
    out
}

/// Begins the resolution of a plugin.
pub fn begin(plugin_id: &str, requested_version: Option<&str>, minecraft_version: Option<&str>) -> (r: (
    Resolution,
    Action,
))
    ensures
        (r.0@, r.1@) == begun(plugin_id@, opt_str(requested_version), opt_str(minecraft_version)),
{
    let s = Resolution::new(SourceKind::Modrinth, plugin_id, requested_version, minecraft_version);
    if plugin_id.unicode_len() == 0 {
        s.fail_for(Reason::EmptyId)
    } else {
        let url = string_of(&url_of_project(plugin_id));
        let s = Resolution { target: plugin_id.to_string(), ..s };
        s.ask(Stage::Checking, url, Expect::ModrinthProject)
    }
}

fn take_versions(s: Resolution, list: &Vec<Version>) -> (r: (Resolution, Action))
    ensures
        (r.0@, r.1@) == listed(s@, list@),
{
    let all = normalize_all(list);
    let config = SelectionConfig::new(s.plugin_id.as_str());
    match select_position(&all, s.requested_version(), s.minecraft_version(), &config) {
        Err(e) => {
            let e = ResolveError { source: Some(s.source), ..e };
            s.fail(e)
        },
        Ok(i) => {
            assert(version_views(all@)[i as int] == all@[i as int]@);
            match resolve_known(&all[i]) {
                Some(r) => s.finish(r),
                None => {
                    let e = ResolveError::new(
                        Reason::NoArtifact,
                        Some(s.source),
                        s.plugin_id.as_str(),
                    ).about_version(all[i].version.as_str());
                    s.fail(e)
                },
            }
        },
    }
}

/// Goes on with a resolution when a request has been answered.
pub fn advance(s: Resolution, e: Event) -> (r: (Resolution, Action))
    ensures
        (r.0@, r.1@) == after(s@, e),
{
    match s.stage {
        Stage::Checking => match e {
            Event::ModrinthProject(p) => {
                let url = url_of_versions(p.id.as_str());
                let s = Resolution { target: p.id, ..s };
                s.ask(Stage::Listing, url, Expect::ModrinthVersions)
            },
            Event::Status(status) => s.fail_looking_up(status),
            _ => s.fail_for(Reason::Network),
        },
        Stage::Listing => match e {
            Event::ModrinthVersions(list) => take_versions(s, &list),
            Event::Status(status) => s.fail_with_status(status),
            _ => s.fail_for(Reason::Network),
        },
        _ => s.fail_for(Reason::Network),
    }
}

} // verus!
