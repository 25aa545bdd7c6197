//! GitHub releases as a catalog.
//!
//! A repository is addressed as `owner/repo`; a bare name is searched for
//! and the first exact match taken, or else the first result. A release
//! says nothing of platform versions and comes without digests: its first
//! `.jar` asset is downloaded and hashed.

use vstd::prelude::*;
use crate::resolution::{asks, downloaded, fails, fails_for, fails_looking_up, fails_with_status, fresh, Action, ActionView, Event, Expect, NameFallback, Resolution, ResolutionView, Stage};
use crate::search::{best_match, best_position, parse_owner_name_id, parsed_id, ParsedId, ParsedIdView};
use crate::seqs::{first_where, lemma_first_where};
use crate::source_trait::{acceptable_id, plain_error, PluginSource, Reason, ResolveError, ResolveErrorView, SourceKind};
use crate::text::{append_str, chars_of, copy_opt, ends_with, has_char, has_suffix, opt_str, string_of, texts};
use crate::urls::{url_encode, url_encoded};
use crate::version_data::{DownloadInfo, DownloadInfoView, NormalizedVersion, NormalizedVersionView};

verus! {

/// A repository as a search returns it.
#[derive(Debug)]
pub struct Repository {
    pub name: String,
    /// The login of the owner.
    pub owner: String,
}

impl crate::search::Searchable for Repository {
    open spec fn name_text(&self) -> Seq<char> {
        self.name@
    }

    fn search_name(&self) -> (r: &str) {
        self.name.as_str()
    }
}

/// A file of a release.
#[derive(Debug)]
pub struct Asset {
    pub name: String,
    pub browser_download_url: String,
}

/// A release.
#[derive(Debug)]
pub struct Release {
    pub tag_name: String,
    pub published_at: String,
    pub assets: Vec<Asset>,
}

/// The GitHub adapter.
#[derive(Debug, Clone, Copy)]
pub struct GitHubSource;

impl PluginSource for GitHubSource {
    open spec fn which(&self) -> SourceKind {
        SourceKind::GitHub
    }

    fn kind(&self) -> (r: SourceKind) {
        SourceKind::GitHub
    }

    fn name(&self) -> (r: &'static str) {
        SourceKind::GitHub.name()
    }

    fn validate_plugin_id(&self, plugin_id: &str) -> (r: Result<(), ResolveError>) {
        SourceKind::GitHub.validate_plugin_id(plugin_id)
    }
}

/// The address of a repository, given as `owner/repo`.
pub open spec fn repository_url(target: Seq<char>) -> Seq<char> {
    "https://api.github.com/repos/"@ + target
}

/// The address of the release to resolve: the one with the tag asked for,
/// or the latest.
pub open spec fn release_url(target: Seq<char>, requested: Option<Seq<char>>) -> Seq<char> {
    match requested {
        Some(tag) => repository_url(target) + "/releases/tags/"@ + tag,
        None => repository_url(target) + "/releases/latest"@,
    }
}

/// The address of a search for repositories by name, the most starred
/// first.
pub open spec fn search_url(term: Seq<char>) -> Seq<char> {
    "https://api.github.com/search/repositories?q="@ + url_encoded(url_encoded(term) + " in:name"@)
        + "&sort=stars&order=desc&per_page=100"@
}

/// An asset is a `.jar` file.
pub open spec fn is_jar(a: Asset) -> bool {
    ends_with(a.name@, ".jar"@)
}

/// The position of the first `.jar` asset, or the number of assets.
pub open spec fn jar_position(assets: Seq<Asset>) -> int {
    first_where(assets, |a: Asset| is_jar(a))
}

/// A release in the common shape, for its asset at `k`. It declares no
/// platform versions and has no digest.
pub open spec fn normalized(release: Release, k: int) -> NormalizedVersionView {
    NormalizedVersionView {
        version: release.tag_name@,
        published_at: release.published_at@,
        mc_versions: Seq::empty(),
        download: DownloadInfoView {
            url: release.assets@[k].browser_download_url@,
            filename: Some(release.assets@[k].name@),
            hash: None,
        },
    }
}

/// How a resolution begins: with the lookup of the repository for an
/// identifier of the form `owner/repo`, with a search for a bare name, and
/// with an error for anything else.
pub open spec fn begun(
    plugin_id: Seq<char>,
    requested: Option<Seq<char>>,
    platform: Option<Seq<char>>,
) -> (ResolutionView, ActionView) {
    let s = fresh(SourceKind::GitHub, plugin_id, requested, platform);
    if !acceptable_id(plugin_id) {
        fails_for(s, Reason::EmptyId)
    } else {
        match parsed_id(plugin_id) {
            ParsedIdView::Full { owner, name } => asks(
                ResolutionView { target: owner + "/"@ + name, ..s },
                Stage::Checking,
                repository_url(owner + "/"@ + name),
                Expect::GitHubRepository,
            ),
            ParsedIdView::SearchTerm(term) => if term.contains('/') {
                fails_for(s, Reason::MalformedId)
            } else {
                asks(s, Stage::Searching, search_url(term), Expect::GitHubRepositories)
            },
        }
    }
}

/// The names of the repositories of a list.
pub open spec fn repository_names(results: Seq<Repository>) -> Seq<Seq<char>> {
    results.map_values(|r: Repository| r.name@)
}

/// What the results of a search lead to: the lookup of the best match, or
/// an error if there is no result.
pub open spec fn searched(s: ResolutionView, results: Seq<Repository>) -> (ResolutionView, ActionView) {
    if results.len() == 0 {
        fails_for(s, Reason::NoSearchResults)
    } else {
        let best = results[best_match(repository_names(results), s.plugin_id, true)];
        let target = best.owner@ + "/"@ + best.name@;
        asks(
            ResolutionView { target, ..s },
            Stage::Checking,
            repository_url(target),
            Expect::GitHubRepository,
        )
    }
}

/// What a release leads to: the download of its first `.jar` asset, or an
/// error if it has none.
pub open spec fn released(s: ResolutionView, release: Release) -> (ResolutionView, ActionView) {
    let k = jar_position(release.assets@);
    if 0 <= k < release.assets@.len() {
        asks(
            ResolutionView { selected: Some(normalized(release, k)), ..s },
            Stage::Downloading,
            release.assets@[k].browser_download_url@,
            Expect::File,
        )
    } else {
        fails(
            s,
            ResolveErrorView {
                version: Some(release.tag_name@),
                ..plain_error(Reason::NoArtifact, Some(s.source), s.plugin_id)
            },
        )
    }
}

/// What a missing release leads to: the error that the tag asked for does
/// not exist, or that the repository has no release.
pub open spec fn unreleased(s: ResolutionView, status: u16) -> (ResolutionView, ActionView) {
    if status != 404 {
        fails_with_status(s, status)
    } else {
        match s.requested {
            Some(tag) => fails(
                s,
                ResolveErrorView {
                    version: Some(tag),
                    ..plain_error(Reason::VersionMissing, Some(s.source), s.plugin_id)
                },
            ),
            None => fails_for(s, Reason::NoVersions),
        }
    }
}

/// How a resolution goes on when a request has been answered.
pub open spec fn after(s: ResolutionView, e: Event) -> (ResolutionView, ActionView) {
    match (s.stage, e) {
        (Stage::Searching, Event::GitHubRepositories(results)) => searched(s, results@),
        (Stage::Searching, Event::Status(status)) => fails_with_status(s, status),
        (Stage::Checking, Event::GitHubRepository(_)) => asks(
            s,
            Stage::Listing,
            release_url(s.target, s.requested),
            Expect::GitHubRelease,
        ),
        (Stage::Checking, Event::Status(status)) => fails_looking_up(s, status),
        (Stage::Listing, Event::GitHubRelease(release)) => released(s, release),
        (Stage::Listing, Event::Status(status)) => unreleased(s, status),
        (Stage::Downloading, e) => downloaded(s, e, NameFallback::Address),
        _ => fails_for(s, Reason::Network),
    }
}

fn url_of_repository(target: &str) -> (r: Vec<char>)
    ensures
        r@ == repository_url(target@),
{
    let mut out = chars_of("https://api.github.com/repos/");
    append_str(&mut out, target);
    out
}

fn url_of_release(target: &str, requested: Option<&str>) -> (r: String)
    ensures
        r@ == release_url(target@, opt_str(requested)),
{
    let mut out = url_of_repository(target);
    match requested {
        Some(tag) => {
            append_str(&mut out, "/releases/tags/");
            append_str(&mut out, tag);
        },
        None => {
            append_str(&mut out, "/releases/latest");
        },
    }
    string_of(&out)
}

fn url_of_search(term: &str) -> (r: String)
    ensures
        r@ == search_url(term@),
{
    let mut query = chars_of(url_encode(term).as_str());
    append_str(&mut query, " in:name");
    let mut out = chars_of("https://api.github.com/search/repositories?q=");
    append_str(&mut out, url_encode(string_of(&query).as_str()).as_str());
    append_str(&mut out, "&sort=stars&order=desc&per_page=100");
    string_of(&out)
}

fn join_target(owner: &str, name: &str) -> (r: String)
    ensures
        r@ == owner@ + "/"@ + name@,
{
    let mut out = chars_of(owner);
    append_str(&mut out, "/");
    append_str(&mut out, name);
    string_of(&out)
}

/// The position of the first `.jar` asset, or the number of assets.
pub fn find_jar(assets: &Vec<Asset>) -> (r: usize)
    ensures
        r == jar_position(assets@),
        r <= assets.len(),
{
    let ghost pred = |a: Asset| is_jar(a);
    let suffix = chars_of(".jar");
    let mut i: usize = 0;
    while i < assets.len()
        invariant
            i <= assets.len(),
            suffix@ == ".jar"@,
            pred == (|a: Asset| is_jar(a)),
            forall|k: int| 0 <= k < i ==> !pred(#[trigger] assets@[k]),
        decreases assets.len() - i,
    {
        let name = chars_of(assets[i].name.as_str());
        if has_suffix(&name, &suffix) {
            proof {
                assert(pred(assets@[i as int]));
                lemma_first_where(assets@, pred, i as int);
            }
            return i;
        }
        assert(!pred(assets@[i as int]));
        i = i + 1;
    }
    proof {
        lemma_first_where(assets@, pred, i as int);
    }
    i
}

/// Begins the resolution of a plugin.
pub fn begin(plugin_id: &str, requested_version: Option<&str>, minecraft_version: Option<&str>) -> (r: (
    Resolution,
    Action,
))
    ensures
        (r.0@, r.1@) == begun(plugin_id@, opt_str(requested_version), opt_str(minecraft_version)),
{
    let s = Resolution::new(SourceKind::GitHub, plugin_id, requested_version, minecraft_version);
    if plugin_id.unicode_len() == 0 {
        return s.fail_for(Reason::EmptyId);
    }
    match parse_owner_name_id(plugin_id) {
        ParsedId::Full { owner, name } => {
            let target = join_target(owner.as_str(), name.as_str());
            let url = string_of(&url_of_repository(target.as_str()));
            let s = Resolution { target, ..s };
            s.ask(Stage::Checking, url, Expect::GitHubRepository)
        },
        ParsedId::SearchTerm(term) => {
            let chars = chars_of(term.as_str());
            if has_char(&chars, '/') {
                s.fail_for(Reason::MalformedId)
            } else {
                let url = url_of_search(term.as_str());
                s.ask(Stage::Searching, url, Expect::GitHubRepositories)
            }
        },
    }
}

fn take_results(s: Resolution, results: Vec<Repository>) -> (r: (Resolution, Action))
    ensures
        (r.0@, r.1@) == searched(s@, results@),
{
    if results.len() == 0 {
        return s.fail_for(Reason::NoSearchResults);
    }
    let mut names: Vec<String> = Vec::new();
    let mut i: usize = 0;
    while i < results.len()
        invariant
            i <= results.len(),
            names@.len() == i,
            forall|k: int| 0 <= k < i ==> names@[k]@ == results@[k].name@,
        decreases results.len() - i,
    {
        names.push(results[i].name.clone());
        i = i + 1;
    }
    assert(texts(names@) =~= repository_names(results@));
    let k = best_position(&names, s.plugin_id.as_str(), true);
    let best = &results[k];
    let target = join_target(best.owner.as_str(), best.name.as_str());
    let url = string_of(&url_of_repository(target.as_str()));
    let s = Resolution { target, ..s };
    s.ask(Stage::Checking, url, Expect::GitHubRepository)
}

fn take_release(s: Resolution, release: &Release) -> (r: (Resolution, Action))
    ensures
        (r.0@, r.1@) == released(s@, *release),
{
    let k = find_jar(&release.assets);
    if k < release.assets.len() {
        let asset = &release.assets[k];
        let none: Vec<String> = Vec::new();
        assert(texts(none@) =~= Seq::<Seq<char>>::empty());
        let selected = NormalizedVersion {
            version: release.tag_name.clone(),
            published_at: release.published_at.clone(),
            mc_versions: none,
            download: DownloadInfo {
                url: asset.browser_download_url.clone(),
                filename: Some(asset.name.clone()),
                hash: None,
            },
        };
        let url = asset.browser_download_url.clone();
        let s = Resolution { selected: Some(selected), ..s };
        s.ask(Stage::Downloading, url, Expect::File)
    } else {
        let e = ResolveError::new(Reason::NoArtifact, Some(s.source), s.plugin_id.as_str()).about_version(
            release.tag_name.as_str(),
        );
        s.fail(e)
    }
}

fn take_no_release(s: Resolution, status: u16) -> (r: (Resolution, Action))
    ensures
        (r.0@, r.1@) == unreleased(s@, status),
{
    if status != 404 {
        return s.fail_with_status(status);
    }
    match copy_opt(&s.requested) {
        Some(tag) => {
            let e = ResolveError::new(
                Reason::VersionMissing,
                Some(s.source),
                s.plugin_id.as_str(),
            ).about_version(tag.as_str());
            s.fail(e)
        },
        None => s.fail_for(Reason::NoVersions),
    }
}

/// Goes on with a resolution when a request has been answered.
pub fn advance(s: Resolution, e: Event) -> (r: (Resolution, Action))
    ensures
        (r.0@, r.1@) == after(s@, e),
{
    match s.stage {
        Stage::Searching => match e {
            Event::GitHubRepositories(results) => take_results(s, results),
            Event::Status(status) => s.fail_with_status(status),
            _ => s.fail_for(Reason::Network),
        },
        Stage::Checking => match e {
            Event::GitHubRepository(_) => {
                let url = url_of_release(s.target.as_str(), s.requested_version());
                s.ask(Stage::Listing, url, Expect::GitHubRelease)
            },
            Event::Status(status) => s.fail_looking_up(status),
            _ => s.fail_for(Reason::Network),
        },
        Stage::Listing => match e {
            Event::GitHubRelease(release) => take_release(s, &release),
            Event::Status(status) => take_no_release(s, status),
            _ => s.fail_for(Reason::Network),
        },
        Stage::Downloading => s.take_download(e, NameFallback::Address),
        _ => s.fail_for(Reason::Network),
    }
}

} // verus!
