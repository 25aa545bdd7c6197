//! The Hangar catalog.
//!
//! A project is addressed as `owner/slug`; a bare name is searched for and
//! the best match taken. A version declares the platform versions it
//! supports for each platform and offers one download for each; the download
//! for `PAPER` is preferred.

use vstd::prelude::*;
use crate::resolution::{asks, downloaded, fails, fails_for, fails_looking_up, fails_with_status, finishes, fresh, resolve_known, resolved_known, selection_failure, Action, ActionView, Event, Expect, NameFallback, Resolution, ResolutionView, Stage};
use crate::search::{best_match, best_position, parse_owner_name_id, parsed_id, ParsedId, ParsedIdView};
use crate::seqs::{first_where, lemma_first_where};
use crate::source_trait::{acceptable_id, plain_error, PluginSource, Reason, ResolveError, ResolveErrorView, SourceKind};
use crate::text::{append_str, chars_of, has_char, opt_str, same_text, string_of, texts};
use crate::urls::{url_encode, url_encoded};
use crate::version_data::{version_views, DownloadInfo, DownloadInfoView, NormalizedVersion, NormalizedVersionView};
use crate::version_selector::{position_choice, select_position, SelectionConfig};

verus! {

/// The owner and the slug of a project.
#[derive(Debug)]
pub struct Namespace {
    pub owner: String,
    pub slug: String,
}

/// A project as the catalog describes it.
#[derive(Debug)]
pub struct Project {
    pub name: String,
    pub namespace: Namespace,
}

impl crate::search::Searchable for Project {
    open spec fn name_text(&self) -> Seq<char> {
        self.name@
    }

    fn search_name(&self) -> (r: &str) {
        self.name.as_str()
    }
}

/// What the catalog knows of a file.
#[derive(Debug)]
pub struct FileInfo {
    pub name: Option<String>,
    pub sha256_hash: Option<String>,
}

/// One download of a version.
#[derive(Debug)]
pub struct Download {
    pub file_info: Option<FileInfo>,
    pub download_url: Option<String>,
    pub external_url: Option<String>,
}

/// The download of a version for one platform.
#[derive(Debug)]
pub struct PlatformDownload {
    pub platform: String,
    pub download: Download,
}

/// The platform versions that a version supports on one platform.
#[derive(Debug)]
pub struct PlatformDependencies {
    pub platform: String,
    pub versions: Vec<String>,
}

/// A version as the catalog lists it.
#[derive(Debug)]
pub struct Version {
    pub name: String,
    pub created_at: String,
    pub platform_dependencies: Vec<PlatformDependencies>,
    pub downloads: Vec<PlatformDownload>,
}

/// The Hangar adapter.
#[derive(Debug, Clone, Copy)]
pub struct HangarSource;

impl PluginSource for HangarSource {
    open spec fn which(&self) -> SourceKind {
        SourceKind::Hangar
    }

    fn kind(&self) -> (r: SourceKind) {
        SourceKind::Hangar
    }

    fn name(&self) -> (r: &'static str) {
        SourceKind::Hangar.name()
    }

    fn validate_plugin_id(&self, plugin_id: &str) -> (r: Result<(), ResolveError>) {
        SourceKind::Hangar.validate_plugin_id(plugin_id)
    }
}

/// The address of a project, given as `owner/slug`.
pub open spec fn project_url(target: Seq<char>) -> Seq<char> {
    "https://hangar.papermc.io/api/v1/projects/"@ + target
}

/// The address of the list of a project's versions.
pub open spec fn versions_url(target: Seq<char>) -> Seq<char> {
    project_url(target) + "/versions"@
}

/// The address of a search by name.
pub open spec fn search_url(term: Seq<char>) -> Seq<char> {
    "https://hangar.papermc.io/api/v1/projects?q="@ + url_encoded(term)
}

/// The catalog's address of a project.
pub open spec fn target_of(namespace: Namespace) -> Seq<char> {
    namespace.owner@ + "/"@ + namespace.slug@
}

/// All platform versions that a version declares, platform after platform.
pub open spec fn declared(deps: Seq<PlatformDependencies>) -> Seq<Seq<char>>
    decreases deps.len(),
{
    if deps.len() == 0 {
        Seq::empty()
    } else {
        declared(deps.drop_last()) + texts(deps.last().versions@)
    }
}

/// A download has an address.
pub open spec fn has_address(d: PlatformDownload) -> bool {
    d.download.download_url is Some || d.download.external_url is Some
}

/// A download is for the platform `PAPER`.
pub open spec fn for_paper(d: PlatformDownload) -> bool {
    d.platform@ == "PAPER"@
}

/// The position of the download to use: that for `PAPER` if it has an
/// address, else the first that has one; the number of downloads if none
/// has.
pub open spec fn preferred(downloads: Seq<PlatformDownload>) -> int {
    let paper = first_where(downloads, |d: PlatformDownload| for_paper(d));
    if 0 <= paper < downloads.len() && has_address(downloads[paper]) {
        paper
    } else {
        first_where(downloads, |d: PlatformDownload| has_address(d))
    }
}

/// The address of a download: its own, or else the external one.
pub open spec fn address(d: Download) -> Seq<char> {
    match d.download_url {
        Some(url) => url@,
        None => match d.external_url {
            Some(url) => url@,
            None => Seq::empty(),
        },
    }
}

/// Why a version cannot be downloaded, if it cannot: it has no download
/// with an address, or the record of its file lacks the name or the digest.
pub open spec fn problem(v: Version) -> Option<Reason> {
    let k = preferred(v.downloads@);
    if !(0 <= k < v.downloads@.len()) {
        Some(Reason::NoArtifact)
    } else {
        match v.downloads@[k].download.file_info {
            Some(info) => if info.name is Some && info.sha256_hash is Some {
                None
            } else {
                Some(Reason::IncompleteFileInfo)
            },
            None => None,
        }
    }
}

/// The download of a version in the common shape. With a record of the
/// file it has the file's name and digest; without, only the address. A
/// version that cannot be downloaded has an empty one.
pub open spec fn download_of(v: Version) -> DownloadInfoView {
    let k = preferred(v.downloads@);
    if problem(v) is Some {
        DownloadInfoView { url: Seq::empty(), filename: None, hash: None }
    } else {
        let d = v.downloads@[k].download;
        match d.file_info {
            Some(info) => DownloadInfoView {
                url: address(d),
                filename: Some(info.name->0@),
                hash: Some("sha256:"@ + info.sha256_hash->0@),
            },
            None => DownloadInfoView { url: address(d), filename: None, hash: None },
        }
    }
}

/// A version in the common shape.
pub open spec fn normalized(v: Version) -> NormalizedVersionView {
    NormalizedVersionView {
        version: v.name@,
        published_at: v.created_at@,
        mc_versions: declared(v.platform_dependencies@),
        download: download_of(v),
    }
}

/// The versions of a list in the common shape.
pub open spec fn normalized_all(list: Seq<Version>) -> Seq<NormalizedVersionView> {
    list.map_values(|v: Version| normalized(v))
}

/// How a resolution begins: with the lookup of the project for an
/// identifier of the form `owner/slug`, with a search for a bare name, and
/// with an error for anything else.
pub open spec fn begun(
    plugin_id: Seq<char>,
    requested: Option<Seq<char>>,
    platform: Option<Seq<char>>,
) -> (ResolutionView, ActionView) {
    let s = fresh(SourceKind::Hangar, plugin_id, requested, platform);
    if !acceptable_id(plugin_id) {
        fails_for(s, Reason::EmptyId)
    } else {
        match parsed_id(plugin_id) {
            ParsedIdView::Full { owner, name } => asks(
                ResolutionView { target: owner + "/"@ + name, ..s },
                Stage::Checking,
                project_url(owner + "/"@ + name),
                Expect::HangarProject,
            ),
            ParsedIdView::SearchTerm(term) => if term.contains('/') {
                fails_for(s, Reason::MalformedId)
            } else {
                asks(s, Stage::Searching, search_url(term), Expect::HangarProjects)
            },
        }
    }
}

/// The names of the projects of a list.
pub open spec fn project_names(results: Seq<Project>) -> Seq<Seq<char>> {
    results.map_values(|p: Project| p.name@)
}

/// What the results of a search lead to: the lookup of the best match, or
/// an error if there is no result.
pub open spec fn searched(s: ResolutionView, results: Seq<Project>) -> (ResolutionView, ActionView) {
    if results.len() == 0 {
        fails_for(s, Reason::NoSearchResults)
    } else {
        let target = target_of(results[best_match(project_names(results), s.plugin_id, false)].namespace);
        asks(ResolutionView { target, ..s }, Stage::Checking, project_url(target), Expect::HangarProject)
    }
}

/// What the list of versions leads to: the error of the selection; for the
/// selected version the error that it cannot be downloaded, the resolved
/// version if the catalog gave the digest, or else the download of its
/// file.
pub open spec fn listed(s: ResolutionView, list: Seq<Version>) -> (ResolutionView, ActionView) {
    let all = normalized_all(list);
    match position_choice(all, s.requested, s.platform, s.plugin_id, false) {
        Err(e) => fails(s, selection_failure(s, e)),
        Ok(i) => match problem(list[i]) {
            Some(reason) => fails(
                s,
                ResolveErrorView {
                    version: Some(all[i].version),
                    ..plain_error(reason, Some(s.source), s.plugin_id)
                },
            ),
            None => match resolved_known(all[i]) {
                Some(r) => finishes(s, r),
                None => asks(
                    ResolutionView { selected: Some(all[i]), ..s },
                    Stage::Downloading,
                    all[i].download.url,
                    Expect::File,
                ),
            },
        },
    }
}

/// How a resolution goes on when a request has been answered.
pub open spec fn after(s: ResolutionView, e: Event) -> (ResolutionView, ActionView) {
    match (s.stage, e) {
        (Stage::Searching, Event::HangarProjects(results)) => searched(s, results@),
        (Stage::Searching, Event::Status(status)) => fails_with_status(s, status),
        (Stage::Checking, Event::HangarProject(_)) => asks(
            s,
            Stage::Listing,
            versions_url(s.target),
            Expect::HangarVersions,
        ),
        (Stage::Checking, Event::Status(status)) => fails_looking_up(s, status),
        (Stage::Listing, Event::HangarVersions(list)) => listed(s, list@),
        (Stage::Listing, Event::Status(status)) => fails_with_status(s, status),
        (Stage::Downloading, e) => downloaded(s, e, NameFallback::Address),
        _ => fails_for(s, Reason::Network),
    }
}

fn url_of_project(target: &str) -> (r: Vec<char>)
    ensures
        r@ == project_url(target@),
{
    let mut out = chars_of("https://hangar.papermc.io/api/v1/projects/");
    append_str(&mut out, target);
    out
}

fn url_of_versions(target: &str) -> (r: String)
    ensures
        r@ == versions_url(target@),
{
    let mut out = url_of_project(target);
    append_str(&mut out, "/versions");
    string_of(&out)
}

fn url_of_search(term: &str) -> (r: String)
    ensures
        r@ == search_url(term@),
{
    let mut out = chars_of("https://hangar.papermc.io/api/v1/projects?q=");
    append_str(&mut out, url_encode(term).as_str());
    string_of(&out)
}

fn join_target(owner: &str, slug: &str) -> (r: String)
    ensures
        r@ == owner@ + "/"@ + slug@,
{
    let mut out = chars_of(owner);
    append_str(&mut out, "/");
    append_str(&mut out, slug);
    string_of(&out)
}

/// All platform versions that a version declares.
pub fn declared_versions(deps: &Vec<PlatformDependencies>) -> (r: Vec<String>)
    ensures
        texts(r@) == declared(deps@),
{
    let mut out: Vec<String> = Vec::new();
    let mut i: usize = 0;
    assert(deps@.take(0) =~= Seq::<PlatformDependencies>::empty());
    assert(texts(out@) =~= Seq::<Seq<char>>::empty());
    while i < deps.len()
        invariant
            i <= deps.len(),
            texts(out@) == declared(deps@.take(i as int)),
        decreases deps.len() - i,
    {
        let versions = &deps[i].versions;
        let ghost before = out@;
        let mut k: usize = 0;
        while k < versions.len()
            invariant
                k <= versions.len(),
                texts(out@) == texts(before) + texts(versions@.take(k as int)),
            decreases versions.len() - k,
        {
            let ghost prev = out@;
            out.push(versions[k].clone());
            proof {
                assert(versions@.take(k + 1) == versions@.take(k as int).push(versions@[k as int]));
                assert(texts(out@) =~= texts(prev).push(versions@[k as int]@));
                assert(texts(versions@.take(k + 1)) =~= texts(versions@.take(k as int)).push(
                    versions@[k as int]@,
                ));
            }
            k = k + 1;
        }
        proof {
            assert(versions@.take(versions.len() as int) == versions@);
            let next = deps@.take(i + 1);
            assert(next.drop_last() == deps@.take(i as int));
            assert(next.last() == deps@[i as int]);
        }
        i = i + 1;
    }
    assert(deps@.take(deps.len() as int) == deps@);
    out
}

fn has_some_address(d: &PlatformDownload) -> (r: bool)
    ensures
        r == has_address(*d),
{
    d.download.download_url.is_some() || d.download.external_url.is_some()
}

fn paper_position(downloads: &Vec<PlatformDownload>) -> (r: usize)
    ensures
        r == first_where(downloads@, |d: PlatformDownload| for_paper(d)),
        r <= downloads.len(),
{
    let ghost pred = |d: PlatformDownload| for_paper(d);
    let mut i: usize = 0;
    while i < downloads.len()
        invariant
            i <= downloads.len(),
            pred == (|d: PlatformDownload| for_paper(d)),
            forall|k: int| 0 <= k < i ==> !pred(#[trigger] downloads@[k]),
        decreases downloads.len() - i,
    {
        if same_text(downloads[i].platform.as_str(), "PAPER") {
            proof {
                assert(pred(downloads@[i as int]));
                lemma_first_where(downloads@, pred, i as int);
            }
            return i;
        }
        assert(!pred(downloads@[i as int]));
        i = i + 1;
    }
    proof {
        lemma_first_where(downloads@, pred, i as int);
    }
    i
}

fn addressed_position(downloads: &Vec<PlatformDownload>) -> (r: usize)
    ensures
        r == first_where(downloads@, |d: PlatformDownload| has_address(d)),
        r <= downloads.len(),
{
    let ghost pred = |d: PlatformDownload| has_address(d);
    let mut j: usize = 0;
    while j < downloads.len()
        invariant
            j <= downloads.len(),
            pred == (|d: PlatformDownload| has_address(d)),
            forall|k: int| 0 <= k < j ==> !pred(#[trigger] downloads@[k]),
        decreases downloads.len() - j,
    {
        if has_some_address(&downloads[j]) {
            proof {
                assert(pred(downloads@[j as int]));
                lemma_first_where(downloads@, pred, j as int);
            }
            return j;
        }
        assert(!pred(downloads@[j as int]));
        j = j + 1;
    }
    proof {
        lemma_first_where(downloads@, pred, j as int);
    }
    j
}

/// The position of the download to use, or the number of downloads.
pub fn preferred_download(downloads: &Vec<PlatformDownload>) -> (r: usize)
    ensures
        r == preferred(downloads@),
        r <= downloads.len(),
{
    let paper = paper_position(downloads);
    if paper < downloads.len() && has_some_address(&downloads[paper]) {
        paper
    } else {
        addressed_position(downloads)
    }
}

/// Why a version cannot be downloaded, if it cannot.
pub fn download_problem(v: &Version) -> (r: Option<Reason>)
    ensures
        r == problem(*v),
{
    let k = preferred_download(&v.downloads);
    if k >= v.downloads.len() {
        return Some(Reason::NoArtifact);
    }
    match &v.downloads[k].download.file_info {
        Some(info) => if info.name.is_some() && info.sha256_hash.is_some() {
            None
        } else {
            Some(Reason::IncompleteFileInfo)
        },
        None => None,
    }
}

fn address_of(d: &Download) -> (r: String)
    ensures
        r@ == address(*d),
{
    match &d.download_url {
        Some(url) => url.clone(),
        None => match &d.external_url {
            Some(url) => url.clone(),
            None => String::new(),
        },
    }
}

fn download_info(v: &Version) -> (r: DownloadInfo)
    ensures
        r@ == download_of(*v),
{
    if download_problem(v).is_some() {
        return DownloadInfo { url: String::new(), filename: None, hash: None };
    }
    let k = preferred_download(&v.downloads);
    let d = &v.downloads[k].download;
    match &d.file_info {
        Some(info) => {
            let name = match &info.name {
                Some(n) => n.clone(),
                None => String::new(),
            };
            let mut hash = chars_of("sha256:");
            match &info.sha256_hash {
                Some(h) => {
                    append_str(&mut hash, h.as_str());
                },
                None => {},
            }
            DownloadInfo { url: address_of(d), filename: Some(name), hash: Some(string_of(&hash)) }
        },
        None => DownloadInfo { url: address_of(d), filename: None, hash: None },
    }
}

/// Brings a version into the common shape.
pub fn normalize(v: &Version) -> (r: NormalizedVersion)
    ensures
        r@ == normalized(*v),
{
    NormalizedVersion {
        version: v.name.clone(),
        published_at: v.created_at.clone(),
        mc_versions: declared_versions(&v.platform_dependencies),
        download: download_info(v),
    }
}

/// Brings the versions of a list into the common shape.
pub fn normalize_all(list: &Vec<Version>) -> (r: Vec<NormalizedVersion>)
    ensures
        version_views(r@) == normalized_all(list@),
{
    let mut out: Vec<NormalizedVersion> = Vec::new();
    let mut i: usize = 0;
    while i < list.len()
        invariant
            i <= list.len(),
            out@.len() == i,
            forall|k: int| 0 <= k < i ==> out@[k]@ == normalized(list@[k]),
        decreases list.len() - i,
    {
        out.push(normalize(&list[i]));
        i = i + 1;
    }
    assert(version_views(out@) =~= normalized_all(list@));
    out
}

/// Begins the resolution of a plugin.
pub fn begin(plugin_id: &str, requested_version: Option<&str>, minecraft_version: Option<&str>) -> (r: (
    Resolution,
    Action,
))
    ensures
        (r.0@, r.1@) == begun(plugin_id@, opt_str(requested_version), opt_str(minecraft_version)),
{
    let s = Resolution::new(SourceKind::Hangar, plugin_id, requested_version, minecraft_version);
    if plugin_id.unicode_len() == 0 {
        return s.fail_for(Reason::EmptyId);
    }
    match parse_owner_name_id(plugin_id) {
        ParsedId::Full { owner, name } => {
            let target = join_target(owner.as_str(), name.as_str());
            let url = string_of(&url_of_project(target.as_str()));
            let s = Resolution { target, ..s };
            s.ask(Stage::Checking, url, Expect::HangarProject)
        },
        ParsedId::SearchTerm(term) => {
            let chars = chars_of(term.as_str());
            if has_char(&chars, '/') {
                s.fail_for(Reason::MalformedId)
            } else {
                let url = url_of_search(term.as_str());
                s.ask(Stage::Searching, url, Expect::HangarProjects)
            }
        },
    }
}

fn take_results(s: Resolution, results: Vec<Project>) -> (r: (Resolution, Action))
    ensures
        (r.0@, r.1@) == searched(s@, results@),
{
    if results.len() == 0 {
        return s.fail_for(Reason::NoSearchResults);
    }
    let mut names: Vec<String> = Vec::new();
    let mut i: usize = 0;
    while i < results.len()
        invariant
            i <= results.len(),
            names@.len() == i,
            forall|k: int| 0 <= k < i ==> names@[k]@ == results@[k].name@,
        decreases results.len() - i,
    {
        names.push(results[i].name.clone());
        i = i + 1;
    }
    assert(texts(names@) =~= project_names(results@));
    let k = best_position(&names, s.plugin_id.as_str(), false);
    let best = &results[k];
    let target = join_target(best.namespace.owner.as_str(), best.namespace.slug.as_str());
    let url = string_of(&url_of_project(target.as_str()));
    let s = Resolution { target, ..s };
    s.ask(Stage::Checking, url, Expect::HangarProject)
}

fn take_versions(s: Resolution, list: &Vec<Version>) -> (r: (Resolution, Action))
    ensures
        (r.0@, r.1@) == listed(s@, list@),
{
    let all = normalize_all(list);
    let config = SelectionConfig::new(s.plugin_id.as_str());
    match select_position(&all, s.requested_version(), s.minecraft_version(), &config) {
        Err(e) => {
            let e = ResolveError { source: Some(s.source), ..e };
            s.fail(e)
        },
        Ok(i) => {
            assert(version_views(all@)[i as int] == all@[i as int]@);
            match download_problem(&list[i]) {
                Some(reason) => {
                    let e = ResolveError::new(reason, Some(s.source), s.plugin_id.as_str()).about_version(
                        all[i].version.as_str(),
                    );
                    s.fail(e)
                },
                None => match resolve_known(&all[i]) {
                    Some(r) => s.finish(r),
                    None => {
                        let selected = all[i].clone();
                        let url = selected.download.url.clone();
                        let s = Resolution { selected: Some(selected), ..s };
                        s.ask(Stage::Downloading, url, Expect::File)
                    },
                },
            }
        },
    }
}

/// Goes on with a resolution when a request has been answered.
pub fn advance(s: Resolution, e: Event) -> (r: (Resolution, Action))
    ensures
        (r.0@, r.1@) == after(s@, e),
{
    match s.stage {
        Stage::Searching => match e {
            Event::HangarProjects(results) => take_results(s, results),
            Event::Status(status) => s.fail_with_status(status),
            _ => s.fail_for(Reason::Network),
        },
        Stage::Checking => match e {
            Event::HangarProject(_) => {
                let url = url_of_versions(s.target.as_str());
                s.ask(Stage::Listing, url, Expect::HangarVersions)
            },
            Event::Status(status) => s.fail_looking_up(status),
            _ => s.fail_for(Reason::Network),
        },
        Stage::Listing => match e {
            Event::HangarVersions(list) => take_versions(s, &list),
            Event::Status(status) => s.fail_with_status(status),
            _ => s.fail_for(Reason::Network),
        },
        Stage::Downloading => s.take_download(e, NameFallback::Address),
        _ => s.fail_for(Reason::Network),
    }
}

} // verus!
