//! The exchange between a catalog adapter and whoever performs its
//! requests.
//!
//! An adapter never sends a request itself. It says what it needs next, is
//! handed what came back, and says what it needs then, until it ends with a
//! resolved version or an error.

use vstd::prelude::*;
use crate::hash::{compute_hash, formatted, hex_of, sha256, HashAlgorithm};
use crate::http::{basic_filename, extract_filename, extract_filename_basic, extract_filename_star, raw_filename, sanitize_filename, sanitized, star_filename};
use crate::source_trait::{plain_error, Reason, ResolveError, ResolveErrorView, ResolvedVersion, ResolvedVersionView, SourceKind};
use crate::text::{append_str, chars_of, opt_str, opt_text, string_of};
use crate::version_data::{NormalizedVersion, NormalizedVersionView};

verus! {

/// What an adapter expects a request to be answered with.
#[derive(Debug, Clone, Copy, PartialEq, Eq, Structural)]
pub enum Expect {
    ModrinthProject,
    ModrinthVersions,
    HangarProjects,
    HangarProject,
    HangarVersions,
    SpigotResources,
    SpigotResource,
    SpigotVersions,
    GitHubRepositories,
    GitHubRepository,
    GitHubRelease,
    /// The bytes of a file, with the `Content-Disposition` header.
    File,
}

/// What an adapter asks for next, or what it ends with.
#[derive(Debug)]
pub enum Action {
    /// Request the address and hand back what it is answered with.
    Get { url: String, expect: Expect },
    /// The resolution is done.
    Done(ResolvedVersion),
    /// The resolution has failed.
    Fail(ResolveError),
}

/// What an `Action` holds.
pub enum ActionView {
    Get { url: Seq<char>, expect: Expect },
    Done(ResolvedVersionView),
    Fail(ResolveErrorView),
}

impl View for Action {
    type V = ActionView;

    open spec fn view(&self) -> ActionView {
        match self {
            Action::Get { url, expect } => ActionView::Get { url: url@, expect: *expect },
            Action::Done(r) => ActionView::Done(r@),
            Action::Fail(e) => ActionView::Fail(e@),
        }
    }
}

/// What came back for a request.
#[derive(Debug)]
pub enum Event {
    /// Nothing usable: no connection, a timeout, a body that could not be
    /// read as what was expected.
    Failed,
    /// An answer with a status other than success.
    Status(u16),
    ModrinthProject(crate::modrinth::Project),
    ModrinthVersions(Vec<crate::modrinth::Version>),
    HangarProjects(Vec<crate::hangar::Project>),
    HangarProject(crate::hangar::Project),
    HangarVersions(Vec<crate::hangar::Version>),
    SpigotResources(Vec<crate::spigot::Resource>),
    SpigotResource(crate::spigot::Resource),
    SpigotVersions(Vec<crate::spigot::Version>),
    GitHubRepositories(Vec<crate::github::Repository>),
    GitHubRepository(crate::github::Repository),
    GitHubRelease(crate::github::Release),
    /// The bytes of a file and the `Content-Disposition` header of the
    /// answer, if it had one.
    File { content_disposition: Option<String>, data: Vec<u8> },
}

/// Where a resolution stands.
#[derive(Debug, Clone, Copy, PartialEq, Eq, Structural)]
pub enum Stage {
    /// A search by name is under way.
    Searching,
    /// The project is being looked up.
    Checking,
    /// The versions are being listed.
    Listing,
    /// The file of the selected version is being downloaded.
    Downloading,
    /// The file is being downloaded from its second address.
    Retrying,
    /// The resolution has ended.
    Finished,
}

/// The file name of a version of which nothing else is known.
pub open spec fn default_filename(version: Seq<char>) -> Seq<char> {
    version + ".jar"@
}

/// The resolved version for a selected version with a digest from the
/// catalog. Its file name is the catalog's, or else the version with
/// `.jar`.
pub open spec fn resolved_known(v: NormalizedVersionView) -> Option<ResolvedVersionView> {
    match v.download.hash {
        Some(hash) => Some(
            ResolvedVersionView {
                version: v.version,
                filename: match v.download.filename {
                    Some(name) => name,
                    None => default_filename(v.version),
                },
                url: v.download.url,
                hash,
            },
        ),
        None => None,
    }
}

/// Where the file name of a downloaded file comes from if neither the
/// catalog nor the answer's header gives it.
#[derive(Debug, Clone, Copy, PartialEq, Eq, Structural)]
pub enum NameFallback {
    /// From the last segment of the address.
    Address,
    /// From the version, with `.jar`.
    Version,
}

/// The file name that a header gives, before it is made safe.
pub open spec fn header_filename(header: Option<Seq<char>>) -> Option<Seq<char>> {
    match header {
        Some(h) => match star_filename(h) {
            Some(name) => Some(name),
            None => basic_filename(h),
        },
        None => None,
    }
}

/// The file name of a downloaded file.
pub open spec fn downloaded_filename(
    v: NormalizedVersionView,
    content_disposition: Option<Seq<char>>,
    fallback: NameFallback,
) -> Seq<char> {
    match v.download.filename {
        Some(name) => name,
        None => match fallback {
            NameFallback::Address => sanitized(raw_filename(content_disposition, v.download.url)),
            NameFallback::Version => match header_filename(content_disposition) {
                Some(name) => sanitized(name),
                None => default_filename(v.version),
            },
        },
    }
}

/// The resolved version for a selected version whose file was downloaded:
/// the digest is the SHA-256 of the bytes.
pub open spec fn resolved_downloaded(
    v: NormalizedVersionView,
    content_disposition: Option<Seq<char>>,
    data: Seq<u8>,
    fallback: NameFallback,
) -> ResolvedVersionView {
    ResolvedVersionView {
        version: v.version,
        filename: downloaded_filename(v, content_disposition, fallback),
        url: v.download.url,
        hash: formatted(hex_of(sha256(data)), HashAlgorithm::Sha256),
    }
}

/// The file name of a version of which nothing else is known.
pub fn version_filename(version: &str) -> (r: String)
    ensures
        r@ == default_filename(version@),
{
    let mut out = chars_of(version);
    append_str(&mut out, ".jar");
    string_of(&out)
}

/// Resolves a selected version without a download, if the catalog gave its
/// digest.
pub fn resolve_known(v: &NormalizedVersion) -> (r: Option<ResolvedVersion>)
    ensures
        match r {
            Some(resolved) => resolved_known(v@) == Some(resolved@),
            None => resolved_known(v@) is None,
        },
{
    match &v.download.hash {
        Some(hash) => {
            let filename = match &v.download.filename {
                Some(name) => name.clone(),
                None => version_filename(v.version.as_str()),
            };
            Some(
                ResolvedVersion {
                    version: v.version.clone(),
                    filename,
                    url: v.download.url.clone(),
                    hash: hash.clone(),
                },
            )
        },
        None => None,
    }
}

fn filename_from_header(content_disposition: Option<&str>) -> (r: Option<String>)
    ensures
        opt_text(r) == header_filename(opt_str(content_disposition)),
{
    match content_disposition {
        Some(header) => match extract_filename_star(header) {
            Some(name) => Some(name),
            None => extract_filename_basic(header),
        },
        None => None,
    }
}

/// Resolves a selected version from its downloaded file.
pub fn resolve_downloaded(
    v: &NormalizedVersion,
    content_disposition: Option<&str>,
    data: &[u8],
    fallback: NameFallback,
) -> (r: ResolvedVersion)
    ensures
        r@ == resolved_downloaded(v@, opt_str(content_disposition), data@, fallback),
{
    let filename = match &v.download.filename {
        Some(name) => name.clone(),
        None => match fallback {
            NameFallback::Address => extract_filename(content_disposition, v.download.url.as_str()),
            NameFallback::Version => match filename_from_header(content_disposition) {
                Some(name) => sanitize_filename(name.as_str()),
                None => version_filename(v.version.as_str()),
            },
        },
    };
    ResolvedVersion {
        version: v.version.clone(),
        filename,
        url: v.download.url.clone(),
        hash: compute_hash(data, HashAlgorithm::Sha256),
    }
}

/// A resolution under way: the request, and what has been found out so
/// far.
#[derive(Debug)]
pub struct Resolution {
    /// The catalog that is asked.
    pub source: SourceKind,
    /// The identifier as the manifest has it.
    pub plugin_id: String,
    /// The version asked for, if one is.
    pub requested: Option<String>,
    /// The platform version to be compatible with, if one is given.
    pub platform: Option<String>,
    /// Where the resolution stands.
    pub stage: Stage,
    /// The catalog's own address of the project, once it is known.
    pub target: String,
    /// The version that was selected, while its file is downloaded.
    pub selected: Option<NormalizedVersion>,
    /// What to try if the request under way brings nothing: another search
    /// term, or another address of the file.
    pub alternative: Option<String>,
}

/// What a `Resolution` holds.
pub struct ResolutionView {
    pub source: SourceKind,
    pub plugin_id: Seq<char>,
    pub requested: Option<Seq<char>>,
    pub platform: Option<Seq<char>>,
    pub stage: Stage,
    pub target: Seq<char>,
    pub selected: Option<NormalizedVersionView>,
    pub alternative: Option<Seq<char>>,
}

/// What a version that may be absent holds.
pub open spec fn opt_version(o: Option<NormalizedVersion>) -> Option<NormalizedVersionView> {
    match o {
        Some(v) => Some(v@),
        None => None,
    }
}

impl View for Resolution {
    type V = ResolutionView;

    open spec fn view(&self) -> ResolutionView {
        ResolutionView {
            source: self.source,
            plugin_id: self.plugin_id@,
            requested: opt_text(self.requested),
            platform: opt_text(self.platform),
            stage: self.stage,
            target: self.target@,
            selected: opt_version(self.selected),
            alternative: opt_text(self.alternative),
        }
    }
}

/// A resolution that has just been asked for.
pub open spec fn fresh(
    source: SourceKind,
    plugin_id: Seq<char>,
    requested: Option<Seq<char>>,
    platform: Option<Seq<char>>,
) -> ResolutionView {
    ResolutionView {
        source,
        plugin_id,
        requested,
        platform,
        stage: Stage::Finished,
        target: Seq::empty(),
        selected: None,
        alternative: None,
    }
}

/// The error of a resolution, for the given reason.
pub open spec fn failure(s: ResolutionView, reason: Reason) -> ResolveErrorView {
    plain_error(reason, Some(s.source), s.plugin_id)
}

/// The resolution ends with the given error.
pub open spec fn fails(s: ResolutionView, e: ResolveErrorView) -> (ResolutionView, ActionView) {
    (ResolutionView { stage: Stage::Finished, ..s }, ActionView::Fail(e))
}

/// The resolution ends for the given reason.
pub open spec fn fails_for(s: ResolutionView, reason: Reason) -> (ResolutionView, ActionView) {
    fails(s, failure(s, reason))
}

/// The resolution ends because a request was answered with a status other
/// than success.
pub open spec fn fails_with_status(s: ResolutionView, status: u16) -> (ResolutionView, ActionView) {
    fails(s, ResolveErrorView { status: Some(status), ..failure(s, Reason::HttpStatus) })
}

/// The resolution ends because the project is not there, if the status says
/// so, or else because of the status.
pub open spec fn fails_looking_up(s: ResolutionView, status: u16) -> (ResolutionView, ActionView) {
    if status == 404 {
        fails_for(s, Reason::ProjectMissing)
    } else {
        fails_with_status(s, status)
    }
}

/// The resolution ends with the resolved version.
pub open spec fn finishes(s: ResolutionView, r: ResolvedVersionView) -> (ResolutionView, ActionView) {
    (ResolutionView { stage: Stage::Finished, ..s }, ActionView::Done(r))
}

/// The resolution goes on at the given stage with a request.
pub open spec fn asks(s: ResolutionView, stage: Stage, url: Seq<char>, expect: Expect) -> (
    ResolutionView,
    ActionView,
) {
    (ResolutionView { stage, ..s }, ActionView::Get { url, expect })
}

impl Resolution {
    /// A resolution that has just been asked for.
    pub fn new(
        source: SourceKind,
        plugin_id: &str,
        requested_version: Option<&str>,
        minecraft_version: Option<&str>,
    ) -> (r: Self)
        ensures
            r@ == fresh(source, plugin_id@, opt_str(requested_version), opt_str(minecraft_version)),
    {
        Resolution {
            source,
            plugin_id: plugin_id.to_string(),
            requested: match requested_version {
                Some(v) => Some(v.to_string()),
                None => None,
            },
            platform: match minecraft_version {
                Some(v) => Some(v.to_string()),
                None => None,
            },
            stage: Stage::Finished,
            target: String::new(),
            selected: None,
            alternative: None,
        }
    }

    /// Ends the resolution with an error.
    pub fn fail(self, e: ResolveError) -> (r: (Resolution, Action))
        ensures
            (r.0@, r.1@) == fails(self@, e@),
    {
        (Resolution { stage: Stage::Finished, ..self }, Action::Fail(e))
    }

    /// Ends the resolution for a reason.
    pub fn fail_for(self, reason: Reason) -> (r: (Resolution, Action))
        ensures
            (r.0@, r.1@) == fails_for(self@, reason),
    {
        let e = ResolveError::new(reason, Some(self.source), self.plugin_id.as_str());
        self.fail(e)
    }

    /// Ends the resolution because of the status of an answer.
    pub fn fail_with_status(self, status: u16) -> (r: (Resolution, Action))
        ensures
            (r.0@, r.1@) == fails_with_status(self@, status),
    {
        let e = ResolveError::new(
            Reason::HttpStatus,
            Some(self.source),
            self.plugin_id.as_str(),
        ).with_status(status);
        self.fail(e)
    }

    /// Ends the resolution because the lookup of the project was answered
    /// with a status other than success.
    pub fn fail_looking_up(self, status: u16) -> (r: (Resolution, Action))
        ensures
            (r.0@, r.1@) == fails_looking_up(self@, status),
    {
        if status == 404 {
            self.fail_for(Reason::ProjectMissing)
        } else {
            self.fail_with_status(status)
        }
    }

    /// Ends the resolution with its result.
    pub fn finish(self, resolved: ResolvedVersion) -> (r: (Resolution, Action))
        ensures
            (r.0@, r.1@) == finishes(self@, resolved@),
    {
        (Resolution { stage: Stage::Finished, ..self }, Action::Done(resolved))
    }

    /// Goes on at the given stage with a request.
    pub fn ask(self, stage: Stage, url: String, expect: Expect) -> (r: (Resolution, Action))
        ensures
            (r.0@, r.1@) == asks(self@, stage, url@, expect),
    {
        (Resolution { stage, ..self }, Action::Get { url, expect })
    }

    /// The version asked for, if one is.
    pub fn requested_version(&self) -> (r: Option<&str>)
        ensures
            opt_str(r) == self@.requested,
    {
        match &self.requested {
            Some(v) => Some(v.as_str()),
            None => None,
        }
    }

    /// The platform version to be compatible with, if one is given.
    pub fn minecraft_version(&self) -> (r: Option<&str>)
        ensures
            opt_str(r) == self@.platform,
    {
        match &self.platform {
            Some(v) => Some(v.as_str()),
            None => None,
        }
    }
}

/// The error of a failed selection, as the error of the resolution.
pub open spec fn selection_failure(s: ResolutionView, e: ResolveErrorView) -> ResolveErrorView {
    ResolveErrorView { source: Some(s.source), ..e }
}

/// What the download of the selected version's file leads to: the resolved
/// version, or an error for a status other than success or for anything
/// that is not a file.
pub open spec fn downloaded(s: ResolutionView, e: Event, fallback: NameFallback) -> (
    ResolutionView,
    ActionView,
) {
    match (s.selected, e) {
        (Some(v), Event::File { content_disposition, data }) => finishes(
            s,
            resolved_downloaded(v, opt_text(content_disposition), data@, fallback),
        ),
        (_, Event::Status(status)) => fails_with_status(s, status),
        _ => fails_for(s, Reason::Network),
    }
}

impl Resolution {
    /// Ends the resolution with what the download brought.
    pub fn take_download(self, e: Event, fallback: NameFallback) -> (r: (Resolution, Action))
        ensures
            (r.0@, r.1@) == downloaded(self@, e, fallback),
    {
        match e {
            Event::File { content_disposition, data } => {
                let resolved = match &self.selected {
                    Some(v) => {
                        let header = match &content_disposition {
                            Some(h) => Some(h.as_str()),
                            None => None,
                        };
                        Some(resolve_downloaded(v, header, data.as_slice(), fallback))
                    },
                    None => None,
                };
                match resolved {
                    Some(r) => self.finish(r),
                    None => self.fail_for(Reason::Network),
                }
            },
            Event::Status(status) => self.fail_with_status(status),
            _ => self.fail_for(Reason::Network),
        }
    }
}

} // verus!
