//! What every catalog adapter has in common: its name, the check of an
//! identifier, the answer to a resolution request and the errors it may end
//! in.

use vstd::prelude::*;
use crate::hash::parsed;
use crate::text::{copy_opt, copy_texts, opt_text, texts};

verus! {

/// The catalogs, in the order of their priority.
#[derive(Debug, Clone, Copy, PartialEq, Eq, Structural)]
pub enum SourceKind {
    Modrinth,
    Hangar,
    Spigot,
    GitHub,
}

/// The kinds of failure.
#[derive(Debug, Clone, Copy, PartialEq, Eq, Structural)]
pub enum ErrorKind {
    /// An identifier is empty or malformed; found without any request.
    InvalidIdentifier,
    /// A project, resource or named version does not exist upstream.
    NotFound,
    /// A version exists but does not fit the platform version.
    Incompatible,
    /// A manifest names a source that the registry does not know.
    UnsupportedSource,
    /// A request failed, timed out or was answered with something unusable.
    TransportFailure,
    /// Downloaded bytes do not have the declared digest.
    IntegrityFailure,
    /// A manifest or lockfile that the operation needs is absent or invalid.
    StatePrecondition,
}

/// What exactly went wrong.
#[derive(Debug, Clone, Copy, PartialEq, Eq, Structural)]
pub enum Reason {
    /// The identifier is empty.
    EmptyId,
    /// The identifier does not have the form the catalog asks for.
    MalformedId,
    /// A search by name found nothing.
    NoSearchResults,
    /// The catalog does not know the project or resource.
    ProjectMissing,
    /// The catalog does not list the version, release or tag asked for.
    VersionMissing,
    /// The catalog lists no version at all.
    NoVersions,
    /// The chosen version has no file that can be downloaded.
    NoArtifact,
    /// The catalog's record of the file lacks its name or its digest.
    IncompleteFileInfo,
    /// The version asked for does not fit the platform version.
    VersionIncompatible,
    /// No version fits the platform version.
    NoneCompatible,
    /// The registry does not know the source.
    UnknownSource,
    /// A request was answered with a status other than success.
    HttpStatus,
    /// A request got no usable answer: no connection, a timeout, a body that
    /// could not be read.
    Network,
    /// A request was not answered within the time allowed.
    TimedOut,
    /// The catalog refuses automated downloads and offers no other address.
    DownloadBlocked,
    /// Downloaded bytes do not have the declared digest.
    HashMismatch,
    /// No source could resolve the plugin.
    NoSourceFound,
    /// There is no manifest, or it cannot be read.
    ManifestMissing,
    /// There is a manifest already.
    ManifestExists,
    /// There is no lockfile, or it cannot be read.
    LockfileMissing,
    /// There is no plugin directory.
    PluginsDirMissing,
    /// The manifest has no plugin of the name.
    NotInManifest,
}

impl Reason {
    /// The kind of failure that a reason belongs to.
    pub open spec fn kind_of(self) -> ErrorKind {
        match self {
            Reason::EmptyId | Reason::MalformedId => ErrorKind::InvalidIdentifier,
            Reason::NoSearchResults
            | Reason::ProjectMissing
            | Reason::VersionMissing
            | Reason::NoVersions
            | Reason::NoArtifact
            | Reason::NoSourceFound => ErrorKind::NotFound,
            Reason::VersionIncompatible | Reason::NoneCompatible => ErrorKind::Incompatible,
            Reason::UnknownSource => ErrorKind::UnsupportedSource,
            Reason::IncompleteFileInfo
            | Reason::HttpStatus
            | Reason::Network
            | Reason::TimedOut
            | Reason::DownloadBlocked => ErrorKind::TransportFailure,
            Reason::HashMismatch => ErrorKind::IntegrityFailure,
            Reason::ManifestMissing
            | Reason::ManifestExists
            | Reason::LockfileMissing
            | Reason::PluginsDirMissing
            | Reason::NotInManifest => ErrorKind::StatePrecondition,
        }
    }

    /// The kind of failure that a reason belongs to.
    pub fn kind(&self) -> (r: ErrorKind)
        ensures
            r == self.kind_of(),
    {
        match self {
            Reason::EmptyId | Reason::MalformedId => ErrorKind::InvalidIdentifier,
            Reason::NoSearchResults
            | Reason::ProjectMissing
            | Reason::VersionMissing
            | Reason::NoVersions
            | Reason::NoArtifact
            | Reason::NoSourceFound => ErrorKind::NotFound,
            Reason::VersionIncompatible | Reason::NoneCompatible => ErrorKind::Incompatible,
            Reason::UnknownSource => ErrorKind::UnsupportedSource,
            Reason::IncompleteFileInfo
            | Reason::HttpStatus
            | Reason::Network
            | Reason::TimedOut
            | Reason::DownloadBlocked => ErrorKind::TransportFailure,
            Reason::HashMismatch => ErrorKind::IntegrityFailure,
            Reason::ManifestMissing
            | Reason::ManifestExists
            | Reason::LockfileMissing
            | Reason::PluginsDirMissing
            | Reason::NotInManifest => ErrorKind::StatePrecondition,
        }
    }
}

/// A failed resolution: the reason and the values that a message about it
/// needs.
#[derive(Debug)]
pub struct ResolveError {
    /// What went wrong.
    pub reason: Reason,
    /// The catalog concerned, if one is.
    pub source: Option<SourceKind>,
    /// What the failure is about: a plugin identifier, a source name, an
    /// address.
    pub subject: String,
    /// The version concerned, if one is.
    pub version: Option<String>,
    /// The platform version that was asked for, if one was.
    pub platform: Option<String>,
    /// The platform versions that the nearest candidate supports, or the
    /// names that would have been valid.
    pub supported: Vec<String>,
    /// The status of the answer, if there was one.
    pub status: Option<u16>,
}

/// What a `ResolveError` holds.
pub struct ResolveErrorView {
    pub reason: Reason,
    pub source: Option<SourceKind>,
    pub subject: Seq<char>,
    pub version: Option<Seq<char>>,
    pub platform: Option<Seq<char>>,
    pub supported: Seq<Seq<char>>,
    pub status: Option<u16>,
}

impl View for ResolveError {
    type V = ResolveErrorView;

    open spec fn view(&self) -> ResolveErrorView {
        ResolveErrorView {
            reason: self.reason,
            source: self.source,
            subject: self.subject@,
            version: opt_text(self.version),
            platform: opt_text(self.platform),
            supported: texts(self.supported@),
            status: self.status,
        }
    }
}

impl Clone for ResolveError {
    fn clone(&self) -> (r: Self)
        ensures
            r@ == self@,
    {
        ResolveError {
            reason: self.reason,
            source: self.source,
            subject: self.subject.clone(),
            version: copy_opt(&self.version),
            platform: copy_opt(&self.platform),
            supported: copy_texts(&self.supported),
            status: self.status,
        }
    }
}

/// An error that has a reason, a catalog and a subject, and nothing else.
pub open spec fn plain_error(reason: Reason, source: Option<SourceKind>, subject: Seq<char>) -> ResolveErrorView {
    ResolveErrorView {
        reason,
        source,
        subject,
        version: None,
        platform: None,
        supported: Seq::empty(),
        status: None,
    }
}

impl ResolveError {
    /// An error with a reason, a catalog and a subject.
    pub fn new(reason: Reason, source: Option<SourceKind>, subject: &str) -> (r: Self)
        ensures
            r@ == plain_error(reason, source, subject@),
    {
        let r = ResolveError {
            reason,
            source,
            subject: subject.to_string(),
            version: None,
            platform: None,
            supported: Vec::new(),
            status: None,
        };
        assert(texts(r.supported@) =~= Seq::<Seq<char>>::empty());
        r
    }

    /// The same error, about the given version.
    pub fn about_version(self, version: &str) -> (r: Self)
        ensures
            r@ == (ResolveErrorView { version: Some(version@), ..self@ }),
    {
        ResolveError { version: Some(version.to_string()), ..self }
    }

    /// The same error, with the platform version that was asked for.
    pub fn on_platform(self, platform: &str) -> (r: Self)
        ensures
            r@ == (ResolveErrorView { platform: Some(platform@), ..self@ }),
    {
        ResolveError { platform: Some(platform.to_string()), ..self }
    }

    /// The same error, with the list of what is supported.
    pub fn supporting(self, supported: Vec<String>) -> (r: Self)
        ensures
            r@ == (ResolveErrorView { supported: texts(supported@), ..self@ }),
    {
        ResolveError { supported, ..self }
    }

    /// The same error, with the status of the answer.
    pub fn with_status(self, status: u16) -> (r: Self)
        ensures
            r@ == (ResolveErrorView { status: Some(status), ..self@ }),
    {
        ResolveError { status: Some(status), ..self }
    }

    /// The kind of failure.
    pub fn kind(&self) -> (r: ErrorKind)
        ensures
            r == self@.reason.kind_of(),
    {
        self.reason.kind()
    }
}

/// The answer to a resolution request: one version, the file it comes in,
/// where to get it, and the digest of its bytes.
#[derive(Debug)]
pub struct ResolvedVersion {
    pub version: String,
    pub filename: String,
    pub url: String,
    /// The digest in the form `algorithm:hex`.
    pub hash: String,
}

/// What a `ResolvedVersion` holds.
pub struct ResolvedVersionView {
    pub version: Seq<char>,
    pub filename: Seq<char>,
    pub url: Seq<char>,
    pub hash: Seq<char>,
}

impl View for ResolvedVersion {
    type V = ResolvedVersionView;

    open spec fn view(&self) -> ResolvedVersionView {
        ResolvedVersionView {
            version: self.version@,
            filename: self.filename@,
            url: self.url@,
            hash: self.hash@,
        }
    }
}

impl Clone for ResolvedVersion {
    fn clone(&self) -> (r: Self)
        ensures
            r@ == self@,
    {
        ResolvedVersion {
            version: self.version.clone(),
            filename: self.filename.clone(),
            url: self.url.clone(),
            hash: self.hash.clone(),
        }
    }
}

impl ResolvedVersionView {
    /// The digest names a known algorithm before its `:`.
    pub open spec fn has_known_algorithm(self) -> bool {
        parsed(self.hash) is Ok
    }
}

impl SourceKind {
    /// The name under which manifests and lockfiles refer to the catalog.
    pub open spec fn name_of(self) -> Seq<char> {
        match self {
            SourceKind::Modrinth => "modrinth"@,
            SourceKind::Hangar => "hangar"@,
            SourceKind::Spigot => "spigot"@,
            SourceKind::GitHub => "github"@,
        }
    }

    /// The place of the catalog in the order of priority, from 0.
    pub open spec fn priority_of(self) -> nat {
        match self {
            SourceKind::Modrinth => 0,
            SourceKind::Hangar => 1,
            SourceKind::Spigot => 2,
            SourceKind::GitHub => 3,
        }
    }

    /// The place of the catalog in the order of priority, from 0.
    pub fn priority(&self) -> (r: usize)
        ensures
            r == self.priority_of(),
    {
        match self {
            SourceKind::Modrinth => 0,
            SourceKind::Hangar => 1,
            SourceKind::Spigot => 2,
            SourceKind::GitHub => 3,
        }
    }
}

/// Whether an identifier passes the check that needs no request: it is not
/// empty.
pub open spec fn acceptable_id(plugin_id: Seq<char>) -> bool {
    plugin_id.len() > 0
}

/// What a catalog adapter offers without any request.
pub trait PluginSource {
    /// Which catalog this is.
    spec fn which(&self) -> SourceKind;

    /// Which catalog this is.
    fn kind(&self) -> (r: SourceKind)
        ensures
            r == self.which(),
    ;

    /// The name under which manifests and lockfiles refer to the catalog.
    fn name(&self) -> (r: &'static str)
        ensures
            r@ == self.which().name_of(),
    ;

    /// Checks the form of an identifier. An empty one is refused.
    fn validate_plugin_id(&self, plugin_id: &str) -> (r: Result<(), ResolveError>)
        ensures
            r is Ok <==> acceptable_id(plugin_id@),
            r matches Err(e) ==> e@ == plain_error(Reason::EmptyId, Some(self.which()), plugin_id@),
    ;
}

impl PluginSource for SourceKind {
    open spec fn which(&self) -> SourceKind {
        *self
    }

    fn kind(&self) -> (r: SourceKind) {
        *self
    }

    fn name(&self) -> (r: &'static str) {
        match self {
            SourceKind::Modrinth => "modrinth",
            SourceKind::Hangar => "hangar",
            SourceKind::Spigot => "spigot",
            SourceKind::GitHub => "github",
        }
    }

    fn validate_plugin_id(&self, plugin_id: &str) -> (r: Result<(), ResolveError>) {
        if plugin_id.unicode_len() == 0 {
            Err(ResolveError::new(Reason::EmptyId, Some(*self), plugin_id))
        } else {
            Ok(())
        }
    }
}

} // verus!
