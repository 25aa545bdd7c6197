//! The common shape that every catalog's version records are brought to.

use vstd::prelude::*;
use crate::text::{copy_opt, copy_texts, opt_text, texts};

verus! {

/// Where and how an artifact is downloaded.
#[derive(Debug)]
pub struct DownloadInfo {
    /// The address of the artifact.
    pub url: String,
    /// The file name, where the catalog gives one.
    pub filename: Option<String>,
    /// The catalog's digest in the form `algorithm:hex`, where it gives one.
    /// Without it the digest is computed from the downloaded bytes.
    pub hash: Option<String>,
}

/// What a `DownloadInfo` holds.
pub struct DownloadInfoView {
    pub url: Seq<char>,
    pub filename: Option<Seq<char>>,
    pub hash: Option<Seq<char>>,
}

impl View for DownloadInfo {
    type V = DownloadInfoView;

    open spec fn view(&self) -> DownloadInfoView {
        DownloadInfoView {
            url: self.url@,
            filename: opt_text(self.filename),
            hash: opt_text(self.hash),
        }
    }
}

impl Clone for DownloadInfo {
    fn clone(&self) -> (r: Self)
        ensures
            r@ == self@,
    {
        DownloadInfo {
            url: self.url.clone(),
            filename: copy_opt(&self.filename),
            hash: copy_opt(&self.hash),
        }
    }
}

impl DownloadInfo {
    /// Download information with the file name and digest that the catalog
    /// gave.
    pub fn with_hash(url: &str, filename: &str, hash: &str) -> (r: Self)
        ensures
            r@ == (DownloadInfoView { url: url@, filename: Some(filename@), hash: Some(hash@) }),
    {
        DownloadInfo {
            url: url.to_string(),
            filename: Some(filename.to_string()),
            hash: Some(hash.to_string()),
        }
    }

    /// Download information without a digest: it has to be computed.
    pub fn without_hash(url: &str, filename: Option<String>) -> (r: Self)
        ensures
            r@ == (DownloadInfoView { url: url@, filename: opt_text(filename), hash: None }),
    {
        DownloadInfo { url: url.to_string(), filename, hash: None }
    }

    /// Download information that is an address and nothing more.
    pub fn url_only(url: &str) -> (r: Self)
        ensures
            r@ == (DownloadInfoView { url: url@, filename: None, hash: None }),
    {
        DownloadInfo { url: url.to_string(), filename: None, hash: None }
    }
}

/// One version of a plugin as a catalog lists it, in the shape common to all
/// catalogs.
#[derive(Debug)]
pub struct NormalizedVersion {
    /// The version as it is displayed, such as `1.2.3`.
    pub version: String,
    /// When the version was published, as a text that sorts in time order.
    pub published_at: String,
    /// The platform versions it declares itself compatible with; empty where
    /// the catalog says nothing.
    pub mc_versions: Vec<String>,
    /// How to download it.
    pub download: DownloadInfo,
}

/// What a `NormalizedVersion` holds.
pub struct NormalizedVersionView {
    pub version: Seq<char>,
    pub published_at: Seq<char>,
    pub mc_versions: Seq<Seq<char>>,
    pub download: DownloadInfoView,
}

impl View for NormalizedVersion {
    type V = NormalizedVersionView;

    open spec fn view(&self) -> NormalizedVersionView {
        NormalizedVersionView {
            version: self.version@,
            published_at: self.published_at@,
            mc_versions: texts(self.mc_versions@),
            download: self.download@,
        }
    }
}

impl Clone for NormalizedVersion {
    fn clone(&self) -> (r: Self)
        ensures
            r@ == self@,
    {
        NormalizedVersion {
            version: self.version.clone(),
            published_at: self.published_at.clone(),
            mc_versions: copy_texts(&self.mc_versions),
            download: self.download.clone(),
        }
    }
}

impl NormalizedVersion {
    /// A version record from its four parts.
    pub fn new(version: &str, published_at: &str, mc_versions: Vec<String>, download: DownloadInfo) -> (r:
        Self)
        ensures
            r@ == (NormalizedVersionView {
                version: version@,
                published_at: published_at@,
                mc_versions: texts(mc_versions@),
                download: download@,
            }),
    {
        NormalizedVersion {
            version: version.to_string(),
            published_at: published_at.to_string(),
            mc_versions,
            download,
        }
    }

    /// Whether the catalog declared any compatible platform version.
    pub fn has_mc_version_info(&self) -> (r: bool)
        ensures
            r == (self@.mc_versions.len() > 0),
    {
        self.mc_versions.len() > 0
    }
}

/// What a list of version records holds.
pub open spec fn version_views(versions: Seq<NormalizedVersion>) -> Seq<NormalizedVersionView> {
    versions.map_values(|v: NormalizedVersion| v@)
}

} // verus!
