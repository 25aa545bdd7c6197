//! The Spigot catalog, read through the Spiget interface.
//!
//! A resource is addressed by its number; a name is searched for, once as it
//! is and once with spaces for its hyphens. The catalog gives no digests and
//! often no platform versions, so every file is downloaded and a version
//! that declares no platform versions counts as compatible.

use vstd::prelude::*;
use crate::numbers::{all_digits, i64_to_chars, is_all_digits, number_within, parse_number, signed_decimal, timestamp_chars, timestamp_text, u64_to_chars, decimal};
use crate::resolution::{asks, downloaded, fails, fails_for, fails_looking_up, fails_with_status, fresh, selection_failure, Action, ActionView, Event, Expect, NameFallback, Resolution, ResolutionView, Stage};
use crate::search::{best_match, best_position};
use crate::source_trait::{acceptable_id, PluginSource, Reason, ResolveError, SourceKind};
use crate::text::{append_chars, append_str, chars_of, copy_opt, copy_texts, has_char, opt_str, opt_text, replace_char, replaced, string_of, texts};
use crate::urls::{url_encode, url_encoded};
use crate::version_data::{version_views, DownloadInfo, DownloadInfoView, NormalizedVersion, NormalizedVersionView};
use crate::version_selector::{position_choice, select_position, SelectionConfig};

verus! {

/// A resource as the catalog describes it.
#[derive(Debug)]
pub struct Resource {
    pub id: i64,
    pub name: String,
    /// The address of the file outside the catalog, if the resource has one.
    pub external_url: Option<String>,
}

impl crate::search::Searchable for Resource {
    open spec fn name_text(&self) -> Seq<char> {
        self.name@
    }

    fn search_name(&self) -> (r: &str) {
        self.name.as_str()
    }
}

/// A version as the catalog lists it.
#[derive(Debug)]
pub struct Version {
    pub id: i64,
    pub name: String,
    /// When the version was released, in seconds.
    pub release_date: i64,
    pub tested_versions: Option<Vec<String>>,
}

/// The Spigot adapter.
#[derive(Debug, Clone, Copy)]
pub struct SpigotSource;

impl PluginSource for SpigotSource {
    open spec fn which(&self) -> SourceKind {
        SourceKind::Spigot
    }

    fn kind(&self) -> (r: SourceKind) {
        SourceKind::Spigot
    }

    fn name(&self) -> (r: &'static str) {
        SourceKind::Spigot.name()
    }

    fn validate_plugin_id(&self, plugin_id: &str) -> (r: Result<(), ResolveError>) {
        SourceKind::Spigot.validate_plugin_id(plugin_id)
    }
}

/// The greatest number that addresses a resource.
pub const MAX_RESOURCE_ID: u64 = 9223372036854775807;

/// The address of a resource, given by its number in decimal.
pub open spec fn resource_url(target: Seq<char>) -> Seq<char> {
    "https://api.spiget.org/v2/resources/"@ + target
}

/// The address of the list of a resource's versions.
pub open spec fn versions_url(target: Seq<char>) -> Seq<char> {
    resource_url(target) + "/versions?size=1000"@
}

/// The address of a search by name.
pub open spec fn search_url(term: Seq<char>) -> Seq<char> {
    "https://api.spiget.org/v2/search/resources/"@ + url_encoded(term) + "?size=100"@
}

/// The address of the file of a version.
pub open spec fn download_url(target: Seq<char>, version_id: i64) -> Seq<char> {
    resource_url(target) + "/versions/"@ + signed_decimal(version_id as int) + "/download"@
}

/// The platform versions that a version declares.
pub open spec fn tested(v: Version) -> Seq<Seq<char>> {
    match v.tested_versions {
        Some(list) => texts(list@),
        None => Seq::empty(),
    }
}

/// A version in the common shape. The time of its release is written so
/// that the order of the texts is the order of the times.
pub open spec fn normalized(v: Version, target: Seq<char>) -> NormalizedVersionView {
    NormalizedVersionView {
        version: v.name@,
        published_at: timestamp_text(v.release_date),
        mc_versions: tested(v),
        download: DownloadInfoView { url: download_url(target, v.id), filename: None, hash: None },
    }
}

/// The versions of a list in the common shape.
pub open spec fn normalized_all(list: Seq<Version>, target: Seq<char>) -> Seq<NormalizedVersionView> {
    list.map_values(|v: Version| normalized(v, target))
}

/// The second term to search for: the name with spaces for its hyphens, if
/// it has any.
pub open spec fn second_term(name: Seq<char>) -> Option<Seq<char>> {
    if name.contains('-') {
        Some(replaced(name, '-', ' '))
    } else {
        None
    }
}

/// How a resolution begins: with the lookup of the resource for a number,
/// with a search for a name, with an error for an empty identifier or a
/// number that is too large.
pub open spec fn begun(
    plugin_id: Seq<char>,
    requested: Option<Seq<char>>,
    platform: Option<Seq<char>>,
) -> (ResolutionView, ActionView) {
    let s = fresh(SourceKind::Spigot, plugin_id, requested, platform);
    if !acceptable_id(plugin_id) {
        fails_for(s, Reason::EmptyId)
    } else if all_digits(plugin_id) {
        match number_within(plugin_id, MAX_RESOURCE_ID) {
            Some(n) => asks(
                ResolutionView { target: decimal(n as nat), ..s },
                Stage::Checking,
                resource_url(decimal(n as nat)),
                Expect::SpigotResource,
            ),
            None => fails_for(s, Reason::MalformedId),
        }
    } else {
        asks(
            ResolutionView { alternative: second_term(plugin_id), ..s },
            Stage::Searching,
            search_url(plugin_id),
            Expect::SpigotResources,
        )
    }
}

/// What a search without results leads to: a search for the second term if
/// there is one left, else an error.
pub open spec fn search_again(s: ResolutionView) -> (ResolutionView, ActionView) {
    match s.alternative {
        Some(term) => asks(
            ResolutionView { alternative: None, ..s },
            Stage::Searching,
            search_url(term),
            Expect::SpigotResources,
        ),
        None => fails_for(s, Reason::NoSearchResults),
    }
}

/// The names of the resources of a list.
pub open spec fn resource_names(results: Seq<Resource>) -> Seq<Seq<char>> {
    results.map_values(|r: Resource| r.name@)
}

/// What the results of a search lead to: the lookup of the best match.
pub open spec fn searched(s: ResolutionView, results: Seq<Resource>) -> (ResolutionView, ActionView) {
    if results.len() == 0 {
        search_again(s)
    } else {
        let target = signed_decimal(
            results[best_match(resource_names(results), s.plugin_id, false)].id as int,
        );
        asks(
            ResolutionView { target, alternative: None, ..s },
            Stage::Checking,
            resource_url(target),
            Expect::SpigotResource,
        )
    }
}

/// What the list of versions leads to: the download of the selected
/// version's file, or the error of the selection.
pub open spec fn listed(s: ResolutionView, list: Seq<Version>) -> (ResolutionView, ActionView) {
    let all = normalized_all(list, s.target);
    if list.len() == 0 {
        fails_for(s, Reason::NoVersions)
    } else {
        match position_choice(all, s.requested, s.platform, s.plugin_id, true) {
            Err(e) => fails(s, selection_failure(s, e)),
            Ok(i) => asks(
                ResolutionView { selected: Some(all[i]), ..s },
                Stage::Downloading,
                all[i].download.url,
                Expect::File,
            ),
        }
    }
}

/// What a refused download leads to: the download from the resource's
/// external address if it has one; else an error, which for the status 403
/// says that the catalog blocks automated downloads.
pub open spec fn refused(s: ResolutionView, status: u16) -> (ResolutionView, ActionView) {
    match s.alternative {
        Some(url) => asks(ResolutionView { alternative: None, ..s }, Stage::Retrying, url, Expect::File),
        None => if status == 403 {
            fails_for(s, Reason::DownloadBlocked)
        } else {
            fails_with_status(s, status)
        },
    }
}

/// How a resolution goes on when a request has been answered.
pub open spec fn after(s: ResolutionView, e: Event) -> (ResolutionView, ActionView) {
    match (s.stage, e) {
        (Stage::Searching, Event::SpigotResources(results)) => searched(s, results@),
        (Stage::Searching, Event::Status(_)) => search_again(s),
        (Stage::Checking, Event::SpigotResource(r)) => asks(
            ResolutionView { alternative: opt_text(r.external_url), ..s },
            Stage::Listing,
            versions_url(s.target),
            Expect::SpigotVersions,
        ),
        (Stage::Checking, Event::Status(status)) => fails_looking_up(s, status),
        (Stage::Listing, Event::SpigotVersions(list)) => listed(s, list@),
        (Stage::Listing, Event::Status(status)) => fails_with_status(s, status),
        (Stage::Downloading, Event::Status(status)) => refused(s, status),
        (Stage::Downloading, e) => downloaded(s, e, NameFallback::Version),
        (Stage::Retrying, e) => downloaded(s, e, NameFallback::Version),
        _ => fails_for(s, Reason::Network),
    }
}

fn url_of_resource(target: &str) -> (r: Vec<char>)
    ensures
        r@ == resource_url(target@),
{
    let mut out = chars_of("https://api.spiget.org/v2/resources/");
    append_str(&mut out, target);
    out
}

fn url_of_versions(target: &str) -> (r: String)
    ensures
        r@ == versions_url(target@),
{
    let mut out = url_of_resource(target);
    append_str(&mut out, "/versions?size=1000");
    string_of(&out)
}

fn url_of_search(term: &str) -> (r: String)
    ensures
        r@ == search_url(term@),
{
    let mut out = chars_of("https://api.spiget.org/v2/search/resources/");
    append_str(&mut out, url_encode(term).as_str());
    append_str(&mut out, "?size=100");
    string_of(&out)
}

fn url_of_download(target: &str, version_id: i64) -> (r: String)
    ensures
        r@ == download_url(target@, version_id),
{
    let mut out = url_of_resource(target);
    append_str(&mut out, "/versions/");
    append_chars(&mut out, &i64_to_chars(version_id));
    append_str(&mut out, "/download");
    string_of(&out)
}

/// Brings a version of the resource at `target` into the common shape.
pub fn normalize(v: &Version, target: &str) -> (r: NormalizedVersion)
    ensures
        r@ == normalized(*v, target@),
{
    let mc_versions = match &v.tested_versions {
        Some(list) => copy_texts(list),
        None => {
            let none: Vec<String> = Vec::new();
            assert(texts(none@) =~= Seq::<Seq<char>>::empty());
            none
        },
    };
    NormalizedVersion {
        version: v.name.clone(),
        published_at: string_of(&timestamp_chars(v.release_date)),
        mc_versions,
        download: DownloadInfo {
            url: url_of_download(target, v.id),
            filename: None,
            hash: None,
        },
    }
}

/// Brings the versions of a list into the common shape.
pub fn normalize_all(list: &Vec<Version>, target: &str) -> (r: Vec<NormalizedVersion>)
    ensures
        version_views(r@) == normalized_all(list@, target@),
{
    let mut out: Vec<NormalizedVersion> = Vec::new();
    let mut i: usize = 0;
    while i < list.len()
        invariant
            i <= list.len(),
            out@.len() == i,
            forall|k: int| 0 <= k < i ==> out@[k]@ == normalized(list@[k], target@),
        decreases list.len() - i,
    {
        out.push(normalize(&list[i], target));
        i = i + 1;
    }
    assert(version_views(out@) =~= normalized_all(list@, target@));
    out
}

/// Begins the resolution of a plugin.
pub fn begin(plugin_id: &str, requested_version: Option<&str>, minecraft_version: Option<&str>) -> (r: (
    Resolution,
    Action,
))
    ensures
        (r.0@, r.1@) == begun(plugin_id@, opt_str(requested_version), opt_str(minecraft_version)),
{
    let s = Resolution::new(SourceKind::Spigot, plugin_id, requested_version, minecraft_version);
    let chars = chars_of(plugin_id);
    if chars.len() == 0 {
        return s.fail_for(Reason::EmptyId);
    }
    if is_all_digits(&chars) {
        match parse_number(&chars, MAX_RESOURCE_ID) {
            Some(n) => {
                let target = string_of(&u64_to_chars(n));
                let url = string_of(&url_of_resource(target.as_str()));
                let s = Resolution { target, ..s };
                s.ask(Stage::Checking, url, Expect::SpigotResource)
            },
            None => s.fail_for(Reason::MalformedId),
        }
    } else {
        let alternative = if has_char(&chars, '-') {
            Some(string_of(&replace_char(&chars, '-', ' ')))
        } else {
            None
        };
        let url = url_of_search(plugin_id);
        let s = Resolution { alternative, ..s };
        s.ask(Stage::Searching, url, Expect::SpigotResources)
    }
}

fn try_again(s: Resolution) -> (r: (Resolution, Action))
    ensures
        (r.0@, r.1@) == search_again(s@),
{
    match copy_opt(&s.alternative) {
        Some(term) => {
            let url = url_of_search(term.as_str());
            let s = Resolution { alternative: None, ..s };
            s.ask(Stage::Searching, url, Expect::SpigotResources)
        },
        None => s.fail_for(Reason::NoSearchResults),
    }
}

fn take_results(s: Resolution, results: Vec<Resource>) -> (r: (Resolution, Action))
    ensures
        (r.0@, r.1@) == searched(s@, results@),
{
    if results.len() == 0 {
        return try_again(s);
    }
    let mut names: Vec<String> = Vec::new();
    let mut i: usize = 0;
    while i < results.len()
        invariant
            i <= results.len(),
            names@.len() == i,
            forall|k: int| 0 <= k < i ==> names@[k]@ == results@[k].name@,
        decreases results.len() - i,
    {
        names.push(results[i].name.clone());
        i = i + 1;
    }
    assert(texts(names@) =~= resource_names(results@));
    let k = best_position(&names, s.plugin_id.as_str(), false);
    let target = string_of(&i64_to_chars(results[k].id));
    let url = string_of(&url_of_resource(target.as_str()));
    let s = Resolution { target, alternative: None, ..s };
    s.ask(Stage::Checking, url, Expect::SpigotResource)
}

fn take_versions(s: Resolution, list: &Vec<Version>) -> (r: (Resolution, Action))
    ensures
        (r.0@, r.1@) == listed(s@, list@),
{
    if list.len() == 0 {
        return s.fail_for(Reason::NoVersions);
    }
    let all = normalize_all(list, s.target.as_str());
    let config = SelectionConfig::new(s.plugin_id.as_str()).treat_empty_as_compatible();
    match select_position(&all, s.requested_version(), s.minecraft_version(), &config) {
        Err(e) => {
            let e = ResolveError { source: Some(s.source), ..e };
            s.fail(e)
        },
        Ok(i) => {
            assert(version_views(all@)[i as int] == all@[i as int]@);
            let selected = all[i].clone();
            let url = selected.download.url.clone();
            let s = Resolution { selected: Some(selected), ..s };
            s.ask(Stage::Downloading, url, Expect::File)
        },
    }
}

fn take_refusal(s: Resolution, status: u16) -> (r: (Resolution, Action))
    ensures
        (r.0@, r.1@) == refused(s@, status),
{
    match copy_opt(&s.alternative) {
        Some(url) => {
            let s = Resolution { alternative: None, ..s };
            s.ask(Stage::Retrying, url, Expect::File)
        },
        None => if status == 403 {
            s.fail_for(Reason::DownloadBlocked)
        } else {
            s.fail_with_status(status)
        },
    }
}

/// Goes on with a resolution when a request has been answered.
pub fn advance(s: Resolution, e: Event) -> (r: (Resolution, Action))
    ensures
        (r.0@, r.1@) == after(s@, e),
{
    match s.stage {
        Stage::Searching => match e {
            Event::SpigotResources(results) => take_results(s, results),
            Event::Status(_) => try_again(s),
            _ => s.fail_for(Reason::Network),
        },
        Stage::Checking => match e {
            Event::SpigotResource(r) => {
                let url = url_of_versions(s.target.as_str());
                let s = Resolution { alternative: r.external_url, ..s };
                s.ask(Stage::Listing, url, Expect::SpigotVersions)
            },
            Event::Status(status) => s.fail_looking_up(status),
            _ => s.fail_for(Reason::Network),
        },
        Stage::Listing => match e {
            Event::SpigotVersions(list) => take_versions(s, &list),
            Event::Status(status) => s.fail_with_status(status),
            _ => s.fail_for(Reason::Network),
        },
        Stage::Downloading => match e {
            Event::Status(status) => take_refusal(s, status),
            e => s.take_download(e, NameFallback::Version),
        },
        Stage::Retrying => s.take_download(e, NameFallback::Version),
        _ => s.fail_for(Reason::Network),
    }
}

} // verus!
