//! The words in which failures are reported.

use vstd::prelude::*;
use crate::fallback::FallbackError;
use crate::hash::HashError;
use crate::numbers::{decimal, u64_to_chars};
use crate::lockfile::LockedPlugin;
use crate::source_trait::{Reason, ResolveError, ResolveErrorView, SourceKind};
use crate::sync::{SyncError, SyncReason};
use crate::text::{append_chars, append_str, chars_of, join, join_with, opt_text, string_of, texts};

verus! {

/// The name of a catalog as it is written in messages.
pub open spec fn source_label(source: Option<SourceKind>) -> Seq<char> {
    match source {
        Some(SourceKind::Modrinth) => "Modrinth"@,
        Some(SourceKind::Hangar) => "Hangar"@,
        Some(SourceKind::Spigot) => "Spigot"@,
        Some(SourceKind::GitHub) => "GitHub"@,
        None => "any source"@,
    }
}

/// A list of names as it is written in messages: the names with `, `
/// between them, or `unknown` for none.
pub open spec fn listed(names: Seq<Seq<char>>) -> Seq<char> {
    if names.len() == 0 {
        "unknown"@
    } else {
        join_with(names, ", "@)
    }
}

/// A text that may be absent as it is written in messages.
pub open spec fn shown(o: Option<Seq<char>>) -> Seq<char> {
    match o {
        Some(s) => s,
        None => "?"@,
    }
}

/// The message for an error.
pub open spec fn message_text(e: ResolveErrorView) -> Seq<char> {
    match e.reason {
        Reason::EmptyId => source_label(e.source) + " plugin ID cannot be empty"@,
        Reason::MalformedId => "Invalid "@ + source_label(e.source) + " plugin ID format: '"@ + e.subject
            + "'"@,
        Reason::NoSearchResults => "No projects found matching '"@ + e.subject + "' in "@ + source_label(
            e.source,
        ),
        Reason::ProjectMissing => "Plugin '"@ + e.subject + "' not found in "@ + source_label(e.source),
        Reason::VersionMissing => "Version '"@ + shown(e.version) + "' not found for plugin '"@ + e.subject
            + "'"@,
        Reason::NoVersions => "No versions found for plugin '"@ + e.subject + "'"@,
        Reason::NoArtifact => "No downloadable file found for version '"@ + shown(e.version)
            + "' of plugin '"@ + e.subject + "'"@,
        Reason::IncompleteFileInfo => "Download file info incomplete for version '"@ + shown(e.version)
            + "' of plugin '"@ + e.subject + "'"@,
        Reason::VersionIncompatible => "Plugin '"@ + e.subject + "' version '"@ + shown(e.version)
            + "' is not compatible with Minecraft "@ + shown(e.platform) + ". Compatible versions: "@
            + listed(e.supported),
        Reason::NoneCompatible => "No versions of plugin '"@ + e.subject
            + "' are compatible with Minecraft "@ + shown(e.platform) + ". Latest version supports: "@
            + listed(e.supported),
        Reason::UnknownSource => "Unsupported source: '"@ + e.subject + "'. Supported sources: "@
            + listed(e.supported),
        Reason::HttpStatus => "Request for plugin '"@ + e.subject + "' failed: HTTP "@ + (match e.status {
            Some(s) => decimal(s as nat),
            None => "?"@,
        }),
        Reason::Network => "Request for plugin '"@ + e.subject + "' failed"@,
        Reason::TimedOut => "Search timed out after 3 minutes"@,
        Reason::DownloadBlocked => "SpigotMC blocks automated downloads, and resource '"@ + e.subject
            + "' has no external download URL. Download it by hand from https://www.spigotmc.org/resources/"@
            + e.subject,
        Reason::HashMismatch => "Hash mismatch for "@ + e.subject,
        Reason::NoSourceFound => "Plugin '"@ + e.subject + "' not found in any source."@,
        Reason::ManifestMissing => "Manifest not found. Run 'mpm init' first."@,
        Reason::ManifestExists => e.subject + " already exists. Remove it first before importing."@,
        Reason::LockfileMissing => "Lockfile not found. Run 'mpm lock' first."@,
        Reason::PluginsDirMissing => "Plugins directory '"@ + e.subject + "' does not exist"@,
        Reason::NotInManifest => "Plugin '"@ + e.subject + "' not found in manifest"@,
    }
}

fn label_of(source: Option<SourceKind>) -> (r: &'static str)
    ensures
        r@ == source_label(source),
{
    match source {
        Some(SourceKind::Modrinth) => "Modrinth",
        Some(SourceKind::Hangar) => "Hangar",
        Some(SourceKind::Spigot) => "Spigot",
        Some(SourceKind::GitHub) => "GitHub",
        None => "any source",
    }
}

fn list_of(names: &Vec<String>) -> (r: Vec<char>)
    ensures
        r@ == listed(texts(names@)),
{
    if names.len() == 0 {
        assert(texts(names@).len() == 0);
        chars_of("unknown")
    } else {
        assert(texts(names@).len() > 0);
        join(names, ", ")
    }
}

fn show(o: &Option<String>) -> (r: Vec<char>)
    ensures
        r@ == shown(opt_text(*o)),
{
    match o {
        Some(s) => chars_of(s.as_str()),
        None => chars_of("?"),
    }
}

impl ResolveError {
    /// The message for the error, in words.
    pub fn message(&self) -> (r: String)
        ensures
            r@ == message_text(self@),
    {
        let subject = self.subject.as_str();
        let mut out: Vec<char> = Vec::new();
        proof {
            assert(forall|s: Seq<char>| out@ + s =~= s);
        }
        match self.reason {
            Reason::EmptyId => {
                append_str(&mut out, label_of(self.source));
                append_str(&mut out, " plugin ID cannot be empty");
            },
            Reason::MalformedId => {
                append_str(&mut out, "Invalid ");
                append_str(&mut out, label_of(self.source));
                append_str(&mut out, " plugin ID format: '");
                append_str(&mut out, subject);
                append_str(&mut out, "'");
            },
            Reason::NoSearchResults => {
                append_str(&mut out, "No projects found matching '");
                append_str(&mut out, subject);
                append_str(&mut out, "' in ");
                append_str(&mut out, label_of(self.source));
            },
            Reason::ProjectMissing => {
                append_str(&mut out, "Plugin '");
                append_str(&mut out, subject);
                append_str(&mut out, "' not found in ");
                append_str(&mut out, label_of(self.source));
            },
            Reason::VersionMissing => {
                append_str(&mut out, "Version '");
                append_chars(&mut out, &show(&self.version));
                append_str(&mut out, "' not found for plugin '");
                append_str(&mut out, subject);
                append_str(&mut out, "'");
            },
            Reason::NoVersions => {
                append_str(&mut out, "No versions found for plugin '");
                append_str(&mut out, subject);
                append_str(&mut out, "'");
            },
            Reason::NoArtifact => {
                append_str(&mut out, "No downloadable file found for version '");
                append_chars(&mut out, &show(&self.version));
                append_str(&mut out, "' of plugin '");
                append_str(&mut out, subject);
                append_str(&mut out, "'");
            },
            Reason::IncompleteFileInfo => {
                append_str(&mut out, "Download file info incomplete for version '");
                append_chars(&mut out, &show(&self.version));
                append_str(&mut out, "' of plugin '");
                append_str(&mut out, subject);
                append_str(&mut out, "'");
            },
            Reason::VersionIncompatible => {
                append_str(&mut out, "Plugin '");
                append_str(&mut out, subject);
                append_str(&mut out, "' version '");
                append_chars(&mut out, &show(&self.version));
                append_str(&mut out, "' is not compatible with Minecraft ");
                append_chars(&mut out, &show(&self.platform));
                append_str(&mut out, ". Compatible versions: ");
                append_chars(&mut out, &list_of(&self.supported));
            },
            Reason::NoneCompatible => {
                append_str(&mut out, "No versions of plugin '");
                append_str(&mut out, subject);
                append_str(&mut out, "' are compatible with Minecraft ");
                append_chars(&mut out, &show(&self.platform));
                append_str(&mut out, ". Latest version supports: ");
                append_chars(&mut out, &list_of(&self.supported));
            },
            Reason::UnknownSource => {
                append_str(&mut out, "Unsupported source: '");
                append_str(&mut out, subject);
                append_str(&mut out, "'. Supported sources: ");
                append_chars(&mut out, &list_of(&self.supported));
            },
            Reason::HttpStatus => {
                append_str(&mut out, "Request for plugin '");
                append_str(&mut out, subject);
                append_str(&mut out, "' failed: HTTP ");
                match self.status {
                    Some(s) => {
                        append_chars(&mut out, &u64_to_chars(s as u64));
                    },
                    None => {
                        append_str(&mut out, "?");
                    },
                }
            },
            Reason::Network => {
                append_str(&mut out, "Request for plugin '");
                append_str(&mut out, subject);
                append_str(&mut out, "' failed");
            },
            Reason::TimedOut => {
                append_str(&mut out, "Search timed out after 3 minutes");
            },
            Reason::DownloadBlocked => {
                append_str(&mut out, "SpigotMC blocks automated downloads, and resource '");
                append_str(&mut out, subject);
                append_str(
                    &mut out,
                    "' has no external download URL. Download it by hand from https://www.spigotmc.org/resources/",
                );
                append_str(&mut out, subject);
            },
            Reason::HashMismatch => {
                append_str(&mut out, "Hash mismatch for ");
                append_str(&mut out, subject);
            },
            Reason::NoSourceFound => {
                append_str(&mut out, "Plugin '");
                append_str(&mut out, subject);
                append_str(&mut out, "' not found in any source.");
            },
            Reason::ManifestMissing => {
                append_str(&mut out, "Manifest not found. Run 'mpm init' first.");
            },
            Reason::ManifestExists => {
                append_str(&mut out, subject);
                append_str(&mut out, " already exists. Remove it first before importing.");
            },
            Reason::LockfileMissing => {
                append_str(&mut out, "Lockfile not found. Run 'mpm lock' first.");
            },
            Reason::PluginsDirMissing => {
                append_str(&mut out, "Plugins directory '");
                append_str(&mut out, subject);
                append_str(&mut out, "' does not exist");
            },
            Reason::NotInManifest => {
                append_str(&mut out, "Plugin '");
                append_str(&mut out, subject);
                append_str(&mut out, "' not found in manifest");
            },
        }
        string_of(&out)
    }
}

/// The message for a digest that cannot be read.
pub open spec fn hash_error_text(e: HashError) -> Seq<char> {
    match e {
        HashError::MissingSeparator => "Hash has no algorithm: expected 'algorithm:hex'"@,
        HashError::UnsupportedAlgorithm => "Unsupported hash algorithm"@,
    }
}

/// The message for a digest that cannot be read.
pub fn hash_error_message(e: HashError) -> (r: &'static str)
    ensures
        r@ == hash_error_text(e),
{
    match e {
        HashError::MissingSeparator => "Hash has no algorithm: expected 'algorithm:hex'",
        HashError::UnsupportedAlgorithm => "Unsupported hash algorithm",
    }
}

/// The message for a plugin that no catalog has: it names the plugin, the
/// number of sources tried, and the error of the attempt of the highest
/// priority.
pub open spec fn fallback_text(plugin_id: Seq<char>, sources: nat, nearest: Option<ResolveErrorView>) -> Seq<
    char,
> {
    match nearest {
        Some(e) => "Plugin '"@ + plugin_id + "' not found in any source ("@ + decimal(sources)
            + " tried). Last attempted source '"@ + source_label(e.source) + "': "@ + message_text(e),
        None => "Plugin '"@ + plugin_id + "' not found in any source."@,
    }
}

impl FallbackError {
    /// The message for the error, in words.
    pub fn message(&self) -> (r: String)
        ensures
            r@ == fallback_text(
                self.plugin_id@,
                self.sources as nat,
                match self.nearest {
                    Some(e) => Some(e@),
                    None => None,
                },
            ),
    {
        let mut out: Vec<char> = Vec::new();
        proof {
            assert(forall|s: Seq<char>| out@ + s =~= s);
        }
        append_str(&mut out, "Plugin '");
        append_str(&mut out, self.plugin_id.as_str());
        match &self.nearest {
            Some(e) => {
                append_str(&mut out, "' not found in any source (");
                append_chars(&mut out, &u64_to_chars(self.sources as u64));
                append_str(&mut out, " tried). Last attempted source '");
                append_str(&mut out, label_of(e.source));
                append_str(&mut out, "': ");
                append_str(&mut out, e.message().as_str());
            },
            None => {
                append_str(&mut out, "' not found in any source.");
            },
        }
        string_of(&out)
    }
}

/// What went wrong in a run of the synchronisation.
pub open spec fn sync_reason_text(reason: SyncReason) -> Seq<char> {
    match reason {
        SyncReason::Io => "File operation failed"@,
        SyncReason::Transport => "Download failed"@,
        SyncReason::Integrity => "Hash mismatch"@,
        SyncReason::BadHash(e) => hash_error_text(e),
        SyncReason::Protocol => "Unexpected step"@,
    }
}

/// The message for a failed run: what went wrong and, if a plugin is
/// concerned, for which.
pub open spec fn sync_error_text(e: SyncError, lockfile: Seq<LockedPlugin>) -> Seq<char> {
    match e.plugin {
        Some(i) => if i < lockfile.len() {
            sync_reason_text(e.reason) + " for "@ + lockfile[i as int].name@
        } else {
            sync_reason_text(e.reason)
        },
        None => sync_reason_text(e.reason),
    }
}

/// The message for a failed run of the synchronisation.
pub fn sync_error_message(e: &SyncError, lockfile: &Vec<LockedPlugin>) -> (r: String)
    ensures
        r@ == sync_error_text(*e, lockfile@),
{
    let mut out: Vec<char> = Vec::new();
    proof {
        assert(forall|s: Seq<char>| out@ + s =~= s);
    }
    match e.reason {
        SyncReason::Io => {
            append_str(&mut out, "File operation failed");
        },
        SyncReason::Transport => {
            append_str(&mut out, "Download failed");
        },
        SyncReason::Integrity => {
            append_str(&mut out, "Hash mismatch");
        },
        SyncReason::BadHash(h) => {
            append_str(&mut out, hash_error_message(h));
        },
        SyncReason::Protocol => {
            append_str(&mut out, "Unexpected step");
        },
    }
    match e.plugin {
        Some(i) => {
            if i < lockfile.len() {
                append_str(&mut out, " for ");
                append_str(&mut out, lockfile[i].name.as_str());
            }
        },
        None => {},
    }
    string_of(&out)
}

} // verus!
