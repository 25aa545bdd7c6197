//! Bringing the plugin directory into line with the lockfile.
//!
//! Files are never written into the live directory one by one. What is
//! missing or differs is downloaded into a staging directory and checked
//! there; the live files are copied to a backup; only then are unmanaged
//! files removed and the staged files moved in. If anything fails on the
//! way, the live directory is restored from the backup. The library decides
//! each step; the caller performs it and reports back.

use vstd::prelude::*;
use crate::hash::{hash_check, verify_bytes, HashCheck, HashError};
use crate::lockfile::{LockedPlugin, Lockfile};
use crate::text::{chars_of, ends_with, has_suffix, same_text, texts};

verus! {

/// How the file of a locked plugin stands in the live directory.
#[derive(Debug, Clone, Copy, PartialEq, Eq, Structural)]
pub enum FileState {
    /// There is no such file, or it cannot be read.
    Missing,
    /// The file has the locked digest.
    Matches,
    /// The file has another digest.
    Differs,
}

/// Why a run failed.
#[derive(Debug, Clone, Copy, PartialEq, Eq, Structural)]
pub enum SyncReason {
    /// A step on the file system failed.
    Io,
    /// A download failed.
    Transport,
    /// Downloaded bytes do not have the locked digest.
    Integrity,
    /// A locked digest could not be read.
    BadHash(HashError),
    /// A step was reported that was not asked for.
    Protocol,
}

/// A failure of a run, with the position in the lockfile of the plugin it
/// concerns, if it concerns one.
#[derive(Debug, Clone, Copy, PartialEq, Eq, Structural)]
pub struct SyncError {
    pub reason: SyncReason,
    pub plugin: Option<usize>,
}

/// Where a run stands.
#[derive(Debug, Clone, Copy, PartialEq, Eq, Structural)]
pub enum SyncStage {
    /// Leftovers of an earlier run are being removed.
    CleaningLeftovers,
    /// The staging directory is being created.
    CreatingStaging,
    /// The live files are being copied to the backup.
    BackingUp,
    /// The file of a locked plugin is being read.
    Inspecting,
    /// The file of a locked plugin is being downloaded.
    Downloading,
    /// A downloaded file is being written into the staging directory.
    Storing,
    /// The live directory is being listed.
    Listing,
    /// The unmanaged files are being removed.
    Removing,
    /// The staged files are being moved into the live directory.
    Replacing,
    /// The live directory is being restored from the backup.
    Restoring,
    /// Staging directory and backup are being removed.
    CleaningUp,
    /// The run has ended.
    Finished,
}

/// What the caller is to do next.
#[derive(Debug)]
pub enum SyncAction {
    /// Remove the staging and the backup directory if they exist.
    CleanTemp,
    /// Create the staging directory.
    CreateStaging,
    /// Copy every `.jar` file of the live directory into the backup.
    Backup,
    /// Read the file of the locked plugin at this position, if it exists.
    ReadFile { plugin: usize },
    /// Download the file of the locked plugin at this position.
    Download { plugin: usize },
    /// Write these bytes into the staging directory under the file name of
    /// the locked plugin at this position.
    Stage { plugin: usize, data: Vec<u8> },
    /// List the names of the files in the live directory.
    List,
    /// Remove the unmanaged files that the run holds.
    RemoveUnmanaged,
    /// For every staged file remove the live file of that name, then copy
    /// the staged files into the live directory.
    Replace,
    /// Remove the `.jar` files of the live directory and copy the backup
    /// back.
    Restore,
    /// The run has ended with this exit code.
    Finish { code: i32 },
}

/// What the caller reports back.
#[derive(Debug)]
pub enum SyncEvent {
    /// The step was done.
    Done,
    /// The step failed.
    Failed,
    /// The bytes of the file that was read, or nothing if there is no such
    /// file or it cannot be read.
    File(Option<Vec<u8>>),
    /// The bytes that were downloaded.
    Downloaded(Vec<u8>),
    /// The names of the files in the live directory; empty if there is no
    /// such directory.
    Listing(Vec<String>),
}

/// A run of the synchronisation.
#[derive(Debug)]
pub struct SyncRun {
    /// Whether the run only reports what it would do.
    pub dry_run: bool,
    pub stage: SyncStage,
    /// How many plugins have been inspected, or how many of the downloads
    /// have been stored.
    pub index: usize,
    /// The positions of the plugins to download, ascending.
    pub downloads: Vec<usize>,
    /// The unmanaged files found in the live directory.
    pub unmanaged: Vec<String>,
    /// Why the run failed, if it did.
    pub error: Option<SyncError>,
}

/// What a `SyncRun` holds.
pub struct SyncRunView {
    pub dry_run: bool,
    pub stage: SyncStage,
    pub index: usize,
    pub downloads: Seq<usize>,
    pub unmanaged: Seq<Seq<char>>,
    pub error: Option<SyncError>,
}

impl View for SyncRun {
    type V = SyncRunView;

    open spec fn view(&self) -> SyncRunView {
        SyncRunView {
            dry_run: self.dry_run,
            stage: self.stage,
            index: self.index,
            downloads: self.downloads@,
            unmanaged: texts(self.unmanaged@),
            error: self.error,
        }
    }
}

/// How the bytes of a file stand to a locked plugin: missing without
/// bytes, else matching or differing by their digest. An error if the
/// locked digest cannot be read.
pub open spec fn inspected(hash: Seq<char>, existing: Option<Seq<u8>>) -> Result<FileState, HashError> {
    match existing {
        None => Ok(FileState::Missing),
        Some(data) => match hash_check(data, hash) {
            HashCheck::Match => Ok(FileState::Matches),
            HashCheck::Mismatch => Ok(FileState::Differs),
            HashCheck::Unreadable(e) => Err(e),
        },
    }
}

/// Compares the file of a locked plugin with its locked digest.
pub fn inspect(plugin: &LockedPlugin, existing: Option<&[u8]>) -> (r: Result<FileState, HashError>)
    ensures
        r == inspected(
            plugin@.hash,
            match existing {
                Some(data) => Some(data@),
                None => None,
            },
        ),
{
    match existing {
        None => Ok(FileState::Missing),
        Some(data) => match verify_bytes(data, plugin.hash.as_str()) {
            HashCheck::Match => Ok(FileState::Matches),
            HashCheck::Mismatch => Ok(FileState::Differs),
            HashCheck::Unreadable(e) => Err(e),
        },
    }
}

/// A file name is that of some locked plugin.
pub open spec fn is_managed(lockfile: Seq<LockedPlugin>, file: Seq<char>) -> bool {
    exists|i: int| 0 <= i < lockfile.len() && (#[trigger] lockfile[i]).file@ == file
}

/// A file is a `.jar` file that belongs to no locked plugin.
pub open spec fn is_unmanaged(lockfile: Seq<LockedPlugin>, file: Seq<char>) -> bool {
    ends_with(file, ".jar"@) && !is_managed(lockfile, file)
}

/// The unmanaged files of a listing, in its order.
pub open spec fn unmanaged_of(lockfile: Seq<LockedPlugin>, listing: Seq<Seq<char>>) -> Seq<Seq<char>> {
    listing.filter(|f: Seq<char>| is_unmanaged(lockfile, f))
}

/// Whether a file name is that of some locked plugin.
pub fn managed(lockfile: &Lockfile, file: &str) -> (r: bool)
    ensures
        r == is_managed(lockfile.plugin@, file@),
{
    let mut i: usize = 0;
    while i < lockfile.plugin.len()
        invariant
            i <= lockfile.plugin.len(),
            forall|k: int| 0 <= k < i ==> (#[trigger] lockfile.plugin@[k]).file@ != file@,
        decreases lockfile.plugin.len() - i,
    {
        if same_text(lockfile.plugin[i].file.as_str(), file) {
            return true;
        }
        i = i + 1;
    }
    false
}

/// The `.jar` files of a listing that belong to no locked plugin, in the
/// order of the listing.
pub fn unmanaged_files(lockfile: &Lockfile, listing: &Vec<String>) -> (r: Vec<String>)
    ensures
        texts(r@) == unmanaged_of(lockfile.plugin@, texts(listing@)),
{
    let ghost names = texts(listing@);
    let ghost pred = |f: Seq<char>| is_unmanaged(lockfile.plugin@, f);
    let suffix = chars_of(".jar");
    let mut out: Vec<String> = Vec::new();
    let mut i: usize = 0;
    proof {
        reveal(Seq::filter);
        assert(texts(out@) =~= names.take(0).filter(pred));
    }
    while i < listing.len()
        invariant
            i <= listing.len(),
            suffix@ == ".jar"@,
            names == texts(listing@),
            pred == (|f: Seq<char>| is_unmanaged(lockfile.plugin@, f)),
            texts(out@) == names.take(i as int).filter(pred),
        decreases listing.len() - i,
    {
        let name = chars_of(listing[i].as_str());
        let keep = has_suffix(&name, &suffix) && !managed(lockfile, listing[i].as_str());
        proof {
            assert(names.take(i + 1) == names.take(i as int).push(names[i as int]));
            names.take(i as int).lemma_filter_push(names[i as int], pred);
        }
        if keep {
            let ghost before = out@;
            out.push(listing[i].clone());
            assert(texts(out@) =~= texts(before).push(names[i as int]));
        }
        i = i + 1;
    }
    assert(names.take(listing.len() as int) == names);
    out
}

/// Some locked plugin comes from GitHub, where compatibility with the
/// platform version cannot be checked.
pub open spec fn locks_github(lockfile: Seq<LockedPlugin>) -> bool {
    exists|i: int| 0 <= i < lockfile.len() && (#[trigger] lockfile[i]).source@ == "github"@
}

/// Whether some locked plugin comes from GitHub. The caller warns once
/// that the compatibility of such plugins cannot be checked.
pub fn has_github_plugins(lockfile: &Lockfile) -> (r: bool)
    ensures
        r == locks_github(lockfile.plugin@),
{
    let mut i: usize = 0;
    while i < lockfile.plugin.len()
        invariant
            i <= lockfile.plugin.len(),
            forall|k: int| 0 <= k < i ==> (#[trigger] lockfile.plugin@[k]).source@ != "github"@,
        decreases lockfile.plugin.len() - i,
    {
        if same_text(lockfile.plugin[i].source.as_str(), "github") {
            return true;
        }
        i = i + 1;
    }
    false
}

/// Whether the run changes anything, or would: there is a file to download
/// or to remove.
pub open spec fn changes(s: SyncRunView) -> bool {
    s.downloads.len() > 0 || s.unmanaged.len() > 0
}

/// The run ends with the given exit code.
pub open spec fn ends(s: SyncRunView, code: i32) -> (SyncRunView, SyncAction) {
    (SyncRunView { stage: SyncStage::Finished, ..s }, SyncAction::Finish { code })
}

/// The run goes on at the given stage with the given step.
pub open spec fn goes_on(s: SyncRunView, stage: SyncStage, action: SyncAction) -> (
    SyncRunView,
    SyncAction,
) {
    (SyncRunView { stage, ..s }, action)
}

/// The run fails: a dry run ends with the code 2; any other run first
/// restores the live directory from the backup.
pub open spec fn breaks(s: SyncRunView, error: SyncError) -> (SyncRunView, SyncAction) {
    let failed = SyncRunView { error: Some(error), ..s };
    if s.dry_run {
        ends(failed, 2)
    } else {
        goes_on(failed, SyncStage::Restoring, SyncAction::Restore)
    }
}

/// The run fails before anything was backed up: it ends with the code 2.
pub open spec fn gives_up(s: SyncRunView) -> (SyncRunView, SyncAction) {
    ends(SyncRunView { error: Some(SyncError { reason: SyncReason::Io, plugin: None }), ..s }, 2)
}

/// What comes after the inspection of `s.index` plugins: the inspection of
/// the next plugin; after the last, the first download, or for a dry run
/// the listing.
pub open spec fn inspects_next(s: SyncRunView, plugins: int) -> (SyncRunView, SyncAction) {
    if s.index < plugins {
        goes_on(s, SyncStage::Inspecting, SyncAction::ReadFile { plugin: s.index })
    } else {
        downloads_next(SyncRunView { index: 0, ..s })
    }
}

/// What comes after `s.index` downloads are stored: the next download;
/// after the last, or at once for a dry run, the listing of the live
/// directory.
pub open spec fn downloads_next(s: SyncRunView) -> (SyncRunView, SyncAction) {
    if !s.dry_run && s.index < s.downloads.len() {
        goes_on(
            s,
            SyncStage::Downloading,
            SyncAction::Download { plugin: s.downloads[s.index as int] },
        )
    } else {
        goes_on(s, SyncStage::Listing, SyncAction::List)
    }
}

/// How a run begins: a dry run with the inspection of the files, any other
/// with the removal of what an earlier run left behind.
pub open spec fn begun(dry_run: bool, plugins: int) -> (SyncRunView, SyncAction) {
    let s = SyncRunView {
        dry_run,
        stage: SyncStage::Finished,
        index: 0,
        downloads: Seq::empty(),
        unmanaged: Seq::empty(),
        error: None,
    };
    if dry_run {
        inspects_next(s, plugins)
    } else {
        goes_on(s, SyncStage::CleaningLeftovers, SyncAction::CleanTemp)
    }
}

/// What the file of the plugin under inspection leads to.
pub open spec fn inspection(s: SyncRunView, lockfile: Seq<LockedPlugin>, existing: Option<Vec<u8>>) -> (
    SyncRunView,
    SyncAction,
) {
    if s.index >= lockfile.len() {
        breaks(s, SyncError { reason: SyncReason::Protocol, plugin: None })
    } else {
        let bytes = match existing {
            Some(data) => Some(data@),
            None => None,
        };
        match inspected(lockfile[s.index as int].hash@, bytes) {
            Err(e) => breaks(s, SyncError { reason: SyncReason::BadHash(e), plugin: Some(s.index) }),
            Ok(state) => inspects_next(
                SyncRunView {
                    index: (s.index + 1) as usize,
                    downloads: if state == FileState::Matches {
                        s.downloads
                    } else {
                        s.downloads.push(s.index)
                    },
                    ..s
                },
                lockfile.len() as int,
            ),
        }
    }
}

/// What downloaded bytes lead to: they are staged if they have the locked
/// digest, else the run fails.
pub open spec fn download_taken(s: SyncRunView, lockfile: Seq<LockedPlugin>, data: Vec<u8>) -> (
    SyncRunView,
    SyncAction,
) {
    if s.index >= s.downloads.len() || s.downloads[s.index as int] >= lockfile.len() {
        breaks(s, SyncError { reason: SyncReason::Protocol, plugin: None })
    } else {
        let plugin = s.downloads[s.index as int];
        match hash_check(data@, lockfile[plugin as int].hash@) {
            HashCheck::Match => goes_on(s, SyncStage::Storing, SyncAction::Stage { plugin, data }),
            HashCheck::Mismatch => breaks(
                s,
                SyncError { reason: SyncReason::Integrity, plugin: Some(plugin) },
            ),
            HashCheck::Unreadable(e) => breaks(
                s,
                SyncError { reason: SyncReason::BadHash(e), plugin: Some(plugin) },
            ),
        }
    }
}

/// What the listing of the live directory leads to: a dry run ends, with
/// the code 1 if it would change anything and 0 if not; any other run
/// removes the unmanaged files, if there are any, and then moves the
/// staged files in.
pub open spec fn listing_taken(s: SyncRunView, lockfile: Seq<LockedPlugin>, listing: Seq<Seq<char>>) -> (
    SyncRunView,
    SyncAction,
) {
    let found = SyncRunView { unmanaged: unmanaged_of(lockfile, listing), ..s };
    if s.dry_run {
        ends(found, if changes(found) { 1 } else { 0 })
    } else if found.unmanaged.len() > 0 {
        goes_on(found, SyncStage::Removing, SyncAction::RemoveUnmanaged)
    } else {
        goes_on(found, SyncStage::Replacing, SyncAction::Replace)
    }
}

/// The plugin that a failed step concerns.
pub open spec fn concerned(s: SyncRunView) -> Option<usize> {
    if (s.stage == SyncStage::Downloading || s.stage == SyncStage::Storing) && s.index
        < s.downloads.len() {
        Some(s.downloads[s.index as int])
    } else {
        None
    }
}

/// The error for a step that failed or was answered with something else
/// than was asked for.
pub open spec fn step_error(s: SyncRunView, e: SyncEvent) -> SyncError {
    SyncError {
        reason: if e is Failed {
            if s.stage == SyncStage::Downloading {
                SyncReason::Transport
            } else {
                SyncReason::Io
            }
        } else {
            SyncReason::Protocol
        },
        plugin: concerned(s),
    }
}

/// How a run goes on when a step has been reported.
pub open spec fn after(s: SyncRunView, lockfile: Seq<LockedPlugin>, e: SyncEvent) -> (
    SyncRunView,
    SyncAction,
) {
    match (s.stage, e) {
        (SyncStage::CleaningLeftovers, SyncEvent::Done) => goes_on(
            s,
            SyncStage::CreatingStaging,
            SyncAction::CreateStaging,
        ),
        (SyncStage::CleaningLeftovers, _) => gives_up(s),
        (SyncStage::CreatingStaging, SyncEvent::Done) => goes_on(
            s,
            SyncStage::BackingUp,
            SyncAction::Backup,
        ),
        (SyncStage::CreatingStaging, _) => gives_up(s),
        (SyncStage::BackingUp, SyncEvent::Done) => inspects_next(
            SyncRunView { index: 0, ..s },
            lockfile.len() as int,
        ),
        (SyncStage::BackingUp, _) => gives_up(s),
        (SyncStage::Inspecting, SyncEvent::File(existing)) => inspection(s, lockfile, existing),
        (SyncStage::Downloading, SyncEvent::Downloaded(data)) => download_taken(s, lockfile, data),
        (SyncStage::Storing, SyncEvent::Done) => if s.index < s.downloads.len() {
            downloads_next(SyncRunView { index: (s.index + 1) as usize, ..s })
        } else {
            breaks(s, SyncError { reason: SyncReason::Protocol, plugin: None })
        },
        (SyncStage::Listing, SyncEvent::Listing(names)) => listing_taken(s, lockfile, texts(names@)),
        (SyncStage::Removing, SyncEvent::Done) => goes_on(s, SyncStage::Replacing, SyncAction::Replace),
        (SyncStage::Replacing, SyncEvent::Done) => goes_on(
            s,
            SyncStage::CleaningUp,
            SyncAction::CleanTemp,
        ),
        (SyncStage::Restoring, _) => goes_on(s, SyncStage::CleaningUp, SyncAction::CleanTemp),
        (SyncStage::CleaningUp, _) => ends(s, if s.error is Some { 2 } else { 0 }),
        (SyncStage::Finished, _) => ends(s, 2),
        (_, e) => breaks(s, step_error(s, e)),
    }
}

impl SyncRun {
    fn end(self, code: i32) -> (r: (SyncRun, SyncAction))
        ensures
            (r.0@, r.1) == ends(self@, code),
    {
        (SyncRun { stage: SyncStage::Finished, ..self }, SyncAction::Finish { code })
    }

    fn go_on(self, stage: SyncStage, action: SyncAction) -> (r: (SyncRun, SyncAction))
        ensures
            (r.0@, r.1) == goes_on(self@, stage, action),
    {
        (SyncRun { stage, ..self }, action)
    }

    fn break_off(self, error: SyncError) -> (r: (SyncRun, SyncAction))
        ensures
            (r.0@, r.1) == breaks(self@, error),
    {
        let failed = SyncRun { error: Some(error), ..self };
        if failed.dry_run {
            failed.end(2)
        } else {
            failed.go_on(SyncStage::Restoring, SyncAction::Restore)
        }
    }

    fn give_up(self) -> (r: (SyncRun, SyncAction))
        ensures
            (r.0@, r.1) == gives_up(self@),
    {
        let failed = SyncRun {
            error: Some(SyncError { reason: SyncReason::Io, plugin: None }),
            ..self
        };
        failed.end(2)
    }

    fn download_next(self) -> (r: (SyncRun, SyncAction))
        ensures
            (r.0@, r.1) == downloads_next(self@),
    {
        if !self.dry_run && self.index < self.downloads.len() {
            let plugin = self.downloads[self.index];
            self.go_on(SyncStage::Downloading, SyncAction::Download { plugin })
        } else {
            self.go_on(SyncStage::Listing, SyncAction::List)
        }
    }

    fn inspect_next(self, plugins: usize) -> (r: (SyncRun, SyncAction))
        ensures
            (r.0@, r.1) == inspects_next(self@, plugins as int),
    {
        if self.index < plugins {
            let plugin = self.index;
            self.go_on(SyncStage::Inspecting, SyncAction::ReadFile { plugin })
        } else {
            let s = SyncRun { index: 0, ..self };
            s.download_next()
        }
    }

    /// Begins a run for a lockfile.
    pub fn begin(dry_run: bool, lockfile: &Lockfile) -> (r: (SyncRun, SyncAction))
        ensures
            (r.0@, r.1) == begun(dry_run, lockfile.plugin@.len() as int),
    {
        let s = SyncRun {
            dry_run,
            stage: SyncStage::Finished,
            index: 0,
            downloads: Vec::new(),
            unmanaged: Vec::new(),
            error: None,
        };
        assert(texts(s.unmanaged@) =~= Seq::<Seq<char>>::empty());
        if dry_run {
            s.inspect_next(lockfile.plugin.len())
        } else {
            s.go_on(SyncStage::CleaningLeftovers, SyncAction::CleanTemp)
        }
    }

    fn take_file(self, lockfile: &Lockfile, existing: Option<Vec<u8>>) -> (r: (SyncRun, SyncAction))
        ensures
            (r.0@, r.1) == inspection(self@, lockfile.plugin@, existing),
    {
        if self.index >= lockfile.plugin.len() {
            return self.break_off(SyncError { reason: SyncReason::Protocol, plugin: None });
        }
        let state = match &existing {
            Some(data) => inspect(&lockfile.plugin[self.index], Some(data.as_slice())),
            None => inspect(&lockfile.plugin[self.index], None),
        };
        match state {
            Err(e) => {
                let plugin = Some(self.index);
                self.break_off(SyncError { reason: SyncReason::BadHash(e), plugin })
            },
            Ok(state) => {
                let mut s = self;
                if state != FileState::Matches {
                    s.downloads.push(s.index);
                }
                s.index = s.index + 1;
                s.inspect_next(lockfile.plugin.len())
            },
        }
    }

    fn take_download(self, lockfile: &Lockfile, data: Vec<u8>) -> (r: (SyncRun, SyncAction))
        ensures
            (r.0@, r.1) == download_taken(self@, lockfile.plugin@, data),
    {
        if self.index >= self.downloads.len() || self.downloads[self.index] >= lockfile.plugin.len() {
            return self.break_off(SyncError { reason: SyncReason::Protocol, plugin: None });
        }
        let plugin = self.downloads[self.index];
        match verify_bytes(data.as_slice(), lockfile.plugin[plugin].hash.as_str()) {
            HashCheck::Match => self.go_on(SyncStage::Storing, SyncAction::Stage { plugin, data }),
            HashCheck::Mismatch => self.break_off(
                SyncError { reason: SyncReason::Integrity, plugin: Some(plugin) },
            ),
            HashCheck::Unreadable(e) => self.break_off(
                SyncError { reason: SyncReason::BadHash(e), plugin: Some(plugin) },
            ),
        }
    }

    fn take_listing(self, lockfile: &Lockfile, names: &Vec<String>) -> (r: (SyncRun, SyncAction))
        ensures
            (r.0@, r.1) == listing_taken(self@, lockfile.plugin@, texts(names@)),
    {
        let unmanaged = unmanaged_files(lockfile, names);
        let found = SyncRun { unmanaged, ..self };
        if found.dry_run {
            let code: i32 = if found.downloads.len() > 0 || found.unmanaged.len() > 0 {
                1
            } else {
                0
            };
            found.end(code)
        } else if found.unmanaged.len() > 0 {
            found.go_on(SyncStage::Removing, SyncAction::RemoveUnmanaged)
        } else {
            found.go_on(SyncStage::Replacing, SyncAction::Replace)
        }
    }

    fn break_at_step(self, e: &SyncEvent) -> (r: (SyncRun, SyncAction))
        ensures
            (r.0@, r.1) == breaks(self@, step_error(self@, *e)),
    {
        let failed = match e {
            SyncEvent::Failed => true,
            _ => false,
        };
        let downloading = match self.stage {
            SyncStage::Downloading => true,
            _ => false,
        };
        let storing = match self.stage {
            SyncStage::Storing => true,
            _ => false,
        };
        let reason = if failed {
            if downloading {
                SyncReason::Transport
            } else {
                SyncReason::Io
            }
        } else {
            SyncReason::Protocol
        };
        let plugin = if (downloading || storing) && self.index < self.downloads.len() {
            Some(self.downloads[self.index])
        } else {
            None
        };
        self.break_off(SyncError { reason, plugin })
    }

    /// Goes on with the run when the step that was asked for has been
    /// reported.
    pub fn advance(self, lockfile: &Lockfile, e: SyncEvent) -> (r: (SyncRun, SyncAction))
        ensures
            (r.0@, r.1) == after(self@, lockfile.plugin@, e),
    {
        match self.stage {
            SyncStage::CleaningLeftovers => match e {
                SyncEvent::Done => self.go_on(SyncStage::CreatingStaging, SyncAction::CreateStaging),
                _ => self.give_up(),
            },
            SyncStage::CreatingStaging => match e {
                SyncEvent::Done => self.go_on(SyncStage::BackingUp, SyncAction::Backup),
                _ => self.give_up(),
            },
            SyncStage::BackingUp => match e {
                SyncEvent::Done => {
                    let s = SyncRun { index: 0, ..self };
                    s.inspect_next(lockfile.plugin.len())
                },
                _ => self.give_up(),
            },
            SyncStage::Inspecting => match e {
                SyncEvent::File(existing) => self.take_file(lockfile, existing),
                e => self.break_at_step(&e),
            },
            SyncStage::Downloading => match e {
                SyncEvent::Downloaded(data) => self.take_download(lockfile, data),
                e => self.break_at_step(&e),
            },
            SyncStage::Storing => match e {
                SyncEvent::Done => if self.index < self.downloads.len() {
                    let s = SyncRun { index: self.index + 1, ..self };
                    s.download_next()
                } else {
                    self.break_off(SyncError { reason: SyncReason::Protocol, plugin: None })
                },
                e => self.break_at_step(&e),
            },
            SyncStage::Listing => match e {
                SyncEvent::Listing(names) => self.take_listing(lockfile, &names),
                e => self.break_at_step(&e),
            },
            SyncStage::Removing => match e {
                SyncEvent::Done => self.go_on(SyncStage::Replacing, SyncAction::Replace),
                e => self.break_at_step(&e),
            },
            SyncStage::Replacing => match e {
                SyncEvent::Done => self.go_on(SyncStage::CleaningUp, SyncAction::CleanTemp),
                e => self.break_at_step(&e),
            },
            SyncStage::Restoring => self.go_on(SyncStage::CleaningUp, SyncAction::CleanTemp),
            SyncStage::CleaningUp => {
                let code: i32 = if self.error.is_some() {
                    2
                } else {
                    0
                };
                self.end(code)
            },
            SyncStage::Finished => self.end(2),
        }
    }
}

/// Where a run stands after the steps it asked for were reported, one
/// after the other.
pub open spec fn run_through(
    start: (SyncRunView, SyncAction),
    lockfile: Seq<LockedPlugin>,
    events: Seq<SyncEvent>,
) -> (SyncRunView, SyncAction)
    decreases events.len(),
{
    if events.len() == 0 {
        start
    } else {
        after(run_through(start, lockfile, events.drop_last()).0, lockfile, events.last())
    }
}

/// A step that downloads, writes or removes a file.
pub open spec fn touches_files(a: SyncAction) -> bool {
    a is Download || a is Stage || a is RemoveUnmanaged || a is Restore
}

/// The files that were read, as reports.
pub open spec fn file_events(files: Seq<Option<Vec<u8>>>) -> Seq<SyncEvent> {
    files.map_values(|f: Option<Vec<u8>>| SyncEvent::File(f))
}

/// Every file has the digest that is locked for it.
pub open spec fn all_match(lockfile: Seq<LockedPlugin>, files: Seq<Option<Vec<u8>>>) -> bool {
    &&& files.len() == lockfile.len()
    &&& forall|k: int|
        0 <= k < files.len() ==> (#[trigger] files[k]) is Some && hash_check(
            files[k]->0@,
            lockfile[k].hash@,
        ) == HashCheck::Match
}

/// No file of the listing is unmanaged.
pub open spec fn nothing_unmanaged(lockfile: Seq<LockedPlugin>, listing: Seq<Seq<char>>) -> bool {
    forall|k: int| 0 <= k < listing.len() ==> !is_unmanaged(lockfile, #[trigger] listing[k])
}

proof fn lemma_matching_files_are_skipped(
    start: (SyncRunView, SyncAction),
    lockfile: Seq<LockedPlugin>,
    files: Seq<Option<Vec<u8>>>,
    k: int,
)
    requires
        all_match(lockfile, files),
        lockfile.len() <= usize::MAX,
        0 <= k <= files.len(),
        start == inspects_next(
            SyncRunView {
                dry_run: start.0.dry_run,
                stage: start.0.stage,
                index: 0,
                downloads: Seq::empty(),
                unmanaged: start.0.unmanaged,
                error: None,
            },
            lockfile.len() as int,
        ),
    ensures
        ({
            let r = run_through(start, lockfile, file_events(files).take(k));
            &&& r.0.downloads.len() == 0
            &&& r.0.error is None
            &&& r.0.dry_run == start.0.dry_run
            &&& r.0.unmanaged == start.0.unmanaged
            &&& !touches_files(r.1)
            &&& if k < files.len() {
                r.0.stage == SyncStage::Inspecting && r.0.index == k
            } else {
                r.0.stage == SyncStage::Listing && r.1 is List
            }
        }),
    decreases k,
{
    let events = file_events(files).take(k);
    if k > 0 {
        lemma_matching_files_are_skipped(start, lockfile, files, k - 1);
        assert(events.drop_last() == file_events(files).take(k - 1));
        assert(events.last() == SyncEvent::File(files[k - 1]));
        let before = run_through(start, lockfile, events.drop_last());
        assert(before.0.stage == SyncStage::Inspecting && before.0.index == k - 1);
        assert(files[k - 1] is Some);
    }
}

/// A run on a directory that matches the lockfile downloads nothing,
/// stages, removes and restores no file, and reports no change. When every
/// locked file is there with its locked digest and no other `.jar` file
/// is, no step up to the listing touches a live file; a dry run then ends
/// with the code 0; any other run replaces with nothing staged and nothing
/// to remove, cleans up and ends with the code 0 and without an error.
pub proof fn lemma_sync_is_idempotent(
    dry_run: bool,
    lockfile: Lockfile,
    files: Seq<Option<Vec<u8>>>,
    listing: Vec<String>,
)
    requires
        all_match(lockfile.plugin@, files),
        nothing_unmanaged(lockfile.plugin@, texts(listing@)),
    ensures
        ({
            let plugins = lockfile.plugin@;
            let begin = begun(dry_run, plugins.len() as int);
            let prepared = after(
                after(after(begin.0, plugins, SyncEvent::Done).0, plugins, SyncEvent::Done).0,
                plugins,
                SyncEvent::Done,
            );
            let start = if dry_run {
                begin
            } else {
                prepared
            };
            let read = run_through(start, plugins, file_events(files));
            let listed = after(read.0, plugins, SyncEvent::Listing(listing));
            let replaced = after(listed.0, plugins, SyncEvent::Done);
            let cleaned = after(replaced.0, plugins, SyncEvent::Done);
            &&& !dry_run ==> begin.1 is CleanTemp && after(begin.0, plugins, SyncEvent::Done).1
                is CreateStaging && after(
                after(begin.0, plugins, SyncEvent::Done).0,
                plugins,
                SyncEvent::Done,
            ).1 is Backup
            &&& forall|k: int|
                0 <= k <= files.len() ==> !touches_files(
                    #[trigger] run_through(start, plugins, file_events(files).take(k)).1,
                )
            &&& read.1 is List
            &&& listed.0.downloads.len() == 0
            &&& listed.0.unmanaged.len() == 0
            &&& listed.0.error is None
            &&& !changes(listed.0)
            &&& dry_run ==> listed.1 == SyncAction::Finish { code: 0 }
            &&& !dry_run ==> listed.1 is Replace && replaced.1 is CleanTemp && cleaned.1
                == SyncAction::Finish { code: 0 } && cleaned.0.error is None && !changes(cleaned.0)
        }),
{
    let plugins = lockfile.plugin@;
    assert(plugins.len() == lockfile.plugin.len());
    assert(plugins.len() <= usize::MAX);
    let n = plugins.len() as int;
    let begin = begun(dry_run, n);
    let prepared = after(
        after(after(begin.0, plugins, SyncEvent::Done).0, plugins, SyncEvent::Done).0,
        plugins,
        SyncEvent::Done,
    );
    let start = if dry_run {
        begin
    } else {
        prepared
    };
    assert forall|k: int| 0 <= k <= files.len() implies !touches_files(
        #[trigger] run_through(start, plugins, file_events(files).take(k)).1,
    ) by {
        lemma_matching_files_are_skipped(start, plugins, files, k);
    }
    lemma_matching_files_are_skipped(start, plugins, files, files.len() as int);
    assert(file_events(files).take(files.len() as int) == file_events(files));
    let names = texts(listing@);
    let pred = |f: Seq<char>| is_unmanaged(plugins, f);
    assert(unmanaged_of(plugins, names).len() == 0) by {
        let kept = names.filter(pred);
        if kept.len() > 0 {
            names.lemma_filter_pred(pred, 0);
            assert(kept.contains(kept[0]));
            names.lemma_filter_contains_rev(pred, kept[0]);
            assert(names.contains(kept[0]));
            let j = choose|j: int| 0 <= j < names.len() && names[j] == kept[0];
            assert(!is_unmanaged(plugins, names[j]));
        }
    }
}

/// The `.jar` files of the live directory, the backup and the staging
/// directory, as far as the rollback is concerned.
pub struct World {
    pub live: Map<Seq<char>, Seq<u8>>,
    pub backup: Option<Map<Seq<char>, Seq<u8>>>,
    pub staging: Option<Map<Seq<char>, Seq<u8>>>,
}

/// What the steps of a rollback do when they are carried out: the restore
/// puts the files of the backup in place of the live ones, the cleaning
/// removes backup and staging directory.
pub open spec fn carried_out(w: World, a: SyncAction) -> World {
    match a {
        SyncAction::Backup => World { backup: Some(w.live), ..w },
        SyncAction::Restore => match w.backup {
            Some(files) => World { live: files, ..w },
            None => w,
        },
        SyncAction::CleanTemp => World { backup: None, staging: None, ..w },
        _ => w,
    }
}

/// A step failed, or a download brought bytes that do not have the locked
/// digest.
pub open spec fn is_failure(s: SyncRunView, lockfile: Seq<LockedPlugin>, e: SyncEvent) -> bool {
    match e {
        SyncEvent::Failed => true,
        SyncEvent::Downloaded(data) => s.stage == SyncStage::Downloading && s.index
            < s.downloads.len() && s.downloads[s.index as int] < lockfile.len() && hash_check(
            data@,
            lockfile[s.downloads[s.index as int] as int].hash@,
        ) != HashCheck::Match,
        _ => false,
    }
}

/// A failure between the backup and the end of the replacing undoes the
/// run: the steps that follow are the restore and the cleaning, the run
/// ends with the code 2, and once they are carried out the live directory
/// holds what it held when the backup was made, with no backup or staging
/// directory left.
pub proof fn lemma_failure_rolls_back(
    s: SyncRunView,
    lockfile: Seq<LockedPlugin>,
    e: SyncEvent,
    e2: SyncEvent,
    e3: SyncEvent,
    w: World,
    at_backup: Map<Seq<char>, Seq<u8>>,
)
    requires
        !s.dry_run,
        s.stage == SyncStage::Inspecting || s.stage == SyncStage::Downloading || s.stage
            == SyncStage::Storing || s.stage == SyncStage::Listing || s.stage == SyncStage::Removing
            || s.stage == SyncStage::Replacing,
        is_failure(s, lockfile, e),
        w.backup == Some(at_backup),
    ensures
        ({
            let first = after(s, lockfile, e);
            let second = after(first.0, lockfile, e2);
            let third = after(second.0, lockfile, e3);
            &&& first.1 is Restore
            &&& second.1 is CleanTemp
            &&& third.1 == SyncAction::Finish { code: 2 }
            &&& carried_out(carried_out(w, first.1), second.1) == World {
                live: at_backup,
                backup: None,
                staging: None,
            }
        }),
{
}

} // verus!
