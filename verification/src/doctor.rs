//! The health check: manifest, lockfile and plugin directory are compared
//! and every discrepancy becomes a finding. Nothing is changed, and nothing
//! stops the check: a failure is a finding like any other.

use vstd::prelude::*;
use crate::constants::SCHEMA_VERSION;
use crate::hash::{hash_check, parse_hash, parsed, verify_bytes, HashCheck, HashError};
use crate::lockfile::{LockedPlugin, Lockfile};
use crate::order::{is_stable_sort, lemma_lex_total, lemma_lex_transitive, lex_le, stable_sort, text_le};
use crate::sync::{unmanaged_files, unmanaged_of};
use crate::text::{same_text, texts};

verus! {

/// How grave a finding is.
#[derive(Debug, Clone, Copy, PartialEq, Eq, Structural)]
pub enum Severity {
    /// In order.
    Healthy,
    Warning,
    Error,
}

/// How a configuration file was found.
#[derive(Debug, Clone, Copy, PartialEq, Eq, Structural)]
pub enum FileCondition {
    /// There is no such file.
    Missing,
    /// The file is there and cannot be read as what it should be.
    Invalid,
    /// The file is there and reads well.
    Valid,
}

/// How the file of a locked plugin was found.
#[derive(Debug)]
pub enum Observed {
    /// There is no file of the expected name.
    Missing,
    /// A file was found under this name and could not be read.
    Unreadable { name: String },
    /// A file was found under this name, with these bytes.
    Present { name: String, data: Vec<u8> },
}

/// One result of the check. Plugins are named by their position in the
/// lockfile, unmanaged files by their position in the report's list.
#[derive(Debug, Clone, Copy, PartialEq, Eq, Structural)]
pub enum Finding {
    ManifestValid,
    ManifestMissing,
    ManifestInvalid,
    LockfileValid { plugins: usize },
    LockfileMissing,
    LockfileInvalid,
    /// The file is there, has the expected name and the locked digest.
    PluginOk { plugin: usize },
    PluginMissing { plugin: usize },
    FilenameMismatch { plugin: usize },
    HashMismatch { plugin: usize },
    /// The locked digest cannot be read.
    HashUnreadable { plugin: usize, error: HashError },
    /// The file cannot be read.
    FileUnreadable { plugin: usize },
    /// A `.jar` file that no locked plugin accounts for.
    Unmanaged { file: usize },
}

impl Finding {
    /// How grave the finding is: an unmanaged file is a warning, whatever
    /// else is not in order an error.
    pub open spec fn severity_of(self) -> Severity {
        match self {
            Finding::ManifestValid | Finding::LockfileValid { .. } | Finding::PluginOk { .. } => Severity::Healthy,
            Finding::Unmanaged { .. } => Severity::Warning,
            _ => Severity::Error,
        }
    }

    /// How grave the finding is.
    pub fn severity(&self) -> (r: Severity)
        ensures
            r == self.severity_of(),
    {
        match self {
            Finding::ManifestValid => Severity::Healthy,
            Finding::LockfileValid { .. } => Severity::Healthy,
            Finding::PluginOk { .. } => Severity::Healthy,
            Finding::Unmanaged { .. } => Severity::Warning,
            _ => Severity::Error,
        }
    }
}

/// The report of a health check.
#[derive(Debug)]
pub struct DoctorReport {
    /// The version of the layout of the report.
    pub schema_version: u32,
    /// The gravest severity among the findings.
    pub status: Severity,
    pub findings: Vec<Finding>,
    /// The unmanaged files, in ascending order.
    pub unmanaged: Vec<String>,
    /// How many findings are in order.
    pub ok: usize,
    /// How many findings are warnings.
    pub warnings: usize,
    /// How many findings are errors.
    pub errors: usize,
}

/// The finding for the manifest.
pub open spec fn manifest_finding(condition: FileCondition) -> Finding {
    match condition {
        FileCondition::Missing => Finding::ManifestMissing,
        FileCondition::Invalid => Finding::ManifestInvalid,
        FileCondition::Valid => Finding::ManifestValid,
    }
}

/// The finding for the lockfile.
pub open spec fn lockfile_finding(condition: FileCondition, plugins: usize) -> Finding {
    match condition {
        FileCondition::Missing => Finding::LockfileMissing,
        FileCondition::Invalid => Finding::LockfileInvalid,
        FileCondition::Valid => Finding::LockfileValid { plugins },
    }
}

/// The finding for one locked plugin. The checks follow one another and
/// the first that fails decides: the file is there; it has the expected
/// name; the locked digest can be read; the file can be read; its digest is
/// the locked one.
pub open spec fn plugin_finding(plugin: LockedPlugin, index: usize, observed: Observed) -> Finding {
    match observed {
        Observed::Missing => Finding::PluginMissing { plugin: index },
        Observed::Unreadable { name } => if name@ != plugin.file@ {
            Finding::FilenameMismatch { plugin: index }
        } else {
            match parsed(plugin.hash@) {
                Err(e) => Finding::HashUnreadable { plugin: index, error: e },
                Ok(_) => Finding::FileUnreadable { plugin: index },
            }
        },
        Observed::Present { name, data } => if name@ != plugin.file@ {
            Finding::FilenameMismatch { plugin: index }
        } else {
            match hash_check(data@, plugin.hash@) {
                HashCheck::Unreadable(e) => Finding::HashUnreadable { plugin: index, error: e },
                HashCheck::Mismatch => Finding::HashMismatch { plugin: index },
                HashCheck::Match => Finding::PluginOk { plugin: index },
            }
        },
    }
}

/// The findings for the locked plugins, one for each.
pub open spec fn plugin_findings(lockfile: Seq<LockedPlugin>, observed: Seq<Observed>) -> Seq<Finding> {
    Seq::new(lockfile.len(), |i: int| plugin_finding(lockfile[i], i as usize, observed[i]))
}

/// The findings for unmanaged files, one for each.
pub open spec fn unmanaged_findings(count: nat) -> Seq<Finding> {
    Seq::new(count, |i: int| Finding::Unmanaged { file: i as usize })
}

/// How many findings have the given severity.
pub open spec fn count_of(findings: Seq<Finding>, severity: Severity) -> nat {
    findings.filter(|f: Finding| f.severity_of() == severity).len()
}

/// The gravest severity among the findings.
pub open spec fn status_of(findings: Seq<Finding>) -> Severity {
    if count_of(findings, Severity::Error) > 0 {
        Severity::Error
    } else if count_of(findings, Severity::Warning) > 0 {
        Severity::Warning
    } else {
        Severity::Healthy
    }
}

/// The exit code for a status: 0 if all is in order, 1 for warnings only,
/// 2 for any error.
pub open spec fn exit_code_of(status: Severity) -> i32 {
    match status {
        Severity::Healthy => 0,
        Severity::Warning => 1,
        Severity::Error => 2,
    }
}

/// The order of file names.
pub open spec fn by_text() -> spec_fn(String, String) -> bool {
    |a: String, b: String| lex_le(a@, b@)
}

/// The texts ascend.
pub open spec fn ascending(names: Seq<Seq<char>>) -> bool {
    forall|i: int, j: int| 0 <= i < j < names.len() ==> lex_le(names[i], names[j])
}

/// Checks the manifest.
pub fn check_manifest(condition: FileCondition) -> (r: Finding)
    ensures
        r == manifest_finding(condition),
{
    match condition {
        FileCondition::Missing => Finding::ManifestMissing,
        FileCondition::Invalid => Finding::ManifestInvalid,
        FileCondition::Valid => Finding::ManifestValid,
    }
}

/// Checks the lockfile.
pub fn check_lockfile(condition: FileCondition, plugins: usize) -> (r: Finding)
    ensures
        r == lockfile_finding(condition, plugins),
{
    match condition {
        FileCondition::Missing => Finding::LockfileMissing,
        FileCondition::Invalid => Finding::LockfileInvalid,
        FileCondition::Valid => Finding::LockfileValid { plugins },
    }
}

/// Checks the file of one locked plugin.
pub fn check_plugin(plugin: &LockedPlugin, index: usize, observed: &Observed) -> (r: Finding)
    ensures
        r == plugin_finding(*plugin, index, *observed),
{
    match observed {
        Observed::Missing => Finding::PluginMissing { plugin: index },
        Observed::Unreadable { name } => {
            if !same_text(name.as_str(), plugin.file.as_str()) {
                Finding::FilenameMismatch { plugin: index }
            } else {
                match parse_hash(plugin.hash.as_str()) {
                    Err(e) => Finding::HashUnreadable { plugin: index, error: e },
                    Ok(_) => Finding::FileUnreadable { plugin: index },
                }
            }
        },
        Observed::Present { name, data } => {
            if !same_text(name.as_str(), plugin.file.as_str()) {
                Finding::FilenameMismatch { plugin: index }
            } else {
                match verify_bytes(data.as_slice(), plugin.hash.as_str()) {
                    HashCheck::Unreadable(e) => Finding::HashUnreadable { plugin: index, error: e },
                    HashCheck::Mismatch => Finding::HashMismatch { plugin: index },
                    HashCheck::Match => Finding::PluginOk { plugin: index },
                }
            }
        },
    }
}

/// Checks the files of the locked plugins, given how each was found.
pub fn check_plugin_files(lockfile: &Lockfile, observed: &Vec<Observed>) -> (r: Vec<Finding>)
    requires
        observed.len() == lockfile.plugin.len(),
    ensures
        r@ == plugin_findings(lockfile.plugin@, observed@),
{
    let mut out: Vec<Finding> = Vec::new();
    let mut i: usize = 0;
    while i < lockfile.plugin.len()
        invariant
            i <= lockfile.plugin.len(),
            observed.len() == lockfile.plugin.len(),
            out@.len() == i,
            forall|k: int|
                0 <= k < i ==> out@[k] == plugin_finding(lockfile.plugin@[k], k as usize, observed@[k]),
        decreases lockfile.plugin.len() - i,
    {
        out.push(check_plugin(&lockfile.plugin[i], i, &observed[i]));
        i = i + 1;
    }
    assert(out@ =~= plugin_findings(lockfile.plugin@, observed@));
    out
}

fn name_le(a: &String, b: &String) -> (r: bool)
    ensures
        r == lex_le(a@, b@),
{
    text_le(a.as_str(), b.as_str())
}

/// The unmanaged `.jar` files of a listing of the plugin directory, in
/// ascending order.
pub fn check_unmanaged_files(lockfile: &Lockfile, listing: &Vec<String>) -> (r: Vec<String>)
    ensures
        exists|found: Seq<String>|
            texts(found) == unmanaged_of(lockfile.plugin@, texts(listing@)) && #[trigger] is_stable_sort(
                found,
                r@,
                by_text(),
            ),
        ascending(texts(r@)),
        r@.len() == unmanaged_of(lockfile.plugin@, texts(listing@)).len(),
{
    let mut found = unmanaged_files(lockfile, listing);
    let ghost unsorted = found@;
    let ghost le = by_text();
    proof {
        assert forall|a: String, b: String| #[trigger] le(a, b) || le(b, a) by {
            lemma_lex_total(a@, b@);
        }
        assert forall|a: String, b: String, c: String| #[trigger] le(a, b) && #[trigger] le(
            b,
            c,
        ) implies le(a, c) by {
            lemma_lex_transitive(a@, b@, c@);
        }
    }
    let p = stable_sort(&mut found, name_le, Ghost(le));
    proof {
        assert(is_stable_sort(unsorted, found@, by_text()));
        assert forall|i: int, j: int| 0 <= i < j < found@.len() implies lex_le(
            texts(found@)[i],
            texts(found@)[j],
        ) by {
            assert(le(found@[i], found@[j]));
        }
        assert(texts(unsorted).len() == unsorted.len());
    }
    found
}

fn count(findings: &Vec<Finding>, severity: Severity) -> (r: usize)
    ensures
        r == count_of(findings@, severity),
{
    let ghost pred = |f: Finding| f.severity_of() == severity;
    let mut n: usize = 0;
    let mut i: usize = 0;
    proof {
        reveal(Seq::filter);
        assert(findings@.take(0).filter(pred).len() == 0);
    }
    while i < findings.len()
        invariant
            i <= findings.len(),
            pred == (|f: Finding| f.severity_of() == severity),
            n == findings@.take(i as int).filter(pred).len(),
            n <= i,
        decreases findings.len() - i,
    {
        proof {
            assert(findings@.take(i + 1) == findings@.take(i as int).push(findings@[i as int]));
            findings@.take(i as int).lemma_filter_push(findings@[i as int], pred);
        }
        if findings[i].severity() == severity {
            n = n + 1;
        }
        i = i + 1;
    }
    assert(findings@.take(findings.len() as int) == findings@);
    n
}

/// The findings of a check: for the manifest, for the lockfile, and, if
/// the lockfile reads well, for each locked plugin and each unmanaged file.
pub open spec fn findings_of(
    manifest: FileCondition,
    lockfile: Option<Lockfile>,
    lockfile_invalid: bool,
    observed: Seq<Observed>,
    unmanaged: nat,
) -> Seq<Finding> {
    match lockfile {
        Some(l) => seq![
            manifest_finding(manifest),
            lockfile_finding(FileCondition::Valid, l.plugin@.len() as usize),
        ] + plugin_findings(l.plugin@, observed) + unmanaged_findings(unmanaged),
        None => seq![
            manifest_finding(manifest),
            lockfile_finding(
                if lockfile_invalid {
                    FileCondition::Invalid
                } else {
                    FileCondition::Missing
                },
                0,
            ),
        ],
    }
}

/// Runs the health check on what was observed: the condition of the
/// manifest; the lockfile, if it reads well, or else whether it is there at
/// all; how the file of each locked plugin was found; and the names of the
/// files in the plugin directory.
pub fn check_health(
    manifest: FileCondition,
    lockfile: Option<&Lockfile>,
    lockfile_invalid: bool,
    observed: &Vec<Observed>,
    listing: &Vec<String>,
) -> (r: DoctorReport)
    requires
        lockfile matches Some(l) ==> observed.len() == l.plugin.len(),
    ensures
        r.schema_version == SCHEMA_VERSION,
        r.findings@ == findings_of(
            manifest,
            match lockfile {
                Some(l) => Some(*l),
                None => None,
            },
            lockfile_invalid,
            observed@,
            r.unmanaged@.len(),
        ),
        match lockfile {
            Some(l) => exists|found: Seq<String>|
                texts(found) == unmanaged_of(l.plugin@, texts(listing@)) && #[trigger] is_stable_sort(
                    found,
                    r.unmanaged@,
                    by_text(),
                ),
            None => r.unmanaged@.len() == 0,
        },
        ascending(texts(r.unmanaged@)),
        r.ok == count_of(r.findings@, Severity::Healthy),
        r.warnings == count_of(r.findings@, Severity::Warning),
        r.errors == count_of(r.findings@, Severity::Error),
        r.status == status_of(r.findings@),
{
    let mut findings: Vec<Finding> = Vec::new();
    findings.push(check_manifest(manifest));
    let mut unmanaged: Vec<String> = Vec::new();
    match lockfile {
        Some(l) => {
            findings.push(check_lockfile(FileCondition::Valid, l.plugin.len()));
            let mut plugins = check_plugin_files(l, observed);
            let ghost first = findings@;
            let ghost second = plugins@;
            findings.append(&mut plugins);
            assert(findings@ == first + second);
            unmanaged = check_unmanaged_files(l, listing);
            let mut i: usize = 0;
            let ghost base = findings@;
            while i < unmanaged.len()
                invariant
                    i <= unmanaged.len(),
                    findings@ == base + unmanaged_findings(i as nat),
                decreases unmanaged.len() - i,
            {
                findings.push(Finding::Unmanaged { file: i });
                assert(unmanaged_findings((i + 1) as nat) =~= unmanaged_findings(i as nat).push(
                    Finding::Unmanaged { file: i },
                ));
                assert(findings@ =~= base + unmanaged_findings((i + 1) as nat));
                i = i + 1;
            }
        },
        None => {
            let condition = if lockfile_invalid {
                FileCondition::Invalid
            } else {
                FileCondition::Missing
            };
            findings.push(check_lockfile(condition, 0));
        },
    }
    let ok = count(&findings, Severity::Healthy);
    let warnings = count(&findings, Severity::Warning);
    let errors = count(&findings, Severity::Error);
    let status = if errors > 0 {
        Severity::Error
    } else if warnings > 0 {
        Severity::Warning
    } else {
        Severity::Healthy
    };
    DoctorReport { schema_version: SCHEMA_VERSION, status, findings, unmanaged, ok, warnings, errors }
}

impl DoctorReport {
    /// The exit code of the check: 0 if all is in order, 1 for warnings
    /// only, 2 for any error.
    pub fn exit_code(&self) -> (r: i32)
        ensures
            r == exit_code_of(self.status),
    {
        match self.status {
            Severity::Healthy => 0,
            Severity::Warning => 1,
            Severity::Error => 2,
        }
    }
}

/// The name of a status in reports.
pub open spec fn status_text(status: Severity) -> Seq<char> {
    match status {
        Severity::Healthy => "ok"@,
        Severity::Warning => "warning"@,
        Severity::Error => "error"@,
    }
}

/// The name of a status in reports.
pub fn status_name(status: Severity) -> (r: &'static str)
    ensures
        r@ == status_text(status),
{
    match status {
        Severity::Healthy => "ok",
        Severity::Warning => "warning",
        Severity::Error => "error",
    }
}

/// The name of the plugin at a position of the lockfile, or `?`.
pub open spec fn plugin_name_at(lockfile: Seq<LockedPlugin>, i: usize) -> Seq<char> {
    if i < lockfile.len() {
        lockfile[i as int].name@
    } else {
        "?"@
    }
}

/// The file of the plugin at a position of the lockfile, or `?`.
pub open spec fn plugin_file_at(lockfile: Seq<LockedPlugin>, i: usize) -> Seq<char> {
    if i < lockfile.len() {
        lockfile[i as int].file@
    } else {
        "?"@
    }
}

/// The unmanaged file at a position of the list, or `?`.
pub open spec fn unmanaged_at(unmanaged: Seq<String>, i: usize) -> Seq<char> {
    if i < unmanaged.len() {
        unmanaged[i as int]@
    } else {
        "?"@
    }
}

/// The plugin that a finding is about, if it is about one.
pub open spec fn plugin_of(f: Finding) -> Option<usize> {
    match f {
        Finding::PluginOk { plugin } => Some(plugin),
        Finding::PluginMissing { plugin } => Some(plugin),
        Finding::FilenameMismatch { plugin } => Some(plugin),
        Finding::HashMismatch { plugin } => Some(plugin),
        Finding::HashUnreadable { plugin, .. } => Some(plugin),
        Finding::FileUnreadable { plugin } => Some(plugin),
        _ => None,
    }
}

/// The name of the check that a finding belongs to: the file for manifest
/// and lockfile, `plugin:` and the name for a plugin, `unmanaged:` and the
/// file name for an unmanaged file.
pub open spec fn check_name(f: Finding, lockfile: Seq<LockedPlugin>, unmanaged: Seq<String>) -> Seq<char> {
    match f {
        Finding::ManifestValid | Finding::ManifestMissing | Finding::ManifestInvalid => "plugins.toml"@,
        Finding::LockfileValid { .. } | Finding::LockfileMissing | Finding::LockfileInvalid => "plugins.lock"@,
        Finding::Unmanaged { file } => "unmanaged:"@ + unmanaged_at(unmanaged, file),
        _ => "plugin:"@ + plugin_name_at(lockfile, plugin_of(f)->0),
    }
}

/// What a finding says.
pub open spec fn check_message(f: Finding, lockfile: Seq<LockedPlugin>, unmanaged: Seq<String>) -> Seq<
    char,
> {
    match f {
        Finding::ManifestValid => "File exists and parses correctly"@,
        Finding::LockfileValid { plugins } => "File exists and parses correctly ("@
            + crate::numbers::decimal(plugins as nat) + " plugin(s))"@,
        Finding::ManifestMissing | Finding::LockfileMissing => "File not found"@,
        Finding::ManifestInvalid | Finding::LockfileInvalid => "File is invalid"@,
        Finding::PluginOk { plugin } => "All checks passed for '"@ + plugin_file_at(lockfile, plugin)
            + "'"@,
        Finding::PluginMissing { plugin } => "File '"@ + plugin_file_at(lockfile, plugin)
            + "' not found"@,
        Finding::FilenameMismatch { plugin } => "Filename mismatch: expected '"@ + plugin_file_at(
            lockfile,
            plugin,
        ) + "'"@,
        Finding::HashMismatch { plugin } => "Hash mismatch for '"@ + plugin_file_at(lockfile, plugin)
            + "'"@,
        Finding::HashUnreadable { plugin, error } => "Failed to parse hash: "@
            + crate::messages::hash_error_text(error),
        Finding::FileUnreadable { plugin } => "Failed to compute hash: '"@ + plugin_file_at(
            lockfile,
            plugin,
        ) + "' cannot be read"@,
        Finding::Unmanaged { file } => "Unmanaged .jar file: '"@ + unmanaged_at(unmanaged, file)
            + "'"@,
    }
}

/// The mark that a line of a report begins with.
pub open spec fn mark_of(severity: Severity) -> Seq<char> {
    match severity {
        Severity::Healthy => "  [ok] "@,
        Severity::Warning => "  [warning] "@,
        Severity::Error => "  [error] "@,
    }
}

/// The line of a report for a finding: mark, name, and what it says.
pub open spec fn finding_line(f: Finding, lockfile: Seq<LockedPlugin>, unmanaged: Seq<String>) -> Seq<char> {
    mark_of(f.severity_of()) + check_name(f, lockfile, unmanaged) + ": "@ + check_message(
        f,
        lockfile,
        unmanaged,
    )
}

/// The summary at the end of a report.
pub open spec fn summary_line(ok: usize, warnings: usize, errors: usize, status: Severity) -> Seq<char> {
    "Summary: "@ + crate::numbers::decimal(ok as nat) + " passed, "@ + crate::numbers::decimal(
        warnings as nat,
    ) + " warning(s), "@ + crate::numbers::decimal(errors as nat) + " error(s); status: "@
        + status_text(status)
}

fn plugin_index(f: &Finding) -> (r: Option<usize>)
    ensures
        r == plugin_of(*f),
{
    match f {
        Finding::PluginOk { plugin } => Some(*plugin),
        Finding::PluginMissing { plugin } => Some(*plugin),
        Finding::FilenameMismatch { plugin } => Some(*plugin),
        Finding::HashMismatch { plugin } => Some(*plugin),
        Finding::HashUnreadable { plugin, .. } => Some(*plugin),
        Finding::FileUnreadable { plugin } => Some(*plugin),
        _ => None,
    }
}

fn file_at(lockfile: &Vec<LockedPlugin>, i: usize) -> (r: &str)
    ensures
        r@ == plugin_file_at(lockfile@, i),
{
    if i < lockfile.len() {
        lockfile[i].file.as_str()
    } else {
        "?"
    }
}

fn name_at(lockfile: &Vec<LockedPlugin>, i: usize) -> (r: &str)
    ensures
        r@ == plugin_name_at(lockfile@, i),
{
    if i < lockfile.len() {
        lockfile[i].name.as_str()
    } else {
        "?"
    }
}

fn stray_at(unmanaged: &Vec<String>, i: usize) -> (r: &str)
    ensures
        r@ == unmanaged_at(unmanaged@, i),
{
    if i < unmanaged.len() {
        unmanaged[i].as_str()
    } else {
        "?"
    }
}

/// The name of the check that a finding belongs to.
pub fn finding_name(f: &Finding, lockfile: &Vec<LockedPlugin>, unmanaged: &Vec<String>) -> (r: String)
    ensures
        r@ == check_name(*f, lockfile@, unmanaged@),
{
    let mut out: Vec<char> = Vec::new();
    proof {
        assert(forall|s: Seq<char>| out@ + s =~= s);
    }
    match f {
        Finding::ManifestValid | Finding::ManifestMissing | Finding::ManifestInvalid => {
            crate::text::append_str(&mut out, "plugins.toml");
        },
        Finding::LockfileValid { .. } | Finding::LockfileMissing | Finding::LockfileInvalid => {
            crate::text::append_str(&mut out, "plugins.lock");
        },
        Finding::Unmanaged { file } => {
            crate::text::append_str(&mut out, "unmanaged:");
            crate::text::append_str(&mut out, stray_at(unmanaged, *file));
        },
        _ => {
            let plugin = match plugin_index(f) {
                Some(p) => p,
                None => 0,
            };
            crate::text::append_str(&mut out, "plugin:");
            crate::text::append_str(&mut out, name_at(lockfile, plugin));
        },
    }
    crate::text::string_of(&out)
}

/// What a finding says.
pub fn finding_message(f: &Finding, lockfile: &Vec<LockedPlugin>, unmanaged: &Vec<String>) -> (r: String)
    ensures
        r@ == check_message(*f, lockfile@, unmanaged@),
{
    let mut out: Vec<char> = Vec::new();
    proof {
        assert(forall|s: Seq<char>| out@ + s =~= s);
    }
    match f {
        Finding::ManifestValid => {
            crate::text::append_str(&mut out, "File exists and parses correctly");
        },
        Finding::LockfileValid { plugins } => {
            crate::text::append_str(&mut out, "File exists and parses correctly (");
            crate::text::append_chars(&mut out, &crate::numbers::u64_to_chars(*plugins as u64));
            crate::text::append_str(&mut out, " plugin(s))");
        },
        Finding::ManifestMissing | Finding::LockfileMissing => {
            crate::text::append_str(&mut out, "File not found");
        },
        Finding::ManifestInvalid | Finding::LockfileInvalid => {
            crate::text::append_str(&mut out, "File is invalid");
        },
        Finding::PluginOk { plugin } => {
            crate::text::append_str(&mut out, "All checks passed for '");
            crate::text::append_str(&mut out, file_at(lockfile, *plugin));
            crate::text::append_str(&mut out, "'");
        },
        Finding::PluginMissing { plugin } => {
            crate::text::append_str(&mut out, "File '");
            crate::text::append_str(&mut out, file_at(lockfile, *plugin));
            crate::text::append_str(&mut out, "' not found");
        },
        Finding::FilenameMismatch { plugin } => {
            crate::text::append_str(&mut out, "Filename mismatch: expected '");
            crate::text::append_str(&mut out, file_at(lockfile, *plugin));
            crate::text::append_str(&mut out, "'");
        },
        Finding::HashMismatch { plugin } => {
            crate::text::append_str(&mut out, "Hash mismatch for '");
            crate::text::append_str(&mut out, file_at(lockfile, *plugin));
            crate::text::append_str(&mut out, "'");
        },
        Finding::HashUnreadable { plugin, error } => {
            crate::text::append_str(&mut out, "Failed to parse hash: ");
            crate::text::append_str(&mut out, crate::messages::hash_error_message(*error));
        },
        Finding::FileUnreadable { plugin } => {
            crate::text::append_str(&mut out, "Failed to compute hash: '");
            crate::text::append_str(&mut out, file_at(lockfile, *plugin));
            crate::text::append_str(&mut out, "' cannot be read");
        },
        Finding::Unmanaged { file } => {
            crate::text::append_str(&mut out, "Unmanaged .jar file: '");
            crate::text::append_str(&mut out, stray_at(unmanaged, *file));
            crate::text::append_str(&mut out, "'");
        },
    }
    crate::text::string_of(&out)
}

fn line_for(f: &Finding, lockfile: &Vec<LockedPlugin>, unmanaged: &Vec<String>) -> (r: String)
    ensures
        r@ == finding_line(*f, lockfile@, unmanaged@),
{
    let mut out: Vec<char> = Vec::new();
    proof {
        assert(forall|s: Seq<char>| out@ + s =~= s);
    }
    match f.severity() {
        Severity::Healthy => {
            crate::text::append_str(&mut out, "  [ok] ");
        },
        Severity::Warning => {
            crate::text::append_str(&mut out, "  [warning] ");
        },
        Severity::Error => {
            crate::text::append_str(&mut out, "  [error] ");
        },
    }
    crate::text::append_str(&mut out, finding_name(f, lockfile, unmanaged).as_str());
    crate::text::append_str(&mut out, ": ");
    crate::text::append_str(&mut out, finding_message(f, lockfile, unmanaged).as_str());
    crate::text::string_of(&out)
}

/// The report in words: one line for each finding, then the summary. The
/// lines say what the report holds and nothing else.
pub fn output_human_readable(report: &DoctorReport, lockfile: &Vec<LockedPlugin>) -> (r: Vec<String>)
    ensures
        r@.len() == report.findings@.len() + 1,
        forall|i: int|
            0 <= i < report.findings@.len() ==> (#[trigger] r@[i])@ == finding_line(
                report.findings@[i],
                lockfile@,
                report.unmanaged@,
            ),
        r@[report.findings@.len() as int]@ == summary_line(
            report.ok,
            report.warnings,
            report.errors,
            report.status,
        ),
{
    let mut lines: Vec<String> = Vec::new();
    let mut i: usize = 0;
    while i < report.findings.len()
        invariant
            i <= report.findings.len(),
            lines@.len() == i,
            forall|k: int|
                0 <= k < i ==> (#[trigger] lines@[k])@ == finding_line(
                    report.findings@[k],
                    lockfile@,
                    report.unmanaged@,
                ),
        decreases report.findings.len() - i,
    {
        lines.push(line_for(&report.findings[i], lockfile, &report.unmanaged));
        i = i + 1;
    }
    let mut out: Vec<char> = Vec::new();
    proof {
        assert(forall|s: Seq<char>| out@ + s =~= s);
    }
    crate::text::append_str(&mut out, "Summary: ");
    crate::text::append_chars(&mut out, &crate::numbers::u64_to_chars(report.ok as u64));
    crate::text::append_str(&mut out, " passed, ");
    crate::text::append_chars(&mut out, &crate::numbers::u64_to_chars(report.warnings as u64));
    crate::text::append_str(&mut out, " warning(s), ");
    crate::text::append_chars(&mut out, &crate::numbers::u64_to_chars(report.errors as u64));
    crate::text::append_str(&mut out, " error(s); status: ");
    crate::text::append_str(&mut out, status_name(report.status));
    lines.push(crate::text::string_of(&out));
    lines
}

} // verus!
