//! Where the manifest, the lockfile and the plugins are kept.
//!
//! The directories come from the environment; reading it is left to the
//! caller, who hands in what was set.

use vstd::prelude::*;
use crate::constants::{LOCKFILE_FILE, MANIFEST_FILE, PLUGINS_DIR};
use crate::text::{append_str, chars_of, opt_text, same_text, string_of};

verus! {

/// The configuration directory: the one set, or the current directory.
pub open spec fn config_dir_of(set: Option<Seq<char>>) -> Seq<char> {
    match set {
        Some(dir) => dir,
        None => "."@,
    }
}

/// A file of the given name in the given directory. In the current
/// directory it is the bare name.
pub open spec fn path_in(dir: Seq<char>, file: Seq<char>) -> Seq<char> {
    if dir == "."@ {
        file
    } else {
        dir + "/"@ + file
    }
}

/// The configuration directory: the one set, or the current directory.
pub fn config_dir(set: Option<String>) -> (r: String)
    ensures
        r@ == config_dir_of(opt_text(set)),
{
    match set {
        Some(dir) => dir,
        None => ".".to_string(),
    }
}

/// The plugin directory: the one set, or `plugins` below the configuration
/// directory.
pub fn plugins_dir(set: Option<String>, config_dir: &str) -> (r: String)
    ensures
        r@ == (match opt_text(set) {
            Some(dir) => dir,
            None => config_dir@ + "/"@ + PLUGINS_DIR@,
        }),
{
    match set {
        Some(dir) => dir,
        None => {
            let mut out = chars_of(config_dir);
            append_str(&mut out, "/");
            append_str(&mut out, PLUGINS_DIR);
            string_of(&out)
        },
    }
}

fn file_in(dir: &str, file: &str) -> (r: String)
    ensures
        r@ == path_in(dir@, file@),
{
    if same_text(dir, ".") {
        file.to_string()
    } else {
        let mut out = chars_of(dir);
        append_str(&mut out, "/");
        append_str(&mut out, file);
        string_of(&out)
    }
}

/// The path of the manifest for a configuration directory.
pub fn manifest_path(config_dir: &str) -> (r: String)
    ensures
        r@ == path_in(config_dir@, MANIFEST_FILE@),
{
    file_in(config_dir, MANIFEST_FILE)
}

/// The path of the lockfile for a configuration directory.
pub fn lockfile_path(config_dir: &str) -> (r: String)
    ensures
        r@ == path_in(config_dir@, LOCKFILE_FILE@),
{
    file_in(config_dir, LOCKFILE_FILE)
}

} // verus!
