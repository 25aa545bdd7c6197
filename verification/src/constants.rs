//! Names and defaults that several modules share.

use vstd::prelude::*;

verus! {

/// The file that holds the manifest.
pub const MANIFEST_FILE: &'static str = "plugins.toml";

/// The file that holds the lockfile.
pub const LOCKFILE_FILE: &'static str = "plugins.lock";

/// The directory, below the configuration directory, that holds the plugins.
pub const PLUGINS_DIR: &'static str = "plugins";

/// The platform version of a manifest made without one.
pub const DEFAULT_MC_VERSION: &'static str = "1.21.11";

/// The source of a manifest entry made without one.
pub const DEFAULT_PLUGIN_SOURCE: &'static str = "modrinth";

/// The version of the layout of a health report. It changes only when the
/// layout changes in a way that breaks its readers.
pub const SCHEMA_VERSION: u32 = 1;

} // verus!
