//! The scheduler-relevant configuration: how often externally synchronised
//! things are refreshed, in milliseconds.

use vstd::prelude::*;

verus! {

/// Default git refresh interval: three days, in milliseconds.
pub const DEFAULT_GIT_REFRESH_MILLIS: u64 = 259200000;

/// Default package refresh interval: one hour, in milliseconds.
pub const DEFAULT_PACKAGE_REFRESH_MILLIS: u64 = 3600000;

/// Return the default git refresh interval in milliseconds.
pub fn default_git_refresh() -> (r: u64)
    ensures
        r == DEFAULT_GIT_REFRESH_MILLIS,
{
    DEFAULT_GIT_REFRESH_MILLIS
}

/// Return the default package refresh interval in milliseconds.
pub fn default_package_refresh() -> (r: u64)
    ensures
        r == DEFAULT_PACKAGE_REFRESH_MILLIS,
{
    DEFAULT_PACKAGE_REFRESH_MILLIS
}

/// Configuration the run state needs: the refresh intervals.
#[derive(Debug, Clone, Copy, PartialEq, Eq, Structural)]
pub struct Config {
    /// The interval at which a git checkout is refreshed, in milliseconds.
    pub git_refresh: u64,
    /// The interval at which package state is refreshed, in milliseconds.
    pub package_refresh: u64,
}

impl Config {
    /// A configuration with explicit refresh intervals.
    pub fn new(git_refresh: u64, package_refresh: u64) -> (r: Self)
        ensures
            r.git_refresh == git_refresh,
            r.package_refresh == package_refresh,
    {
        Config { git_refresh, package_refresh }
    }
}

impl Default for Config {
    /// The default refresh intervals.
    fn default() -> (r: Self)
        ensures
            r.git_refresh == DEFAULT_GIT_REFRESH_MILLIS,
            r.package_refresh == DEFAULT_PACKAGE_REFRESH_MILLIS,
    {
        Config {
            git_refresh: DEFAULT_GIT_REFRESH_MILLIS,
            package_refresh: DEFAULT_PACKAGE_REFRESH_MILLIS,
        }
    }
}

} // verus!
