//! The run's options, as plain data, and the decisions made from them.
//! Parsing a command line into them is the caller's business.

use vstd::prelude::*;

use vstd::string::StringExecFns;

verus! {

/// An error raised when no configuration root can be determined.
#[derive(Debug, Clone, Copy, PartialEq, Eq, Structural)]
pub struct NoRootError;

/// Options that steer a run.
#[derive(Debug, Clone, PartialEq, Eq, Default)]
pub struct Opts {
    /// Run using the given path as a configuration root.
    pub root: Option<String>,
    /// Initialize against the given repository.
    pub init: Option<String>,
    /// Print the paths used and exit.
    pub paths: bool,
    /// When updating configuration, force the update.
    pub force: bool,
    /// Enable debug logging.
    pub debug: bool,
    /// Force to run in non-interactive mode.
    pub non_interactive: bool,
    /// Only run if there are updates.
    pub updates_only: bool,
}

impl Opts {
    /// Find the root directory: an explicit root wins, otherwise the
    /// configuration directory gets a `quickcfg` entry; with neither there
    /// is no root.
    pub fn root(&self, config_dir: Option<&str>) -> (r: Result<String, NoRootError>)
        ensures
            match self.root {
                Some(root) => (r matches Ok(v) && v@ == root@),
                None => match config_dir {
                    Some(dir) => (r matches Ok(v) && v@ == dir@ + "/quickcfg"@),
                    None => r is Err,
                },
            },
    {
        match &self.root {
            Some(root) => Ok(root.clone()),
            None => match config_dir {
                Some(dir) => {
                    let suffix: &str = "/quickcfg";
                    Ok(dir.to_owned().concat(suffix))
                },
                None => Err(NoRootError),
            },
        }
    }
}

} // verus!
