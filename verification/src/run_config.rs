//! What the editor is started with.

use crate::path::AbsolutePath;
use vstd::prelude::*;

verus! {

/// What the editor is started with.
pub struct RunConfig {
    /// The file or directory that is opened first.
    pub entry_path: Option<AbsolutePath>,
    /// Where the editor runs, if not where it was started.
    pub working_directory: Option<AbsolutePath>,
}

impl Default for RunConfig {
    fn default() -> (config: RunConfig)
        ensures
            config.entry_path is None,
            config.working_directory is None,
    {
        RunConfig { entry_path: None, working_directory: None }
    }
}

impl RunConfig {
    /// Where the editor runs. `started_in` is where it was started.
    pub fn directory(self, started_in: AbsolutePath) -> (directory: AbsolutePath)
        ensures
            directory@ == (match self.working_directory {
                Some(directory) => directory@,
                None => started_in@,
            }),
    {
        match self.working_directory {
            Some(directory) => directory,
            None => started_in,
        }
    }
}

} // verus!
