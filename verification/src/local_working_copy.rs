//! The strategy that finds the target EOL of the files of a working copy.
use vstd::prelude::*;

use crate::eol::TargetEol;
use crate::git::{configured_auto_crlf, root_layers, GitTargetEolStrategy};

verus! {

/// Converts nothing.
#[derive(Clone, Copy, Debug)]
pub struct DefaultTargetEolStrategy;

impl DefaultTargetEolStrategy {
    /// The target EOL for a snapshot of any file.
    pub fn get_snapshot_reader_target_eol(&self) -> (res: TargetEol)
        ensures
            res == TargetEol::PassThrough,
    {
        TargetEol::PassThrough
    }

    /// The target EOL for an update of any file.
    pub fn get_update_writer_target_eol(&self) -> (res: TargetEol)
        ensures
            res == TargetEol::PassThrough,
    {
        TargetEol::PassThrough
    }
}

/// The strategy of a working copy.
#[derive(Debug)]
pub enum WorkingCopyStrategy {
    Git(GitTargetEolStrategy),
    Default(DefaultTargetEolStrategy),
}

/// The strategy for a store. A store that is backed by Git comes with Git's
/// configuration, and follows it.
pub fn get_target_eol_strategy(git_config: Option<&gix::config::File<'static>>) -> (res:
    WorkingCopyStrategy)
    ensures
        match git_config {
            Some(config) => res matches WorkingCopyStrategy::Git(strategy) && strategy.well_formed()
                && strategy.auto_crlf == configured_auto_crlf(*config)
                && strategy.git_attributes@ == root_layers(),
            None => res is Default,
        },
{
    if let Some(config) = git_config {
        return WorkingCopyStrategy::Git(GitTargetEolStrategy::new(config));
    }
    WorkingCopyStrategy::Default(DefaultTargetEolStrategy)
}

} // verus!
