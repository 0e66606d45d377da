//! Options and results of a processing run.

use vstd::prelude::*;
use crate::model::ProcessingAudit;

verus! {

/// How a run treats files.
#[derive(Clone, Copy, Debug)]
pub struct PipelineOptions {
    pub dry_run: bool,
    pub write: bool,
    pub recursive: bool,
}

/// The audit records of a run.
#[derive(Clone, Debug)]
pub struct PipelineReport {
    pub audits: Vec<ProcessingAudit>,
}

impl Default for PipelineOptions {
    fn default() -> (r: PipelineOptions)
        ensures
            !r.dry_run && !r.write && !r.recursive,
    {
        PipelineOptions { dry_run: false, write: false, recursive: false }
    }
}

impl Default for PipelineReport {
    fn default() -> (r: PipelineReport)
        ensures
            r.audits@.len() == 0,
    {
        PipelineReport { audits: Vec::new() }
    }
}

} // verus!
