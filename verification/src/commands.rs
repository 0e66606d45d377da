//! The single-file commands' arguments and the decisions of tagging one
//! file.

use vstd::prelude::*;
use crate::batch::BatchArgs;
use crate::paths::{destination_path, destination_path_of};

verus! {

/// Arguments of `scan`.
#[derive(Clone, Debug)]
pub struct ScanArgs {
    pub path: String,
    pub recursive: bool,
}

/// Arguments of `recognize`.
#[derive(Clone, Debug)]
pub struct RecognizeArgs {
    pub path: String,
}

/// Arguments of `lookup`.
#[derive(Clone, Debug)]
pub struct LookupArgs {
    pub path: String,
}

/// Arguments of `tag`.
#[derive(Clone, Debug)]
pub struct TagArgs {
    pub path: String,
    pub dry_run: bool,
    pub write: bool,
    pub output: Option<String>,
}

/// Files are changed only when writing was asked for and a dry run was not.
pub open spec fn writes_files(args: TagArgs) -> bool {
    args.write && !args.dry_run
}

/// Whether tagging writes files.
pub fn should_write(args: &TagArgs) -> (r: bool)
    ensures
        r == writes_files(*args),
{
    args.write && !args.dry_run
}

/// The file tags are written to: a copy in the output directory when one
/// is given, else the input file itself.
pub open spec fn tag_target_of(args: TagArgs) -> Seq<char> {
    match args.output {
        Some(dir) => destination_path_of(dir@, args.path@),
        None => args.path@,
    }
}

/// The file tags are written to.
pub fn tag_target(args: &TagArgs) -> (r: String)
    ensures
        r@ == tag_target_of(*args),
{
    match &args.output {
        Some(dir) => destination_path(dir.as_str(), args.path.as_str()),
        None => args.path.clone(),
    }
}

/// How a batch run tags one of its files: the same dry-run and write
/// settings, into the batch's output directory.
pub open spec fn batch_tag_args_of(path: String, args: BatchArgs) -> TagArgs {
    TagArgs { path, dry_run: args.dry_run, write: args.write, output: Some(args.output) }
}

/// The arguments a batch run tags one of its files with.
pub fn batch_tag_args(path: String, args: &BatchArgs) -> (r: TagArgs)
    ensures
        r == batch_tag_args_of(path, *args),
        r.path == path,
        r.dry_run == args.dry_run,
        r.write == args.write,
        r.output == Some(args.output),
{
    TagArgs { path, dry_run: args.dry_run, write: args.write, output: Some(args.output.clone()) }
}


/// A dry run never changes a file. A batch run writes only when asked to
/// write and not to dry-run, and then into the copy of each file in the
/// destination folder, named like the file.
pub proof fn lemma_batch_writes_only_copies(path: String, args: BatchArgs)
    ensures
        writes_files(batch_tag_args_of(path, args)) == (args.write && !args.dry_run),
        tag_target_of(batch_tag_args_of(path, args)) == destination_path_of(args.output@, path@),
        forall|t: TagArgs| t.dry_run ==> !writes_files(t),
{
}

} // verus!
