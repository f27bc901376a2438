//! File-system paths as the pipeline carries them.
//!
//! A path is never taken apart here: it is handed from the directory walk to a
//! job, from the job to each match found in that file, and finally turned into
//! text for a report.

use std::path::PathBuf;
use vstd::prelude::*;

verus! {

#[verifier::external_type_specification]
#[verifier::external_body]
pub struct ExPathBuf(PathBuf);

/// The text that `Path::display` shows for a path.
pub uninterp spec fn path_text(path: PathBuf) -> Seq<char>;

/// `PathBuf::clone`: the copy is the same path.
#[verifier::external_body]
pub(crate) fn clone_path(path: &PathBuf) -> (copy: PathBuf)
    ensures
        copy == *path,
{
    path.clone()
}

/// `Path::display`, written out: the text of the path, with a replacement
/// character wherever the path is not Unicode. It depends on the path alone.
#[verifier::external_body]
pub(crate) fn display_path(path: &PathBuf) -> (text: String)
    ensures
        text@ == path_text(*path),
{
    format!("{}", path.display())
}

} // verus!
