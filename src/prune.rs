//! The empty-directory pruner: after a file is removed, its now-empty
//! ancestors are removed one by one, up to but never including the root of
//! the traversal.
use vstd::prelude::*;
use crate::path::{FsPath, parent_spec};

verus! {

/// What to do with one directory of the upward walk.
pub enum PruneStep {
    /// Leave the directory in place; the walk ends here.
    Stop,
    /// Remove the directory, then look at `next`, its parent, if it has one.
    Remove { next: Option<FsPath> },
}

/// Decides the fate of `dir` during the upward walk that starts from the
/// parent of a removed file. `dir_is_empty` tells whether listing `dir`
/// gave no entry (a listing that failed counts as not empty). The directory
/// is removed exactly when it is empty and is not `root`.
pub fn prune_step(root: &FsPath, dir: &FsPath, dir_is_empty: bool) -> (r: PruneStep)
    ensures
        match r {
            PruneStep::Stop => !dir_is_empty || dir@ == root@,
            PruneStep::Remove { next } => {
                &&& dir_is_empty
                &&& dir@ != root@
                &&& match next {
                    Some(p) => parent_spec(dir@) == Some(p@),
                    None => parent_spec(dir@) is None,
                }
            },
        },
{
    if dir_is_empty && !dir.same_as(root) {
        PruneStep::Remove { next: dir.parent() }
    } else {
        PruneStep::Stop
    }
}

} // verus!
