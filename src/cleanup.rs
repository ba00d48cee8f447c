//! The deletion pass: the removals to perform for a selection of files, the
//! number of bytes they free, and the summary of the run.
use vstd::prelude::*;
use vstd::string::StringExecFns;
use crate::path::{FsPath, PathView, parent_spec};
use crate::tree::{CollectedFile, views};

verus! {

/// One filesystem action of the deletion pass.
pub enum CleanupStep {
    /// Remove this file.
    RemoveFile(FsPath),
    /// Walk upward from this directory, removing it and its ancestors while
    /// they are empty (see [`crate::prune::prune_step`]).
    PruneFrom(FsPath),
}

/// The view of a step: `true` for a file removal, and the path it acts on.
pub open spec fn step_view(s: CleanupStep) -> (bool, PathView) {
    match s {
        CleanupStep::RemoveFile(p) => (true, p@),
        CleanupStep::PruneFrom(p) => (false, p@),
    }
}

/// The actions of a plan, together with the bytes it reports as freed.
pub struct DeletionPlan {
    pub steps: Vec<CleanupStep>,
    pub freed: u64,
}

/// Total of the sizes of a selection.
pub open spec fn sum_sizes(files: Seq<(PathView, u64)>) -> int
    decreases files.len(),
{
    if files.len() == 0 {
        0
    } else {
        sum_sizes(files.drop_last()) + files.last().1
    }
}

/// The actions for one removed file: remove it, then prune from its parent.
pub open spec fn file_steps(f: (PathView, u64)) -> Seq<(bool, PathView)> {
    match parent_spec(f.0) {
        Some(p) => seq![(true, f.0), (false, p)],
        None => seq![(true, f.0)],
    }
}

/// The actions owed for a selection, in its order. A dry run acts on nothing.
pub open spec fn planned_steps(files: Seq<(PathView, u64)>, dry_run: bool) -> Seq<(bool, PathView)>
    decreases files.len(),
{
    if dry_run || files.len() == 0 {
        Seq::empty()
    } else {
        planned_steps(files.drop_last(), dry_run) + file_steps(files.last())
    }
}

/// The text that humansize renders for a byte count with its decimal
/// (SI, base 1000) options, such as `4.45 kB`.
pub uninterp spec fn decimal_size_text(bytes: u64) -> Seq<char>;

/// Relies on `humansize::format_size` with the `humansize::DECIMAL` options:
/// the text depends on the byte count alone.
#[verifier::external_body]
fn format_decimal(bytes: u64) -> (r: String)
    ensures
        r@ == decimal_size_text(bytes),
{
    humansize::format_size(bytes, humansize::DECIMAL)
}

/// Adds up the sizes of a selection; `None` where the total does not fit
/// in a `u64`.
pub fn total_size(files: &Vec<CollectedFile>) -> (r: Option<u64>)
    ensures
        match r {
            Some(t) => t == sum_sizes(views(files@)),
            None => sum_sizes(views(files@)) > u64::MAX,
        },
{
    let mut total: u64 = 0;
    let mut i: usize = 0;
    while i < files.len()
        invariant
            i <= files.len(),
            total == sum_sizes(views(files@.subrange(0, i as int))),
        decreases files.len() - i,
    {
        assert(views(files@.subrange(0, i + 1)).drop_last() =~= views(files@.subrange(0, i as int)));
        match total.checked_add(files[i].size) {
            None => {
                proof {
                    assert(views(files@).subrange(0, i + 1) =~= views(files@.subrange(0, i + 1)));
                    lemma_sum_grows(views(files@), i + 1);
                }
                return None;
            }
            Some(t) => {
                total = t;
            }
        }
        i = i + 1;
    }
    assert(files@.subrange(0, files.len() as int) =~= files@);
    Some(total)
}

proof fn lemma_sum_grows(s: Seq<(PathView, u64)>, n: int)
    requires
        0 <= n <= s.len(),
    ensures
        sum_sizes(s.subrange(0, n)) <= sum_sizes(s),
    decreases s.len() - n,
{
    if n < s.len() {
        assert(s.subrange(0, n + 1).drop_last() =~= s.subrange(0, n));
        lemma_sum_grows(s, n + 1);
    } else {
        assert(s.subrange(0, n) =~= s);
    }
}

/// Plans the deletion pass over `files`, in their order: for each file, its
/// removal followed by pruning from its parent directory; in a dry run, no
/// action at all. The bytes reported as freed are the total of the scanned
/// sizes, in a dry run as well. `None` where that total does not fit in a
/// `u64`.
pub fn plan_deletion(files: &Vec<CollectedFile>, dry_run: bool) -> (r: Option<DeletionPlan>)
    ensures
        match r {
            Some(plan) => {
                &&& plan.freed == sum_sizes(views(files@))
                &&& plan.steps@.map_values(|s: CleanupStep| step_view(s)) == planned_steps(
                    views(files@),
                    dry_run,
                )
            },
            None => sum_sizes(views(files@)) > u64::MAX,
        },
{
    let freed = match total_size(files) {
        None => return None,
        Some(t) => t,
    };
    let mut steps: Vec<CleanupStep> = Vec::new();
    if dry_run {
        assert(steps@.map_values(|s: CleanupStep| step_view(s)) =~= planned_steps(views(files@), dry_run));
        return Some(DeletionPlan { steps, freed });
    }
    let mut i: usize = 0;
    while i < files.len()
        invariant
            !dry_run,
            i <= files.len(),
            steps@.map_values(|s: CleanupStep| step_view(s)) == planned_steps(
                views(files@.subrange(0, i as int)),
                dry_run,
            ),
        decreases files.len() - i,
    {
        let ghost prefix = views(files@.subrange(0, i as int));
        let ghost prev = steps@;
        assert(views(files@.subrange(0, i + 1)).drop_last() =~= prefix);
        let f = &files[i];
        steps.push(CleanupStep::RemoveFile(f.path.duplicate()));
        match f.path.parent() {
            Some(dir) => {
                steps.push(CleanupStep::PruneFrom(dir));
            }
            None => {}
        }
        assert(steps@.map_values(|s: CleanupStep| step_view(s)) =~= prev.map_values(
            |s: CleanupStep| step_view(s),
        ) + file_steps(f@));
        i = i + 1;
    }
    assert(files@.subrange(0, files.len() as int) =~= files@);
    Some(DeletionPlan { steps, freed })
}

/// The summary line of a run: `Deleted <size>.`, with the size in decimal
/// units.
pub fn summary_message(freed: u64) -> (r: String)
    ensures
        r@ == "Deleted "@ + decimal_size_text(freed) + "."@,
{
    let mut text = String::from_str("Deleted ");
    let size = format_decimal(freed);
    text.append(size.as_str());
    text.append(".");
    text
}

} // verus!
