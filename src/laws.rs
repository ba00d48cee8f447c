//! Properties of the selection and of the deletion plan that hold for all
//! inputs.
use vstd::prelude::*;
use crate::cleanup::planned_steps;
use crate::path::PathView;
use crate::timestamp::{age_span, chosen_timestamp};
use crate::tree::{Entry, ScanError, level_selection, nested_selection, scan_outcome, tree_selection};

verus! {

/// The selection of a listing that holds one file: that file when its
/// timestamp is at or before the cutoff, nothing when it is later.
proof fn lemma_single_file(e: Entry, cutoff: int)
    requires
        !e.is_dir,
        chosen_timestamp(e.created, e.modified) is Some,
    ensures
        tree_selection(seq![e], cutoff) == Some(
            if chosen_timestamp(e.created, e.modified)->0 <= cutoff {
                seq![(e.path@, e.size)]
            } else {
                Seq::<(PathView, u64)>::empty()
            },
        ),
{
    let es = seq![e];
    let none = Seq::<(PathView, u64)>::empty();
    assert(es.subrange(0, 0) =~= Seq::<Entry>::empty());
    assert(level_selection(Seq::<Entry>::empty(), cutoff) == Some(none));
    assert(nested_selection(Seq::<Entry>::empty(), cutoff) == Some(none));
    assert(nested_selection(es, cutoff) == Some(none));
    assert(none.push((e.path@, e.size)) =~= seq![(e.path@, e.size)]);
    assert(none + none =~= none);
    assert(seq![(e.path@, e.size)] + none =~= seq![(e.path@, e.size)]);
}

/// The age boundary is inclusive: a file whose timestamp is exactly `age_days`
/// days before `now` is selected, and one a second younger is not.
pub proof fn lemma_age_boundary(e: Entry, now: nat, age_days: nat)
    requires
        !e.is_dir,
        age_span(age_days) <= now,
        chosen_timestamp(e.created, e.modified) is Some,
    ensures
        chosen_timestamp(e.created, e.modified)->0 == now - age_span(age_days) ==> scan_outcome(
            seq![e],
            now,
            age_days,
        ) == Ok::<Seq<(PathView, u64)>, ScanError>(seq![(e.path@, e.size)]),
        chosen_timestamp(e.created, e.modified)->0 == now - age_span(age_days) + 1_000_000_000
            ==> scan_outcome(seq![e], now, age_days) == Ok::<Seq<(PathView, u64)>, ScanError>(
            Seq::empty(),
        ),
{
    lemma_single_file(e, now - age_span(age_days));
}

/// A file without a creation time is judged by its modification time: when
/// that is at or before the cutoff, the file is selected.
pub proof fn lemma_modification_time_fallback(e: Entry, cutoff: int)
    requires
        !e.is_dir,
        e.created is None,
        e.modified is Some,
        e.modified->0 <= cutoff,
    ensures
        tree_selection(seq![e], cutoff) == Some(seq![(e.path@, e.size)]),
{
    lemma_single_file(e, cutoff);
}

/// A file younger than the cutoff changes nothing: adding it to a directory
/// listing leaves the selection of that directory as it was.
pub proof fn lemma_young_file_ignored(es: Seq<Entry>, f: Entry, cutoff: int)
    requires
        !f.is_dir,
        chosen_timestamp(f.created, f.modified) is Some,
        chosen_timestamp(f.created, f.modified)->0 > cutoff,
    ensures
        tree_selection(es.push(f), cutoff) == tree_selection(es, cutoff),
{
    let more = es.push(f);
    assert(more.subrange(0, more.len() - 1) =~= es);
    assert(level_selection(more, cutoff) == level_selection(es, cutoff));
    assert(nested_selection(more, cutoff) == nested_selection(es, cutoff));
}

/// A dry run plans no filesystem action, whatever was selected: the tree
/// is left as it was scanned, so scanning it again selects the same files
/// and reports the same total.
pub proof fn lemma_dry_run_acts_on_nothing(entries: Seq<Entry>, now: nat, age_days: nat)
    ensures
        match scan_outcome(entries, now, age_days) {
            Ok(s) => planned_steps(s, true) == Seq::<(bool, PathView)>::empty(),
            Err(_) => true,
        },
{
}

} // verus!
