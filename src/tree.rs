//! The tree collector: which files of a directory tree are old enough to
//! be removed.
use vstd::prelude::*;
use crate::path::{FsPath, PathView};
use crate::timestamp::{chosen_timestamp, cutoff_spec, cutoff_instant, entry_timestamp, is_old_enough};

verus! {

/// One child of a directory, as its metadata showed it when it was read.
/// Timestamps are nanoseconds since the Unix epoch; `children` is the
/// listing of a directory and is not read for a file.
pub struct Entry {
    pub path: FsPath,
    pub is_dir: bool,
    pub size: u64,
    pub created: Option<u128>,
    pub modified: Option<u128>,
    pub children: Vec<Entry>,
}

/// A file chosen for removal, with the size it had when it was scanned.
pub struct CollectedFile {
    pub path: FsPath,
    pub size: u64,
}

impl View for CollectedFile {
    type V = (PathView, u64);

    open spec fn view(&self) -> (PathView, u64) {
        (self.path@, self.size)
    }
}

/// Why a scan of a tree produced no selection.
#[derive(PartialEq, Eq, Structural, Debug, Clone, Copy)]
pub enum ScanError {
    /// The cutoff instant would lie before the Unix epoch.
    CutoffBeforeEpoch,
    /// A file has neither a creation nor a modification time.
    MissingTimestamp,
}

/// The views of a sequence of collected files.
pub open spec fn views(s: Seq<CollectedFile>) -> Seq<(PathView, u64)> {
    s.map_values(|c: CollectedFile| c@)
}

/// Both parts when both are there, concatenated.
pub open spec fn join(a: Option<Seq<(PathView, u64)>>, b: Option<Seq<(PathView, u64)>>) -> Option<
    Seq<(PathView, u64)>,
> {
    match (a, b) {
        (Some(x), Some(y)) => Some(x + y),
        _ => None,
    }
}

/// The files listed directly in `es` whose timestamp is at or before
/// `cutoff`, in listing order; `None` where one of those files has no
/// timestamp at all.
pub open spec fn level_selection(es: Seq<Entry>, cutoff: int) -> Option<Seq<(PathView, u64)>>
    decreases es.len(),
{
    if es.len() == 0 {
        Some(Seq::empty())
    } else {
        let e = es.last();
        let init = level_selection(es.subrange(0, es.len() - 1), cutoff);
        if e.is_dir {
            init
        } else {
            match chosen_timestamp(e.created, e.modified) {
                None => None,
                Some(t) => match init {
                    None => None,
                    Some(s) => Some(
                        if t <= cutoff {
                            s.push((e.path@, e.size))
                        } else {
                            s
                        },
                    ),
                },
            }
        }
    }
}

/// The selection of every sub-directory listed in `es`, in listing order.
pub open spec fn nested_selection(es: Seq<Entry>, cutoff: int) -> Option<Seq<(PathView, u64)>>
    decreases es, 0int,
{
    if es.len() == 0 {
        Some(Seq::empty())
    } else {
        let e = es.last();
        let init = nested_selection(es.subrange(0, es.len() - 1), cutoff);
        if e.is_dir {
            join(init, tree_selection(e.children@, cutoff))
        } else {
            init
        }
    }
}

/// The selection of a whole directory with listing `es`: the old files
/// listed directly in it, followed by the selection of its sub-directories.
pub open spec fn tree_selection(es: Seq<Entry>, cutoff: int) -> Option<Seq<(PathView, u64)>>
    decreases es, 1int,
{
    join(level_selection(es, cutoff), nested_selection(es, cutoff))
}

proof fn lemma_join_none(a: Option<Seq<(PathView, u64)>>, b: Option<Seq<(PathView, u64)>>)
    ensures
        a is None ==> join(a, b) is None,
        b is None ==> join(a, b) is None,
{
}

proof fn lemma_level_none_persists(es: Seq<Entry>, n: int, cutoff: int)
    requires
        0 <= n <= es.len(),
        level_selection(es.subrange(0, n), cutoff) is None,
    ensures
        level_selection(es, cutoff) is None,
    decreases es.len() - n,
{
    if n < es.len() {
        assert(es.subrange(0, n + 1).subrange(0, n) =~= es.subrange(0, n));
        lemma_level_none_persists(es, n + 1, cutoff);
    } else {
        assert(es.subrange(0, n) =~= es);
    }
}

proof fn lemma_nested_none_persists(es: Seq<Entry>, n: int, cutoff: int)
    requires
        0 <= n <= es.len(),
        nested_selection(es.subrange(0, n), cutoff) is None,
    ensures
        nested_selection(es, cutoff) is None,
    decreases es.len() - n,
{
    if n < es.len() {
        assert(es.subrange(0, n + 1).subrange(0, n) =~= es.subrange(0, n));
        lemma_nested_none_persists(es, n + 1, cutoff);
    } else {
        assert(es.subrange(0, n) =~= es);
    }
}

/// Collects, from the directory listed by `entries`, the files that are old
/// enough: first those listed directly, then those of each sub-directory.
pub fn collect_entries(entries: &Vec<Entry>, cutoff: u128) -> (r: Option<Vec<CollectedFile>>)
    ensures
        match r {
            Some(v) => tree_selection(entries@, cutoff as int) == Some(views(v@)),
            None => tree_selection(entries@, cutoff as int) is None,
        },
    decreases entries@, 1int,
{
    let mut found: Vec<CollectedFile> = Vec::new();
    let mut i: usize = 0;
    while i < entries.len()
        invariant
            i <= entries.len(),
            level_selection(entries@.subrange(0, i as int), cutoff as int) == Some(views(found@)),
        decreases entries.len() - i,
    {
        let e = &entries[i];
        assert(entries@.subrange(0, i + 1).subrange(0, i as int) =~= entries@.subrange(0, i as int));
        if !e.is_dir {
            match entry_timestamp(e.created, e.modified) {
                None => {
                    proof {
                        lemma_level_none_persists(entries@, i + 1, cutoff as int);
                        lemma_join_none(level_selection(entries@, cutoff as int), nested_selection(entries@, cutoff as int));
                    }
                    return None;
                }
                Some(t) => {
                    if is_old_enough(t, cutoff) {
                        let item = CollectedFile { path: e.path.duplicate(), size: e.size };
                        let ghost prev = found@;
                        found.push(item);
                        assert(views(found@) =~= views(prev).push(item@));
                    }
                }
            }
        }
        i = i + 1;
    }
    assert(entries@.subrange(0, entries.len() as int) =~= entries@);
    let nested = collect_nested(entries, cutoff);
    match nested {
        None => {
            proof {
                lemma_join_none(level_selection(entries@, cutoff as int), nested_selection(entries@, cutoff as int));
            }
            None
        }
        Some(mut more) => {
            let ghost before = found@;
            let ghost added = more@;
            found.append(&mut more);
            assert(views(found@) =~= views(before) + views(added));
            Some(found)
        }
    }
}

/// Collects the selections of the sub-directories listed by `entries`, in
/// listing order.
pub fn collect_nested(entries: &Vec<Entry>, cutoff: u128) -> (r: Option<Vec<CollectedFile>>)
    ensures
        match r {
            Some(v) => nested_selection(entries@, cutoff as int) == Some(views(v@)),
            None => nested_selection(entries@, cutoff as int) is None,
        },
    decreases entries@, 0int,
{
    let mut found: Vec<CollectedFile> = Vec::new();
    let mut i: usize = 0;
    while i < entries.len()
        invariant
            i <= entries.len(),
            nested_selection(entries@.subrange(0, i as int), cutoff as int) == Some(views(found@)),
        decreases entries.len() - i,
    {
        let e = &entries[i];
        assert(entries@.subrange(0, i + 1).subrange(0, i as int) =~= entries@.subrange(0, i as int));
        if e.is_dir {
            assert(decreases_to!(entries@ => entries@[i as int].children@));
            match collect_entries(&e.children, cutoff) {
                None => {
                    proof {
                        lemma_nested_none_persists(entries@, i + 1, cutoff as int);
                    }
                    return None;
                }
                Some(mut more) => {
                    let ghost before = found@;
                    let ghost added = more@;
                    found.append(&mut more);
                    assert(views(found@) =~= views(before) + views(added));
                }
            }
        }
        i = i + 1;
    }
    assert(entries@.subrange(0, entries.len() as int) =~= entries@);
    Some(found)
}

} // verus!

verus! {

/// The outcome that [`find_files_to_delete`] owes for a root listing, the
/// current instant and an age in days.
pub open spec fn scan_outcome(entries: Seq<Entry>, now: nat, age_days: nat) -> Result<
    Seq<(PathView, u64)>,
    ScanError,
> {
    match cutoff_spec(now, age_days) {
        None => Err(ScanError::CutoffBeforeEpoch),
        Some(c) => match tree_selection(entries, c) {
            None => Err(ScanError::MissingTimestamp),
            Some(s) => Ok(s),
        },
    }
}

/// Selects, in the tree whose root directory is listed by `entries`, every
/// file whose creation (else modification) time is at least `age_days`
/// days before `now`. The cutoff is computed once, for the whole tree.
pub fn find_files_to_delete(entries: &Vec<Entry>, now: u128, age_days: u64) -> (r: Result<
    Vec<CollectedFile>,
    ScanError,
>)
    ensures
        match r {
            Ok(v) => scan_outcome(entries@, now as nat, age_days as nat) == Ok::<
                Seq<(PathView, u64)>,
                ScanError,
            >(views(v@)),
            Err(e) => scan_outcome(entries@, now as nat, age_days as nat) == Err::<
                Seq<(PathView, u64)>,
                ScanError,
            >(e),
        },
{
    match cutoff_instant(now, age_days) {
        None => Err(ScanError::CutoffBeforeEpoch),
        Some(cutoff) => match collect_entries(entries, cutoff) {
            None => Err(ScanError::MissingTimestamp),
            Some(v) => Ok(v),
        },
    }
}

} // verus!
