//! Working-tree status entries, and their partition into staged and
//! unstaged change lists.

use vstd::prelude::*;

verus! {

/// What the version-control layer reports of one path: the path, and which
/// status flags are set on it.
#[derive(Debug, Clone)]
pub struct StatusEntry {
    pub path: String,
    pub index_new: bool,
    pub index_modified: bool,
    pub index_deleted: bool,
    pub wt_new: bool,
    pub wt_modified: bool,
    pub wt_deleted: bool,
}

/// Whether the entry records a staged change.
pub open spec fn is_staged_change(e: StatusEntry) -> bool {
    e.index_new || e.index_modified || e.index_deleted
}

/// Whether the entry records an unstaged change.
pub open spec fn is_unstaged_change(e: StatusEntry) -> bool {
    e.wt_new || e.wt_modified || e.wt_deleted
}

/// The paths of the staged changes, in order.
pub open spec fn spec_staged_paths(es: Seq<StatusEntry>) -> Seq<Seq<char>>
    decreases es.len(),
{
    if es.len() == 0 {
        Seq::empty()
    } else {
        let init = spec_staged_paths(es.drop_last());
        if is_staged_change(es.last()) {
            init.push(es.last().path@)
        } else {
            init
        }
    }
}

/// The paths of the unstaged changes, in order.
pub open spec fn spec_unstaged_paths(es: Seq<StatusEntry>) -> Seq<Seq<char>>
    decreases es.len(),
{
    if es.len() == 0 {
        Seq::empty()
    } else {
        let init = spec_unstaged_paths(es.drop_last());
        if is_unstaged_change(es.last()) {
            init.push(es.last().path@)
        } else {
            init
        }
    }
}

/// Partition the status entries into the staged and the unstaged change
/// paths, both in traversal order. A path under both kinds of change appears
/// in both lists.
pub fn get_change_groups(statuses: &Vec<StatusEntry>) -> (r: (Vec<String>, Vec<String>))
    ensures
        r.0.deep_view() == spec_staged_paths(statuses@),
        r.1.deep_view() == spec_unstaged_paths(statuses@),
{
    let mut staged: Vec<String> = Vec::new();
    let mut unstaged: Vec<String> = Vec::new();
    let mut i: usize = 0;
    proof {
        assert(staged.deep_view() =~= spec_staged_paths(statuses@.take(0)));
        assert(unstaged.deep_view() =~= spec_unstaged_paths(statuses@.take(0)));
    }
    while i < statuses.len()
        invariant
            0 <= i <= statuses@.len(),
            staged.deep_view() == spec_staged_paths(statuses@.take(i as int)),
            unstaged.deep_view() == spec_unstaged_paths(statuses@.take(i as int)),
        decreases statuses@.len() - i,
    {
        proof {
            assert(statuses@.take(i + 1 as int).drop_last() =~= statuses@.take(i as int));
        }
        let e = &statuses[i];
        if e.index_new || e.index_modified || e.index_deleted {
            let ghost old_deep = staged.deep_view();
            staged.push(e.path.clone());
            proof {
                assert(staged.deep_view() =~= old_deep.push(e.path@));
            }
        }
        if e.wt_new || e.wt_modified || e.wt_deleted {
            let ghost old_deep = unstaged.deep_view();
            unstaged.push(e.path.clone());
            proof {
                assert(unstaged.deep_view() =~= old_deep.push(e.path@));
            }
        }
        i = i + 1;
    }
    proof {
        assert(statuses@.take(statuses@.len() as int) =~= statuses@);
    }
    (staged, unstaged)
}

} // verus!
