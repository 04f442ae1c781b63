//! Expansion of a root path into the list of files to scan.
//!
//! The caller walks the filesystem and hands the result in as a `DirTree` of
//! plain path strings: a non-directory entry is a leaf target, a directory
//! holds its entries in listing order. `collect_targets` turns such a tree
//! into the flat list of target paths: a file root stands for itself, and a
//! directory contributes every descendant file, in depth-first listing order.

use vstd::prelude::*;

verus! {

/// One node of a directory listing: a non-directory entry (a regular file,
/// symlink or device, taken as a leaf target without further inspection), or
/// a directory with the entries it holds, in listing order.
pub enum DirTree {
    File { path: String },
    Dir { entries: Vec<DirTree> },
}

/// The paths `collect_targets` reports for a tree, in order.
pub open spec fn target_paths(t: DirTree) -> Seq<Seq<char>>
    decreases t,
{
    match t {
        DirTree::File { path } => seq![path@],
        DirTree::Dir { entries } => target_paths_seq(entries@),
    }
}

/// The paths reported for a run of sibling entries, in order.
pub open spec fn target_paths_seq(ts: Seq<DirTree>) -> Seq<Seq<char>>
    decreases ts,
{
    if ts.len() == 0 {
        Seq::empty()
    } else {
        target_paths(ts[0]) + target_paths_seq(ts.drop_first())
    }
}

/// How many non-directory entries a tree holds, at any nesting depth.
pub open spec fn file_count(t: DirTree) -> nat
    decreases t,
{
    match t {
        DirTree::File { .. } => 1,
        DirTree::Dir { entries } => file_count_seq(entries@),
    }
}

/// How many non-directory entries a run of sibling entries holds.
pub open spec fn file_count_seq(ts: Seq<DirTree>) -> nat
    decreases ts,
{
    if ts.len() == 0 {
        0
    } else {
        file_count(ts[0]) + file_count_seq(ts.drop_first())
    }
}

/// A tree yields one target path per non-directory entry, however deeply the
/// entries are nested: directories themselves, nested or empty, contribute
/// nothing but their contents.
pub proof fn lemma_target_count(t: DirTree)
    ensures
        target_paths(t).len() == file_count(t),
    decreases t,
{
    match t {
        DirTree::File { .. } => {},
        DirTree::Dir { entries } => {
            lemma_target_count_seq(entries@);
        },
    }
}

/// The run of sibling entries yields one target path per non-directory entry.
pub proof fn lemma_target_count_seq(ts: Seq<DirTree>)
    ensures
        target_paths_seq(ts).len() == file_count_seq(ts),
    decreases ts,
{
    if ts.len() > 0 {
        lemma_target_count(ts[0]);
        lemma_target_count_seq(ts.drop_first());
    }
}

/// Flattens a tree into the ordered list of target paths it stands for.
pub fn collect_targets(tree: &DirTree) -> (r: Vec<String>)
    ensures
        r@.map_values(|p: String| p@) == target_paths(*tree),
    decreases *tree, 0int,
{
    match tree {
        DirTree::File { path } => {
            let mut r: Vec<String> = Vec::new();
            r.push(path.clone());
            proof {
                assert(r@.map_values(|p: String| p@) =~= target_paths(*tree));
            }
            r
        },
        DirTree::Dir { entries } => {
            let r = collect_entry_targets(entries, 0);
            proof {
                assert(entries@.skip(0) =~= entries@);
            }
            r
        },
    }
}

/// Flattens the sibling entries from position `i` on.
fn collect_entry_targets(entries: &Vec<DirTree>, i: usize) -> (r: Vec<String>)
    requires
        i <= entries@.len(),
    ensures
        r@.map_values(|p: String| p@) == target_paths_seq(entries@.skip(i as int)),
    decreases entries@, entries@.len() - i,
{
    if i == entries.len() {
        let r: Vec<String> = Vec::new();
        proof {
            assert(r@.map_values(|p: String| p@) =~= target_paths_seq(
                entries@.skip(i as int),
            ));
        }
        r
    } else {
        let mut first = collect_targets(&entries[i]);
        let mut rest = collect_entry_targets(entries, i + 1);
        proof {
            assert(entries@.skip(i as int).drop_first() =~= entries@.skip(i + 1));
            assert(entries@.skip(i as int)[0] == entries@[i as int]);
        }
        let ghost first_view = first@;
        let ghost rest_view = rest@;
        first.append(&mut rest);
        proof {
            assert(first@.map_values(|p: String| p@) =~= first_view.map_values(
                |p: String| p@,
            ) + rest_view.map_values(|p: String| p@));
        }
        first
    }
}

} // verus!
