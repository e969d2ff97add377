//! The rows of the changed-file list: directory headers and files with their
//! change counts.

use vstd::prelude::*;

use crate::compile::{count_changes, total_additions, total_deletions};
use crate::diff::{CommitMetadata, DiffHunk, FileChange, FileStatus, dir_part, file_name};
use crate::text::{chars_of, string_from_chars};

verus! {

/// One row of the file list.
#[derive(Debug, Clone, PartialEq, Eq)]
pub enum TreeRow {
    /// A directory, before the files in it.
    Directory { path: String },
    /// A file: its position in the commit, its name, the marker of its
    /// status and its added and deleted lines.
    File { index: usize, name: String, marker: char, additions: usize, deletions: usize },
}

/// A row with its texts seen as character sequences.
pub enum RowView {
    Directory { path: Seq<char> },
    File { index: nat, name: Seq<char>, marker: char, additions: nat, deletions: nat },
}

impl View for TreeRow {
    type V = RowView;

    open spec fn view(&self) -> RowView {
        match self {
            TreeRow::Directory { path } => RowView::Directory { path: path@ },
            TreeRow::File { index, name, marker, additions, deletions } => RowView::File {
                index: *index as nat,
                name: name@,
                marker: *marker,
                additions: *additions as nat,
                deletions: *deletions as nat,
            },
        }
    }
}

/// The view of each row of `v`.
pub open spec fn row_views(v: Seq<TreeRow>) -> Seq<RowView>
    decreases v.len(),
{
    if v.len() == 0 {
        Seq::empty()
    } else {
        row_views(v.drop_last()).push(v.last()@)
    }
}

/// Appending a row appends its view.
pub broadcast proof fn lemma_row_views_push(s: Seq<TreeRow>, x: TreeRow)
    ensures
        #[trigger] row_views(s.push(x)) == row_views(s).push(x@),
{
    assert(s.push(x).drop_last() =~= s);
}

/// The marker shown before a file: `+` added, `-` deleted, `~` modified,
/// `>` renamed, a space otherwise.
pub open spec fn status_marker(s: FileStatus) -> char {
    match s {
        FileStatus::Added => '+',
        FileStatus::Deleted => '-',
        FileStatus::Modified => '~',
        FileStatus::Renamed => '>',
        _ => ' ',
    }
}

/// `v` capped at the largest `usize`.
pub open spec fn capped(v: nat) -> nat {
    if v > usize::MAX {
        usize::MAX as nat
    } else {
        v
    }
}

/// The row of file `i` of `changes`.
pub open spec fn file_row(changes: Seq<FileChange>, i: nat) -> RowView {
    let c = changes[i as int];
    RowView::File {
        index: i,
        name: file_name(c.path@),
        marker: status_marker(c.status),
        additions: capped(total_additions(c.hunks@)),
        deletions: capped(total_deletions(c.hunks@)),
    }
}

/// The rows for the files of `changes` taken in `order`: before each file
/// whose directory differs from the previous file's, a header for that
/// directory unless it is the top level.
pub open spec fn tree_rows(changes: Seq<FileChange>, order: Seq<usize>) -> Seq<RowView>
    decreases order.len(),
{
    if order.len() == 0 {
        Seq::empty()
    } else {
        let init = order.drop_last();
        let i = order.last() as nat;
        let dir = dir_part(changes[i as int].path@);
        let new_dir = init.len() == 0 || dir_part(changes[init.last() as int].path@) != dir;
        let header = if new_dir && dir.len() > 0 {
            seq![RowView::Directory { path: dir }]
        } else {
            Seq::empty()
        };
        tree_rows(changes, init) + header + seq![file_row(changes, i)]
    }
}

fn marker_of(s: FileStatus) -> (r: char)
    ensures
        r == status_marker(s),
{
    match s {
        FileStatus::Added => '+',
        FileStatus::Deleted => '-',
        FileStatus::Modified => '~',
        FileStatus::Renamed => '>',
        _ => ' ',
    }
}

/// Added and deleted lines over all of `hunks`, each capped at the largest
/// `usize`.
fn count_file_changes(hunks: &Vec<DiffHunk>) -> (r: (usize, usize))
    ensures
        r.0 == capped(total_additions(hunks@)),
        r.1 == capped(total_deletions(hunks@)),
{
    let mut a: usize = 0;
    let mut d: usize = 0;
    let mut k: usize = 0;
    while k < hunks.len()
        invariant
            k <= hunks@.len(),
            a == capped(total_additions(hunks@.take(k as int))),
            d == capped(total_deletions(hunks@.take(k as int))),
        decreases hunks@.len() - k,
    {
        proof {
            assert(hunks@.take(k + 1).drop_last() =~= hunks@.take(k as int));
        }
        let (x, y) = count_changes(&hunks[k].lines);
        a = a.saturating_add(x);
        d = d.saturating_add(y);
        k = k + 1;
    }
    proof {
        assert(hunks@.take(k as int) =~= hunks@);
    }
    (a, d)
}

/// The directory part and the file name of `p`, as strings.
fn path_parts(p: &str) -> (r: (String, String))
    ensures
        r.0@ == dir_part(p@),
        r.1@ == file_name(p@),
{
    let (d, n) = crate::diff::split_path(p);
    (string_from_chars(&d, 0, d.len()), string_from_chars(&n, 0, n.len()))
}

/// The rows of the file list for the files of `meta` taken in `order`
/// (the order of `sorted_file_indices`), as `tree_rows` states.
pub fn file_tree_rows(meta: &CommitMetadata, order: &Vec<usize>) -> (r: Vec<TreeRow>)
    requires
        forall|k: int| 0 <= k < order@.len() ==> order@[k] < meta.changes@.len(),
    ensures
        row_views(r@) == tree_rows(meta.changes@, order@),
{
    let mut rows: Vec<TreeRow> = Vec::new();
    let mut prev_dir: Vec<char> = Vec::new();
    let mut k: usize = 0;
    proof {
        assert(order@.take(0) =~= Seq::<usize>::empty());
    }
    while k < order.len()
        invariant
            k <= order@.len(),
            forall|q: int| 0 <= q < order@.len() ==> order@[q] < meta.changes@.len(),
            row_views(rows@) == tree_rows(meta.changes@, order@.take(k as int)),
            k > 0 ==> prev_dir@ == dir_part(meta.changes@[order@[k - 1] as int].path@),
        decreases order@.len() - k,
    {
        let i = order[k];
        let c = &meta.changes[i];
        let (dir, name) = path_parts(c.path.as_str());
        let dir_chars = chars_of(dir.as_str());
        let same = k > 0 && dir_chars.len() == prev_dir.len() && crate::diff::same_chars(&dir_chars, &prev_dir);
        let ghost init = order@.take(k as int);
        proof {
            assert(order@.take(k + 1).drop_last() =~= init);
            assert(order@.take(k + 1).last() == i);
            if k > 0 {
                assert(init.last() == order@[k - 1]);
            }
        }
        let ghost start = row_views(rows@);
        let ghost dv = dir@;
        let ghost header: Seq<RowView> = if !same && dir_chars@.len() > 0 {
            seq![RowView::Directory { path: dv }]
        } else {
            Seq::empty()
        };
        if !same && dir_chars.len() > 0 {
            let ghost b0 = rows@;
            rows.push(TreeRow::Directory { path: dir });
            proof {
                lemma_row_views_push(b0, TreeRow::Directory { path: dir });
                assert(row_views(rows@) =~= start + header);
            }
        } else {
            proof {
                assert(row_views(rows@) =~= start + header);
            }
        }
        let (additions, deletions) = count_file_changes(&c.hunks);
        let marker = marker_of(c.status);
        let ghost before = rows@;
        let ghost nv = name@;
        rows.push(TreeRow::File { index: i, name, marker, additions, deletions });
        proof {
            assert(meta.changes@[i as int] == *c);
            lemma_row_views_push(before, TreeRow::File { index: i, name: name, marker, additions, deletions });
            assert(row_views(rows@) == start + header + seq![file_row(meta.changes@, i as nat)]);
            assert(row_views(rows@) =~= tree_rows(meta.changes@, order@.take(k + 1)));
        }
        prev_dir = dir_chars;
        k = k + 1;
    }
    proof {
        assert(order@.take(k as int) =~= order@);
    }
    rows
}

} // verus!
