//! The table of worktrees for human readers.

use crate::interactive::{entry_records, entry_repos};
use crate::path::{relative_to, strip_base};
use crate::text::{
    align_columns, aligned, chars_of, join_strings, join_with, opt_str, string_of, texts_of,
};
use crate::worktree::{short_name, short_ref, Worktree, WorktreeView};
use vstd::prelude::*;
use vstd::string::*;

verus! {

/// The name under which a branch reference is shown: its short name, or
/// `(detached)` where there is none.
pub open spec fn shown_ref(reference: Option<Seq<char>>) -> Seq<char> {
    match reference {
        Some(r) => short_name(r),
        None => "(detached)"@,
    }
}

/// The name under which the branch reference `r` is shown.
pub fn pretty_ref(r: Option<&str>) -> (shown: String)
    ensures
        shown@ == shown_ref(opt_str(r)),
{
    match r {
        Some(reference) => {
            let full = chars_of(reference);
            string_of(short_ref(full.as_slice()))
        },
        None => "(detached)".to_owned(),
    }
}

/// The path as the table of one repository shows it: as seen from the root
/// of the repository where it lies at or below it, else whole.
pub open spec fn shown_path(repo_root: Seq<char>, path: Seq<char>) -> Seq<char> {
    match relative_to(path, repo_root) {
        Some(rest) => rest,
        None => path,
    }
}

/// The path `path` as the table of the repository at `repo_root` shows it.
pub fn display_path(repo_root: &str, path: &str) -> (r: String)
    ensures
        r@ == shown_path(repo_root@, path@),
{
    match strip_base(path, repo_root) {
        Some(rest) => rest,
        None => path.to_owned(),
    }
}

/// The note on a record that can be pruned: the word, and the reason where
/// one is given.
pub open spec fn prunable_note(reason: Seq<char>) -> Seq<char> {
    if reason.len() == 0 {
        "prunable"@
    } else {
        "prunable: "@ + reason
    }
}

/// The notes on a record, in the order locked, prunable, bare.
pub open spec fn flag_parts(w: WorktreeView) -> Seq<Seq<char>> {
    (if w.locked {
        seq!["locked"@]
    } else {
        Seq::empty()
    }) + (match w.prunable {
        Some(reason) => seq![prunable_note(reason)],
        None => Seq::empty(),
    }) + (if w.bare {
        seq!["bare"@]
    } else {
        Seq::empty()
    })
}

/// The notes on a record, with a comma and a space between each two.
pub open spec fn flags_text(w: WorktreeView) -> Seq<char> {
    join_with(flag_parts(w), ", "@)
}

/// The notes on `wt`: whether it is locked, can be pruned or is bare.
pub fn flags(wt: &Worktree) -> (r: String)
    ensures
        r@ == flags_text(wt@),
{
    let mut parts: Vec<String> = Vec::new();
    assert(texts_of(parts@) == Seq::<Seq<char>>::empty());
    if wt.locked {
        parts.push("locked".to_owned());
        assert(texts_of(parts@) == seq!["locked"@]);
    }
    let ghost first = texts_of(parts@);
    match &wt.prunable {
        Some(reason) => {
            if reason.as_str().unicode_len() == 0 {
                parts.push("prunable".to_owned());
            } else {
                let mut note = "prunable: ".to_owned();
                note.append(reason.as_str());
                parts.push(note);
            }
            assert(texts_of(parts@) == first + seq![prunable_note(reason@)]);
        },
        None => {
            assert(texts_of(parts@) == first + Seq::<Seq<char>>::empty());
        },
    }
    let ghost second = texts_of(parts@);
    if wt.bare {
        parts.push("bare".to_owned());
        assert(texts_of(parts@) == second + seq!["bare"@]);
    } else {
        assert(texts_of(parts@) == second + Seq::<Seq<char>>::empty());
    }
    join_strings(&parts, ", ")
}

/// The end of a row: the path, and the notes in square brackets where there
/// are any.
pub open spec fn row_tail(path: Seq<char>, notes: Seq<char>) -> Seq<char> {
    if notes.len() == 0 {
        path
    } else {
        path + "  ["@ + notes + "]"@
    }
}

/// The branch column of the table.
pub open spec fn branch_column(records: Seq<WorktreeView>) -> Seq<Seq<char>> {
    Seq::new(records.len(), |i: int| shown_ref(records[i].branch))
}

/// The ends of the rows of the table. In the table of one repository the
/// paths are seen from its root.
pub open spec fn tail_column(all: bool, repo_root: Seq<char>, records: Seq<WorktreeView>) -> Seq<
    Seq<char>,
> {
    Seq::new(
        records.len(),
        |i: int|
            row_tail(
                if all {
                    records[i].path
                } else {
                    shown_path(repo_root, records[i].path)
                },
                flags_text(records[i]),
            ),
    )
}

/// The rows of the table: branch, path and notes, and before them the
/// repository in the table of all repositories. The columns but the last are
/// padded to their widths.
pub open spec fn table(all: bool, repo_root: Seq<char>, entries: Seq<(String, Worktree)>) -> Seq<
    Seq<char>,
> {
    let records = entry_records(entries);
    let rows = aligned(branch_column(records), tail_column(all, repo_root, records));
    if all {
        aligned(entry_repos(entries), rows)
    } else {
        rows
    }
}

/// The table of worktrees, one row for each of `entries`, in their order.
/// `entries` pairs each worktree with the name of its repository; with `all`
/// the rows begin with that name, without it the paths are shown as seen
/// from `repo_root`.
pub fn list_worktrees(all: bool, repo_root: &str, entries: &Vec<(String, Worktree)>) -> (r: Vec<
    String,
>)
    ensures
        texts_of(r@) == table(all, repo_root@, entries@),
        r.len() == entries.len(),
{
    let mut repos: Vec<String> = Vec::new();
    let mut branches: Vec<String> = Vec::new();
    let mut tails: Vec<String> = Vec::new();
    let ghost records = entry_records(entries@);
    let mut i: usize = 0;
    while i < entries.len()
        invariant
            i <= entries.len(),
            records == entry_records(entries@),
            repos.len() == i,
            branches.len() == i,
            tails.len() == i,
            forall|j: int| 0 <= j < i ==> (#[trigger] repos@[j])@ == entries@[j].0@,
            forall|j: int| 0 <= j < i ==> (#[trigger] branches@[j])@ == shown_ref(records[j].branch),
            forall|j: int|
                0 <= j < i ==> (#[trigger] tails@[j])@ == tail_column(all, repo_root@, records)[j],
        decreases entries.len() - i,
    {
        let w = &entries[i].1;
        assert(w@ == records[i as int]);
        repos.push(entries[i].0.clone());
        let branch = match &w.branch {
            Some(b) => pretty_ref(Some(b.as_str())),
            None => pretty_ref(None),
        };
        branches.push(branch);
        let mut tail = if all {
            w.path.clone()
        } else {
            display_path(repo_root, w.path.as_str())
        };
        let notes = flags(w);
        if notes.as_str().unicode_len() > 0 {
            tail.append("  [");
            tail.append(notes.as_str());
            tail.append("]");
        }
        tails.push(tail);
        i += 1;
    }
    assert(texts_of(repos@) =~= entry_repos(entries@));
    assert(texts_of(branches@) =~= branch_column(records));
    assert(texts_of(tails@) =~= tail_column(all, repo_root@, records));
    let rows = align_columns(&branches, &tails);
    if all {
        align_columns(&repos, &rows)
    } else {
        rows
    }
}

} // verus!
