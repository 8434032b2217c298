//! What is shown of one worktree: its repository and branch, its status, its
//! recent commits and its changed files, from what the tool answered.

use crate::list::{pretty_ref, shown_ref};
use crate::path::{file_name, file_name_of, same_path, same_path_chars};
use crate::text::{
    chars_of, cut_space, cut_trailing_space, lines, push_line, push_lines, slice_texts,
    split_lines, string_of, strings_of, texts_of, trim, trim_end,
};
use crate::worktree::{records_view, Worktree, WorktreeView};
use vstd::prelude::*;
use vstd::string::*;

verus! {

/// The state of a worktree in two facts.
#[derive(Debug, Clone, PartialEq, Eq)]
pub struct StatusInfo {
    /// The first line of the status, which names the branch.
    pub branch_line: String,
    /// Whether the worktree holds changes.
    pub dirty: bool,
}

/// What is shown of a worktree, for machine readers.
#[derive(Debug, Clone, PartialEq, Eq)]
pub struct PreviewOutput {
    pub repo: String,
    pub branch: String,
    pub path: String,
    pub status: StatusInfo,
    pub recent_commits: Vec<String>,
    pub changed_files: Vec<String>,
}

/// What the tool said, or `fallback` where it failed.
pub open spec fn answer_or(answer: Option<&str>, fallback: Seq<char>) -> Seq<char> {
    match answer {
        Some(text) => text@,
        None => fallback,
    }
}

/// What the tool said, or `fallback` where it failed.
fn text_or(answer: Option<&str>, fallback: &str) -> (r: String)
    ensures
        r@ == answer_or(answer, fallback@),
{
    match answer {
        Some(text) => text.to_owned(),
        None => fallback.to_owned(),
    }
}

/// The name of the repository at `root`: the last component of the path, or
/// the path itself where it ends in none.
pub open spec fn repo_title(root: Seq<char>) -> Seq<char> {
    match file_name(root) {
        Some(name) => name,
        None => root,
    }
}

/// The index of the first record whose path is `path`; the number of records
/// where there is none.
pub open spec fn index_of_path(records: Seq<WorktreeView>, path: Seq<char>) -> int
    decreases records.len(),
{
    if records.len() == 0 {
        0
    } else if same_path(records[0].path, path) {
        0
    } else {
        1 + index_of_path(records.drop_first(), path)
    }
}

/// The branch that is shown for the worktree at `path`: the short name of the
/// branch of the first record with that path, or `(unknown)` where no record
/// has the path or the record has no branch.
pub open spec fn branch_shown(records: Seq<WorktreeView>, path: Seq<char>) -> Seq<char> {
    let i = index_of_path(records, path);
    if 0 <= i < records.len() && records[i].branch is Some {
        shown_ref(records[i].branch)
    } else {
        "(unknown)"@
    }
}

/// What `index_of_path` returns is the first index of a record with the
/// path.
pub proof fn lemma_index_of_path(records: Seq<WorktreeView>, path: Seq<char>)
    ensures
        0 <= index_of_path(records, path) <= records.len(),
        forall|j: int|
            0 <= j < index_of_path(records, path) ==> !same_path((#[trigger] records[j]).path, path),
        index_of_path(records, path) < records.len() ==> same_path(
            records[index_of_path(records, path)].path,
            path,
        ),
    decreases records.len(),
{
    if records.len() > 0 && !same_path(records[0].path, path) {
        let rest = records.drop_first();
        lemma_index_of_path(rest, path);
        assert forall|j: int| 0 <= j < index_of_path(records, path) implies !same_path(
            (#[trigger] records[j]).path,
            path,
        ) by {
            if j > 0 {
                assert(records[j] == rest[j - 1]);
            }
        }
    }
}

/// An index with the properties of `lemma_index_of_path` is `index_of_path`.
pub proof fn lemma_index_of_path_is(records: Seq<WorktreeView>, path: Seq<char>, k: int)
    requires
        0 <= k <= records.len(),
        forall|j: int| 0 <= j < k ==> !same_path((#[trigger] records[j]).path, path),
        k < records.len() ==> same_path(records[k].path, path),
    ensures
        index_of_path(records, path) == k,
    decreases records.len(),
{
    if records.len() > 0 && k > 0 {
        let rest = records.drop_first();
        assert(!same_path(records[0].path, path));
        assert forall|j: int| 0 <= j < k - 1 implies !same_path((#[trigger] rest[j]).path, path) by {
            assert(rest[j] == records[j + 1]);
        }
        lemma_index_of_path_is(rest, path, k - 1);
    }
}

/// The branch that is shown for the worktree at `path`.
pub fn preview_branch(worktrees: &Vec<Worktree>, path: &str) -> (r: String)
    ensures
        r@ == branch_shown(records_view(worktrees@), path@),
{
    let wanted = chars_of(path);
    let ghost records = records_view(worktrees@);
    let mut i: usize = 0;
    while i < worktrees.len()
        invariant
            i <= worktrees.len(),
            wanted@ == path@,
            records == records_view(worktrees@),
            forall|j: int| 0 <= j < i ==> !same_path((#[trigger] records[j]).path, path@),
        decreases worktrees.len() - i,
    {
        let w = &worktrees[i];
        assert(records[i as int] == w@);
        let here = chars_of(w.path.as_str());
        if same_path_chars(here.as_slice(), wanted.as_slice()) {
            proof {
                lemma_index_of_path_is(records, path@, i as int);
            }
            return match &w.branch {
                Some(b) => pretty_ref(Some(b.as_str())),
                None => "(unknown)".to_owned(),
            };
        }
        i += 1;
    }
    proof {
        lemma_index_of_path_is(records, path@, i as int);
    }
    "(unknown)".to_owned()
}

/// The name of the repository at `root`, for the preview.
pub fn preview_repo_name(root: &str) -> (r: String)
    ensures
        r@ == repo_title(root@),
{
    match file_name_of(root) {
        Some(name) => name,
        None => root.to_owned(),
    }
}

/// The first line of the status without the white space around it; empty
/// where there is no line.
pub open spec fn first_status_line(status: Seq<char>) -> Seq<char> {
    let ls = lines(trim(status));
    if ls.len() > 0 {
        ls[0]
    } else {
        Seq::empty()
    }
}

/// The state of a worktree, from its status and its list of changed files.
/// The worktree is dirty where that list holds more than white space.
pub fn status_info(status: &str, changed: &str) -> (r: StatusInfo)
    ensures
        r.branch_line@ == first_status_line(status@),
        r.dirty == (trim(changed@).len() > 0),
{
    let s = chars_of(status);
    let ls = split_lines(cut_space(s.as_slice()));
    let branch_line = if ls.len() > 0 {
        assert(slice_texts(ls@)[0] == ls@[0]@);
        string_of(ls[0])
    } else {
        String::new()
    };
    let c = chars_of(changed);
    StatusInfo { branch_line, dirty: cut_space(c.as_slice()).len() > 0 }
}

/// The lines of `text` without the white space around it.
pub fn trimmed_lines(text: &str) -> (r: Vec<String>)
    ensures
        texts_of(r@) == lines(trim(text@)),
{
    let chars = chars_of(text);
    let ls = split_lines(cut_space(chars.as_slice()));
    strings_of(&ls)
}

/// What is shown of the worktree at `path`, for machine readers. `status`,
/// `commits` and `changed` are what the tool answered, `None` where it
/// failed: a status and a log that could not be read say so, and a list of
/// changes that could not be read counts as empty.
pub fn preview(
    repo_root: &str,
    path: &str,
    worktrees: &Vec<Worktree>,
    status: Option<&str>,
    commits: Option<&str>,
    changed: Option<&str>,
) -> (r: PreviewOutput)
    ensures
        r.repo@ == repo_title(repo_root@),
        r.branch@ == branch_shown(records_view(worktrees@), path@),
        r.path@ == path@,
        r.status.branch_line@ == first_status_line(answer_or(status, "(failed to read status)"@)),
        r.status.dirty == (trim(answer_or(changed, ""@)).len() > 0),
        texts_of(r.recent_commits@) == lines(trim(answer_or(commits, "(failed to read log)"@))),
        texts_of(r.changed_files@) == lines(trim(answer_or(changed, ""@))),
{
    let status_text = text_or(status, "(failed to read status)");
    let commits_text = text_or(commits, "(failed to read log)");
    let changed_text = text_or(changed, "");
    PreviewOutput {
        repo: preview_repo_name(repo_root),
        branch: preview_branch(worktrees, path),
        path: path.to_owned(),
        status: status_info(status_text.as_str(), changed_text.as_str()),
        recent_commits: trimmed_lines(commits_text.as_str()),
        changed_files: trimmed_lines(changed_text.as_str()),
    }
}

/// The lines of `body`, each after two spaces.
pub open spec fn indented(ls: Seq<Seq<char>>) -> Seq<Seq<char>> {
    Seq::new(ls.len(), |i: int| "  "@ + ls[i])
}

/// A section of the preview: the title and a colon, the lines of the body
/// after two spaces each, or `(none)` for an empty body, and an empty line.
pub open spec fn section(title: Seq<char>, body: Seq<char>) -> Seq<Seq<char>> {
    seq![title + ":"@] + (if body.len() == 0 {
        seq!["  (none)"@]
    } else {
        indented(lines(body))
    }) + seq![Seq::<char>::empty()]
}

/// The lines of a section of the preview.
pub fn print_section(title: &str, body: &str) -> (r: Vec<String>)
    ensures
        texts_of(r@) == section(title@, body@),
{
    let mut r: Vec<String> = Vec::new();
    let mut head = title.to_owned();
    head.append(":");
    assert(texts_of(r@) == Seq::<Seq<char>>::empty());
    push_line(&mut r, head);
    assert(texts_of(r@) == seq![title@ + ":"@]);
    let chars = chars_of(body);
    if chars.len() == 0 {
        push_line(&mut r, "  (none)".to_owned());
        assert(texts_of(r@) == seq![title@ + ":"@] + seq!["  (none)"@]);
    } else {
        let ls = split_lines(chars.as_slice());
        let mut inner: Vec<String> = Vec::new();
        let mut i: usize = 0;
        while i < ls.len()
            invariant
                i <= ls.len(),
                inner.len() == i,
                forall|j: int| 0 <= j < i ==> (#[trigger] inner@[j])@ == "  "@ + ls@[j]@,
            decreases ls.len() - i,
        {
            let mut line = "  ".to_owned();
            crate::text::append_chars(&mut line, ls[i]);
            inner.push(line);
            i += 1;
        }
        assert(texts_of(inner@) =~= indented(slice_texts(ls@)));
        push_lines(&mut r, inner);
    }
    push_line(&mut r, String::new());
    r
}

/// The preview for human readers: the repository, the branch and the path,
/// an empty line, then the sections on the status, on the recent commits
/// and, where there are changes, on the changed files.
pub open spec fn preview_text(
    repo: Seq<char>,
    branch: Seq<char>,
    path: Seq<char>,
    status: Seq<char>,
    commits: Seq<char>,
    changed: Seq<char>,
) -> Seq<Seq<char>> {
    seq!["Repo:   "@ + repo, "Branch: "@ + branch, "Path:   "@ + path, Seq::<char>::empty()]
        + section("Status"@, trim_end(status)) + section("Recent commits"@, trim_end(commits)) + (
    if trim(changed).len() > 0 {
        section("Changed files"@, trim_end(changed))
    } else {
        Seq::empty()
    })
}

/// `text` without its trailing white space.
fn without_trailing_space(text: &str) -> (r: String)
    ensures
        r@ == trim_end(text@),
{
    let chars = chars_of(text);
    string_of(cut_trailing_space(chars.as_slice()))
}

/// The lines of the preview of the worktree at `path` for human readers.
pub fn print_preview(
    repo_root: &str,
    path: &str,
    worktrees: &Vec<Worktree>,
    status: Option<&str>,
    commits: Option<&str>,
    changed: Option<&str>,
) -> (r: Vec<String>)
    ensures
        texts_of(r@) == preview_text(
            repo_title(repo_root@),
            branch_shown(records_view(worktrees@), path@),
            path@,
            answer_or(status, "(failed to read status)"@),
            answer_or(commits, "(failed to read log)"@),
            answer_or(changed, ""@),
        ),
{
    let status_text = text_or(status, "(failed to read status)");
    let commits_text = text_or(commits, "(failed to read log)");
    let changed_text = text_or(changed, "");
    let mut r: Vec<String> = Vec::new();
    let mut repo = "Repo:   ".to_owned();
    repo.append(preview_repo_name(repo_root).as_str());
    let mut branch = "Branch: ".to_owned();
    branch.append(preview_branch(worktrees, path).as_str());
    let mut place = "Path:   ".to_owned();
    place.append(path);
    assert(texts_of(r@) == Seq::<Seq<char>>::empty());
    push_line(&mut r, repo);
    push_line(&mut r, branch);
    push_line(&mut r, place);
    push_line(&mut r, String::new());
    assert(texts_of(r@) == seq![
        "Repo:   "@ + repo_title(repo_root@),
        "Branch: "@ + branch_shown(records_view(worktrees@), path@),
        "Path:   "@ + path@,
        Seq::<char>::empty(),
    ]);
    push_lines(&mut r, print_section("Status", without_trailing_space(status_text.as_str()).as_str()));
    push_lines(
        &mut r,
        print_section("Recent commits", without_trailing_space(commits_text.as_str()).as_str()),
    );
    let c = chars_of(changed_text.as_str());
    let ghost sofar = texts_of(r@);
    if cut_space(c.as_slice()).len() > 0 {
        push_lines(
            &mut r,
            print_section("Changed files", without_trailing_space(changed_text.as_str()).as_str()),
        );
    } else {
        assert(texts_of(r@) == sofar + Seq::<Seq<char>>::empty());
    }
    r
}

} // verus!
