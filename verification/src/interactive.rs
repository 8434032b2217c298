//! The interactive picker of worktrees: the lines it shows, how it is called,
//! and what the user's choice means.

use crate::config::{Config, FzfConfig};
use crate::error::{plain_error, ErrorCode, WtError};
use crate::fzf::{args_of, picker_args, FzfOptions, PickFailure};
use crate::path::{file_name, file_name_of};
use crate::text::{
    align_columns, aligned, chars_of, clone_text, cut_space, is_word, lines, slice_texts,
    split_at, split_lines,
    split_text, string_of, texts_of, trim,
};
use crate::worktree::{records_view, short_name, short_ref, Worktree, WorktreeView};
use vstd::prelude::*;
use vstd::string::*;

verus! {

/// The name under which the branch of a record is shown: the short name of
/// its branch, or `(detached)` for a record without a branch.
pub open spec fn display_name(w: WorktreeView) -> Seq<char> {
    match w.branch {
        Some(b) => short_name(b),
        None => "(detached)"@,
    }
}

/// The name under which the branch of `wt` is shown.
pub fn format_branch_name(wt: &Worktree) -> (r: String)
    ensures
        r@ == display_name(wt@),
{
    match &wt.branch {
        Some(b) => {
            let full = chars_of(b.as_str());
            string_of(short_ref(full.as_slice()))
        },
        None => "(detached)".to_owned(),
    }
}

/// The names under which the branches of `records` are shown.
pub open spec fn display_names(records: Seq<WorktreeView>) -> Seq<Seq<char>> {
    Seq::new(records.len(), |i: int| display_name(records[i]))
}

/// The paths of `records`.
pub open spec fn paths_of(records: Seq<WorktreeView>) -> Seq<Seq<char>> {
    Seq::new(records.len(), |i: int| records[i].path)
}

/// The lines that the picker shows for `records`: the branch, padded to the
/// width of the column, two spaces, the path.
pub open spec fn candidate_lines(records: Seq<WorktreeView>) -> Seq<Seq<char>> {
    aligned(display_names(records), paths_of(records))
}

/// The lines that the picker shows for `worktrees`, in their order.
pub fn prepare_candidates(worktrees: &[Worktree]) -> (r: Vec<String>)
    ensures
        texts_of(r@) == candidate_lines(records_view(worktrees@)),
        r.len() == worktrees.len(),
{
    let mut names: Vec<String> = Vec::new();
    let mut paths: Vec<String> = Vec::new();
    let mut i: usize = 0;
    while i < worktrees.len()
        invariant
            i <= worktrees.len(),
            names.len() == i,
            paths.len() == i,
            forall|j: int| 0 <= j < i ==> (#[trigger] names@[j])@ == display_name(worktrees@[j]@),
            forall|j: int| 0 <= j < i ==> (#[trigger] paths@[j])@ == worktrees@[j]@.path,
        decreases worktrees.len() - i,
    {
        names.push(format_branch_name(&worktrees[i]));
        paths.push(worktrees[i].path.clone());
        i += 1;
    }
    assert(texts_of(names@) =~= display_names(records_view(worktrees@)));
    assert(texts_of(paths@) =~= paths_of(records_view(worktrees@)));
    align_columns(&names, &paths)
}

/// The message for a line of the picker that holds no path.
pub open spec fn no_path_message(line: Seq<char>) -> Seq<char> {
    "failed to extract path from fzf output: "@ + line
}

/// The error for a line of the picker that holds no path.
fn no_path_error(line: &str) -> (e: WtError)
    ensures
        e@ == plain_error(ErrorCode::UserError, no_path_message(line@)),
{
    let mut text = "failed to extract path from fzf output: ".to_owned();
    text.append(line);
    WtError::UserError { message: text }
}

/// The characters of two spaces, which part the columns of a line.
fn column_gap() -> (gap: Vec<char>)
    ensures
        gap@ == "  "@,
        gap@.len() == 2,
{
    proof {
        reveal_strlit("  ");
    }
    chars_of("  ")
}

/// The path in a line of the picker with two columns: what stands between
/// the first pair of spaces and the next. A line without a pair of spaces is
/// refused.
pub fn extract_path(line: &str) -> (r: Result<String, WtError>)
    ensures
        ({
            let parts = split_at(line@, "  "@);
            if parts.len() >= 2 {
                r matches Ok(path) && path@ == parts[1]
            } else {
                r matches Err(e) && e@ == plain_error(
                    ErrorCode::UserError,
                    no_path_message(line@),
                )
            }
        }),
{
    let chars = chars_of(line);
    let gap = column_gap();
    let parts = split_text(chars.as_slice(), gap.as_slice());
    if parts.len() >= 2 {
        assert(slice_texts(parts@)[1] == parts@[1]@);
        Ok(string_of(parts[1]))
    } else {
        Err(no_path_error(line))
    }
}

/// The pieces among `parts` that hold more than white space, without the
/// white space around them.
pub open spec fn filled_columns(parts: Seq<Seq<char>>) -> Seq<Seq<char>>
    decreases parts.len(),
{
    if parts.len() == 0 {
        Seq::empty()
    } else {
        let before = filled_columns(parts.drop_last());
        if trim(parts.last()).len() > 0 {
            before.push(trim(parts.last()))
        } else {
            before
        }
    }
}

/// The path in a line of the picker with three columns: the third of the
/// pieces between pairs of spaces that hold more than white space. A line
/// with fewer such pieces is refused.
pub fn extract_path_from_all(line: &str) -> (r: Result<String, WtError>)
    ensures
        ({
            let columns = filled_columns(split_at(line@, "  "@));
            if columns.len() >= 3 {
                r matches Ok(path) && path@ == columns[2]
            } else {
                r matches Err(e) && e@ == plain_error(
                    ErrorCode::UserError,
                    no_path_message(line@),
                )
            }
        }),
{
    let chars = chars_of(line);
    let gap = column_gap();
    let parts = split_text(chars.as_slice(), gap.as_slice());
    let mut columns: Vec<&[char]> = Vec::new();
    let mut i: usize = 0;
    let ghost all = slice_texts(parts@);
    assert(all.take(0) == Seq::<Seq<char>>::empty());
    assert(slice_texts(columns@) == Seq::<Seq<char>>::empty());
    while i < parts.len()
        invariant
            i <= parts.len(),
            all == slice_texts(parts@),
            slice_texts(columns@) == filled_columns(all.take(i as int)),
        decreases parts.len() - i,
    {
        assert(all.take(i + 1).drop_last() == all.take(i as int));
        assert(all.take(i + 1).last() == parts@[i as int]@);
        let piece = cut_space(parts[i]);
        let ghost before = slice_texts(columns@);
        if piece.len() > 0 {
            columns.push(piece);
            assert(slice_texts(columns@) == before.push(piece@));
        }
        i += 1;
    }
    assert(all.take(parts.len() as int) == all);
    if columns.len() >= 3 {
        assert(slice_texts(columns@)[2] == columns@[2]@);
        Ok(string_of(columns[2]))
    } else {
        Err(no_path_error(line))
    }
}

/// The name of the repository at `root`: the last component of the path, or
/// `(unknown)` where the path ends in none.
pub open spec fn repo_label(root: Seq<char>) -> Seq<char> {
    match file_name(root) {
        Some(name) => name,
        None => "(unknown)"@,
    }
}

/// The name of the repository at `root`.
pub fn repo_name(root: &str) -> (r: String)
    ensures
        r@ == repo_label(root@),
{
    match file_name_of(root) {
        Some(name) => name,
        None => "(unknown)".to_owned(),
    }
}

/// The repository names of `entries`.
pub open spec fn entry_repos(entries: Seq<(String, Worktree)>) -> Seq<Seq<char>> {
    Seq::new(entries.len(), |i: int| entries[i].0@)
}

/// The records of `entries`.
pub open spec fn entry_records(entries: Seq<(String, Worktree)>) -> Seq<WorktreeView> {
    Seq::new(entries.len(), |i: int| entries[i].1@)
}

/// The lines that the picker shows for worktrees of several repositories:
/// the repository, the branch and the path, the first two padded to the
/// widths of their columns.
pub open spec fn all_candidate_lines(entries: Seq<(String, Worktree)>) -> Seq<Seq<char>> {
    aligned(entry_repos(entries), candidate_lines(entry_records(entries)))
}

/// The lines that the picker shows for `entries`, each a repository's name
/// and one of its worktrees.
pub fn prepare_all_candidates(entries: &Vec<(String, Worktree)>) -> (r: Vec<String>)
    ensures
        texts_of(r@) == all_candidate_lines(entries@),
        r.len() == entries.len(),
{
    let mut repos: Vec<String> = Vec::new();
    let mut names: Vec<String> = Vec::new();
    let mut paths: Vec<String> = Vec::new();
    let mut i: usize = 0;
    while i < entries.len()
        invariant
            i <= entries.len(),
            repos.len() == i,
            names.len() == i,
            paths.len() == i,
            forall|j: int| 0 <= j < i ==> (#[trigger] repos@[j])@ == entries@[j].0@,
            forall|j: int| 0 <= j < i ==> (#[trigger] names@[j])@ == display_name(entries@[j].1@),
            forall|j: int| 0 <= j < i ==> (#[trigger] paths@[j])@ == entries@[j].1@.path,
        decreases entries.len() - i,
    {
        repos.push(entries[i].0.clone());
        names.push(format_branch_name(&entries[i].1));
        paths.push(entries[i].1.path.clone());
        i += 1;
    }
    assert(texts_of(repos@) =~= entry_repos(entries@));
    assert(texts_of(names@) =~= display_names(entry_records(entries@)));
    assert(texts_of(paths@) =~= paths_of(entry_records(entries@)));
    let inner = align_columns(&names, &paths);
    align_columns(&repos, &inner)
}

/// The command that previews the path in column 2, or in column 3 where the
/// lines begin with the repository.
pub open spec fn preview_command(all: bool) -> Seq<char> {
    if all {
        "wt preview --path {3}"@
    } else {
        "wt preview --path {2}"@
    }
}

/// The arguments of the picker of worktrees: the looks from the settings,
/// the preview of the path column, a prompt, a header, and `--expect
/// ctrl-e`, which makes the picker report that key.
pub open spec fn worktree_picker_line(fzf: FzfConfig, all: bool) -> Seq<Seq<char>> {
    seq![
        "--height"@,
        fzf.height@,
        "--layout"@,
        fzf.layout@,
        "--preview-window"@,
        fzf.preview_window@,
        "--preview"@,
        preview_command(all),
        "--prompt"@,
        "Worktree> "@,
        "--header"@,
        "Enter: cd | Ctrl-E: edit"@,
        "--expect"@,
        "ctrl-e"@,
    ]
}

/// The arguments with which the picker of worktrees is called.
pub fn worktree_picker_args(fzf: &FzfConfig, all: bool) -> (args: Vec<String>)
    ensures
        texts_of(args@) == worktree_picker_line(*fzf, all),
{
    let preview = if all {
        "wt preview --path {3}".to_owned()
    } else {
        "wt preview --path {2}".to_owned()
    };
    let options = FzfOptions {
        height: fzf.height.clone(),
        layout: fzf.layout.clone(),
        preview: Some(preview),
        preview_window: fzf.preview_window.clone(),
        prompt: Some("Worktree> ".to_owned()),
        header: Some("Enter: cd | Ctrl-E: edit".to_owned()),
    };
    let mut args = picker_args(&options);
    let ghost before = texts_of(args@);
    args.push("--expect".to_owned());
    args.push("ctrl-e".to_owned());
    assert(texts_of(args@) == before + seq!["--expect"@, "ctrl-e"@]);
    assert(before == args_of(options));
    assert(texts_of(args@) =~= worktree_picker_line(*fzf, all));
    args
}

/// What to show in the picker, and how to call it.
#[derive(Debug, Clone, PartialEq, Eq)]
pub struct PickerRequest {
    pub args: Vec<String>,
    pub candidates: Vec<String>,
}

/// What came of a run of the picker that reports the key, too.
#[derive(Debug, Clone, PartialEq, Eq)]
pub enum KeyedPick {
    /// The user chose `line` with `key`; an empty key is the enter key.
    Chosen { key: String, line: String },
    /// The user chose nothing.
    Cancelled,
    /// The picker failed.
    Failed(PickFailure),
}

/// The mathematical value of a [`KeyedPick`].
pub enum KeyedPickView {
    Chosen { key: Seq<char>, line: Seq<char> },
    Cancelled,
    Failed(PickFailure),
}

impl View for KeyedPick {
    type V = KeyedPickView;

    open spec fn view(&self) -> KeyedPickView {
        match *self {
            KeyedPick::Chosen { key, line } => KeyedPickView::Chosen { key: key@, line: line@ },
            KeyedPick::Cancelled => KeyedPickView::Cancelled,
            KeyedPick::Failed(f) => KeyedPickView::Failed(f),
        }
    }
}

/// What the exit of the picker means where it reports the key. With exit
/// code 0 the first line of the output is the key and the second the chosen
/// line; fewer than two lines, or an empty second line, is no choice. Codes 1
/// and 130 are no choice; any other code, and an end by a signal, is a
/// failure.
pub open spec fn keyed_pick_of(code: Option<int>, stdout: Seq<char>) -> KeyedPickView {
    match code {
        Some(c) => if c == 0 {
            let ls = lines(stdout);
            if ls.len() >= 2 && ls[1].len() > 0 {
                KeyedPickView::Chosen { key: ls[0], line: ls[1] }
            } else {
                KeyedPickView::Cancelled
            }
        } else if c == 1 || c == 130 {
            KeyedPickView::Cancelled
        } else {
            KeyedPickView::Failed(PickFailure::ExitCode(c as i32))
        },
        None => KeyedPickView::Failed(PickFailure::Signal),
    }
}

/// Reads the exit of the picker of worktrees.
pub fn read_keyed_pick(code: Option<i32>, stdout: &str) -> (r: KeyedPick)
    ensures
        r@ == keyed_pick_of(crate::fzf::code_view(code), stdout@),
{
    match code {
        Some(c) => {
            if c == 0 {
                let chars = chars_of(stdout);
                let ls = split_lines(chars.as_slice());
                if ls.len() >= 2 {
                    assert(slice_texts(ls@)[0] == ls@[0]@);
                    assert(slice_texts(ls@)[1] == ls@[1]@);
                    if ls[1].len() > 0 {
                        return KeyedPick::Chosen { key: string_of(ls[0]), line: string_of(ls[1]) };
                    }
                }
                KeyedPick::Cancelled
            } else if c == 1 || c == 130 {
                KeyedPick::Cancelled
            } else {
                KeyedPick::Failed(PickFailure::ExitCode(c))
            }
        },
        None => KeyedPick::Failed(PickFailure::Signal),
    }
}

/// The line that tells the shell what to do with `path`: to open it in the
/// editor where the key was `ctrl-e`, else to change into it.
pub open spec fn action_of(key: Seq<char>, path: Seq<char>) -> Seq<char> {
    if key == "ctrl-e"@ {
        "edit|"@ + path
    } else {
        "cd|"@ + path
    }
}

/// The line that tells the shell what to do with `path`.
pub fn action_line(key: &str, path: &str) -> (r: String)
    ensures
        r@ == action_of(key@, path@),
{
    let chars = chars_of(key);
    let mut line = if is_word(chars.as_slice(), "ctrl-e") {
        "edit|".to_owned()
    } else {
        "cd|".to_owned()
    };
    line.append(path);
    line
}

/// What the picker's outcome makes the tool print: nothing where the user
/// chose nothing, else the action on the path of the chosen line. A failed
/// picker and a line without a path are user errors.
pub fn chosen_action(all: bool, pick: &KeyedPick) -> (r: Result<Option<String>, WtError>)
    ensures
        match pick@ {
            KeyedPickView::Cancelled => r matches Ok(None),
            KeyedPickView::Failed(f) => r matches Err(e) && e@ == plain_error(
                ErrorCode::UserError,
                f.text(),
            ),
            KeyedPickView::Chosen { key, line } => {
                let columns = if all {
                    filled_columns(split_at(line, "  "@))
                } else {
                    split_at(line, "  "@)
                };
                let need = if all {
                    3int
                } else {
                    2int
                };
                if columns.len() >= need {
                    r matches Ok(Some(action)) && action@ == action_of(key, columns[need - 1])
                } else {
                    r matches Err(e) && e@ == plain_error(
                        ErrorCode::UserError,
                        no_path_message(line),
                    )
                }
            },
        },
{
    match pick {
        KeyedPick::Cancelled => Ok(None),
        KeyedPick::Failed(f) => Err(WtError::UserError { message: f.message() }),
        KeyedPick::Chosen { key, line } => {
            let path = if all {
                extract_path_from_all(line.as_str())
            } else {
                extract_path(line.as_str())
            };
            match path {
                Ok(p) => Ok(Some(action_line(key.as_str(), p.as_str()))),
                Err(e) => Err(e),
            }
        },
    }
}

/// The worktrees of `entries`.
fn records_of(entries: &Vec<(String, Worktree)>) -> (r: Vec<Worktree>)
    ensures
        records_view(r@) == entry_records(entries@),
{
    let mut r: Vec<Worktree> = Vec::new();
    let mut i: usize = 0;
    while i < entries.len()
        invariant
            i <= entries.len(),
            r.len() == i,
            forall|j: int| 0 <= j < i ==> (#[trigger] r@[j])@ == entries@[j].1@,
        decreases entries.len() - i,
    {
        let w = &entries[i].1;
        r.push(
            Worktree {
                path: w.path.clone(),
                head: clone_text(&w.head),
                branch: clone_text(&w.branch),
                locked: w.locked,
                lock_reason: clone_text(&w.lock_reason),
                prunable: clone_text(&w.prunable),
                bare: w.bare,
            },
        );
        i += 1;
    }
    assert(records_view(r@) =~= entry_records(entries@));
    r
}

/// The search roots of the settings; it is the user's error to have none.
pub fn discovery_roots(config: &Config) -> (r: Result<Vec<String>, WtError>)
    ensures
        config.auto_discovery.paths@.len() > 0 ==> (r matches Ok(roots) && texts_of(roots@)
            == texts_of(config.auto_discovery.paths@)),
        config.auto_discovery.paths@.len() == 0 ==> (r matches Err(e) && e@ == plain_error(
            ErrorCode::UserError,
            "No auto-discovery paths configured. Run: wt config set-discovery-paths <paths...>"@,
        )),
{
    if config.auto_discovery.paths.len() == 0 {
        return Err(
            WtError::user_error(
                "No auto-discovery paths configured. Run: wt config set-discovery-paths <paths...>",
            ),
        );
    }
    let mut roots: Vec<String> = Vec::new();
    let mut i: usize = 0;
    while i < config.auto_discovery.paths.len()
        invariant
            i <= config.auto_discovery.paths.len(),
            roots.len() == i,
            forall|j: int|
                0 <= j < i ==> (#[trigger] roots@[j])@ == config.auto_discovery.paths@[j]@,
        decreases config.auto_discovery.paths.len() - i,
    {
        roots.push(config.auto_discovery.paths[i].clone());
        i += 1;
    }
    assert(texts_of(roots@) =~= texts_of(config.auto_discovery.paths@));
    Ok(roots)
}

/// The message for a picker with nothing to show.
pub open spec fn nothing_to_pick(all: bool, repos: nat) -> Seq<char> {
    if !all {
        "no worktrees found in repository"@
    } else if repos == 0 {
        "No git repositories found in configured discovery paths."@
    } else {
        "No worktrees found in any discovered repository"@
    }
}

/// Prepares the picker of worktrees. `entries` pairs each worktree with the
/// name of its repository; `repos` is the number of repositories that were
/// looked into. With `all` the lines begin with the repository.
///
/// Fails with a not-found error where there is nothing to show: no
/// repository, or no worktree.
pub fn run_interactive(all: bool, config: &Config, repos: usize, entries: &Vec<(String, Worktree)>)
    -> (r: Result<PickerRequest, WtError>)
    ensures
        (all && repos == 0) || entries.len() == 0 ==> (r matches Err(e) && e@ == plain_error(
            ErrorCode::NotFound,
            nothing_to_pick(all, repos as nat),
        )),
        !(all && repos == 0) && entries.len() > 0 ==> (r matches Ok(request) && texts_of(
            request.candidates@,
        ) == (if all {
            all_candidate_lines(entries@)
        } else {
            candidate_lines(entry_records(entries@))
        }) && texts_of(request.args@) == worktree_picker_line(config.fzf, all)),
{
    if all && repos == 0 {
        return Err(WtError::not_found("No git repositories found in configured discovery paths."));
    }
    if entries.len() == 0 {
        if all {
            return Err(WtError::not_found("No worktrees found in any discovered repository"));
        } else {
            return Err(WtError::not_found("no worktrees found in repository"));
        }
    }
    let candidates = if all {
        prepare_all_candidates(entries)
    } else {
        let records = records_of(entries);
        prepare_candidates(records.as_slice())
    };
    Ok(PickerRequest { args: worktree_picker_args(&config.fzf, all), candidates })
}

} // verus!
