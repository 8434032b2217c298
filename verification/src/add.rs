//! Adding a worktree: where it goes by default, what stands in its way, how
//! the tool is called to create it, and the steps of the adding. The steps
//! are decided here and done by the caller.

use crate::error::{caused_error, opt_error, plain_error, ErrorCode, ErrorView, WtError};
use crate::order::{ascending, insert_ascending};
use crate::path::{
    components, file_name, file_name_of, is_absolute, is_part, join, join_paths,
    lemma_components_are_well_formed, lemma_join_adds_a_component, lemma_parent_components,
    parent, parent_of,
};
use crate::text::{
    chars_of, contains, cut_space, find_char, first_index, lines, mentions, opt_str, opt_text,
    replace_char,
    same_text, slice_texts, split_lines, starts_with, string_of, strip_prefix, texts_of, trim,
    without_prefix,
};
use crate::worktree::{short_name, short_ref};
use crate::worktree::{records_view, Worktree, WorktreeView};
use vstd::prelude::*;
use vstd::slice::slice_subrange;
use vstd::string::*;

verus! {

/// The name of the default directory for a worktree: the repository's name,
/// a hyphen, and the branch with a hyphen for every `/`.
pub open spec fn default_dir_name(repo_name: Seq<char>, branch: Seq<char>) -> Seq<char> {
    repo_name + "-"@ + replace_char(branch, '/', '-')
}

/// The default path of a worktree for `branch`: beside the root of the
/// repository, under the default directory name. A root without a parent, or
/// one whose last component is no name, has no default.
pub open spec fn default_path(repo_root: Seq<char>, branch: Seq<char>) -> Result<
    Seq<char>,
    ErrorView,
> {
    match parent(repo_root) {
        None => Err(
            plain_error(ErrorCode::IoError, "repository root has no parent directory"@),
        ),
        Some(dir) => match file_name(repo_root) {
            None => Err(plain_error(ErrorCode::IoError, "failed to extract repository name"@)),
            Some(name) => Ok(join(dir, default_dir_name(name, branch))),
        },
    }
}

/// The default path lies beside the repository: its components are those of
/// the root but the last, then the default directory name, and it is
/// absolute exactly when the root is.
pub proof fn lemma_default_path_is_sibling(repo_root: Seq<char>, branch: Seq<char>)
    requires
        default_path(repo_root, branch) is Ok,
    ensures
        components(default_path(repo_root, branch)->Ok_0) == components(repo_root).drop_last().push(
            default_dir_name(file_name(repo_root)->Some_0, branch),
        ),
        is_absolute(default_path(repo_root, branch)->Ok_0) == is_absolute(repo_root),
{
    reveal_strlit("-");
    let parts = components(repo_root);
    let name = file_name(repo_root)->Some_0;
    let dir = parent(repo_root)->Some_0;
    let clean = replace_char(branch, '/', '-');
    let dir_name = default_dir_name(name, branch);
    lemma_components_are_well_formed(repo_root);
    lemma_parent_components(repo_root);
    assert(is_part(parts.last()));
    assert("-"@ == seq!['-']);
    assert(dir_name.len() >= 2);
    assert(!dir_name.contains('/')) by {
        if dir_name.contains('/') {
            let j = choose|j: int| 0 <= j < dir_name.len() && dir_name[j] == '/';
            if j < name.len() {
                assert(name[j] == '/');
                assert(name.contains('/'));
            } else if j > name.len() {
                assert(dir_name[j] == clean[j - name.len() - 1]);
            }
        }
    }
    lemma_join_adds_a_component(dir, dir_name);
}

/// `branch` with a hyphen for every `/`.
fn sanitized(branch: &str) -> (r: String)
    ensures
        r@ == replace_char(branch@, '/', '-'),
{
    let chars = chars_of(branch);
    let mut r = String::new();
    let mut i: usize = 0;
    while i < chars.len()
        invariant
            i <= chars.len(),
            chars@ == branch@,
            r@ == replace_char(branch@, '/', '-').subrange(0, i as int),
        decreases chars.len() - i,
    {
        let c = if chars[i] == '/' {
            '-'
        } else {
            chars[i]
        };
        assert(replace_char(branch@, '/', '-').subrange(0, i + 1) == replace_char(
            branch@,
            '/',
            '-',
        ).subrange(0, i as int).push(c));
        r.push(c);
        i += 1;
    }
    assert(replace_char(branch@, '/', '-').subrange(0, chars.len() as int) == replace_char(
        branch@,
        '/',
        '-',
    ));
    r
}

/// The default path of a worktree for `branch` of the repository at
/// `repo_root`.
pub fn calculate_default_path(repo_root: &str, branch: &str) -> (r: Result<String, WtError>)
    ensures
        match default_path(repo_root@, branch@) {
            Ok(path) => r matches Ok(p) && p@ == path,
            Err(e) => r matches Err(f) && f@ == e,
        },
{
    let dir = match parent_of(repo_root) {
        Some(d) => d,
        None => {
            return Err(WtError::io_error("repository root has no parent directory"));
        },
    };
    let name = match file_name_of(repo_root) {
        Some(n) => n,
        None => {
            return Err(WtError::io_error("failed to extract repository name"));
        },
    };
    let mut dir_name = name;
    dir_name.append("-");
    dir_name.append(sanitized(branch).as_str());
    Ok(join_paths(dir.as_str(), dir_name.as_str()))
}

/// The path of the new worktree: the one that was asked for, else the
/// default.
pub fn target_path(repo_root: &str, branch: &str, path: Option<&str>) -> (r: Result<
    String,
    WtError,
>)
    ensures
        match path {
            Some(custom) => r matches Ok(p) && p@ == custom@,
            None => match default_path(repo_root@, branch@) {
                Ok(path) => r matches Ok(p) && p@ == path,
                Err(e) => r matches Err(f) && f@ == e,
            },
        },
{
    match path {
        Some(custom) => Ok(custom.to_owned()),
        None => calculate_default_path(repo_root, branch),
    }
}

/// The message for a path that is taken.
pub open spec fn path_taken_message(path: Seq<char>) -> Seq<char> {
    "path already exists: "@ + path + "\nChoose a different path with --path"@
}

/// The error for a new worktree whose path exists already.
pub fn path_taken(path: &str) -> (e: WtError)
    ensures
        e@ == plain_error(ErrorCode::UserError, path_taken_message(path@)),
{
    let mut text = "path already exists: ".to_owned();
    text.append(path);
    text.append("\nChoose a different path with --path");
    WtError::UserError { message: text }
}

/// Whether the record is checked out on the local branch `branch`.
pub open spec fn holds_branch(w: WorktreeView, branch: Seq<char>) -> bool {
    w.branch == Some("refs/heads/"@ + branch)
}

/// The message for a branch that has a worktree at `path`.
pub open spec fn already_exists_message(branch: Seq<char>, path: Seq<char>) -> Seq<char> {
    "worktree for branch '"@ + branch + "' already exists at: "@ + path
}

/// The index of the first record that is checked out on the local branch
/// `branch`; the number of records where there is none.
pub open spec fn first_holder(records: Seq<WorktreeView>, branch: Seq<char>) -> int
    decreases records.len(),
{
    if records.len() == 0 {
        0
    } else if holds_branch(records[0], branch) {
        0
    } else {
        1 + first_holder(records.drop_first(), branch)
    }
}

/// The error for a branch that has a worktree already: a user error that
/// names the first such worktree in the listing; none where there is no such
/// worktree.
pub open spec fn existing_error(records: Seq<WorktreeView>, branch: Seq<char>) -> Option<
    ErrorView,
> {
    let i = first_holder(records, branch);
    if 0 <= i < records.len() {
        Some(
            plain_error(ErrorCode::UserError, already_exists_message(branch, records[i].path)),
        )
    } else {
        None
    }
}

/// An index before which no record holds the branch, and at which one does
/// unless it is the end, is `first_holder`.
pub proof fn lemma_first_holder_is(records: Seq<WorktreeView>, branch: Seq<char>, k: int)
    requires
        0 <= k <= records.len(),
        forall|j: int| 0 <= j < k ==> !holds_branch(#[trigger] records[j], branch),
        k < records.len() ==> holds_branch(records[k], branch),
    ensures
        first_holder(records, branch) == k,
    decreases records.len(),
{
    if records.len() > 0 && k > 0 {
        let rest = records.drop_first();
        assert(!holds_branch(records[0], branch));
        assert forall|j: int| 0 <= j < k - 1 implies !holds_branch(#[trigger] rest[j], branch) by {
            assert(rest[j] == records[j + 1]);
        }
        lemma_first_holder_is(rest, branch, k - 1);
    }
}

/// What `first_holder` returns lies inside the listing or at its end, no
/// record before it holds the branch, and the record at it does unless it is
/// the end.
pub proof fn lemma_first_holder(records: Seq<WorktreeView>, branch: Seq<char>)
    ensures
        0 <= first_holder(records, branch) <= records.len(),
        forall|j: int|
            0 <= j < first_holder(records, branch) ==> !holds_branch(#[trigger] records[j], branch),
        first_holder(records, branch) < records.len() ==> holds_branch(
            records[first_holder(records, branch)],
            branch,
        ),
    decreases records.len(),
{
    if records.len() > 0 && !holds_branch(records[0], branch) {
        let rest = records.drop_first();
        lemma_first_holder(rest, branch);
        assert forall|j: int| 0 <= j < first_holder(records, branch) implies !holds_branch(
            #[trigger] records[j],
            branch,
        ) by {
            if j > 0 {
                assert(records[j] == rest[j - 1]);
            }
        }
    }
}

/// A branch is free for a new worktree exactly when no record of the listing
/// is checked out on it.
pub proof fn lemma_branch_is_free(records: Seq<WorktreeView>, branch: Seq<char>)
    ensures
        existing_error(records, branch) is None <==> forall|i: int|
            0 <= i < records.len() ==> !holds_branch(#[trigger] records[i], branch),
{
    lemma_first_holder(records, branch);
    let k = first_holder(records, branch);
    if k < records.len() {
        assert(holds_branch(records[k], branch));
    }
}

/// Makes sure that no worktree is checked out on the local branch `branch`.
/// Where one is, the error names the first of them in the listing.
pub fn check_existing_worktree(worktrees: &Vec<Worktree>, branch: &str) -> (r: Result<(), WtError>)
    ensures
        match existing_error(records_view(worktrees@), branch@) {
            Some(e) => r matches Err(f) && f@ == e,
            None => r is Ok,
        },
{
    let ghost records = records_view(worktrees@);
    let mut wanted = "refs/heads/".to_owned();
    wanted.append(branch);
    let mut i: usize = 0;
    while i < worktrees.len()
        invariant
            i <= worktrees.len(),
            records == records_view(worktrees@),
            wanted@ == "refs/heads/"@ + branch@,
            forall|j: int| 0 <= j < i ==> !holds_branch(#[trigger] records[j], branch@),
        decreases worktrees.len() - i,
    {
        let w = &worktrees[i];
        assert(records[i as int] == w@);
        let held = match &w.branch {
            Some(b) => *b == wanted,
            None => false,
        };
        if held {
            proof {
                lemma_first_holder_is(records, branch@, i as int);
            }
            let mut text = "worktree for branch '".to_owned();
            text.append(branch);
            text.append("' already exists at: ");
            text.append(w.path.as_str());
            return Err(WtError::UserError { message: text });
        }
        i += 1;
    }
    proof {
        lemma_first_holder_is(records, branch@, i as int);
    }
    Ok(())
}

/// The entry of the branch picker that stands for a new branch.
pub const CREATE_NEW: &'static str = "[+] Create new branch...";

/// What the branch picker shows: the entry for a new branch, then
/// `branches`.
pub fn branch_choices(branches: &Vec<String>) -> (r: Vec<String>)
    ensures
        texts_of(r@) == seq![CREATE_NEW@] + texts_of(branches@),
{
    let mut r: Vec<String> = Vec::new();
    r.push(CREATE_NEW.to_owned());
    let mut i: usize = 0;
    while i < branches.len()
        invariant
            i <= branches.len(),
            r.len() == i + 1,
            r@[0]@ == CREATE_NEW@,
            forall|k: int| 1 <= k < i + 1 ==> (#[trigger] r@[k])@ == branches@[k - 1]@,
        decreases branches.len() - i,
    {
        r.push(branches[i].clone());
        i += 1;
    }
    assert(texts_of(r@) =~= seq![CREATE_NEW@] + texts_of(branches@));
    r
}

/// The branch that a line of the branch picker names: the line without
/// `origin/`, else without what stands before its first `/` and that `/`,
/// else whole.
pub open spec fn branch_of_pick(selection: Seq<char>) -> Seq<char> {
    match strip_prefix(selection, "origin/"@) {
        Some(rest) => rest,
        None => {
            let k = first_index(selection, '/');
            if 0 <= k < selection.len() {
                selection.subrange(k + 1, selection.len() as int)
            } else {
                selection
            }
        },
    }
}

/// What the user picked in the branch picker.
#[derive(Debug, Clone, PartialEq, Eq)]
pub enum BranchPick {
    /// The entry for a new branch: the name is still to be asked for.
    CreateNew,
    /// This branch.
    Branch(String),
}

/// Reads a line that the user picked in the branch picker.
pub fn picked_branch(selection: &str) -> (r: BranchPick)
    ensures
        selection@ == CREATE_NEW@ ==> r is CreateNew,
        selection@ != CREATE_NEW@ ==> (r matches BranchPick::Branch(name) && name@
            == branch_of_pick(selection@)),
{
    let chars = chars_of(selection);
    let all = chars.as_slice();
    if crate::text::is_word(all, CREATE_NEW) {
        return BranchPick::CreateNew;
    }
    match without_prefix(all, "origin/") {
        Some(rest) => BranchPick::Branch(string_of(rest)),
        None => {
            let k = find_char(all, '/');
            if k < all.len() {
                BranchPick::Branch(string_of(slice_subrange(all, k + 1, all.len())))
            } else {
                BranchPick::Branch(selection.to_owned())
            }
        },
    }
}

/// The name of a new branch from what the user typed: the text without the
/// white space around it, or `None`, which cancels, where nothing is left.
pub fn new_branch_name(typed: &str) -> (r: Option<String>)
    ensures
        trim(typed@).len() == 0 ==> r is None,
        trim(typed@).len() > 0 ==> (r matches Some(name) && name@ == trim(typed@)),
{
    let chars = chars_of(typed);
    let name = cut_space(chars.as_slice());
    if name.len() == 0 {
        None
    } else {
        Some(string_of(name))
    }
}

/// Whether the tool's list of remote branches of a given name names any: it
/// holds more than white space.
pub fn remote_branch_listed(listing: &str) -> (r: bool)
    ensures
        r == (trim(listing@).len() > 0),
{
    let chars = chars_of(listing);
    cut_space(chars.as_slice()).len() > 0
}

/// How the tool is called to add a worktree, and what to say if it fails.
#[derive(Debug, Clone, PartialEq, Eq)]
pub struct AddPlan {
    pub args: Vec<String>,
    pub failure: String,
}

/// The branch on the remote that a new branch tracks.
pub open spec fn tracking_ref(remote: Seq<char>, branch: Seq<char>) -> Seq<char> {
    remote + "/"@ + branch
}

/// The arguments that add a worktree for `branch` at `target`. With a remote
/// to track, a new branch is created that tracks the branch of that name on
/// the remote; else the branch is checked out where it exists, and created
/// where it does not.
pub open spec fn add_args(
    branch: Seq<char>,
    target: Seq<char>,
    track: Option<Seq<char>>,
    exists: bool,
) -> Seq<Seq<char>> {
    match track {
        Some(remote) => seq![
            "worktree"@,
            "add"@,
            "--track"@,
            "-b"@,
            branch,
            target,
            tracking_ref(remote, branch),
        ],
        None => if exists {
            seq!["worktree"@, "add"@, target, branch]
        } else {
            seq!["worktree"@, "add"@, "-b"@, branch, target]
        },
    }
}

/// What to say when the tool fails to add the worktree.
pub open spec fn add_failure(branch: Seq<char>, track: Option<Seq<char>>, exists: bool) -> Seq<
    char,
> {
    match track {
        Some(remote) => "failed to add worktree tracking "@ + tracking_ref(remote, branch),
        None => if exists {
            "failed to add worktree"@
        } else {
            "failed to create worktree with new branch '"@ + branch + "'"@
        },
    }
}

/// `remote`, a slash, `branch`.
fn tracking(remote: &str, branch: &str) -> (r: String)
    ensures
        r@ == tracking_ref(remote@, branch@),
{
    let mut r = remote.to_owned();
    r.append("/");
    r.append(branch);
    r
}

/// Plans the call that adds a worktree for `branch` at `target`. `exists`
/// says whether the branch exists, locally or on a remote; it is not looked
/// at where a remote is tracked.
pub fn add_command(branch: &str, target: &str, track: Option<&str>, exists: bool) -> (plan: AddPlan)
    ensures
        texts_of(plan.args@) == add_args(
            branch@,
            target@,
            opt_str(track),
            exists,
        ),
        plan.failure@ == add_failure(branch@, opt_str(track), exists),
{
    let mut args: Vec<String> = Vec::new();
    args.push("worktree".to_owned());
    args.push("add".to_owned());
    match track {
        Some(remote) => {
            args.push("--track".to_owned());
            args.push("-b".to_owned());
            args.push(branch.to_owned());
            args.push(target.to_owned());
            args.push(tracking(remote, branch));
            let mut failure = "failed to add worktree tracking ".to_owned();
            failure.append(tracking(remote, branch).as_str());
            assert(texts_of(args@) =~= add_args(branch@, target@, Some(remote@), exists));
            AddPlan { args, failure }
        },
        None => {
            if exists {
                args.push(target.to_owned());
                args.push(branch.to_owned());
                assert(texts_of(args@) =~= add_args(branch@, target@, None, exists));
                AddPlan { args, failure: "failed to add worktree".to_owned() }
            } else {
                args.push("-b".to_owned());
                args.push(branch.to_owned());
                args.push(target.to_owned());
                let mut failure = "failed to create worktree with new branch '".to_owned();
                failure.append(branch);
                failure.append("'");
                assert(texts_of(args@) =~= add_args(branch@, target@, None, exists));
                AddPlan { args, failure }
            }
        },
    }
}

/// The report of a worktree that was added, for machine readers.
#[derive(Debug, Clone, PartialEq, Eq)]
pub struct AddResult {
    pub success: bool,
    pub branch: String,
    pub path: String,
    pub tracking: Option<String>,
}

/// The report of a worktree that was added for `branch` at `path`.
pub fn add_report(branch: &str, path: &str, track: Option<&str>) -> (r: AddResult)
    ensures
        r.success,
        r.branch@ == branch@,
        r.path@ == path@,
        opt_text(r.tracking) == match track {
            Some(remote) => Some(tracking_ref(remote@, branch@)),
            None => None,
        },
{
    AddResult {
        success: true,
        branch: branch.to_owned(),
        path: path.to_owned(),
        tracking: match track {
            Some(remote) => Some(tracking(remote, branch)),
            None => None,
        },
    }
}

/// What the caller found out, or did, for the adding of a worktree; in the
/// order in which it was asked for.
#[derive(Debug, Clone, PartialEq, Eq)]
pub enum AddEvent {
    /// Whether the path of the new worktree exists.
    PathExists(bool),
    /// The worktrees of the repository.
    Listed(Vec<Worktree>),
    /// Why the worktrees could not be listed.
    ListFailed(String),
    /// Whether the local branch exists.
    LocalBranch(bool),
    /// The tool's list of the remote branches of that name.
    RemoteBranches(String),
    /// The tool ran; `None` where it succeeded.
    Ran(Option<WtError>),
}

/// What to do next about the adding of a worktree.
#[derive(Debug, Clone, PartialEq, Eq)]
pub enum AddAction {
    /// Find out whether this path exists.
    CheckPath { path: String },
    /// List the worktrees of the repository.
    List,
    /// Run the tool with these arguments, and report whether it succeeded.
    CheckLocalBranch { notice: Option<String>, args: Vec<String> },
    /// Run the tool with these arguments, and report what it wrote.
    ListRemoteBranches { args: Vec<String> },
    /// Run the tool with these arguments, and report how it went.
    Run { notice: Option<String>, args: Vec<String> },
    /// Stop.
    End { report: Option<AddResult>, notice: Option<String>, error: Option<WtError> },
}

/// The mathematical value of an [`AddEvent`].
pub enum AddEventView {
    PathExists(bool),
    Listed(Result<Seq<WorktreeView>, Seq<char>>),
    LocalBranch(bool),
    RemoteBranches(Seq<char>),
    Ran(Option<ErrorView>),
}

/// The mathematical value of an [`AddResult`].
pub struct AddReportView {
    pub success: bool,
    pub branch: Seq<char>,
    pub path: Seq<char>,
    pub tracking: Option<Seq<char>>,
}

/// The mathematical value of an [`AddAction`].
pub enum AddActionView {
    CheckPath { path: Seq<char> },
    List,
    CheckLocalBranch { notice: Option<Seq<char>>, args: Seq<Seq<char>> },
    ListRemoteBranches { args: Seq<Seq<char>> },
    Run { notice: Option<Seq<char>>, args: Seq<Seq<char>> },
    End { report: Option<AddReportView>, notice: Option<Seq<char>>, error: Option<ErrorView> },
}

impl View for AddEvent {
    type V = AddEventView;

    open spec fn view(&self) -> AddEventView {
        match *self {
            AddEvent::PathExists(b) => AddEventView::PathExists(b),
            AddEvent::Listed(v) => AddEventView::Listed(Ok(records_view(v@))),
            AddEvent::ListFailed(cause) => AddEventView::Listed(Err(cause@)),
            AddEvent::LocalBranch(b) => AddEventView::LocalBranch(b),
            AddEvent::RemoteBranches(text) => AddEventView::RemoteBranches(text@),
            AddEvent::Ran(r) => AddEventView::Ran(opt_error(r)),
        }
    }
}

impl View for AddResult {
    type V = AddReportView;

    open spec fn view(&self) -> AddReportView {
        AddReportView {
            success: self.success,
            branch: self.branch@,
            path: self.path@,
            tracking: opt_text(self.tracking),
        }
    }
}

impl View for AddAction {
    type V = AddActionView;

    open spec fn view(&self) -> AddActionView {
        match *self {
            AddAction::CheckPath { path } => AddActionView::CheckPath { path: path@ },
            AddAction::List => AddActionView::List,
            AddAction::CheckLocalBranch { notice, args } => AddActionView::CheckLocalBranch {
                notice: opt_text(notice),
                args: texts_of(args@),
            },
            AddAction::ListRemoteBranches { args } => AddActionView::ListRemoteBranches {
                args: texts_of(args@),
            },
            AddAction::Run { notice, args } => AddActionView::Run {
                notice: opt_text(notice),
                args: texts_of(args@),
            },
            AddAction::End { report, notice, error } => AddActionView::End {
                report: match report {
                    Some(r) => Some(r@),
                    None => None,
                },
                notice: opt_text(notice),
                error: opt_error(error),
            },
        }
    }
}

/// The values of a sequence of events.
pub open spec fn events_view(events: Seq<AddEvent>) -> Seq<AddEventView> {
    Seq::new(events.len(), |i: int| events[i]@)
}

/// What a request to add a worktree asks for.
pub struct AddRequest {
    pub repo_root: Seq<char>,
    pub branch: Seq<char>,
    pub path: Option<Seq<char>>,
    pub track: Option<Seq<char>>,
    pub json: bool,
    pub quiet: bool,
}

/// An end with an error and nothing else.
pub open spec fn failed(e: ErrorView) -> AddActionView {
    AddActionView::End { report: None, notice: None, error: Some(e) }
}

/// `line` for human readers who did not ask for quiet.
pub open spec fn said(req: AddRequest, line: Seq<char>) -> Option<Seq<char>> {
    if !req.json && !req.quiet {
        Some(line)
    } else {
        None
    }
}

/// The line that tells where the worktree is created.
pub open spec fn creating(req: AddRequest, target: Seq<char>) -> Option<Seq<char>> {
    said(req, "Creating worktree at: "@ + target)
}

/// The arguments that ask whether the local branch exists.
pub open spec fn local_branch_query(branch: Seq<char>) -> Seq<Seq<char>> {
    seq!["show-ref"@, "--verify"@, "--quiet"@, "refs/heads/"@ + branch]
}

/// The arguments that ask for the remote branches of the name.
pub open spec fn remote_branch_query(branch: Seq<char>) -> Seq<Seq<char>> {
    seq!["branch"@, "-r"@, "--list"@, "*/"@ + branch]
}

/// The last step: the tool is run, and its outcome ends the adding. `at` is
/// the place of the outcome among the events, `notice` what is said before
/// the run, `exists` whether the branch exists.
pub open spec fn run_step(
    req: AddRequest,
    target: Seq<char>,
    events: Seq<AddEventView>,
    at: int,
    notice: Option<Seq<char>>,
    exists: bool,
) -> AddActionView {
    if at < events.len() && events[at] is Ran {
        match events[at]->Ran_0 {
            Some(e) => failed(
                caused_error(
                    ErrorCode::GitError,
                    add_failure(req.branch, req.track, exists),
                    e.detail(),
                ),
            ),
            None => AddActionView::End {
                report: if req.json {
                    Some(
                        AddReportView {
                            success: true,
                            branch: req.branch,
                            path: target,
                            tracking: match req.track {
                                Some(remote) => Some(tracking_ref(remote, req.branch)),
                                None => None,
                            },
                        },
                    )
                } else {
                    None
                },
                notice: said(req, "Worktree created successfully"@),
                error: None,
            },
        }
    } else {
        AddActionView::Run { notice, args: add_args(req.branch, target, req.track, exists) }
    }
}

/// The steps after the listing: with a remote to track the tool is run at
/// once; else the local branch is looked for, then the remote branches of
/// the name, and the tool is run with what was found.
pub open spec fn choose_form(req: AddRequest, target: Seq<char>, events: Seq<AddEventView>)
    -> AddActionView {
    if req.track is Some {
        run_step(req, target, events, 2, creating(req, target), false)
    } else if !(2 < events.len() && events[2] is LocalBranch) {
        AddActionView::CheckLocalBranch {
            notice: creating(req, target),
            args: local_branch_query(req.branch),
        }
    } else if events[2]->LocalBranch_0 {
        run_step(req, target, events, 3, None, true)
    } else if !(3 < events.len() && events[3] is RemoteBranches) {
        AddActionView::ListRemoteBranches { args: remote_branch_query(req.branch) }
    } else {
        run_step(req, target, events, 4, None, trim(events[3]->RemoteBranches_0).len() > 0)
    }
}

/// What to do next about a request to add a worktree, after `events`.
///
/// The path is the one asked for, else the default beside the repository.
/// The adding ends with a user error where the path exists or the branch has
/// a worktree already, and with a tool error where the worktrees cannot be
/// listed or the tool fails. An event that does not answer what was asked
/// for is passed over, and the question is put again.
pub open spec fn add_action(req: AddRequest, events: Seq<AddEventView>) -> AddActionView {
    let wanted = match req.path {
        Some(custom) => Ok(custom),
        None => default_path(req.repo_root, req.branch),
    };
    match wanted {
        Err(e) => failed(e),
        Ok(target) => if !(0 < events.len() && events[0] is PathExists) {
            AddActionView::CheckPath { path: target }
        } else if events[0]->PathExists_0 {
            failed(plain_error(ErrorCode::UserError, path_taken_message(target)))
        } else if !(1 < events.len() && events[1] is Listed) {
            AddActionView::List
        } else {
            match events[1]->Listed_0 {
                Err(cause) => failed(
                    caused_error(
                        ErrorCode::GitError,
                        "failed to list existing worktrees"@,
                        cause,
                    ),
                ),
                Ok(records) => match existing_error(records, req.branch) {
                    Some(e) => failed(e),
                    None => choose_form(req, target, events),
                },
            }
        },
    }
}

/// The tool is asked to add a worktree only after the path was found free
/// and the listing showed no worktree on the branch.
pub proof fn lemma_add_runs_when_free(req: AddRequest, events: Seq<AddEventView>)
    requires
        add_action(req, events) is Run,
    ensures
        events.len() >= 2,
        events[0] == AddEventView::PathExists(false),
        events[1] matches AddEventView::Listed(Ok(records)) && forall|i: int|
            0 <= i < records.len() ==> !holds_branch(#[trigger] records[i], req.branch),
{
    let records = events[1]->Listed_0->Ok_0;
    lemma_branch_is_free(records, req.branch);
}

/// An end with an error and nothing else.
fn fail_with(e: WtError) -> (r: AddAction)
    ensures
        r@ == failed(e@),
{
    AddAction::End { report: None, notice: None, error: Some(e) }
}

/// `line` for human readers who did not ask for quiet.
fn say(json: bool, quiet: bool, line: String) -> (r: Option<String>)
    ensures
        opt_text(r) == (if !json && !quiet {
            Some(line@)
        } else {
            None
        }),
{
    if !json && !quiet {
        Some(line)
    } else {
        None
    }
}

/// The line that tells where the worktree is created.
fn say_creating(json: bool, quiet: bool, target: &str) -> (r: Option<String>)
    ensures
        opt_text(r) == (if !json && !quiet {
            Some("Creating worktree at: "@ + target@)
        } else {
            None
        }),
{
    let mut line = "Creating worktree at: ".to_owned();
    line.append(target);
    say(json, quiet, line)
}

/// The last step of the adding.
fn run_or_end(
    branch: &str,
    target: &str,
    track: Option<&str>,
    json: bool,
    quiet: bool,
    events: &Vec<AddEvent>,
    at: usize,
    notice: Option<String>,
    exists: bool,
    Ghost(req): Ghost<AddRequest>,
) -> (r: AddAction)
    requires
        req.branch == branch@,
        req.track == opt_str(track),
        req.json == json,
        req.quiet == quiet,
    ensures
        r@ == run_step(req, target@, events_view(events@), at as int, opt_text(notice), exists),
{
    if at < events.len() {
        assert(events_view(events@)[at as int] == events@[at as int]@);
        match &events[at] {
            AddEvent::Ran(Some(e)) => {
                let plan = add_command(branch, target, track, exists);
                return fail_with(
                    WtError::git_error_with_source(plan.failure.as_str(), e.detail().as_str()),
                );
            },
            AddEvent::Ran(None) => {
                let report = if json {
                    Some(add_report(branch, target, track))
                } else {
                    None
                };
                return AddAction::End {
                    report,
                    notice: say(json, quiet, "Worktree created successfully".to_owned()),
                    error: None,
                };
            },
            _ => {},
        }
    }
    AddAction::Run { notice, args: add_command(branch, target, track, exists).args }
}

/// Decides what to do next about a request to add a worktree for `branch`
/// to the repository at `repo_root`, after `events`.
///
/// The caller starts with no events, does what is returned, adds what came
/// of it to the events, and calls again until the action is an end.
pub fn add_worktree(
    repo_root: &str,
    branch: &str,
    path: Option<&str>,
    track: Option<&str>,
    json: bool,
    quiet: bool,
    events: &Vec<AddEvent>,
) -> (r: AddAction)
    ensures
        r@ == add_action(
            (AddRequest {
                repo_root: repo_root@,
                branch: branch@,
                path: opt_str(path),
                track: opt_str(track),
                json,
                quiet,
            }),
            events_view(events@),
        ),
{
    let ghost req = AddRequest {
        repo_root: repo_root@,
        branch: branch@,
        path: opt_str(path),
        track: opt_str(track),
        json,
        quiet,
    };
    let ghost seen = events_view(events@);
    let target = match target_path(repo_root, branch, path) {
        Ok(t) => t,
        Err(e) => {
            return fail_with(e);
        },
    };
    if events.len() == 0 {
        return AddAction::CheckPath { path: target };
    }
    assert(seen[0] == events@[0]@);
    match &events[0] {
        AddEvent::PathExists(taken) => {
            if *taken {
                return fail_with(path_taken(target.as_str()));
            }
        },
        _ => {
            return AddAction::CheckPath { path: target };
        },
    }
    if events.len() == 1 {
        return AddAction::List;
    }
    assert(seen[1] == events@[1]@);
    match &events[1] {
        AddEvent::Listed(worktrees) => {
            match check_existing_worktree(worktrees, branch) {
                Err(e) => {
                    return fail_with(e);
                },
                Ok(()) => {},
            }
        },
        AddEvent::ListFailed(cause) => {
            return fail_with(
                WtError::git_error_with_source("failed to list existing worktrees", cause.as_str()),
            );
        },
        _ => {
            return AddAction::List;
        },
    }
    let creating = say_creating(json, quiet, target.as_str());
    match track {
        Some(_) => run_or_end(
            branch,
            target.as_str(),
            track,
            json,
            quiet,
            events,
            2,
            creating,
            false,
            Ghost(req),
        ),
        None => {
            let mut local = "refs/heads/".to_owned();
            local.append(branch);
            let mut local_args: Vec<String> = Vec::new();
            local_args.push("show-ref".to_owned());
            local_args.push("--verify".to_owned());
            local_args.push("--quiet".to_owned());
            local_args.push(local);
            assert(texts_of(local_args@) =~= local_branch_query(branch@));
            if events.len() == 2 {
                return AddAction::CheckLocalBranch { notice: creating, args: local_args };
            }
            assert(seen[2] == events@[2]@);
            match &events[2] {
                AddEvent::LocalBranch(found) => {
                    if *found {
                        return run_or_end(
                            branch,
                            target.as_str(),
                            track,
                            json,
                            quiet,
                            events,
                            3,
                            None,
                            true,
                            Ghost(req),
                        );
                    }
                },
                _ => {
                    return AddAction::CheckLocalBranch { notice: creating, args: local_args };
                },
            }
            let mut pattern = "*/".to_owned();
            pattern.append(branch);
            let mut remote_args: Vec<String> = Vec::new();
            remote_args.push("branch".to_owned());
            remote_args.push("-r".to_owned());
            remote_args.push("--list".to_owned());
            remote_args.push(pattern);
            assert(texts_of(remote_args@) =~= remote_branch_query(branch@));
            if events.len() == 3 {
                return AddAction::ListRemoteBranches { args: remote_args };
            }
            assert(seen[3] == events@[3]@);
            match &events[3] {
                AddEvent::RemoteBranches(listing) => {
                    let exists = remote_branch_listed(listing.as_str());
                    run_or_end(
                        branch,
                        target.as_str(),
                        track,
                        json,
                        quiet,
                        events,
                        4,
                        None,
                        exists,
                        Ghost(req),
                    )
                },
                _ => AddAction::ListRemoteBranches { args: remote_args },
            }
        },
    }
}

/// Whether a branch reference lies in the namespace of local branches or in
/// that of remote-tracking branches.
pub open spec fn namespaced(reference: Seq<char>) -> bool {
    "refs/heads/"@.is_prefix_of(reference) || "refs/remotes/"@.is_prefix_of(reference)
}

/// Whether a worktree is checked out on a branch with the short name `name`.
/// A reference outside both namespaces has no short name here.
pub open spec fn checked_out(records: Seq<WorktreeView>, name: Seq<char>) -> bool {
    exists|i: int|
        0 <= i < records.len() && ((#[trigger] records[i]).branch matches Some(b) && namespaced(b)
            && short_name(b) == name)
}

/// The branch that a remote-tracking name, such as `origin/feature/x`, names
/// on its remote: what follows its first `/`; nothing where it has none.
pub open spec fn branch_on_remote(name: Seq<char>) -> Seq<char> {
    let k = first_index(name, '/');
    if 0 <= k < name.len() {
        name.subrange(k + 1, name.len() as int)
    } else {
        Seq::empty()
    }
}

/// Whether a line of the list of local branches offers a branch: it names
/// one, and no worktree is checked out on it.
pub open spec fn offers_local(records: Seq<WorktreeView>, line: Seq<char>) -> bool {
    trim(line).len() > 0 && !checked_out(records, trim(line))
}

/// Whether a line of the list of remote branches offers a branch: it names
/// one, it is no pointer to a `HEAD`, and no worktree is checked out on it or
/// on the branch it names on its remote.
pub open spec fn offers_remote(records: Seq<WorktreeView>, line: Seq<char>) -> bool {
    trim(line).len() > 0 && !contains(trim(line), "HEAD"@) && !checked_out(
        records,
        branch_on_remote(trim(line)),
    ) && !checked_out(records, trim(line))
}

/// Whether one of the first `upto` lines of `ls` offers the branch `t`.
pub open spec fn offered_among(
    records: Seq<WorktreeView>,
    ls: Seq<Seq<char>>,
    remote: bool,
    upto: int,
    t: Seq<char>,
) -> bool {
    exists|i: int|
        0 <= i < upto && i < ls.len() && trim(#[trigger] ls[i]) == t && (if remote {
            offers_remote(records, ls[i])
        } else {
            offers_local(records, ls[i])
        })
}

/// Whether the lists of local and of remote branches offer the branch `t`
/// for a new worktree.
pub open spec fn offered(
    records: Seq<WorktreeView>,
    local: Seq<char>,
    remote: Seq<char>,
    t: Seq<char>,
) -> bool {
    offered_among(records, lines(local), false, lines(local).len() as int, t) || offered_among(
        records,
        lines(remote),
        true,
        lines(remote).len() as int,
        t,
    )
}

/// Tells whether a worktree is checked out on a branch with the short name
/// `name`.
fn is_checked_out(worktrees: &Vec<Worktree>, name: &[char]) -> (r: bool)
    ensures
        r == checked_out(records_view(worktrees@), name@),
{
    let ghost records = records_view(worktrees@);
    let heads = chars_of("refs/heads/");
    let remotes = chars_of("refs/remotes/");
    let mut i: usize = 0;
    while i < worktrees.len()
        invariant
            i <= worktrees.len(),
            records == records_view(worktrees@),
            heads@ == "refs/heads/"@,
            remotes@ == "refs/remotes/"@,
            forall|j: int|
                0 <= j < i ==> !((#[trigger] records[j]).branch matches Some(b) && namespaced(b)
                    && short_name(b) == name@),
        decreases worktrees.len() - i,
    {
        assert(records[i as int] == worktrees@[i as int]@);
        match &worktrees[i].branch {
            Some(b) => {
                let full = chars_of(b.as_str());
                let all = full.as_slice();
                if (starts_with(all, heads.as_slice()) || starts_with(all, remotes.as_slice()))
                    && same_text(short_ref(all), name) {
                    return true;
                }
            },
            None => {},
        }
        i += 1;
    }
    false
}

/// Adds to `out` the branches that the lines `ls` offer.
fn offer_lines(
    out: &mut Vec<String>,
    worktrees: &Vec<Worktree>,
    ls: &Vec<&[char]>,
    remote: bool,
    Ghost(earlier): Ghost<spec_fn(Seq<char>) -> bool>,
)
    requires
        ascending(texts_of(old(out)@)),
        forall|t: Seq<char>| texts_of(old(out)@).contains(t) <==> earlier(t),
    ensures
        ascending(texts_of(final(out)@)),
        forall|t: Seq<char>|
            texts_of(final(out)@).contains(t) <==> (earlier(t) || offered_among(
                records_view(worktrees@),
                slice_texts(ls@),
                remote,
                ls.len() as int,
                t,
            )),
{
    let ghost records = records_view(worktrees@);
    let ghost all = slice_texts(ls@);
    let mut i: usize = 0;
    while i < ls.len()
        invariant
            i <= ls.len(),
            records == records_view(worktrees@),
            all == slice_texts(ls@),
            ascending(texts_of(out@)),
            forall|t: Seq<char>|
                texts_of(out@).contains(t) <==> (earlier(t) || offered_among(
                    records,
                    all,
                    remote,
                    i as int,
                    t,
                )),
        decreases ls.len() - i,
    {
        let name = cut_space(ls[i]);
        assert(name@ == trim(all[i as int]));
        let keep = if name.len() == 0 {
            false
        } else if remote {
            let k = find_char(name, '/');
            let on_remote = if k < name.len() {
                vstd::slice::slice_subrange(name, k + 1, name.len())
            } else {
                vstd::slice::slice_subrange(name, 0, 0)
            };
            assert(on_remote@ == branch_on_remote(name@));
            !mentions(name, "HEAD") && !is_checked_out(worktrees, on_remote) && !is_checked_out(
                worktrees,
                name,
            )
        } else {
            !is_checked_out(worktrees, name)
        };
        assert(keep == (if remote {
            offers_remote(records, all[i as int])
        } else {
            offers_local(records, all[i as int])
        }));
        let ghost before = texts_of(out@);
        if keep {
            insert_ascending(out, string_of(name));
        }
        proof {
            let after = texts_of(out@);
            assert forall|t: Seq<char>| after.contains(t) <==> (earlier(t) || offered_among(
                records,
                all,
                remote,
                i + 1,
                t,
            )) by {
                if offered_among(records, all, remote, i + 1, t) {
                    let j = choose|j: int|
                        0 <= j < i + 1 && j < all.len() && trim(#[trigger] all[j]) == t && (if remote {
                            offers_remote(records, all[j])
                        } else {
                            offers_local(records, all[j])
                        });
                    if j < i {
                        assert(offered_among(records, all, remote, i as int, t));
                    }
                }
                if offered_among(records, all, remote, i as int, t) {
                    let j = choose|j: int|
                        0 <= j < i && j < all.len() && trim(#[trigger] all[j]) == t && (if remote {
                            offers_remote(records, all[j])
                        } else {
                            offers_local(records, all[j])
                        });
                    assert(0 <= j < i + 1);
                }
                if keep && t == name@ {
                    assert(trim(all[i as int]) == t);
                }
            }
        }
        i += 1;
    }
}

/// The branches for which a worktree can be added, from the tool's lists of
/// local and of remote branches, one name to a line: each branch that a line
/// names and that no worktree is checked out on, remote names without those
/// that point to a `HEAD`. The result is in ascending order and holds no
/// branch twice.
pub fn get_available_branches(
    worktrees: &Vec<Worktree>,
    local_listing: &str,
    remote_listing: &str,
) -> (r: Vec<String>)
    ensures
        ascending(texts_of(r@)),
        forall|t: Seq<char>|
            texts_of(r@).contains(t) <==> offered(
                records_view(worktrees@),
                local_listing@,
                remote_listing@,
                t,
            ),
{
    let local = chars_of(local_listing);
    let remote = chars_of(remote_listing);
    let local_lines = split_lines(local.as_slice());
    let remote_lines = split_lines(remote.as_slice());
    let mut out: Vec<String> = Vec::new();
    let ghost records = records_view(worktrees@);
    let ghost none = |t: Seq<char>| false;
    offer_lines(&mut out, worktrees, &local_lines, false, Ghost(none));
    let ghost first = |t: Seq<char>|
        offered_among(records, lines(local_listing@), false, lines(local_listing@).len() as int, t);
    offer_lines(&mut out, worktrees, &remote_lines, true, Ghost(first));
    out
}

} // verus!
