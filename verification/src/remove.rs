//! Resolving a target to one worktree, and removing it: the rules that
//! protect a worktree, and the steps of a removal. The steps are decided
//! here and done by the caller, who asks the user and runs the tool.

use crate::error::{caused_error, opt_error, plain_error, ErrorCode, ErrorView, WtError};
use crate::git::{is_main_branch, names_main};
use crate::interactive::{display_name, display_names, format_branch_name, no_path_message};
use crate::path::{same_path, same_path_chars};
use crate::text::{
    align_columns, aligned, chars_of, contains, cut_space, mentions, opt_str, opt_text,
    same_text, string_of, texts_of, trim,
};
use crate::worktree::{
    branch_name, consistent, local_name, local_ref, named_branch, records_view, Worktree,
    WorktreeView,
};
use vstd::prelude::*;
use vstd::string::*;

verus! {

/// Whether the record `w` answers to `target`: its path is the path `target`,
/// or the name of its branch, without the namespace, is exactly `target`. A
/// remote-tracking branch answers to its name without the remote.
pub open spec fn matches_target(w: WorktreeView, target: Seq<char>) -> bool {
    same_path(w.path, target) || (w.branch matches Some(b) && branch_name(b) == target)
}

/// The indices of the records that answer to `target`, in ascending order.
pub open spec fn matching_indices(records: Seq<WorktreeView>, target: Seq<char>) -> Seq<int>
    decreases records.len(),
{
    if records.len() == 0 {
        Seq::empty()
    } else {
        let earlier = matching_indices(records.drop_last(), target);
        if matches_target(records.last(), target) {
            earlier.push(records.len() - 1)
        } else {
            earlier
        }
    }
}

/// The paths of the records at `indices`, each after a line feed and two
/// spaces but the first.
pub open spec fn listed_paths(records: Seq<WorktreeView>, indices: Seq<int>) -> Seq<char>
    decreases indices.len(),
{
    if indices.len() == 0 {
        Seq::empty()
    } else if indices.len() == 1 {
        records[indices[0]].path
    } else {
        listed_paths(records, indices.drop_last()) + "\n  "@ + records[indices.last()].path
    }
}

/// The message for a target that no record answers to.
pub open spec fn no_match_message(target: Seq<char>) -> Seq<char> {
    "no worktree found matching '"@ + target + "'"@
}

/// The message for a target that the records at `indices` answer to.
pub open spec fn many_matches_message(
    records: Seq<WorktreeView>,
    target: Seq<char>,
    indices: Seq<int>,
) -> Seq<char> {
    "target '"@ + target + "' matches multiple worktrees:\n  "@ + listed_paths(records, indices)
}

/// What `matching_indices` holds: exactly the indices of the records that
/// answer to the target, each once, in ascending order.
pub proof fn lemma_matching_indices(records: Seq<WorktreeView>, target: Seq<char>)
    ensures
        forall|k: int|
            0 <= k < matching_indices(records, target).len() ==> 0 <= #[trigger] matching_indices(
                records,
                target,
            )[k] < records.len() && matches_target(
                records[matching_indices(records, target)[k]],
                target,
            ),
        forall|j: int, k: int|
            0 <= j < k < matching_indices(records, target).len() ==> matching_indices(
                records,
                target,
            )[j] < matching_indices(records, target)[k],
        forall|i: int|
            0 <= i < records.len() && matches_target(#[trigger] records[i], target)
                ==> matching_indices(records, target).contains(i),
        matching_indices(records, target).len() <= records.len(),
    decreases records.len(),
{
    if records.len() > 0 {
        let head = records.drop_last();
        let earlier = matching_indices(head, target);
        let all = matching_indices(records, target);
        lemma_matching_indices(head, target);
        assert forall|k: int| 0 <= k < all.len() implies 0 <= #[trigger] all[k] < records.len()
            && matches_target(records[all[k]], target) by {
            if k < earlier.len() {
                assert(all[k] == earlier[k]);
                assert(records[earlier[k]] == head[earlier[k]]);
            }
        }
        assert forall|j: int, k: int| 0 <= j < k < all.len() implies all[j] < all[k] by {
            assert(all[j] == earlier[j]);
            if k < earlier.len() {
                assert(all[k] == earlier[k]);
            }
        }
        assert forall|i: int|
            0 <= i < records.len() && matches_target(#[trigger] records[i], target) implies all.contains(
            i,
        ) by {
            if i < head.len() {
                assert(head[i] == records[i]);
                let k = choose|k: int| 0 <= k < earlier.len() && earlier[k] == i;
                assert(all[k] == i);
            } else {
                assert(all[all.len() - 1] == i);
            }
        }
    }
}

/// A target resolves to a record exactly when that record is the only one
/// that answers to it.
pub proof fn lemma_unique_match(records: Seq<WorktreeView>, target: Seq<char>, i: int)
    requires
        0 <= i < records.len(),
    ensures
        matching_indices(records, target) == seq![i] <==> (matches_target(records[i], target)
            && forall|j: int| 0 <= j < records.len() && j != i ==> !matches_target(#[trigger] records[j], target)),
{
    lemma_matching_indices(records, target);
    let found = matching_indices(records, target);
    if matches_target(records[i], target) && (forall|j: int|
        0 <= j < records.len() && j != i ==> !matches_target(#[trigger] records[j], target)) {
        assert(found.contains(i));
        assert forall|k: int| 0 <= k < found.len() implies found[k] == i by {
            assert(matches_target(records[found[k]], target));
        }
        if found.len() > 1 {
            assert(found[0] < found[1]);
        }
        assert(found == seq![i]);
    }
    if found == seq![i] {
        assert(found[0] == i);
        assert forall|j: int| 0 <= j < records.len() && j != i implies !matches_target(
            #[trigger] records[j],
            target,
        ) by {
            if matches_target(records[j], target) {
                assert(found.contains(j));
            }
        }
    }
}

/// In a consistent snapshot the path of a record resolves to that record,
/// unless the name of some branch reads as that path.
pub proof fn lemma_path_resolves(records: Seq<WorktreeView>, i: int)
    requires
        consistent(records),
        0 <= i < records.len(),
        forall|j: int|
            0 <= j < records.len() ==> !((#[trigger] records[j]).branch matches Some(b)
                && branch_name(b) == records[i].path),
    ensures
        matching_indices(records, records[i].path) == seq![i],
{
    let target = records[i].path;
    assert(same_path(target, target));
    assert forall|j: int| 0 <= j < records.len() && j != i implies !matches_target(
        #[trigger] records[j],
        target,
    ) by {
        if j < i {
            assert(!same_path(records[j].path, records[i].path));
        } else {
            assert(!same_path(records[i].path, records[j].path));
        }
    }
    lemma_unique_match(records, target, i);
}

/// The name of a branch resolves to the record on that branch where no other
/// record is on a branch of that name and none has the name as its path.
pub proof fn lemma_branch_resolves(records: Seq<WorktreeView>, i: int, name: Seq<char>)
    requires
        0 <= i < records.len(),
        records[i].branch matches Some(b) && branch_name(b) == name,
        forall|j: int|
            0 <= j < records.len() && j != i ==> !((#[trigger] records[j]).branch matches Some(b)
                && branch_name(b) == name),
        forall|j: int| 0 <= j < records.len() ==> !same_path((#[trigger] records[j]).path, name),
    ensures
        matching_indices(records, name) == seq![i],
{
    lemma_unique_match(records, name, i);
}

/// A record on `refs/heads/` + `name` and the same record on the bare `name`
/// answer to the same targets, unless `name` begins with a namespace itself.
pub proof fn lemma_prefix_stripping(w: WorktreeView, name: Seq<char>, target: Seq<char>)
    requires
        !"refs/heads/"@.is_prefix_of(name),
        !"refs/remotes/"@.is_prefix_of(name),
    ensures
        matches_target(WorktreeView { branch: Some("refs/heads/"@ + name), ..w }, target)
            == matches_target(WorktreeView { branch: Some(name), ..w }, target),
{
    crate::worktree::lemma_branch_name_of_bare(name);
}

/// Two records that answer to a target make the target ambiguous: it
/// resolves to neither.
pub proof fn lemma_two_matches_are_ambiguous(
    records: Seq<WorktreeView>,
    target: Seq<char>,
    i: int,
    j: int,
)
    requires
        0 <= i < j < records.len(),
        matches_target(records[i], target),
        matches_target(records[j], target),
    ensures
        matching_indices(records, target).len() >= 2,
{
    lemma_matching_indices(records, target);
    let found = matching_indices(records, target);
    assert(found.contains(i));
    assert(found.contains(j));
    let a = choose|a: int| 0 <= a < found.len() && found[a] == i;
    let b = choose|b: int| 0 <= b < found.len() && found[b] == j;
    assert(a != b);
}

/// Records that track a branch of the same name on two remotes both answer
/// to that name, so the name is ambiguous: no remote is preferred. The
/// remotes' names hold no `/`.
pub proof fn lemma_remotes_share_a_name(
    records: Seq<WorktreeView>,
    i: int,
    j: int,
    first: Seq<char>,
    second: Seq<char>,
    name: Seq<char>,
)
    requires
        0 <= i < j < records.len(),
        !first.contains('/'),
        !second.contains('/'),
        records[i].branch == Some("refs/remotes/"@ + first + seq!['/'] + name),
        records[j].branch == Some("refs/remotes/"@ + second + seq!['/'] + name),
    ensures
        matching_indices(records, name).len() >= 2,
{
    crate::worktree::lemma_name_of_remote(first, name);
    crate::worktree::lemma_name_of_remote(second, name);
    lemma_two_matches_are_ambiguous(records, name, i, j);
}

/// Whether the record `w` answers to the target with the characters `target`.
fn answers_to(w: &Worktree, target: &[char]) -> (r: bool)
    ensures
        r == matches_target(w@, target@),
{
    let path = chars_of(w.path.as_str());
    if same_path_chars(path.as_slice(), target) {
        return true;
    }
    match &w.branch {
        Some(b) => {
            let full = chars_of(b.as_str());
            same_text(named_branch(full.as_slice()), target)
        },
        None => false,
    }
}

/// Finds the one worktree that `target` names, by its path or by the short
/// name of its branch.
///
/// Fails with a not-found error where no record answers to the target, and
/// with a user error that lists the paths of all that do where more than one
/// does.
pub fn find_worktree<'a>(worktrees: &'a [Worktree], target: &str) -> (r: Result<
    &'a Worktree,
    WtError,
>)
    ensures
        ({
            let records = records_view(worktrees@);
            let found = matching_indices(records, target@);
            if found.len() == 1 {
                r matches Ok(w) && *w == worktrees[found[0]]
            } else if found.len() == 0 {
                r matches Err(e) && e@ == plain_error(
                    ErrorCode::NotFound,
                    no_match_message(target@),
                )
            } else {
                r matches Err(e) && e@ == plain_error(
                    ErrorCode::UserError,
                    many_matches_message(records, target@, found),
                )
            }
        }),
{
    let wanted = chars_of(target);
    let ghost records = records_view(worktrees@);
    let mut found: Vec<usize> = Vec::new();
    let mut i: usize = 0;
    assert(records.take(0) == Seq::<WorktreeView>::empty());
    while i < worktrees.len()
        invariant
            i <= worktrees.len(),
            wanted@ == target@,
            records == records_view(worktrees@),
            found@.len() == matching_indices(records.take(i as int), target@).len(),
            forall|k: int|
                0 <= k < found@.len() ==> found@[k] as int == matching_indices(
                    records.take(i as int),
                    target@,
                )[k],
            forall|k: int| 0 <= k < found@.len() ==> (#[trigger] found@[k]) < i,
        decreases worktrees.len() - i,
    {
        assert(records.take(i + 1).drop_last() == records.take(i as int));
        assert(records.take(i + 1).last() == worktrees@[i as int]@);
        if answers_to(&worktrees[i], wanted.as_slice()) {
            found.push(i);
        }
        i += 1;
    }
    assert(records.take(worktrees.len() as int) == records);
    let ghost indices = matching_indices(records, target@);
    if found.len() == 0 {
        let mut text = "no worktree found matching '".to_owned();
        text.append(target);
        text.append("'");
        Err(WtError::NotFound { message: text, source: None })
    } else if found.len() == 1 {
        Ok(&worktrees[found[0]])
    } else {
        let mut text = "target '".to_owned();
        text.append(target);
        text.append("' matches multiple worktrees:\n  ");
        let ghost lead = text@;
        let mut k: usize = 0;
        assert(indices.take(0) == Seq::<int>::empty());
        assert(lead + Seq::<char>::empty() == lead);
        while k < found.len()
            invariant
                k <= found.len(),
                found@.len() == indices.len(),
                forall|j: int| 0 <= j < found@.len() ==> found@[j] as int == indices[j],
                forall|j: int| 0 <= j < found@.len() ==> (#[trigger] found@[j]) < worktrees.len(),
                records == records_view(worktrees@),
                text@ == lead + listed_paths(records, indices.take(k as int)),
            decreases found.len() - k,
        {
            let ghost sofar = indices.take(k as int);
            let ghost next = indices.take(k + 1);
            assert(next.drop_last() == sofar);
            assert(next.last() == found@[k as int] as int);
            let w = &worktrees[found[k]];
            assert(w.path@ == records[next.last()].path);
            if k > 0 {
                text.append("\n  ");
            }
            text.append(w.path.as_str());
            proof {
                if k == 0 {
                    assert(listed_paths(records, sofar) == Seq::<char>::empty());
                    assert(listed_paths(records, next) == records[next[0]].path);
                    assert(lead + Seq::<char>::empty() + w.path@ == lead + listed_paths(
                        records,
                        next,
                    ));
                } else {
                    assert(listed_paths(records, next) == listed_paths(records, sofar) + "\n  "@
                        + records[next.last()].path);
                    assert(lead + listed_paths(records, sofar) + "\n  "@ + w.path@ == lead
                        + listed_paths(records, next));
                }
            }
            k += 1;
        }
        assert(indices.take(found.len() as int) == indices);
        Err(WtError::UserError { message: text })
    }
}

/// Why a worktree may not be removed.
#[derive(Debug, Clone, Copy, PartialEq, Eq, Structural)]
pub enum Protection {
    /// It is the bare location of the repository.
    Bare,
    /// It holds the main branch.
    MainBranch,
    /// It is locked, and the caller did not override the lock.
    Locked,
}

/// What to do about a request to remove a worktree.
#[derive(Debug, Clone, Copy, PartialEq, Eq, Structural)]
pub enum RemovalStep {
    /// Refuse: the worktree is protected.
    Refuse(Protection),
    /// Leave it: the caller asked for no questions and did not force.
    Skip,
    /// Ask the user, and remove only on a yes.
    Confirm,
    /// Remove it.
    Remove,
}

/// How a request to remove a worktree ended.
#[derive(Debug, Clone, Copy, PartialEq, Eq, Structural)]
pub enum RemovalOutcome {
    /// The worktree is protected.
    Refused(Protection),
    /// Nothing was asked and nothing removed.
    Skipped,
    /// The user said no.
    Cancelled,
    /// The worktree is gone.
    Removed,
    /// The tool refused because the worktree holds changes.
    Uncommitted,
}

/// The outcome of a removal, for machine readers.
#[derive(Debug, Clone, PartialEq, Eq)]
pub struct RemoveResult {
    pub success: bool,
    pub removed: bool,
    pub branch: Option<String>,
    pub path: Option<String>,
    pub reason: Option<String>,
}

/// Whether the record holds the main branch `main`.
pub open spec fn on_main_branch(w: WorktreeView, main: Option<Seq<char>>) -> bool {
    w.branch matches Some(b) && names_main(main, b)
}

/// The protection that keeps the record from removal, if any. A bare location
/// and a worktree on the main branch are protected whatever the caller says; a
/// locked worktree is protected unless the caller forces.
pub open spec fn protection(w: WorktreeView, main: Option<Seq<char>>, force: bool) -> Option<
    Protection,
> {
    if w.bare {
        Some(Protection::Bare)
    } else if on_main_branch(w, main) {
        Some(Protection::MainBranch)
    } else if w.locked && !force {
        Some(Protection::Locked)
    } else {
        None
    }
}

/// What to do about a request to remove the record.
pub open spec fn removal_step(w: WorktreeView, main: Option<Seq<char>>, force: bool, quiet: bool)
    -> RemovalStep {
    match protection(w, main, force) {
        Some(p) => RemovalStep::Refuse(p),
        None => if force {
            RemovalStep::Remove
        } else if quiet {
            RemovalStep::Skip
        } else {
            RemovalStep::Confirm
        },
    }
}

/// Decides what to do about a request to remove `w`, in a repository whose
/// main branch is `main`.
pub fn plan_removal(w: &Worktree, main: Option<&str>, force: bool, quiet: bool) -> (step:
    RemovalStep)
    ensures
        step == removal_step(w@, opt_str(main), force, quiet),
        w.bare ==> step == RemovalStep::Refuse(Protection::Bare),
        on_main_branch(w@, opt_str(main)) ==> step is Refuse,
{
    if w.bare {
        return RemovalStep::Refuse(Protection::Bare);
    }
    let on_main = match &w.branch {
        Some(b) => is_main_branch(main, b.as_str()),
        None => false,
    };
    if on_main {
        RemovalStep::Refuse(Protection::MainBranch)
    } else if w.locked && !force {
        RemovalStep::Refuse(Protection::Locked)
    } else if force {
        RemovalStep::Remove
    } else if quiet {
        RemovalStep::Skip
    } else {
        RemovalStep::Confirm
    }
}

/// A bare location is never removed, whatever the flags.
pub proof fn lemma_bare_is_never_removed(
    w: WorktreeView,
    main: Option<Seq<char>>,
    force: bool,
    quiet: bool,
)
    requires
        w.bare,
    ensures
        removal_step(w, main, force, quiet) == RemovalStep::Refuse(Protection::Bare),
{
}

/// A worktree whose branch, without a leading `refs/heads/`, is the main
/// branch is never removed, whatever the flags.
pub proof fn lemma_main_branch_is_never_removed(
    w: WorktreeView,
    main: Seq<char>,
    force: bool,
    quiet: bool,
)
    requires
        w.branch matches Some(b) && local_name(b) == main,
    ensures
        removal_step(w, Some(main), force, quiet) is Refuse,
{
}

/// A worktree is removed, at once or after a yes, only if it is not
/// protected; and where no main branch is known, none is protected as one.
pub proof fn lemma_removal_is_gated(
    w: WorktreeView,
    main: Option<Seq<char>>,
    force: bool,
    quiet: bool,
)
    ensures
        removal_step(w, main, force, quiet) is Remove || removal_step(w, main, force, quiet)
            is Confirm ==> !w.bare && !on_main_branch(w, main) && (!w.locked || force),
        main is None ==> removal_step(w, main, force, quiet) != RemovalStep::Refuse(
            Protection::MainBranch,
        ),
{
}

/// The branch of the record as it is named in questions, errors and
/// reports: its reference without a leading `refs/heads/`, which is the name
/// that is held against the main branch; `<detached>` for a record without a
/// branch.
pub open spec fn branch_display(w: WorktreeView) -> Seq<char> {
    match w.branch {
        Some(b) => local_name(b),
        None => "<detached>"@,
    }
}

/// The branch of `w` as it is named in questions, errors and reports.
pub fn shown_branch(w: &Worktree) -> (r: String)
    ensures
        r@ == branch_display(w@),
{
    match &w.branch {
        Some(b) => {
            let full = chars_of(b.as_str());
            string_of(local_ref(full.as_slice()))
        },
        None => "<detached>".to_owned(),
    }
}

/// The message of the error for a protected worktree. For a worktree on the
/// main branch it names the branch.
pub open spec fn refusal_message(p: Protection, w: WorktreeView) -> Seq<char> {
    match p {
        Protection::Bare => "cannot remove the main worktree (bare repository location)"@,
        Protection::MainBranch => "cannot remove the main branch worktree (branch '"@
            + branch_display(w) + "')"@,
        Protection::Locked => "worktree '"@ + w.path
            + "' is locked; use `git worktree unlock` first or `git worktree remove --force`"@,
    }
}

/// The error for a worktree that is protected as the main branch names the
/// main branch.
pub proof fn lemma_refusal_names_the_main_branch(w: WorktreeView, main: Seq<char>)
    requires
        on_main_branch(w, Some(main)),
    ensures
        refusal_message(Protection::MainBranch, w)
            == "cannot remove the main branch worktree (branch '"@ + main + "')"@,
{
}

/// The reason that a report gives for an outcome; `None` for a removal that
/// took place.
pub open spec fn outcome_reason(outcome: RemovalOutcome) -> Option<Seq<char>> {
    match outcome {
        RemovalOutcome::Refused(Protection::Bare) => Some(
            "cannot remove the main worktree (bare repository location)"@,
        ),
        RemovalOutcome::Refused(Protection::MainBranch) => Some(
            "cannot remove the main branch worktree"@,
        ),
        RemovalOutcome::Refused(Protection::Locked) => Some("worktree is locked"@),
        RemovalOutcome::Skipped => Some("skipped: --quiet without --force"@),
        RemovalOutcome::Cancelled => Some("cancelled by user"@),
        RemovalOutcome::Removed => None,
        RemovalOutcome::Uncommitted => Some("worktree has uncommitted changes"@),
    }
}

/// Whether an outcome counts as a success: nothing was refused.
pub open spec fn outcome_success(outcome: RemovalOutcome) -> bool {
    outcome is Skipped || outcome is Cancelled || outcome is Removed
}

/// The error for a worktree that is protected by `p`: a user error that names
/// the protection. For a lock it names the way to unlock and the way to
/// override.
pub fn refusal_error(p: Protection, w: &Worktree) -> (e: WtError)
    ensures
        e@ == plain_error(ErrorCode::UserError, refusal_message(p, w@)),
{
    match p {
        Protection::Bare => WtError::user_error(
            "cannot remove the main worktree (bare repository location)",
        ),
        Protection::MainBranch => {
            let mut text = "cannot remove the main branch worktree (branch '".to_owned();
            text.append(shown_branch(w).as_str());
            text.append("')");
            WtError::UserError { message: text }
        },
        Protection::Locked => {
            let mut text = "worktree '".to_owned();
            text.append(w.path.as_str());
            text.append(
                "' is locked; use `git worktree unlock` first or `git worktree remove --force`",
            );
            WtError::UserError { message: text }
        },
    }
}

/// The mathematical value of a [`RemoveResult`].
pub struct ReportView {
    pub success: bool,
    pub removed: bool,
    pub branch: Option<Seq<char>>,
    pub path: Option<Seq<char>>,
    pub reason: Option<Seq<char>>,
}

impl View for RemoveResult {
    type V = ReportView;

    open spec fn view(&self) -> ReportView {
        ReportView {
            success: self.success,
            removed: self.removed,
            branch: opt_text(self.branch),
            path: opt_text(self.path),
            reason: opt_text(self.reason),
        }
    }
}

/// The report of how the removal of the record ended: whether nothing was
/// refused, whether the worktree is gone, the branch and the path as they
/// are shown, and the reason where it is not gone.
pub open spec fn report_of(w: WorktreeView, outcome: RemovalOutcome) -> ReportView {
    ReportView {
        success: outcome_success(outcome),
        removed: outcome is Removed,
        branch: Some(branch_display(w)),
        path: Some(w.path),
        reason: outcome_reason(outcome),
    }
}

/// The report of how the removal of `w` ended.
pub fn removal_report(w: &Worktree, outcome: RemovalOutcome) -> (r: RemoveResult)
    ensures
        r@ == report_of(w@, outcome),
{
    let reason = match outcome {
        RemovalOutcome::Refused(Protection::Bare) => Some(
            "cannot remove the main worktree (bare repository location)".to_owned(),
        ),
        RemovalOutcome::Refused(Protection::MainBranch) => Some(
            "cannot remove the main branch worktree".to_owned(),
        ),
        RemovalOutcome::Refused(Protection::Locked) => Some("worktree is locked".to_owned()),
        RemovalOutcome::Skipped => Some("skipped: --quiet without --force".to_owned()),
        RemovalOutcome::Cancelled => Some("cancelled by user".to_owned()),
        RemovalOutcome::Removed => None,
        RemovalOutcome::Uncommitted => Some("worktree has uncommitted changes".to_owned()),
    };
    let success = match outcome {
        RemovalOutcome::Skipped => true,
        RemovalOutcome::Cancelled => true,
        RemovalOutcome::Removed => true,
        _ => false,
    };
    let removed = match outcome {
        RemovalOutcome::Removed => true,
        _ => false,
    };
    RemoveResult {
        success,
        removed,
        branch: Some(shown_branch(w)),
        path: Some(w.path.clone()),
        reason,
    }
}

/// The arguments that have the tool remove the worktree at `path`. The tool
/// is not told to force: it refuses a worktree that holds changes.
pub fn remove_command(path: &str) -> (args: Vec<String>)
    ensures
        texts_of(args@) == seq!["worktree"@, "remove"@, path@],
{
    let mut args: Vec<String> = Vec::new();
    args.push("worktree".to_owned());
    args.push("remove".to_owned());
    args.push(path.to_owned());
    assert(texts_of(args@) =~= seq!["worktree"@, "remove"@, path@]);
    args
}

/// Whether an answer to the question says yes: it is `y` or `Y`, white space
/// around it aside.
pub open spec fn says_yes(response: Seq<char>) -> bool {
    trim(response) == "y"@ || trim(response) == "Y"@
}

/// Tells whether the user's answer to the question says yes.
pub fn confirmed(response: &str) -> (r: bool)
    ensures
        r == says_yes(response@),
{
    let chars = chars_of(response);
    let answer = cut_space(chars.as_slice());
    crate::text::is_word(answer, "y") || crate::text::is_word(answer, "Y")
}

/// Whether the tool's complaint says that the worktree holds changes.
pub open spec fn tells_of_changes(detail: Seq<char>) -> bool {
    contains(detail, "uncommitted changes"@) || contains(detail, "modified files"@) || contains(
        detail,
        "changes would be lost"@,
    )
}

/// The message for a removal that the tool refused because of changes in
/// the worktree.
pub open spec fn changes_message(detail: Seq<char>) -> Seq<char> {
    "worktree has uncommitted changes; use --force to remove anyway\nOriginal error: "@ + detail
}

/// The error for a removal that the tool refused with the complaint
/// `detail`: the user's to mend where the complaint tells of changes in the
/// worktree, else a tool error with the complaint as its cause.
pub open spec fn failure_error(detail: Seq<char>) -> ErrorView {
    if tells_of_changes(detail) {
        plain_error(ErrorCode::UserError, changes_message(detail))
    } else {
        caused_error(ErrorCode::GitError, "failed to remove worktree"@, detail)
    }
}

/// The outcome of a removal that the tool refused, where it has one of its
/// own: changes in the worktree.
pub open spec fn failure_outcome(detail: Seq<char>) -> Option<RemovalOutcome> {
    if tells_of_changes(detail) {
        Some(RemovalOutcome::Uncommitted)
    } else {
        None
    }
}

/// The outcome and the error for a removal that the tool refused with the
/// complaint `failure`, cause included.
pub fn removal_failure(failure: &WtError) -> (r: (Option<RemovalOutcome>, WtError))
    ensures
        r.0 == failure_outcome(failure@.detail()),
        r.1@ == failure_error(failure@.detail()),
{
    let detail = failure.detail();
    let chars = chars_of(detail.as_str());
    let text = chars.as_slice();
    if mentions(text, "uncommitted changes") || mentions(text, "modified files") || mentions(
        text,
        "changes would be lost",
    ) {
        let mut message =
            "worktree has uncommitted changes; use --force to remove anyway\nOriginal error: ".to_owned();
        message.append(detail.as_str());
        (Some(RemovalOutcome::Uncommitted), WtError::UserError { message })
    } else {
        (None, WtError::git_error_with_source("failed to remove worktree", detail.as_str()))
    }
}

/// What happened since the removal was last decided on.
#[derive(Debug, Clone, PartialEq, Eq)]
pub enum RemovalEvent {
    /// Nothing yet.
    Start,
    /// The user answered the question.
    Answer(String),
    /// The tool ran; `None` where it succeeded.
    Ran(Option<WtError>),
}

/// How a removal ends: what to report to machine readers, what to tell the
/// user, and the error to end with.
#[derive(Debug, Clone, PartialEq, Eq)]
pub struct RemovalEnd {
    pub report: Option<RemoveResult>,
    pub notice: Option<String>,
    pub error: Option<WtError>,
}

/// What to do next about a removal.
#[derive(Debug, Clone, PartialEq, Eq)]
pub enum RemovalAction {
    /// Ask the user, and come back with the answer.
    Ask { prompt: String },
    /// Run the tool with these arguments, and come back with how it went.
    Run { args: Vec<String> },
    /// Stop.
    End(RemovalEnd),
}

/// The mathematical value of a [`RemovalEvent`].
pub enum EventView {
    Start,
    Answer(Seq<char>),
    Ran(Option<ErrorView>),
}

/// The mathematical value of a [`RemovalEnd`].
pub struct EndView {
    pub report: Option<ReportView>,
    pub notice: Option<Seq<char>>,
    pub error: Option<ErrorView>,
}

/// The mathematical value of a [`RemovalAction`].
pub enum ActionView {
    Ask(Seq<char>),
    Run(Seq<Seq<char>>),
    End(EndView),
}

impl View for RemovalEvent {
    type V = EventView;

    open spec fn view(&self) -> EventView {
        match *self {
            RemovalEvent::Start => EventView::Start,
            RemovalEvent::Answer(a) => EventView::Answer(a@),
            RemovalEvent::Ran(r) => EventView::Ran(opt_error(r)),
        }
    }
}

impl View for RemovalEnd {
    type V = EndView;

    open spec fn view(&self) -> EndView {
        EndView {
            report: match self.report {
                Some(r) => Some(r@),
                None => None,
            },
            notice: opt_text(self.notice),
            error: opt_error(self.error),
        }
    }
}

impl View for RemovalAction {
    type V = ActionView;

    open spec fn view(&self) -> ActionView {
        match *self {
            RemovalAction::Ask { prompt } => ActionView::Ask(prompt@),
            RemovalAction::Run { args } => ActionView::Run(texts_of(args@)),
            RemovalAction::End(end) => ActionView::End(end@),
        }
    }
}

/// The question that is put to the user before a removal.
pub open spec fn confirm_prompt(w: WorktreeView) -> Seq<char> {
    "Remove worktree '"@ + branch_display(w) + "' at "@ + w.path + "? (y/N): "@
}

/// The end of a removal with `outcome`: machine readers get the report of
/// the outcome, and only they.
pub open spec fn ended(
    w: WorktreeView,
    json: bool,
    outcome: RemovalOutcome,
    notice: Option<Seq<char>>,
    error: Option<ErrorView>,
) -> ActionView {
    ActionView::End(
        EndView {
            report: if json {
                Some(report_of(w, outcome))
            } else {
                None
            },
            notice,
            error,
        },
    )
}

/// What follows a run of the tool. A success is reported, to human readers
/// unless they asked for quiet. A failure ends the removal with its error; it
/// is reported to machine readers where it is of the user's making.
pub open spec fn after_run(w: WorktreeView, json: bool, quiet: bool, result: Option<ErrorView>)
    -> ActionView {
    match result {
        None => ended(
            w,
            json,
            RemovalOutcome::Removed,
            if !json && !quiet {
                Some("Worktree removed."@)
            } else {
                None
            },
            None,
        ),
        Some(e) => match failure_outcome(e.detail()) {
            Some(outcome) => ended(w, json, outcome, None, Some(failure_error(e.detail()))),
            None => ActionView::End(
                EndView { report: None, notice: None, error: Some(failure_error(e.detail())) },
            ),
        },
    }
}

/// What to do next about the removal of the record, after `event`.
///
/// A protected worktree ends the removal with the error of its protection,
/// whatever the event. Without force and with quiet the worktree is left
/// alone. Without force and without quiet the user is asked, and anything
/// but a yes cancels. Else the tool is run, and its outcome ends the
/// removal.
pub open spec fn removal_action(
    w: WorktreeView,
    main: Option<Seq<char>>,
    force: bool,
    json: bool,
    quiet: bool,
    event: EventView,
) -> ActionView {
    match removal_step(w, main, force, quiet) {
        RemovalStep::Refuse(p) => ended(
            w,
            json,
            RemovalOutcome::Refused(p),
            None,
            Some(plain_error(ErrorCode::UserError, refusal_message(p, w))),
        ),
        RemovalStep::Skip => ended(w, json, RemovalOutcome::Skipped, None, None),
        RemovalStep::Confirm => match event {
            EventView::Start => ActionView::Ask(confirm_prompt(w)),
            EventView::Answer(a) => if says_yes(a) {
                ActionView::Run(seq!["worktree"@, "remove"@, w.path])
            } else {
                ended(
                    w,
                    json,
                    RemovalOutcome::Cancelled,
                    if json {
                        None
                    } else {
                        Some("Cancelled."@)
                    },
                    None,
                )
            },
            EventView::Ran(r) => after_run(w, json, quiet, r),
        },
        RemovalStep::Remove => match event {
            EventView::Ran(r) => after_run(w, json, quiet, r),
            _ => ActionView::Run(seq!["worktree"@, "remove"@, w.path]),
        },
    }
}

/// The tool is never run on a protected worktree, whatever happened before
/// and whatever the flags for output say; and a removal that is refused ends
/// with a user error.
pub proof fn lemma_protected_is_never_run(
    w: WorktreeView,
    main: Option<Seq<char>>,
    force: bool,
    json: bool,
    quiet: bool,
    event: EventView,
)
    requires
        protection(w, main, force) is Some,
    ensures
        removal_action(w, main, force, json, quiet, event) matches ActionView::End(end)
            && (end.error matches Some(e) && e.code == ErrorCode::UserError),
{
}

/// A bare location and a worktree on the main branch are protected whatever
/// the force flag says.
pub proof fn lemma_force_does_not_lift_protection(
    w: WorktreeView,
    main: Option<Seq<char>>,
    force: bool,
)
    requires
        w.bare || on_main_branch(w, main),
    ensures
        protection(w, main, force) is Some,
        protection(w, main, force) != Some(Protection::Locked),
{
}

/// The end of a removal.
fn end_with(
    w: &Worktree,
    json: bool,
    outcome: RemovalOutcome,
    notice: Option<String>,
    error: Option<WtError>,
) -> (r: RemovalAction)
    ensures
        r@ == ended(w@, json, outcome, opt_text(notice), opt_error(error)),
{
    let report = if json {
        Some(removal_report(w, outcome))
    } else {
        None
    };
    RemovalAction::End(RemovalEnd { report, notice, error })
}

/// What follows a run of the tool.
fn follow_run(w: &Worktree, json: bool, quiet: bool, result: &Option<WtError>) -> (r:
    RemovalAction)
    ensures
        r@ == after_run(w@, json, quiet, opt_error(*result)),
{
    match result {
        None => {
            let notice = if !json && !quiet {
                Some("Worktree removed.".to_owned())
            } else {
                None
            };
            end_with(w, json, RemovalOutcome::Removed, notice, None)
        },
        Some(e) => {
            let (outcome, error) = removal_failure(e);
            match outcome {
                Some(o) => end_with(w, json, o, None, Some(error)),
                None => RemovalAction::End(
                    RemovalEnd { report: None, notice: None, error: Some(error) },
                ),
            }
        },
    }
}

/// Decides what to do next about the removal of `w`, in a repository whose
/// main branch is `main`, after `event`.
///
/// The caller starts with [`RemovalEvent::Start`], does what is returned, and
/// calls again with what came of it, until the action is an end.
pub fn remove_worktree(
    w: &Worktree,
    main: Option<&str>,
    force: bool,
    json: bool,
    quiet: bool,
    event: &RemovalEvent,
) -> (r: RemovalAction)
    ensures
        r@ == removal_action(w@, opt_str(main), force, json, quiet, event@),
        protection(w@, opt_str(main), force) is Some ==> !(r is Run),
{
    match plan_removal(w, main, force, quiet) {
        RemovalStep::Refuse(p) => end_with(
            w,
            json,
            RemovalOutcome::Refused(p),
            None,
            Some(refusal_error(p, w)),
        ),
        RemovalStep::Skip => end_with(w, json, RemovalOutcome::Skipped, None, None),
        RemovalStep::Confirm => match event {
            RemovalEvent::Start => {
                let mut prompt = "Remove worktree '".to_owned();
                prompt.append(shown_branch(w).as_str());
                prompt.append("' at ");
                prompt.append(w.path.as_str());
                prompt.append("? (y/N): ");
                RemovalAction::Ask { prompt }
            },
            RemovalEvent::Answer(a) => {
                if confirmed(a.as_str()) {
                    RemovalAction::Run { args: remove_command(w.path.as_str()) }
                } else {
                    let notice = if json {
                        None
                    } else {
                        Some("Cancelled.".to_owned())
                    };
                    end_with(w, json, RemovalOutcome::Cancelled, notice, None)
                }
            },
            RemovalEvent::Ran(r) => follow_run(w, json, quiet, r),
        },
        RemovalStep::Remove => match event {
            RemovalEvent::Ran(r) => follow_run(w, json, quiet, r),
            _ => RemovalAction::Run { args: remove_command(w.path.as_str()) },
        },
    }
}

/// Whether the record may be offered for removal: it is neither the bare
/// location nor on the main branch.
pub open spec fn removable(w: WorktreeView, main: Option<Seq<char>>) -> bool {
    !w.bare && !on_main_branch(w, main)
}

/// The records that may be offered for removal, in the order of the listing.
pub open spec fn removable_records(records: Seq<WorktreeView>, main: Option<Seq<char>>) -> Seq<
    WorktreeView,
>
    decreases records.len(),
{
    if records.len() == 0 {
        Seq::empty()
    } else {
        let earlier = removable_records(records.drop_last(), main);
        if removable(records.last(), main) {
            earlier.push(records.last())
        } else {
            earlier
        }
    }
}

/// The values of a sequence of borrowed records.
pub open spec fn borrowed_view(v: Seq<&Worktree>) -> Seq<WorktreeView> {
    Seq::new(v.len(), |i: int| (*v[i])@)
}

/// Every record offered for removal is removable, and every removable record
/// of the listing is offered.
pub proof fn lemma_removable_records(records: Seq<WorktreeView>, main: Option<Seq<char>>)
    ensures
        forall|k: int|
            0 <= k < removable_records(records, main).len() ==> removable(
                #[trigger] removable_records(records, main)[k],
                main,
            ) && records.contains(removable_records(records, main)[k]),
        forall|i: int|
            0 <= i < records.len() && removable(#[trigger] records[i], main) ==> removable_records(
                records,
                main,
            ).contains(records[i]),
    decreases records.len(),
{
    if records.len() > 0 {
        let head = records.drop_last();
        let earlier = removable_records(head, main);
        let all = removable_records(records, main);
        lemma_removable_records(head, main);
        assert forall|k: int| 0 <= k < all.len() implies removable(#[trigger] all[k], main)
            && records.contains(all[k]) by {
            if k < earlier.len() {
                assert(all[k] == earlier[k]);
                let i = choose|i: int| 0 <= i < head.len() && head[i] == earlier[k];
                assert(records[i] == all[k]);
            } else {
                assert(records[records.len() - 1] == all[k]);
            }
        }
        assert forall|i: int| 0 <= i < records.len() && removable(#[trigger] records[i], main) implies all.contains(
            records[i],
        ) by {
            if i < head.len() {
                assert(head[i] == records[i]);
                let k = choose|k: int| 0 <= k < earlier.len() && earlier[k] == head[i];
                assert(all[k] == records[i]);
            } else {
                assert(all[all.len() - 1] == records[i]);
            }
        }
    }
}

/// The worktrees among `worktrees` that may be offered for removal.
pub fn removable_worktrees<'a>(worktrees: &'a Vec<Worktree>, main: Option<&str>) -> (r: Vec<
    &'a Worktree,
>)
    ensures
        borrowed_view(r@) == removable_records(records_view(worktrees@), opt_str(main)),
{
    let mut r: Vec<&'a Worktree> = Vec::new();
    let ghost records = records_view(worktrees@);
    let mut i: usize = 0;
    assert(records.take(0) == Seq::<WorktreeView>::empty());
    assert(borrowed_view(r@) == Seq::<WorktreeView>::empty());
    while i < worktrees.len()
        invariant
            i <= worktrees.len(),
            records == records_view(worktrees@),
            borrowed_view(r@) == removable_records(records.take(i as int), opt_str(main)),
        decreases worktrees.len() - i,
    {
        assert(records.take(i + 1).drop_last() == records.take(i as int));
        assert(records.take(i + 1).last() == worktrees@[i as int]@);
        let w = &worktrees[i];
        let on_main = match &w.branch {
            Some(b) => is_main_branch(main, b.as_str()),
            None => false,
        };
        let ghost before = borrowed_view(r@);
        if !w.bare && !on_main {
            r.push(w);
            assert(borrowed_view(r@) == before.push(w@));
        }
        i += 1;
    }
    assert(records.take(worktrees.len() as int) == records);
    r
}

/// The end of a line of the removal picker: the path, and a note where the
/// worktree is locked.
pub open spec fn removal_tail(w: WorktreeView) -> Seq<char> {
    if w.locked {
        w.path + " [locked]"@
    } else {
        w.path
    }
}

/// The lines of the removal picker for `records`: the branch, padded to the
/// width of the column, two spaces, the path, and a note on a lock.
pub open spec fn removal_lines(records: Seq<WorktreeView>) -> Seq<Seq<char>> {
    aligned(display_names(records), Seq::new(records.len(), |i: int| removal_tail(records[i])))
}

/// The lines that the removal picker shows for `worktrees`, in their order.
pub fn prepare_worktree_candidates(worktrees: &[&Worktree]) -> (r: Vec<String>)
    ensures
        texts_of(r@) == removal_lines(borrowed_view(worktrees@)),
        r.len() == worktrees.len(),
{
    let mut names: Vec<String> = Vec::new();
    let mut tails: Vec<String> = Vec::new();
    let ghost records = borrowed_view(worktrees@);
    let mut i: usize = 0;
    while i < worktrees.len()
        invariant
            i <= worktrees.len(),
            records == borrowed_view(worktrees@),
            names.len() == i,
            tails.len() == i,
            forall|j: int| 0 <= j < i ==> (#[trigger] names@[j])@ == display_name(records[j]),
            forall|j: int| 0 <= j < i ==> (#[trigger] tails@[j])@ == removal_tail(records[j]),
        decreases worktrees.len() - i,
    {
        let w = worktrees[i];
        assert(w@ == records[i as int]);
        names.push(format_branch_name(w));
        let mut tail = w.path.clone();
        if w.locked {
            tail.append(" [locked]");
        }
        tails.push(tail);
        i += 1;
    }
    assert(texts_of(names@) =~= display_names(records));
    assert(texts_of(tails@) =~= Seq::new(records.len(), |i: int| removal_tail(records[i])));
    align_columns(&names, &tails)
}

/// Prepares the removal picker: the lines for the worktrees that may be
/// removed. Where none may, there is nothing to pick from, which is a
/// not-found error.
pub fn interactive_remove(worktrees: &Vec<Worktree>, main: Option<&str>) -> (r: Result<
    Vec<String>,
    WtError,
>)
    ensures
        ({
            let offered = removable_records(records_view(worktrees@), opt_str(main));
            if offered.len() == 0 {
                r matches Err(e) && e@ == plain_error(
                    ErrorCode::NotFound,
                    "no removable worktrees found (only the main worktree exists)"@,
                )
            } else {
                r matches Ok(lines) && texts_of(lines@) == removal_lines(offered)
            }
        }),
{
    let offered = removable_worktrees(worktrees, main);
    if offered.len() == 0 {
        return Err(
            WtError::not_found("no removable worktrees found (only the main worktree exists)"),
        );
    }
    Ok(prepare_worktree_candidates(offered.as_slice()))
}

/// The index of the first of `lines` that reads as `line`, the white space
/// around both aside; the number of lines where none does.
pub open spec fn line_index(lines: Seq<Seq<char>>, line: Seq<char>) -> int
    decreases lines.len(),
{
    if lines.len() == 0 {
        0
    } else if trim(lines[0]) == trim(line) {
        0
    } else {
        1 + line_index(lines.drop_first(), line)
    }
}

/// An index before which no line reads as `line`, and at which one does
/// unless it is the end, is `line_index`.
pub proof fn lemma_line_index_is(lines: Seq<Seq<char>>, line: Seq<char>, k: int)
    requires
        0 <= k <= lines.len(),
        forall|j: int| 0 <= j < k ==> trim(#[trigger] lines[j]) != trim(line),
        k < lines.len() ==> trim(lines[k]) == trim(line),
    ensures
        line_index(lines, line) == k,
    decreases lines.len(),
{
    if lines.len() > 0 && k > 0 {
        let rest = lines.drop_first();
        assert(trim(lines[0]) != trim(line));
        assert forall|j: int| 0 <= j < k - 1 implies trim(#[trigger] rest[j]) != trim(line) by {
            assert(rest[j] == lines[j + 1]);
        }
        lemma_line_index_is(rest, line, k - 1);
    }
}

/// The path of the worktree that a line of the removal picker stands for:
/// that of the first worktree offered whose line reads as `line`; `None`
/// where no line of the picker reads so.
pub open spec fn picked_path(records: Seq<WorktreeView>, main: Option<Seq<char>>, line: Seq<char>)
    -> Option<Seq<char>> {
    let offered = removable_records(records, main);
    let i = line_index(removal_lines(offered), line);
    if 0 <= i < offered.len() {
        Some(offered[i].path)
    } else {
        None
    }
}

/// The target that a line of the removal picker names: the path of the
/// worktree that the line was shown for. The name in the line is for the
/// eye: only the path is sure to resolve to that worktree. A line that the
/// picker did not show is a user error.
pub fn picked_target(worktrees: &Vec<Worktree>, main: Option<&str>, line: &str) -> (r: Result<
    String,
    WtError,
>)
    ensures
        match picked_path(records_view(worktrees@), opt_str(main), line@) {
            Some(path) => r matches Ok(target) && target@ == path,
            None => r matches Err(e) && e@ == plain_error(
                ErrorCode::UserError,
                no_path_message(line@),
            ),
        },
{
    let offered = removable_worktrees(worktrees, main);
    let shown = prepare_worktree_candidates(offered.as_slice());
    let wanted_chars = chars_of(line);
    let wanted = cut_space(wanted_chars.as_slice());
    let ghost lines = removal_lines(borrowed_view(offered@));
    let mut i: usize = 0;
    while i < shown.len()
        invariant
            i <= shown.len(),
            shown.len() == offered.len(),
            texts_of(shown@) == lines,
            lines == removal_lines(borrowed_view(offered@)),
            borrowed_view(offered@) == removable_records(
                records_view(worktrees@),
                opt_str(main),
            ),
            wanted@ == trim(line@),
            forall|j: int| 0 <= j < i ==> trim(#[trigger] lines[j]) != trim(line@),
        decreases shown.len() - i,
    {
        assert(lines[i as int] == shown@[i as int]@);
        let here = chars_of(shown[i].as_str());
        if same_text(cut_space(here.as_slice()), wanted) {
            proof {
                lemma_line_index_is(lines, line@, i as int);
            }
            let w = offered[i];
            assert(w@ == borrowed_view(offered@)[i as int]);
            return Ok(w.path.clone());
        }
        i += 1;
    }
    proof {
        lemma_line_index_is(lines, line@, i as int);
    }
    let mut text = "failed to extract path from fzf output: ".to_owned();
    text.append(line);
    Err(WtError::UserError { message: text })
}

} // verus!
