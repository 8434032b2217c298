//! Pruning: which worktrees are stale, the steps of a pruning, and how it is
//! reported. The tool that lists the worktrees decides what is stale, and
//! the tool prunes; nothing here looks at the file system.

use crate::error::{caused_error, opt_error, ErrorCode, ErrorView, WtError};
use crate::text::{push_line, texts_of};
use crate::worktree::{records_view, Worktree, WorktreeView};
use vstd::prelude::*;
use vstd::string::*;

verus! {

/// A worktree that can be pruned, and why.
#[derive(Debug, Clone, PartialEq, Eq)]
pub struct PrunedWorktree {
    pub path: String,
    pub reason: String,
}

/// The outcome of pruning, for machine readers.
#[derive(Debug, Clone, PartialEq, Eq)]
pub struct PruneResult {
    pub success: bool,
    pub pruned: Vec<PrunedWorktree>,
}

/// The path and the reason of each record that is marked as prunable, in the
/// order of the listing. A record is stale exactly when the mark is there,
/// also with an empty reason.
pub open spec fn stale(records: Seq<WorktreeView>) -> Seq<(Seq<char>, Seq<char>)>
    decreases records.len(),
{
    if records.len() == 0 {
        Seq::empty()
    } else {
        let earlier = stale(records.drop_last());
        match records.last().prunable {
            Some(reason) => earlier.push((records.last().path, reason)),
            None => earlier,
        }
    }
}

/// The paths and reasons of a sequence of stale worktrees.
pub open spec fn pruned_view(v: Seq<PrunedWorktree>) -> Seq<(Seq<char>, Seq<char>)> {
    Seq::new(v.len(), |i: int| (v[i].path@, v[i].reason@))
}

/// A listing has a stale worktree exactly when one of its records is marked
/// as prunable.
pub proof fn lemma_stale_iff_marked(records: Seq<WorktreeView>)
    ensures
        stale(records).len() > 0 <==> exists|i: int|
            0 <= i < records.len() && (#[trigger] records[i]).prunable is Some,
        stale(records).len() <= records.len(),
    decreases records.len(),
{
    if records.len() > 0 {
        let head = records.drop_last();
        lemma_stale_iff_marked(head);
        if stale(head).len() > 0 {
            let i = choose|i: int| 0 <= i < head.len() && (#[trigger] head[i]).prunable is Some;
            assert(records[i] == head[i]);
        }
        if exists|i: int| 0 <= i < records.len() && (#[trigger] records[i]).prunable is Some {
            let i = choose|i: int| 0 <= i < records.len() && (#[trigger] records[i]).prunable is Some;
            if i < head.len() {
                assert(head[i] == records[i]);
            }
        }
    }
}

/// The stale worktrees among `worktrees`, each with the reason that the
/// listing gives.
pub fn stale_worktrees(worktrees: &Vec<Worktree>) -> (r: Vec<PrunedWorktree>)
    ensures
        pruned_view(r@) == stale(records_view(worktrees@)),
{
    let mut r: Vec<PrunedWorktree> = Vec::new();
    let ghost records = records_view(worktrees@);
    let mut i: usize = 0;
    assert(records.take(0) == Seq::<WorktreeView>::empty());
    assert(pruned_view(r@) == Seq::<(Seq<char>, Seq<char>)>::empty());
    while i < worktrees.len()
        invariant
            i <= worktrees.len(),
            records == records_view(worktrees@),
            pruned_view(r@) == stale(records.take(i as int)),
        decreases worktrees.len() - i,
    {
        assert(records.take(i + 1).drop_last() == records.take(i as int));
        assert(records.take(i + 1).last() == worktrees@[i as int]@);
        let w = &worktrees[i];
        let ghost before = pruned_view(r@);
        match &w.prunable {
            Some(reason) => {
                r.push(PrunedWorktree { path: w.path.clone(), reason: reason.clone() });
                assert(pruned_view(r@) == before.push((w.path@, reason@)));
            },
            None => {},
        }
        i += 1;
    }
    assert(records.take(worktrees.len() as int) == records);
    r
}

/// The arguments that have the tool prune what it holds to be stale. The
/// pruning itself is the tool's.
pub fn prune_command() -> (args: Vec<String>)
    ensures
        texts_of(args@) == seq!["worktree"@, "prune"@],
{
    let mut args: Vec<String> = Vec::new();
    args.push("worktree".to_owned());
    args.push("prune".to_owned());
    assert(texts_of(args@) =~= seq!["worktree"@, "prune"@]);
    args
}

/// The line that tells of a stale worktree: its path, and the reason in
/// round brackets.
pub open spec fn stale_line_of(path: Seq<char>, reason: Seq<char>) -> Seq<char> {
    "  - "@ + path + " ("@ + reason + ")"@
}

/// The line that tells of the stale worktree `p`.
pub fn stale_line(p: &PrunedWorktree) -> (r: String)
    ensures
        r@ == stale_line_of(p.path@, p.reason@),
{
    let mut line = "  - ".to_owned();
    line.append(p.path.as_str());
    line.append(" (");
    line.append(p.reason.as_str());
    line.append(")");
    line
}

/// The report of a pruning that went through: it names what was stale
/// before.
pub fn prune_report(pruned: Vec<PrunedWorktree>) -> (r: PruneResult)
    ensures
        r.success,
        r.pruned == pruned,
        r@ == report_of_pruning(pruned_view(pruned@)),
{
    PruneResult { success: true, pruned }
}

/// What happened since the pruning was last decided on.
#[derive(Debug, Clone, PartialEq, Eq)]
pub enum PruneEvent {
    /// Nothing yet.
    Start,
    /// The tool ran; `None` where it succeeded.
    Ran(Option<WtError>),
}

/// What to do next about the pruning. `notices` are lines for the user.
#[derive(Debug, Clone, PartialEq, Eq)]
pub enum PruneAction {
    /// Run the tool with these arguments, and come back with how it went.
    Run { notices: Vec<String>, args: Vec<String> },
    /// Stop.
    End { report: Option<PruneResult>, notices: Vec<String>, error: Option<WtError> },
}

/// The mathematical value of a [`PruneEvent`].
pub enum PruneEventView {
    Start,
    Ran(Option<ErrorView>),
}

/// The mathematical value of a [`PruneResult`]: whether the pruning went
/// through, and the path and the reason of each worktree that was stale.
pub struct PruneReportView {
    pub success: bool,
    pub pruned: Seq<(Seq<char>, Seq<char>)>,
}

impl View for PruneResult {
    type V = PruneReportView;

    open spec fn view(&self) -> PruneReportView {
        PruneReportView { success: self.success, pruned: pruned_view(self.pruned@) }
    }
}

/// The report of a pruning that went through and found `found` stale.
pub open spec fn report_of_pruning(found: Seq<(Seq<char>, Seq<char>)>) -> PruneReportView {
    PruneReportView { success: true, pruned: found }
}

/// The mathematical value of a [`PruneAction`].
pub enum PruneActionView {
    Run { notices: Seq<Seq<char>>, args: Seq<Seq<char>> },
    End { report: Option<PruneReportView>, notices: Seq<Seq<char>>, error: Option<ErrorView> },
}

impl View for PruneEvent {
    type V = PruneEventView;

    open spec fn view(&self) -> PruneEventView {
        match *self {
            PruneEvent::Start => PruneEventView::Start,
            PruneEvent::Ran(r) => PruneEventView::Ran(opt_error(r)),
        }
    }
}

impl View for PruneAction {
    type V = PruneActionView;

    open spec fn view(&self) -> PruneActionView {
        match *self {
            PruneAction::Run { notices, args } => PruneActionView::Run {
                notices: texts_of(notices@),
                args: texts_of(args@),
            },
            PruneAction::End { report, notices, error } => PruneActionView::End {
                report: match report {
                    Some(r) => Some(r@),
                    None => None,
                },
                notices: texts_of(notices@),
                error: opt_error(error),
            },
        }
    }
}

/// The lines that tell of the stale worktrees `entries`.
pub open spec fn stale_lines(entries: Seq<(Seq<char>, Seq<char>)>) -> Seq<Seq<char>> {
    Seq::new(entries.len(), |i: int| stale_line_of(entries[i].0, entries[i].1))
}

/// `line` for human readers who did not ask for quiet, nothing for others.
pub open spec fn told(json: bool, quiet: bool, line: Seq<char>) -> Seq<Seq<char>> {
    if !json && !quiet {
        seq![line]
    } else {
        Seq::empty()
    }
}

/// What to do next about the pruning of a repository with the records
/// `records`, after `event`.
///
/// Without stale worktrees there is nothing to do, and the tool is not run.
/// Else the stale worktrees are named, the tool is run, and its outcome ends
/// the pruning: a report of what was stale, or a tool error. Every report
/// tells of a success: a pruning that failed ends with its error and no
/// report.
pub open spec fn prune_action(
    records: Seq<WorktreeView>,
    json: bool,
    quiet: bool,
    event: PruneEventView,
) -> PruneActionView {
    let found = stale(records);
    if found.len() == 0 {
        PruneActionView::End {
            report: if json {
                Some(report_of_pruning(found))
            } else {
                None
            },
            notices: told(json, quiet, "No stale worktrees found."@),
            error: None,
        }
    } else {
        match event {
            PruneEventView::Start => PruneActionView::Run {
                notices: if !json && !quiet {
                    seq!["Stale worktrees to prune:"@] + stale_lines(found)
                } else {
                    Seq::empty()
                },
                args: seq!["worktree"@, "prune"@],
            },
            PruneEventView::Ran(None) => PruneActionView::End {
                report: if json {
                    Some(report_of_pruning(found))
                } else {
                    None
                },
                notices: told(json, quiet, "Pruned stale worktrees."@),
                error: None,
            },
            PruneEventView::Ran(Some(e)) => PruneActionView::End {
                report: None,
                notices: Seq::empty(),
                error: Some(
                    caused_error(ErrorCode::GitError, "failed to prune worktrees"@, e.detail()),
                ),
            },
        }
    }
}

/// Every report of a pruning tells of a success and names exactly the
/// worktrees that the listing marks as prunable.
pub proof fn lemma_reports_tell_of_success(
    records: Seq<WorktreeView>,
    json: bool,
    quiet: bool,
    event: PruneEventView,
)
    ensures
        prune_action(records, json, quiet, event) matches PruneActionView::End {
            report: Some(r),
            ..
        } ==> r.success && r.pruned == stale(records) && json,
{
}

/// The tool is asked to prune only where a record is marked as prunable.
pub proof fn lemma_prune_needs_stale(
    records: Seq<WorktreeView>,
    json: bool,
    quiet: bool,
    event: PruneEventView,
)
    ensures
        prune_action(records, json, quiet, event) is Run ==> exists|i: int|
            0 <= i < records.len() && (#[trigger] records[i]).prunable is Some,
{
    lemma_stale_iff_marked(records);
}

/// `line` for human readers who did not ask for quiet.
fn tell(json: bool, quiet: bool, line: &str) -> (r: Vec<String>)
    ensures
        texts_of(r@) == told(json, quiet, line@),
{
    let mut r: Vec<String> = Vec::new();
    assert(texts_of(r@) == Seq::<Seq<char>>::empty());
    if !json && !quiet {
        push_line(&mut r, line.to_owned());
        assert(texts_of(r@) == seq![line@]);
    }
    r
}

/// Decides what to do next about the pruning of the repository with the
/// worktrees `worktrees`, after `event`.
///
/// The caller starts with [`PruneEvent::Start`], shows the notices, does what
/// is returned, and calls again with what came of it, until the action is an
/// end.
pub fn prune_worktrees(worktrees: &Vec<Worktree>, json: bool, quiet: bool, event: &PruneEvent)
    -> (r: PruneAction)
    ensures
        r@ == prune_action(records_view(worktrees@), json, quiet, event@),
{
    let found = stale_worktrees(worktrees);
    let ghost entries = stale(records_view(worktrees@));
    if found.len() == 0 {
        let report = if json {
            Some(prune_report(found))
        } else {
            None
        };
        return PruneAction::End {
            report,
            notices: tell(json, quiet, "No stale worktrees found."),
            error: None,
        };
    }
    match event {
        PruneEvent::Start => {
            let mut notices: Vec<String> = Vec::new();
            assert(texts_of(notices@) == Seq::<Seq<char>>::empty());
            if !json && !quiet {
                push_line(&mut notices, "Stale worktrees to prune:".to_owned());
                let ghost lead = texts_of(notices@);
                let mut i: usize = 0;
                assert(lead + stale_lines(entries).take(0) == lead);
                while i < found.len()
                    invariant
                        i <= found.len(),
                        pruned_view(found@) == entries,
                        texts_of(notices@) == lead + stale_lines(entries).take(i as int),
                    decreases found.len() - i,
                {
                    assert(entries[i as int] == (found@[i as int].path@, found@[i as int].reason@));
                    assert(stale_lines(entries).take(i + 1) == stale_lines(entries).take(
                        i as int,
                    ).push(stale_line_of(entries[i as int].0, entries[i as int].1)));
                    push_line(&mut notices, stale_line(&found[i]));
                    assert((lead + stale_lines(entries).take(i as int)).push(
                        stale_line_of(entries[i as int].0, entries[i as int].1),
                    ) == lead + stale_lines(entries).take(i + 1));
                    i += 1;
                }
                assert(stale_lines(entries).take(found.len() as int) == stale_lines(entries));
            }
            PruneAction::Run { notices, args: prune_command() }
        },
        PruneEvent::Ran(None) => {
            let report = if json {
                Some(prune_report(found))
            } else {
                None
            };
            PruneAction::End {
                report,
                notices: tell(json, quiet, "Pruned stale worktrees."),
                error: None,
            }
        },
        PruneEvent::Ran(Some(e)) => {
            let notices: Vec<String> = Vec::new();
            assert(texts_of(notices@) == Seq::<Seq<char>>::empty());
            PruneAction::End {
                report: None,
                notices,
                error: Some(
                    WtError::git_error_with_source(
                        "failed to prune worktrees",
                        e.detail().as_str(),
                    ),
                ),
            }
        },
    }
}

} // verus!
