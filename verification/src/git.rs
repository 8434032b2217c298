//! What the answers of the version-control tool mean: the root of the
//! repository, its worktrees, and its main branch. Running the tool is the
//! caller's part; the functions here take what it answered.

use crate::error::{caused_error, plain_error, ErrorCode, WtError};
use crate::text::{
    chars_of, cut_space, opt_str, opt_text, same_text, string_of, strip_prefix, texts_of, trim,
    without_prefix,
};
use crate::worktree::{
    local_name, local_ref, parse_porcelain, parsed, records_view, ParseError, Worktree,
};
use vstd::prelude::*;
use vstd::string::*;

verus! {

/// Why the worktrees of a repository could not be listed.
#[derive(Debug, Clone, PartialEq, Eq)]
pub enum ListError {
    /// The tool failed.
    Git(WtError),
    /// The tool answered, and its listing was refused.
    Parse(ParseError),
}

/// The arguments that ask the tool where the top level of the repository
/// is.
pub fn root_query() -> (args: Vec<String>)
    ensures
        texts_of(args@) == seq!["rev-parse"@, "--show-toplevel"@],
{
    let mut args: Vec<String> = Vec::new();
    args.push("rev-parse".to_owned());
    args.push("--show-toplevel".to_owned());
    assert(texts_of(args@) =~= seq!["rev-parse"@, "--show-toplevel"@]);
    args
}

/// The arguments that ask the tool for the porcelain listing of the
/// worktrees.
pub fn listing_query() -> (args: Vec<String>)
    ensures
        texts_of(args@) == seq!["worktree"@, "list"@, "--porcelain"@],
{
    let mut args: Vec<String> = Vec::new();
    args.push("worktree".to_owned());
    args.push("list".to_owned());
    args.push("--porcelain".to_owned());
    assert(texts_of(args@) =~= seq!["worktree"@, "list"@, "--porcelain"@]);
    args
}

/// The root of the repository, from the tool's answer to the question where
/// the top level is: the answer without the white space around it. Where the
/// tool failed, whatever the failure, the directory is in no repository.
pub fn repo_root(answer: Result<String, WtError>) -> (r: Result<String, WtError>)
    ensures
        match answer {
            Ok(out) => r matches Ok(root) && root@ == trim(out@),
            Err(_) => r matches Err(e) && e@ == plain_error(
                ErrorCode::NotFound,
                "not in a git repository"@,
            ),
        },
{
    match answer {
        Ok(out) => {
            let chars = chars_of(out.as_str());
            Ok(string_of(cut_space(chars.as_slice())))
        },
        Err(_) => Err(WtError::not_found("not in a git repository")),
    }
}

/// The worktrees of a repository, from the tool's porcelain listing. Where
/// the tool failed, the error is a tool error with that failure, in full, as
/// its cause; where the listing is refused, no record is returned.
pub fn worktrees_porcelain(answer: Result<String, WtError>) -> (r: Result<Vec<Worktree>, ListError>)
    ensures
        match answer {
            Ok(out) => match parsed(out@) {
                Ok(records) => r matches Ok(v) && records_view(v@) == records,
                Err(e) => r matches Err(ListError::Parse(f)) && f == e,
            },
            Err(cause) => r matches Err(ListError::Git(e)) && e@ == caused_error(
                ErrorCode::GitError,
                "failed to list worktrees"@,
                cause@.detail(),
            ),
        },
{
    match answer {
        Ok(out) => match parse_porcelain(out.as_str()) {
            Ok(v) => Ok(v),
            Err(e) => Err(ListError::Parse(e)),
        },
        Err(cause) => Err(
            ListError::Git(
                WtError::git_error_with_source("failed to list worktrees", cause.detail().as_str()),
            ),
        ),
    }
}

/// The next thing to do to find the main branch.
#[derive(Debug, Clone, PartialEq, Eq)]
pub enum MainBranchStep {
    /// Run the tool with these arguments, and come back with what it said.
    Probe { args: Vec<String> },
    /// The search is over: the main branch, or `None` where there is none to
    /// be found.
    Done { branch: Option<String> },
}

/// The branch that the remote's default-branch pointer names: the answer
/// without the white space around it and without `refs/remotes/origin/`.
pub open spec fn remote_default(answer: Seq<char>) -> Option<Seq<char>> {
    strip_prefix(trim(answer), "refs/remotes/origin/"@)
}

/// Whether the first answer settles the search.
pub open spec fn settled_by_remote(answers: Seq<Option<Seq<char>>>) -> bool {
    answers.len() > 0 && (answers[0] matches Some(out) && remote_default(out) is Some)
}

/// What the answers so far say of the main branch: `Some` once the search is
/// over, with the branch or with `None` for a repository that has none.
///
/// The first answer is to the question for the remote's default branch, the
/// second to whether a local branch `main` exists, the third to whether a
/// local branch `master` exists. A failed probe is `None`.
pub open spec fn detected(answers: Seq<Option<Seq<char>>>) -> Option<Option<Seq<char>>> {
    if answers.len() == 0 {
        None
    } else if settled_by_remote(answers) {
        Some(remote_default(answers[0]->Some_0))
    } else if answers.len() == 1 {
        None
    } else if answers[1] is Some {
        Some(Some("main"@))
    } else if answers.len() == 2 {
        None
    } else if answers[2] is Some {
        Some(Some("master"@))
    } else {
        Some(None)
    }
}

/// The arguments of the probe that follows `asked` answers.
pub open spec fn probe_args(asked: int) -> Seq<Seq<char>> {
    if asked == 0 {
        seq!["symbolic-ref"@, "refs/remotes/origin/HEAD"@]
    } else if asked == 1 {
        seq!["show-ref"@, "--verify"@, "--quiet"@, "refs/heads/main"@]
    } else {
        seq!["show-ref"@, "--verify"@, "--quiet"@, "refs/heads/master"@]
    }
}

/// The answers as texts.
pub open spec fn answers_view(answers: Seq<Option<String>>) -> Seq<Option<Seq<char>>> {
    Seq::new(answers.len(), |i: int| opt_text(answers[i]))
}

/// The main branch in terms of three facts: what the remote's pointer names,
/// whether `main` exists, whether `master` exists.
pub open spec fn main_branch_of(remote: Option<Seq<char>>, has_main: bool, has_master: bool)
    -> Option<Seq<char>> {
    if remote is Some {
        remote
    } else if has_main {
        Some("main"@)
    } else if has_master {
        Some("master"@)
    } else {
        None
    }
}

/// Three answers always settle the search, and what they settle is the
/// remote's default branch, else `main` where it exists, else `master` where
/// it exists, else nothing.
pub proof fn lemma_fallback_order(answers: Seq<Option<Seq<char>>>)
    requires
        answers.len() >= 3,
    ensures
        detected(answers) == Some(
            main_branch_of(
                match answers[0] {
                    Some(out) => remote_default(out),
                    None => None,
                },
                answers[1] is Some,
                answers[2] is Some,
            ),
        ),
{
}

/// Once the search is over, further answers change nothing.
pub proof fn lemma_detection_is_final(answers: Seq<Option<Seq<char>>>, more: Option<Seq<char>>)
    requires
        detected(answers) is Some,
    ensures
        detected(answers.push(more)) == detected(answers),
{
    let longer = answers.push(more);
    assert(longer[0] == answers[0]);
    if answers.len() > 1 {
        assert(longer[1] == answers[1]);
    }
    if answers.len() > 2 {
        assert(longer[2] == answers[2]);
    }
}

/// The arguments of a probe for the local branch `name_ref`.
fn show_ref_args(name_ref: &str) -> (args: Vec<String>)
    ensures
        texts_of(args@) == seq!["show-ref"@, "--verify"@, "--quiet"@, name_ref@],
{
    let mut args: Vec<String> = Vec::new();
    args.push("show-ref".to_owned());
    args.push("--verify".to_owned());
    args.push("--quiet".to_owned());
    args.push(name_ref.to_owned());
    assert(texts_of(args@) =~= seq!["show-ref"@, "--verify"@, "--quiet"@, name_ref@]);
    args
}

/// Decides the next step of the search for the main branch. `answers` holds
/// what the probes so far brought, in the order in which they were asked for:
/// the output of a probe that succeeded, `None` for one that failed.
///
/// The caller starts with no answers, runs each probe that is returned, adds
/// its answer, and calls again until the step is `Done`.
pub fn main_branch(answers: &Vec<Option<String>>) -> (step: MainBranchStep)
    ensures
        match detected(answers_view(answers@)) {
            Some(found) => step matches MainBranchStep::Done { branch } && opt_text(branch)
                == found,
            None => step matches MainBranchStep::Probe { args } && texts_of(args@) == probe_args(
                answers.len() as int,
            ),
        },
{
    let ghost view = answers_view(answers@);
    if answers.len() == 0 {
        let mut args: Vec<String> = Vec::new();
        args.push("symbolic-ref".to_owned());
        args.push("refs/remotes/origin/HEAD".to_owned());
        assert(texts_of(args@) =~= probe_args(0));
        return MainBranchStep::Probe { args };
    }
    assert(view[0] == opt_text(answers@[0]));
    match &answers[0] {
        Some(out) => {
            let chars = chars_of(out.as_str());
            match without_prefix(cut_space(chars.as_slice()), "refs/remotes/origin/") {
                Some(branch) => {
                    return MainBranchStep::Done { branch: Some(string_of(branch)) };
                },
                None => {},
            }
        },
        None => {},
    }
    if answers.len() == 1 {
        return MainBranchStep::Probe { args: show_ref_args("refs/heads/main") };
    }
    assert(view[1] == opt_text(answers@[1]));
    if answers[1].is_some() {
        return MainBranchStep::Done { branch: Some("main".to_owned()) };
    }
    if answers.len() == 2 {
        return MainBranchStep::Probe { args: show_ref_args("refs/heads/master") };
    }
    assert(view[2] == opt_text(answers@[2]));
    if answers[2].is_some() {
        MainBranchStep::Done { branch: Some("master".to_owned()) }
    } else {
        MainBranchStep::Done { branch: None }
    }
}

/// Whether `branch_ref` names the main branch `main`: without one leading
/// `refs/heads/` it reads as `main`. With no main branch, no branch is the
/// main one.
pub open spec fn names_main(main: Option<Seq<char>>, branch_ref: Seq<char>) -> bool {
    main == Some(local_name(branch_ref))
}

/// Tells whether `branch_ref`, a full local reference or a bare name, names
/// the main branch `main` of the repository.
pub fn is_main_branch(main: Option<&str>, branch_ref: &str) -> (r: bool)
    ensures
        r == names_main(opt_str(main), branch_ref@),
{
    match main {
        None => false,
        Some(m) => {
            let full = chars_of(branch_ref);
            let wanted = chars_of(m);
            same_text(local_ref(full.as_slice()), wanted.as_slice())
        },
    }
}

/// A full local reference and the bare name after `refs/heads/` are judged
/// alike, unless the bare name begins with `refs/heads/` itself.
pub proof fn lemma_prefix_does_not_matter(main: Option<Seq<char>>, name: Seq<char>)
    requires
        !"refs/heads/"@.is_prefix_of(name),
    ensures
        names_main(main, "refs/heads/"@ + name) == names_main(main, name),
{
    crate::worktree::lemma_local_name_of_bare(name);
}

/// Where no main branch is known, no reference names it.
pub proof fn lemma_unknown_main_names_nothing(branch_ref: Seq<char>)
    ensures
        !names_main(None, branch_ref),
{
}

} // verus!
