use worktree_manager::error::{ErrorCode, WtError};
use worktree_manager::git::{
    is_main_branch, main_branch, repo_root, worktrees_porcelain, ListError, MainBranchStep,
};
use worktree_manager::process::{run, run_stdout, CmdOutput, Finished};
use worktree_manager::worktree::ParseError;

fn strings(items: &[&str]) -> Vec<String> {
    items.iter().map(|s| s.to_string()).collect()
}

fn finished(success: bool, stdout: &str, stderr: &str) -> Finished {
    Finished {
        success,
        status: if success { "exit status: 0".to_string() } else { "exit status: 128".to_string() },
        stdout: stdout.to_string(),
        stderr: stderr.to_string(),
    }
}

#[test]
fn run_hands_out_the_output_of_a_success() {
    let args = strings(&["rev-parse", "--show-toplevel"]);
    assert_eq!(
        run("git", &args, Ok(finished(true, "/r\n", "warn"))),
        Ok(CmdOutput {
            status: "exit status: 0".to_string(),
            stdout: "/r\n".to_string(),
            stderr: "warn".to_string()
        })
    );
    assert_eq!(run_stdout("git", &args, Ok(finished(true, "/r\n", ""))), Ok("/r\n".to_string()));
}

#[test]
fn run_reports_a_failed_command_as_tool_error() {
    let args = strings(&["worktree", "list", "--porcelain"]);
    let e = run_stdout("git", &args, Ok(finished(false, "", "fatal: not a git repository\n")))
        .unwrap_err();
    assert_eq!(
        e,
        WtError::GitError {
            message: "command failed: git worktree list --porcelain\nexit: exit status: 128\nstderr:\nfatal: not a git repository\n".to_string(),
            source: None
        }
    );
    assert_eq!(e.exit_code(), 3);
    let none = run("git", &Vec::new(), Ok(finished(false, "", ""))).unwrap_err();
    assert_eq!(none.message(), "command failed: git \nexit: exit status: 128\nstderr:\n");
}

#[test]
fn run_reports_a_command_that_did_not_start_as_io_error() {
    let e = run("git", &Vec::new(), Err("No such file or directory".to_string())).unwrap_err();
    assert_eq!(
        e,
        WtError::IoError {
            message: "failed to execute git".to_string(),
            source: Some("No such file or directory".to_string())
        }
    );
    assert_eq!(e.exit_code(), 5);
}

#[test]
fn repo_root_trims_the_answer() {
    assert_eq!(repo_root(Ok("/home/user/proj\n".to_string())), Ok("/home/user/proj".to_string()));
    assert_eq!(repo_root(Ok("  /a b \t\r\n".to_string())), Ok("/a b".to_string()));
}

#[test]
fn repo_root_outside_a_repository_is_not_found() {
    let e = repo_root(Err(WtError::git_error("command failed"))).unwrap_err();
    assert_eq!(
        e,
        WtError::NotFound { message: "not in a git repository".to_string(), source: None }
    );
    assert_eq!(e.exit_code(), 2);
    assert_eq!(repo_root(Err(WtError::io_error("x"))).unwrap_err().code(), ErrorCode::NotFound);
}

#[test]
fn listing_is_parsed() {
    let got = worktrees_porcelain(Ok("worktree /r\nHEAD abc\n\nworktree /s\n".to_string())).unwrap();
    assert_eq!(got.len(), 2);
    assert_eq!(got[1].path, "/s");
}

#[test]
fn listing_failure_is_a_tool_error_with_its_cause() {
    let cause = WtError::io_error_with_source("failed to execute git", "not found");
    assert_eq!(
        worktrees_porcelain(Err(cause)),
        Err(ListError::Git(WtError::GitError {
            message: "failed to list worktrees".to_string(),
            source: Some("failed to execute git: not found".to_string())
        }))
    );
}

#[test]
fn malformed_listing_gives_no_partial_result() {
    assert_eq!(
        worktrees_porcelain(Ok("worktree /r\n\nHEAD abc\n".to_string())),
        Err(ListError::Parse(ParseError::HeadBeforeWorktree))
    );
}

#[test]
fn main_branch_asks_the_remote_first() {
    assert_eq!(
        main_branch(&Vec::new()),
        MainBranchStep::Probe { args: strings(&["symbolic-ref", "refs/remotes/origin/HEAD"]) }
    );
    assert_eq!(
        main_branch(&vec![Some("refs/remotes/origin/trunk\n".to_string())]),
        MainBranchStep::Done { branch: Some("trunk".to_string()) }
    );
}

#[test]
fn main_branch_falls_back_to_main_then_master() {
    let show_main = MainBranchStep::Probe {
        args: strings(&["show-ref", "--verify", "--quiet", "refs/heads/main"]),
    };
    let show_master = MainBranchStep::Probe {
        args: strings(&["show-ref", "--verify", "--quiet", "refs/heads/master"]),
    };
    assert_eq!(main_branch(&vec![None]), show_main);
    assert_eq!(main_branch(&vec![Some("refs/heads/odd\n".to_string())]), show_main);
    assert_eq!(
        main_branch(&vec![None, Some(String::new())]),
        MainBranchStep::Done { branch: Some("main".to_string()) }
    );
    assert_eq!(main_branch(&vec![None, None]), show_master);
    assert_eq!(
        main_branch(&vec![None, None, Some(String::new())]),
        MainBranchStep::Done { branch: Some("master".to_string()) }
    );
}

#[test]
fn main_branch_unknown_is_not_an_error() {
    assert_eq!(main_branch(&vec![None, None, None]), MainBranchStep::Done { branch: None });
}

#[test]
fn main_branch_search_ends_after_three_probes() {
    let mut answers: Vec<Option<String>> = Vec::new();
    let mut probes = 0;
    let found = loop {
        match main_branch(&answers) {
            MainBranchStep::Probe { .. } => {
                probes += 1;
                answers.push(None);
            }
            MainBranchStep::Done { branch } => break branch,
        }
    };
    assert_eq!(probes, 3);
    assert_eq!(found, None);
}

#[test]
fn prefix_stripping_does_not_change_the_verdict() {
    assert!(is_main_branch(Some("main"), "refs/heads/main"));
    assert!(is_main_branch(Some("main"), "main"));
    assert_eq!(
        is_main_branch(Some("main"), "refs/heads/topic"),
        is_main_branch(Some("main"), "topic")
    );
    assert!(!is_main_branch(Some("main"), "refs/heads/maintenance"));
    assert!(!is_main_branch(Some("main"), "refs/heads/mainline"));
    assert!(!is_main_branch(Some("main"), "refs/remotes/origin/main"));
    assert!(!is_main_branch(None, "main"));
    assert!(!is_main_branch(None, "refs/heads/main"));
}

#[test]
fn main_branch_test_takes_off_the_local_prefix_only() {
    assert!(!is_main_branch(Some("origin/y"), "refs/remotes/origin/y"));
    assert!(!is_main_branch(Some("origin/y"), "refs/heads/refs/remotes/origin/y"));
    assert!(!is_main_branch(Some("y"), "refs/remotes/origin/y"));
    assert!(is_main_branch(Some("origin/y"), "refs/heads/origin/y"));
    assert!(is_main_branch(Some("origin/y"), "origin/y"));
    assert!(is_main_branch(Some("refs/remotes/origin/y"), "refs/remotes/origin/y"));
    assert!(is_main_branch(Some("refs/heads/y"), "refs/heads/refs/heads/y"));
    assert!(!is_main_branch(Some("y"), "refs/heads/refs/heads/y"));
    for name in ["main", "topic", "release/1", "refs/remotes/origin/y", "refs/tags/v1", ""] {
        for main in [None, Some("main"), Some("origin/y"), Some("refs/remotes/origin/y"), Some("")] {
            assert_eq!(
                is_main_branch(main, &format!("refs/heads/{}", name)),
                is_main_branch(main, name)
            );
        }
    }
}

#[test]
fn queries_name_their_commands() {
    assert_eq!(
        worktree_manager::git::root_query(),
        strings(&["rev-parse", "--show-toplevel"])
    );
    assert_eq!(
        worktree_manager::git::listing_query(),
        strings(&["worktree", "list", "--porcelain"])
    );
    assert_eq!(
        worktree_manager::remove::remove_command("/tmp/my wt"),
        strings(&["worktree", "remove", "/tmp/my wt"])
    );
    assert_eq!(worktree_manager::prune::prune_command(), strings(&["worktree", "prune"]));
}
