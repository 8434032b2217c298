use worktree_manager::add::{
    add_command, add_report, add_worktree, branch_choices, calculate_default_path,
    check_existing_worktree, get_available_branches, new_branch_name, path_taken, picked_branch,
    remote_branch_listed, target_path, AddAction, AddEvent, AddPlan, BranchPick,
};
use worktree_manager::error::WtError;
use worktree_manager::worktree::Worktree;

fn on_branch(path: &str, reference: Option<&str>) -> Worktree {
    Worktree {
        path: path.to_string(),
        head: None,
        branch: reference.map(|r| r.to_string()),
        locked: false,
        lock_reason: None,
        prunable: None,
        bare: false,
    }
}

fn strings(items: &[&str]) -> Vec<String> {
    items.iter().map(|s| s.to_string()).collect()
}

#[test]
fn test_calculate_default_path() {
    let repo_root = "/home/user/repos/my-project";
    let branch = "feature/new-ui";

    let result = calculate_default_path(repo_root, branch).unwrap();
    let expected = "/home/user/repos/my-project-feature-new-ui".to_string();

    assert_eq!(result, expected);
}

#[test]
fn test_sanitize_branch_name() {
    let repo_root = "/home/user/repos/project";
    let branch = "bugfix/issue-123/part-2";

    let result = calculate_default_path(repo_root, branch).unwrap();
    let expected = "/home/user/repos/project-bugfix-issue-123-part-2".to_string();

    assert_eq!(result, expected);
}

#[test]
fn test_simple_branch_name() {
    let repo_root = "/repos/app";
    let branch = "main";

    let result = calculate_default_path(repo_root, branch).unwrap();
    let expected = "/repos/app-main".to_string();

    assert_eq!(result, expected);
}

#[test]
fn default_path_end_to_end() {
    assert_eq!(
        calculate_default_path("/home/user/proj", "feature/x"),
        Ok("/home/user/proj-feature-x".to_string())
    );
    assert_eq!(
        target_path("/home/user/proj", "feature/x", None),
        Ok("/home/user/proj-feature-x".to_string())
    );
    assert_eq!(
        target_path("/home/user/proj", "feature/x", Some("/elsewhere/wt")),
        Ok("/elsewhere/wt".to_string())
    );
}

#[test]
fn default_path_edge_cases() {
    assert_eq!(calculate_default_path("/proj", "b"), Ok("/proj-b".to_string()));
    assert_eq!(calculate_default_path("proj", "b"), Ok("proj-b".to_string()));
    assert_eq!(calculate_default_path("./proj", "b"), Ok("./proj-b".to_string()));
    assert_eq!(calculate_default_path("/home/user/proj/", "b"), Ok("/home/user/proj-b".to_string()));
    assert_eq!(
        calculate_default_path("/", "b"),
        Err(WtError::IoError {
            message: "repository root has no parent directory".to_string(),
            source: None
        })
    );
    assert_eq!(
        calculate_default_path("", "b"),
        Err(WtError::IoError {
            message: "repository root has no parent directory".to_string(),
            source: None
        })
    );
    assert_eq!(
        calculate_default_path("/home/..", "b"),
        Err(WtError::IoError {
            message: "failed to extract repository name".to_string(),
            source: None
        })
    );
}

#[test]
fn taken_path_is_a_user_error() {
    assert_eq!(
        path_taken("/tmp/x"),
        WtError::UserError {
            message: "path already exists: /tmp/x\nChoose a different path with --path".to_string()
        }
    );
}

#[test]
fn existing_worktree_for_the_branch_is_refused() {
    let worktrees = vec![
        on_branch("/tmp/repo", Some("refs/heads/main")),
        on_branch("/tmp/one", Some("refs/heads/feature")),
        on_branch("/tmp/two", Some("refs/heads/feature")),
        on_branch("/tmp/three", Some("refs/remotes/origin/remote-only")),
    ];
    assert_eq!(check_existing_worktree(&worktrees, "topic"), Ok(()));
    assert_eq!(check_existing_worktree(&worktrees, "remote-only"), Ok(()));
    assert_eq!(check_existing_worktree(&worktrees, "origin/remote-only"), Ok(()));
    assert_eq!(
        check_existing_worktree(&worktrees, "feature"),
        Err(WtError::UserError {
            message: "worktree for branch 'feature' already exists at: /tmp/one".to_string()
        })
    );
    assert_eq!(check_existing_worktree(&Vec::new(), "feature"), Ok(()));
}

#[test]
fn picker_puts_new_branch_first() {
    assert_eq!(
        branch_choices(&strings(&["a", "b"])),
        strings(&["[+] Create new branch...", "a", "b"])
    );
    assert_eq!(picked_branch("[+] Create new branch..."), BranchPick::CreateNew);
}

#[test]
fn picked_branch_loses_its_remote() {
    assert_eq!(picked_branch("origin/feature"), BranchPick::Branch("feature".to_string()));
    assert_eq!(picked_branch("origin/feature/x"), BranchPick::Branch("feature/x".to_string()));
    assert_eq!(picked_branch("upstream/feature"), BranchPick::Branch("feature".to_string()));
    assert_eq!(picked_branch("feature"), BranchPick::Branch("feature".to_string()));
    assert_eq!(picked_branch("feature/x"), BranchPick::Branch("x".to_string()));
}

#[test]
fn new_branch_name_is_trimmed() {
    assert_eq!(new_branch_name("  topic \n"), Some("topic".to_string()));
    assert_eq!(new_branch_name(" \n"), None);
    assert_eq!(new_branch_name(""), None);
}

#[test]
fn remote_listing_counts_when_not_blank() {
    assert!(remote_branch_listed("  origin/x\n"));
    assert!(!remote_branch_listed("\n  \n"));
}

#[test]
fn add_command_has_three_forms() {
    assert_eq!(
        add_command("topic", "/tmp/wt", Some("origin"), false),
        AddPlan {
            args: strings(&["worktree", "add", "--track", "-b", "topic", "/tmp/wt", "origin/topic"]),
            failure: "failed to add worktree tracking origin/topic".to_string()
        }
    );
    assert_eq!(
        add_command("topic", "/tmp/wt", Some("origin"), true).args,
        strings(&["worktree", "add", "--track", "-b", "topic", "/tmp/wt", "origin/topic"])
    );
    assert_eq!(
        add_command("topic", "/tmp/wt", None, true),
        AddPlan {
            args: strings(&["worktree", "add", "/tmp/wt", "topic"]),
            failure: "failed to add worktree".to_string()
        }
    );
    assert_eq!(
        add_command("topic", "/tmp/wt", None, false),
        AddPlan {
            args: strings(&["worktree", "add", "-b", "topic", "/tmp/wt"]),
            failure: "failed to create worktree with new branch 'topic'".to_string()
        }
    );
}

#[test]
fn add_report_names_what_is_tracked() {
    let r = add_report("topic", "/tmp/wt", Some("origin"));
    assert!(r.success);
    assert_eq!(r.branch, "topic");
    assert_eq!(r.path, "/tmp/wt");
    assert_eq!(r.tracking.as_deref(), Some("origin/topic"));
    assert_eq!(add_report("topic", "/tmp/wt", None).tracking, None);
}

#[test]
fn available_branches_are_sorted_and_free() {
    let worktrees = vec![
        on_branch("/tmp/repo", Some("refs/heads/main")),
        on_branch("/tmp/f", Some("refs/heads/feature")),
        on_branch("/tmp/r", Some("refs/remotes/origin/tracked")),
        on_branch("/tmp/bare-name", Some("loose")),
    ];
    let local = "main\n  zeta\nfeature\nalpha\nloose\n\n";
    let remote = "origin/HEAD\norigin/main\norigin/alpha\norigin/tracked\nupstream/beta\norigin/feature/part\nalpha\n";
    assert_eq!(
        get_available_branches(&worktrees, local, remote),
        strings(&["alpha", "loose", "origin/alpha", "origin/feature/part", "upstream/beta", "zeta"])
    );
    assert_eq!(get_available_branches(&worktrees, "", ""), Vec::<String>::new());
}

#[test]
fn available_branches_hold_no_branch_twice() {
    let got = get_available_branches(&Vec::new(), "b\na\nb\n", "a\nc/b\n");
    assert_eq!(got, strings(&["a", "b", "c/b"]));
}

fn run_add(track: Option<&str>, events: &[AddEvent]) -> AddAction {
    add_worktree("/home/user/proj", "feature/x", None, track, false, false, &events.to_vec())
}

#[test]
fn adding_runs_step_by_step() {
    let taken = AddEvent::PathExists(false);
    let listed = AddEvent::Listed(vec![on_branch("/home/user/proj", Some("refs/heads/main"))]);
    let creating = Some("Creating worktree at: /home/user/proj-feature-x".to_string());
    assert_eq!(
        run_add(None, &[]),
        AddAction::CheckPath { path: "/home/user/proj-feature-x".to_string() }
    );
    assert_eq!(run_add(None, &[taken.clone()]), AddAction::List);
    assert_eq!(
        run_add(None, &[taken.clone(), listed.clone()]),
        AddAction::CheckLocalBranch {
            notice: creating.clone(),
            args: strings(&["show-ref", "--verify", "--quiet", "refs/heads/feature/x"])
        }
    );
    assert_eq!(
        run_add(None, &[taken.clone(), listed.clone(), AddEvent::LocalBranch(true)]),
        AddAction::Run {
            notice: None,
            args: strings(&["worktree", "add", "/home/user/proj-feature-x", "feature/x"])
        }
    );
    assert_eq!(
        run_add(None, &[taken.clone(), listed.clone(), AddEvent::LocalBranch(false)]),
        AddAction::ListRemoteBranches { args: strings(&["branch", "-r", "--list", "*/feature/x"]) }
    );
    let no_remote = [
        taken.clone(),
        listed.clone(),
        AddEvent::LocalBranch(false),
        AddEvent::RemoteBranches("\n".to_string()),
    ];
    assert_eq!(
        run_add(None, &no_remote),
        AddAction::Run {
            notice: None,
            args: strings(&["worktree", "add", "-b", "feature/x", "/home/user/proj-feature-x"])
        }
    );
    let on_remote = [
        taken.clone(),
        listed.clone(),
        AddEvent::LocalBranch(false),
        AddEvent::RemoteBranches("  origin/feature/x\n".to_string()),
        AddEvent::Ran(None),
    ];
    assert_eq!(
        run_add(None, &on_remote[..4]),
        AddAction::Run {
            notice: None,
            args: strings(&["worktree", "add", "/home/user/proj-feature-x", "feature/x"])
        }
    );
    assert_eq!(
        run_add(None, &on_remote),
        AddAction::End {
            report: None,
            notice: Some("Worktree created successfully".to_string()),
            error: None
        }
    );
    assert_eq!(
        run_add(Some("origin"), &[taken.clone(), listed.clone()]),
        AddAction::Run {
            notice: creating,
            args: strings(&[
                "worktree",
                "add",
                "--track",
                "-b",
                "feature/x",
                "/home/user/proj-feature-x",
                "origin/feature/x"
            ])
        }
    );
}

#[test]
fn adding_ends_with_the_first_obstacle() {
    let free = AddEvent::PathExists(false);
    assert_eq!(
        run_add(None, &[AddEvent::PathExists(true)]),
        AddAction::End {
            report: None,
            notice: None,
            error: Some(path_taken("/home/user/proj-feature-x"))
        }
    );
    assert_eq!(
        run_add(None, &[free.clone(), AddEvent::ListFailed("boom".to_string())]),
        AddAction::End {
            report: None,
            notice: None,
            error: Some(WtError::GitError {
                message: "failed to list existing worktrees".to_string(),
                source: Some("boom".to_string())
            })
        }
    );
    let held = AddEvent::Listed(vec![on_branch("/tmp/held", Some("refs/heads/feature/x"))]);
    assert_eq!(
        run_add(Some("origin"), &[free.clone(), held]),
        AddAction::End {
            report: None,
            notice: None,
            error: Some(WtError::UserError {
                message: "worktree for branch 'feature/x' already exists at: /tmp/held".to_string()
            })
        }
    );
    let failed = [
        free.clone(),
        AddEvent::Listed(Vec::new()),
        AddEvent::Ran(Some(WtError::git_error("fatal"))),
    ];
    assert_eq!(
        run_add(Some("origin"), &failed),
        AddAction::End {
            report: None,
            notice: None,
            error: Some(WtError::GitError {
                message: "failed to add worktree tracking origin/feature/x".to_string(),
                source: Some("fatal".to_string())
            })
        }
    );
    assert_eq!(
        add_worktree("/", "b", None, None, false, false, &Vec::new()),
        AddAction::End {
            report: None,
            notice: None,
            error: Some(WtError::IoError {
                message: "repository root has no parent directory".to_string(),
                source: None
            })
        }
    );
}

#[test]
fn adding_reports_for_machines_and_keeps_quiet() {
    let done = [AddEvent::PathExists(false), AddEvent::Listed(Vec::new()), AddEvent::Ran(None)];
    assert_eq!(
        add_worktree("/r/p", "b", Some("/tmp/wt"), Some("origin"), true, false, &done.to_vec()),
        AddAction::End {
            report: Some(add_report("b", "/tmp/wt", Some("origin"))),
            notice: None,
            error: None
        }
    );
    assert_eq!(
        add_worktree("/r/p", "b", Some("/tmp/wt"), Some("origin"), false, true, &done.to_vec()),
        AddAction::End { report: None, notice: None, error: None }
    );
    assert_eq!(
        add_worktree("/r/p", "b", Some("/tmp/wt"), Some("origin"), true, false, &done[..2].to_vec()),
        AddAction::Run {
            notice: None,
            args: strings(&["worktree", "add", "--track", "-b", "b", "/tmp/wt", "origin/b"])
        }
    );
}

#[test]
fn events_out_of_turn_put_the_question_again() {
    assert_eq!(
        run_add(None, &[AddEvent::Ran(None)]),
        AddAction::CheckPath { path: "/home/user/proj-feature-x".to_string() }
    );
    assert_eq!(run_add(None, &[AddEvent::PathExists(false), AddEvent::Ran(None)]), AddAction::List);
}
