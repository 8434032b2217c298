use worktree_manager::config::Config;
use worktree_manager::error::WtError;
use worktree_manager::fzf::PickFailure;
use worktree_manager::interactive::{
    action_line, chosen_action, discovery_roots, extract_path, extract_path_from_all,
    format_branch_name, prepare_all_candidates, prepare_candidates, read_keyed_pick, repo_name,
    run_interactive, worktree_picker_args, KeyedPick,
};
use worktree_manager::worktree::Worktree;

fn strings(items: &[&str]) -> Vec<String> {
    items.iter().map(|s| s.to_string()).collect()
}

fn on_branch(path: &str, reference: &str) -> Worktree {
    Worktree {
        path: path.to_string(),
        head: None,
        branch: Some(reference.to_string()),
        locked: false,
        lock_reason: None,
        prunable: None,
        bare: false,
    }
}

#[test]
fn test_format_branch_name_strips_refs_heads() {
    let wt = Worktree {
        path: "/tmp/repo".to_string(),
        head: Some("abc123".to_string()),
        branch: Some("refs/heads/main".to_string()),
        locked: false,
        lock_reason: None,
        prunable: None,
        bare: false,
    };
    assert_eq!(format_branch_name(&wt), "main");
}

#[test]
fn test_format_branch_name_strips_refs_remotes() {
    let wt = Worktree {
        path: "/tmp/repo".to_string(),
        head: Some("abc123".to_string()),
        branch: Some("refs/remotes/origin/feature".to_string()),
        locked: false,
        lock_reason: None,
        prunable: None,
        bare: false,
    };
    assert_eq!(format_branch_name(&wt), "origin/feature");
}

#[test]
fn test_format_branch_name_detached() {
    let wt = Worktree {
        path: "/tmp/repo".to_string(),
        head: None,
        branch: None,
        locked: false,
        lock_reason: None,
        prunable: None,
        bare: false,
    };
    assert_eq!(format_branch_name(&wt), "(detached)");
}

#[test]
fn format_branch_name_keeps_other_references() {
    assert_eq!(format_branch_name(&on_branch("/r", "refs/tags/v1")), "refs/tags/v1");
    assert_eq!(format_branch_name(&on_branch("/r", "refs/heads/refs/heads/x")), "refs/heads/x");
    assert_eq!(format_branch_name(&on_branch("/r", "refs/heads/")), "");
}

#[test]
fn test_prepare_candidates_alignment() {
    let worktrees = vec![
        Worktree {
            path: "/tmp/repo1".to_string(),
            head: Some("abc".to_string()),
            branch: Some("refs/heads/main".to_string()),
            locked: false,
            lock_reason: None,
            prunable: None,
            bare: false,
        },
        Worktree {
            path: "/tmp/repo2".to_string(),
            head: Some("def".to_string()),
            branch: Some("refs/heads/feature-branch".to_string()),
            locked: false,
            lock_reason: None,
            prunable: None,
            bare: false,
        },
    ];

    let candidates = prepare_candidates(&worktrees);
    assert_eq!(candidates.len(), 2);

    assert!(candidates[0].starts_with("main           "));
    assert!(candidates[1].starts_with("feature-branch"));
}

#[test]
fn candidates_are_exact() {
    let worktrees = vec![
        on_branch("/tmp/repo1", "refs/heads/main"),
        on_branch("/tmp/repo2", "refs/heads/feature-branch"),
    ];
    assert_eq!(
        prepare_candidates(&worktrees),
        strings(&["main            /tmp/repo1", "feature-branch  /tmp/repo2"])
    );
    assert_eq!(prepare_candidates(&Vec::new()), Vec::<String>::new());
}

#[test]
fn column_width_counts_bytes() {
    let worktrees = vec![on_branch("/a", "refs/heads/\u{e9}t\u{e9}"), on_branch("/b", "refs/heads/ab")];
    assert_eq!(prepare_candidates(&worktrees), strings(&["\u{e9}t\u{e9}    /a", "ab     /b"]));
}

#[test]
fn test_extract_path_success() {
    let line = "main  /tmp/repo/main";
    let path = extract_path(line).unwrap();
    assert_eq!(path, "/tmp/repo/main");
}

#[test]
fn test_extract_path_with_spaces_in_path() {
    let line = "feature  /tmp/my repo/feature";
    let path = extract_path(line).unwrap();
    assert_eq!(path, "/tmp/my repo/feature");
}

#[test]
fn test_extract_path_failure() {
    let line = "invalid-line-format";
    assert!(extract_path(line).is_err());
}

#[test]
fn extract_path_failure_is_a_user_error() {
    assert_eq!(
        extract_path("invalid-line-format"),
        Err(WtError::UserError {
            message: "failed to extract path from fzf output: invalid-line-format".to_string()
        })
    );
}

#[test]
fn extract_path_takes_the_second_piece() {
    assert_eq!(extract_path("a  b  c"), Ok("b".to_string()));
    assert_eq!(extract_path("a   b"), Ok(" b".to_string()));
    assert_eq!(extract_path("a    b"), Ok("".to_string()));
    assert_eq!(extract_path("  b"), Ok("b".to_string()));
}

#[test]
fn test_extract_path_from_all_success() {
    let line = "worktree-manager  main       /Users/user/dev/worktree-manager";
    let path = extract_path_from_all(line).unwrap();
    assert_eq!(path, "/Users/user/dev/worktree-manager");
}

#[test]
fn test_extract_path_from_all_with_spaces() {
    let line = "my-repo  feature-x  /Users/user/my projects/my-repo";
    let path = extract_path_from_all(line).unwrap();
    assert_eq!(path, "/Users/user/my projects/my-repo");
}

#[test]
fn test_extract_path_from_all_failure() {
    let line = "only-two  columns";
    assert!(extract_path_from_all(line).is_err());
}

#[test]
fn all_candidates_have_three_columns() {
    let entries = vec![
        ("app".to_string(), on_branch("/src/app", "refs/heads/main")),
        ("library".to_string(), on_branch("/src/library-x", "refs/heads/x")),
    ];
    let lines = prepare_all_candidates(&entries);
    assert_eq!(lines, strings(&["app      main  /src/app", "library  x     /src/library-x"]));
    assert_eq!(extract_path_from_all(&lines[0]), Ok("/src/app".to_string()));
    assert_eq!(extract_path_from_all(&lines[1]), Ok("/src/library-x".to_string()));
}

#[test]
fn repo_name_is_the_last_component() {
    assert_eq!(repo_name("/home/user/proj"), "proj");
    assert_eq!(repo_name("/home/user/proj/"), "proj");
    assert_eq!(repo_name("/"), "(unknown)");
    assert_eq!(repo_name("/home/.."), "(unknown)");
}

#[test]
fn picker_is_called_with_the_settings() {
    let config = Config::default();
    assert_eq!(
        worktree_picker_args(&config.fzf, false),
        strings(&[
            "--height",
            "40%",
            "--layout",
            "reverse",
            "--preview-window",
            "right:60%",
            "--preview",
            "wt preview --path {2}",
            "--prompt",
            "Worktree> ",
            "--header",
            "Enter: cd | Ctrl-E: edit",
            "--expect",
            "ctrl-e"
        ])
    );
    assert_eq!(worktree_picker_args(&config.fzf, true)[7], "wt preview --path {3}");
}

#[test]
fn keyed_pick_reads_key_and_line() {
    assert_eq!(
        read_keyed_pick(Some(0), "\nmain  /tmp/r\n"),
        KeyedPick::Chosen { key: String::new(), line: "main  /tmp/r".to_string() }
    );
    assert_eq!(
        read_keyed_pick(Some(0), "ctrl-e\r\nmain  /tmp/r"),
        KeyedPick::Chosen { key: "ctrl-e".to_string(), line: "main  /tmp/r".to_string() }
    );
    assert_eq!(read_keyed_pick(Some(0), ""), KeyedPick::Cancelled);
    assert_eq!(read_keyed_pick(Some(0), "ctrl-e\n"), KeyedPick::Cancelled);
    assert_eq!(read_keyed_pick(Some(0), "ctrl-e\n\n"), KeyedPick::Cancelled);
    assert_eq!(read_keyed_pick(Some(1), "a\nb\n"), KeyedPick::Cancelled);
    assert_eq!(read_keyed_pick(Some(130), "a\nb\n"), KeyedPick::Cancelled);
    assert_eq!(read_keyed_pick(Some(3), ""), KeyedPick::Failed(PickFailure::ExitCode(3)));
    assert_eq!(read_keyed_pick(None, ""), KeyedPick::Failed(PickFailure::Signal));
}

#[test]
fn action_depends_on_the_key() {
    assert_eq!(action_line("", "/tmp/r"), "cd|/tmp/r");
    assert_eq!(action_line("enter", "/tmp/r"), "cd|/tmp/r");
    assert_eq!(action_line("ctrl-e", "/tmp/r"), "edit|/tmp/r");
}

#[test]
fn chosen_action_by_mode() {
    let pick = KeyedPick::Chosen { key: String::new(), line: "main  /tmp/r".to_string() };
    assert_eq!(chosen_action(false, &pick), Ok(Some("cd|/tmp/r".to_string())));
    assert_eq!(
        chosen_action(true, &pick),
        Err(WtError::UserError {
            message: "failed to extract path from fzf output: main  /tmp/r".to_string()
        })
    );
    let wide = KeyedPick::Chosen { key: "ctrl-e".to_string(), line: "app  main  /src/app".to_string() };
    assert_eq!(chosen_action(true, &wide), Ok(Some("edit|/src/app".to_string())));
    assert_eq!(chosen_action(false, &KeyedPick::Cancelled), Ok(None));
    assert_eq!(
        chosen_action(false, &KeyedPick::Failed(PickFailure::ExitCode(2))),
        Err(WtError::UserError { message: "fzf exited with unexpected code: 2".to_string() })
    );
}

#[test]
fn nothing_to_pick_is_not_found() {
    let config = Config::default();
    assert_eq!(
        run_interactive(false, &config, 1, &Vec::new()),
        Err(WtError::NotFound {
            message: "no worktrees found in repository".to_string(),
            source: None
        })
    );
    assert_eq!(
        run_interactive(true, &config, 0, &Vec::new()),
        Err(WtError::NotFound {
            message: "No git repositories found in configured discovery paths.".to_string(),
            source: None
        })
    );
    assert_eq!(
        run_interactive(true, &config, 2, &Vec::new()),
        Err(WtError::NotFound {
            message: "No worktrees found in any discovered repository".to_string(),
            source: None
        })
    );
}

#[test]
fn picker_request_holds_lines_and_arguments() {
    let config = Config::default();
    let entries = vec![("app".to_string(), on_branch("/src/app", "refs/heads/main"))];
    let single = run_interactive(false, &config, 1, &entries).unwrap();
    assert_eq!(single.candidates, strings(&["main  /src/app"]));
    assert_eq!(single.args, worktree_picker_args(&config.fzf, false));
    let all = run_interactive(true, &config, 1, &entries).unwrap();
    assert_eq!(all.candidates, strings(&["app  main  /src/app"]));
    assert_eq!(all.args, worktree_picker_args(&config.fzf, true));
}

#[test]
fn discovery_needs_search_roots() {
    let mut config = Config::default();
    assert_eq!(
        discovery_roots(&config),
        Err(WtError::UserError {
            message:
                "No auto-discovery paths configured. Run: wt config set-discovery-paths <paths...>"
                    .to_string()
        })
    );
    config.auto_discovery.paths = strings(&["/src", "/work"]);
    assert_eq!(discovery_roots(&config), Ok(strings(&["/src", "/work"])));
}
