use worktree_manager::agent::{
    current_worktree, is_worktree_dirty, print_human_readable_context, show_context, show_status,
    status_lines, worktree_info, CurrentWorktree, WorktreeInfo,
};
use worktree_manager::discovery::{git_entry_parent, resolve_repo_root};
use worktree_manager::error::WtError;
use worktree_manager::list::{display_path, flags, list_worktrees, pretty_ref};
use worktree_manager::preview::{
    preview, preview_branch, preview_repo_name, print_preview, print_section, status_info,
    trimmed_lines,
};
use worktree_manager::prune::{
    prune_report, prune_worktrees, stale_line, stale_worktrees, PruneAction, PruneEvent,
    PruneResult, PrunedWorktree,
};
use worktree_manager::worktree::Worktree;

fn strings(items: &[&str]) -> Vec<String> {
    items.iter().map(|s| s.to_string()).collect()
}

fn record(path: &str, reference: Option<&str>) -> Worktree {
    Worktree {
        path: path.to_string(),
        head: Some("abc".to_string()),
        branch: reference.map(|r| r.to_string()),
        locked: false,
        lock_reason: None,
        prunable: None,
        bare: false,
    }
}

#[test]
fn pretty_ref_strips_the_namespace() {
    assert_eq!(pretty_ref(Some("refs/heads/main")), "main");
    assert_eq!(pretty_ref(Some("refs/remotes/origin/x")), "origin/x");
    assert_eq!(pretty_ref(Some("main")), "main");
    assert_eq!(pretty_ref(None), "(detached)");
}

#[test]
fn display_path_is_relative_below_the_root() {
    assert_eq!(display_path("/home/u/proj", "/home/u/proj/wt/a"), "wt/a");
    assert_eq!(display_path("/home/u/proj", "/home/u/proj"), "");
    assert_eq!(display_path("/home/u/proj", "/home/u/proj-feature"), "/home/u/proj-feature");
    assert_eq!(display_path("/home/u/proj", "/elsewhere"), "/elsewhere");
}

#[test]
fn flags_in_fixed_order() {
    let plain = record("/r", None);
    assert_eq!(flags(&plain), "");
    let all = Worktree {
        locked: true,
        prunable: Some("gitdir file points to non-existent location".to_string()),
        bare: true,
        ..record("/r", None)
    };
    assert_eq!(flags(&all), "locked, prunable: gitdir file points to non-existent location, bare");
    let empty_reason = Worktree { prunable: Some(String::new()), bare: true, ..record("/r", None) };
    assert_eq!(flags(&empty_reason), "prunable, bare");
    assert_eq!(flags(&Worktree { locked: true, ..record("/r", None) }), "locked");
}

#[test]
fn table_of_one_repository() {
    let entries = vec![
        ("proj".to_string(), record("/home/u/proj", Some("refs/heads/main"))),
        (
            "proj".to_string(),
            Worktree { locked: true, ..record("/home/u/proj-topic", Some("refs/heads/topic-one")) },
        ),
        ("proj".to_string(), record("/home/u/proj/nested", None)),
    ];
    assert_eq!(
        list_worktrees(false, "/home/u/proj", &entries),
        strings(&[
            "main        ",
            "topic-one   /home/u/proj-topic  [locked]",
            "(detached)  nested",
        ])
    );
}

#[test]
fn table_of_all_repositories() {
    let entries = vec![
        ("proj".to_string(), record("/home/u/proj", Some("refs/heads/main"))),
        (
            "other-repo".to_string(),
            Worktree { bare: true, ..record("/home/u/other-repo", None) },
        ),
    ];
    assert_eq!(
        list_worktrees(true, "", &entries),
        strings(&[
            "proj        main        /home/u/proj",
            "other-repo  (detached)  /home/u/other-repo  [bare]",
        ])
    );
    assert_eq!(list_worktrees(true, "", &Vec::new()), Vec::<String>::new());
}

#[test]
fn stale_worktrees_are_those_marked_prunable() {
    let worktrees = vec![
        record("/a", None),
        Worktree { prunable: Some("gone".to_string()), ..record("/b", None) },
        Worktree { prunable: Some(String::new()), ..record("/c", None) },
    ];
    let stale = stale_worktrees(&worktrees);
    assert_eq!(
        stale,
        vec![
            PrunedWorktree { path: "/b".to_string(), reason: "gone".to_string() },
            PrunedWorktree { path: "/c".to_string(), reason: String::new() },
        ]
    );
    assert_eq!(stale_line(&stale[0]), "  - /b (gone)");
    assert_eq!(stale_line(&stale[1]), "  - /c ()");
    let report = prune_report(stale.clone());
    assert!(report.success);
    assert_eq!(report.pruned, stale);
    assert!(stale_worktrees(&worktrees[..1].to_vec()).is_empty());
}

#[test]
fn preview_names_repository_and_branch() {
    let worktrees = vec![
        record("/home/u/proj", Some("refs/heads/main")),
        record("/home/u/proj-x", Some("refs/remotes/origin/x")),
        record("/home/u/proj-d", None),
    ];
    assert_eq!(preview_repo_name("/home/u/proj"), "proj");
    assert_eq!(preview_repo_name("/"), "/");
    assert_eq!(preview_branch(&worktrees, "/home/u/proj"), "main");
    assert_eq!(preview_branch(&worktrees, "/home/u/proj-x/"), "origin/x");
    assert_eq!(preview_branch(&worktrees, "/home/u/proj-d"), "(unknown)");
    assert_eq!(preview_branch(&worktrees, "/nowhere"), "(unknown)");
}

#[test]
fn status_info_reads_first_line_and_dirt() {
    let info = status_info("\n## main...origin/main\n M src/lib.rs\n", " M src/lib.rs\n");
    assert_eq!(info.branch_line, "## main...origin/main");
    assert!(info.dirty);
    let clean = status_info("", "\n");
    assert_eq!(clean.branch_line, "");
    assert!(!clean.dirty);
}

#[test]
fn trimmed_lines_drop_the_outer_space() {
    assert_eq!(trimmed_lines("\n a\r\nb \n\n"), strings(&["a", "b"]));
    assert_eq!(trimmed_lines("  \n"), Vec::<String>::new());
}

#[test]
fn preview_for_machines() {
    let worktrees = vec![record("/home/u/proj", Some("refs/heads/main"))];
    let out = preview(
        "/home/u/proj",
        "/home/u/proj",
        &worktrees,
        Some("## main\n M a\n"),
        Some("abc one\ndef two\n"),
        Some(" M a\n"),
    );
    assert_eq!(out.repo, "proj");
    assert_eq!(out.branch, "main");
    assert_eq!(out.path, "/home/u/proj");
    assert_eq!(out.status.branch_line, "## main");
    assert!(out.status.dirty);
    assert_eq!(out.recent_commits, strings(&["abc one", "def two"]));
    assert_eq!(out.changed_files, strings(&["M a"]));
    let failed = preview("/home/u/proj", "/x", &worktrees, None, None, None);
    assert_eq!(failed.branch, "(unknown)");
    assert_eq!(failed.status.branch_line, "(failed to read status)");
    assert!(!failed.status.dirty);
    assert_eq!(failed.recent_commits, strings(&["(failed to read log)"]));
    assert!(failed.changed_files.is_empty());
}

#[test]
fn sections_indent_their_body() {
    assert_eq!(print_section("Status", "a\nb"), strings(&["Status:", "  a", "  b", ""]));
    assert_eq!(print_section("Status", ""), strings(&["Status:", "  (none)", ""]));
}

#[test]
fn preview_for_humans() {
    let worktrees = vec![record("/home/u/proj", Some("refs/heads/main"))];
    assert_eq!(
        print_preview(
            "/home/u/proj",
            "/home/u/proj",
            &worktrees,
            Some("## main\n"),
            Some("abc one\n"),
            Some("")
        ),
        strings(&[
            "Repo:   proj",
            "Branch: main",
            "Path:   /home/u/proj",
            "",
            "Status:",
            "  ## main",
            "",
            "Recent commits:",
            "  abc one",
            "",
        ])
    );
    let dirty = print_preview("/p", "/p", &worktrees, None, None, Some(" M a\n?? b\n"));
    assert_eq!(
        dirty[4..].to_vec(),
        strings(&[
            "Status:",
            "  (failed to read status)",
            "",
            "Recent commits:",
            "  (failed to read log)",
            "",
            "Changed files:",
            "   M a",
            "  ?? b",
            "",
        ])
    );
}

#[test]
fn current_worktree_holds_the_directory() {
    let worktrees = vec![
        record("/home/u/proj", Some("refs/heads/main")),
        record("/home/u/proj-x", Some("refs/heads/x")),
    ];
    assert_eq!(current_worktree(&worktrees, "/home/u/proj/src"), Some(0));
    assert_eq!(current_worktree(&worktrees, "/home/u/proj-x"), Some(1));
    assert_eq!(current_worktree(&worktrees, "/home/u"), None);
    assert_eq!(current_worktree(&worktrees, "/home/u/proj-xy"), None);
}

#[test]
fn dirty_means_the_status_wrote_something() {
    assert!(is_worktree_dirty(Some(" M a\n")));
    assert!(!is_worktree_dirty(Some("")));
    assert!(!is_worktree_dirty(None));
}

#[test]
fn context_splits_current_from_others() {
    let worktrees = vec![
        record("/home/u/proj", Some("refs/heads/main")),
        record("/home/u/proj-x", Some("refs/remotes/origin/x")),
        record("/home/u/proj-d", None),
    ];
    let context = show_context("/home/u/proj", &worktrees, "/home/u/proj-x/src", &vec![false, true]);
    assert_eq!(
        context.current_worktree,
        Some(WorktreeInfo {
            path: "/home/u/proj-x".to_string(),
            branch: Some("origin/x".to_string()),
            head: Some("abc".to_string()),
            dirty: true
        })
    );
    assert_eq!(
        context.other_worktrees,
        vec![worktree_info(&worktrees[0], false), worktree_info(&worktrees[2], false)]
    );
    assert_eq!(context.repository.root, "/home/u/proj");
    assert_eq!(context.repository.total_worktrees, 3);
    assert_eq!(
        print_human_readable_context(&context),
        strings(&[
            "## Worktree Context",
            "",
            "Current: origin/x @ /home/u/proj-x",
            "Status: dirty",
            "",
            "Other worktrees:",
            "  - main @ /home/u/proj",
            "  - <detached> @ /home/u/proj-d",
            "",
            "Repository: /home/u/proj",
            "Total worktrees: 3",
            "",
            "## Quick Commands",
            "",
            "  wt                  # Interactive picker",
            "  wt list --json      # List all worktrees",
            "  wt add <branch>     # Create new worktree",
            "  wt remove <target>  # Remove worktree",
            "  wt prune            # Clean stale worktrees",
        ])
    );
}

#[test]
fn context_outside_any_worktree() {
    let worktrees = vec![record("/home/u/proj", Some("refs/heads/main"))];
    let context = show_context("/home/u/proj", &worktrees, "/tmp", &vec![true]);
    assert_eq!(context.current_worktree, None);
    assert_eq!(context.other_worktrees.len(), 1);
    let lines = print_human_readable_context(&context);
    assert_eq!(lines[2], "Not currently in a worktree");
    assert_eq!(lines[5], "  - main @ /home/u/proj (dirty)");
    assert_eq!(lines[8], "Total worktrees: 1");
    let none = show_context("/r", &Vec::new(), "/tmp", &Vec::new());
    assert_eq!(print_human_readable_context(&none).len(), 14);
}

#[test]
fn short_status() {
    let worktrees = vec![
        record("/home/u/proj", Some("refs/heads/main")),
        record("/home/u/proj-x", Some("refs/remotes/origin/x")),
    ];
    let status = show_status(&worktrees, "/home/u/proj", true);
    assert_eq!(
        status.current,
        Some(CurrentWorktree {
            path: "/home/u/proj".to_string(),
            branch: Some("main".to_string()),
            dirty: true
        })
    );
    assert_eq!(status.count, 2);
    assert_eq!(
        show_status(&worktrees, "/home/u/proj-x", false).current.unwrap().branch.as_deref(),
        Some("refs/remotes/origin/x")
    );
    assert_eq!(show_status(&worktrees, "/tmp", false).current, None);
    assert_eq!(
        status_lines(&worktrees, "/home/u/proj", true),
        strings(&["main @ /home/u/proj (dirty)", "Total: 2 worktrees"])
    );
    assert_eq!(
        status_lines(&worktrees, "/home/u/proj-x/a", false),
        strings(&["refs/remotes/origin/x @ /home/u/proj-x", "Total: 2 worktrees"])
    );
    let detached = vec![record("/home/u/proj-d", None)];
    assert_eq!(
        status_lines(&detached, "/home/u/proj-d", false),
        strings(&["<detached> @ /home/u/proj-d", "Total: 1 worktrees"])
    );
    assert_eq!(
        status_lines(&worktrees, "/tmp", false),
        strings(&["Not in a worktree", "Total: 2 worktrees"])
    );
}

#[test]
fn git_entries_mark_their_parent() {
    assert_eq!(git_entry_parent("/src/app/.git"), Some("/src/app".to_string()));
    assert_eq!(git_entry_parent("/src/app/.git/"), Some("/src/app".to_string()));
    assert_eq!(git_entry_parent(".git"), Some(String::new()));
    assert_eq!(git_entry_parent("/src/app/.github"), None);
    assert_eq!(git_entry_parent("/src/app/.git/config"), None);
    assert_eq!(git_entry_parent("/"), None);
}

#[test]
fn candidate_roots_are_resolved_by_the_tool() {
    assert_eq!(resolve_repo_root(Ok("/src/app\n".to_string())), Ok("/src/app".to_string()));
    assert_eq!(
        resolve_repo_root(Err(WtError::git_error("x"))),
        Err(WtError::NotFound { message: "not in a git repository".to_string(), source: None })
    );
}

#[test]
fn onboarding_text_lists_the_commands() {
    let text = worktree_manager::agent::show_onboard();
    assert!(text.starts_with("# wt - Git Worktree Manager\n"));
    assert!(text.contains("| `wt remove <target>` | Remove worktree | `--json`, `--quiet`, `--force` |"));
    assert!(text.contains("{\"success\": true, \"removed\": true, \"branch\": \"feature-x\", \"path\": \"/path/to/wt\"}"));
    assert!(text.ends_with("5. Check `dirty` status before switching worktrees\n"));
}

#[test]
fn pruning_runs_step_by_step() {
    let clean = vec![record("/a", None)];
    assert_eq!(
        prune_worktrees(&clean, false, false, &PruneEvent::Start),
        PruneAction::End {
            report: None,
            notices: strings(&["No stale worktrees found."]),
            error: None
        }
    );
    assert_eq!(
        prune_worktrees(&clean, false, true, &PruneEvent::Start),
        PruneAction::End { report: None, notices: Vec::new(), error: None }
    );
    assert_eq!(
        prune_worktrees(&clean, true, false, &PruneEvent::Start),
        PruneAction::End {
            report: Some(PruneResult { success: true, pruned: Vec::new() }),
            notices: Vec::new(),
            error: None
        }
    );
    let worktrees = vec![
        record("/a", None),
        Worktree { prunable: Some("gone".to_string()), ..record("/b", None) },
    ];
    let stale = vec![PrunedWorktree { path: "/b".to_string(), reason: "gone".to_string() }];
    assert_eq!(
        prune_worktrees(&worktrees, false, false, &PruneEvent::Start),
        PruneAction::Run {
            notices: strings(&["Stale worktrees to prune:", "  - /b (gone)"]),
            args: strings(&["worktree", "prune"])
        }
    );
    assert_eq!(
        prune_worktrees(&worktrees, true, false, &PruneEvent::Start),
        PruneAction::Run { notices: Vec::new(), args: strings(&["worktree", "prune"]) }
    );
    assert_eq!(
        prune_worktrees(&worktrees, false, false, &PruneEvent::Ran(None)),
        PruneAction::End {
            report: None,
            notices: strings(&["Pruned stale worktrees."]),
            error: None
        }
    );
    match prune_worktrees(&worktrees, true, false, &PruneEvent::Ran(None)) {
        PruneAction::End { report: Some(report), .. } => assert!(report.success),
        other => panic!("{:?}", other),
    }
    assert_eq!(
        prune_worktrees(&worktrees, true, true, &PruneEvent::Ran(None)),
        PruneAction::End {
            report: Some(PruneResult { success: true, pruned: stale }),
            notices: Vec::new(),
            error: None
        }
    );
    assert_eq!(
        prune_worktrees(&worktrees, false, false, &PruneEvent::Ran(Some(WtError::git_error("no")))),
        PruneAction::End {
            report: None,
            notices: Vec::new(),
            error: Some(WtError::GitError {
                message: "failed to prune worktrees".to_string(),
                source: Some("no".to_string())
            })
        }
    );
}
