use worktree_manager::worktree::{is_consistent, parse_porcelain, ParseError, Worktree};

fn record(path: &str) -> Worktree {
    Worktree {
        path: path.to_string(),
        head: None,
        branch: None,
        locked: false,
        lock_reason: None,
        prunable: None,
        bare: false,
    }
}

#[test]
fn parses_single_worktree() {
    let input = "worktree /tmp/repo\nHEAD abcdef\nbranch refs/heads/main\n\n";
    let got = parse_porcelain(input).unwrap();
    assert_eq!(
        got,
        vec![Worktree {
            path: "/tmp/repo".to_string(),
            head: Some("abcdef".to_string()),
            branch: Some("refs/heads/main".to_string()),
            locked: false,
            lock_reason: None,
            prunable: None,
            bare: false,
        }]
    );
}

#[test]
fn parses_detached_and_flags() {
    let input = "worktree /tmp/repo-wt\nHEAD detached\nlocked\nprunable stale\nbare\n";
    let got = parse_porcelain(input).unwrap();
    assert_eq!(got.len(), 1);
    let wt = &got[0];
    assert_eq!(wt.path, "/tmp/repo-wt".to_string());
    assert_eq!(wt.head, None);
    assert_eq!(wt.branch, None);
    assert!(wt.locked);
    assert_eq!(wt.prunable.as_deref(), Some("stale"));
    assert!(wt.bare);
}

#[test]
fn empty_input_yields_no_record() {
    assert_eq!(parse_porcelain(""), Ok(vec![]));
    assert_eq!(parse_porcelain("\n\n\n"), Ok(vec![]));
}

#[test]
fn one_record_per_block_in_order() {
    let input = "worktree /a\nHEAD 1\n\nworktree /b\nHEAD 2\nbranch refs/heads/b\n\nworktree /c\nbare\n\n";
    let got = parse_porcelain(input).unwrap();
    assert_eq!(got.len(), 3);
    assert_eq!(got[0], Worktree { head: Some("1".to_string()), ..record("/a") });
    assert_eq!(
        got[1],
        Worktree {
            head: Some("2".to_string()),
            branch: Some("refs/heads/b".to_string()),
            ..record("/b")
        }
    );
    assert_eq!(got[2], Worktree { bare: true, ..record("/c") });
}

#[test]
fn blocks_need_no_blank_line_between_them() {
    let got = parse_porcelain("worktree /a\nworktree /b\n").unwrap();
    assert_eq!(got, vec![record("/a"), record("/b")]);
}

#[test]
fn consecutive_blank_lines_close_one_record() {
    let got = parse_porcelain("worktree /a\n\n\n\nworktree /b\n\n\n").unwrap();
    assert_eq!(got, vec![record("/a"), record("/b")]);
}

#[test]
fn unknown_key_is_passed_over() {
    let with = "worktree /r\nHEAD abc\nfuture key of a later version\nbranch refs/heads/main\n";
    let without = "worktree /r\nHEAD abc\nbranch refs/heads/main\n";
    assert_eq!(parse_porcelain(with), parse_porcelain(without));
    assert_eq!(parse_porcelain(with).unwrap().len(), 1);
    assert_eq!(parse_porcelain("mystery\nworktree /r\n"), Ok(vec![record("/r")]));
}

#[test]
fn missing_trailing_blank_line() {
    let got = parse_porcelain("worktree /r\nHEAD abc\nbranch refs/heads/main\n").unwrap();
    assert_eq!(
        got,
        vec![Worktree {
            head: Some("abc".to_string()),
            branch: Some("refs/heads/main".to_string()),
            ..record("/r")
        }]
    );
    assert_eq!(
        parse_porcelain("worktree /r\nHEAD abc"),
        parse_porcelain("worktree /r\nHEAD abc\n\n")
    );
}

#[test]
fn detached_block() {
    let got = parse_porcelain("worktree /r\nHEAD detached\nlocked\nprunable stale\nbare\n").unwrap();
    assert_eq!(
        got,
        vec![Worktree {
            path: "/r".to_string(),
            head: None,
            branch: None,
            locked: true,
            lock_reason: None,
            prunable: Some("stale".to_string()),
            bare: true,
        }]
    );
}

#[test]
fn lock_reason_is_kept() {
    let got = parse_porcelain("worktree /r\nlocked on a removable disk\n").unwrap();
    assert!(got[0].locked);
    assert_eq!(got[0].lock_reason.as_deref(), Some("on a removable disk"));
}

#[test]
fn prunable_without_reason_is_marked_with_empty_reason() {
    let got = parse_porcelain("worktree /r\nprunable\n").unwrap();
    assert_eq!(got[0].prunable.as_deref(), Some(""));
}

#[test]
fn branch_without_value_is_no_branch() {
    let got = parse_porcelain("worktree /r\nbranch refs/heads/x\nbranch\n").unwrap();
    assert_eq!(got[0].branch, None);
}

#[test]
fn values_keep_inner_spaces_and_lose_trailing_space() {
    let got = parse_porcelain("worktree /my repo/wt  \r\nHEAD abc\t\n").unwrap();
    assert_eq!(got[0].path, "/my repo/wt");
    assert_eq!(got[0].head.as_deref(), Some("abc"));
}

#[test]
fn later_field_lines_win() {
    let got = parse_porcelain("worktree /r\nHEAD abc\nHEAD def\n").unwrap();
    assert_eq!(got[0].head.as_deref(), Some("def"));
}

#[test]
fn worktree_without_path_is_refused() {
    assert_eq!(parse_porcelain("worktree\n"), Err(ParseError::MissingWorktreePath));
    assert_eq!(parse_porcelain("worktree /a\n\nworktree   \n"), Err(ParseError::MissingWorktreePath));
}

#[test]
fn field_before_worktree_is_refused() {
    assert_eq!(parse_porcelain("HEAD abc\n"), Err(ParseError::HeadBeforeWorktree));
    assert_eq!(parse_porcelain("branch refs/heads/x\n"), Err(ParseError::BranchBeforeWorktree));
    assert_eq!(parse_porcelain("locked\n"), Err(ParseError::LockedBeforeWorktree));
    assert_eq!(parse_porcelain("prunable gone\n"), Err(ParseError::PrunableBeforeWorktree));
    assert_eq!(parse_porcelain("bare\n"), Err(ParseError::BareBeforeWorktree));
}

#[test]
fn field_after_blank_line_is_outside_a_record() {
    assert_eq!(parse_porcelain("worktree /a\n\nbare\n"), Err(ParseError::BareBeforeWorktree));
}

#[test]
fn head_without_value_is_refused() {
    assert_eq!(parse_porcelain("worktree /a\nHEAD\n"), Err(ParseError::MissingHeadValue));
}

#[test]
fn first_offending_line_decides() {
    assert_eq!(parse_porcelain("locked\nHEAD x\nworktree\n"), Err(ParseError::LockedBeforeWorktree));
}

#[test]
fn parse_error_messages() {
    assert_eq!(ParseError::MissingWorktreePath.message(), "missing worktree path");
    assert_eq!(ParseError::HeadBeforeWorktree.message(), "HEAD before worktree");
    assert_eq!(ParseError::MissingHeadValue.message(), "missing HEAD value");
    assert_eq!(ParseError::BranchBeforeWorktree.message(), "branch before worktree");
    assert_eq!(ParseError::LockedBeforeWorktree.message(), "locked before worktree");
    assert_eq!(ParseError::PrunableBeforeWorktree.message(), "prunable before worktree");
    assert_eq!(ParseError::BareBeforeWorktree.message(), "bare before worktree");
}

#[test]
fn non_ascii_values_are_kept() {
    let got = parse_porcelain("worktree /tmp/r\u{e9}po\nbranch refs/heads/\u{65e5}\u{672c}\n").unwrap();
    assert_eq!(got[0].path, "/tmp/r\u{e9}po");
    assert_eq!(got[0].branch.as_deref(), Some("refs/heads/\u{65e5}\u{672c}"));
}

#[test]
fn snapshots_that_hang_together() {
    let good = parse_porcelain(
        "worktree /srv/repo.git\nbare\n\nworktree /tmp/a\nbranch refs/heads/a\n\nworktree /tmp/b\n",
    )
    .unwrap();
    assert!(is_consistent(&good));
    assert!(is_consistent(&[]));
    let same_path = parse_porcelain("worktree /tmp/a\n\nworktree /tmp/a/\n").unwrap();
    assert_eq!(same_path.len(), 2);
    assert!(!is_consistent(&same_path));
    let two_bare = parse_porcelain("worktree /a\nbare\n\nworktree /b\nbare\n").unwrap();
    assert!(!is_consistent(&two_bare));
    let bare_on_branch = parse_porcelain("worktree /a\nbare\nbranch refs/heads/main\n").unwrap();
    assert_eq!(bare_on_branch.len(), 1);
    assert!(!is_consistent(&bare_on_branch));
    let bare_on_remote = parse_porcelain("worktree /a\nbare\nbranch refs/remotes/o/m\n").unwrap();
    assert!(is_consistent(&bare_on_remote));
}
