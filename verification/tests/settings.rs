use worktree_manager::cli::Shell;
use worktree_manager::config::{config_dir, config_path, AutoDiscoveryConfig, Config, FzfConfig};
use worktree_manager::fzf::{picker_args, read_pick, FzfOptions, Pick, PickFailure};
use worktree_manager::init::{
    confirm, detect_shell, integration_block, integration_line_for_shell, is_already_configured,
    reload_command, shell_config_path, shell_init, shell_name, ShellFiles,
};

fn strings(items: &[&str]) -> Vec<String> {
    items.iter().map(|s| s.to_string()).collect()
}

#[test]
fn default_config_has_expected_values() {
    let config = Config::default();
    assert_eq!(config.version, "1.0.0");
    assert_eq!(config.fzf.height, "40%");
    assert_eq!(config.fzf.layout, "reverse");
    assert_eq!(config.fzf.preview_window, "right:60%");
    assert!(config.auto_discovery.enabled);
    assert!(config.auto_discovery.paths.is_empty());
}

#[test]
fn default_parts_agree_with_default_config() {
    assert_eq!(Config::default().fzf, FzfConfig::default());
    assert_eq!(Config::default().auto_discovery, AutoDiscoveryConfig::default());
}

#[test]
fn config_path_returns_yaml_file() {
    let path = config_path("/home/user/.config");
    assert!(path.ends_with("config.yaml"));
}

#[test]
fn config_lives_below_the_configuration_directory() {
    assert_eq!(config_dir("/home/user/.config"), "/home/user/.config/worktree-manager");
    assert_eq!(config_dir("/home/user/.config/"), "/home/user/.config/worktree-manager");
    assert_eq!(
        config_path("/home/user/.config"),
        "/home/user/.config/worktree-manager/config.yaml"
    );
    assert_eq!(config_path(""), "worktree-manager/config.yaml");
}

#[test]
fn test_fzf_options_default() {
    let opts = FzfOptions::default();
    assert_eq!(opts.height, "40%");
    assert_eq!(opts.layout, "reverse");
    assert_eq!(opts.preview_window, "right:60%");
    assert!(opts.preview.is_none());
    assert!(opts.prompt.is_none());
    assert!(opts.header.is_none());
}

#[test]
fn test_fzf_options_custom() {
    let opts = FzfOptions {
        height: "50%".to_string(),
        layout: "default".to_string(),
        preview: Some("cat {}".to_string()),
        preview_window: "up:40%".to_string(),
        prompt: Some("Select> ".to_string()),
        header: Some("Pick one:".to_string()),
    };

    assert_eq!(opts.height, "50%");
    assert_eq!(opts.layout, "default");
    assert_eq!(opts.preview, Some("cat {}".to_string()));
    assert_eq!(opts.preview_window, "up:40%");
    assert_eq!(opts.prompt, Some("Select> ".to_string()));
    assert_eq!(opts.header, Some("Pick one:".to_string()));
}

#[test]
fn picker_args_follow_the_options() {
    assert_eq!(
        picker_args(&FzfOptions::default()),
        strings(&["--height", "40%", "--layout", "reverse", "--preview-window", "right:60%"])
    );
    let opts = FzfOptions {
        height: "50%".to_string(),
        layout: "default".to_string(),
        preview: Some("cat {}".to_string()),
        preview_window: "up:40%".to_string(),
        prompt: None,
        header: Some("Pick one:".to_string()),
    };
    assert_eq!(
        picker_args(&opts),
        strings(&[
            "--height",
            "50%",
            "--layout",
            "default",
            "--preview-window",
            "up:40%",
            "--preview",
            "cat {}",
            "--header",
            "Pick one:"
        ])
    );
}

#[test]
fn picker_exit_is_a_choice_a_cancel_or_a_failure() {
    assert_eq!(read_pick(Some(0), "  main  /tmp/r \n"), Pick::Selected("main  /tmp/r".to_string()));
    assert_eq!(read_pick(Some(0), " \n"), Pick::Cancelled);
    assert_eq!(read_pick(Some(1), "ignored"), Pick::Cancelled);
    assert_eq!(read_pick(Some(130), ""), Pick::Cancelled);
    assert_eq!(read_pick(Some(2), ""), Pick::Failed(PickFailure::ExitCode(2)));
    assert_eq!(read_pick(Some(-1), ""), Pick::Failed(PickFailure::ExitCode(-1)));
    assert_eq!(read_pick(None, "x"), Pick::Failed(PickFailure::Signal));
}

#[test]
fn picker_failures_in_words() {
    assert_eq!(PickFailure::ExitCode(2).message(), "fzf exited with unexpected code: 2");
    assert_eq!(PickFailure::ExitCode(-17).message(), "fzf exited with unexpected code: -17");
    assert_eq!(
        PickFailure::ExitCode(i32::MIN).short_message(),
        "fzf exited with code: -2147483648"
    );
    assert_eq!(PickFailure::ExitCode(2047).short_message(), "fzf exited with code: 2047");
    assert_eq!(PickFailure::Signal.message(), "fzf was terminated by a signal");
    assert_eq!(PickFailure::Signal.short_message(), "fzf terminated by signal");
}

#[test]
fn test_zsh_init_contains_wt_function() {
    let output = shell_init(Shell::Zsh);
    assert!(output.contains("wt()"));
    assert!(output.contains("__wt_cd"));
    assert!(output.contains("__wt_edit"));
}

#[test]
fn test_bash_init_contains_wt_function() {
    let output = shell_init(Shell::Bash);
    assert!(output.contains("wt()"));
    assert!(output.contains("__wt_cd"));
    assert!(output.contains("__wt_edit"));
}

#[test]
fn test_fish_init_contains_wt_function() {
    let output = shell_init(Shell::Fish);
    assert!(output.contains("function wt"));
    assert!(output.contains("function __wt_cd"));
    assert!(output.contains("function __wt_edit"));
}

#[test]
fn test_integration_line_for_shell() {
    assert_eq!(integration_line_for_shell(Shell::Zsh), "eval \"$(wt init zsh)\"");
    assert_eq!(integration_line_for_shell(Shell::Bash), "eval \"$(wt init bash)\"");
    assert_eq!(integration_line_for_shell(Shell::Fish), "wt init fish | source");
}

#[test]
fn test_shell_name() {
    assert_eq!(shell_name(Shell::Zsh), "zsh");
    assert_eq!(shell_name(Shell::Bash), "bash");
    assert_eq!(shell_name(Shell::Fish), "fish");
}

#[test]
fn init_scripts_differ_by_shell() {
    assert!(shell_init(Shell::Zsh).starts_with("# wt - git worktree manager shell integration (zsh)"));
    assert!(shell_init(Shell::Bash).ends_with("complete -F _wt_completions wt\n"));
    assert!(shell_init(Shell::Fish).contains("complete -c wt -e"));
}

#[test]
fn reload_command_by_shell() {
    assert_eq!(reload_command(Shell::Zsh, "/home/u/.zshrc"), "source /home/u/.zshrc");
    assert_eq!(reload_command(Shell::Bash, "/home/u/.bashrc"), "source /home/u/.bashrc");
    assert_eq!(reload_command(Shell::Fish, "/home/u/.config/fish/config.fish"), "exec fish");
}

#[test]
fn shell_is_told_from_its_path() {
    assert_eq!(detect_shell("/bin/zsh"), Ok(Shell::Zsh));
    assert_eq!(detect_shell("/usr/local/bin/bash"), Ok(Shell::Bash));
    assert_eq!(detect_shell("/usr/bin/fish"), Ok(Shell::Fish));
    assert_eq!(detect_shell("/opt/zsh-or-bash"), Ok(Shell::Zsh));
    assert_eq!(
        detect_shell("/bin/tcsh"),
        Err("Unsupported shell: /bin/tcsh\nSupported shells: zsh, bash, fish\n\nFor manual setup, run: wt init <shell>".to_string())
    );
}

#[test]
fn shell_settings_file_follows_what_exists() {
    let none = ShellFiles {
        zshrc_exists: false,
        zdotdir: None,
        bashrc_exists: false,
        bash_profile_exists: false,
    };
    assert_eq!(shell_config_path(Shell::Zsh, "/home/u", &none), "/home/u/.zshrc");
    assert_eq!(shell_config_path(Shell::Bash, "/home/u", &none), "/home/u/.bashrc");
    assert_eq!(shell_config_path(Shell::Fish, "/home/u", &none), "/home/u/.config/fish/config.fish");
    let zdot = ShellFiles { zdotdir: Some("/etc/zsh".to_string()), ..none.clone() };
    assert_eq!(shell_config_path(Shell::Zsh, "/home/u", &zdot), "/etc/zsh/.zshrc");
    let both = ShellFiles { zshrc_exists: true, ..zdot };
    assert_eq!(shell_config_path(Shell::Zsh, "/home/u", &both), "/home/u/.zshrc");
    let profile = ShellFiles { bash_profile_exists: true, ..none.clone() };
    assert_eq!(shell_config_path(Shell::Bash, "/home/u", &profile), "/home/u/.bash_profile");
    let rc = ShellFiles { bashrc_exists: true, bash_profile_exists: true, ..none };
    assert_eq!(shell_config_path(Shell::Bash, "/home/u", &rc), "/home/u/.bashrc");
}

#[test]
fn integration_is_recognised_in_settings() {
    assert!(!is_already_configured(None));
    assert!(!is_already_configured(Some("alias ll='ls -l'\n")));
    assert!(is_already_configured(Some("# wt shell integration\n")));
    assert!(is_already_configured(Some("x\neval \"$(wt init zsh)\"\n")));
    assert!(is_already_configured(Some("wt init fish | source")));
    assert!(is_already_configured(Some("source <(wt init bash)")));
}

#[test]
fn integration_block_ends_the_last_line_first() {
    assert_eq!(
        integration_block("", Shell::Zsh),
        "\n# wt shell integration\neval \"$(wt init zsh)\"\n"
    );
    assert_eq!(
        integration_block("export A=1\n", Shell::Fish),
        "\n# wt shell integration\nwt init fish | source\n"
    );
    assert_eq!(
        integration_block("export A=1", Shell::Bash),
        "\n\n# wt shell integration\neval \"$(wt init bash)\"\n"
    );
}

#[test]
fn yes_in_any_case_agrees() {
    for yes in ["y", "Y", "yes", "YES", "Yes", "yEs", " y\n", "\tyes \r\n"] {
        assert!(confirm(yes));
    }
    for no in ["", "n", "no", "ye", "yess", "yy", "y e s", "ja"] {
        assert!(!confirm(no));
    }
}

#[test]
fn config_dir_returns_path() {
    let dir = config_dir("/home/user/.config");
    assert!(dir.contains("worktree-manager"));
}
