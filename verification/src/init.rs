//! Shell integration: the code that each shell loads, the line that loads
//! it, and the rules for adding that line to the shell's own settings.

use crate::cli::Shell;
use crate::path::{join, join_paths};
use crate::text::{chars_of, contains, cut_space, mentions, trim};
use vstd::prelude::*;
use vstd::string::*;

verus! {

/// The comment that marks the line of the integration in a shell's settings.
pub const MARKER: &'static str = "# wt shell integration";

/// The integration for zsh.
pub const ZSH_INIT: &'static str = r#"# wt - git worktree manager shell integration (zsh)

__wt_cd() {
    local dir="$1"
    if [[ -d "$dir" ]]; then
        builtin cd "$dir" || return 1
    else
        echo "wt: directory not found: $dir" >&2
        return 1
    fi
}

__wt_edit() {
    local dir="$1"
    if [[ -d "$dir" ]]; then
        builtin cd "$dir" || return 1
        "${EDITOR:-vim}" .
    else
        echo "wt: directory not found: $dir" >&2
        return 1
    fi
}

wt() {
    if [[ $# -eq 0 ]] || [[ "$1" == "interactive" ]]; then
        local output
        output=$(command wt "$@" 2>&1)
        local exit_code=$?
        
        if [[ $exit_code -ne 0 ]]; then
            echo "$output" >&2
            return $exit_code
        fi
        
        case "$output" in
            cd\|*)
                __wt_cd "${output#cd|}"
                ;;
            edit\|*)
                __wt_edit "${output#edit|}"
                ;;
            *)
                [[ -n "$output" ]] && echo "$output"
                ;;
        esac
    else
        command wt "$@"
    fi
}

# Completions
_wt() {
    local -a commands
    commands=(
        'init:Set up shell integration'
        'interactive:Interactive picker (fzf)'
        'list:List worktrees'
        'add:Add a new worktree'
        'remove:Remove a worktree'
        'prune:Prune stale worktrees'
        'preview:Print preview information'
        'config:Configuration management'
        'help:Print help'
    )

    local -a config_commands
    config_commands=(
        'init:Create an initial config file'
        'show:Show effective config'
        'set-editor:Set default editor'
        'set-discovery-paths:Set auto-discovery search roots'
    )

    local -a shells
    shells=('bash' 'zsh' 'fish')

    _arguments -C \
        '1: :->command' \
        '*:: :->args'

    case $state in
        command)
            _describe -t commands 'wt command' commands
            ;;
        args)
            case $words[1] in
                init)
                    _describe -t shells 'shell' shells
                    ;;
                config)
                    _describe -t config_commands 'config command' config_commands
                    ;;
                add)
                    local -a branches
                    branches=($(git branch --format='%(refname:short)' 2>/dev/null))
                    _describe -t branches 'branch' branches
                    ;;
                remove)
                    local -a worktrees
                    worktrees=($(git worktree list --porcelain 2>/dev/null | grep '^branch' | sed 's/branch refs\/heads\///'))
                    _describe -t worktrees 'worktree' worktrees
                    ;;
                list)
                    _arguments \
                        '--json[JSON output]' \
                        '--all[List across all discovered repositories]'
                    ;;
                interactive)
                    _arguments \
                        '--all[Pick from all discovered repositories]'
                    ;;
            esac
            ;;
    esac
}

compdef _wt wt
"#;

/// The integration for bash.
pub const BASH_INIT: &'static str = r#"# wt - git worktree manager shell integration (bash)

__wt_cd() {
    local dir="$1"
    if [[ -d "$dir" ]]; then
        builtin cd "$dir" || return 1
    else
        echo "wt: directory not found: $dir" >&2
        return 1
    fi
}

__wt_edit() {
    local dir="$1"
    if [[ -d "$dir" ]]; then
        builtin cd "$dir" || return 1
        "${EDITOR:-vim}" .
    else
        echo "wt: directory not found: $dir" >&2
        return 1
    fi
}

wt() {
    if [[ $# -eq 0 ]] || [[ "$1" == "interactive" ]]; then
        local output
        output=$(command wt "$@" 2>&1)
        local exit_code=$?
        
        if [[ $exit_code -ne 0 ]]; then
            echo "$output" >&2
            return $exit_code
        fi
        
        case "$output" in
            cd\|*)
                __wt_cd "${output#cd|}"
                ;;
            edit\|*)
                __wt_edit "${output#edit|}"
                ;;
            *)
                [[ -n "$output" ]] && echo "$output"
                ;;
        esac
    else
        command wt "$@"
    fi
}

# Completions
_wt_completions() {
    local cur prev commands config_commands shells
    COMPREPLY=()
    cur="${COMP_WORDS[COMP_CWORD]}"
    prev="${COMP_WORDS[COMP_CWORD-1]}"
    
    commands="init interactive list add remove prune preview config help"
    config_commands="init show set-editor set-discovery-paths"
    shells="bash zsh fish"

    case "${COMP_CWORD}" in
        1)
            COMPREPLY=( $(compgen -W "${commands}" -- "${cur}") )
            ;;
        2)
            case "${prev}" in
                init)
                    COMPREPLY=( $(compgen -W "${shells}" -- "${cur}") )
                    ;;
                config)
                    COMPREPLY=( $(compgen -W "${config_commands}" -- "${cur}") )
                    ;;
                add)
                    local branches
                    branches=$(git branch --format='%(refname:short)' 2>/dev/null)
                    COMPREPLY=( $(compgen -W "${branches}" -- "${cur}") )
                    ;;
                remove)
                    local worktrees
                    worktrees=$(git worktree list --porcelain 2>/dev/null | grep '^branch' | sed 's/branch refs\/heads\///')
                    COMPREPLY=( $(compgen -W "${worktrees}" -- "${cur}") )
                    ;;
                list)
                    COMPREPLY=( $(compgen -W "--json --all" -- "${cur}") )
                    ;;
                interactive)
                    COMPREPLY=( $(compgen -W "--all" -- "${cur}") )
                    ;;
            esac
            ;;
    esac
}

complete -F _wt_completions wt
"#;

/// The integration for fish.
pub const FISH_INIT: &'static str = r#"# wt - git worktree manager shell integration (fish)

function __wt_cd
    set -l dir $argv[1]
    if test -d "$dir"
        builtin cd "$dir"
    else
        echo "wt: directory not found: $dir" >&2
        return 1
    end
end

function __wt_edit
    set -l dir $argv[1]
    if test -d "$dir"
        builtin cd "$dir"
        if set -q EDITOR
            $EDITOR .
        else
            vim .
        end
    else
        echo "wt: directory not found: $dir" >&2
        return 1
    end
end

function wt
    if test (count $argv) -eq 0; or test "$argv[1]" = "interactive"
        set -l output (command wt $argv 2>&1)
        set -l exit_code $status
        
        if test $exit_code -ne 0
            echo "$output" >&2
            return $exit_code
        end
        
        switch "$output"
            case 'cd|*'
                set -l path (string replace 'cd|' '' "$output")
                __wt_cd "$path"
            case 'edit|*'
                set -l path (string replace 'edit|' '' "$output")
                __wt_edit "$path"
            case '*'
                if test -n "$output"
                    echo "$output"
                end
        end
    else
        command wt $argv
    end
end

# Completions
complete -c wt -e
complete -c wt -n "__fish_use_subcommand" -a "init" -d "Set up shell integration"
complete -c wt -n "__fish_use_subcommand" -a "interactive" -d "Interactive picker (fzf)"
complete -c wt -n "__fish_use_subcommand" -a "list" -d "List worktrees"
complete -c wt -n "__fish_use_subcommand" -a "add" -d "Add a new worktree"
complete -c wt -n "__fish_use_subcommand" -a "remove" -d "Remove a worktree"
complete -c wt -n "__fish_use_subcommand" -a "prune" -d "Prune stale worktrees"
complete -c wt -n "__fish_use_subcommand" -a "preview" -d "Print preview information"
complete -c wt -n "__fish_use_subcommand" -a "config" -d "Configuration management"
complete -c wt -n "__fish_use_subcommand" -a "help" -d "Print help"

complete -c wt -n "__fish_seen_subcommand_from init" -a "bash zsh fish" -d "Shell"

complete -c wt -n "__fish_seen_subcommand_from config" -a "init" -d "Create initial config file"
complete -c wt -n "__fish_seen_subcommand_from config" -a "show" -d "Show effective config"
complete -c wt -n "__fish_seen_subcommand_from config" -a "set-editor" -d "Set default editor"
complete -c wt -n "__fish_seen_subcommand_from config" -a "set-discovery-paths" -d "Set discovery search roots"

complete -c wt -n "__fish_seen_subcommand_from list" -l json -d "JSON output"
complete -c wt -n "__fish_seen_subcommand_from list" -l all -d "List across all repos"

complete -c wt -n "__fish_seen_subcommand_from interactive" -l all -d "Pick from all repos"

complete -c wt -n "__fish_seen_subcommand_from add" -a "(git branch --format='%(refname:short)' 2>/dev/null)"

complete -c wt -n "__fish_seen_subcommand_from remove" -a "(git worktree list --porcelain 2>/dev/null | string match 'branch *' | string replace 'branch refs/heads/' '')"
"#;

/// The integration code of `shell`.
pub open spec fn script_of(shell: Shell) -> Seq<char> {
    match shell {
        Shell::Zsh => ZSH_INIT@,
        Shell::Bash => BASH_INIT@,
        Shell::Fish => FISH_INIT@,
    }
}

/// The line that loads the integration in the settings of `shell`.
pub open spec fn integration_line(shell: Shell) -> Seq<char> {
    match shell {
        Shell::Zsh => "eval \"$(wt init zsh)\""@,
        Shell::Bash => "eval \"$(wt init bash)\""@,
        Shell::Fish => "wt init fish | source"@,
    }
}

/// The name of `shell`.
pub open spec fn name_of(shell: Shell) -> Seq<char> {
    match shell {
        Shell::Zsh => "zsh"@,
        Shell::Bash => "bash"@,
        Shell::Fish => "fish"@,
    }
}

/// The code that `shell` loads to integrate the tool.
pub fn shell_init(shell: Shell) -> (r: String)
    ensures
        r@ == script_of(shell),
{
    match shell {
        Shell::Zsh => ZSH_INIT.to_owned(),
        Shell::Bash => BASH_INIT.to_owned(),
        Shell::Fish => FISH_INIT.to_owned(),
    }
}

/// The line that loads the integration in the settings of `shell`.
pub fn integration_line_for_shell(shell: Shell) -> (r: &'static str)
    ensures
        r@ == integration_line(shell),
{
    match shell {
        Shell::Zsh => "eval \"$(wt init zsh)\"",
        Shell::Bash => "eval \"$(wt init bash)\"",
        Shell::Fish => "wt init fish | source",
    }
}

/// The name of `shell`, as the user writes it.
pub fn shell_name(shell: Shell) -> (r: &'static str)
    ensures
        r@ == name_of(shell),
{
    match shell {
        Shell::Zsh => "zsh",
        Shell::Bash => "bash",
        Shell::Fish => "fish",
    }
}

/// The command that makes a running shell load its settings again.
pub open spec fn reload_of(shell: Shell, config_path: Seq<char>) -> Seq<char> {
    match shell {
        Shell::Fish => "exec fish"@,
        _ => "source "@ + config_path,
    }
}

/// The command that makes a running `shell` load the settings at
/// `config_path` again.
pub fn reload_command(shell: Shell, config_path: &str) -> (r: String)
    ensures
        r@ == reload_of(shell, config_path@),
{
    match shell {
        Shell::Fish => "exec fish".to_owned(),
        _ => {
            let mut text = "source ".to_owned();
            text.append(config_path);
            text
        },
    }
}

/// The shell that a path to a shell's program names: zsh where the path
/// mentions `zsh`, else bash where it mentions `bash`, else fish where it
/// mentions `fish`.
pub open spec fn shell_in(shell_path: Seq<char>) -> Option<Shell> {
    if contains(shell_path, "zsh"@) {
        Some(Shell::Zsh)
    } else if contains(shell_path, "bash"@) {
        Some(Shell::Bash)
    } else if contains(shell_path, "fish"@) {
        Some(Shell::Fish)
    } else {
        None
    }
}

/// The message for a shell that is none of the three.
pub open spec fn unsupported_shell(shell_path: Seq<char>) -> Seq<char> {
    "Unsupported shell: "@ + shell_path
        + "\nSupported shells: zsh, bash, fish\n\nFor manual setup, run: wt init <shell>"@
}

/// Tells the user's shell from the path to its program. The error is the
/// message for a shell that is not supported.
pub fn detect_shell(shell_path: &str) -> (r: Result<Shell, String>)
    ensures
        match shell_in(shell_path@) {
            Some(shell) => r == Ok::<Shell, String>(shell),
            None => r matches Err(message) && message@ == unsupported_shell(shell_path@),
        },
{
    let chars = chars_of(shell_path);
    let text = chars.as_slice();
    if mentions(text, "zsh") {
        Ok(Shell::Zsh)
    } else if mentions(text, "bash") {
        Ok(Shell::Bash)
    } else if mentions(text, "fish") {
        Ok(Shell::Fish)
    } else {
        let mut message = "Unsupported shell: ".to_owned();
        message.append(shell_path);
        message.append(
            "\nSupported shells: zsh, bash, fish\n\nFor manual setup, run: wt init <shell>",
        );
        Err(message)
    }
}

/// What is known of the files in which a shell keeps its settings.
#[derive(Debug, Clone, PartialEq, Eq)]
pub struct ShellFiles {
    /// Whether `.zshrc` exists in the home directory.
    pub zshrc_exists: bool,
    /// The directory that zsh is told to keep its settings in, if any.
    pub zdotdir: Option<String>,
    /// Whether `.bashrc` exists in the home directory.
    pub bashrc_exists: bool,
    /// Whether `.bash_profile` exists in the home directory.
    pub bash_profile_exists: bool,
}

/// The file in which `shell` keeps its settings, for the home directory
/// `home`.
///
/// For zsh it is `.zshrc` in the home directory where that exists, else in
/// the directory that zsh is told to use, else in the home directory. For
/// bash it is `.bashrc` where that exists, else `.bash_profile` where that
/// exists, else `.bashrc`. For fish it is `.config/fish/config.fish`.
pub open spec fn settings_of(shell: Shell, home: Seq<char>, files: ShellFiles) -> Seq<char> {
    match shell {
        Shell::Zsh => if files.zshrc_exists {
            join(home, ".zshrc"@)
        } else {
            match files.zdotdir {
                Some(dir) => join(dir@, ".zshrc"@),
                None => join(home, ".zshrc"@),
            }
        },
        Shell::Bash => if files.bashrc_exists {
            join(home, ".bashrc"@)
        } else if files.bash_profile_exists {
            join(home, ".bash_profile"@)
        } else {
            join(home, ".bashrc"@)
        },
        Shell::Fish => join(home, ".config/fish/config.fish"@),
    }
}

/// The file in which `shell` keeps its settings.
pub fn shell_config_path(shell: Shell, home: &str, files: &ShellFiles) -> (r: String)
    ensures
        r@ == settings_of(shell, home@, *files),
{
    match shell {
        Shell::Zsh => {
            if files.zshrc_exists {
                join_paths(home, ".zshrc")
            } else {
                match &files.zdotdir {
                    Some(dir) => join_paths(dir.as_str(), ".zshrc"),
                    None => join_paths(home, ".zshrc"),
                }
            }
        },
        Shell::Bash => {
            if files.bashrc_exists {
                join_paths(home, ".bashrc")
            } else if files.bash_profile_exists {
                join_paths(home, ".bash_profile")
            } else {
                join_paths(home, ".bashrc")
            }
        },
        Shell::Fish => join_paths(home, ".config/fish/config.fish"),
    }
}

/// Whether the text of a shell's settings loads the integration already: it
/// holds the marker or one of the lines that load it.
pub open spec fn loads_integration(contents: Seq<char>) -> bool {
    contains(contents, MARKER@) || contains(contents, "eval \"$(wt init"@) || contains(
        contents,
        "wt init fish | source"@,
    ) || contains(contents, "wt init zsh)"@) || contains(contents, "wt init bash)"@)
}

/// Tells whether a shell's settings load the integration already. `contents`
/// is the text of the settings, `None` for a file that does not exist.
pub fn is_already_configured(contents: Option<&str>) -> (r: bool)
    ensures
        r == match contents {
            Some(text) => loads_integration(text@),
            None => false,
        },
{
    match contents {
        None => false,
        Some(text) => {
            let chars = chars_of(text);
            let all = chars.as_slice();
            mentions(all, MARKER) || mentions(all, "eval \"$(wt init") || mentions(
                all,
                "wt init fish | source",
            ) || mentions(all, "wt init zsh)") || mentions(all, "wt init bash)")
        },
    }
}

/// What is added to a shell's settings that hold `existing`: a line feed
/// where the settings do not end in one, an empty line, the marker, and the
/// line that loads the integration.
pub open spec fn addition_to(existing: Seq<char>, shell: Shell) -> Seq<char> {
    let lead: Seq<char> = if existing.len() > 0 && existing.last() != '\n' {
        "\n"@
    } else {
        Seq::empty()
    };
    lead + "\n"@ + MARKER@ + "\n"@ + integration_line(shell) + "\n"@
}

/// The text to add to the settings of `shell`, which hold `existing` now.
pub fn integration_block(existing: &str, shell: Shell) -> (r: String)
    ensures
        r@ == addition_to(existing@, shell),
{
    let chars = chars_of(existing);
    let mut text = String::new();
    if chars.len() > 0 && chars[chars.len() - 1] != '\n' {
        text.append("\n");
    }
    assert(text@ == if existing@.len() > 0 && existing@.last() != '\n' {
        Seq::<char>::empty() + "\n"@
    } else {
        Seq::<char>::empty()
    });
    assert(Seq::<char>::empty() + "\n"@ == "\n"@);
    text.append("\n");
    text.append(MARKER);
    text.append("\n");
    text.append(integration_line_for_shell(shell));
    text.append("\n");
    text
}

/// Whether `c` is the letter `lower` in either case.
pub open spec fn is_letter(c: char, lower: char, upper: char) -> bool {
    c == lower || c == upper
}

/// Whether an answer says yes: `y` or `yes` in any mix of cases, white space
/// around it aside.
pub open spec fn agrees(answer: Seq<char>) -> bool {
    let word = trim(answer);
    ||| (word.len() == 1 && is_letter(word[0], 'y', 'Y'))
    ||| (word.len() == 3 && is_letter(word[0], 'y', 'Y') && is_letter(word[1], 'e', 'E')
        && is_letter(word[2], 's', 'S'))
}

/// Tells whether the user's answer to a yes-or-no question says yes.
pub fn confirm(answer: &str) -> (r: bool)
    ensures
        r == agrees(answer@),
{
    let chars = chars_of(answer);
    let word = cut_space(chars.as_slice());
    if word.len() == 1 {
        word[0] == 'y' || word[0] == 'Y'
    } else if word.len() == 3 {
        (word[0] == 'y' || word[0] == 'Y') && (word[1] == 'e' || word[1] == 'E') && (word[2] == 's'
            || word[2] == 'S')
    } else {
        false
    }
}

} // verus!
