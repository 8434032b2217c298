//! The commands of the tool, as values.

use vstd::prelude::*;

verus! {

/// The shells that the tool integrates with.
#[derive(Debug, Clone, Copy, PartialEq, Eq, Structural)]
pub enum Shell {
    Bash,
    Zsh,
    Fish,
}

/// A call of the tool.
#[derive(Debug, Clone, PartialEq, Eq)]
pub struct Cli {
    /// The command; none stands for the interactive picker.
    pub command: Option<Command>,
}

/// The commands.
#[derive(Debug, Clone, PartialEq, Eq)]
pub enum Command {
    /// Set up the shell integration, or print its code for `shell`.
    Init { shell: Option<Shell> },
    /// Pick a worktree interactively.
    Interactive { all: bool },
    /// List the worktrees.
    List { json: bool, all: bool },
    /// Add a worktree.
    Add {
        branch: Option<String>,
        path: Option<String>,
        track: Option<String>,
        json: bool,
        quiet: bool,
    },
    /// Remove a worktree.
    Remove { target: Option<String>, force: bool, json: bool, quiet: bool },
    /// Prune the stale worktrees.
    Prune { json: bool, quiet: bool },
    /// Print what is known of a worktree.
    Preview { path: String, json: bool },
    /// Manage the settings.
    Config { command: ConfigCommand },
    /// Report to an agent.
    Agent { command: AgentCommand },
}

/// The commands for agents.
#[derive(Debug, Clone, Copy, PartialEq, Eq, Structural)]
pub enum AgentCommand {
    /// The worktrees around the current directory.
    Context { json: bool },
    /// The current worktree, in one line.
    Status { json: bool },
    /// The instructions for agents.
    Onboard,
}

/// The commands on the settings.
#[derive(Debug, Clone, PartialEq, Eq)]
pub enum ConfigCommand {
    /// Create the settings file.
    Init,
    /// Show the settings.
    Show { json: bool },
    /// Set the editor.
    SetEditor { editor: String },
    /// Set the search roots.
    SetDiscoveryPaths { paths: Vec<String> },
}

/// Whether a command asks for JSON output.
pub open spec fn wants_json(command: Option<Command>) -> bool {
    match command {
        Some(Command::List { json, .. }) => json,
        Some(Command::Add { json, .. }) => json,
        Some(Command::Remove { json, .. }) => json,
        Some(Command::Prune { json, .. }) => json,
        Some(Command::Preview { json, .. }) => json,
        Some(Command::Config { command: ConfigCommand::Show { json } }) => json,
        Some(Command::Agent { command: AgentCommand::Context { json } }) => json,
        Some(Command::Agent { command: AgentCommand::Status { json } }) => json,
        _ => false,
    }
}

impl Cli {
    /// Tells whether the command asks for JSON output, so that errors are
    /// reported in JSON as well.
    pub fn has_json_flag(&self) -> (r: bool)
        ensures
            r == wants_json(self.command),
    {
        match &self.command {
            Some(Command::List { json, .. }) => *json,
            Some(Command::Add { json, .. }) => *json,
            Some(Command::Remove { json, .. }) => *json,
            Some(Command::Prune { json, .. }) => *json,
            Some(Command::Preview { json, .. }) => *json,
            Some(Command::Config { command: ConfigCommand::Show { json } }) => *json,
            Some(Command::Agent { command: AgentCommand::Context { json } }) => *json,
            Some(Command::Agent { command: AgentCommand::Status { json } }) => *json,
            _ => false,
        }
    }

    /// The command to run: the one that was given, else the interactive
    /// picker for the current repository.
    pub fn effective_command(self) -> (r: Command)
        ensures
            match self.command {
                Some(c) => r == c,
                None => r == (Command::Interactive { all: false }),
            },
    {
        match self.command {
            Some(c) => c,
            None => Command::Interactive { all: false },
        }
    }
}

/// Commands that write no JSON never ask for it.
pub proof fn lemma_json_only_where_offered(command: Option<Command>)
    ensures
        command is None ==> !wants_json(command),
        command matches Some(Command::Init { .. }) ==> !wants_json(command),
        command matches Some(Command::Interactive { .. }) ==> !wants_json(command),
        command == Some(Command::Agent { command: AgentCommand::Onboard }) ==> !wants_json(command),
{
}

} // verus!
