//! What a finished command means: its output where it succeeded, an error
//! where it failed or could not be started. Starting the command is the
//! caller's part.

use crate::error::{caused_error, plain_error, ErrorCode, WtError};
use crate::text::{join_strings, join_with, texts_of};
use vstd::prelude::*;
use vstd::string::*;

verus! {

/// What a command left behind when it ended.
#[derive(Debug, Clone, PartialEq, Eq)]
pub struct Finished {
    /// Whether the command reported success.
    pub success: bool,
    /// The exit status, as text.
    pub status: String,
    /// What the command wrote to its standard output.
    pub stdout: String,
    /// What the command wrote to its standard error.
    pub stderr: String,
}

/// The output of a command that succeeded.
#[derive(Debug, Clone, PartialEq, Eq)]
pub struct CmdOutput {
    /// The exit status, as text.
    pub status: String,
    /// What the command wrote to its standard output.
    pub stdout: String,
    /// What the command wrote to its standard error.
    pub stderr: String,
}

/// The message for a command that could not be started.
pub open spec fn not_started_message(program: Seq<char>) -> Seq<char> {
    "failed to execute "@ + program
}

/// The message for a command that ended in failure: the command line, the
/// exit status and what it wrote to its standard error.
pub open spec fn failure_message(
    program: Seq<char>,
    args: Seq<Seq<char>>,
    status: Seq<char>,
    stderr: Seq<char>,
) -> Seq<char> {
    "command failed: "@ + program + " "@ + join_with(args, " "@) + "\nexit: "@ + status
        + "\nstderr:\n"@ + stderr
}

/// Reads the outcome of running `program` with `args`. `outcome` is what the
/// command left behind, or the reason why it could not be started.
///
/// A command that could not be started is an I/O error with that reason as
/// its cause; one that ended in failure is a tool error that carries the
/// command line, the exit status and the standard error.
pub fn run(program: &str, args: &Vec<String>, outcome: Result<Finished, String>) -> (r: Result<
    CmdOutput,
    WtError,
>)
    ensures
        match outcome {
            Err(cause) => r matches Err(e) && e@ == caused_error(
                ErrorCode::IoError,
                not_started_message(program@),
                cause@,
            ),
            Ok(done) => if done.success {
                r matches Ok(out) && out.status@ == done.status@ && out.stdout@ == done.stdout@
                    && out.stderr@ == done.stderr@
            } else {
                r matches Err(e) && e@ == plain_error(
                    ErrorCode::GitError,
                    failure_message(program@, texts_of(args@), done.status@, done.stderr@),
                )
            },
        },
{
    match outcome {
        Err(cause) => {
            let mut text = "failed to execute ".to_owned();
            text.append(program);
            Err(WtError::IoError { message: text, source: Some(cause) })
        },
        Ok(done) => {
            let Finished { success, status, stdout, stderr } = done;
            if success {
                Ok(CmdOutput { status, stdout, stderr })
            } else {
                let mut text = "command failed: ".to_owned();
                text.append(program);
                text.append(" ");
                text.append(join_strings(args, " ").as_str());
                text.append("\nexit: ");
                text.append(status.as_str());
                text.append("\nstderr:\n");
                text.append(stderr.as_str());
                Err(WtError::GitError { message: text, source: None })
            }
        },
    }
}

/// As [`run`], but keeps the standard output only.
pub fn run_stdout(program: &str, args: &Vec<String>, outcome: Result<Finished, String>) -> (r:
    Result<String, WtError>)
    ensures
        match outcome {
            Err(cause) => r matches Err(e) && e@ == caused_error(
                ErrorCode::IoError,
                not_started_message(program@),
                cause@,
            ),
            Ok(done) => if done.success {
                r matches Ok(out) && out@ == done.stdout@
            } else {
                r matches Err(e) && e@ == plain_error(
                    ErrorCode::GitError,
                    failure_message(program@, texts_of(args@), done.status@, done.stderr@),
                )
            },
        },
{
    match run(program, args, outcome) {
        Ok(out) => Ok(out.stdout),
        Err(e) => Err(e),
    }
}

} // verus!
