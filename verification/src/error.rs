//! The errors of the library: five categories, each with an exit code and a
//! tag for machine readers, and an error value that carries a message.

use crate::text::{clone_text, opt_text};
use vstd::prelude::*;
use vstd::string::*;

verus! {

/// The category of an error, for programs that read the outcome.
#[derive(Debug, Clone, Copy, PartialEq, Eq, Structural)]
pub enum ErrorCode {
    /// Invalid input or usage.
    UserError,
    /// Worktree, branch or repository not found.
    NotFound,
    /// The version-control tool failed.
    GitError,
    /// The settings could not be read or written.
    ConfigError,
    /// The file system failed.
    IoError,
}

impl ErrorCode {
    /// The exit code of the category: 1 to 5, in the order of the variants.
    pub open spec fn exit_value(self) -> int {
        match self {
            ErrorCode::UserError => 1,
            ErrorCode::NotFound => 2,
            ErrorCode::GitError => 3,
            ErrorCode::ConfigError => 4,
            ErrorCode::IoError => 5,
        }
    }

    /// The tag of the category in snake case, as machine-readable output
    /// carries it.
    pub open spec fn tag_text(self) -> Seq<char> {
        match self {
            ErrorCode::UserError => "user_error"@,
            ErrorCode::NotFound => "not_found"@,
            ErrorCode::GitError => "git_error"@,
            ErrorCode::ConfigError => "config_error"@,
            ErrorCode::IoError => "io_error"@,
        }
    }

    /// The name of the category in lower case, as the line for human readers
    /// carries it.
    pub open spec fn label_text(self) -> Seq<char> {
        match self {
            ErrorCode::UserError => "usererror"@,
            ErrorCode::NotFound => "notfound"@,
            ErrorCode::GitError => "giterror"@,
            ErrorCode::ConfigError => "configerror"@,
            ErrorCode::IoError => "ioerror"@,
        }
    }

    /// The exit code for this category.
    pub fn exit_code(&self) -> (r: i32)
        ensures
            r == self.exit_value(),
            1 <= r <= 5,
    {
        match self {
            ErrorCode::UserError => 1,
            ErrorCode::NotFound => 2,
            ErrorCode::GitError => 3,
            ErrorCode::ConfigError => 4,
            ErrorCode::IoError => 5,
        }
    }

    /// The tag of this category in snake case.
    pub fn tag(&self) -> (r: String)
        ensures
            r@ == self.tag_text(),
    {
        match self {
            ErrorCode::UserError => "user_error".to_owned(),
            ErrorCode::NotFound => "not_found".to_owned(),
            ErrorCode::GitError => "git_error".to_owned(),
            ErrorCode::ConfigError => "config_error".to_owned(),
            ErrorCode::IoError => "io_error".to_owned(),
        }
    }

    /// The name of this category in lower case.
    pub fn label(&self) -> (r: String)
        ensures
            r@ == self.label_text(),
    {
        match self {
            ErrorCode::UserError => "usererror".to_owned(),
            ErrorCode::NotFound => "notfound".to_owned(),
            ErrorCode::GitError => "giterror".to_owned(),
            ErrorCode::ConfigError => "configerror".to_owned(),
            ErrorCode::IoError => "ioerror".to_owned(),
        }
    }
}

/// Two categories with the same exit code are the same category.
pub proof fn lemma_exit_codes_are_distinct(a: ErrorCode, b: ErrorCode)
    requires
        a.exit_value() == b.exit_value(),
    ensures
        a == b,
{
}

/// An error of the library. `source` holds the text of the failure that caused
/// it, where one did.
#[derive(Debug, Clone, PartialEq, Eq)]
pub enum WtError {
    UserError { message: String },
    NotFound { message: String, source: Option<String> },
    GitError { message: String, source: Option<String> },
    ConfigError { message: String, source: Option<String> },
    IoError { message: String, source: Option<String> },
}

/// The mathematical value of a [`WtError`].
pub struct ErrorView {
    pub code: ErrorCode,
    pub message: Seq<char>,
    pub source: Option<Seq<char>>,
}

impl View for WtError {
    type V = ErrorView;

    open spec fn view(&self) -> ErrorView {
        match *self {
            WtError::UserError { message } => ErrorView {
                code: ErrorCode::UserError,
                message: message@,
                source: None,
            },
            WtError::NotFound { message, source } => ErrorView {
                code: ErrorCode::NotFound,
                message: message@,
                source: opt_text(source),
            },
            WtError::GitError { message, source } => ErrorView {
                code: ErrorCode::GitError,
                message: message@,
                source: opt_text(source),
            },
            WtError::ConfigError { message, source } => ErrorView {
                code: ErrorCode::ConfigError,
                message: message@,
                source: opt_text(source),
            },
            WtError::IoError { message, source } => ErrorView {
                code: ErrorCode::IoError,
                message: message@,
                source: opt_text(source),
            },
        }
    }
}

/// The value of an optional error.
pub open spec fn opt_error(o: Option<WtError>) -> Option<ErrorView> {
    match o {
        Some(e) => Some(e@),
        None => None,
    }
}

/// An error of category `code` with the message `message` and no cause.
pub open spec fn plain_error(code: ErrorCode, message: Seq<char>) -> ErrorView {
    ErrorView { code, message, source: None }
}

/// An error of category `code` with the message `message`, caused by `source`.
pub open spec fn caused_error(code: ErrorCode, message: Seq<char>, source: Seq<char>) -> ErrorView {
    ErrorView { code, message, source: Some(source) }
}

impl ErrorView {
    /// The message, followed by a colon, a space and the cause where there is
    /// one.
    pub open spec fn detail(self) -> Seq<char> {
        match self.source {
            Some(cause) => self.message + ": "@ + cause,
            None => self.message,
        }
    }

    /// The line that tells a human reader of the error: the category's name in
    /// square brackets, then the message.
    pub open spec fn human_line(self) -> Seq<char> {
        "error["@ + self.code.label_text() + "]: "@ + self.message
    }
}

impl WtError {
    /// The category of this error.
    pub fn code(&self) -> (r: ErrorCode)
        ensures
            r == self@.code,
    {
        match self {
            WtError::UserError { .. } => ErrorCode::UserError,
            WtError::NotFound { .. } => ErrorCode::NotFound,
            WtError::GitError { .. } => ErrorCode::GitError,
            WtError::ConfigError { .. } => ErrorCode::ConfigError,
            WtError::IoError { .. } => ErrorCode::IoError,
        }
    }

    /// The exit code for this error.
    pub fn exit_code(&self) -> (r: i32)
        ensures
            r == self@.code.exit_value(),
            1 <= r <= 5,
    {
        self.code().exit_code()
    }

    /// The message of this error.
    pub fn message(&self) -> (r: String)
        ensures
            r@ == self@.message,
    {
        match self {
            WtError::UserError { message } => message.clone(),
            WtError::NotFound { message, .. } => message.clone(),
            WtError::GitError { message, .. } => message.clone(),
            WtError::ConfigError { message, .. } => message.clone(),
            WtError::IoError { message, .. } => message.clone(),
        }
    }

    /// The text of the failure that caused this error, where one did.
    pub fn source(&self) -> (r: Option<String>)
        ensures
            opt_text(r) == self@.source,
    {
        match self {
            WtError::UserError { .. } => None,
            WtError::NotFound { source, .. } => clone_text(source),
            WtError::GitError { source, .. } => clone_text(source),
            WtError::ConfigError { source, .. } => clone_text(source),
            WtError::IoError { source, .. } => clone_text(source),
        }
    }

    /// The message with the cause after it, where there is one.
    pub fn detail(&self) -> (r: String)
        ensures
            r@ == self@.detail(),
    {
        let mut text = self.message();
        match self.source() {
            Some(cause) => {
                text.append(": ");
                text.append(cause.as_str());
            },
            None => {},
        }
        text
    }

    /// The line that tells a human reader of this error.
    pub fn human_line(&self) -> (r: String)
        ensures
            r@ == self@.human_line(),
    {
        let mut line = "error[".to_owned();
        line.append(self.code().label().as_str());
        line.append("]: ");
        line.append(self.message().as_str());
        line
    }

    /// An error of the user's making.
    pub fn user_error(message: &str) -> (e: WtError)
        ensures
            e@ == plain_error(ErrorCode::UserError, message@),
    {
        WtError::UserError { message: message.to_owned() }
    }

    /// An error of the user's making; the cause is written into the message,
    /// after a colon.
    pub fn user_error_with_source(message: &str, source: &str) -> (e: WtError)
        ensures
            e@ == plain_error(ErrorCode::UserError, message@ + ": "@ + source@),
    {
        let mut text = message.to_owned();
        text.append(": ");
        text.append(source);
        WtError::UserError { message: text }
    }

    /// Something was not found.
    pub fn not_found(message: &str) -> (e: WtError)
        ensures
            e@ == plain_error(ErrorCode::NotFound, message@),
    {
        WtError::NotFound { message: message.to_owned(), source: None }
    }

    /// Something was not found, because of `source`.
    pub fn not_found_with_source(message: &str, source: &str) -> (e: WtError)
        ensures
            e@ == caused_error(ErrorCode::NotFound, message@, source@),
    {
        WtError::NotFound { message: message.to_owned(), source: Some(source.to_owned()) }
    }

    /// The version-control tool failed.
    pub fn git_error(message: &str) -> (e: WtError)
        ensures
            e@ == plain_error(ErrorCode::GitError, message@),
    {
        WtError::GitError { message: message.to_owned(), source: None }
    }

    /// The version-control tool failed, because of `source`.
    pub fn git_error_with_source(message: &str, source: &str) -> (e: WtError)
        ensures
            e@ == caused_error(ErrorCode::GitError, message@, source@),
    {
        WtError::GitError { message: message.to_owned(), source: Some(source.to_owned()) }
    }

    /// The settings could not be read or written.
    pub fn config_error(message: &str) -> (e: WtError)
        ensures
            e@ == plain_error(ErrorCode::ConfigError, message@),
    {
        WtError::ConfigError { message: message.to_owned(), source: None }
    }

    /// The settings could not be read or written, because of `source`.
    pub fn config_error_with_source(message: &str, source: &str) -> (e: WtError)
        ensures
            e@ == caused_error(ErrorCode::ConfigError, message@, source@),
    {
        WtError::ConfigError { message: message.to_owned(), source: Some(source.to_owned()) }
    }

    /// The file system failed.
    pub fn io_error(message: &str) -> (e: WtError)
        ensures
            e@ == plain_error(ErrorCode::IoError, message@),
    {
        WtError::IoError { message: message.to_owned(), source: None }
    }

    /// The file system failed, because of `source`.
    pub fn io_error_with_source(message: &str, source: &str) -> (e: WtError)
        ensures
            e@ == caused_error(ErrorCode::IoError, message@, source@),
    {
        WtError::IoError { message: message.to_owned(), source: Some(source.to_owned()) }
    }
}

} // verus!
