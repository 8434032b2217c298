//! Finding repositories below search roots: which entries of a directory
//! tree mark a repository. Walking the tree is the caller's part.

use crate::error::{plain_error, ErrorCode, WtError};
use crate::git::repo_root;
use crate::path::{file_name, file_name_of, parent, parent_of};
use crate::text::{chars_of, is_word, trim};
use vstd::prelude::*;

verus! {

/// How many levels below a search root entries are looked at.
pub const MAX_DEPTH: usize = 3;

/// The directory that an entry of the tree marks as a candidate for a
/// repository: the parent of an entry named `.git`.
pub open spec fn marked_directory(entry: Seq<char>) -> Option<Seq<char>> {
    if file_name(entry) == Some(".git"@) {
        parent(entry)
    } else {
        None
    }
}

/// The directory that the entry at `entry` marks as a candidate for a
/// repository, if it marks one.
pub fn git_entry_parent(entry: &str) -> (r: Option<String>)
    ensures
        match marked_directory(entry@) {
            Some(dir) => r matches Some(d) && d@ == dir,
            None => r is None,
        },
{
    match file_name_of(entry) {
        Some(name) => {
            let chars = chars_of(name.as_str());
            if is_word(chars.as_slice(), ".git") {
                parent_of(entry)
            } else {
                None
            }
        },
        None => None,
    }
}

/// The root of the repository that a candidate belongs to, from the tool's
/// answer to the question where the top level is. A worktree answers with
/// its own top level.
pub fn resolve_repo_root(answer: Result<String, WtError>) -> (r: Result<String, WtError>)
    ensures
        match answer {
            Ok(out) => r matches Ok(root) && root@ == trim(out@),
            Err(_) => r matches Err(e) && e@ == plain_error(
                ErrorCode::NotFound,
                "not in a git repository"@,
            ),
        },
{
    repo_root(answer)
}

} // verus!
