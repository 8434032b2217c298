//! Worktree records and the parser of the porcelain listing.
//!
//! The listing is line oriented. Each line is a key, or a key, one space and a
//! value. A `worktree` line opens a record; the lines that follow fill it,
//! until a blank line, the next `worktree` line or the end of the text closes
//! it. The parser is specified as a state machine that is fed one line at a
//! time ([`step`]); [`parsed`] is what it yields on a whole text.

use crate::path::{same_path, same_path_chars};
use crate::text::{
    chars_of, cut_trailing_space, find_char, first_index, is_word, opt_text, split_on,
    starts_with, string_of, strip_prefix, trim_end, without_prefix,
};
use vstd::prelude::*;
use vstd::slice::slice_subrange;

verus! {

/// One checkout of a repository, as the porcelain listing describes it.
#[derive(Debug, Clone, PartialEq, Eq)]
pub struct Worktree {
    /// Where the checkout lies. At most one record of a listing has a given path.
    pub path: String,
    /// The commit that is checked out; `None` where the listing says `detached`.
    pub head: Option<String>,
    /// The full reference of the branch, such as `refs/heads/main`.
    pub branch: Option<String>,
    /// Whether the checkout is locked against removal.
    pub locked: bool,
    /// The reason given with the lock, where there is one.
    pub lock_reason: Option<String>,
    /// Why the checkout can be pruned; `Some` marks it stale, also with an
    /// empty reason.
    pub prunable: Option<String>,
    /// Whether this is the bare location of the repository.
    pub bare: bool,
}

/// The mathematical value of a [`Worktree`]: the same fields, texts as
/// sequences of characters.
pub struct WorktreeView {
    pub path: Seq<char>,
    pub head: Option<Seq<char>>,
    pub branch: Option<Seq<char>>,
    pub locked: bool,
    pub lock_reason: Option<Seq<char>>,
    pub prunable: Option<Seq<char>>,
    pub bare: bool,
}

impl View for Worktree {
    type V = WorktreeView;

    open spec fn view(&self) -> WorktreeView {
        WorktreeView {
            path: self.path@,
            head: opt_text(self.head),
            branch: opt_text(self.branch),
            locked: self.locked,
            lock_reason: opt_text(self.lock_reason),
            prunable: opt_text(self.prunable),
            bare: self.bare,
        }
    }
}

/// The values of a sequence of records, in the same order.
pub open spec fn records_view(v: Seq<Worktree>) -> Seq<WorktreeView> {
    Seq::new(v.len(), |i: int| v[i]@)
}

/// Why a listing was refused. The first offending line decides.
#[derive(Debug, Clone, Copy, PartialEq, Eq, Structural)]
pub enum ParseError {
    /// A `worktree` line without a path.
    MissingWorktreePath,
    /// A `HEAD` line outside a record.
    HeadBeforeWorktree,
    /// A `HEAD` line without a value.
    MissingHeadValue,
    /// A `branch` line outside a record.
    BranchBeforeWorktree,
    /// A `locked` line outside a record.
    LockedBeforeWorktree,
    /// A `prunable` line outside a record.
    PrunableBeforeWorktree,
    /// A `bare` line outside a record.
    BareBeforeWorktree,
}

/// What the parser holds between two lines: the records that are closed, and
/// the record that is being filled.
pub struct ParseState {
    pub done: Seq<WorktreeView>,
    pub current: Option<WorktreeView>,
}

/// The state before the first line.
pub open spec fn initial_state() -> ParseState {
    ParseState { done: Seq::empty(), current: None }
}

/// `st` with the record in progress, if any, closed.
pub open spec fn flushed(st: ParseState) -> ParseState {
    match st.current {
        Some(w) => ParseState { done: st.done.push(w), current: None },
        None => st,
    }
}

/// A record that holds a path and nothing else.
pub open spec fn fresh_record(path: Seq<char>) -> WorktreeView {
    WorktreeView {
        path,
        head: None,
        branch: None,
        locked: false,
        lock_reason: None,
        prunable: None,
        bare: false,
    }
}

/// The key of a line without trailing white space: what stands before its
/// first space, or the whole line.
pub open spec fn line_key(line: Seq<char>) -> Seq<char> {
    line.subrange(0, first_index(line, ' '))
}

/// The value of a line without trailing white space: what stands after its
/// first space; `None` where the line holds no space.
pub open spec fn line_value(line: Seq<char>) -> Option<Seq<char>> {
    let k = first_index(line, ' ');
    if 0 <= k < line.len() {
        Some(line.subrange(k + 1, line.len() as int))
    } else {
        None
    }
}

/// What a field line does to the record in progress. `key` is one of `HEAD`,
/// `branch`, `locked`, `prunable`, `bare`.
pub open spec fn with_field(w: WorktreeView, key: Seq<char>, value: Option<Seq<char>>) -> Result<
    WorktreeView,
    ParseError,
> {
    if key == "HEAD"@ {
        match value {
            None => Err(ParseError::MissingHeadValue),
            Some(v) => Ok(WorktreeView { head: if v == "detached"@ { None } else { Some(v) }, ..w }),
        }
    } else if key == "branch"@ {
        Ok(WorktreeView { branch: value, ..w })
    } else if key == "locked"@ {
        Ok(WorktreeView { locked: true, lock_reason: value, ..w })
    } else if key == "prunable"@ {
        Ok(
            WorktreeView {
                prunable: match value {
                    Some(v) => Some(v),
                    None => Some(Seq::empty()),
                },
                ..w
            },
        )
    } else {
        Ok(WorktreeView { bare: true, ..w })
    }
}

/// Whether `key` names a field of a record.
pub open spec fn is_field_key(key: Seq<char>) -> bool {
    key == "HEAD"@ || key == "branch"@ || key == "locked"@ || key == "prunable"@ || key == "bare"@
}

/// The error for a field line that stands outside a record.
pub open spec fn outside_record(key: Seq<char>) -> ParseError {
    if key == "HEAD"@ {
        ParseError::HeadBeforeWorktree
    } else if key == "branch"@ {
        ParseError::BranchBeforeWorktree
    } else if key == "locked"@ {
        ParseError::LockedBeforeWorktree
    } else if key == "prunable"@ {
        ParseError::PrunableBeforeWorktree
    } else {
        ParseError::BareBeforeWorktree
    }
}

/// The state after one more line. Trailing white space of the line does not
/// count. A blank line closes the record in progress; a `worktree` line closes
/// it and opens the next; a field line changes it; a line with any other key
/// changes nothing.
pub open spec fn step(st: ParseState, raw: Seq<char>) -> Result<ParseState, ParseError> {
    let line = trim_end(raw);
    let key = line_key(line);
    let value = line_value(line);
    if line.len() == 0 {
        Ok(flushed(st))
    } else if key == "worktree"@ {
        match value {
            None => Err(ParseError::MissingWorktreePath),
            Some(path) => Ok(
                ParseState { done: flushed(st).done, current: Some(fresh_record(path)) },
            ),
        }
    } else if is_field_key(key) {
        match st.current {
            None => Err(outside_record(key)),
            Some(w) => match with_field(w, key, value) {
                Ok(filled) => Ok(ParseState { done: st.done, current: Some(filled) }),
                Err(e) => Err(e),
            },
        }
    } else {
        Ok(st)
    }
}

/// The state after the lines `lines`, fed in order; the error of the first
/// line that is refused.
pub open spec fn feed_all(st: ParseState, lines: Seq<Seq<char>>) -> Result<ParseState, ParseError>
    decreases lines.len(),
{
    if lines.len() == 0 {
        Ok(st)
    } else {
        match step(st, lines[0]) {
            Ok(next) => feed_all(next, lines.drop_first()),
            Err(e) => Err(e),
        }
    }
}

/// The records of a listing given as lines.
pub open spec fn parsed_lines(lines: Seq<Seq<char>>) -> Result<Seq<WorktreeView>, ParseError> {
    match feed_all(initial_state(), lines) {
        Ok(st) => Ok(flushed(st).done),
        Err(e) => Err(e),
    }
}

/// The records of a listing: those of its lines, the pieces between the line
/// feeds.
pub open spec fn parsed(input: Seq<char>) -> Result<Seq<WorktreeView>, ParseError> {
    parsed_lines(split_on(input, '\n'))
}

/// A branch reference as it is shown: without `refs/heads/` where it begins
/// so, else without `refs/remotes/` where it begins so, else whole. A
/// remote-tracking branch is shown with its remote, as in `origin/feature`.
pub open spec fn short_name(reference: Seq<char>) -> Seq<char> {
    match strip_prefix(reference, "refs/heads/"@) {
        Some(rest) => rest,
        None => match strip_prefix(reference, "refs/remotes/"@) {
            Some(rest) => rest,
            None => reference,
        },
    }
}

/// A branch reference without one leading `refs/heads/`; a reference that
/// does not begin so, whole.
pub open spec fn local_name(reference: Seq<char>) -> Seq<char> {
    match strip_prefix(reference, "refs/heads/"@) {
        Some(name) => name,
        None => reference,
    }
}

/// What follows the first `/` of `text`; `text` itself where it holds none.
pub open spec fn after_first_slash(text: Seq<char>) -> Seq<char> {
    let k = first_index(text, '/');
    if 0 <= k < text.len() {
        text.subrange(k + 1, text.len() as int)
    } else {
        text
    }
}

/// The name of the branch that a reference stands for, without its
/// namespace: what follows `refs/heads/`, or what follows `refs/remotes/`,
/// the remote and its `/`; a reference in neither namespace, whole. The
/// references `refs/remotes/origin/x` and `refs/remotes/upstream/x` both
/// stand for `x`.
pub open spec fn branch_name(reference: Seq<char>) -> Seq<char> {
    match strip_prefix(reference, "refs/heads/"@) {
        Some(rest) => rest,
        None => match strip_prefix(reference, "refs/remotes/"@) {
            Some(rest) => after_first_slash(rest),
            None => reference,
        },
    }
}

/// The branch reference `reference` as it is shown.
pub fn short_ref<'a>(reference: &'a [char]) -> (r: &'a [char])
    ensures
        r@ == short_name(reference@),
{
    match without_prefix(reference, "refs/heads/") {
        Some(rest) => rest,
        None => match without_prefix(reference, "refs/remotes/") {
            Some(rest) => rest,
            None => reference,
        },
    }
}

/// The branch reference `reference` without one leading `refs/heads/`.
pub fn local_ref<'a>(reference: &'a [char]) -> (r: &'a [char])
    ensures
        r@ == local_name(reference@),
{
    match without_prefix(reference, "refs/heads/") {
        Some(name) => name,
        None => reference,
    }
}

/// The name of the branch that `reference` stands for, without its
/// namespace.
pub fn named_branch<'a>(reference: &'a [char]) -> (r: &'a [char])
    ensures
        r@ == branch_name(reference@),
{
    match without_prefix(reference, "refs/heads/") {
        Some(rest) => rest,
        None => match without_prefix(reference, "refs/remotes/") {
            Some(rest) => {
                let k = find_char(rest, '/');
                if k < rest.len() {
                    slice_subrange(rest, k + 1, rest.len())
                } else {
                    rest
                }
            },
            None => reference,
        },
    }
}

/// A reference under `refs/heads/` stands for the name after it, and is
/// that name without its leading `refs/heads/`.
pub proof fn lemma_name_of_local(name: Seq<char>)
    ensures
        branch_name("refs/heads/"@ + name) == name,
        local_name("refs/heads/"@ + name) == name,
{
    let prefix = "refs/heads/"@;
    let full = prefix + name;
    assert(full.subrange(0, prefix.len() as int) == prefix);
    assert(full.subrange(prefix.len() as int, full.len() as int) == name);
}

/// A name that does not begin with `refs/heads/` is left as it is when a
/// leading `refs/heads/` is taken off, so the reference `refs/heads/` +
/// `name` and the bare `name` give the same.
pub proof fn lemma_local_name_of_bare(name: Seq<char>)
    requires
        !"refs/heads/"@.is_prefix_of(name),
    ensures
        local_name(name) == name,
        local_name("refs/heads/"@ + name) == local_name(name),
{
    lemma_name_of_local(name);
}

/// A name that begins with neither namespace stands for itself, so the
/// reference `refs/heads/` + `name` and the bare `name` stand for the same
/// branch.
pub proof fn lemma_branch_name_of_bare(name: Seq<char>)
    requires
        !"refs/heads/"@.is_prefix_of(name),
        !"refs/remotes/"@.is_prefix_of(name),
    ensures
        branch_name(name) == name,
        branch_name("refs/heads/"@ + name) == branch_name(name),
{
    lemma_name_of_local(name);
}

/// A remote-tracking reference stands for the name after its remote,
/// whatever the remote is called. The remote's name holds no `/`.
pub proof fn lemma_name_of_remote(remote: Seq<char>, name: Seq<char>)
    requires
        !remote.contains('/'),
    ensures
        branch_name("refs/remotes/"@ + remote + seq!['/'] + name) == name,
{
    reveal_strlit("refs/heads/");
    reveal_strlit("refs/remotes/");
    let heads = "refs/heads/"@;
    let remotes = "refs/remotes/"@;
    let rest = remote + seq!['/'] + name;
    let full = remotes + remote + seq!['/'] + name;
    assert(full == remotes + rest);
    assert(full[5] == 'r');
    assert(heads[5] == 'h');
    assert(!heads.is_prefix_of(full)) by {
        if heads.is_prefix_of(full) {
            assert(full.subrange(0, heads.len() as int)[5] == heads[5]);
        }
    }
    assert(full.subrange(0, remotes.len() as int) == remotes);
    assert(full.subrange(remotes.len() as int, full.len() as int) == rest);
    assert forall|j: int| 0 <= j < remote.len() implies rest[j] != '/' by {
        assert(rest[j] == remote[j]);
        if remote[j] == '/' {
            assert(remote.contains('/'));
        }
    }
    assert(rest[remote.len() as int] == '/');
    crate::text::lemma_first_index_is(rest, '/', remote.len() as int);
    assert(rest.subrange(remote.len() as int + 1, rest.len() as int) == name);
}

impl ParseError {
    /// The text of the error.
    pub open spec fn text(self) -> Seq<char> {
        match self {
            ParseError::MissingWorktreePath => "missing worktree path"@,
            ParseError::HeadBeforeWorktree => "HEAD before worktree"@,
            ParseError::MissingHeadValue => "missing HEAD value"@,
            ParseError::BranchBeforeWorktree => "branch before worktree"@,
            ParseError::LockedBeforeWorktree => "locked before worktree"@,
            ParseError::PrunableBeforeWorktree => "prunable before worktree"@,
            ParseError::BareBeforeWorktree => "bare before worktree"@,
        }
    }

    /// The text of the error, for the user.
    pub fn message(&self) -> (r: String)
        ensures
            r@ == self.text(),
    {
        match self {
            ParseError::MissingWorktreePath => "missing worktree path".to_owned(),
            ParseError::HeadBeforeWorktree => "HEAD before worktree".to_owned(),
            ParseError::MissingHeadValue => "missing HEAD value".to_owned(),
            ParseError::BranchBeforeWorktree => "branch before worktree".to_owned(),
            ParseError::LockedBeforeWorktree => "locked before worktree".to_owned(),
            ParseError::PrunableBeforeWorktree => "prunable before worktree".to_owned(),
            ParseError::BareBeforeWorktree => "bare before worktree".to_owned(),
        }
    }
}

/// The parser's state while it runs.
struct Progress {
    done: Vec<Worktree>,
    current: Option<Worktree>,
}

impl View for Progress {
    type V = ParseState;

    closed spec fn view(&self) -> ParseState {
        ParseState {
            done: records_view(self.done@),
            current: match self.current {
                Some(w) => Some(w@),
                None => None,
            },
        }
    }
}

/// Closes the record in progress.
fn flush(p: Progress) -> (q: Progress)
    ensures
        q@ == flushed(p@),
{
    let Progress { done, current } = p;
    match current {
        None => Progress { done, current: None },
        Some(w) => {
            let mut done = done;
            let ghost before = done@;
            done.push(w);
            assert(records_view(done@) =~= records_view(before).push(w@));
            Progress { done, current: None }
        },
    }
}

/// The string of an optional piece of text.
fn opt_string(value: Option<&[char]>) -> (r: Option<String>)
    ensures
        opt_text(r) == match value {
            Some(v) => Some(v@),
            None => None,
        },
{
    match value {
        Some(v) => Some(string_of(v)),
        None => None,
    }
}

/// Applies a field line to the record in progress.
fn fill(w: Worktree, key: &[char], value: Option<&[char]>) -> (r: Result<Worktree, ParseError>)
    requires
        is_field_key(key@),
    ensures
        match with_field(
            w@,
            key@,
            match value {
                Some(v) => Some(v@),
                None => None,
            },
        ) {
            Ok(filled) => r matches Ok(x) && x@ == filled,
            Err(e) => r matches Err(f) && f == e,
        },
{
    let Worktree { path, head, branch, locked, lock_reason, prunable, bare } = w;
    if is_word(key, "HEAD") {
        match value {
            None => Err(ParseError::MissingHeadValue),
            Some(v) => {
                let head = if is_word(v, "detached") {
                    None
                } else {
                    Some(string_of(v))
                };
                Ok(Worktree { path, head, branch, locked, lock_reason, prunable, bare })
            },
        }
    } else if is_word(key, "branch") {
        Ok(Worktree { path, head, branch: opt_string(value), locked, lock_reason, prunable, bare })
    } else if is_word(key, "locked") {
        Ok(
            Worktree {
                path,
                head,
                branch,
                locked: true,
                lock_reason: opt_string(value),
                prunable,
                bare,
            },
        )
    } else if is_word(key, "prunable") {
        let reason = match value {
            Some(v) => string_of(v),
            None => String::new(),
        };
        Ok(Worktree { path, head, branch, locked, lock_reason, prunable: Some(reason), bare })
    } else {
        Ok(Worktree { path, head, branch, locked, lock_reason, prunable, bare: true })
    }
}

/// The error for a field line that stands outside a record.
fn refuse_outside(key: &[char]) -> (e: ParseError)
    ensures
        e == outside_record(key@),
{
    if is_word(key, "HEAD") {
        ParseError::HeadBeforeWorktree
    } else if is_word(key, "branch") {
        ParseError::BranchBeforeWorktree
    } else if is_word(key, "locked") {
        ParseError::LockedBeforeWorktree
    } else if is_word(key, "prunable") {
        ParseError::PrunableBeforeWorktree
    } else {
        ParseError::BareBeforeWorktree
    }
}

/// Tells whether `key` names a field of a record.
fn names_field(key: &[char]) -> (r: bool)
    ensures
        r == is_field_key(key@),
{
    is_word(key, "HEAD") || is_word(key, "branch") || is_word(key, "locked") || is_word(
        key,
        "prunable",
    ) || is_word(key, "bare")
}

/// Feeds one line to the parser.
fn feed(p: Progress, raw: &[char]) -> (r: Result<Progress, ParseError>)
    ensures
        match step(p@, raw@) {
            Ok(next) => r matches Ok(q) && q@ == next,
            Err(e) => r matches Err(f) && f == e,
        },
{
    let line = cut_trailing_space(raw);
    if line.len() == 0 {
        return Ok(flush(p));
    }
    let k = find_char(line, ' ');
    let key = slice_subrange(line, 0, k);
    let value: Option<&[char]> = if k < line.len() {
        Some(slice_subrange(line, k + 1, line.len()))
    } else {
        None
    };
    if is_word(key, "worktree") {
        match value {
            None => Err(ParseError::MissingWorktreePath),
            Some(v) => {
                let q = flush(p);
                let fresh = Worktree {
                    path: string_of(v),
                    head: None,
                    branch: None,
                    locked: false,
                    lock_reason: None,
                    prunable: None,
                    bare: false,
                };
                Ok(Progress { done: q.done, current: Some(fresh) })
            },
        }
    } else if names_field(key) {
        let Progress { done, current } = p;
        match current {
            None => Err(refuse_outside(key)),
            Some(w) => match fill(w, key, value) {
                Ok(filled) => Ok(Progress { done, current: Some(filled) }),
                Err(e) => Err(e),
            },
        }
    } else {
        Ok(p)
    }
}

/// Parses a porcelain listing into its records, in the order of the listing.
///
/// Fails, with no partial result, on the first line that is a `worktree` line
/// without a path, a field line outside a record, or a `HEAD` line without a
/// value. Lines with a key that is not known are passed over.
pub fn parse_porcelain(input: &str) -> (r: Result<Vec<Worktree>, ParseError>)
    ensures
        match parsed(input@) {
            Ok(records) => r matches Ok(v) && records_view(v@) == records,
            Err(e) => r matches Err(f) && f == e,
        },
{
    let chars = chars_of(input);
    let all = chars.as_slice();
    let n = all.len();
    let mut p = Progress { done: Vec::new(), current: None };
    let mut pos: usize = 0;
    let mut more = true;
    assert(p@ == initial_state()) by {
        assert(records_view(p.done@) =~= Seq::<WorktreeView>::empty());
    }
    assert(all@.subrange(0, n as int) == all@);
    while more
        invariant
            pos <= n,
            n == all.len(),
            all@ == input@,
            more ==> feed_all(initial_state(), split_on(all@, '\n')) == feed_all(
                p@,
                split_on(all@.subrange(pos as int, n as int), '\n'),
            ),
            !more ==> feed_all(initial_state(), split_on(all@, '\n')) == Ok::<
                ParseState,
                ParseError,
            >(p@),
        decreases n - pos + (if more { 1int } else { 0int }),
    {
        let rest = slice_subrange(all, pos, n);
        let k = find_char(rest, '\n');
        let line = slice_subrange(rest, 0, k);
        let ghost lines = split_on(rest@, '\n');
        let ghost before = p@;
        assert(lines[0] == line@);
        match feed(p, line) {
            Err(e) => {
                return Err(e);
            },
            Ok(q) => {
                p = q;
            },
        }
        if k < rest.len() {
            proof {
                let tail = rest@.subrange(k + 1, rest@.len() as int);
                assert(tail == all@.subrange(pos + k + 1, n as int));
                assert(lines.drop_first() == split_on(tail, '\n'));
            }
            pos = pos + k + 1;
        } else {
            proof {
                assert(lines.drop_first() == Seq::<Seq<char>>::empty());
                assert(feed_all(p@, lines.drop_first()) == Ok::<ParseState, ParseError>(p@));
            }
            more = false;
        }
    }
    Ok(flush(p).done)
}

/// Whether a line is blank once its trailing white space is gone.
pub open spec fn is_blank(raw: Seq<char>) -> bool {
    trim_end(raw).len() == 0
}

/// Whether a line opens a record: it is not blank and its key is `worktree`.
pub open spec fn opens_record(raw: Seq<char>) -> bool {
    !is_blank(raw) && line_key(trim_end(raw)) == "worktree"@
}

/// Whether a line has a key that the parser does not know.
pub open spec fn has_unknown_key(raw: Seq<char>) -> bool {
    !is_blank(raw) && !opens_record(raw) && !is_field_key(line_key(trim_end(raw)))
}

/// A block: a line that opens a record, followed by lines that are neither
/// blank nor open a record, all of which the parser accepts.
pub open spec fn is_block(block: Seq<Seq<char>>) -> bool {
    &&& block.len() > 0
    &&& opens_record(block[0])
    &&& forall|j: int| 1 <= j < block.len() ==> !is_blank(#[trigger] block[j]) && !opens_record(block[j])
    &&& parsed_lines(block) is Ok
}

/// The lines of a listing made of `blocks`, each followed by the blank line
/// `blank`.
pub open spec fn listing(blocks: Seq<Seq<Seq<char>>>, blank: Seq<char>) -> Seq<Seq<char>>
    decreases blocks.len(),
{
    if blocks.len() == 0 {
        Seq::empty()
    } else {
        listing(blocks.drop_last(), blank) + blocks.last().push(blank)
    }
}

/// Feeding a single line is one step.
pub proof fn lemma_feed_one(st: ParseState, raw: Seq<char>)
    ensures
        feed_all(st, seq![raw]) == step(st, raw),
{
    reveal_with_fuel(feed_all, 2);
    assert(seq![raw].drop_first() == Seq::<Seq<char>>::empty());
}

/// Feeding `a` and then `b` is feeding `a + b`.
pub proof fn lemma_feed_all_concat(st: ParseState, a: Seq<Seq<char>>, b: Seq<Seq<char>>)
    ensures
        feed_all(st, a + b) == match feed_all(st, a) {
            Ok(mid) => feed_all(mid, b),
            Err(e) => Err(e),
        },
    decreases a.len(),
{
    if a.len() == 0 {
        assert(a + b == b);
    } else {
        assert((a + b)[0] == a[0]);
        assert((a + b).drop_first() == a.drop_first() + b);
        match step(st, a[0]) {
            Ok(next) => {
                lemma_feed_all_concat(next, a.drop_first(), b);
            },
            Err(_) => {},
        }
    }
}

/// A line with an unknown key leaves the parser's state as it was.
pub proof fn lemma_unknown_key_is_passed_over(st: ParseState, raw: Seq<char>)
    requires
        has_unknown_key(raw),
    ensures
        step(st, raw) == Ok::<ParseState, ParseError>(st),
{
}

/// A listing with one more line with an unknown key, wherever that
/// line stands, yields what the listing yields without it.
pub proof fn lemma_unknown_key_tolerance(
    before: Seq<Seq<char>>,
    raw: Seq<char>,
    after: Seq<Seq<char>>,
)
    requires
        has_unknown_key(raw),
    ensures
        parsed_lines(before + seq![raw] + after) == parsed_lines(before + after),
{
    let start = initial_state();
    lemma_feed_all_concat(start, before + seq![raw], after);
    lemma_feed_all_concat(start, before, seq![raw]);
    lemma_feed_all_concat(start, before, after);
    match feed_all(start, before) {
        Ok(mid) => {
            lemma_feed_one(mid, raw);
        },
        Err(_) => {},
    }
}

/// A blank line after the last record changes nothing: the record in progress
/// is closed at the end of the listing in any case.
pub proof fn lemma_trailing_blank_line(lines: Seq<Seq<char>>, blank: Seq<char>)
    requires
        is_blank(blank),
    ensures
        parsed_lines(lines.push(blank)) == parsed_lines(lines),
{
    let start = initial_state();
    assert(lines.push(blank) == lines + seq![blank]);
    lemma_feed_all_concat(start, lines, seq![blank]);
    match feed_all(start, lines) {
        Ok(mid) => {
            lemma_feed_one(mid, blank);
        },
        Err(_) => {},
    }
}

/// A text and the same text with one more line feed at its end hold the same
/// lines, but for one empty line at the end.
pub proof fn lemma_split_on_push(s: Seq<char>, c: char)
    ensures
        split_on(s.push(c), c) == split_on(s, c).push(Seq::empty()),
    decreases s.len(),
{
    crate::text::lemma_first_index(s, c);
    let k = first_index(s, c);
    let t = s.push(c);
    if k < s.len() {
        crate::text::lemma_first_index_is(t, c, k);
        let rest = s.subrange(k + 1, s.len() as int);
        assert(t.subrange(k + 1, t.len() as int) == rest.push(c));
        assert(t.subrange(0, k) == s.subrange(0, k));
        lemma_split_on_push(rest, c);
    } else {
        crate::text::lemma_first_index_is(t, c, s.len() as int);
        let empty = t.subrange(s.len() as int + 1, t.len() as int);
        assert(empty == Seq::<char>::empty());
        assert(first_index(empty, c) == 0);
        assert(split_on(empty, c) == seq![empty]);
        assert(t.subrange(0, s.len() as int) == s);
    }
}

/// The last record of a listing is read with or without a line feed, or a
/// blank line, after it.
pub proof fn lemma_missing_trailing_newline(input: Seq<char>)
    ensures
        parsed(input.push('\n')) == parsed(input),
{
    lemma_split_on_push(input, '\n');
    let empty = Seq::<char>::empty();
    assert(is_blank(empty));
    lemma_trailing_blank_line(split_on(input, '\n'), empty);
}

/// Inside a record, lines that neither are blank nor open a record change the
/// record in progress only: the closed records stay, and what becomes of the
/// record in progress does not depend on them.
proof fn lemma_fill_is_local(
    done: Seq<WorktreeView>,
    other: Seq<WorktreeView>,
    w: WorktreeView,
    lines: Seq<Seq<char>>,
)
    requires
        forall|j: int| 0 <= j < lines.len() ==> !is_blank(#[trigger] lines[j]) && !opens_record(lines[j]),
    ensures
        match feed_all(ParseState { done, current: Some(w) }, lines) {
            Ok(st) => st.done == done && st.current is Some && feed_all(
                ParseState { done: other, current: Some(w) },
                lines,
            ) == Ok::<ParseState, ParseError>(ParseState { done: other, current: st.current }),
            Err(e) => feed_all(ParseState { done: other, current: Some(w) }, lines) == Err::<
                ParseState,
                ParseError,
            >(e),
        },
    decreases lines.len(),
{
    if lines.len() > 0 {
        let st = ParseState { done, current: Some(w) };
        let st2 = ParseState { done: other, current: Some(w) };
        assert(!is_blank(lines[0]) && !opens_record(lines[0]));
        match step(st, lines[0]) {
            Ok(next) => {
                let w2 = next.current->Some_0;
                assert(next == ParseState { done, current: Some(w2) });
                assert(step(st2, lines[0]) == Ok::<ParseState, ParseError>(
                    ParseState { done: other, current: Some(w2) },
                ));
                assert forall|j: int| 0 <= j < lines.drop_first().len() implies !is_blank(
                    #[trigger] lines.drop_first()[j],
                ) && !opens_record(lines.drop_first()[j]) by {
                    assert(lines.drop_first()[j] == lines[j + 1]);
                }
                lemma_fill_is_local(done, other, w2, lines.drop_first());
            },
            Err(_) => {},
        }
    }
}

/// A block that follows closed records adds exactly its own record to them.
proof fn lemma_block_adds_its_record(done: Seq<WorktreeView>, block: Seq<Seq<char>>, blank: Seq<char>)
    requires
        is_block(block),
        is_blank(blank),
    ensures
        parsed_lines(block) matches Ok(rs) && rs.len() == 1 && feed_all(
            ParseState { done, current: None },
            block.push(blank),
        ) == Ok::<ParseState, ParseError>(ParseState { done: done.push(rs[0]), current: None }),
{
    let start = initial_state();
    let st = ParseState { done, current: None };
    let rest = block.drop_first();
    let path = line_value(trim_end(block[0]))->Some_0;
    let w = fresh_record(path);
    assert(step(start, block[0]) is Ok);
    assert(step(start, block[0]) == Ok::<ParseState, ParseError>(
        ParseState { done: Seq::empty(), current: Some(w) },
    ));
    assert(step(st, block[0]) == Ok::<ParseState, ParseError>(
        ParseState { done, current: Some(w) },
    ));
    assert forall|j: int| 0 <= j < rest.len() implies !is_blank(#[trigger] rest[j])
        && !opens_record(rest[j]) by {
        assert(rest[j] == block[j + 1]);
    }
    lemma_fill_is_local(Seq::empty(), done, w, rest);
    let end = feed_all(ParseState { done: Seq::empty(), current: Some(w) }, rest)->Ok_0;
    let r = end.current->Some_0;
    assert(flushed(end).done == seq![r]);
    assert(block.push(blank) == block + seq![blank]);
    lemma_feed_all_concat(st, block, seq![blank]);
    let closed = ParseState { done, current: Some(r) };
    assert(feed_all(st, block) == Ok::<ParseState, ParseError>(closed));
    lemma_feed_one(closed, blank);
}

/// A listing of N blocks, each followed by a blank line, yields N records, in
/// the order of the blocks: record `i` is the one that block `i` yields when
/// it is parsed alone. A listing without blocks yields no record.
pub proof fn lemma_one_record_per_block(blocks: Seq<Seq<Seq<char>>>, blank: Seq<char>)
    requires
        is_blank(blank),
        forall|i: int| 0 <= i < blocks.len() ==> is_block(#[trigger] blocks[i]),
    ensures
        feed_all(initial_state(), listing(blocks, blank)) matches Ok(st) && st.current is None
            && st.done.len() == blocks.len(),
        parsed_lines(listing(blocks, blank)) matches Ok(records) && records.len() == blocks.len()
            && forall|i: int|
            0 <= i < blocks.len() ==> parsed_lines(#[trigger] blocks[i]) == Ok::<
                Seq<WorktreeView>,
                ParseError,
            >(seq![records[i]]),
    decreases blocks.len(),
{
    if blocks.len() > 0 {
        let head = blocks.drop_last();
        let last = blocks.last();
        assert forall|i: int| 0 <= i < head.len() implies is_block(#[trigger] head[i]) by {
            assert(head[i] == blocks[i]);
        }
        lemma_one_record_per_block(head, blank);
        let mid = feed_all(initial_state(), listing(head, blank))->Ok_0;
        assert(mid == ParseState { done: mid.done, current: None });
        lemma_feed_all_concat(initial_state(), listing(head, blank), last.push(blank));
        lemma_block_adds_its_record(mid.done, last, blank);
        let records = parsed_lines(listing(blocks, blank))->Ok_0;
        assert forall|i: int| 0 <= i < blocks.len() implies parsed_lines(#[trigger] blocks[i])
            == Ok::<Seq<WorktreeView>, ParseError>(seq![records[i]]) by {
            if i < head.len() {
                assert(head[i] == blocks[i]);
            } else {
                let rs = parsed_lines(last)->Ok_0;
                assert(rs == seq![rs[0]]);
            }
        }
    }
}

/// The lines of a listing made of `blocks` with the blank line `blank`
/// between each two, and none after the last.
pub open spec fn separated(blocks: Seq<Seq<Seq<char>>>, blank: Seq<char>) -> Seq<Seq<char>> {
    if blocks.len() == 0 {
        Seq::empty()
    } else {
        listing(blocks.drop_last(), blank) + blocks.last()
    }
}

/// A listing of N blocks with a blank line between each two yields the same
/// N records as with a blank line after each.
pub proof fn lemma_separated_blocks(blocks: Seq<Seq<Seq<char>>>, blank: Seq<char>)
    requires
        is_blank(blank),
        forall|i: int| 0 <= i < blocks.len() ==> is_block(#[trigger] blocks[i]),
    ensures
        parsed_lines(separated(blocks, blank)) == parsed_lines(listing(blocks, blank)),
        parsed_lines(separated(blocks, blank)) matches Ok(records) && records.len() == blocks.len(),
{
    lemma_one_record_per_block(blocks, blank);
    if blocks.len() > 0 {
        let between = separated(blocks, blank);
        assert(listing(blocks, blank) == between.push(blank)) by {
            assert(listing(blocks.drop_last(), blank) + blocks.last().push(blank) == (listing(
                blocks.drop_last(),
                blank,
            ) + blocks.last()).push(blank));
        }
        lemma_trailing_blank_line(between, blank);
    }
}

/// An empty text yields no record and no error.
pub proof fn lemma_empty_listing()
    ensures
        parsed(Seq::empty()) == Ok::<Seq<WorktreeView>, ParseError>(Seq::empty()),
{
    let empty = Seq::<char>::empty();
    assert(split_on(empty, '\n') == seq![empty]);
    lemma_feed_one(initial_state(), empty);
}

/// The text made of `lines`, each ended by a line feed.
pub open spec fn text_of_lines(lines: Seq<Seq<char>>) -> Seq<char>
    decreases lines.len(),
{
    if lines.len() == 0 {
        Seq::empty()
    } else {
        lines[0] + seq!['\n'] + text_of_lines(lines.drop_first())
    }
}

/// Splitting undoes joining: the lines of a text made of lines without line
/// feeds are those lines, and an empty line after the last line feed.
pub proof fn lemma_split_text_of_lines(lines: Seq<Seq<char>>)
    requires
        forall|i: int| 0 <= i < lines.len() ==> !(#[trigger] lines[i]).contains('\n'),
    ensures
        split_on(text_of_lines(lines), '\n') == lines.push(Seq::empty()),
    decreases lines.len(),
{
    let text = text_of_lines(lines);
    if lines.len() == 0 {
        assert(first_index(text, '\n') == 0);
        assert(split_on(text, '\n') == seq![text]);
        assert(seq![text] == lines.push(Seq::empty()));
    } else {
        let first = lines[0];
        let rest = lines.drop_first();
        let k = first.len() as int;
        assert(!first.contains('\n'));
        assert forall|j: int| 0 <= j < k implies text[j] != '\n' by {
            assert(text[j] == first[j]);
            if first[j] == '\n' {
                assert(first.contains('\n'));
            }
        }
        assert(text[k] == '\n');
        crate::text::lemma_first_index_is(text, '\n', k);
        assert(text.subrange(0, k) == first);
        assert(text.subrange(k + 1, text.len() as int) == text_of_lines(rest));
        assert forall|i: int| 0 <= i < rest.len() implies !(#[trigger] rest[i]).contains('\n') by {
            assert(rest[i] == lines[i + 1]);
        }
        lemma_split_text_of_lines(rest);
        assert(seq![first] + rest.push(Seq::empty()) == lines.push(Seq::empty()));
    }
}

/// A text made of lines yields what its lines yield.
pub proof fn lemma_parsed_text_of_lines(lines: Seq<Seq<char>>)
    requires
        forall|i: int| 0 <= i < lines.len() ==> !(#[trigger] lines[i]).contains('\n'),
    ensures
        parsed(text_of_lines(lines)) == parsed_lines(lines),
{
    lemma_split_text_of_lines(lines);
    let empty = Seq::<char>::empty();
    assert(is_blank(empty));
    lemma_trailing_blank_line(lines, empty);
}

/// The text of a listing of N blocks, each followed by a blank line, yields
/// N records, in the order of the blocks; none for no block.
pub proof fn lemma_round_trip_block_count(blocks: Seq<Seq<Seq<char>>>, blank: Seq<char>)
    requires
        is_blank(blank),
        forall|i: int| 0 <= i < blocks.len() ==> is_block(#[trigger] blocks[i]),
        forall|i: int|
            0 <= i < listing(blocks, blank).len() ==> !(#[trigger] listing(blocks, blank)[i]).contains(
                '\n',
            ),
    ensures
        parsed(text_of_lines(listing(blocks, blank))) matches Ok(records) && records.len()
            == blocks.len() && forall|i: int|
            0 <= i < blocks.len() ==> parsed_lines(#[trigger] blocks[i]) == Ok::<
                Seq<WorktreeView>,
                ParseError,
            >(seq![records[i]]),
{
    lemma_one_record_per_block(blocks, blank);
    lemma_parsed_text_of_lines(listing(blocks, blank));
}

/// Whether a snapshot of the worktrees of one repository hangs together: no
/// two records have the same path, at most one record is bare, and no bare
/// record is checked out on a local branch. The parser reads listings that
/// break this, too.
pub open spec fn consistent(records: Seq<WorktreeView>) -> bool {
    &&& forall|i: int, j: int|
        0 <= i < j < records.len() ==> !same_path(
            (#[trigger] records[i]).path,
            (#[trigger] records[j]).path,
        )
    &&& forall|i: int, j: int|
        0 <= i < j < records.len() ==> !((#[trigger] records[i]).bare && (#[trigger] records[j]).bare)
    &&& forall|i: int|
        0 <= i < records.len() ==> !((#[trigger] records[i]).bare && (records[i].branch matches Some(
            b,
        ) && "refs/heads/"@.is_prefix_of(b)))
}

/// Whether record `i` breaks the snapshot together with a record before it,
/// or by itself.
pub open spec fn breaks_snapshot(records: Seq<WorktreeView>, i: int) -> bool {
    ||| exists|k: int| 0 <= k < i && same_path((#[trigger] records[k]).path, records[i].path)
    ||| exists|k: int| 0 <= k < i && (#[trigger] records[k]).bare && records[i].bare
    ||| (records[i].bare && (records[i].branch matches Some(b) && "refs/heads/"@.is_prefix_of(b)))
}

/// Tells whether record `i` breaks the snapshot.
fn breaks(worktrees: &[Worktree], i: usize) -> (r: bool)
    requires
        i < worktrees.len(),
    ensures
        r == breaks_snapshot(records_view(worktrees@), i as int),
{
    let ghost records = records_view(worktrees@);
    let w = &worktrees[i];
    assert(records[i as int] == w@);
    if w.bare {
        match &w.branch {
            Some(b) => {
                let full = chars_of(b.as_str());
                let heads = chars_of("refs/heads/");
                if starts_with(full.as_slice(), heads.as_slice()) {
                    return true;
                }
            },
            None => {},
        }
    }
    let here = chars_of(w.path.as_str());
    let mut k: usize = 0;
    while k < i
        invariant
            k <= i < worktrees.len(),
            records == records_view(worktrees@),
            here@ == records[i as int].path,
            forall|j: int| 0 <= j < k ==> !same_path((#[trigger] records[j]).path, records[i as int].path),
            forall|j: int| 0 <= j < k ==> !((#[trigger] records[j]).bare && records[i as int].bare),
        decreases i - k,
    {
        let other = &worktrees[k];
        assert(records[k as int] == other@);
        assert(records[i as int] == worktrees@[i as int]@);
        let there = chars_of(other.path.as_str());
        if same_path_chars(there.as_slice(), here.as_slice()) {
            assert(same_path(records[k as int].path, records[i as int].path));
            return true;
        }
        if other.bare && worktrees[i].bare {
            assert(records[k as int].bare && records[i as int].bare);
            return true;
        }
        k += 1;
    }
    false
}

/// Tells whether the snapshot `worktrees` hangs together.
pub fn is_consistent(worktrees: &[Worktree]) -> (r: bool)
    ensures
        r == consistent(records_view(worktrees@)),
{
    let ghost records = records_view(worktrees@);
    let mut i: usize = 0;
    while i < worktrees.len()
        invariant
            i <= worktrees.len(),
            records == records_view(worktrees@),
            forall|j: int| 0 <= j < i ==> !breaks_snapshot(records, j),
        decreases worktrees.len() - i,
    {
        if breaks(worktrees, i) {
            assert(!consistent(records)) by {
                if consistent(records) {
                    if exists|k: int|
                        0 <= k < i && same_path((#[trigger] records[k]).path, records[i as int].path) {
                        let k = choose|k: int|
                            0 <= k < i && same_path(
                                (#[trigger] records[k]).path,
                                records[i as int].path,
                            );
                        assert(!same_path(records[k].path, records[i as int].path));
                    }
                    if exists|k: int| 0 <= k < i && (#[trigger] records[k]).bare && records[i as int].bare {
                        let k = choose|k: int|
                            0 <= k < i && (#[trigger] records[k]).bare && records[i as int].bare;
                        assert(!(records[k].bare && records[i as int].bare));
                    }
                }
            }
            return false;
        }
        i += 1;
    }
    assert(consistent(records)) by {
        assert forall|a: int, b: int| 0 <= a < b < records.len() implies !same_path(
            (#[trigger] records[a]).path,
            (#[trigger] records[b]).path,
        ) by {
            assert(!breaks_snapshot(records, b));
        }
        assert forall|a: int, b: int| 0 <= a < b < records.len() implies !((#[trigger] records[a]).bare
            && (#[trigger] records[b]).bare) by {
            assert(!breaks_snapshot(records, b));
        }
        assert forall|a: int| 0 <= a < records.len() implies !((#[trigger] records[a]).bare && (
        records[a].branch matches Some(b) && "refs/heads/"@.is_prefix_of(b))) by {
            assert(!breaks_snapshot(records, a));
        }
    }
    true
}

} // verus!
