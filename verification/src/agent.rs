//! Reports for agents: the worktree that the current directory lies in, the
//! others, and the repository.

use crate::path::{path_starts_with, paths_equal, same_path, starts_with};
use crate::text::{
    chars_of, clone_text, count_text, digits, opt_text, push_line, string_of, texts_of,
};
use crate::worktree::{
    local_name, local_ref, records_view, short_name, short_ref, Worktree, WorktreeView,
};
use vstd::prelude::*;
use vstd::string::*;

verus! {

/// What an agent is told of one worktree.
#[derive(Debug, Clone, PartialEq, Eq)]
pub struct WorktreeInfo {
    pub path: String,
    /// The short name of the branch.
    pub branch: Option<String>,
    pub head: Option<String>,
    /// Whether the worktree holds changes.
    pub dirty: bool,
}

/// What an agent is told of the repository.
#[derive(Debug, Clone, PartialEq, Eq)]
pub struct RepositoryInfo {
    pub root: String,
    pub total_worktrees: usize,
}

/// The full report for an agent.
#[derive(Debug, Clone, PartialEq, Eq)]
pub struct AgentContext {
    pub current_worktree: Option<WorktreeInfo>,
    pub other_worktrees: Vec<WorktreeInfo>,
    pub repository: RepositoryInfo,
}

/// The current worktree in short.
#[derive(Debug, Clone, PartialEq, Eq)]
pub struct CurrentWorktree {
    pub path: String,
    pub branch: Option<String>,
    pub dirty: bool,
}

/// The short report for an agent.
#[derive(Debug, Clone, PartialEq, Eq)]
pub struct MinimalStatus {
    pub current: Option<CurrentWorktree>,
    pub count: usize,
}

/// The mathematical value of a [`WorktreeInfo`].
pub struct InfoView {
    pub path: Seq<char>,
    pub branch: Option<Seq<char>>,
    pub head: Option<Seq<char>>,
    pub dirty: bool,
}

impl View for WorktreeInfo {
    type V = InfoView;

    open spec fn view(&self) -> InfoView {
        InfoView {
            path: self.path@,
            branch: opt_text(self.branch),
            head: opt_text(self.head),
            dirty: self.dirty,
        }
    }
}

/// The values of a sequence of reports.
pub open spec fn infos_view(v: Seq<WorktreeInfo>) -> Seq<InfoView> {
    Seq::new(v.len(), |i: int| v[i]@)
}

/// Whether the output of the status command tells of changes: the command
/// ran, and wrote something.
pub fn is_worktree_dirty(status: Option<&str>) -> (r: bool)
    ensures
        r == match status {
            Some(text) => text@.len() > 0,
            None => false,
        },
{
    match status {
        Some(text) => text.unicode_len() > 0,
        None => false,
    }
}

/// The index of the first record whose path the directory `cwd` lies at or
/// below; the number of records where there is none.
pub open spec fn current_index(records: Seq<WorktreeView>, cwd: Seq<char>) -> int
    decreases records.len(),
{
    if records.len() == 0 {
        0
    } else if starts_with(cwd, records[0].path) {
        0
    } else {
        1 + current_index(records.drop_first(), cwd)
    }
}

/// An index before which no record holds the directory, and at which one
/// does unless it is the end, is `current_index`.
pub proof fn lemma_current_index_is(records: Seq<WorktreeView>, cwd: Seq<char>, k: int)
    requires
        0 <= k <= records.len(),
        forall|j: int| 0 <= j < k ==> !starts_with(cwd, (#[trigger] records[j]).path),
        k < records.len() ==> starts_with(cwd, records[k].path),
    ensures
        current_index(records, cwd) == k,
    decreases records.len(),
{
    if records.len() > 0 && k > 0 {
        let rest = records.drop_first();
        assert(!starts_with(cwd, records[0].path));
        assert forall|j: int| 0 <= j < k - 1 implies !starts_with(cwd, (#[trigger] rest[j]).path) by {
            assert(rest[j] == records[j + 1]);
        }
        lemma_current_index_is(rest, cwd, k - 1);
    }
}

/// The index of the worktree that the directory `cwd` lies in: the first in
/// the listing whose path `cwd` lies at or below.
pub fn current_worktree(worktrees: &Vec<Worktree>, cwd: &str) -> (r: Option<usize>)
    ensures
        match r {
            Some(c) => c < worktrees.len() && c as int == current_index(
                records_view(worktrees@),
                cwd@,
            ),
            None => current_index(records_view(worktrees@), cwd@) == worktrees.len(),
        },
{
    let ghost records = records_view(worktrees@);
    let mut i: usize = 0;
    while i < worktrees.len()
        invariant
            i <= worktrees.len(),
            records == records_view(worktrees@),
            forall|j: int| 0 <= j < i ==> !starts_with(cwd@, (#[trigger] records[j]).path),
        decreases worktrees.len() - i,
    {
        assert(records[i as int] == worktrees@[i as int]@);
        if path_starts_with(cwd, worktrees[i].path.as_str()) {
            proof {
                lemma_current_index_is(records, cwd@, i as int);
            }
            return Some(i);
        }
        i += 1;
    }
    proof {
        lemma_current_index_is(records, cwd@, i as int);
    }
    None
}

/// What an agent is told of the record `w`.
pub open spec fn info_of(w: WorktreeView, dirty: bool) -> InfoView {
    InfoView {
        path: w.path,
        branch: match w.branch {
            Some(b) => Some(short_name(b)),
            None => None,
        },
        head: w.head,
        dirty,
    }
}

/// What an agent is told of `w`.
pub fn worktree_info(w: &Worktree, dirty: bool) -> (r: WorktreeInfo)
    ensures
        r@ == info_of(w@, dirty),
{
    WorktreeInfo {
        path: w.path.clone(),
        branch: match &w.branch {
            Some(b) => {
                let full = chars_of(b.as_str());
                Some(string_of(short_ref(full.as_slice())))
            },
            None => None,
        },
        head: clone_text(&w.head),
        dirty,
    }
}

/// Whether record `j` is the current worktree: there is a current worktree,
/// and record `j` has its path.
pub open spec fn is_current(records: Seq<WorktreeView>, cwd: Seq<char>, j: int) -> bool {
    let c = current_index(records, cwd);
    0 <= c < records.len() && same_path(records[c].path, records[j].path)
}

/// What `dirty` says of record `i`; a record that it does not reach counts as
/// clean.
pub open spec fn flag_at(dirty: Seq<bool>, i: int) -> bool {
    if 0 <= i < dirty.len() {
        dirty[i]
    } else {
        false
    }
}

/// The reports on the first `upto` records that are not the current
/// worktree, in the order of the listing.
pub open spec fn others(records: Seq<WorktreeView>, cwd: Seq<char>, dirty: Seq<bool>, upto: int)
    -> Seq<InfoView>
    decreases upto,
{
    if upto <= 0 {
        Seq::empty()
    } else {
        let earlier = others(records, cwd, dirty, upto - 1);
        if is_current(records, cwd, upto - 1) {
            earlier
        } else {
            earlier.push(info_of(records[upto - 1], flag_at(dirty, upto - 1)))
        }
    }
}

/// The report on the current worktree among the first `upto` records: on the
/// last of them that has the path of the current worktree.
pub open spec fn current_info(
    records: Seq<WorktreeView>,
    cwd: Seq<char>,
    dirty: Seq<bool>,
    upto: int,
) -> Option<InfoView>
    decreases upto,
{
    if upto <= 0 {
        None
    } else if is_current(records, cwd, upto - 1) {
        Some(info_of(records[upto - 1], flag_at(dirty, upto - 1)))
    } else {
        current_info(records, cwd, dirty, upto - 1)
    }
}

/// The report on an optional worktree as a value.
pub open spec fn opt_info(o: Option<WorktreeInfo>) -> Option<InfoView> {
    match o {
        Some(info) => Some(info@),
        None => None,
    }
}

/// The full report for an agent in the directory `cwd`: the current
/// worktree, the other worktrees in the order of the listing, and the
/// repository with the number of its worktrees. `dirty` says of each worktree
/// whether it holds changes; a worktree that it does not reach counts as
/// clean.
pub fn show_context(repo_root: &str, worktrees: &Vec<Worktree>, cwd: &str, dirty: &Vec<bool>) -> (r:
    AgentContext)
    ensures
        opt_info(r.current_worktree) == current_info(
            records_view(worktrees@),
            cwd@,
            dirty@,
            worktrees.len() as int,
        ),
        infos_view(r.other_worktrees@) == others(
            records_view(worktrees@),
            cwd@,
            dirty@,
            worktrees.len() as int,
        ),
        r.repository.root@ == repo_root@,
        r.repository.total_worktrees == worktrees.len(),
{
    let ghost records = records_view(worktrees@);
    let current = current_worktree(worktrees, cwd);
    let mut found: Option<WorktreeInfo> = None;
    let mut rest: Vec<WorktreeInfo> = Vec::new();
    let mut i: usize = 0;
    assert(infos_view(rest@) == Seq::<InfoView>::empty());
    while i < worktrees.len()
        invariant
            i <= worktrees.len(),
            records == records_view(worktrees@),
            match current {
                Some(c) => c < worktrees.len() && c as int == current_index(records, cwd@),
                None => current_index(records, cwd@) == records.len(),
            },
            opt_info(found) == current_info(records, cwd@, dirty@, i as int),
            infos_view(rest@) == others(records, cwd@, dirty@, i as int),
        decreases worktrees.len() - i,
    {
        let w = &worktrees[i];
        assert(records[i as int] == w@);
        let here = match current {
            Some(c) => {
                assert(records[c as int] == worktrees@[c as int]@);
                paths_equal(worktrees[c].path.as_str(), w.path.as_str())
            },
            None => false,
        };
        assert(here == is_current(records, cwd@, i as int));
        let flag = if i < dirty.len() {
            dirty[i]
        } else {
            false
        };
        let info = worktree_info(w, flag);
        let ghost before = infos_view(rest@);
        if here {
            found = Some(info);
        } else {
            rest.push(info);
            assert(infos_view(rest@) == before.push(info_of(w@, flag_at(dirty@, i as int))));
        }
        i += 1;
    }
    AgentContext {
        current_worktree: found,
        other_worktrees: rest,
        repository: RepositoryInfo { root: repo_root.to_owned(), total_worktrees: worktrees.len() },
    }
}

/// The branch of a report as it is shown: its name, or `<detached>`.
pub open spec fn branch_or_detached(branch: Option<Seq<char>>) -> Seq<char> {
    match branch {
        Some(b) => b,
        None => "<detached>"@,
    }
}

/// The line on one of the other worktrees: its branch, its path, and a note
/// where it holds changes.
pub open spec fn other_line(info: InfoView) -> Seq<char> {
    "  - "@ + branch_or_detached(info.branch) + " @ "@ + info.path + (if info.dirty {
        " (dirty)"@
    } else {
        Seq::empty()
    })
}

/// The lines on the current worktree.
pub open spec fn current_lines(current: Option<InfoView>) -> Seq<Seq<char>> {
    match current {
        Some(info) => seq![
            "Current: "@ + branch_or_detached(info.branch) + " @ "@ + info.path,
            "Status: "@ + (if info.dirty {
                "dirty"@
            } else {
                "clean"@
            }),
            Seq::<char>::empty(),
        ],
        None => seq!["Not currently in a worktree"@, Seq::<char>::empty()],
    }
}

/// The lines on the other worktrees; none where there are no others.
pub open spec fn other_lines(infos: Seq<InfoView>) -> Seq<Seq<char>> {
    if infos.len() == 0 {
        Seq::empty()
    } else {
        seq!["Other worktrees:"@] + Seq::new(infos.len(), |i: int| other_line(infos[i])) + seq![
            Seq::<char>::empty(),
        ]
    }
}

/// The commands that the report reminds of.
pub open spec fn quick_commands() -> Seq<Seq<char>> {
    seq![
        "## Quick Commands"@,
        Seq::<char>::empty(),
        "  wt                  # Interactive picker"@,
        "  wt list --json      # List all worktrees"@,
        "  wt add <branch>     # Create new worktree"@,
        "  wt remove <target>  # Remove worktree"@,
        "  wt prune            # Clean stale worktrees"@,
    ]
}

/// The full report for human readers.
pub open spec fn context_text(
    current: Option<InfoView>,
    infos: Seq<InfoView>,
    root: Seq<char>,
    total: nat,
) -> Seq<Seq<char>> {
    seq!["## Worktree Context"@, Seq::<char>::empty()] + current_lines(current) + other_lines(infos)
        + seq![
        "Repository: "@ + root,
        "Total worktrees: "@ + digits(total),
        Seq::<char>::empty(),
    ] + quick_commands()
}

/// The branch of a report and its path, with ` @ ` between them.
fn branch_at_path(lead: &str, branch: &Option<String>, path: &str) -> (r: String)
    ensures
        r@ == lead@ + branch_or_detached(opt_text(*branch)) + " @ "@ + path@,
{
    let mut line = lead.to_owned();
    match branch {
        Some(b) => line.append(b.as_str()),
        None => line.append("<detached>"),
    }
    line.append(" @ ");
    line.append(path);
    line
}

/// Adds the lines on the current worktree.
fn push_current(r: &mut Vec<String>, current: &Option<WorktreeInfo>)
    ensures
        texts_of(final(r)@) == texts_of(old(r)@) + current_lines(opt_info(*current)),
{
    let ghost head = texts_of(r@);
    match current {
        Some(info) => {
            push_line(r, branch_at_path("Current: ", &info.branch, info.path.as_str()));
            let mut status = "Status: ".to_owned();
            if info.dirty {
                status.append("dirty");
            } else {
                status.append("clean");
            }
            push_line(r, status);
            push_line(r, String::new());
            assert(texts_of(r@) == head + current_lines(Some(info@)));
        },
        None => {
            push_line(r, "Not currently in a worktree".to_owned());
            push_line(r, String::new());
            assert(texts_of(r@) == head + current_lines(None));
        },
    }
}

/// Adds the lines on the other worktrees.
fn push_others(r: &mut Vec<String>, others: &Vec<WorktreeInfo>)
    ensures
        texts_of(final(r)@) == texts_of(old(r)@) + other_lines(infos_view(others@)),
{
    let ghost head = texts_of(r@);
    let ghost infos = infos_view(others@);
    if others.len() == 0 {
        assert(texts_of(r@) == head + other_lines(infos));
        return ;
    }
    push_line(r, "Other worktrees:".to_owned());
    let mut i: usize = 0;
    let ghost lead = texts_of(r@);
    assert(lead + Seq::new(0, |k: int| other_line(infos[k])) == lead);
    while i < others.len()
        invariant
            i <= others.len(),
            infos == infos_view(others@),
            texts_of(r@) == lead + Seq::new(i as nat, |k: int| other_line(infos[k])),
        decreases others.len() - i,
    {
        let info = &others[i];
        assert(info@ == infos[i as int]);
        let mut line = branch_at_path("  - ", &info.branch, info.path.as_str());
        if info.dirty {
            line.append(" (dirty)");
        } else {
            assert(line@ + Seq::<char>::empty() == line@);
        }
        assert(line@ == other_line(infos[i as int]));
        push_line(r, line);
        assert((lead + Seq::new(i as nat, |k: int| other_line(infos[k]))).push(
            other_line(infos[i as int]),
        ) == lead + Seq::new((i + 1) as nat, |k: int| other_line(infos[k])));
        i += 1;
    }
    push_line(r, String::new());
    assert(texts_of(r@) == head + other_lines(infos));
}

/// Adds the lines on the repository.
fn push_repository(r: &mut Vec<String>, repository: &RepositoryInfo)
    ensures
        texts_of(final(r)@) == texts_of(old(r)@) + seq![
            "Repository: "@ + repository.root@,
            "Total worktrees: "@ + digits(repository.total_worktrees as nat),
            Seq::<char>::empty(),
        ],
{
    let ghost head = texts_of(r@);
    let mut root = "Repository: ".to_owned();
    root.append(repository.root.as_str());
    push_line(r, root);
    let mut total = "Total worktrees: ".to_owned();
    total.append(count_text(repository.total_worktrees).as_str());
    push_line(r, total);
    push_line(r, String::new());
    assert(texts_of(r@) == head + seq![
        "Repository: "@ + repository.root@,
        "Total worktrees: "@ + digits(repository.total_worktrees as nat),
        Seq::<char>::empty(),
    ]);
}

/// Adds the reminder of the commands.
fn push_quick_commands(r: &mut Vec<String>)
    ensures
        texts_of(final(r)@) == texts_of(old(r)@) + quick_commands(),
{
    let ghost head = texts_of(r@);
    push_line(r, "## Quick Commands".to_owned());
    push_line(r, String::new());
    push_line(r, "  wt                  # Interactive picker".to_owned());
    push_line(r, "  wt list --json      # List all worktrees".to_owned());
    push_line(r, "  wt add <branch>     # Create new worktree".to_owned());
    push_line(r, "  wt remove <target>  # Remove worktree".to_owned());
    push_line(r, "  wt prune            # Clean stale worktrees".to_owned());
    assert(texts_of(r@) == head + quick_commands());
}

/// The lines of the full report for human readers.
pub fn print_human_readable_context(context: &AgentContext) -> (r: Vec<String>)
    ensures
        texts_of(r@) == context_text(
            opt_info(context.current_worktree),
            infos_view(context.other_worktrees@),
            context.repository.root@,
            context.repository.total_worktrees as nat,
        ),
{
    let mut r: Vec<String> = Vec::new();
    assert(texts_of(r@) == Seq::<Seq<char>>::empty());
    push_line(&mut r, "## Worktree Context".to_owned());
    push_line(&mut r, String::new());
    assert(texts_of(r@) == seq!["## Worktree Context"@, Seq::<char>::empty()]);
    push_current(&mut r, &context.current_worktree);
    push_others(&mut r, &context.other_worktrees);
    push_repository(&mut r, &context.repository);
    push_quick_commands(&mut r);
    r
}

/// The short report for an agent in the directory `cwd`: the current
/// worktree, if the directory lies in one, and the number of worktrees.
/// `dirty` says whether the current worktree holds changes.
pub fn show_status(worktrees: &Vec<Worktree>, cwd: &str, dirty: bool) -> (r: MinimalStatus)
    ensures
        r.count == worktrees.len(),
        ({
            let records = records_view(worktrees@);
            let c = current_index(records, cwd@);
            if c < records.len() {
                r.current matches Some(cur) && cur.path@ == records[c].path && cur.dirty == dirty
                    && opt_text(cur.branch) == (match records[c].branch {
                    Some(b) => Some(local_name(b)),
                    None => None,
                })
            } else {
                r.current is None
            }
        }),
{
    let current = match current_worktree(worktrees, cwd) {
        Some(c) => {
            let w = &worktrees[c];
            assert(w@ == records_view(worktrees@)[c as int]);
            let branch = match &w.branch {
                Some(b) => {
                    let full = chars_of(b.as_str());
                    Some(string_of(local_ref(full.as_slice())))
                },
                None => None,
            };
            Some(CurrentWorktree { path: w.path.clone(), branch, dirty })
        },
        None => None,
    };
    MinimalStatus { current, count: worktrees.len() }
}

/// The short report for human readers: the current worktree in one line,
/// then the number of worktrees. The branch is shown without a leading
/// `refs/heads/`, and as `<detached>` where the worktree is on no branch.
pub open spec fn status_text(w: Option<WorktreeView>, dirty: bool, total: nat) -> Seq<Seq<char>> {
    seq![
        match w {
            Some(record) => crate::remove::branch_display(record) + " @ "@ + record.path + (
            if dirty {
                " (dirty)"@
            } else {
                Seq::empty()
            }),
            None => "Not in a worktree"@,
        },
        "Total: "@ + digits(total) + " worktrees"@,
    ]
}

/// The lines of the short report for human readers.
pub fn status_lines(worktrees: &Vec<Worktree>, cwd: &str, dirty: bool) -> (r: Vec<String>)
    ensures
        ({
            let records = records_view(worktrees@);
            let c = current_index(records, cwd@);
            texts_of(r@) == status_text(
                if c < records.len() {
                    Some(records[c])
                } else {
                    None
                },
                dirty,
                worktrees.len() as nat,
            )
        }),
{
    let mut r: Vec<String> = Vec::new();
    assert(texts_of(r@) == Seq::<Seq<char>>::empty());
    match current_worktree(worktrees, cwd) {
        Some(c) => {
            let w = &worktrees[c];
            assert(w@ == records_view(worktrees@)[c as int]);
            let mut line = crate::remove::shown_branch(w);
            line.append(" @ ");
            line.append(w.path.as_str());
            if dirty {
                line.append(" (dirty)");
            } else {
                assert(line@ + Seq::<char>::empty() == line@);
            }
            push_line(&mut r, line);
        },
        None => {
            push_line(&mut r, "Not in a worktree".to_owned());
        },
    }
    let mut total = "Total: ".to_owned();
    total.append(count_text(worktrees.len()).as_str());
    total.append(" worktrees");
    push_line(&mut r, total);
    r
}

/// The instructions for agents: the commands, the shape of their JSON output
/// and the usual ways to work with them.
pub const ONBOARD: &'static str = r#"# wt - Git Worktree Manager

## Quick Reference

| Command | Description | Agent Flags |
|---------|-------------|-------------|
| `wt list` | List all worktrees | `--json`, `--all` |
| `wt add <branch>` | Create worktree | `--json`, `--quiet` |
| `wt remove <target>` | Remove worktree | `--json`, `--quiet`, `--force` |
| `wt prune` | Clean stale worktrees | `--json`, `--quiet` |
| `wt preview --path <p>` | Preview worktree | `--json` |
| `wt agent context` | Full worktree context | `--json` |
| `wt agent status` | Minimal status | `--json` |

## JSON Output Examples

### wt list --json
```json
[{"path": "/path/to/wt", "head": "abc123", "branch": "refs/heads/main", "is_main": true}]
```

### wt add <branch> --json --quiet
```json
{"success": true, "worktree": {"path": "/path/to/wt", "branch": "feature-x"}}
```

### wt remove <target> --json --force
```json
{"success": true, "removed": true, "branch": "feature-x", "path": "/path/to/wt"}
```

### wt agent status --json
```json
{"current": {"path": "/path/to/wt", "branch": "main", "dirty": true}, "count": 3}
```

## Common Workflows

```bash
# Create worktree for feature branch
wt add feature-x --json --quiet

# List all worktrees
wt list --json

# Check current state
wt agent status --json

# Remove worktree after PR merge
wt remove feature-x --force --json

# Clean up stale worktrees
wt prune --quiet --json
```

## Best Practices

1. Always use `--json` for programmatic parsing
2. Use `--quiet` to suppress interactive prompts
3. Use `--force` with remove when certain (skips confirmation)
4. Run `wt agent context` at session start for full layout
5. Check `dirty` status before switching worktrees
"#;

/// The instructions for agents.
pub fn show_onboard() -> (r: String)
    ensures
        r@ == ONBOARD@,
{
    ONBOARD.to_owned()
}

} // verus!
