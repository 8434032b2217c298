//! The picker: how it is called, and what its exit means.

use crate::text::{chars_of, cut_space, decimal, decimal_text, string_of, texts_of, trim};
use vstd::prelude::*;
use vstd::string::*;

verus! {

/// How the picker is to look and what it is to say.
#[derive(Debug, Clone)]
pub struct FzfOptions {
    pub height: String,
    pub layout: String,
    pub preview: Option<String>,
    pub preview_window: String,
    pub prompt: Option<String>,
    pub header: Option<String>,
}

impl Default for FzfOptions {
    /// 40% of the screen, listed from the top, preview on the right in 60% of
    /// the width; no preview command, prompt or header.
    fn default() -> (r: Self)
        ensures
            r.height@ == "40%"@,
            r.layout@ == "reverse"@,
            r.preview_window@ == "right:60%"@,
            r.preview is None,
            r.prompt is None,
            r.header is None,
    {
        FzfOptions {
            height: "40%".to_owned(),
            layout: "reverse".to_owned(),
            preview: None,
            preview_window: "right:60%".to_owned(),
            prompt: None,
            header: None,
        }
    }
}

/// A flag and its value where the value is given, nothing where it is not.
pub open spec fn optional_flag(flag: Seq<char>, value: Option<String>) -> Seq<Seq<char>> {
    match value {
        Some(v) => seq![flag, v@],
        None => Seq::empty(),
    }
}

/// The arguments that `options` stand for.
pub open spec fn args_of(options: FzfOptions) -> Seq<Seq<char>> {
    seq![
        "--height"@,
        options.height@,
        "--layout"@,
        options.layout@,
        "--preview-window"@,
        options.preview_window@,
    ] + optional_flag("--preview"@, options.preview) + optional_flag("--prompt"@, options.prompt)
        + optional_flag("--header"@, options.header)
}

/// Adds a flag and its value to `args` where the value is given.
fn push_optional(args: &mut Vec<String>, flag: &str, value: &Option<String>)
    ensures
        texts_of(final(args)@) == texts_of(old(args)@) + optional_flag(flag@, *value),
{
    let ghost before = texts_of(args@);
    match value {
        Some(v) => {
            args.push(flag.to_owned());
            args.push(v.clone());
            assert(texts_of(args@) == before + seq![flag@, v@]);
        },
        None => {
            assert(texts_of(args@) == before + Seq::<Seq<char>>::empty());
        },
    }
}

/// The arguments with which the picker is called for `options`.
pub fn picker_args(options: &FzfOptions) -> (args: Vec<String>)
    ensures
        texts_of(args@) == args_of(*options),
{
    let mut args: Vec<String> = Vec::new();
    args.push("--height".to_owned());
    args.push(options.height.clone());
    args.push("--layout".to_owned());
    args.push(options.layout.clone());
    args.push("--preview-window".to_owned());
    args.push(options.preview_window.clone());
    assert(texts_of(args@) == seq![
        "--height"@,
        options.height@,
        "--layout"@,
        options.layout@,
        "--preview-window"@,
        options.preview_window@,
    ]);
    push_optional(&mut args, "--preview", &options.preview);
    push_optional(&mut args, "--prompt", &options.prompt);
    push_optional(&mut args, "--header", &options.header);
    args
}

/// Why the picker failed.
#[derive(Debug, Clone, Copy, PartialEq, Eq, Structural)]
pub enum PickFailure {
    /// It ended with an exit code that stands for no outcome.
    ExitCode(i32),
    /// A signal ended it.
    Signal,
}

/// What came of a run of the picker.
#[derive(Debug, Clone, PartialEq, Eq)]
pub enum Pick {
    /// The user chose this.
    Selected(String),
    /// The user chose nothing.
    Cancelled,
    /// The picker failed.
    Failed(PickFailure),
}

/// The mathematical value of a [`Pick`].
pub enum PickView {
    Selected(Seq<char>),
    Cancelled,
    Failed(PickFailure),
}

impl View for Pick {
    type V = PickView;

    open spec fn view(&self) -> PickView {
        match *self {
            Pick::Selected(s) => PickView::Selected(s@),
            Pick::Cancelled => PickView::Cancelled,
            Pick::Failed(f) => PickView::Failed(f),
        }
    }
}

/// What the exit of the picker means. Exit code 0 is a choice, the output
/// without the white space around it, unless that is empty; 0 with nothing
/// chosen, 1 (no match) and 130 (interrupted) are no choice; any other code,
/// and an end by a signal, is a failure.
pub open spec fn pick_of(code: Option<int>, stdout: Seq<char>) -> PickView {
    match code {
        Some(c) => if c == 0 {
            if trim(stdout).len() == 0 {
                PickView::Cancelled
            } else {
                PickView::Selected(trim(stdout))
            }
        } else if c == 1 || c == 130 {
            PickView::Cancelled
        } else {
            PickView::Failed(PickFailure::ExitCode(c as i32))
        },
        None => PickView::Failed(PickFailure::Signal),
    }
}

/// The exit code as an integer.
pub open spec fn code_view(code: Option<i32>) -> Option<int> {
    match code {
        Some(c) => Some(c as int),
        None => None,
    }
}

/// Reads the exit of the picker: its exit code, `None` where a signal ended
/// it, and what it wrote to its standard output.
pub fn read_pick(code: Option<i32>, stdout: &str) -> (r: Pick)
    ensures
        r@ == pick_of(code_view(code), stdout@),
{
    match code {
        Some(c) => {
            if c == 0 {
                let chars = chars_of(stdout);
                let chosen = cut_space(chars.as_slice());
                if chosen.len() == 0 {
                    Pick::Cancelled
                } else {
                    Pick::Selected(string_of(chosen))
                }
            } else if c == 1 || c == 130 {
                Pick::Cancelled
            } else {
                Pick::Failed(PickFailure::ExitCode(c))
            }
        },
        None => Pick::Failed(PickFailure::Signal),
    }
}

impl PickFailure {
    /// The failure in words.
    pub open spec fn text(self) -> Seq<char> {
        match self {
            PickFailure::ExitCode(c) => "fzf exited with unexpected code: "@ + decimal(c as int),
            PickFailure::Signal => "fzf was terminated by a signal"@,
        }
    }

    /// The failure in fewer words.
    pub open spec fn short_text(self) -> Seq<char> {
        match self {
            PickFailure::ExitCode(c) => "fzf exited with code: "@ + decimal(c as int),
            PickFailure::Signal => "fzf terminated by signal"@,
        }
    }

    /// The failure in words.
    pub fn message(&self) -> (r: String)
        ensures
            r@ == self.text(),
    {
        match self {
            PickFailure::ExitCode(c) => {
                let mut text = "fzf exited with unexpected code: ".to_owned();
                text.append(decimal_text(*c).as_str());
                text
            },
            PickFailure::Signal => "fzf was terminated by a signal".to_owned(),
        }
    }

    /// The failure in fewer words.
    pub fn short_message(&self) -> (r: String)
        ensures
            r@ == self.short_text(),
    {
        match self {
            PickFailure::ExitCode(c) => {
                let mut text = "fzf exited with code: ".to_owned();
                text.append(decimal_text(*c).as_str());
                text
            },
            PickFailure::Signal => "fzf terminated by signal".to_owned(),
        }
    }
}

/// A run of the picker ends in a choice only with exit code 0.
pub proof fn lemma_choice_needs_success(code: Option<int>, stdout: Seq<char>)
    ensures
        pick_of(code, stdout) is Selected ==> code == Some(0int) && trim(stdout).len() > 0,
        pick_of(code, stdout) is Failed <==> (code != Some(0int) && code != Some(1int) && code
            != Some(130int)),
{
}

} // verus!
