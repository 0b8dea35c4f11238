//! External handlers: the command line to run for a file, and what the run
//! of the command says of the file.
//!
//! The command is run by the caller. In the arguments of a handler, `{path}`
//! stands for the path of the file and `{devnull}` for the path of the null
//! device. Where no argument holds either, the path is added as the last
//! argument. A successful run is worth [`Confidence::WellFormed`], the only
//! claim that holds of every command.

use vstd::prelude::*;
use crate::builtin_handlers::{Confidence, FailureType, FailureView};
use crate::config::schema::{Handler, HandlerView, Root, RootView};
use crate::text::str_eq;
use crate::text::chars_of;

verus! {

/// The marker for the path of the file.
pub open spec fn path_token() -> Seq<char> {
    seq!['{', 'p', 'a', 't', 'h', '}']
}

/// The marker for the path of the null device.
pub open spec fn devnull_token() -> Seq<char> {
    seq!['{', 'd', 'e', 'v', 'n', 'u', 'l', 'l', '}']
}

/// Whether `part` stands in `text` at position `at`.
pub open spec fn stands_at(text: Seq<char>, at: int, part: Seq<char>) -> bool {
    0 <= at && at + part.len() <= text.len() && text.subrange(at, at + part.len()) == part
}

/// Whether `part` stands somewhere in `text`.
pub open spec fn occurs_in(text: Seq<char>, part: Seq<char>) -> bool {
    exists|at: int| #[trigger] stands_at(text, at, part)
}

/// Whether an argument holds a marker.
pub open spec fn names_token(argument: Seq<char>) -> bool {
    occurs_in(argument, path_token()) || occurs_in(argument, devnull_token())
}

/// An argument from position `from` on, with the markers replaced, from left to right.
pub open spec fn rendered_from(
    argument: Seq<char>,
    from: int,
    path: Seq<char>,
    devnull: Seq<char>,
) -> Seq<char>
    decreases argument.len() - from,
{
    if from < 0 || from >= argument.len() {
        Seq::empty()
    } else if stands_at(argument, from, path_token()) {
        path + rendered_from(argument, from + 6, path, devnull)
    } else if stands_at(argument, from, devnull_token()) {
        devnull + rendered_from(argument, from + 9, path, devnull)
    } else {
        seq![argument[from]] + rendered_from(argument, from + 1, path, devnull)
    }
}

/// An argument with the markers replaced.
pub open spec fn rendered(argument: Seq<char>, path: Seq<char>, devnull: Seq<char>) -> Seq<char> {
    rendered_from(argument, 0, path, devnull)
}

/// The command line for a file: the arguments with the markers replaced and,
/// where no argument holds a marker, the path as one more argument.
pub open spec fn command_line(argv: Seq<Seq<char>>, path: Seq<char>, devnull: Seq<char>) -> Seq<
    Seq<char>,
> {
    let replaced = argv.map_values(|a: Seq<char>| rendered(a, path, devnull));
    if exists|k: int| 0 <= k < argv.len() && names_token(#[trigger] argv[k]) {
        replaced
    } else {
        replaced.push(path)
    }
}

/// Whether `part` stands in `text` at position `at`.
fn has_at(text: &Vec<char>, at: usize, part: &Vec<char>) -> (yes: bool)
    ensures
        yes == stands_at(text@, at as int, part@),
{
    if at > text.len() || part.len() > text.len() - at {
        return false;
    }
    let mut k: usize = 0;
    while k < part.len()
        invariant
            at + part@.len() <= text@.len(),
            text@.len() <= usize::MAX,
            k <= part@.len(),
            forall|j: int| 0 <= j < k ==> text@[at + j] == part@[j],
        decreases part@.len() - k,
    {
        if text[at + k] != part[k] {
            assert(text@.subrange(at as int, at + part@.len())[k as int] != part@[k as int]);
            return false;
        }
        k += 1;
    }
    assert(text@.subrange(at as int, at + part@.len()) =~= part@);
    true
}

/// Whether `part` stands somewhere in `text`.
pub fn contains_text(text: &str, part: &str) -> (yes: bool)
    ensures
        yes == occurs_in(text@, part@),
{
    let t = chars_of(text);
    let p = chars_of(part);
    let mut at: usize = 0;
    while at < t.len()
        invariant
            t@ == text@,
            p@ == part@,
            at <= t@.len(),
            forall|j: int| 0 <= j < at ==> !stands_at(text@, j, part@),
        decreases t@.len() - at,
    {
        if has_at(&t, at, &p) {
            return true;
        }
        at += 1;
    }
    if has_at(&t, at, &p) {
        return true;
    }
    assert forall|j: int| !#[trigger] stands_at(text@, j, part@) by {
        if 0 <= j && j <= text@.len() {
        }
    }
    false
}

fn path_marker() -> (token: Vec<char>)
    ensures
        token@ == path_token(),
{
    let mut token: Vec<char> = Vec::new();
    token.push('{');
    token.push('p');
    token.push('a');
    token.push('t');
    token.push('h');
    token.push('}');
    assert(token@ =~= path_token());
    token
}

fn devnull_marker() -> (token: Vec<char>)
    ensures
        token@ == devnull_token(),
{
    let mut token: Vec<char> = Vec::new();
    token.push('{');
    token.push('d');
    token.push('e');
    token.push('v');
    token.push('n');
    token.push('u');
    token.push('l');
    token.push('l');
    token.push('}');
    assert(token@ =~= devnull_token());
    token
}

/// Whether a marker stands somewhere in `argument`.
fn has_token(argument: &Vec<char>) -> (yes: bool)
    ensures
        yes == names_token(argument@),
{
    let a = path_marker();
    let b = devnull_marker();
    let mut at: usize = 0;
    while at < argument.len()
        invariant
            a@ == path_token(),
            b@ == devnull_token(),
            at <= argument@.len(),
            forall|j: int| 0 <= j < at ==> !stands_at(argument@, j, path_token()),
            forall|j: int| 0 <= j < at ==> !stands_at(argument@, j, devnull_token()),
        decreases argument@.len() - at,
    {
        if has_at(argument, at, &a) || has_at(argument, at, &b) {
            return true;
        }
        at += 1;
    }
    assert forall|j: int| !#[trigger] stands_at(argument@, j, path_token()) by {
        if 0 <= j && j <= argument@.len() {
        }
    }
    assert forall|j: int| !#[trigger] stands_at(argument@, j, devnull_token()) by {
        if 0 <= j && j <= argument@.len() {
        }
    }
    false
}

/// An argument with the markers replaced.
fn render(argument: &str, chars: &Vec<char>, path: &str, devnull: &str) -> (out: String)
    requires
        chars@ == argument@,
    ensures
        out@ == rendered(argument@, path@, devnull@),
{
    let a = path_marker();
    let b = devnull_marker();
    let n = chars.len();
    let mut out = String::new();
    let mut at: usize = 0;
    assert(out@ + rendered_from(argument@, 0, path@, devnull@) =~= rendered(
        argument@,
        path@,
        devnull@,
    ));
    while at < n
        invariant
            chars@ == argument@,
            n == chars@.len(),
            a@ == path_token(),
            b@ == devnull_token(),
            at <= n,
            rendered(argument@, path@, devnull@) == out@ + rendered_from(
                argument@,
                at as int,
                path@,
                devnull@,
            ),
        decreases n - at,
    {
        let ghost before = out@;
        let ghost rest = rendered_from(argument@, at as int, path@, devnull@);
        if has_at(chars, at, &a) {
            out.append(path);
            assert(before + rest =~= out@ + rendered_from(argument@, at + 6, path@, devnull@));
            at += 6;
        } else if has_at(chars, at, &b) {
            out.append(devnull);
            assert(before + rest =~= out@ + rendered_from(argument@, at + 9, path@, devnull@));
            at += 9;
        } else {
            let one = argument.substring_char(at, at + 1);
            assert(one@ =~= seq![argument@[at as int]]);
            out.append(one);
            assert(before + rest =~= out@ + rendered_from(argument@, at + 1, path@, devnull@));
            at += 1;
        }
    }
    assert(out@ + Seq::<char>::empty() =~= out@);
    out
}

/// The command line to run for a file: the arguments of the handler with
/// `{path}` and `{devnull}` replaced and, where no argument holds either, the
/// path as one more argument.
pub fn render_argv(argv: &Vec<String>, path: &str, devnull: &str) -> (out: Vec<String>)
    ensures
        out.deep_view() == command_line(argv.deep_view(), path@, devnull@),
{
    let ghost template = argv.deep_view();
    let ghost replace = |a: Seq<char>| rendered(a, path@, devnull@);
    let mut out: Vec<String> = Vec::new();
    let mut named = false;
    let mut i: usize = 0;
    assert(out.deep_view() =~= template.take(0).map_values(replace));
    while i < argv.len()
        invariant
            template == argv.deep_view(),
            replace == |a: Seq<char>| rendered(a, path@, devnull@),
            i <= argv@.len(),
            out.deep_view() == template.take(i as int).map_values(replace),
            named == exists|k: int| 0 <= k < i && names_token(#[trigger] template[k]),
        decreases argv@.len() - i,
    {
        let ghost before = out.deep_view();
        let chars = chars_of(argv[i].as_str());
        let here = has_token(&chars);
        let text = render(argv[i].as_str(), &chars, path, devnull);
        out.push(text);
        proof {
            assert(template[i as int] == argv@[i as int]@);
            assert(out.deep_view() =~= before.push(text@));
            assert(template.take(i + 1).map_values(replace) =~= template.take(i as int).map_values(
                replace,
            ).push(replace(template[i as int])));
            if here {
                assert(names_token(template[i as int]));
            }
        }
        named = named || here;
        i += 1;
    }
    assert(template.take(template.len() as int) =~= template);
    if !named {
        let ghost before = out.deep_view();
        out.push(String::from_str(path));
        assert(out.deep_view() =~= before.push(path@));
    }
    out
}

/// What came of running a command.
#[derive(Debug, PartialEq, Eq)]
pub enum Run {
    /// The command could not be started
    NotStarted(String),
    /// The command ran to its end
    Exited {
        /// Its exit status says success
        success: bool,
        /// What it wrote to its error output
        stderr: String,
    },
}

/// The mathematical value of a [`Run`].
pub enum RunView {
    NotStarted(Seq<char>),
    Exited { success: bool, stderr: Seq<char> },
}

impl DeepView for Run {
    type V = RunView;

    open spec fn deep_view(&self) -> RunView {
        match self {
            Run::NotStarted(m) => RunView::NotStarted(m@),
            Run::Exited { success, stderr } => RunView::Exited {
                success: *success,
                stderr: stderr@,
            },
        }
    }
}

impl View for Run {
    type V = RunView;

    open spec fn view(&self) -> RunView {
        self.deep_view()
    }
}

/// What the run of an external handler says of the file. A command that could
/// not be started is a failure of the handler. A command that reports failure,
/// or whose error output holds the handler's `fail_if_stderr`, found the
/// content invalid: nothing tells an unsupported file from a corrupted one.
pub open spec fn external_report(handler: HandlerView, run: RunView) -> Result<
    Confidence,
    FailureView,
> {
    match run {
        RunView::NotStarted(message) => Err(FailureView::InternalError(message)),
        RunView::Exited { success, stderr } => if !success {
            Err(FailureView::InvalidContent(stderr))
        } else if handler.fail_if_stderr is Some && occurs_in(stderr, handler.fail_if_stderr->0) {
            Err(FailureView::InvalidContent(stderr))
        } else {
            Ok(Confidence::WellFormed)
        },
    }
}

/// Judges the run of an external handler.
pub fn external_outcome(handler: &Handler, run: Run) -> (out: Result<Confidence, FailureType>)
    ensures
        crate::dispatch::outcome_view(out) == external_report(handler@, run@),
{
    match run {
        Run::NotStarted(message) => Err(FailureType::InternalError(message)),
        Run::Exited { success, stderr } => {
            if !success {
                return Err(FailureType::InvalidContent(stderr));
            }
            let flagged = match &handler.fail_if_stderr {
                Some(mark) => contains_text(stderr.as_str(), mark.as_str()),
                None => false,
            };
            if flagged {
                Err(FailureType::InvalidContent(stderr))
            } else {
                Ok(Confidence::WellFormed)
            }
        },
    }
}


/// What an id in a handler chain names.
#[derive(Debug, Clone, Copy, PartialEq, Eq, Structural)]
pub enum HandlerRef {
    /// The external handler at this position of the configuration
    External(usize),
    /// The built-in handler of that id
    Builtin,
    /// Nothing
    Unknown,
}

/// What the id names: an external handler of the configuration, the first
/// with that id; else a built-in handler; else nothing.
pub open spec fn named_handler(root: RootView, builtins: Seq<Seq<char>>, id: Seq<char>) -> HandlerRef {
    match root.handler_ids().index_of_first(id) {
        Some(at) => HandlerRef::External(at as usize),
        None => if builtins.contains(id) {
            HandlerRef::Builtin
        } else {
            HandlerRef::Unknown
        },
    }
}

/// Finds what an id in a handler chain names, given the ids of the built-in
/// handlers. What the configuration defines goes before what is built in.
pub fn find_handler(root: &Root, builtins: &Vec<String>, id: &str) -> (found: HandlerRef)
    ensures
        found == named_handler(root@, builtins.deep_view(), id@),
        found matches HandlerRef::External(at) ==> at < root.handlers@.len(),
{
    let ghost ids = root@.handler_ids();
    let mut i: usize = 0;
    while i < root.handlers.len()
        invariant
            i <= root.handlers@.len(),
            ids == root@.handler_ids(),
            forall|j: int| 0 <= j < i ==> ids[j] != id@,
        decreases root.handlers@.len() - i,
    {
        if str_eq(root.handlers[i].0.as_str(), id) {
            proof {
                assert(ids[i as int] == id@);
                ids.index_of_first_ensures(id@);
            }
            return HandlerRef::External(i);
        }
        assert(ids[i as int] != id@);
        i += 1;
    }
    proof {
        ids.index_of_first_ensures(id@);
    }
    let mut k: usize = 0;
    while k < builtins.len()
        invariant
            k <= builtins@.len(),
            ids == root@.handler_ids(),
            ids.index_of_first(id@) is None,
            forall|j: int| 0 <= j < k ==> builtins.deep_view()[j] != id@,
        decreases builtins@.len() - k,
    {
        if str_eq(builtins[k].as_str(), id) {
            assert(builtins.deep_view()[k as int] == id@);
            return HandlerRef::Builtin;
        }
        k += 1;
    }
    HandlerRef::Unknown
}

} // verus!
