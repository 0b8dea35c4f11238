//! From the results of the handlers of a chain to one verdict.
//!
//! The handlers are tried in order. A success ends the chain, and so does
//! content found invalid or a file that cannot be read. A handler that does
//! not support the file, or that fails itself, is noted, and the next one is
//! tried.

use vstd::prelude::*;
use crate::builtin_handlers::{Confidence, FailureType, FailureView};

verus! {

/// What came of a file.
#[derive(Debug, PartialEq, Eq)]
pub enum Verdict {
    /// A handler found no problem; its confidence says how much that is worth
    Verified(Confidence),
    /// A handler found the content invalid
    Corrupted(String),
    /// No handler could judge the file. The failures noted on the way tell
    /// "nothing supports this" from "a handler failed".
    Unrecognized(Vec<FailureType>),
    /// The file could not be read; nothing is said of its content
    IoFailure(String),
}

/// The mathematical value of a [`Verdict`].
pub enum VerdictView {
    Verified(Confidence),
    Corrupted(Seq<char>),
    Unrecognized(Seq<FailureView>),
    IoFailure(Seq<char>),
}

impl DeepView for Verdict {
    type V = VerdictView;

    open spec fn deep_view(&self) -> VerdictView {
        match self {
            Verdict::Verified(c) => VerdictView::Verified(*c),
            Verdict::Corrupted(m) => VerdictView::Corrupted(m@),
            Verdict::Unrecognized(notes) => VerdictView::Unrecognized(notes.deep_view()),
            Verdict::IoFailure(m) => VerdictView::IoFailure(m@),
        }
    }
}

impl View for Verdict {
    type V = VerdictView;

    open spec fn view(&self) -> VerdictView {
        self.deep_view()
    }
}

/// The mathematical value of what a handler reports.
pub open spec fn outcome_view(outcome: Result<Confidence, FailureType>) -> Result<
    Confidence,
    FailureView,
> {
    match outcome {
        Ok(c) => Ok(c),
        Err(f) => Err(f@),
    }
}

/// The mathematical value of a list of reports.
pub open spec fn outcome_views(outcomes: Seq<Result<Confidence, FailureType>>) -> Seq<
    Result<Confidence, FailureView>,
> {
    outcomes.map_values(|o: Result<Confidence, FailureType>| outcome_view(o))
}

/// Whether a report ends the chain.
pub open spec fn ends_chain(outcome: Result<Confidence, FailureView>) -> bool {
    match outcome {
        Ok(_) => true,
        Err(FailureView::InvalidContent(_)) => true,
        Err(FailureView::IoError(_)) => true,
        Err(FailureView::UnsupportedFormat(_)) => false,
        Err(FailureView::InternalError(_)) => false,
    }
}

/// The verdict on the reports from position `from` on, where `noted` holds
/// the failures noted before.
pub open spec fn folded(
    outcomes: Seq<Result<Confidence, FailureView>>,
    from: int,
    noted: Seq<FailureView>,
) -> VerdictView
    decreases outcomes.len() - from,
{
    if from < 0 || from >= outcomes.len() {
        VerdictView::Unrecognized(noted)
    } else {
        match outcomes[from] {
            Ok(c) => VerdictView::Verified(c),
            Err(FailureView::InvalidContent(m)) => VerdictView::Corrupted(m),
            Err(FailureView::IoError(m)) => VerdictView::IoFailure(m),
            Err(f) => folded(outcomes, from + 1, noted.push(f)),
        }
    }
}

/// The verdict on the reports of a chain, in the order of the chain.
pub open spec fn verdict_of(outcomes: Seq<Result<Confidence, FailureView>>) -> VerdictView {
    folded(outcomes, 0, Seq::empty())
}

/// Whether one of the reports ends the chain.
pub open spec fn settled(outcomes: Seq<Result<Confidence, FailureView>>) -> bool {
    exists|i: int| 0 <= i < outcomes.len() && ends_chain(#[trigger] outcomes[i])
}

/// What is to be done next.
#[derive(Debug, PartialEq, Eq)]
pub enum Action {
    /// Run the handler with this id and hand back its report
    Invoke(String),
    /// Nothing more: this is the verdict
    Done(Verdict),
}

/// The mathematical value of an [`Action`].
pub enum ActionView {
    Invoke(Seq<char>),
    Done(VerdictView),
}

impl DeepView for Action {
    type V = ActionView;

    open spec fn deep_view(&self) -> ActionView {
        match self {
            Action::Invoke(id) => ActionView::Invoke(id@),
            Action::Done(v) => ActionView::Done(v@),
        }
    }
}

impl View for Action {
    type V = ActionView;

    open spec fn view(&self) -> ActionView {
        self.deep_view()
    }
}

/// What is to be done after the first handlers of `chain` have given
/// `outcomes`: the verdict, once a report ends the chain or every handler has
/// reported; else the next handler.
pub open spec fn next_step(
    chain: Seq<Seq<char>>,
    outcomes: Seq<Result<Confidence, FailureView>>,
) -> ActionView {
    if settled(outcomes) || outcomes.len() >= chain.len() {
        ActionView::Done(verdict_of(outcomes))
    } else {
        ActionView::Invoke(chain[outcomes.len() as int])
    }
}

fn copy_failure(f: &FailureType) -> (out: FailureType)
    ensures
        out@ == f@,
{
    match f {
        FailureType::InvalidContent(m) => FailureType::InvalidContent(m.clone()),
        FailureType::UnsupportedFormat(m) => FailureType::UnsupportedFormat(m.clone()),
        FailureType::IoError(m) => FailureType::IoError(m.clone()),
        FailureType::InternalError(m) => FailureType::InternalError(m.clone()),
    }
}

/// Folds the reports of a chain into one verdict.
pub fn fold_outcomes(outcomes: &Vec<Result<Confidence, FailureType>>) -> (verdict: Verdict)
    ensures
        verdict@ == verdict_of(outcome_views(outcomes@)),
{
    let ghost views = outcome_views(outcomes@);
    let mut noted: Vec<FailureType> = Vec::new();
    let mut i: usize = 0;
    assert(noted.deep_view() =~= Seq::<FailureView>::empty());
    while i < outcomes.len()
        invariant
            views == outcome_views(outcomes@),
            i <= outcomes@.len(),
            verdict_of(views) == folded(views, i as int, noted.deep_view()),
        decreases outcomes@.len() - i,
    {
        let ghost before = noted.deep_view();
        assert(views[i as int] == outcome_view(outcomes@[i as int]));
        match &outcomes[i] {
            Ok(c) => {
                return Verdict::Verified(*c);
            },
            Err(FailureType::InvalidContent(m)) => {
                return Verdict::Corrupted(m.clone());
            },
            Err(FailureType::IoError(m)) => {
                return Verdict::IoFailure(m.clone());
            },
            Err(f) => {
                let copy = copy_failure(f);
                noted.push(copy);
                assert(noted.deep_view() =~= before.push(f@));
            },
        }
        i += 1;
    }
    Verdict::Unrecognized(noted)
}

/// Whether one of the reports ends the chain.
pub fn is_settled(outcomes: &Vec<Result<Confidence, FailureType>>) -> (yes: bool)
    ensures
        yes == settled(outcome_views(outcomes@)),
{
    let ghost views = outcome_views(outcomes@);
    let mut i: usize = 0;
    while i < outcomes.len()
        invariant
            views == outcome_views(outcomes@),
            i <= outcomes@.len(),
            forall|j: int| 0 <= j < i ==> !ends_chain(#[trigger] views[j]),
        decreases outcomes@.len() - i,
    {
        assert(views[i as int] == outcome_view(outcomes@[i as int]));
        let ends = match &outcomes[i] {
            Ok(_) => true,
            Err(FailureType::InvalidContent(_)) => true,
            Err(FailureType::IoError(_)) => true,
            Err(_) => false,
        };
        if ends {
            assert(ends_chain(views[i as int]));
            return true;
        }
        i += 1;
    }
    false
}

/// Says what is to be done next, after the first handlers of `chain` have
/// given `outcomes`: the caller runs the handler named and asks again with its
/// report added, until it is given the verdict.
pub fn next_action(chain: &Vec<String>, outcomes: &Vec<Result<Confidence, FailureType>>) -> (action:
    Action)
    ensures
        action@ == next_step(chain.deep_view(), outcome_views(outcomes@)),
{
    if is_settled(outcomes) || outcomes.len() >= chain.len() {
        Action::Done(fold_outcomes(outcomes))
    } else {
        Action::Invoke(chain[outcomes.len()].clone())
    }
}

} // verus!
