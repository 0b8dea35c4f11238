use verify_files::builtin_handlers::{Confidence, FailureType};
use verify_files::dispatch::{fold_outcomes, is_settled, next_action, Action, Verdict};

fn unsupported(m: &str) -> Result<Confidence, FailureType> {
    Err(FailureType::UnsupportedFormat(m.to_string()))
}

fn invalid(m: &str) -> Result<Confidence, FailureType> {
    Err(FailureType::InvalidContent(m.to_string()))
}

fn internal(m: &str) -> Result<Confidence, FailureType> {
    Err(FailureType::InternalError(m.to_string()))
}

fn io(m: &str) -> Result<Confidence, FailureType> {
    Err(FailureType::IoError(m.to_string()))
}

#[test]
fn only_unsupported_is_unrecognized() {
    assert_eq!(
        fold_outcomes(&vec![unsupported("a"), unsupported("b")]),
        Verdict::Unrecognized(vec![
            FailureType::UnsupportedFormat("a".to_string()),
            FailureType::UnsupportedFormat("b".to_string())
        ])
    );
    assert_eq!(fold_outcomes(&vec![]), Verdict::Unrecognized(vec![]));
}

#[test]
fn invalid_content_ends_the_chain() {
    assert_eq!(
        fold_outcomes(&vec![unsupported("a"), invalid("broken")]),
        Verdict::Corrupted("broken".to_string())
    );
    assert_eq!(
        fold_outcomes(&vec![invalid("broken"), Ok(Confidence::FullHash)]),
        Verdict::Corrupted("broken".to_string())
    );
    assert_eq!(
        fold_outcomes(&vec![invalid("first"), invalid("second")]),
        Verdict::Corrupted("first".to_string())
    );
}

#[test]
fn io_error_ends_the_chain() {
    assert_eq!(
        fold_outcomes(&vec![internal("a"), io("denied"), Ok(Confidence::DataHash)]),
        Verdict::IoFailure("denied".to_string())
    );
}

#[test]
fn internal_error_is_noted_and_passed() {
    assert_eq!(
        fold_outcomes(&vec![internal("crashed"), unsupported("b")]),
        Verdict::Unrecognized(vec![
            FailureType::InternalError("crashed".to_string()),
            FailureType::UnsupportedFormat("b".to_string())
        ])
    );
}

#[test]
fn success_carries_the_confidence_reached() {
    assert_eq!(
        fold_outcomes(&vec![unsupported("strong one"), Ok(Confidence::WellFormed)]),
        Verdict::Verified(Confidence::WellFormed)
    );
    assert_eq!(
        fold_outcomes(&vec![Ok(Confidence::DataHash), Ok(Confidence::FullHash)]),
        Verdict::Verified(Confidence::DataHash)
    );
}

#[test]
fn settled_once_a_report_ends_the_chain() {
    assert!(!is_settled(&vec![]));
    assert!(!is_settled(&vec![unsupported("a"), internal("b")]));
    assert!(is_settled(&vec![unsupported("a"), Ok(Confidence::WellFormed)]));
    assert!(is_settled(&vec![invalid("a")]));
    assert!(is_settled(&vec![io("a")]));
}

#[test]
fn chain_is_walked_step_by_step() {
    let chain = vec!["zip".to_string(), "sevenzip".to_string()];
    let mut reports = vec![];
    assert_eq!(next_action(&chain, &reports), Action::Invoke("zip".to_string()));
    reports.push(unsupported("method"));
    assert_eq!(next_action(&chain, &reports), Action::Invoke("sevenzip".to_string()));
    reports.push(Ok(Confidence::WellFormed));
    assert_eq!(
        next_action(&chain, &reports),
        Action::Done(Verdict::Verified(Confidence::WellFormed))
    );

    let reports = vec![invalid("bad")];
    assert_eq!(
        next_action(&chain, &reports),
        Action::Done(Verdict::Corrupted("bad".to_string()))
    );
    let reports = vec![unsupported("a"), internal("b")];
    assert_eq!(
        next_action(&chain, &reports),
        Action::Done(Verdict::Unrecognized(vec![
            FailureType::UnsupportedFormat("a".to_string()),
            FailureType::InternalError("b".to_string())
        ]))
    );
    assert_eq!(next_action(&vec![], &vec![]), Action::Done(Verdict::Unrecognized(vec![])));
}
