//! End-to-end scenarios: building an engine from clauses, evaluating calls
//! and releasing it.

use unimock::AssembleError;
use unimock::CallPattern;
use unimock::Clause;
use unimock::ConditionalEval;
use unimock::DynMockImpl;
use unimock::Exactness;
use unimock::FunctionKey;
use unimock::InputMatcher;
use unimock::MockError;
use unimock::PatternMatchMode;
use unimock::Responder;
use unimock::TypedMockImpl;
use unimock::Value;
use unimock::mock;
use unimock::spy;

fn unordered_clause(key: FunctionKey, pattern: CallPattern) -> Clause {
    Clause::new(DynMockImpl::new(
        TypedMockImpl::from_pattern(key, pattern),
        PatternMatchMode::InAnyOrder,
    ))
}

fn ordered_clause(key: FunctionKey, pattern: CallPattern) -> Clause {
    Clause::new(DynMockImpl::new(
        TypedMockImpl::from_pattern(key, pattern),
        PatternMatchMode::InOrder,
    ))
}

fn text(s: &str) -> Value {
    Value::Text(s.to_string())
}

#[test]
fn add_sums_inputs_and_release_succeeds() {
    let mut pattern = CallPattern::from_input_matcher(InputMatcher::Any);
    pattern.add_responder(0, Responder::SumInputs);
    pattern.quantify(1, Exactness::AtLeast);
    let key = FunctionKey::new(1, "add");
    let mut engine = mock(vec![unordered_clause(key, pattern)]).unwrap_or_else(|_| panic!());

    let key = FunctionKey::new(1, "add");
    let first = engine.eval(&key, vec![Value::Int(1), Value::Int(2)]);
    assert!(matches!(first, Ok(Value::Int(3))));
    let second = engine.eval(&key, vec![Value::Int(3), Value::Int(4)]);
    assert!(matches!(second, Ok(Value::Int(7))));

    assert!(engine.release().is_ok());
}

#[test]
fn greet_in_order_yields_a_then_b_then_out_of_range() {
    let key = || FunctionKey::new(7, "greet");
    let mut first = CallPattern::from_input_matcher(InputMatcher::Any);
    first.add_responder(0, Responder::Value(text("a")));
    first.quantify(1, Exactness::Exact);
    let mut second = CallPattern::from_input_matcher(InputMatcher::Any);
    second.add_responder(0, Responder::Value(text("b")));
    second.quantify(1, Exactness::Exact);

    let mut engine = mock(vec![ordered_clause(key(), first), ordered_clause(key(), second)])
        .unwrap_or_else(|_| panic!());

    let k = key();
    match engine.eval(&k, vec![]) {
        Ok(Value::Text(s)) => assert_eq!(s, "a"),
        _ => panic!("first ordered call should yield a"),
    }
    match engine.eval(&k, vec![]) {
        Ok(Value::Text(s)) => assert_eq!(s, "b"),
        _ => panic!("second ordered call should yield b"),
    }
    let third = engine.eval(&k, vec![]);
    assert!(matches!(third, Err(MockError::SequenceOutOfRange { ordinal: 2, .. })));

    // the failed third call was latched, so release replays it
    let released = engine.release();
    assert_eq!(
        released.err().as_deref(),
        Some("greet: No pattern assigned for call ordinal 2")
    );
}

#[test]
fn under_called_exact_pattern_reports_unfulfilled_on_release() {
    let mut pattern = CallPattern::from_input_matcher(InputMatcher::Any);
    pattern.add_responder(0, Responder::Value(Value::Unit));
    pattern.quantify(2, Exactness::Exact);
    let mut engine =
        mock(vec![unordered_clause(FunctionKey::new(3, "poke"), pattern)]).unwrap_or_else(|_| panic!());

    let k = FunctionKey::new(3, "poke");
    assert!(engine.eval(&k, vec![]).is_ok());

    let released = engine.release();
    assert_eq!(
        released.err().as_deref(),
        Some("poke: Call pattern #0 was expected at least 2 time(s), but was actually called 1 time(s)")
    );
}

#[test]
fn latched_failure_is_replayed_verbatim_on_release() {
    let mut engine = mock(vec![]).unwrap_or_else(|_| panic!());
    let k = FunctionKey::new(9, "absent");
    let err = engine.eval(&k, vec![Value::Int(5)]);
    let message = match err {
        Err(e) => {
            assert!(matches!(e, MockError::Unmockable { .. }));
            e.message()
        }
        Ok(_) => panic!("an unregistered function must not evaluate"),
    };
    assert_eq!(message, "No mock implementation found for absent");

    match engine.release() {
        Err(replayed) => assert_eq!(replayed, message),
        Ok(()) => panic!("release must replay the latched failure"),
    }
}

#[test]
fn first_latched_failure_wins() {
    let mut engine = mock(vec![]).unwrap_or_else(|_| panic!());
    let first = engine.eval(&FunctionKey::new(1, "one"), vec![]);
    let second = engine.eval(&FunctionKey::new(2, "two"), vec![]);
    assert!(first.is_err());
    assert!(second.is_err());
    assert_eq!(
        engine.release().err().as_deref(),
        Some("No mock implementation found for one")
    );
}

#[test]
fn never_called_function_is_reported_on_release() {
    let mut pattern = CallPattern::from_input_matcher(InputMatcher::Any);
    pattern.add_responder(0, Responder::Value(Value::Unit));
    let engine =
        mock(vec![unordered_clause(FunctionKey::new(4, "quiet"), pattern)]).unwrap_or_else(|_| panic!());
    let released = engine.release();
    assert_eq!(
        released.err().as_deref(),
        Some("Mock for quiet was never called\nquiet: Call pattern #0 was never applied")
    );
}

#[test]
fn spy_hands_inputs_back_for_unregistered_functions() {
    let mut engine = spy(vec![]).unwrap_or_else(|_| panic!());
    let k = FunctionKey::new(11, "real");
    match engine.conditional_eval(&k, vec![Value::Int(42)]) {
        Ok(ConditionalEval::No(inputs)) => {
            assert!(matches!(inputs.as_slice(), [Value::Int(42)]));
        }
        _ => panic!("a spy must hand unregistered calls back"),
    }
    // nothing was latched and nothing is owed
    assert!(engine.release().is_ok());
}

#[test]
fn plain_eval_cannot_honour_delegation() {
    let mut pattern = CallPattern::from_input_matcher(InputMatcher::Any);
    pattern.add_responder(0, Responder::Unmock);
    let mut engine =
        mock(vec![unordered_clause(FunctionKey::new(5, "deleg"), pattern)]).unwrap_or_else(|_| panic!());
    let k = FunctionKey::new(5, "deleg");
    let r = engine.eval(&k, vec![]);
    assert!(matches!(r, Err(MockError::CannotUnmock { .. })));
}

#[test]
fn conditional_eval_returns_delegation_signal() {
    let mut pattern = CallPattern::from_input_matcher(InputMatcher::Any);
    pattern.add_responder(0, Responder::Unmock);
    let mut engine =
        mock(vec![unordered_clause(FunctionKey::new(5, "deleg"), pattern)]).unwrap_or_else(|_| panic!());
    let k = FunctionKey::new(5, "deleg");
    match engine.conditional_eval(&k, vec![Value::Bool(true)]) {
        Ok(ConditionalEval::No(inputs)) => {
            assert!(matches!(inputs.as_slice(), [Value::Bool(true)]));
        }
        _ => panic!("a delegating responder must hand the inputs back"),
    }
}

#[test]
fn panic_responder_fails_with_its_message() {
    let mut pattern = CallPattern::from_input_matcher(InputMatcher::Any);
    pattern.add_responder(0, Responder::Panic("boom".to_string()));
    let mut engine =
        mock(vec![unordered_clause(FunctionKey::new(6, "kaboom"), pattern)]).unwrap_or_else(|_| panic!());
    let k = FunctionKey::new(6, "kaboom");
    match engine.eval(&k, vec![]) {
        Err(e @ MockError::ExplicitFailure { .. }) => {
            assert_eq!(e.message(), "kaboom panicked explicitly: boom");
        }
        _ => panic!("a panic responder must fail the call"),
    }
}

#[test]
fn pattern_without_responder_reports_no_output() {
    let pattern = CallPattern::from_input_matcher(InputMatcher::Any);
    let mut engine =
        mock(vec![unordered_clause(FunctionKey::new(8, "mute"), pattern)]).unwrap_or_else(|_| panic!());
    let k = FunctionKey::new(8, "mute");
    let r = engine.eval(&k, vec![]);
    assert!(matches!(r, Err(MockError::NoOutputAvailable { pat_index: 0, .. })));
}

#[test]
fn incompatible_match_modes_fail_assembly() {
    let mut a = CallPattern::from_input_matcher(InputMatcher::Any);
    a.add_responder(0, Responder::Value(Value::Unit));
    let mut b = CallPattern::from_input_matcher(InputMatcher::Any);
    b.add_responder(0, Responder::Value(Value::Unit));
    b.quantify(1, Exactness::Exact);

    let key = || FunctionKey::new(12, "mixed");
    let r = mock(vec![unordered_clause(key(), a), ordered_clause(key(), b)]);
    match r {
        Err(e @ AssembleError::IncompatiblePatternMatchMode { .. }) => {
            assert_eq!(
                e.to_string(),
                "A clause mixed has already been registered as a InAnyOrder, \
                 but got re-registered as a InOrder. They cannot be mixed."
            );
        }
        _ => panic!("mixing match modes must fail assembly"),
    }
}

#[test]
fn ordered_pattern_without_exact_quota_fails_assembly() {
    let mut pattern = CallPattern::from_input_matcher(InputMatcher::Any);
    pattern.add_responder(0, Responder::Value(Value::Unit));
    pattern.quantify(1, Exactness::AtLeast);
    let r = mock(vec![ordered_clause(FunctionKey::new(13, "loose"), pattern)]);
    match r {
        Err(e @ AssembleError::MockHasNoExactExpectation { .. }) => {
            assert_eq!(
                e.to_string(),
                "loose mock has no exact count expectation, which is needed for a mock."
            );
        }
        _ => panic!("sequence matching needs exact quotas"),
    }
}

#[test]
fn ordered_matcher_rejection_fails_without_skipping() {
    let mut pattern = CallPattern::from_input_matcher(InputMatcher::PerArg(vec![
        unimock::ArgMatcher::EqArg(Value::Int(1)),
    ]));
    pattern.add_responder(0, Responder::Value(Value::Unit));
    pattern.quantify(1, Exactness::Exact);
    let mut engine =
        mock(vec![ordered_clause(FunctionKey::new(14, "strict"), pattern)]).unwrap_or_else(|_| panic!());
    let k = FunctionKey::new(14, "strict");
    let r = engine.eval(&k, vec![Value::Int(2)]);
    assert!(matches!(r, Err(MockError::NoMatchingPattern { .. })));
    // the rejected call did not consume the ordinal
    let r2 = engine.eval(&k, vec![Value::Int(1)]);
    assert!(matches!(r2, Ok(Value::Unit)));
}

#[test]
fn spy_clauses_override_the_delegating_default() {
    let mut pattern = CallPattern::from_input_matcher(InputMatcher::Any);
    pattern.add_responder(0, Responder::Value(Value::Int(99)));
    let mut engine =
        spy(vec![unordered_clause(FunctionKey::new(15, "covered"), pattern)]).unwrap_or_else(|_| panic!());
    // the registered function answers from its pattern
    let covered = engine.conditional_eval(&FunctionKey::new(15, "covered"), vec![]);
    assert!(matches!(covered, Ok(ConditionalEval::Yes(Value::Int(99)))));
    // an unregistered one falls through, but a plain eval cannot honour that
    let bare = engine.eval(&FunctionKey::new(16, "bare"), vec![]);
    assert!(matches!(bare, Err(MockError::CannotUnmock { .. })));
}
