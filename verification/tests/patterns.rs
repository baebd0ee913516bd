//! Pattern-level behaviour: counters, matchers, responder staircases and
//! unordered selection.

use unimock::ArgMatcher;
use unimock::CallCounter;
use unimock::CallPattern;
use unimock::Clause;
use unimock::DynMockImpl;
use unimock::Exactness;
use unimock::FunctionKey;
use unimock::InputMatcher;
use unimock::MockError;
use unimock::PatternMatchMode;
use unimock::Responder;
use unimock::TypedMockImpl;
use unimock::Value;
use unimock::matches_inputs;
use unimock::mock;
use unimock::value_eq;

fn unordered_clause(key: FunctionKey, patterns: Vec<CallPattern>) -> Clause {
    Clause::new(DynMockImpl::new(
        TypedMockImpl::from_stub_patterns(key, patterns),
        PatternMatchMode::InAnyOrder,
    ))
}

fn text(s: &str) -> Value {
    Value::Text(s.to_string())
}

#[test]
fn counter_verify_flags_never_applied_iff_no_calls() {
    let counter = CallCounter { minimum: 0, exactness: Exactness::AtLeast, actual: 0 };
    let mut errors: Vec<MockError> = Vec::new();
    counter.verify("f", 0, &mut errors);
    assert_eq!(errors.len(), 1);
    assert!(matches!(&errors[0], MockError::NeverApplied { pat_index: 0, .. }));
}

#[test]
fn counter_verify_flags_unfulfilled_iff_under_minimum() {
    let counter = CallCounter { minimum: 3, exactness: Exactness::AtLeast, actual: 2 };
    let mut errors: Vec<MockError> = Vec::new();
    counter.verify("f", 1, &mut errors);
    assert_eq!(errors.len(), 1);
    assert!(matches!(
        &errors[0],
        MockError::Unfulfilled { pat_index: 1, minimum: 3, actual: 2, .. }
    ));
}

#[test]
fn counter_verify_is_silent_at_or_above_minimum() {
    let counter = CallCounter { minimum: 2, exactness: Exactness::Exact, actual: 2 };
    let mut errors: Vec<MockError> = Vec::new();
    counter.verify("f", 0, &mut errors);
    assert!(errors.is_empty());
    let counter = CallCounter { minimum: 2, exactness: Exactness::AtLeast, actual: 5 };
    counter.verify("f", 0, &mut errors);
    assert!(errors.is_empty());
}

#[test]
fn counter_pending_step_raises_the_required_minimum_by_one() {
    // an unquantified follow-up response step demands one extra call
    let counter = CallCounter { minimum: 1, exactness: Exactness::AtLeastPlusOne, actual: 1 };
    let mut errors: Vec<MockError> = Vec::new();
    counter.verify("f", 0, &mut errors);
    assert_eq!(errors.len(), 1);
    assert!(matches!(&errors[0], MockError::Unfulfilled { minimum: 1, actual: 1, .. }));
}

#[test]
fn counter_fetch_add_returns_pre_increment_ordinal() {
    let mut counter = CallCounter::new(0, Exactness::AtLeast);
    assert_eq!(counter.fetch_add(), 0);
    assert_eq!(counter.fetch_add(), 1);
    assert_eq!(counter.actual, 2);
}

#[test]
fn add_to_minimum_merges_exactness_without_downgrading() {
    let mut counter = CallCounter::new(0, Exactness::AtLeast);
    counter.add_to_minimum(1, Exactness::Exact);
    assert_eq!(counter.minimum, 1);
    assert!(matches!(counter.exactness, Exactness::Exact));
    // a pending follow-up step keeps the exact base but adds a floor
    counter.add_to_minimum(0, Exactness::AtLeastPlusOne);
    assert!(matches!(counter.exactness, Exactness::AtLeastPlusOne));
    // quantifying the follow-up re-pins exactness
    counter.add_to_minimum(1, Exactness::Exact);
    assert_eq!(counter.minimum, 2);
    assert!(matches!(counter.exactness, Exactness::Exact));
    assert_eq!(counter.get_expected_exact_count(), Some(2));
}

#[test]
fn matcher_matches_per_argument() {
    let m = InputMatcher::PerArg(vec![
        ArgMatcher::EqArg(text("a")),
        ArgMatcher::AnyArg,
        ArgMatcher::EqArg(Value::Int(42)),
    ]);
    assert!(matches_inputs(&m, &vec![text("a"), text("x"), Value::Int(42)]));
    assert!(!matches_inputs(&m, &vec![text("b"), text("x"), Value::Int(42)]));
    assert!(!matches_inputs(&m, &vec![text("a"), text("x")]));
    assert!(matches_inputs(&InputMatcher::Any, &vec![]));
}

#[test]
fn values_compare_by_content() {
    assert!(value_eq(&text("foo"), &text("foo")));
    assert!(!value_eq(&text("foo"), &text("too")));
    assert!(!value_eq(&Value::Int(1), &Value::Bool(true)));
    assert!(value_eq(&Value::Unit, &Value::Unit));
}

#[test]
fn responder_staircase_holds_last_step() {
    // steps 0 and 2: ordinals 0,1 answer "a", from ordinal 2 on "b" holds
    let mut pattern = CallPattern::from_input_matcher(InputMatcher::Any);
    pattern.add_responder(0, Responder::Value(text("a")));
    pattern.add_responder(2, Responder::Value(text("b")));
    pattern.quantify(1, Exactness::AtLeast);
    let mut engine = mock(vec![unordered_clause(
        FunctionKey::new(21, "stairs"),
        vec![pattern],
    )])
    .unwrap_or_else(|_| panic!());
    let k = FunctionKey::new(21, "stairs");
    let expect = ["a", "a", "b", "b"];
    for want in expect {
        match engine.eval(&k, vec![]) {
            Ok(Value::Text(s)) => assert_eq!(s, want),
            _ => panic!("staircase output missing"),
        }
    }
    assert!(engine.release().is_ok());
}

#[test]
fn exhausted_exact_pattern_is_skipped_in_unordered_mode() {
    let mut first = CallPattern::from_input_matcher(InputMatcher::Any);
    first.add_responder(0, Responder::Value(Value::Int(1)));
    first.quantify(1, Exactness::Exact);
    let mut second = CallPattern::from_input_matcher(InputMatcher::Any);
    second.add_responder(0, Responder::Value(Value::Int(2)));
    second.quantify(1, Exactness::AtLeast);
    let mut engine = mock(vec![unordered_clause(
        FunctionKey::new(22, "pick"),
        vec![first, second],
    )])
    .unwrap_or_else(|_| panic!());
    let k = FunctionKey::new(22, "pick");
    assert!(matches!(engine.eval(&k, vec![]), Ok(Value::Int(1))));
    assert!(matches!(engine.eval(&k, vec![]), Ok(Value::Int(2))));
    assert!(matches!(engine.eval(&k, vec![]), Ok(Value::Int(2))));
    assert!(engine.release().is_ok());
}

#[test]
fn unordered_selection_is_repeatable() {
    // with counters frozen (no exact quotas), the same input selects the
    // same pattern again and again
    let mut first = CallPattern::from_input_matcher(InputMatcher::PerArg(vec![
        ArgMatcher::EqArg(Value::Int(1)),
    ]));
    first.add_responder(0, Responder::Value(text("one")));
    let mut second = CallPattern::from_input_matcher(InputMatcher::Any);
    second.add_responder(0, Responder::Value(text("any")));
    let mut engine = mock(vec![unordered_clause(
        FunctionKey::new(23, "route"),
        vec![first, second],
    )])
    .unwrap_or_else(|_| panic!());
    let k = FunctionKey::new(23, "route");
    for _ in 0..3 {
        match engine.eval(&k, vec![Value::Int(1)]) {
            Ok(Value::Text(s)) => assert_eq!(s, "one"),
            _ => panic!("first pattern must keep winning"),
        }
    }
    for _ in 0..3 {
        match engine.eval(&k, vec![Value::Int(9)]) {
            Ok(Value::Text(s)) => assert_eq!(s, "any"),
            _ => panic!("fallback pattern must keep winning"),
        }
    }
}

#[test]
fn no_matching_pattern_names_the_function() {
    let mut pattern = CallPattern::from_input_matcher(InputMatcher::PerArg(vec![
        ArgMatcher::EqArg(text("foo@bar")),
    ]));
    pattern.add_responder(0, Responder::Value(Value::Unit));
    let mut engine = mock(vec![unordered_clause(
        FunctionKey::new(24, "newtype"),
        vec![pattern],
    )])
    .unwrap_or_else(|_| panic!());
    let k = FunctionKey::new(24, "newtype");
    assert!(matches!(engine.eval(&k, vec![text("foo@bar")]), Ok(Value::Unit)));
    match engine.eval(&k, vec![text("other")]) {
        Err(e @ MockError::NoMatchingPattern { .. }) => {
            assert_eq!(e.message(), "newtype: No matching call patterns for (\"other\")");
        }
        _ => panic!("a mismatched input must not match"),
    }
}

#[test]
fn sum_responder_wraps_on_overflow() {
    let mut pattern = CallPattern::from_input_matcher(InputMatcher::Any);
    pattern.add_responder(0, Responder::SumInputs);
    let mut engine = mock(vec![unordered_clause(
        FunctionKey::new(25, "sum"),
        vec![pattern],
    )])
    .unwrap_or_else(|_| panic!());
    let k = FunctionKey::new(25, "sum");
    let r = engine.eval(&k, vec![Value::Int(i64::MAX), Value::Int(1)]);
    assert!(matches!(r, Ok(Value::Int(i64::MIN))));
    // non-integer arguments contribute nothing
    let r = engine.eval(&k, vec![Value::Int(5), Value::Bool(true), Value::Int(7)]);
    assert!(matches!(r, Ok(Value::Int(12))));
}

#[test]
fn mock_with_two_functions_routes_by_key() {
    let mut a = CallPattern::from_input_matcher(InputMatcher::Any);
    a.add_responder(0, Responder::Value(Value::Int(10)));
    let mut b = CallPattern::from_input_matcher(InputMatcher::Any);
    b.add_responder(0, Responder::Value(Value::Int(20)));
    let mut engine = mock(vec![
        unordered_clause(FunctionKey::new(31, "ten"), vec![a]),
        unordered_clause(FunctionKey::new(32, "twenty"), vec![b]),
    ])
    .unwrap_or_else(|_| panic!());
    assert!(matches!(engine.eval(&FunctionKey::new(32, "twenty"), vec![]), Ok(Value::Int(20))));
    assert!(matches!(engine.eval(&FunctionKey::new(31, "ten"), vec![]), Ok(Value::Int(10))));
}

#[test]
fn merging_unordered_clauses_unions_their_patterns() {
    let key = || FunctionKey::new(33, "union");
    let mut a = CallPattern::from_input_matcher(InputMatcher::PerArg(vec![
        ArgMatcher::EqArg(Value::Int(1)),
    ]));
    a.add_responder(0, Responder::Value(text("first")));
    let mut b = CallPattern::from_input_matcher(InputMatcher::Any);
    b.add_responder(0, Responder::Value(text("second")));
    let mut engine = mock(vec![
        unordered_clause(key(), vec![a]),
        unordered_clause(key(), vec![b]),
    ])
    .unwrap_or_else(|_| panic!());
    let k = key();
    match engine.eval(&k, vec![Value::Int(2)]) {
        Ok(Value::Text(s)) => assert_eq!(s, "second"),
        _ => panic!("the appended pattern must be reachable"),
    }
    match engine.eval(&k, vec![Value::Int(1)]) {
        Ok(Value::Text(s)) => assert_eq!(s, "first"),
        _ => panic!("the declared-first pattern must win"),
    }
}

#[test]
fn merged_ordered_clauses_extend_the_timeline() {
    let key = || FunctionKey::new(34, "serial");
    let mut a = CallPattern::from_input_matcher(InputMatcher::Any);
    a.add_responder(0, Responder::Value(Value::Int(1)));
    a.quantify(2, Exactness::Exact);
    let mut b = CallPattern::from_input_matcher(InputMatcher::Any);
    b.add_responder(0, Responder::Value(Value::Int(2)));
    b.quantify(1, Exactness::Exact);
    let mut engine = mock(vec![
        Clause::new(DynMockImpl::new(
            TypedMockImpl::from_pattern(key(), a),
            PatternMatchMode::InOrder,
        )),
        Clause::new(DynMockImpl::new(
            TypedMockImpl::from_pattern(key(), b),
            PatternMatchMode::InOrder,
        )),
    ])
    .unwrap_or_else(|_| panic!());
    let k = key();
    assert!(matches!(engine.eval(&k, vec![]), Ok(Value::Int(1))));
    assert!(matches!(engine.eval(&k, vec![]), Ok(Value::Int(1))));
    assert!(matches!(engine.eval(&k, vec![]), Ok(Value::Int(2))));
    assert!(matches!(engine.eval(&k, vec![]), Err(MockError::SequenceOutOfRange { .. })));
}

#[test]
fn unfulfilled_report_renders_multi_digit_counts() {
    let mut pattern = CallPattern::from_input_matcher(InputMatcher::Any);
    pattern.add_responder(0, Responder::Value(Value::Unit));
    pattern.quantify(12, Exactness::AtLeast);
    let mut engine = mock(vec![unordered_clause(
        FunctionKey::new(26, "busy"),
        vec![pattern],
    )])
    .unwrap_or_else(|_| panic!());
    let k = FunctionKey::new(26, "busy");
    assert!(engine.eval(&k, vec![]).is_ok());
    assert_eq!(
        engine.release().err().as_deref(),
        Some("busy: Call pattern #0 was expected at least 12 time(s), but was actually called 1 time(s)")
    );
}

#[test]
fn no_match_report_renders_every_value_kind() {
    let mut pattern = CallPattern::from_input_matcher(InputMatcher::PerArg(vec![
        ArgMatcher::EqArg(Value::Int(0)),
    ]));
    pattern.add_responder(0, Responder::Value(Value::Unit));
    let mut engine = mock(vec![unordered_clause(
        FunctionKey::new(27, "fussy"),
        vec![pattern],
    )])
    .unwrap_or_else(|_| panic!());
    let k = FunctionKey::new(27, "fussy");
    match engine.eval(&k, vec![Value::Int(-57), Value::Bool(true), Value::Unit, text("hey")]) {
        Err(e @ MockError::NoMatchingPattern { .. }) => {
            assert_eq!(
                e.message(),
                "fussy: No matching call patterns for (-57, true, (), \"hey\")"
            );
        }
        _ => panic!("mismatched inputs must not match"),
    }
}
