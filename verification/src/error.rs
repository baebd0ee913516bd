//! The call-time and teardown-time failures that the engine can raise.

use vstd::prelude::*;
use vstd::string::StringExecFns;

use crate::text::append_decimal;
use crate::text::decimal_digits;

verus! {

/// A failure raised while evaluating a call or while verifying counters at
/// release. Call-time failures are also latched into the failure mailbox.
pub enum MockError {
    /// A delegating responder was selected, but the caller asked for a plain
    /// evaluation that cannot fall through to a real implementation.
    CannotUnmock { name: String },
    /// No pattern set is registered for the function and the fallback policy
    /// is to fail fast.
    Unmockable { name: String },
    /// No pattern accepted the inputs of this call; the rendered inputs ride
    /// along for the report.
    NoMatchingPattern { name: String, inputs_text: String },
    /// The selected pattern has no responder declared at or below the current
    /// response step.
    NoOutputAvailable { name: String, pat_index: usize },
    /// A sequence-matched function was called more times than its patterns'
    /// ranges cover.
    SequenceOutOfRange { name: String, ordinal: usize },
    /// A responder that raises an explicit failure was selected.
    ExplicitFailure { name: String, message: String },
    /// The function was registered but never invoked.
    MockNeverCalled { name: String },
    /// One call pattern of the function was never selected.
    NeverApplied { name: String, pat_index: usize },
    /// One call pattern was selected fewer times than its declared minimum.
    Unfulfilled { name: String, pat_index: usize, minimum: usize, actual: usize },
}

/// The model of a [`MockError`]: names and messages as character sequences.
#[verifier::ext_equal]
pub enum MockErrorModel {
    CannotUnmock { name: Seq<char> },
    Unmockable { name: Seq<char> },
    NoMatchingPattern { name: Seq<char>, inputs_text: Seq<char> },
    NoOutputAvailable { name: Seq<char>, pat_index: nat },
    SequenceOutOfRange { name: Seq<char>, ordinal: nat },
    ExplicitFailure { name: Seq<char>, message: Seq<char> },
    MockNeverCalled { name: Seq<char> },
    NeverApplied { name: Seq<char>, pat_index: nat },
    Unfulfilled { name: Seq<char>, pat_index: nat, minimum: nat, actual: nat },
}

impl View for MockError {
    type V = MockErrorModel;

    open spec fn view(&self) -> MockErrorModel {
        match self {
            MockError::CannotUnmock { name } => MockErrorModel::CannotUnmock { name: name@ },
            MockError::Unmockable { name } => MockErrorModel::Unmockable { name: name@ },
            MockError::NoMatchingPattern { name, inputs_text } => {
                MockErrorModel::NoMatchingPattern { name: name@, inputs_text: inputs_text@ }
            },
            MockError::NoOutputAvailable { name, pat_index } => MockErrorModel::NoOutputAvailable {
                name: name@,
                pat_index: *pat_index as nat,
            },
            MockError::SequenceOutOfRange { name, ordinal } => MockErrorModel::SequenceOutOfRange {
                name: name@,
                ordinal: *ordinal as nat,
            },
            MockError::ExplicitFailure { name, message } => MockErrorModel::ExplicitFailure {
                name: name@,
                message: message@,
            },
            MockError::MockNeverCalled { name } => MockErrorModel::MockNeverCalled { name: name@ },
            MockError::NeverApplied { name, pat_index } => MockErrorModel::NeverApplied {
                name: name@,
                pat_index: *pat_index as nat,
            },
            MockError::Unfulfilled { name, pat_index, minimum, actual } => {
                MockErrorModel::Unfulfilled {
                    name: name@,
                    pat_index: *pat_index as nat,
                    minimum: *minimum as nat,
                    actual: *actual as nat,
                }
            },
        }
    }
}

/// The model of a collected error list.
pub open spec fn errors_model(es: Seq<MockError>) -> Seq<MockErrorModel> {
    es.map_values(|e: MockError| e@)
}


/// The report a call-time or teardown-time failure prints.
pub open spec fn error_message(e: MockErrorModel) -> Seq<char> {
    match e {
        MockErrorModel::CannotUnmock { name } => name + " cannot be unmocked"@,
        MockErrorModel::Unmockable { name } => "No mock implementation found for "@ + name,
        MockErrorModel::NoMatchingPattern { name, inputs_text } => name
            + ": No matching call patterns for "@ + inputs_text,
        MockErrorModel::NoOutputAvailable { name, pat_index } => name
            + ": No output available for call pattern #"@ + decimal_digits(pat_index),
        MockErrorModel::SequenceOutOfRange { name, ordinal } => name
            + ": No pattern assigned for call ordinal "@ + decimal_digits(ordinal),
        MockErrorModel::ExplicitFailure { name, message } => name + " panicked explicitly: "@
            + message,
        MockErrorModel::MockNeverCalled { name } => "Mock for "@ + name + " was never called"@,
        MockErrorModel::NeverApplied { name, pat_index } => name + ": Call pattern #"@
            + decimal_digits(pat_index) + " was never applied"@,
        MockErrorModel::Unfulfilled { name, pat_index, minimum, actual } => name
            + ": Call pattern #"@ + decimal_digits(pat_index) + " was expected at least "@
            + decimal_digits(minimum) + " time(s), but was actually called "@
            + decimal_digits(actual) + " time(s)"@,
    }
}

impl MockError {
    /// Renders this failure's human-readable report.
    pub fn message(&self) -> (r: String)
        ensures
            r@ == error_message(self@),
    {
        match self {
            MockError::CannotUnmock { name } => {
                let mut s = name.clone();
                s.append(" cannot be unmocked");
                s
            },
            MockError::Unmockable { name } => {
                let mut s = String::from_str("No mock implementation found for ");
                s.append(name.as_str());
                s
            },
            MockError::NoMatchingPattern { name, inputs_text } => {
                let mut s = name.clone();
                s.append(": No matching call patterns for ");
                s.append(inputs_text.as_str());
                s
            },
            MockError::NoOutputAvailable { name, pat_index } => {
                let mut s = name.clone();
                s.append(": No output available for call pattern #");
                append_decimal(&mut s, *pat_index as u64);
                s
            },
            MockError::SequenceOutOfRange { name, ordinal } => {
                let mut s = name.clone();
                s.append(": No pattern assigned for call ordinal ");
                append_decimal(&mut s, *ordinal as u64);
                s
            },
            MockError::ExplicitFailure { name, message } => {
                let mut s = name.clone();
                s.append(" panicked explicitly: ");
                s.append(message.as_str());
                s
            },
            MockError::MockNeverCalled { name } => {
                let mut s = String::from_str("Mock for ");
                s.append(name.as_str());
                s.append(" was never called");
                s
            },
            MockError::NeverApplied { name, pat_index } => {
                let mut s = name.clone();
                s.append(": Call pattern #");
                append_decimal(&mut s, *pat_index as u64);
                s.append(" was never applied");
                s
            },
            MockError::Unfulfilled { name, pat_index, minimum, actual } => {
                let mut s = name.clone();
                s.append(": Call pattern #");
                append_decimal(&mut s, *pat_index as u64);
                s.append(" was expected at least ");
                append_decimal(&mut s, *minimum as u64);
                s.append(" time(s), but was actually called ");
                append_decimal(&mut s, *actual as u64);
                s.append(" time(s)");
                s
            },
        }
    }
}


/// Produces a copy of a failure with the same model.
pub fn duplicate_error(e: &MockError) -> (r: MockError)
    ensures
        r@ == e@,
{
    match e {
        MockError::CannotUnmock { name } => MockError::CannotUnmock { name: name.clone() },
        MockError::Unmockable { name } => MockError::Unmockable { name: name.clone() },
        MockError::NoMatchingPattern { name, inputs_text } => MockError::NoMatchingPattern {
            name: name.clone(),
            inputs_text: inputs_text.clone(),
        },
        MockError::NoOutputAvailable { name, pat_index } => MockError::NoOutputAvailable {
            name: name.clone(),
            pat_index: *pat_index,
        },
        MockError::SequenceOutOfRange { name, ordinal } => MockError::SequenceOutOfRange {
            name: name.clone(),
            ordinal: *ordinal,
        },
        MockError::ExplicitFailure { name, message } => MockError::ExplicitFailure {
            name: name.clone(),
            message: message.clone(),
        },
        MockError::MockNeverCalled { name } => MockError::MockNeverCalled { name: name.clone() },
        MockError::NeverApplied { name, pat_index } => MockError::NeverApplied {
            name: name.clone(),
            pat_index: *pat_index,
        },
        MockError::Unfulfilled { name, pat_index, minimum, actual } => MockError::Unfulfilled {
            name: name.clone(),
            pat_index: *pat_index,
            minimum: *minimum,
            actual: *actual,
        },
    }
}

} // verus!
