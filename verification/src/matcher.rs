//! Input matchers: pure predicates over a snapshot of call inputs, represented
//! as data so that what a matcher accepts is fixed by its value alone.

use vstd::prelude::*;

use crate::value::Value;
use crate::value::ValueModel;
use crate::value::inputs_model;
use crate::value::value_eq;

verus! {

/// A predicate over a single argument.
pub enum ArgMatcher {
    /// Accepts any argument.
    AnyArg,
    /// Accepts exactly the arguments whose model equals the stored value's.
    EqArg(Value),
}

/// A predicate over a whole input snapshot.
pub enum InputMatcher {
    /// Accepts every snapshot.
    Any,
    /// Accepts snapshots of the same length whose arguments each satisfy the
    /// matcher at their position.
    PerArg(Vec<ArgMatcher>),
}

/// The model of an [`ArgMatcher`].
#[verifier::ext_equal]
pub enum ArgMatcherModel {
    AnyArg,
    EqArg(ValueModel),
}

/// The model of a list of argument matchers.
pub open spec fn arg_matchers_model(ms: Seq<ArgMatcher>) -> Seq<ArgMatcherModel> {
    ms.map_values(|m: ArgMatcher| m@)
}

/// The model of an [`InputMatcher`].
#[verifier::ext_equal]
pub enum InputMatcherModel {
    Any,
    PerArg(Seq<ArgMatcherModel>),
}

impl View for ArgMatcher {
    type V = ArgMatcherModel;

    open spec fn view(&self) -> ArgMatcherModel {
        match self {
            ArgMatcher::AnyArg => ArgMatcherModel::AnyArg,
            ArgMatcher::EqArg(v) => ArgMatcherModel::EqArg(v@),
        }
    }
}

impl View for InputMatcher {
    type V = InputMatcherModel;

    open spec fn view(&self) -> InputMatcherModel {
        match self {
            InputMatcher::Any => InputMatcherModel::Any,
            InputMatcher::PerArg(ms) => InputMatcherModel::PerArg(arg_matchers_model(ms@)),
        }
    }
}

/// Whether one argument matcher accepts one argument.
pub open spec fn arg_accepts(m: ArgMatcherModel, v: ValueModel) -> bool {
    match m {
        ArgMatcherModel::AnyArg => true,
        ArgMatcherModel::EqArg(w) => v == w,
    }
}

/// Whether an input matcher accepts an input snapshot.
pub open spec fn matcher_accepts(m: InputMatcherModel, inputs: Seq<ValueModel>) -> bool {
    match m {
        InputMatcherModel::Any => true,
        InputMatcherModel::PerArg(ms) => ms.len() == inputs.len() && forall|i: int|
            0 <= i < ms.len() ==> #[trigger] arg_accepts(ms[i], inputs[i]),
    }
}

/// Evaluates an input matcher on an input snapshot.
pub fn matches_inputs(m: &InputMatcher, inputs: &Vec<Value>) -> (r: bool)
    ensures
        r == matcher_accepts(m@, inputs_model(inputs@)),
{
    match m {
        InputMatcher::Any => true,
        InputMatcher::PerArg(ms) => {
            if ms.len() != inputs.len() {
                return false;
            }
            let ghost mm = arg_matchers_model(ms@);
            let ghost vm = inputs_model(inputs@);
            let mut i: usize = 0;
            while i < ms.len()
                invariant
                    0 <= i <= ms.len(),
                    m@ == InputMatcherModel::PerArg(mm),
                    arg_matchers_model(ms@) == mm,
                    inputs_model(inputs@) == vm,
                    ms.len() == inputs.len(),
                    mm.len() == vm.len(),
                    forall|j: int| 0 <= j < i ==> arg_accepts(mm[j], #[trigger] vm[j]),
                decreases ms.len() - i,
            {
                let ok = match &ms[i] {
                    ArgMatcher::AnyArg => true,
                    ArgMatcher::EqArg(w) => value_eq(&inputs[i], w),
                };
                if !ok {
                    proof {
                        assert(!arg_accepts(mm[i as int], vm[i as int]));
                        if matcher_accepts(m@, inputs_model(inputs@)) {
                            assert(m@->PerArg_0 == mm);
                            assert(arg_accepts(mm[i as int], vm[i as int]));
                        }
                    }
                    return false;
                }
                i = i + 1;
            }
            true
        },
    }
}

} // verus!
