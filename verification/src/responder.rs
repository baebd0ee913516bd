//! Responders: the action executed when a call pattern is selected. Each one
//! is declared at a response step; at per-pattern invocation ordinal `k` the
//! active responder is the one with the greatest declared step at or below
//! `k`, so responses form a non-decreasing staircase and the last declared
//! responder holds for all later calls.

use vstd::prelude::*;

use crate::value::Value;
use crate::value::ValueModel;
use crate::value::duplicate_value;
use crate::value::inputs_model;

verus! {

/// The action executed for one matched call.
pub enum Responder {
    /// Return a copy of a fixed value.
    Value(Value),
    /// Compute the output from the inputs: the wrapping sum of all integer
    /// arguments.
    SumInputs,
    /// Raise an explicit failure with the given message.
    Panic(String),
    /// Signal that the call should be delegated to the real implementation.
    Unmock,
}

/// A responder together with the response step at which it takes effect.
pub struct CallOrderResponder {
    pub response_index: usize,
    pub responder: Responder,
}

/// The model of a [`Responder`].
#[verifier::ext_equal]
pub enum ResponderModel {
    Value(ValueModel),
    SumInputs,
    Panic(Seq<char>),
    Unmock,
}

/// The model of a [`CallOrderResponder`].
#[verifier::ext_equal]
pub struct RespStepModel {
    pub step: nat,
    pub responder: ResponderModel,
}

impl View for Responder {
    type V = ResponderModel;

    open spec fn view(&self) -> ResponderModel {
        match self {
            Responder::Value(v) => ResponderModel::Value(v@),
            Responder::SumInputs => ResponderModel::SumInputs,
            Responder::Panic(m) => ResponderModel::Panic(m@),
            Responder::Unmock => ResponderModel::Unmock,
        }
    }
}

impl View for CallOrderResponder {
    type V = RespStepModel;

    open spec fn view(&self) -> RespStepModel {
        RespStepModel { step: self.response_index as nat, responder: self.responder@ }
    }
}

/// The model of a responder staircase.
pub open spec fn responders_model(rs: Seq<CallOrderResponder>) -> Seq<RespStepModel> {
    rs.map_values(|r: CallOrderResponder| r@)
}

/// The index of the active responder at invocation ordinal `k`: scanning from
/// the end, the first responder whose step is at or below `k`. On a staircase
/// with strictly increasing steps this is the greatest declared step `<= k`.
pub open spec fn active_step(rs: Seq<RespStepModel>, k: nat) -> Option<int>
    decreases rs.len(),
{
    if rs.len() == 0 {
        None
    } else if rs.last().step <= k {
        Some(rs.len() - 1)
    } else {
        active_step(rs.drop_last(), k)
    }
}

/// Finds the active responder index at invocation ordinal `k`.
pub fn find_active_step(rs: &Vec<CallOrderResponder>, k: usize) -> (r: Option<usize>)
    ensures
        match r {
            Some(i) => 0 <= i < rs.len() && active_step(responders_model(rs@), k as nat) == Some(
                i as int,
            ),
            None => active_step(responders_model(rs@), k as nat) is None,
        },
{
    let ghost rm = responders_model(rs@);
    proof {
        assert(rm.take(rs@.len() as int) =~= rm);
    }
    let mut j: usize = rs.len();
    while j > 0
        invariant
            0 <= j <= rs.len(),
            responders_model(rs@) == rm,
            rm.len() == rs.len(),
            active_step(rm, k as nat) == active_step(rm.take(j as int), k as nat),
        decreases j,
    {
        j = j - 1;
        if rs[j].response_index <= k {
            proof {
                assert(rm.take(j as int + 1).last() == rm[j as int]);
                assert(rm[j as int].step == rs@[j as int].response_index as nat);
            }
            return Some(j);
        }
        proof {
            assert(rm.take(j as int + 1).last() == rm[j as int]);
            assert(rm.take(j as int + 1).drop_last() =~= rm.take(j as int));
        }
    }
    proof {
        assert(rm.take(0) =~= Seq::<RespStepModel>::empty());
    }
    None
}

/// The outcome of executing one responder.
pub enum RespondOutcome {
    /// The call evaluated to this output value.
    Output(Value),
    /// The call should fall through to the real implementation.
    Delegate,
    /// The responder raised an explicit failure with this message.
    Failure(String),
}

/// The model of a [`RespondOutcome`].
#[verifier::ext_equal]
pub enum RespondOutcomeModel {
    Output(ValueModel),
    Delegate,
    Failure(Seq<char>),
}

impl View for RespondOutcome {
    type V = RespondOutcomeModel;

    open spec fn view(&self) -> RespondOutcomeModel {
        match self {
            RespondOutcome::Output(v) => RespondOutcomeModel::Output(v@),
            RespondOutcome::Delegate => RespondOutcomeModel::Delegate,
            RespondOutcome::Failure(m) => RespondOutcomeModel::Failure(m@),
        }
    }
}

/// The integer an argument contributes to a sum: its value for integers,
/// zero for every other kind.
pub open spec fn int_arg(v: ValueModel) -> i64 {
    match v {
        ValueModel::Int(i) => i,
        _ => 0i64,
    }
}

/// The wrapping sum of the integer arguments among the first `n` inputs.
pub open spec fn wrap_sum(inputs: Seq<ValueModel>, n: int) -> i64
    decreases n,
{
    if n <= 0 {
        0i64
    } else {
        vstd::wrapping::i64_specs::wrapping_add(wrap_sum(inputs, n - 1), int_arg(inputs[n - 1]))
    }
}

/// What executing a responder on an input snapshot produces.
pub open spec fn respond_model(r: ResponderModel, inputs: Seq<ValueModel>) -> RespondOutcomeModel {
    match r {
        ResponderModel::Value(v) => RespondOutcomeModel::Output(v),
        ResponderModel::SumInputs => RespondOutcomeModel::Output(
            ValueModel::Int(wrap_sum(inputs, inputs.len() as int)),
        ),
        ResponderModel::Panic(m) => RespondOutcomeModel::Failure(m),
        ResponderModel::Unmock => RespondOutcomeModel::Delegate,
    }
}

/// Executes a responder on an input snapshot.
pub fn respond(r: &Responder, inputs: &Vec<Value>) -> (out: RespondOutcome)
    ensures
        out@ == respond_model(r@, inputs_model(inputs@)),
{
    match r {
        Responder::Value(v) => RespondOutcome::Output(duplicate_value(v)),
        Responder::SumInputs => {
            let ghost vm = inputs_model(inputs@);
            let mut acc: i64 = 0;
            let mut i: usize = 0;
            while i < inputs.len()
                invariant
                    0 <= i <= inputs.len(),
                    inputs_model(inputs@) == vm,
                    vm.len() == inputs.len(),
                    acc == wrap_sum(vm, i as int),
                decreases inputs.len() - i,
            {
                let step = match &inputs[i] {
                    Value::Int(v) => *v,
                    _ => 0,
                };
                proof {
                    assert(vm[i as int] == inputs@[i as int]@);
                    assert(step == int_arg(vm[i as int]));
                }
                acc = acc.wrapping_add(step);
                i = i + 1;
            }
            RespondOutcome::Output(Value::Int(acc))
        },
        Responder::Panic(m) => RespondOutcome::Failure(m.clone()),
        Responder::Unmock => RespondOutcome::Delegate,
    }
}

} // verus!
