//! The plain value domain that mocked calls exchange: call inputs are a vector
//! of such values, and a responder produces one of them as the output.

use vstd::prelude::*;
use vstd::string::StringExecFns;

use crate::text::append_int;
use crate::text::int_text;

verus! {

/// One argument or return value of a mocked call.
pub enum Value {
    /// The unit value, for functions without a result.
    Unit,
    /// A boolean.
    Bool(bool),
    /// A signed integer.
    Int(i64),
    /// A text value.
    Text(String),
}

/// The mathematical model of a [`Value`]: text is a sequence of characters.
#[verifier::ext_equal]
pub enum ValueModel {
    Unit,
    Bool(bool),
    Int(i64),
    Text(Seq<char>),
}

impl View for Value {
    type V = ValueModel;

    open spec fn view(&self) -> ValueModel {
        match self {
            Value::Unit => ValueModel::Unit,
            Value::Bool(b) => ValueModel::Bool(*b),
            Value::Int(i) => ValueModel::Int(*i),
            Value::Text(s) => ValueModel::Text(s@),
        }
    }
}

/// The model of a snapshot of call inputs.
pub open spec fn inputs_model(inputs: Seq<Value>) -> Seq<ValueModel> {
    inputs.map_values(|v: Value| v@)
}

/// Decides equality of two values at the level of their models.
pub fn value_eq(a: &Value, b: &Value) -> (r: bool)
    ensures
        r == (a@ == b@),
{
    match (a, b) {
        (Value::Unit, Value::Unit) => true,
        (Value::Bool(x), Value::Bool(y)) => x == y,
        (Value::Int(x), Value::Int(y)) => x == y,
        (Value::Text(x), Value::Text(y)) => x.eq(y),
        _ => false,
    }
}

/// Produces a copy of a value with the same model.
pub fn duplicate_value(v: &Value) -> (r: Value)
    ensures
        r@ == v@,
{
    match v {
        Value::Unit => Value::Unit,
        Value::Bool(b) => Value::Bool(*b),
        Value::Int(i) => Value::Int(*i),
        Value::Text(s) => Value::Text(s.clone()),
    }
}


/// The rendering of one value in failure reports: unit as a pair of
/// parentheses, booleans and integers as usual, text in double quotes.
pub open spec fn value_text(v: ValueModel) -> Seq<char> {
    match v {
        ValueModel::Unit => "()"@,
        ValueModel::Bool(b) => if b {
            "true"@
        } else {
            "false"@
        },
        ValueModel::Int(i) => int_text(i as int),
        ValueModel::Text(t) => seq!['"'] + t + seq!['"'],
    }
}

/// The rendering of the first `n` values of a snapshot, comma-separated.
pub open spec fn args_text(vs: Seq<ValueModel>, n: int) -> Seq<char>
    decreases n,
{
    if n <= 0 {
        Seq::<char>::empty()
    } else if n == 1 {
        value_text(vs[0])
    } else {
        args_text(vs, n - 1) + ", "@ + value_text(vs[n - 1])
    }
}

/// The rendering of a whole input snapshot, in parentheses.
pub open spec fn inputs_text(vs: Seq<ValueModel>) -> Seq<char> {
    "("@ + args_text(vs, vs.len() as int) + ")"@
}

fn append_value_text(s: &mut String, v: &Value)
    ensures
        final(s)@ == old(s)@ + value_text(v@),
{
    let ghost s0 = s@;
    match v {
        Value::Unit => {
            s.append("()");
        },
        Value::Bool(b) => {
            if *b {
                s.append("true");
            } else {
                s.append("false");
            }
        },
        Value::Int(i) => {
            append_int(s, *i);
        },
        Value::Text(t) => {
            s.append("\"");
            s.append(t.as_str());
            s.append("\"");
            proof {
                reveal_strlit("\"");
                assert(s@ =~= s0 + value_text(v@));
            }
        },
    }
}

/// Renders an input snapshot for failure reports.
pub fn render_inputs(inputs: &Vec<Value>) -> (r: String)
    ensures
        r@ == inputs_text(inputs_model(inputs@)),
{
    let ghost vm = inputs_model(inputs@);
    let mut s = String::from_str("(");
    let mut i: usize = 0;
    while i < inputs.len()
        invariant
            0 <= i <= inputs.len(),
            inputs_model(inputs@) == vm,
            vm.len() == inputs.len(),
            s@ == "("@ + args_text(vm, i as int),
        decreases inputs.len() - i,
    {
        if i > 0 {
            s.append(", ");
        }
        proof {
            assert(vm[i as int] == inputs@[i as int]@);
        }
        append_value_text(&mut s, &inputs[i]);
        proof {
            assert(s@ =~= "("@ + args_text(vm, i as int + 1));
        }
        i = i + 1;
    }
    s.append(")");
    proof {
        assert(s@ =~= inputs_text(vm));
    }
    s
}

} // verus!
