use vstd::prelude::*;
use crate::error::Error;
use crate::value::{value_model, Value, ValueModel};

verus! {

/// `atom?`: everything but a non-empty list is an atom.
pub fn pred_atom(v: &Vec<Value>) -> (r: Result<Value, Error>)
    requires
        v@.len() >= 1,
    ensures
        r matches Ok(out) && out@ == (match value_model(v@[0]) {
            ValueModel::List(items) => if items.len() == 0 {
                ValueModel::True
            } else {
                ValueModel::False
            },
            _ => ValueModel::True,
        }),
{
    match &v[0] {
        Value::List(items) => {
            proof {
                crate::value::lemma_model_seq(items@);
            }
            if items.len() == 0 {
                Ok(Value::True)
            } else {
                Ok(Value::False)
            }
        },
        _ => Ok(Value::True),
    }
}

/// `list?`: only a non-empty list answers `true`.
pub fn pred_list(v: &Vec<Value>) -> (r: Result<Value, Error>)
    requires
        v@.len() >= 1,
    ensures
        r matches Ok(out) && out@ == (match value_model(v@[0]) {
            ValueModel::List(items) => if items.len() > 0 {
                ValueModel::True
            } else {
                ValueModel::False
            },
            _ => ValueModel::False,
        }),
{
    match &v[0] {
        Value::List(items) => {
            proof {
                crate::value::lemma_model_seq(items@);
            }
            if items.len() > 0 {
                Ok(Value::True)
            } else {
                Ok(Value::False)
            }
        },
        _ => Ok(Value::False),
    }
}

/// `nil?`: `Nil` and the empty list both answer `true` — the dual empty
/// representation is deliberate.
pub fn pred_nil(v: &Vec<Value>) -> (r: Result<Value, Error>)
    requires
        v@.len() >= 1,
    ensures
        r matches Ok(out) && out@ == (match value_model(v@[0]) {
            ValueModel::Nil => ValueModel::True,
            ValueModel::List(items) => if items.len() == 0 {
                ValueModel::True
            } else {
                ValueModel::False
            },
            _ => ValueModel::False,
        }),
{
    match &v[0] {
        Value::Nil => Ok(Value::True),
        Value::List(items) => {
            proof {
                crate::value::lemma_model_seq(items@);
            }
            if items.len() == 0 {
                Ok(Value::True)
            } else {
                Ok(Value::False)
            }
        },
        _ => Ok(Value::False),
    }
}

/// `hash-map?`.
pub fn pred_hashmap(v: &Vec<Value>) -> (r: Result<Value, Error>)
    requires
        v@.len() >= 1,
    ensures
        r matches Ok(out) && out@ == (if value_model(v@[0]) is Hashmap {
            ValueModel::True
        } else {
            ValueModel::False
        }),
{
    match &v[0] {
        Value::Hashmap(_) => Ok(Value::True),
        _ => Ok(Value::False),
    }
}

/// `number?`.
pub fn pred_number(v: &Vec<Value>) -> (r: Result<Value, Error>)
    requires
        v@.len() >= 1,
    ensures
        r matches Ok(out) && out@ == (if value_model(v@[0]) is Num {
            ValueModel::True
        } else {
            ValueModel::False
        }),
{
    match &v[0] {
        Value::Num(_) => Ok(Value::True),
        _ => Ok(Value::False),
    }
}

/// `string?`.
pub fn pred_string(v: &Vec<Value>) -> (r: Result<Value, Error>)
    requires
        v@.len() >= 1,
    ensures
        r matches Ok(out) && out@ == (if value_model(v@[0]) is Str {
            ValueModel::True
        } else {
            ValueModel::False
        }),
{
    match &v[0] {
        Value::Str(_) => Ok(Value::True),
        _ => Ok(Value::False),
    }
}

/// `symbol?`.
pub fn pred_symbol(v: &Vec<Value>) -> (r: Result<Value, Error>)
    requires
        v@.len() >= 1,
    ensures
        r matches Ok(out) && out@ == (if value_model(v@[0]) is Sym {
            ValueModel::True
        } else {
            ValueModel::False
        }),
{
    match &v[0] {
        Value::Sym(_) => Ok(Value::True),
        _ => Ok(Value::False),
    }
}

/// `keyword?`.
pub fn pred_keyword(v: &Vec<Value>) -> (r: Result<Value, Error>)
    requires
        v@.len() >= 1,
    ensures
        r matches Ok(out) && out@ == (if value_model(v@[0]) is Keyword {
            ValueModel::True
        } else {
            ValueModel::False
        }),
{
    match &v[0] {
        Value::Keyword(_) => Ok(Value::True),
        _ => Ok(Value::False),
    }
}

/// `function?`: user closures and native procedures alike.
pub fn pred_function(v: &Vec<Value>) -> (r: Result<Value, Error>)
    requires
        v@.len() >= 1,
    ensures
        r matches Ok(out) && out@ == (match value_model(v@[0]) {
            ValueModel::Func { .. } => ValueModel::True,
            ValueModel::NatFunc(_) => ValueModel::True,
            _ => ValueModel::False,
        }),
{
    match &v[0] {
        Value::Func { .. } => Ok(Value::True),
        Value::NatFunc(_) => Ok(Value::True),
        _ => Ok(Value::False),
    }
}

} // verus!
