use vstd::prelude::*;
use vstd::string::StringExecFns;
use crate::error::Error;
use crate::names::NamePool;
use crate::value::{copy_value, lemma_model_seq, model_seq, value_model, Value, ValueModel};

verus! {

/// Whether a struct model carries the given tag; never errors on mismatch.
pub open spec fn struct_is_model(s: ValueModel, tag: int) -> bool {
    match s {
        ValueModel::Struct(t, _) => t == tag,
        _ => false,
    }
}

/// `make-struct`: a nominal tagged tuple from an identifying symbol and its
/// fields in argument order.
pub fn core_make_struct(v: &Vec<Value>) -> (r: Result<Value, Error>)
    requires
        v@.len() >= 1,
    ensures
        (match value_model(v@[0]) {
            ValueModel::Sym(n) => r matches Ok(out)
                && out@ == ValueModel::Struct(n, model_seq(v@).skip(1)),
            _ => r matches Err(Error::DomainError { .. }),
        }),
{
    let tag = match &v[0] {
        Value::Sym(n) => *n,
        _ => {
            return Err(crate::error::domain_error("struct id must be a symbol"));
        },
    };
    proof {
        lemma_model_seq(v@);
    }
    let mut fields: Vec<Value> = Vec::new();
    let mut i: usize = 1;
    while i < v.len()
        invariant
            1 <= i <= v@.len(),
            fields@.len() == i - 1,
            forall|j: int| 0 <= j < fields@.len()
                ==> value_model(#[trigger] fields@[j]) == value_model(v@[j + 1]),
        decreases v@.len() - i,
    {
        let c = copy_value(&v[i]);
        fields.push(c);
        i += 1;
    }
    proof {
        lemma_model_seq(fields@);
        lemma_model_seq(v@);
        assert(model_seq(fields@) =~= model_seq(v@).skip(1));
    }
    Ok(Value::Struct(tag, fields))
}

/// `index-struct`: verifies the struct's tag against the given symbol, then
/// indexes its fields. The tag is checked before the index argument is even
/// looked at; a mismatch is a domain error whose message names both the
/// wanted and the found tag. An out-of-range index is a domain error; wrong
/// argument kinds are type errors.
pub fn core_member_struct(v: &Vec<Value>, pool: &NamePool) -> (r: Result<Value, Error>)
    requires
        v@.len() >= 3,
    ensures
        (match (value_model(v@[0]), value_model(v@[1])) {
            (ValueModel::Struct(tag, fields), ValueModel::Sym(want)) => {
                if tag != want {
                    r matches Err(Error::DomainError { message })
                        && message@ == "expected struct "@
                            + crate::render::name_text(pool@, want) + " but found "@
                            + crate::render::name_text(pool@, tag)
                } else {
                    match value_model(v@[2]) {
                        ValueModel::Num(idx) => if 0 <= idx < fields.len() {
                            r matches Ok(out) && out@ == fields[idx]
                        } else {
                            r matches Err(Error::DomainError { .. })
                        },
                        _ => r matches Err(Error::TypeError { .. }),
                    }
                }
            },
            (ValueModel::Struct(..), _) => r matches Err(Error::TypeError { .. }),
            _ => r matches Err(Error::TypeError { .. }),
        }),
{
    let (tag, fields) = match &v[0] {
        Value::Struct(tag, fields) => (*tag, fields),
        _ => {
            return Err(crate::error::type_error("struct", &v[0]));
        },
    };
    let want = match &v[1] {
        Value::Sym(n) => *n,
        _ => {
            return Err(crate::error::type_error("symbol", &v[1]));
        },
    };
    if tag != want {
        let mut message = String::new();
        message.append("expected struct ");
        let want_text = crate::render::name_string(pool, want);
        message.append(want_text.as_str());
        message.append(" but found ");
        let tag_text = crate::render::name_string(pool, tag);
        message.append(tag_text.as_str());
        proof {
            assert(message@ =~= "expected struct "@
                + crate::render::name_text(pool@, want as int) + " but found "@
                + crate::render::name_text(pool@, tag as int));
        }
        return Err(Error::DomainError { message });
    }
    let idx = match &v[2] {
        Value::Num(n) => *n,
        _ => {
            return Err(crate::error::type_error("number", &v[2]));
        },
    };
    proof {
        lemma_model_seq(fields@);
    }
    proof {
        assert(value_model(v@[0])->Struct_1 == model_seq(fields@));
    }
    let n = fields.len();
    if 0 <= idx && (idx as u64) < (n as u64) {
        let out = copy_value(&fields[idx as usize]);
        proof {
            assert(value_model(v@[0])->Struct_1[idx as int]
                == model_seq(fields@)[idx as int]);
        }
        Ok(out)
    } else {
        Err(crate::error::domain_error("struct index out of range"))
    }
}

/// `assert-struct`: the tag-equality predicate; `true` or `false`, never an
/// error on mismatch.
pub fn core_assert_struct(v: &Vec<Value>) -> (r: Result<Value, Error>)
    requires
        v@.len() >= 2,
    ensures
        (match (value_model(v@[0]), value_model(v@[1])) {
            (ValueModel::Struct(tag, _), ValueModel::Sym(want)) => r matches Ok(out)
                && out@ == (if tag == want { ValueModel::True } else { ValueModel::False }),
            (ValueModel::Struct(..), _) => r matches Err(Error::TypeError { .. }),
            _ => r matches Err(Error::DomainError { .. }),
        }),
{
    let tag = match &v[0] {
        Value::Struct(tag, _) => *tag,
        _ => {
            return Err(crate::error::domain_error("expected a struct"));
        },
    };
    let want = match &v[1] {
        Value::Sym(n) => *n,
        _ => {
            return Err(crate::error::type_error("symbol", &v[1]));
        },
    };
    if tag == want {
        Ok(Value::True)
    } else {
        Ok(Value::False)
    }
}

/// Struct identity: a struct made with a tag answers `true` exactly to that
/// tag — the predicate on `make-struct`'s result is `true` for the making
/// symbol and `false` for every other, and field access under a mismatched
/// tag is refused by `index-struct`'s contract.
pub proof fn lemma_struct_identity(tag: int, fields: Seq<ValueModel>, other: int)
    ensures
        struct_is_model(ValueModel::Struct(tag, fields), tag),
        other != tag ==> !struct_is_model(ValueModel::Struct(tag, fields), other),
{
}

} // verus!
