use vstd::prelude::*;
use crate::error::Error;
use crate::value::{copy_value, lemma_model_seq, model_seq, Value, ValueModel};

verus! {

/// Sequence contents of a list-like model: `Nil` and the empty list both
/// stand for the empty sequence.
pub open spec fn seq_items(a: ValueModel) -> Seq<ValueModel> {
    match a {
        ValueModel::List(items) => items,
        _ => Seq::empty(),
    }
}

/// Whether a model is acceptable where a list is wanted: a `List` or `Nil`.
pub open spec fn is_list_like(a: ValueModel) -> bool {
    a is List || a is Nil
}

/// The concatenation, left to right, of the items of a run of list-like
/// arguments.
pub open spec fn append_model(args: Seq<ValueModel>) -> Seq<ValueModel>
    decreases args,
{
    if args.len() == 0 {
        Seq::empty()
    } else {
        seq_items(args[0]) + append_model(args.drop_first())
    }
}

/// Appending one more list-like argument appends its items.
pub proof fn lemma_append_model_snoc(args: Seq<ValueModel>, x: ValueModel)
    ensures
        append_model(args.push(x)) == append_model(args) + seq_items(x),
    decreases args,
{
    let whole = args.push(x);
    if args.len() == 0 {
        assert(whole.drop_first() =~= Seq::<ValueModel>::empty());
        assert(whole[0] == x);
        assert(append_model(whole.drop_first()) =~= Seq::<ValueModel>::empty());
        assert(append_model(whole) =~= seq_items(x));
        assert(append_model(args) + seq_items(x) =~= seq_items(x));
    } else {
        assert(whole.drop_first() =~= args.drop_first().push(x));
        lemma_append_model_snoc(args.drop_first(), x);
        assert(append_model(whole) =~= append_model(args) + seq_items(x));
    }
}

/// Copies every element of `items` onto the end of `out`.
pub fn extend_copies(out: &mut Vec<Value>, items: &Vec<Value>)
    ensures
        model_seq(final(out)@) == model_seq(old(out)@) + model_seq(items@),
{
    proof {
        lemma_model_seq(old(out)@);
        lemma_model_seq(items@);
    }
    let ghost base = out@;
    let mut i: usize = 0;
    while i < items.len()
        invariant
            i <= items@.len(),
            out@.len() == base.len() + i,
            forall|j: int| 0 <= j < base.len()
                ==> value_model(#[trigger] out@[j]) == value_model(base[j]),
            forall|j: int| base.len() <= j < base.len() + i
                ==> value_model(#[trigger] out@[j]) == value_model(items@[j - base.len()]),
        decreases items@.len() - i,
    {
        let c = copy_value(&items[i]);
        out.push(c);
        i += 1;
    }
    proof {
        lemma_model_seq(out@);
        assert(model_seq(out@) =~= model_seq(base) + model_seq(items@));
    }
}

use crate::value::value_model;

/// `first`: the head of a sequence. `Nil` and the empty list have head `Nil`;
/// a lazy cell's head is already forced; anything else is a type error.
pub fn operator_head(v: &Vec<Value>) -> (r: Result<Value, Error>)
    requires
        v@.len() >= 1,
    ensures
        match value_model(v@[0]) {
            ValueModel::Nil => r matches Ok(out) && out@ == ValueModel::Nil,
            ValueModel::List(items) => r matches Ok(out) && out@ == (if items.len() == 0 {
                ValueModel::Nil
            } else {
                items[0]
            }),
            ValueModel::Lazy { head, .. } => r matches Ok(out) && out@ == *head,
            _ => r matches Err(Error::TypeError { .. }),
        },
{
    match &v[0] {
        Value::Nil => Ok(Value::Nil),
        Value::List(items) => {
            proof {
                lemma_model_seq(items@);
            }
            if items.len() == 0 {
                Ok(Value::Nil)
            } else {
                Ok(copy_value(&items[0]))
            }
        },
        Value::Lazy { head, .. } => Ok(copy_value(head)),
        _ => Err(crate::error::type_error("list", &v[0])),
    }
}

/// `cons`: prepends an element, treating `Nil` as the empty list.
pub fn operator_cons(v: &Vec<Value>) -> (r: Result<Value, Error>)
    requires
        v@.len() >= 2,
    ensures
        match value_model(v@[1]) {
            ValueModel::List(items) => r matches Ok(out)
                && out@ == ValueModel::List(seq![value_model(v@[0])] + items),
            ValueModel::Nil => r matches Ok(out)
                && out@ == ValueModel::List(seq![value_model(v@[0])]),
            _ => r matches Err(Error::DomainError { .. }),
        },
{
    match &v[1] {
        Value::List(items) => {
            let mut out: Vec<Value> = Vec::new();
            let x = copy_value(&v[0]);
            out.push(x);
            proof {
                lemma_model_seq(out@);
                assert(model_seq(out@) =~= seq![value_model(v@[0])]);
            }
            extend_copies(&mut out, items);
            Ok(Value::List(out))
        },
        Value::Nil => {
            let mut out: Vec<Value> = Vec::new();
            let x = copy_value(&v[0]);
            out.push(x);
            proof {
                lemma_model_seq(out@);
                assert(model_seq(out@) =~= seq![value_model(v@[0])]);
            }
            Ok(Value::List(out))
        },
        _ => Err(crate::error::domain_error("cannot cons to a non-list")),
    }
}

/// `rev-cons`: appends an element at the end, treating `Nil` as the empty
/// list.
pub fn operator_rev_cons(v: &Vec<Value>) -> (r: Result<Value, Error>)
    requires
        v@.len() >= 2,
    ensures
        match value_model(v@[0]) {
            ValueModel::List(items) => r matches Ok(out)
                && out@ == ValueModel::List(items + seq![value_model(v@[1])]),
            ValueModel::Nil => r matches Ok(out)
                && out@ == ValueModel::List(seq![value_model(v@[1])]),
            _ => r matches Err(Error::DomainError { .. }),
        },
{
    match &v[0] {
        Value::List(items) => {
            let mut out: Vec<Value> = Vec::new();
            proof {
                lemma_model_seq(out@);
                assert(model_seq(out@) =~= Seq::<ValueModel>::empty());
            }
            extend_copies(&mut out, items);
            let ghost prev = out@;
            let x = copy_value(&v[1]);
            out.push(x);
            proof {
                lemma_model_seq(prev);
                lemma_model_seq(items@);
                lemma_model_seq(out@);
                assert(model_seq(prev) =~= model_seq(items@));
                assert(forall|j: int| 0 <= j < prev.len()
                    ==> value_model(#[trigger] out@[j]) == value_model(prev[j]));
                assert(model_seq(out@) =~= model_seq(items@) + seq![value_model(v@[1])]);
            }
            Ok(Value::List(out))
        },
        Value::Nil => {
            let mut out: Vec<Value> = Vec::new();
            let x = copy_value(&v[1]);
            out.push(x);
            proof {
                lemma_model_seq(out@);
                assert(model_seq(out@) =~= seq![value_model(v@[1])]);
            }
            Ok(Value::List(out))
        },
        _ => Err(crate::error::domain_error("cannot rev-cons to a non-list")),
    }
}

/// `append`: concatenates a run of lists left to right. `Nil` arguments are
/// empty; any other argument kind is a type error.
pub fn core_append(v: &Vec<Value>) -> (r: Result<Value, Error>)
    ensures
        (forall|i: int| 0 <= i < v@.len() ==> is_list_like(value_model(#[trigger] v@[i])))
            ==> (r matches Ok(out) && out@ == ValueModel::List(append_model(model_seq(v@)))),
        (exists|i: int| 0 <= i < v@.len() && !is_list_like(value_model(#[trigger] v@[i])))
            ==> (r matches Err(Error::TypeError { .. })),
{
    proof {
        lemma_model_seq(v@);
    }
    let ghost args = model_seq(v@);
    let mut out: Vec<Value> = Vec::new();
    proof {
        lemma_model_seq(out@);
        assert(args.subrange(0, 0) =~= Seq::<ValueModel>::empty());
        assert(model_seq(out@) =~= append_model(args.subrange(0, 0)));
    }
    let mut i: usize = 0;
    while i < v.len()
        invariant
            i <= v@.len(),
            args == model_seq(v@),
            args.len() == v@.len(),
            forall|j: int| 0 <= j < v@.len() ==> args[j] == value_model(#[trigger] v@[j]),
            forall|j: int| 0 <= j < i ==> is_list_like(#[trigger] args[j]),
            model_seq(out@) == append_model(args.subrange(0, i as int)),
        decreases v@.len() - i,
    {
        let ghost prefix = args.subrange(0, i as int);
        match &v[i] {
            Value::List(items) => {
                extend_copies(&mut out, items);
                proof {
                    lemma_append_model_snoc(prefix, args[i as int]);
                    assert(prefix.push(args[i as int]) =~= args.subrange(0, i as int + 1));
                    assert(seq_items(args[i as int]) == model_seq(items@));
                }
            },
            Value::Nil => {
                proof {
                    lemma_append_model_snoc(prefix, args[i as int]);
                    assert(prefix.push(args[i as int]) =~= args.subrange(0, i as int + 1));
                    assert(seq_items(args[i as int]) =~= Seq::<ValueModel>::empty());
                    assert(model_seq(out@) =~= append_model(args.subrange(0, i as int + 1)));
                }
            },
            _ => {
                return Err(crate::error::type_error("list", &v[i]));
            },
        }
        i += 1;
    }
    proof {
        assert(args.subrange(0, args.len() as int) =~= args);
    }
    Ok(Value::List(out))
}

/// `reverse`: a fresh list with the elements in the opposite order.
pub fn reverse_list(v: &Vec<Value>) -> (r: Result<Value, Error>)
    requires
        v@.len() >= 1,
    ensures
        match value_model(v@[0]) {
            ValueModel::List(items) => r matches Ok(out)
                && out@ == ValueModel::List(items.reverse()),
            _ => r matches Err(Error::DomainError { .. }),
        },
{
    match &v[0] {
        Value::List(items) => {
            proof {
                lemma_model_seq(items@);
            }
            let ghost m = model_seq(items@);
            let mut out: Vec<Value> = Vec::new();
            let mut i: usize = 0;
            let n = items.len();
            while i < n
                invariant
                    n == items@.len(),
                    m == model_seq(items@),
                    m.len() == n,
                    forall|j: int| 0 <= j < n ==> m[j] == value_model(#[trigger] items@[j]),
                    i <= n,
                    out@.len() == i,
                    forall|j: int| 0 <= j < i
                        ==> value_model(#[trigger] out@[j]) == m[n - 1 - j],
                decreases n - i,
            {
                let c = copy_value(&items[n - 1 - i]);
                out.push(c);
                i += 1;
            }
            proof {
                lemma_model_seq(out@);
                assert(model_seq(out@) =~= m.reverse());
            }
            Ok(Value::List(out))
        },
        _ => Err(crate::error::domain_error("cannot reverse a non-list")),
    }
}

/// `len`: element count for lists and character vectors, byte count for
/// strings, zero for `Nil`. The two text kinds deliberately disagree for
/// multi-byte text; the surface keeps that distinction.
pub fn operator_len(v: &Vec<Value>) -> (r: Result<Value, Error>)
    requires
        v@.len() >= 1,
    ensures
        match value_model(v@[0]) {
            ValueModel::List(items) => if items.len() <= i64::MAX {
                r matches Ok(out) && out@ == ValueModel::Num(items.len() as int)
            } else {
                r matches Err(Error::DomainError { .. })
            },
            ValueModel::Chars(cs) => if cs.len() <= i64::MAX {
                r matches Ok(out) && out@ == ValueModel::Num(cs.len() as int)
            } else {
                r matches Err(Error::DomainError { .. })
            },
            ValueModel::Str(s) => {
                let bl = vstd::utf8::encode_utf8(s).len() as usize;
                if bl <= i64::MAX {
                    r matches Ok(out) && out@ == ValueModel::Num(bl as int)
                } else {
                    r matches Err(Error::DomainError { .. })
                }
            },
            ValueModel::Nil => r matches Ok(out) && out@ == ValueModel::Num(0),
            _ => r matches Err(Error::TypeError { .. }),
        },
{
    match &v[0] {
        Value::List(items) => {
            proof {
                lemma_model_seq(items@);
            }
            num_from_count(items.len())
        },
        Value::Chars(cs) => num_from_count(cs.len()),
        Value::Str(s) => num_from_count(s.as_str().len()),
        Value::Nil => Ok(Value::Num(0)),
        _ => Err(crate::error::type_error("list, chars or string", &v[0])),
    }
}

/// A count as a number value, refused in the (practically unreachable) case
/// that it exceeds the numeric range.
fn num_from_count(n: usize) -> (r: Result<Value, Error>)
    ensures
        n <= i64::MAX ==> (r matches Ok(out) && out@ == ValueModel::Num(n as int)),
        n > i64::MAX ==> (r matches Err(Error::DomainError { .. })),
{
    if n as u64 <= i64::MAX as u64 {
        Ok(Value::Num(n as i64))
    } else {
        Err(crate::error::domain_error("count exceeds the numeric range"))
    }
}

/// The persistent-update law for lists: consing `x` onto a list `L` yields a
/// sequence whose head is `x` and whose rest is exactly `L`'s items — and, as
/// `operator_cons` borrows its arguments immutably and copies them, `L`
/// itself is unchanged by the operation.
pub proof fn lemma_cons_first_rest(x: ValueModel, items: Seq<ValueModel>)
    ensures
        (seq![x] + items).len() == items.len() + 1,
        (seq![x] + items)[0] == x,
        (seq![x] + items).drop_first() == items,
{
    assert((seq![x] + items).drop_first() =~= items);
}

} // verus!
