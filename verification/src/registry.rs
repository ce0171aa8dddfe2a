use vstd::prelude::*;
use crate::builtins::{arity_of, builtin_arity, builtin_name, Builtin};
use crate::error::Error;
use crate::eval::Evaluator;
use crate::heap::Heap;
use crate::names::NamePool;
use crate::render::render;
use crate::value::{copy_value, eq_model, has_key_model, is_nil_model, lemma_model_seq,
    lookup_model, model_seq, value_model, values_equal, Value, ValueModel};

verus! {

/// `symbol`: a symbol from a string (interned on the fly) or an existing
/// symbol unchanged.
pub fn core_symbol(v: &Vec<Value>, pool: &mut NamePool) -> (r: Result<Value, Error>)
    requires
        old(pool).wf(),
        v@.len() >= 1,
    ensures
        final(pool).wf(),
        old(pool)@.is_prefix_of(final(pool)@),
        (match value_model(v@[0]) {
            ValueModel::Str(s) => final(pool)@ == crate::names::intern_spec(old(pool)@, s).0
                && (r matches Ok(out)
                    && out@ == ValueModel::Sym(crate::names::intern_spec(old(pool)@, s).1)),
            ValueModel::Sym(n) => r matches Ok(out) && out@ == ValueModel::Sym(n),
            _ => r matches Err(Error::TypeError { .. }),
        }),
{
    match &v[0] {
        Value::Str(s) => {
            let n = pool.intern(s);
            Ok(Value::Sym(n))
        },
        Value::Sym(n) => Ok(Value::Sym(*n)),
        _ => Err(crate::error::type_error("string", &v[0])),
    }
}

/// `keyword`: a keyword from a string (interned on the fly) or an existing
/// keyword unchanged.
pub fn core_keyword(v: &Vec<Value>, pool: &mut NamePool) -> (r: Result<Value, Error>)
    requires
        old(pool).wf(),
        v@.len() >= 1,
    ensures
        final(pool).wf(),
        old(pool)@.is_prefix_of(final(pool)@),
        (match value_model(v@[0]) {
            ValueModel::Keyword(n) => r matches Ok(out) && out@ == ValueModel::Keyword(n),
            ValueModel::Str(s) => final(pool)@ == crate::names::intern_spec(old(pool)@, s).0
                && (r matches Ok(out)
                    && out@ == ValueModel::Keyword(crate::names::intern_spec(old(pool)@, s).1)),
            _ => r matches Err(Error::TypeError { .. }),
        }),
{
    match &v[0] {
        Value::Keyword(n) => Ok(Value::Keyword(*n)),
        Value::Str(s) => {
            let n = pool.intern(s);
            Ok(Value::Keyword(n))
        },
        _ => Err(crate::error::type_error("string, keyword", &v[0])),
    }
}

/// `name-intern-number`: the interned index behind a keyword or symbol, as a
/// number.
pub fn core_keyword_intern_number(v: &Vec<Value>) -> (r: Result<Value, Error>)
    requires
        v@.len() >= 1,
    ensures
        (match value_model(v@[0]) {
            ValueModel::Keyword(n) => if n <= i64::MAX {
                r matches Ok(out) && out@ == ValueModel::Num(n)
            } else {
                r matches Err(Error::DomainError { .. })
            },
            ValueModel::Sym(n) => if n <= i64::MAX {
                r matches Ok(out) && out@ == ValueModel::Num(n)
            } else {
                r matches Err(Error::DomainError { .. })
            },
            _ => r matches Err(Error::TypeError { .. }),
        }),
{
    let n = match &v[0] {
        Value::Keyword(n) => *n,
        Value::Sym(n) => *n,
        _ => {
            return Err(crate::error::type_error("keyword, symbol", &v[0]));
        },
    };
    if (n as u64) <= (i64::MAX as u64) {
        Ok(Value::Num(n as i64))
    } else {
        Err(crate::error::domain_error("name exceeds the numeric range"))
    }
}

/// `symbol-from-intern-number`: a symbol naming a given interned index. The
/// index is not checked against any pool; resolving a foreign name later is
/// refused there.
pub fn core_name_from_intern_number(v: &Vec<Value>) -> (r: Result<Value, Error>)
    requires
        v@.len() >= 1,
    ensures
        (match value_model(v@[0]) {
            ValueModel::Num(n) => if 0 <= n <= usize::MAX {
                r matches Ok(out) && out@ == ValueModel::Sym(n)
            } else {
                r matches Err(Error::DomainError { .. })
            },
            _ => r matches Err(Error::TypeError { .. }),
        }),
{
    match &v[0] {
        Value::Num(n) => {
            if 0 <= *n && (*n as u64) <= (usize::MAX as u64) {
                Ok(Value::Sym(*n as usize))
            } else {
                Err(crate::error::domain_error("not an interned index"))
            }
        },
        _ => Err(crate::error::type_error("number", &v[0])),
    }
}

/// `assert`: with one argument, fails on a false-like value; with two,
/// fails unless they are structurally equal; with three, likewise but the
/// failure message is the third argument's display form. Any other count is
/// an arity error.
pub fn core_assert(v: &Vec<Value>, pool: &NamePool) -> (r: Result<Value, Error>)
    ensures
        v@.len() == 1 ==> (if is_nil_model(value_model(v@[0])) {
            r matches Err(Error::DomainError { .. })
        } else {
            r matches Ok(out) && out@ == value_model(v@[0])
        }),
        v@.len() == 2 ==> (if eq_model(value_model(v@[0]), value_model(v@[1])) {
            r matches Ok(out) && out@ == value_model(v@[0])
        } else {
            r matches Err(Error::DomainError { .. })
        }),
        v@.len() == 3 ==> (if eq_model(value_model(v@[0]), value_model(v@[1])) {
            r matches Ok(out) && out@ == value_model(v@[0])
        } else {
            r matches Err(Error::DomainError { message })
                && message@ == crate::render::render_of(value_model(v@[2]), pool@, false)
        }),
        (v@.len() == 0 || v@.len() > 3) ==> (r matches Err(Error::ArityError { .. })),
{
    if v.len() == 1 {
        if crate::value::is_false_like(&v[0]) {
            Err(crate::error::domain_error("AssertError"))
        } else {
            Ok(copy_value(&v[0]))
        }
    } else if v.len() == 2 {
        if values_equal(&v[0], &v[1]) {
            Ok(copy_value(&v[0]))
        } else {
            Err(crate::error::domain_error("AssertError"))
        }
    } else if v.len() == 3 {
        if values_equal(&v[0], &v[1]) {
            Ok(copy_value(&v[0]))
        } else {
            let message = render(&v[2], pool, false);
            Err(Error::DomainError { message })
        }
    } else {
        Err(Error::ArityError {
            name: "assert".to_owned(),
            expected: crate::builtins::Arity::Range(1, 3),
            got: v.len(),
        })
    }
}

/// `swap-box`: reads the cell's content, applies the given function to
/// `[current, extra arguments...]` through the evaluator and stores the
/// result. Deliberately returns the function argument, not the new content —
/// a preserved quirk of the surface.
pub fn swap_box<E: Evaluator>(
    v: &Vec<Value>,
    pool: &mut NamePool,
    heap: &mut Heap,
    ev: &E,
) -> (r: Result<Value, Error>)
    requires
        old(pool).wf(),
        v@.len() >= 2,
    ensures
        final(pool).wf(),
        old(pool)@.is_prefix_of(final(pool)@),
        (match value_model(v@[0]) {
            ValueModel::BoxCell(i) => {
                if 0 <= i < old(heap)@.len() {
                    match ev.apply_spec(
                        value_model(v@[1]),
                        seq![old(heap)@[i]] + model_seq(v@).skip(2),
                    ) {
                        Ok(nv) => r matches Ok(out) && out@ == value_model(v@[1])
                            && final(heap)@.len() >= old(heap)@.len()
                            && final(heap)@[i] == nv,
                        Err(_) => r is Err,
                    }
                } else {
                    r matches Err(Error::DomainError { .. })
                }
            },
            _ => r matches Err(Error::TypeError { .. }),
        }),
{
    let idx = match &v[0] {
        Value::BoxCell(i) => *i,
        _ => {
            return Err(crate::error::type_error("box", &v[0]));
        },
    };
    if idx >= heap.len() {
        return Err(crate::error::domain_error("box names no cell of this heap"));
    }
    let current = match heap.deref(&v[0]) {
        Ok(val) => val,
        Err(e) => {
            return Err(e);
        },
    };
    let mut args: Vec<Value> = Vec::new();
    args.push(current);
    let mut i: usize = 2;
    while i < v.len()
        invariant
            2 <= i <= v@.len(),
            args@.len() == i - 1,
            value_model(args@[0]) == old(heap)@[value_model(v@[0])->BoxCell_0],
            value_model(v@[0]) is BoxCell,
            0 <= value_model(v@[0])->BoxCell_0 < old(heap)@.len(),
            forall|j: int| 1 <= j < args@.len()
                ==> value_model(#[trigger] args@[j]) == value_model(v@[j + 1]),
        decreases v@.len() - i,
    {
        let c = copy_value(&v[i]);
        args.push(c);
        i += 1;
    }
    proof {
        lemma_model_seq(args@);
        lemma_model_seq(v@);
        assert(model_seq(args@)
            =~= seq![old(heap)@[value_model(v@[0])->BoxCell_0]] + model_seq(v@).skip(2));
    }
    let new_value = match ev.apply(&v[1], args, pool, heap) {
        Ok(val) => val,
        Err(e) => {
            return Err(e);
        },
    };
    match heap.set_box(&v[0], &new_value) {
        Ok(_) => Ok(copy_value(&v[1])),
        Err(e) => Err(e),
    }
}

/// `apply`: spreads its last argument (a list, or `Nil` for nothing) onto
/// the arguments between, then applies the first argument through the
/// evaluator.
pub fn core_apply<E: Evaluator>(
    v: &Vec<Value>,
    pool: &mut NamePool,
    heap: &mut Heap,
    ev: &E,
) -> (r: Result<Value, Error>)
    requires
        old(pool).wf(),
        v@.len() >= 2,
    ensures
        final(pool).wf(),
        old(pool)@.is_prefix_of(final(pool)@),
        (match value_model(v@[v@.len() - 1]) {
            ValueModel::List(items) => match ev.apply_spec(
                value_model(v@[0]),
                model_seq(v@).subrange(1, v@.len() - 1) + items,
            ) {
                Ok(val) => r matches Ok(out) && out@ == val,
                Err(_) => r is Err,
            },
            ValueModel::Nil => match ev.apply_spec(
                value_model(v@[0]),
                model_seq(v@).subrange(1, v@.len() - 1),
            ) {
                Ok(val) => r matches Ok(out) && out@ == val,
                Err(_) => r is Err,
            },
            _ => r matches Err(Error::TypeError { .. }),
        }),
{
    proof {
        lemma_model_seq(v@);
    }
    let len = v.len();
    let mut args: Vec<Value> = Vec::new();
    let mut i: usize = 1;
    while i < len - 1
        invariant
            v@.len() >= 2,
            len == v@.len(),
            1 <= i <= v@.len() - 1,
            args@.len() == i - 1,
            forall|j: int| 0 <= j < args@.len()
                ==> value_model(#[trigger] args@[j]) == value_model(v@[j + 1]),
        decreases len - 1 - i,
    {
        let c = copy_value(&v[i]);
        args.push(c);
        i += 1;
    }
    proof {
        lemma_model_seq(args@);
        assert(model_seq(args@) =~= model_seq(v@).subrange(1, v@.len() - 1));
    }
    match &v[len - 1] {
        Value::List(items) => {
            crate::seqs::extend_copies(&mut args, items);
            proof {
                lemma_model_seq(items@);
            }
            ev.apply(&v[0], args, pool, heap)
        },
        Value::Nil => ev.apply(&v[0], args, pool, heap),
        _ => Err(crate::error::type_error("list", &v[len - 1])),
    }
}

/// Element-wise application through the evaluator, stopped by its first
/// error.
pub open spec fn map_spec<E: Evaluator>(ev: E, f: ValueModel, items: Seq<ValueModel>)
    -> Result<Seq<ValueModel>, ()>
    decreases items,
{
    if items.len() == 0 {
        Ok(Seq::empty())
    } else {
        match ev.apply_spec(f, seq![items[0]]) {
            Ok(val) => match map_spec(ev, f, items.drop_first()) {
                Ok(s) => Ok(seq![val] + s),
                Err(e) => Err(e),
            },
            Err(_) => Err(()),
        }
    }
}

/// `map`: applies a function to each element of a list, collecting the
/// results in order. `Nil` stands for the empty sequence and maps to the
/// empty list.
pub fn core_map<E: Evaluator>(
    v: &Vec<Value>,
    pool: &mut NamePool,
    heap: &mut Heap,
    ev: &E,
) -> (r: Result<Value, Error>)
    requires
        old(pool).wf(),
        v@.len() >= 2,
    ensures
        final(pool).wf(),
        old(pool)@.is_prefix_of(final(pool)@),
        (match value_model(v@[1]) {
            ValueModel::List(items) => match map_spec(*ev, value_model(v@[0]), items) {
                Ok(s) => r matches Ok(out) && out@ == ValueModel::List(s),
                Err(_) => r is Err,
            },
            ValueModel::Nil => r matches Ok(out)
                && out@ == ValueModel::List(Seq::empty()),
            _ => r matches Err(Error::TypeError { .. }),
        }),
{
    let items = match &v[1] {
        Value::List(items) => items,
        Value::Nil => {
            let empty: Vec<Value> = Vec::new();
            proof {
                lemma_model_seq(empty@);
                assert(model_seq(empty@) =~= Seq::<ValueModel>::empty());
            }
            return Ok(Value::List(empty));
        },
        _ => {
            return Err(crate::error::type_error("list", &v[1]));
        },
    };
    proof {
        lemma_model_seq(items@);
    }
    let ghost m = model_seq(items@);
    let ghost f = value_model(v@[0]);
    let mut out: Vec<Value> = Vec::new();
    proof {
        lemma_model_seq(out@);
        assert(m.skip(0) =~= m);
        assert(model_seq(out@) =~= Seq::<ValueModel>::empty());
    }
    let mut i: usize = 0;
    while i < items.len()
        invariant
            old(pool).wf(),
            pool.wf(),
            old(pool)@.is_prefix_of(pool@),
            v@.len() >= 2,
            i <= items@.len(),
            m == model_seq(items@),
            m.len() == items@.len(),
            forall|j: int| 0 <= j < items@.len() ==> m[j] == value_model(#[trigger] items@[j]),
            value_model(v@[1]) == ValueModel::List(m),
            f == value_model(v@[0]),
            (match map_spec(*ev, f, m.skip(i as int)) {
                Ok(s) => map_spec(*ev, f, m) == Ok::<Seq<ValueModel>, ()>(
                    model_seq(out@) + s),
                Err(_) => map_spec(*ev, f, m) is Err,
            }),
        decreases items@.len() - i,
    {
        let mut call_args: Vec<Value> = Vec::new();
        let c = copy_value(&items[i]);
        call_args.push(c);
        proof {
            lemma_model_seq(call_args@);
            assert(model_seq(call_args@) =~= seq![m[i as int]]);
            assert(m.skip(i as int)[0] == m[i as int]);
            assert(m.skip(i as int).drop_first() =~= m.skip(i as int + 1));
        }
        let ghost out_before = out@;
        let val = match ev.apply(&v[0], call_args, pool, heap) {
            Ok(val) => val,
            Err(e) => {
                return Err(e);
            },
        };
        out.push(val);
        proof {
            lemma_model_seq(out_before);
            lemma_model_seq(out@);
            assert(model_seq(out@)
                =~= model_seq(out_before).push(value_model(out@[out@.len() - 1])));
            let after = map_spec(*ev, f, m.skip(i as int + 1));
            if after is Ok {
                let s2 = after->Ok_0;
                assert(model_seq(out_before) + (seq![value_model(out@[out@.len() - 1])] + s2)
                    =~= model_seq(out@) + s2);
            }
        }
        i += 1;
    }
    proof {
        assert(m.skip(m.len() as int).len() == 0);
        assert(model_seq(out@) + Seq::<ValueModel>::empty() =~= model_seq(out@));
    }
    Ok(Value::List(out))
}


/// What dispatching native procedure `b` on arguments `v` returns and does:
/// one arm per procedure, each restating the contract of the operation the
/// dispatcher invokes for it — over the pool before (`pool0`) and after
/// (`pool1`), the heap before (`heap0`) and after (`heap1`), and the
/// evaluator. `call_builtin` and `apply_value` are held to this, so the
/// binding from descriptor to behaviour is itself verified.
pub open spec fn builtin_post<E: Evaluator>(
    b: Builtin,
    v: Seq<Value>,
    pool0: Seq<Seq<char>>,
    pool1: Seq<Seq<char>>,
    heap0: Seq<ValueModel>,
    heap1: Seq<ValueModel>,
    ev: E,
    r: Result<Value, Error>,
) -> bool {
    match b {
        Builtin::NumAdd => match crate::ops::fold_add(0, model_seq(v)) {
            Ok(total) => r matches Ok(out) && out@ == ValueModel::Num(total),
            Err(wrong_kind) => if wrong_kind {
                r matches Err(Error::TypeError { .. })
            } else {
                r matches Err(Error::DomainError { .. })
            },
        },
        Builtin::NumMul => match crate::ops::fold_mul(1, model_seq(v)) {
            Ok(total) => r matches Ok(out) && out@ == ValueModel::Num(total),
            Err(wrong_kind) => if wrong_kind {
                r matches Err(Error::TypeError { .. })
            } else {
                r matches Err(Error::DomainError { .. })
            },
        },
        Builtin::NumSub => {
            &&& v.len() == 0 ==> (r matches Ok(out) && out@ == ValueModel::Num(0))
            &&& v.len() == 1 ==> (match value_model(v[0]) {
                ValueModel::Num(n) => if -n <= i64::MAX {
                    r matches Ok(out) && out@ == ValueModel::Num(-n)
                } else {
                    r matches Err(Error::DomainError { .. })
                },
                _ => r matches Err(Error::TypeError { .. }),
            })
            &&& v.len() >= 2 ==> (match value_model(v[0]) {
                ValueModel::Num(first) => match crate::ops::fold_sub(first,
                    model_seq(v).skip(1)) {
                    Ok(total) => r matches Ok(out) && out@ == ValueModel::Num(total),
                    Err(wrong_kind) => if wrong_kind {
                        r matches Err(Error::TypeError { .. })
                    } else {
                        r matches Err(Error::DomainError { .. })
                    },
                },
                _ => r matches Err(Error::TypeError { .. }),
            })
        },
        Builtin::NumDiv => {
            &&& v.len() == 0 ==> (r matches Err(Error::DomainError { .. }))
            &&& v.len() == 1 ==> (match value_model(v[0]) {
                ValueModel::Num(n) => if n != 0 {
                    r matches Ok(out) && out@ == ValueModel::Num(crate::ops::trunc_div(1, n))
                } else {
                    r matches Err(Error::DomainError { .. })
                },
                _ => r matches Err(Error::TypeError { .. }),
            })
            &&& v.len() >= 2 ==> (match value_model(v[0]) {
                ValueModel::Num(first) => match crate::ops::fold_div(first,
                    model_seq(v).skip(1)) {
                    Ok(total) => r matches Ok(out) && out@ == ValueModel::Num(total),
                    Err(wrong_kind) => if wrong_kind {
                        r matches Err(Error::TypeError { .. })
                    } else {
                        r matches Err(Error::DomainError { .. })
                    },
                },
                _ => r matches Err(Error::TypeError { .. }),
            })
        },
        Builtin::CmpLt => cmp_post(crate::ops::CmpOp::Lt, v, r),
        Builtin::CmpGt => cmp_post(crate::ops::CmpOp::Gt, v, r),
        Builtin::CmpLe => cmp_post(crate::ops::CmpOp::Le, v, r),
        Builtin::CmpGe => cmp_post(crate::ops::CmpOp::Ge, v, r),
        Builtin::EqVals => r matches Ok(out) && out@ == (if forall|i: int| 1 <= i < v.len()
            ==> eq_model(value_model(v[0]), value_model(#[trigger] v[i])) {
            ValueModel::True
        } else {
            ValueModel::False
        }),
        Builtin::NeVals => r matches Ok(out) && out@ == (if forall|i: int| 1 <= i < v.len()
            ==> !eq_model(value_model(v[0]), value_model(#[trigger] v[i])) {
            ValueModel::True
        } else {
            ValueModel::False
        }),
        Builtin::StrCat => r matches Ok(out)
            && out@ == ValueModel::Str(crate::format::str_text(model_seq(v), pool0)),
        Builtin::ListNew => r matches Ok(out) && out@ == ValueModel::List(model_seq(v)),
        Builtin::First => match value_model(v[0]) {
            ValueModel::Nil => r matches Ok(out) && out@ == ValueModel::Nil,
            ValueModel::List(items) => r matches Ok(out) && out@ == (if items.len() == 0 {
                ValueModel::Nil
            } else {
                items[0]
            }),
            ValueModel::Lazy { head, .. } => r matches Ok(out) && out@ == *head,
            _ => r matches Err(Error::TypeError { .. }),
        },
        Builtin::Second => crate::lazy::nth_post(ev, value_model(v[0]), 1, r),
        Builtin::Third => crate::lazy::nth_post(ev, value_model(v[0]), 2, r),
        Builtin::Fourth => crate::lazy::nth_post(ev, value_model(v[0]), 3, r),
        Builtin::Fifth => crate::lazy::nth_post(ev, value_model(v[0]), 4, r),
        Builtin::Sixth => crate::lazy::nth_post(ev, value_model(v[0]), 5, r),
        Builtin::Seventh => crate::lazy::nth_post(ev, value_model(v[0]), 6, r),
        Builtin::Eighth => crate::lazy::nth_post(ev, value_model(v[0]), 6, r),
        Builtin::Ninth => crate::lazy::nth_post(ev, value_model(v[0]), 6, r),
        Builtin::Tenth => crate::lazy::nth_post(ev, value_model(v[0]), 6, r),
        Builtin::Nth => match value_model(v[1]) {
            ValueModel::Num(n) => crate::lazy::nth_post(ev, value_model(v[0]), n, r),
            _ => r matches Err(Error::TypeError { .. }),
        },
        Builtin::Rest => match value_model(v[0]) {
            ValueModel::Nil => r matches Ok(out) && out@ == ValueModel::Nil,
            ValueModel::List(items) => r matches Ok(out) && out@ == (if items.len() == 0 {
                ValueModel::Nil
            } else {
                ValueModel::List(items.drop_first())
            }),
            ValueModel::Lazy { tail, env, .. } => match ev.eval_spec(*tail, env) {
                Ok(val) => r matches Ok(out) && out@ == val,
                Err(_) => r is Err,
            },
            _ => r matches Err(Error::TypeError { .. }),
        },
        Builtin::Cons => match value_model(v[1]) {
            ValueModel::List(items) => r matches Ok(out)
                && out@ == ValueModel::List(seq![value_model(v[0])] + items),
            ValueModel::Nil => r matches Ok(out)
                && out@ == ValueModel::List(seq![value_model(v[0])]),
            _ => r matches Err(Error::DomainError { .. }),
        },
        Builtin::RevCons => match value_model(v[0]) {
            ValueModel::List(items) => r matches Ok(out)
                && out@ == ValueModel::List(items + seq![value_model(v[1])]),
            ValueModel::Nil => r matches Ok(out)
                && out@ == ValueModel::List(seq![value_model(v[1])]),
            _ => r matches Err(Error::DomainError { .. }),
        },
        Builtin::IsAtom => r matches Ok(out) && out@ == (match value_model(v[0]) {
            ValueModel::List(items) => if items.len() == 0 {
                ValueModel::True
            } else {
                ValueModel::False
            },
            _ => ValueModel::True,
        }),
        Builtin::IsList => r matches Ok(out) && out@ == (match value_model(v[0]) {
            ValueModel::List(items) => if items.len() > 0 {
                ValueModel::True
            } else {
                ValueModel::False
            },
            _ => ValueModel::False,
        }),
        Builtin::IsNil => r matches Ok(out) && out@ == (match value_model(v[0]) {
            ValueModel::Nil => ValueModel::True,
            ValueModel::List(items) => if items.len() == 0 {
                ValueModel::True
            } else {
                ValueModel::False
            },
            _ => ValueModel::False,
        }),
        Builtin::IsNumber => r matches Ok(out) && out@ == (if value_model(v[0]) is Num {
            ValueModel::True
        } else {
            ValueModel::False
        }),
        Builtin::IsString => r matches Ok(out) && out@ == (if value_model(v[0]) is Str {
            ValueModel::True
        } else {
            ValueModel::False
        }),
        Builtin::IsSymbol => r matches Ok(out) && out@ == (if value_model(v[0]) is Sym {
            ValueModel::True
        } else {
            ValueModel::False
        }),
        Builtin::IsFunction => r matches Ok(out) && out@ == (match value_model(v[0]) {
            ValueModel::Func { .. } => ValueModel::True,
            ValueModel::NatFunc(_) => ValueModel::True,
            _ => ValueModel::False,
        }),
        Builtin::IsKeyword => r matches Ok(out) && out@ == (if value_model(v[0]) is Keyword {
            ValueModel::True
        } else {
            ValueModel::False
        }),
        Builtin::IsHashmap => r matches Ok(out) && out@ == (if value_model(v[0]) is Hashmap {
            ValueModel::True
        } else {
            ValueModel::False
        }),
        Builtin::Apply => match value_model(v[v.len() - 1]) {
            ValueModel::List(items) => match ev.apply_spec(
                value_model(v[0]),
                model_seq(v).subrange(1, v.len() - 1) + items,
            ) {
                Ok(val) => r matches Ok(out) && out@ == val,
                Err(_) => r is Err,
            },
            ValueModel::Nil => match ev.apply_spec(
                value_model(v[0]),
                model_seq(v).subrange(1, v.len() - 1),
            ) {
                Ok(val) => r matches Ok(out) && out@ == val,
                Err(_) => r is Err,
            },
            _ => r matches Err(Error::TypeError { .. }),
        },
        Builtin::MapList => match value_model(v[1]) {
            ValueModel::List(items) => match map_spec(ev, value_model(v[0]), items) {
                Ok(s) => r matches Ok(out) && out@ == ValueModel::List(s),
                Err(_) => r is Err,
            },
            ValueModel::Nil => r matches Ok(out) && out@ == ValueModel::List(Seq::empty()),
            _ => r matches Err(Error::TypeError { .. }),
        },
        Builtin::Append => {
            &&& (forall|i: int| 0 <= i < v.len()
                ==> crate::seqs::is_list_like(value_model(#[trigger] v[i])))
                ==> (r matches Ok(out)
                    && out@ == ValueModel::List(crate::seqs::append_model(model_seq(v))))
            &&& (exists|i: int| 0 <= i < v.len()
                && !crate::seqs::is_list_like(value_model(#[trigger] v[i])))
                ==> (r matches Err(Error::TypeError { .. }))
        },
        Builtin::Repr => r matches Ok(out) && out@ == ValueModel::Str(
            crate::render::render_of(
                if v.len() == 0 { ValueModel::Nil } else { value_model(v[0]) },
                pool0,
                true,
            ),
        ),
        Builtin::Len => match value_model(v[0]) {
            ValueModel::List(items) => if items.len() <= i64::MAX {
                r matches Ok(out) && out@ == ValueModel::Num(items.len() as int)
            } else {
                r matches Err(Error::DomainError { .. })
            },
            ValueModel::Chars(cs) => if cs.len() <= i64::MAX {
                r matches Ok(out) && out@ == ValueModel::Num(cs.len() as int)
            } else {
                r matches Err(Error::DomainError { .. })
            },
            ValueModel::Str(t) => {
                let bl = vstd::utf8::encode_utf8(t).len() as usize;
                if bl <= i64::MAX {
                    r matches Ok(out) && out@ == ValueModel::Num(bl as int)
                } else {
                    r matches Err(Error::DomainError { .. })
                }
            },
            ValueModel::Nil => r matches Ok(out) && out@ == ValueModel::Num(0),
            _ => r matches Err(Error::TypeError { .. }),
        },
        Builtin::Inc => match value_model(v[0]) {
            ValueModel::Num(n) => if n + 1 <= i64::MAX {
                r matches Ok(out) && out@ == ValueModel::Num(n + 1)
            } else {
                r matches Err(Error::DomainError { .. })
            },
            _ => r matches Err(Error::TypeError { .. }),
        },
        Builtin::Dec => match value_model(v[0]) {
            ValueModel::Num(n) => if n - 1 >= i64::MIN {
                r matches Ok(out) && out@ == ValueModel::Num(n - 1)
            } else {
                r matches Err(Error::DomainError { .. })
            },
            _ => r matches Err(Error::TypeError { .. }),
        },
        Builtin::Collect => match value_model(v[0]) {
            ValueModel::Nil => r matches Ok(out) && out@ == ValueModel::Nil,
            ValueModel::List(items) => r matches Ok(out) && out@ == ValueModel::List(items),
            ValueModel::Lazy { head, tail, env } => forall|fuel: nat|
                match #[trigger] crate::lazy::collect_from(ev, *tail, env, fuel) {
                    Some(Ok(s)) => r matches Ok(out)
                        && out@ == ValueModel::List(seq![*head] + s),
                    Some(Err(_)) => r is Err,
                    None => true,
                },
            _ => r matches Err(Error::TypeError { .. }),
        },
        Builtin::Format => match value_model(v[0]) {
            ValueModel::Str(t) => match crate::format::format_spec(t, model_seq(v), 1,
                pool0) {
                Ok(text) => r matches Ok(out) && out@ == ValueModel::Str(text),
                Err(_) => r matches Err(Error::DomainError { .. }),
            },
            _ => r matches Err(Error::DomainError { .. }),
        },
        Builtin::Join => match (value_model(v[0]), value_model(v[1])) {
            (ValueModel::Str(sep), ValueModel::List(items)) => r matches Ok(out)
                && out@ == ValueModel::Str(crate::render::render_items(items, pool0, sep,
                    false)),
            (ValueModel::Str(_), ValueModel::Nil) => r matches Ok(out)
                && out@ == ValueModel::Str(Seq::empty()),
            (ValueModel::Str(_), _) => r matches Err(Error::TypeError { .. }),
            _ => r matches Err(Error::TypeError { .. }),
        },
        Builtin::HashmapNew => {
            &&& v.len() % 2 != 0 ==> (pool1 == pool0
                && r matches Err(Error::KeyArgError { .. }))
            &&& v.len() % 2 == 0 ==> (match crate::maps::build_map_spec(pool0, Seq::empty(),
                model_seq(v)) {
                Ok((pool2, m)) => pool1 == pool2
                    && (r matches Ok(out) && out@ == ValueModel::Hashmap(m)),
                Err(_) => r matches Err(Error::DomainError { .. }),
            })
        },
        Builtin::Assoc => match value_model(v[0]) {
            ValueModel::Hashmap(m) => {
                if (v.len() - 1) % 2 != 0 {
                    pool1 == pool0 && r matches Err(Error::KeyArgError { .. })
                } else {
                    match crate::maps::build_map_spec(pool0, m, model_seq(v).skip(1)) {
                        Ok((pool2, m2)) => pool1 == pool2
                            && (r matches Ok(out) && out@ == ValueModel::Hashmap(m2)),
                        Err(_) => r matches Err(Error::DomainError { .. }),
                    }
                }
            },
            _ => pool1 == pool0 && r matches Err(Error::TypeError { .. }),
        },
        Builtin::Dissoc => match value_model(v[0]) {
            ValueModel::Hashmap(m) => match crate::maps::dissoc_spec(pool0, m,
                model_seq(v).skip(1)) {
                Ok((pool2, m2)) => pool1 == pool2
                    && (r matches Ok(out) && out@ == ValueModel::Hashmap(m2)),
                Err(_) => r matches Err(Error::DomainError { .. }),
            },
            _ => pool1 == pool0 && r matches Err(Error::TypeError { .. }),
        },
        Builtin::GetKey => match value_model(v[0]) {
            ValueModel::Hashmap(m) => match crate::maps::key_spec(pool0, value_model(v[1])) {
                Some((pool2, k)) => pool1 == pool2 && match lookup_model(m, k) {
                    Some(val) => r matches Ok(out) && out@ == val,
                    None => r matches Err(Error::KeyNotFound { key }) && key as int == k,
                },
                None => pool1 == pool0 && r matches Err(Error::DomainError { .. }),
            },
            _ => pool1 == pool0 && r matches Err(Error::TypeError { .. }),
        },
        Builtin::Update => match value_model(v[0]) {
            ValueModel::Hashmap(m) => match crate::maps::key_spec(pool0, value_model(v[1])) {
                Some((pool2, k)) => {
                    let cur = match lookup_model(m, k) {
                        Some(val) => val,
                        None => ValueModel::Nil,
                    };
                    let args = seq![cur] + model_seq(v).skip(3);
                    match ev.apply_spec(value_model(v[2]), args) {
                        Ok(nv) => r matches Ok(out)
                            && out@ == ValueModel::Hashmap(crate::maps::upsert(m, k, nv)),
                        Err(_) => r is Err,
                    }
                },
                None => pool1 == pool0 && r matches Err(Error::DomainError { .. }),
            },
            _ => pool1 == pool0 && r matches Err(Error::TypeError { .. }),
        },
        Builtin::HasKey => match value_model(v[0]) {
            ValueModel::Hashmap(m) => match crate::maps::key_spec(pool0, value_model(v[1])) {
                Some((pool2, k)) => pool1 == pool2
                    && (r matches Ok(out) && out@ == (if has_key_model(m, k) {
                        ValueModel::True
                    } else {
                        ValueModel::False
                    })),
                None => pool1 == pool0 && r matches Err(Error::DomainError { .. }),
            },
            _ => pool1 == pool0 && r matches Err(Error::TypeError { .. }),
        },
        Builtin::MapKeys => match value_model(v[0]) {
            ValueModel::Hashmap(m) => {
                if forall|j: int| 0 <= j < m.len() ==> 0 <= (#[trigger] m[j]).0 < pool0.len() {
                    r matches Ok(out) && out@ == ValueModel::List(
                        m.map_values(|e: (int, ValueModel)| ValueModel::Str(pool0[e.0])),
                    )
                } else {
                    r matches Err(Error::DomainError { .. })
                }
            },
            _ => r matches Err(Error::TypeError { .. }),
        },
        Builtin::Symbol => match value_model(v[0]) {
            ValueModel::Str(t) => pool1 == crate::names::intern_spec(pool0, t).0
                && (r matches Ok(out)
                    && out@ == ValueModel::Sym(crate::names::intern_spec(pool0, t).1)),
            ValueModel::Sym(n) => r matches Ok(out) && out@ == ValueModel::Sym(n),
            _ => r matches Err(Error::TypeError { .. }),
        },
        Builtin::MakeStruct => match value_model(v[0]) {
            ValueModel::Sym(n) => r matches Ok(out)
                && out@ == ValueModel::Struct(n, model_seq(v).skip(1)),
            _ => r matches Err(Error::DomainError { .. }),
        },
        Builtin::IndexStruct => match (value_model(v[0]), value_model(v[1])) {
            (ValueModel::Struct(tag, fields), ValueModel::Sym(want)) => {
                if tag != want {
                    r matches Err(Error::DomainError { message })
                        && message@ == "expected struct "@
                            + crate::render::name_text(pool0, want) + " but found "@
                            + crate::render::name_text(pool0, tag)
                } else {
                    match value_model(v[2]) {
                        ValueModel::Num(idx) => if 0 <= idx < fields.len() {
                            r matches Ok(out) && out@ == fields[idx]
                        } else {
                            r matches Err(Error::DomainError { .. })
                        },
                        _ => r matches Err(Error::TypeError { .. }),
                    }
                }
            },
            (ValueModel::Struct(..), _) => r matches Err(Error::TypeError { .. }),
            _ => r matches Err(Error::TypeError { .. }),
        },
        Builtin::AssertStruct => match (value_model(v[0]), value_model(v[1])) {
            (ValueModel::Struct(tag, _), ValueModel::Sym(want)) => r matches Ok(out)
                && out@ == (if tag == want { ValueModel::True } else { ValueModel::False }),
            (ValueModel::Struct(..), _) => r matches Err(Error::TypeError { .. }),
            _ => r matches Err(Error::DomainError { .. }),
        },
        Builtin::Assert => {
            &&& v.len() == 1 ==> (if is_nil_model(value_model(v[0])) {
                r matches Err(Error::DomainError { .. })
            } else {
                r matches Ok(out) && out@ == value_model(v[0])
            })
            &&& v.len() == 2 ==> (if eq_model(value_model(v[0]), value_model(v[1])) {
                r matches Ok(out) && out@ == value_model(v[0])
            } else {
                r matches Err(Error::DomainError { .. })
            })
            &&& v.len() == 3 ==> (if eq_model(value_model(v[0]), value_model(v[1])) {
                r matches Ok(out) && out@ == value_model(v[0])
            } else {
                r matches Err(Error::DomainError { message })
                    && message@ == crate::render::render_of(value_model(v[2]), pool0, false)
            })
            &&& (v.len() == 0 || v.len() > 3) ==> (r matches Err(Error::ArityError { .. }))
        },
        Builtin::Keyword => match value_model(v[0]) {
            ValueModel::Keyword(n) => r matches Ok(out) && out@ == ValueModel::Keyword(n),
            ValueModel::Str(t) => pool1 == crate::names::intern_spec(pool0, t).0
                && (r matches Ok(out)
                    && out@ == ValueModel::Keyword(crate::names::intern_spec(pool0, t).1)),
            _ => r matches Err(Error::TypeError { .. }),
        },
        Builtin::NameInternNumber => match value_model(v[0]) {
            ValueModel::Keyword(n) => if n <= i64::MAX {
                r matches Ok(out) && out@ == ValueModel::Num(n)
            } else {
                r matches Err(Error::DomainError { .. })
            },
            ValueModel::Sym(n) => if n <= i64::MAX {
                r matches Ok(out) && out@ == ValueModel::Num(n)
            } else {
                r matches Err(Error::DomainError { .. })
            },
            _ => r matches Err(Error::TypeError { .. }),
        },
        Builtin::SymbolFromInternNumber => match value_model(v[0]) {
            ValueModel::Num(n) => if 0 <= n <= usize::MAX {
                r matches Ok(out) && out@ == ValueModel::Sym(n)
            } else {
                r matches Err(Error::DomainError { .. })
            },
            _ => r matches Err(Error::TypeError { .. }),
        },
        Builtin::BoxNew => heap1 == heap0.push(value_model(v[0]))
            && (r matches Ok(out) && out@ == ValueModel::BoxCell(heap0.len() as int)),
        Builtin::SetBox => match value_model(v[0]) {
            ValueModel::BoxCell(i) => {
                if 0 <= i < heap0.len() {
                    &&& heap1 == heap0.update(i, value_model(v[1]))
                    &&& r matches Ok(out) && out@ == value_model(v[1])
                } else {
                    &&& heap1 == heap0
                    &&& r matches Err(Error::DomainError { .. })
                }
            },
            _ => {
                &&& heap1 == heap0
                &&& r matches Err(Error::TypeError { .. })
            },
        },
        Builtin::SwapBox => match value_model(v[0]) {
            ValueModel::BoxCell(i) => {
                if 0 <= i < heap0.len() {
                    match ev.apply_spec(
                        value_model(v[1]),
                        seq![heap0[i]] + model_seq(v).skip(2),
                    ) {
                        Ok(nv) => r matches Ok(out) && out@ == value_model(v[1])
                            && heap1.len() >= heap0.len() && heap1[i] == nv,
                        Err(_) => r is Err,
                    }
                } else {
                    r matches Err(Error::DomainError { .. })
                }
            },
            _ => r matches Err(Error::TypeError { .. }),
        },
        Builtin::Deref => match value_model(v[0]) {
            ValueModel::BoxCell(i) => {
                if 0 <= i < heap0.len() {
                    r matches Ok(out) && out@ == heap0[i]
                } else {
                    r matches Err(Error::DomainError { .. })
                }
            },
            _ => r matches Err(Error::TypeError { .. }),
        },
        Builtin::Reverse => match value_model(v[0]) {
            ValueModel::List(items) => r matches Ok(out)
                && out@ == ValueModel::List(items.reverse()),
            _ => r matches Err(Error::DomainError { .. }),
        },
        Builtin::StringToChars => match value_model(v[0]) {
            ValueModel::Str(t) => r matches Ok(out) && out@ == ValueModel::Chars(t),
            ValueModel::Chars(cs) => r matches Ok(out) && out@ == ValueModel::Chars(cs),
            _ => r matches Err(Error::TypeError { .. }),
        },
        Builtin::StringStartsWith => match (value_model(v[0]), value_model(v[1])) {
            (ValueModel::Str(t), ValueModel::Str(p)) => r matches Ok(out)
                && out@ == (if p.is_prefix_of(t) { ValueModel::True } else {
                    ValueModel::False
                }),
            (ValueModel::Chars(cs), ValueModel::Str(p)) => r matches Ok(out)
                && out@ == (if p.is_prefix_of(cs) { ValueModel::True } else {
                    ValueModel::False
                }),
            (ValueModel::Nil, ValueModel::Str(_)) => r matches Ok(out)
                && out@ == ValueModel::False,
            _ => r matches Err(Error::DomainError { .. }),
        },
        Builtin::StringAppendChar => match (value_model(v[0]), value_model(v[1])) {
            (ValueModel::Str(t), ValueModel::Char(c)) => r matches Ok(out)
                && out@ == ValueModel::Str(t.push(c)),
            _ => r matches Err(Error::TypeError { .. }),
        },
        Builtin::CharToString => match value_model(v[0]) {
            ValueModel::Char(c) => r matches Ok(out)
                && out@ == ValueModel::Str(Seq::empty().push(c)),
            _ => r matches Err(Error::TypeError { .. }),
        },
        Builtin::CharListToString => match value_model(v[0]) {
            ValueModel::List(items) => match crate::strings::chars_of_list(items) {
                Some(cs) => r matches Ok(out) && out@ == ValueModel::Str(cs),
                None => r matches Err(Error::TypeError { .. }),
            },
            _ => r matches Err(Error::TypeError { .. }),
        },
        Builtin::CharsSlice => {
            &&& v.len() == 2 ==> (match (value_model(v[0]), value_model(v[1])) {
                (ValueModel::Chars(cs), ValueModel::Num(start)) => {
                    if 0 <= start <= cs.len() {
                        r matches Ok(out)
                            && out@ == ValueModel::Chars(cs.subrange(start, cs.len() as int))
                    } else {
                        r matches Err(Error::DomainError { .. })
                    }
                },
                _ => r matches Err(Error::DomainError { .. }),
            })
            &&& v.len() == 3 ==> (match (value_model(v[0]), value_model(v[1]),
                value_model(v[2])) {
                (ValueModel::Chars(cs), ValueModel::Num(start), ValueModel::Num(end)) => {
                    if 0 <= start <= end <= cs.len() {
                        if start == end {
                            r matches Ok(out) && out@ == ValueModel::Nil
                        } else {
                            r matches Ok(out) && out@ == ValueModel::Chars(
                                cs.subrange(start, end))
                        }
                    } else {
                        r matches Err(Error::DomainError { .. })
                    }
                },
                _ => r matches Err(Error::DomainError { .. }),
            })
            &&& v.len() > 3 ==> (r matches Err(Error::DomainError { .. }))
        },
    }
}

/// The chain-comparison postcondition, shared by the four comparison arms.
pub open spec fn cmp_post(op: crate::ops::CmpOp, v: Seq<Value>, r: Result<Value, Error>)
    -> bool {
    match value_model(v[0]) {
        ValueModel::Num(first) => match crate::ops::chain_cmp_spec(op, first,
            model_seq(v).skip(1)) {
            Ok(holds) => r matches Ok(out) && out@ == (if holds {
                ValueModel::True
            } else {
                ValueModel::False
            }),
            Err(_) => r matches Err(Error::TypeError { .. }),
        },
        _ => r matches Err(Error::TypeError { .. }),
    }
}

/// Applies a callable value: a native procedure is arity-checked and then
/// dispatched to its implementation; a user closure is delegated to the
/// evaluator; anything else is a type error. A native call that passes the
/// arity check is held to `builtin_post`, the dispatch specification.
pub fn apply_value<E: Evaluator>(
    f: &Value,
    args: Vec<Value>,
    pool: &mut NamePool,
    heap: &mut Heap,
    ev: &E,
) -> (r: Result<Value, Error>)
    requires
        old(pool).wf(),
    ensures
        final(pool).wf(),
        old(pool)@.is_prefix_of(final(pool)@),
        (match f@ {
            ValueModel::NatFunc(b) => if builtin_arity(b).matches_spec(args@.len() as nat) {
                builtin_post(b, args@, old(pool)@, final(pool)@, old(heap)@, final(heap)@,
                    *ev, r)
            } else {
                r matches Err(Error::ArityError { .. })
            },
            ValueModel::Func { .. } => match ev.apply_spec(f@, model_seq(args@)) {
                Ok(val) => r matches Ok(out) && out@ == val,
                Err(_) => r is Err,
            },
            _ => r matches Err(Error::TypeError { .. }),
        }),
{
    match f {
        Value::NatFunc(b) => {
            if arity_of(*b).matches(args.len()) {
                call_builtin(*b, &args, pool, heap, ev)
            } else {
                Err(Error::ArityError {
                    name: builtin_name(*b),
                    expected: arity_of(*b),
                    got: args.len(),
                })
            }
        },
        Value::Func { .. } => ev.apply(f, args, pool, heap),
        _ => Err(crate::error::type_error("function", f)),
    }
}

/// Dispatches an arity-checked call to the native procedure's
/// implementation, and is held to the dispatch specification: the result is
/// exactly what `builtin_post` says procedure `b` returns on `v`.
#[verifier::rlimit(100)]
pub fn call_builtin<E: Evaluator>(
    b: Builtin,
    v: &Vec<Value>,
    pool: &mut NamePool,
    heap: &mut Heap,
    ev: &E,
) -> (r: Result<Value, Error>)
    requires
        old(pool).wf(),
        builtin_arity(b).matches_spec(v@.len() as nat),
    ensures
        final(pool).wf(),
        old(pool)@.is_prefix_of(final(pool)@),
        builtin_post(b, v@, old(pool)@, final(pool)@, old(heap)@, final(heap)@, *ev, r),
{
    match b {
        Builtin::NumAdd => crate::ops::operator_add(v),
        Builtin::NumMul => crate::ops::operator_mul(v),
        Builtin::NumSub => crate::ops::operator_sub(v),
        Builtin::NumDiv => crate::ops::operator_div(v),
        Builtin::CmpLt => crate::ops::chain_cmp(crate::ops::CmpOp::Lt, v),
        Builtin::CmpGt => crate::ops::chain_cmp(crate::ops::CmpOp::Gt, v),
        Builtin::CmpLe => crate::ops::chain_cmp(crate::ops::CmpOp::Le, v),
        Builtin::CmpGe => crate::ops::chain_cmp(crate::ops::CmpOp::Ge, v),
        Builtin::EqVals => crate::ops::operator_eq(v),
        Builtin::NeVals => crate::ops::operator_ne(v),
        Builtin::StrCat => crate::format::operator_str(v, pool),
        Builtin::ListNew => Ok(Value::List(crate::value::copy_values(v))),
        Builtin::First => crate::seqs::operator_head(v),
        Builtin::Second => nth_fixed(v, 1, pool, heap, ev),
        Builtin::Third => nth_fixed(v, 2, pool, heap, ev),
        Builtin::Fourth => nth_fixed(v, 3, pool, heap, ev),
        Builtin::Fifth => nth_fixed(v, 4, pool, heap, ev),
        Builtin::Sixth => nth_fixed(v, 5, pool, heap, ev),
        Builtin::Seventh => nth_fixed(v, 6, pool, heap, ev),
        Builtin::Eighth => nth_fixed(v, 6, pool, heap, ev),
        Builtin::Ninth => nth_fixed(v, 6, pool, heap, ev),
        Builtin::Tenth => nth_fixed(v, 6, pool, heap, ev),
        Builtin::Nth => crate::lazy::operator_nth(v, pool, heap, ev),
        Builtin::Rest => crate::lazy::operator_tail(v, pool, heap, ev),
        Builtin::Cons => crate::seqs::operator_cons(v),
        Builtin::RevCons => crate::seqs::operator_rev_cons(v),
        Builtin::IsAtom => crate::predicates::pred_atom(v),
        Builtin::IsList => crate::predicates::pred_list(v),
        Builtin::IsNil => crate::predicates::pred_nil(v),
        Builtin::IsNumber => crate::predicates::pred_number(v),
        Builtin::IsString => crate::predicates::pred_string(v),
        Builtin::IsSymbol => crate::predicates::pred_symbol(v),
        Builtin::IsFunction => crate::predicates::pred_function(v),
        Builtin::IsKeyword => crate::predicates::pred_keyword(v),
        Builtin::IsHashmap => crate::predicates::pred_hashmap(v),
        Builtin::Apply => core_apply(v, pool, heap, ev),
        Builtin::MapList => core_map(v, pool, heap, ev),
        Builtin::Append => crate::seqs::core_append(v),
        Builtin::Repr => crate::format::core_repr(v, pool),
        Builtin::Len => crate::seqs::operator_len(v),
        Builtin::Inc => crate::ops::operator_inc(v),
        Builtin::Dec => crate::ops::operator_dec(v),
        Builtin::Collect => crate::lazy::core_collect(v, pool, heap, ev),
        Builtin::Format => crate::format::core_format(v, pool),
        Builtin::Join => crate::format::core_join(v, pool),
        Builtin::HashmapNew => crate::maps::core_hashmap(v, pool),
        Builtin::Assoc => crate::maps::operator_assoc(v, pool),
        Builtin::Dissoc => crate::maps::operator_dissoc(v, pool),
        Builtin::GetKey => crate::maps::operator_map_get(v, pool),
        Builtin::Update => crate::maps::operator_map_update(v, pool, heap, ev),
        Builtin::HasKey => crate::maps::operator_has_key(v, pool),
        Builtin::MapKeys => crate::maps::core_map_keys(v, pool),
        Builtin::Symbol => core_symbol(v, pool),
        Builtin::MakeStruct => crate::structs::core_make_struct(v),
        Builtin::IndexStruct => crate::structs::core_member_struct(v, pool),
        Builtin::AssertStruct => crate::structs::core_assert_struct(v),
        Builtin::Assert => core_assert(v, pool),
        Builtin::Keyword => core_keyword(v, pool),
        Builtin::NameInternNumber => core_keyword_intern_number(v),
        Builtin::SymbolFromInternNumber => core_name_from_intern_number(v),
        Builtin::BoxNew => Ok(heap.box_value(&v[0])),
        Builtin::SetBox => heap.set_box(&v[0], &v[1]),
        Builtin::SwapBox => swap_box(v, pool, heap, ev),
        Builtin::Deref => heap.deref(&v[0]),
        Builtin::Reverse => crate::seqs::reverse_list(v),
        Builtin::StringToChars => crate::strings::core_string_to_chars(v),
        Builtin::StringStartsWith => crate::strings::core_string_starts_with(v),
        Builtin::StringAppendChar => crate::strings::core_string_append_char(v),
        Builtin::CharToString => crate::strings::core_char_to_string(v),
        Builtin::CharListToString => crate::strings::core_char_list_to_string(v),
        Builtin::CharsSlice => crate::strings::core_chars_slice(v),
    }
}

/// Indexed access at a fixed position, behind `second` through `tenth`.
/// Positions past `seventh` all read index six — a long-standing quirk of
/// the surface table, kept as it is.
fn nth_fixed<E: Evaluator>(
    v: &Vec<Value>,
    idx: i64,
    pool: &mut NamePool,
    heap: &mut Heap,
    ev: &E,
) -> (r: Result<Value, Error>)
    requires
        old(pool).wf(),
        v@.len() >= 1,
        idx >= 0,
    ensures
        final(pool).wf(),
        old(pool)@.is_prefix_of(final(pool)@),
        crate::lazy::nth_post(*ev, value_model(v@[0]), idx as int, r),
{
    let mut args: Vec<Value> = Vec::new();
    let c = copy_value(&v[0]);
    args.push(c);
    args.push(Value::Num(idx));
    proof {
        assert(value_model(args@[0]) == value_model(v@[0]));
        assert(value_model(args@[1]) == ValueModel::Num(idx as int));
    }
    crate::lazy::operator_nth(&args, pool, heap, ev)
}

/// The registry's order: every native procedure, each exactly once.
pub open spec fn registry_order() -> Seq<Builtin> {
    seq![
        Builtin::NumAdd, Builtin::NumMul, Builtin::NumSub, Builtin::NumDiv,
        Builtin::CmpLt, Builtin::CmpGt, Builtin::CmpLe, Builtin::CmpGe,
        Builtin::EqVals, Builtin::NeVals, Builtin::StrCat, Builtin::ListNew,
        Builtin::First, Builtin::Second, Builtin::Third, Builtin::Fourth,
        Builtin::Fifth, Builtin::Sixth, Builtin::Seventh, Builtin::Eighth,
        Builtin::Ninth, Builtin::Tenth, Builtin::Nth, Builtin::Rest,
        Builtin::Cons, Builtin::RevCons, Builtin::IsAtom, Builtin::IsList,
        Builtin::IsNil, Builtin::IsNumber, Builtin::IsString, Builtin::IsSymbol,
        Builtin::IsFunction, Builtin::IsKeyword, Builtin::IsHashmap, Builtin::Apply,
        Builtin::MapList, Builtin::Append, Builtin::Repr, Builtin::Len,
        Builtin::Inc, Builtin::Dec, Builtin::Collect, Builtin::Format,
        Builtin::Join, Builtin::HashmapNew, Builtin::Assoc, Builtin::Dissoc,
        Builtin::GetKey, Builtin::Update, Builtin::HasKey, Builtin::MapKeys,
        Builtin::Symbol, Builtin::MakeStruct, Builtin::IndexStruct,
        Builtin::AssertStruct, Builtin::Assert, Builtin::Keyword,
        Builtin::NameInternNumber, Builtin::SymbolFromInternNumber,
        Builtin::BoxNew, Builtin::SetBox, Builtin::SwapBox, Builtin::Deref,
        Builtin::Reverse, Builtin::StringToChars, Builtin::StringStartsWith,
        Builtin::StringAppendChar, Builtin::CharToString, Builtin::CharListToString,
        Builtin::CharsSlice,
    ]
}

/// Every native procedure, in registry order.
#[verifier::rlimit(100)]
pub fn all_builtins() -> (r: Vec<Builtin>)
    ensures
        r@ == registry_order(),
        r@.len() == 71,
{
    let mut out: Vec<Builtin> = Vec::new();
    out.push(Builtin::NumAdd);
    out.push(Builtin::NumMul);
    out.push(Builtin::NumSub);
    out.push(Builtin::NumDiv);
    out.push(Builtin::CmpLt);
    out.push(Builtin::CmpGt);
    out.push(Builtin::CmpLe);
    out.push(Builtin::CmpGe);
    out.push(Builtin::EqVals);
    out.push(Builtin::NeVals);
    out.push(Builtin::StrCat);
    out.push(Builtin::ListNew);
    out.push(Builtin::First);
    out.push(Builtin::Second);
    out.push(Builtin::Third);
    out.push(Builtin::Fourth);
    out.push(Builtin::Fifth);
    out.push(Builtin::Sixth);
    out.push(Builtin::Seventh);
    out.push(Builtin::Eighth);
    out.push(Builtin::Ninth);
    out.push(Builtin::Tenth);
    out.push(Builtin::Nth);
    out.push(Builtin::Rest);
    out.push(Builtin::Cons);
    out.push(Builtin::RevCons);
    out.push(Builtin::IsAtom);
    out.push(Builtin::IsList);
    out.push(Builtin::IsNil);
    out.push(Builtin::IsNumber);
    out.push(Builtin::IsString);
    out.push(Builtin::IsSymbol);
    out.push(Builtin::IsFunction);
    out.push(Builtin::IsKeyword);
    out.push(Builtin::IsHashmap);
    out.push(Builtin::Apply);
    out.push(Builtin::MapList);
    out.push(Builtin::Append);
    out.push(Builtin::Repr);
    out.push(Builtin::Len);
    out.push(Builtin::Inc);
    out.push(Builtin::Dec);
    out.push(Builtin::Collect);
    out.push(Builtin::Format);
    out.push(Builtin::Join);
    out.push(Builtin::HashmapNew);
    out.push(Builtin::Assoc);
    out.push(Builtin::Dissoc);
    out.push(Builtin::GetKey);
    out.push(Builtin::Update);
    out.push(Builtin::HasKey);
    out.push(Builtin::MapKeys);
    out.push(Builtin::Symbol);
    out.push(Builtin::MakeStruct);
    out.push(Builtin::IndexStruct);
    out.push(Builtin::AssertStruct);
    out.push(Builtin::Assert);
    out.push(Builtin::Keyword);
    out.push(Builtin::NameInternNumber);
    out.push(Builtin::SymbolFromInternNumber);
    out.push(Builtin::BoxNew);
    out.push(Builtin::SetBox);
    out.push(Builtin::SwapBox);
    out.push(Builtin::Deref);
    out.push(Builtin::Reverse);
    out.push(Builtin::StringToChars);
    out.push(Builtin::StringStartsWith);
    out.push(Builtin::StringAppendChar);
    out.push(Builtin::CharToString);
    out.push(Builtin::CharListToString);
    out.push(Builtin::CharsSlice);
    proof {
        assert(out@ =~= registry_order());
    }
    out
}

/// The native procedure registry: each surface name bound to its
/// arity-carrying descriptor, entry for entry — the entry at position `i`
/// binds exactly `registry_order()[i]`'s name to its descriptor.
pub fn ns() -> (r: Vec<(String, Value)>)
    ensures
        r@.len() == registry_order().len(),
        forall|i: int| 0 <= i < r@.len() ==> (#[trigger] r@[i]).0@
            == crate::builtins::builtin_name_spec(registry_order()[i]),
        forall|i: int| 0 <= i < r@.len() ==> (#[trigger] r@[i]).1
            == Value::NatFunc(registry_order()[i]),
{
    let all = all_builtins();
    let mut out: Vec<(String, Value)> = Vec::new();
    let mut i: usize = 0;
    while i < all.len()
        invariant
            i <= all@.len(),
            all@ == registry_order(),
            out@.len() == i,
            forall|j: int| 0 <= j < i ==> (#[trigger] out@[j]).0@
                == crate::builtins::builtin_name_spec(all@[j]),
            forall|j: int| 0 <= j < i ==> (#[trigger] out@[j]).1
                == Value::NatFunc(all@[j]),
        decreases all@.len() - i,
    {
        let b = all[i];
        let name = builtin_name(b);
        out.push((name, Value::NatFunc(b)));
        i += 1;
    }
    out
}

} // verus!
