use vstd::prelude::*;
use crate::error::Error;
use crate::eval::Evaluator;
use crate::heap::Heap;
use crate::names::NamePool;
use crate::value::{copy_value, copy_values, lemma_model_seq, model_seq, value_model, Value,
    ValueModel};

verus! {

/// What eagerly materializing the forcing chain that starts at suspension
/// `t` in environment `e` yields, given at most `fuel` forcing steps:
/// `None` when `fuel` steps are not enough, `Some(Err)` when a step fails,
/// and otherwise the heads of the chain in forcing order. The chain ends at
/// the first non-lazy result; each lazy result contributes its own forced
/// head and continues at its own tail.
pub open spec fn collect_from<E: Evaluator>(ev: E, t: ValueModel, e: int, fuel: nat)
    -> Option<Result<Seq<ValueModel>, ()>>
    decreases fuel,
{
    if fuel == 0 {
        None
    } else {
        match ev.eval_spec(t, e) {
            Err(_) => Some(Err(())),
            Ok(ValueModel::Lazy { head, tail, env }) => match collect_from(
                ev, *tail, env, (fuel - 1) as nat,
            ) {
                Some(Ok(s)) => Some(Ok(seq![*head] + s)),
                other => other,
            },
            Ok(_) => Some(Ok(Seq::empty())),
        }
    }
}

/// The head at 1-based position `n` of the forcing chain starting at `t` in
/// `e`: step-forcing `n` times, `Nil` when the chain ends before `n`.
pub open spec fn nth_from<E: Evaluator>(ev: E, t: ValueModel, e: int, n: nat)
    -> Result<ValueModel, ()>
    decreases n,
{
    match ev.eval_spec(t, e) {
        Err(_) => Err(()),
        Ok(ValueModel::Lazy { head, tail, env }) => if n <= 1 {
            Ok(*head)
        } else {
            nth_from(ev, *tail, env, (n - 1) as nat)
        },
        Ok(_) => Ok(ValueModel::Nil),
    }
}

/// Once enough fuel is granted, granting more changes nothing.
pub proof fn lemma_collect_stable<E: Evaluator>(ev: E, t: ValueModel, e: int, f1: nat, f2: nat)
    requires
        f1 <= f2,
        collect_from(ev, t, e, f1) is Some,
    ensures
        collect_from(ev, t, e, f2) == collect_from(ev, t, e, f1),
    decreases f1,
{
    if f1 > 0 && f2 > 0 {
        match ev.eval_spec(t, e) {
            Err(_) => {},
            Ok(ValueModel::Lazy { head, tail, env }) => {
                if collect_from(ev, *tail, env, (f1 - 1) as nat) is Some {
                    lemma_collect_stable(ev, *tail, env, (f1 - 1) as nat, (f2 - 1) as nat);
                }
            },
            Ok(_) => {},
        }
    }
}

/// Indexed access agrees with eager materialization: when the chain from `t`
/// materializes to `s`, step-forcing to position `i` yields exactly `s[i-1]`.
pub proof fn lemma_nth_matches_collect<E: Evaluator>(
    ev: E,
    t: ValueModel,
    e: int,
    fuel: nat,
    s: Seq<ValueModel>,
    i: nat,
)
    requires
        collect_from(ev, t, e, fuel) == Some(Ok::<Seq<ValueModel>, ()>(s)),
        1 <= i <= s.len(),
    ensures
        nth_from(ev, t, e, i) == Ok::<ValueModel, ()>(s[i - 1]),
    decreases i,
{
    assert(fuel > 0);
    match ev.eval_spec(t, e) {
        Err(_) => {},
        Ok(ValueModel::Lazy { head, tail, env }) => {
            match collect_from(ev, *tail, env, (fuel - 1) as nat) {
                Some(Ok(s2)) => {
                    assert(s == seq![*head] + s2);
                    if i <= 1 {
                        assert(s[0] == *head);
                    } else {
                        lemma_nth_matches_collect(ev, *tail, env, (fuel - 1) as nat, s2,
                            (i - 1) as nat);
                        assert(s[i - 1] == s2[i - 2]);
                    }
                },
                _ => {},
            }
        },
        Ok(_) => {},
    }
}

/// The lazy-forcing law. A `Lazy` cell with forced head `h` whose chain
/// materializes (with some finite number of steps) to `s` collects to the
/// list `[h] + s` — its heads in order — and indexed access agrees with that
/// list at every position: position 0 is `h`, and each later position `i` is
/// reached by step-forcing `i` times.
pub proof fn lemma_lazy_forcing<E: Evaluator>(
    ev: E,
    h: ValueModel,
    t: ValueModel,
    e: int,
    fuel: nat,
    s: Seq<ValueModel>,
    i: nat,
)
    requires
        collect_from(ev, t, e, fuel) == Some(Ok::<Seq<ValueModel>, ()>(s)),
        i < s.len() + 1,
    ensures
        (seq![h] + s).len() == s.len() + 1,
        i == 0 ==> (seq![h] + s)[i as int] == h,
        i >= 1 ==> nth_from(ev, t, e, i) == Ok::<ValueModel, ()>((seq![h] + s)[i as int]),
{
    if i >= 1 {
        lemma_nth_matches_collect(ev, t, e, fuel, s, i);
        assert((seq![h] + s)[i as int] == s[i - 1]);
    }
}

/// `rest`: one step along a sequence. `Nil` and the empty list rest to
/// `Nil`; a non-empty list sheds its head; a lazy cell is forced one step
/// and yields whatever the evaluator returns — a further cell or the
/// terminal value.
pub fn operator_tail<E: Evaluator>(
    v: &Vec<Value>,
    pool: &mut NamePool,
    heap: &mut Heap,
    ev: &E,
) -> (r: Result<Value, Error>)
    requires
        old(pool).wf(),
        v@.len() >= 1,
    ensures
        final(pool).wf(),
        old(pool)@.is_prefix_of(final(pool)@),
        (match value_model(v@[0]) {
            ValueModel::Nil => r matches Ok(out) && out@ == ValueModel::Nil,
            ValueModel::List(items) => r matches Ok(out) && out@ == (if items.len() == 0 {
                ValueModel::Nil
            } else {
                ValueModel::List(items.drop_first())
            }),
            ValueModel::Lazy { tail, env, .. } => match (*ev).eval_spec(*tail, env) {
                Ok(val) => r matches Ok(out) && out@ == val,
                Err(_) => r is Err,
            },
            _ => r matches Err(Error::TypeError { .. }),
        }),
{
    match &v[0] {
        Value::Nil => Ok(Value::Nil),
        Value::List(items) => {
            proof {
                lemma_model_seq(items@);
            }
            if items.len() == 0 {
                Ok(Value::Nil)
            } else {
                let mut out: Vec<Value> = Vec::new();
                let mut i: usize = 1;
                while i < items.len()
                    invariant
                        1 <= i <= items@.len(),
                        out@.len() == i - 1,
                        forall|j: int| 0 <= j < out@.len()
                            ==> value_model(#[trigger] out@[j]) == value_model(items@[j + 1]),
                    decreases items@.len() - i,
                {
                    let c = copy_value(&items[i]);
                    out.push(c);
                    i += 1;
                }
                proof {
                    lemma_model_seq(out@);
                    lemma_model_seq(items@);
                    assert(model_seq(out@) =~= model_seq(items@).drop_first());
                }
                Ok(Value::List(out))
            }
        },
        Value::Lazy { tail, env, .. } => ev.eval(tail, *env, pool, heap),
        _ => Err(crate::error::type_error("list", &v[0])),
    }
}

/// What indexed access at position `n` of `target` returns: lists index
/// directly with `Nil` past the end; a lazy chain is step-forced `n` times;
/// a negative index is refused; anything else is a type error.
pub open spec fn nth_post<E: Evaluator>(
    ev: E,
    target: ValueModel,
    n: int,
    r: Result<Value, Error>,
) -> bool {
    if n < 0 {
        r matches Err(Error::DomainError { .. })
    } else {
        match target {
            ValueModel::Nil => r matches Ok(out) && out@ == ValueModel::Nil,
            ValueModel::List(items) => r matches Ok(out) && out@ == (
                if 0 <= n < items.len() && items.len() > 0 {
                    items[n]
                } else {
                    ValueModel::Nil
                }
            ),
            ValueModel::Lazy { head, tail, env } => {
                if n == 0 {
                    r matches Ok(out) && out@ == *head
                } else {
                    match nth_from(ev, *tail, env, n as nat) {
                        Ok(val) => r matches Ok(out) && out@ == val,
                        Err(_) => r is Err,
                    }
                }
            },
            _ => r matches Err(Error::TypeError { .. }),
        }
    }
}

/// `nth`: indexed access. Lists index directly with `Nil` past the end; a
/// lazy chain is step-forced `n` times; a negative index is refused.
pub fn operator_nth<E: Evaluator>(
    v: &Vec<Value>,
    pool: &mut NamePool,
    heap: &mut Heap,
    ev: &E,
) -> (r: Result<Value, Error>)
    requires
        old(pool).wf(),
        v@.len() >= 2,
    ensures
        final(pool).wf(),
        old(pool)@.is_prefix_of(final(pool)@),
        (match value_model(v@[1]) {
            ValueModel::Num(n) => nth_post(*ev, value_model(v@[0]), n, r),
            _ => r matches Err(Error::TypeError { .. }),
        }),
{
    let n = match &v[1] {
        Value::Num(n) => *n,
        _ => {
            return Err(crate::error::type_error("number", &v[1]));
        },
    };
    if n < 0 {
        return Err(crate::error::domain_error("index must be non-negative"));
    }
    match &v[0] {
        Value::Nil => Ok(Value::Nil),
        Value::List(items) => {
            proof {
                lemma_model_seq(items@);
            }
            let len = items.len();
            if len == 0 {
                Ok(Value::Nil)
            } else if (n as u64) < (len as u64) {
                Ok(copy_value(&items[n as usize]))
            } else {
                Ok(Value::Nil)
            }
        },
        Value::Lazy { head, tail, env } => {
            if n == 0 {
                return Ok(copy_value(head));
            }
            let ghost t0 = value_model(**tail);
            let ghost e0 = *env as int;
            let ghost n0 = n as nat;
            let mut cur: Value = copy_value(tail);
            let mut cur_env: u64 = *env;
            let mut count: i64 = n;
            loop
                invariant
                    pool.wf(),
                    old(pool)@.is_prefix_of(pool@),
                    v@.len() >= 2,
                    value_model(v@[1]) == ValueModel::Num(n as int),
                    n >= 1,
                    n0 == n as nat,
                    value_model(v@[0]) is Lazy,
                    value_model(v@[0])->Lazy_tail == t0,
                    value_model(v@[0])->Lazy_env == e0,
                    1 <= count <= n,
                    nth_from(*ev, t0, e0, n0) == nth_from(*ev, cur@, cur_env as int,
                        count as nat),
                decreases count,
            {
                let ghost cur_before = cur@;
                let ghost env_before = cur_env as int;
                let stepped = match ev.eval(&cur, cur_env, pool, heap) {
                    Ok(val) => val,
                    Err(err) => {
                        proof {
                            assert(nth_from(*ev, cur_before, env_before, count as nat)
                                is Err);
                        }
                        return Err(err);
                    },
                };
                match stepped {
                    Value::Lazy { head, tail, env } => {
                        if count == 1 {
                            proof {
                                assert(nth_from(*ev, cur_before, env_before, 1nat)
                                    == Ok::<ValueModel, ()>(value_model(*head)));
                            }
                            return Ok(*head);
                        }
                        proof {
                            assert(nth_from(*ev, cur_before, env_before, count as nat)
                                == nth_from(*ev, value_model(*tail), env as int,
                                    (count - 1) as nat));
                        }
                        cur = *tail;
                        cur_env = env;
                        count = count - 1;
                    },
                    _ => {
                        proof {
                            assert(nth_from(*ev, cur_before, env_before, count as nat)
                                == Ok::<ValueModel, ()>(ValueModel::Nil));
                        }
                        return Ok(Value::Nil);
                    },
                }
            }
        },
        _ => Err(crate::error::type_error("collection", &v[0])),
    }
}

/// `collect`: eager materialization. A list (or `Nil`) is already material;
/// a lazy cell is forced to completion, accumulating every head in order.
/// The evaluator's chain metric guarantees the walk ends.
pub fn core_collect<E: Evaluator>(
    v: &Vec<Value>,
    pool: &mut NamePool,
    heap: &mut Heap,
    ev: &E,
) -> (r: Result<Value, Error>)
    requires
        old(pool).wf(),
        v@.len() >= 1,
    ensures
        final(pool).wf(),
        old(pool)@.is_prefix_of(final(pool)@),
        (match value_model(v@[0]) {
            ValueModel::Nil => r matches Ok(out) && out@ == ValueModel::Nil,
            ValueModel::List(items) => r matches Ok(out) && out@ == ValueModel::List(items),
            ValueModel::Lazy { head, tail, env } => forall|fuel: nat|
                match #[trigger] collect_from(*ev, *tail, env, fuel) {
                    Some(Ok(s)) => r matches Ok(out)
                        && out@ == ValueModel::List(seq![*head] + s),
                    Some(Err(_)) => r is Err,
                    None => true,
                },
            _ => r matches Err(Error::TypeError { .. }),
        }),
{
    match &v[0] {
        Value::Nil => Ok(Value::Nil),
        Value::List(items) => {
            let out = copy_values(items);
            Ok(Value::List(out))
        },
        Value::Lazy { head, tail, env } => {
            let ghost t0 = value_model(**tail);
            let ghost e0 = *env as int;
            let mut out: Vec<Value> = Vec::new();
            out.push(copy_value(head));
            let mut cur: Value = copy_value(tail);
            let mut cur_env: u64 = *env;
            let ghost mut steps: nat = 0nat;
            proof {
                lemma_model_seq(out@);
                assert(model_seq(out@).drop_first() =~= Seq::<ValueModel>::empty());
                assert forall|fuel: nat| true implies (match #[trigger] collect_from(*ev,
                    cur@, cur_env as int, fuel) {
                    Some(Ok(s)) => collect_from(*ev, t0, e0, fuel + steps)
                        == Some(Ok::<Seq<ValueModel>, ()>(model_seq(out@).drop_first() + s)),
                    Some(Err(_)) => collect_from(*ev, t0, e0, fuel + steps)
                        matches Some(Err(_)),
                    None => collect_from(*ev, t0, e0, fuel + steps) is None,
                }) by {
                    assert(cur@ == t0);
                    assert(cur_env as int == e0);
                    assert(fuel + steps == fuel);
                    match collect_from(*ev, t0, e0, fuel) {
                        Some(Ok(s)) => {
                            assert(model_seq(out@).drop_first() + s =~= s);
                            assert(collect_from(*ev, t0, e0, fuel + steps)
                                == Some(Ok::<Seq<ValueModel>, ()>(
                                    model_seq(out@).drop_first() + s)));
                        },
                        Some(Err(_)) => {
                            assert(collect_from(*ev, t0, e0, fuel + steps)
                                matches Some(Err(_)));
                        },
                        None => {
                            assert(collect_from(*ev, t0, e0, fuel + steps) is None);
                        },
                    }
                }
            }
            loop
                invariant
                    pool.wf(),
                    old(pool)@.is_prefix_of(pool@),
                    v@.len() >= 1,
                    value_model(v@[0]) is Lazy,
                    value_model(v@[0])->Lazy_tail == t0,
                    value_model(v@[0])->Lazy_env == e0,
                    out@.len() >= 1,
                    value_model(out@[0]) == value_model(v@[0])->Lazy_head,
                    forall|fuel: nat| match #[trigger] collect_from(*ev, cur@,
                        cur_env as int, fuel) {
                        Some(Ok(s)) => collect_from(*ev, t0, e0, fuel + steps)
                            == Some(Ok::<Seq<ValueModel>, ()>(
                                model_seq(out@).drop_first() + s)),
                        Some(Err(_)) => collect_from(*ev, t0, e0, fuel + steps)
                            matches Some(Err(_)),
                        None => collect_from(*ev, t0, e0, fuel + steps) is None,
                    },
                decreases ev.force_metric(cur@, cur_env as int),
            {
                let ghost cur_before = cur@;
                let ghost env_before = cur_env as int;
                let ghost out_before = out@;
                let stepped = match ev.eval(&cur, cur_env, pool, heap) {
                    Ok(val) => val,
                    Err(err) => {
                        proof {
                            assert forall|fuel: nat| #[trigger] collect_from(*ev, t0, e0, fuel)
                                is Some implies collect_from(*ev, t0, e0, fuel)
                                matches Some(Err(_)) by {
                                if fuel >= steps + 1 {
                                    assert(collect_from(*ev, cur_before, env_before,
                                        (fuel - steps) as nat) == Some(Err::<Seq<ValueModel>,
                                        ()>(())));
                                } else {
                                    lemma_collect_stable(*ev, t0, e0, fuel, steps + 1);
                                    assert(collect_from(*ev, cur_before, env_before, 1nat)
                                        == Some(Err::<Seq<ValueModel>, ()>(())));
                                }
                            }
                        }
                        return Err(err);
                    },
                };
                match stepped {
                    Value::Lazy { head, tail, env } => {
                        out.push(*head);
                        cur = *tail;
                        cur_env = env;
                        proof {
                            steps = steps + 1;
                            lemma_model_seq(out_before);
                            lemma_model_seq(out@);
                            assert(model_seq(out@).drop_first() =~= model_seq(out_before)
                                .drop_first().push(value_model(out@[out@.len() - 1])));
                            assert forall|fuel: nat| true implies (match #[trigger] collect_from(
                                *ev, cur@, cur_env as int, fuel,
                            ) {
                                Some(Ok(s)) => collect_from(*ev, t0, e0, fuel + steps)
                                    == Some(Ok::<Seq<ValueModel>, ()>(
                                        model_seq(out@).drop_first() + s)),
                                Some(Err(_)) => collect_from(*ev, t0, e0, fuel + steps)
                                    matches Some(Err(_)),
                                None => collect_from(*ev, t0, e0, fuel + steps) is None,
                            }) by {
                                let prev_fuel = fuel + 1;
                                assert(collect_from(*ev, cur_before, env_before, prev_fuel)
                                    == (match collect_from(*ev, cur@, cur_env as int, fuel) {
                                        Some(Ok(s)) => Some(Ok::<Seq<ValueModel>, ()>(
                                            seq![value_model(out@[out@.len() - 1])] + s)),
                                        other => other,
                                    }));
                                match collect_from(*ev, cur@, cur_env as int, fuel) {
                                    Some(Ok(s)) => {
                                        assert(model_seq(out_before).drop_first()
                                            + (seq![value_model(out@[out@.len() - 1])] + s)
                                            =~= model_seq(out@).drop_first() + s);
                                    },
                                    _ => {},
                                }
                            }
                        }
                    },
                    _ => {
                        proof {
                            lemma_model_seq(out@);
                            assert forall|fuel: nat| true implies (match #[trigger] collect_from(
                                *ev, t0, e0, fuel,
                            ) {
                                Some(Ok(s)) => s == model_seq(out@).drop_first(),
                                Some(Err(_)) => false,
                                None => true,
                            }) by {
                                if collect_from(*ev, t0, e0, fuel) is Some {
                                    if fuel >= steps + 1 {
                                        assert(collect_from(*ev, cur_before, env_before,
                                            (fuel - steps) as nat) == Some(Ok::<Seq<ValueModel>,
                                            ()>(Seq::empty())));
                                        assert(model_seq(out@).drop_first() + Seq::empty()
                                            =~= model_seq(out@).drop_first());
                                    } else {
                                        lemma_collect_stable(*ev, t0, e0, fuel, steps + 1);
                                        assert(collect_from(*ev, cur_before, env_before, 1nat)
                                            == Some(Ok::<Seq<ValueModel>, ()>(Seq::empty())));
                                        assert(model_seq(out@).drop_first() + Seq::empty()
                                            =~= model_seq(out@).drop_first());
                                    }
                                }
                            }
                            assert(seq![value_model(out@[0])] + model_seq(out@).drop_first()
                                =~= model_seq(out@));
                        }
                        return Ok(Value::List(out));
                    },
                }
            }
        },
        _ => Err(crate::error::type_error("list", &v[0])),
    }
}

} // verus!
