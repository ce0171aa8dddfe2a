use vstd::prelude::*;
use crate::error::Error;
use crate::value::{eq_model, lemma_model_seq, model_seq, value_model, values_equal, Value,
    ValueModel};

verus! {

/// `==`: whether every later argument is structurally equal to the first.
pub fn operator_eq(v: &Vec<Value>) -> (r: Result<Value, Error>)
    requires
        v@.len() >= 1,
    ensures
        r matches Ok(out) && out@ == (if forall|i: int| 1 <= i < v@.len()
            ==> eq_model(value_model(v@[0]), value_model(#[trigger] v@[i])) {
            ValueModel::True
        } else {
            ValueModel::False
        }),
{
    let mut i: usize = 1;
    while i < v.len()
        invariant
            1 <= i <= v@.len(),
            forall|j: int| 1 <= j < i
                ==> eq_model(value_model(v@[0]), value_model(#[trigger] v@[j])),
        decreases v@.len() - i,
    {
        if !values_equal(&v[0], &v[i]) {
            proof {
                assert(!eq_model(value_model(v@[0]), value_model(v@[i as int])));
            }
            return Ok(Value::False);
        }
        i += 1;
    }
    Ok(Value::True)
}

/// `!=`: whether no later argument is structurally equal to the first.
pub fn operator_ne(v: &Vec<Value>) -> (r: Result<Value, Error>)
    requires
        v@.len() >= 1,
    ensures
        r matches Ok(out) && out@ == (if forall|i: int| 1 <= i < v@.len()
            ==> !eq_model(value_model(v@[0]), value_model(#[trigger] v@[i])) {
            ValueModel::True
        } else {
            ValueModel::False
        }),
{
    let mut i: usize = 1;
    while i < v.len()
        invariant
            1 <= i <= v@.len(),
            forall|j: int| 1 <= j < i
                ==> !eq_model(value_model(v@[0]), value_model(#[trigger] v@[j])),
        decreases v@.len() - i,
    {
        if values_equal(&v[0], &v[i]) {
            proof {
                assert(eq_model(value_model(v@[0]), value_model(v@[i as int])));
            }
            return Ok(Value::False);
        }
        i += 1;
    }
    Ok(Value::True)
}

/// `inc`: one more; the numeric edge is a domain error.
pub fn operator_inc(v: &Vec<Value>) -> (r: Result<Value, Error>)
    requires
        v@.len() >= 1,
    ensures
        (match value_model(v@[0]) {
            ValueModel::Num(n) => if n + 1 <= i64::MAX {
                r matches Ok(out) && out@ == ValueModel::Num(n + 1)
            } else {
                r matches Err(Error::DomainError { .. })
            },
            _ => r matches Err(Error::TypeError { .. }),
        }),
{
    match &v[0] {
        Value::Num(n) => {
            if *n < i64::MAX {
                Ok(Value::Num(*n + 1))
            } else {
                Err(crate::error::domain_error("numeric overflow"))
            }
        },
        _ => Err(crate::error::type_error("number", &v[0])),
    }
}

/// `dec`: one less; the numeric edge is a domain error.
pub fn operator_dec(v: &Vec<Value>) -> (r: Result<Value, Error>)
    requires
        v@.len() >= 1,
    ensures
        (match value_model(v@[0]) {
            ValueModel::Num(n) => if n - 1 >= i64::MIN {
                r matches Ok(out) && out@ == ValueModel::Num(n - 1)
            } else {
                r matches Err(Error::DomainError { .. })
            },
            _ => r matches Err(Error::TypeError { .. }),
        }),
{
    match &v[0] {
        Value::Num(n) => {
            if *n > i64::MIN {
                Ok(Value::Num(*n - 1))
            } else {
                Err(crate::error::domain_error("numeric overflow"))
            }
        },
        _ => Err(crate::error::type_error("number", &v[0])),
    }
}

/// A running left fold of addition over number arguments, stopped by the
/// first non-number (`Err(true)`) or the first step outside the numeric
/// range (`Err(false)`).
pub open spec fn fold_add(acc: int, args: Seq<ValueModel>) -> Result<int, bool>
    decreases args,
{
    if args.len() == 0 {
        Ok(acc)
    } else {
        match args[0] {
            ValueModel::Num(k) => if i64::MIN <= acc + k <= i64::MAX {
                fold_add(acc + k, args.drop_first())
            } else {
                Err(false)
            },
            _ => Err(true),
        }
    }
}

/// A running left fold of multiplication, under the same rules as `fold_add`.
pub open spec fn fold_mul(acc: int, args: Seq<ValueModel>) -> Result<int, bool>
    decreases args,
{
    if args.len() == 0 {
        Ok(acc)
    } else {
        match args[0] {
            ValueModel::Num(k) => if i64::MIN <= acc * k <= i64::MAX {
                fold_mul(acc * k, args.drop_first())
            } else {
                Err(false)
            },
            _ => Err(true),
        }
    }
}

/// `+`: the sum of the arguments, from zero. A non-number is a type error;
/// a step outside the numeric range is a domain error.
pub fn operator_add(v: &Vec<Value>) -> (r: Result<Value, Error>)
    ensures
        (match fold_add(0, model_seq(v@)) {
            Ok(total) => r matches Ok(out) && out@ == ValueModel::Num(total),
            Err(wrong_kind) => if wrong_kind {
                r matches Err(Error::TypeError { .. })
            } else {
                r matches Err(Error::DomainError { .. })
            },
        }),
{
    proof {
        lemma_model_seq(v@);
    }
    let ghost m = model_seq(v@);
    proof {
        assert(m.skip(0) =~= m);
    }
    let mut acc: i64 = 0;
    let mut i: usize = 0;
    while i < v.len()
        invariant
            i <= v@.len(),
            m == model_seq(v@),
            m.len() == v@.len(),
            forall|j: int| 0 <= j < v@.len() ==> m[j] == value_model(#[trigger] v@[j]),
            forall|j: int| 0 <= j < i ==> (#[trigger] m[j]) is Num,
            fold_add(0, m) == fold_add(acc as int, m.skip(i as int)),
        decreases v@.len() - i,
    {
        let k = match &v[i] {
            Value::Num(k) => *k,
            _ => {
                proof {
                    assert(m.skip(i as int)[0] == m[i as int]);
                }
                return Err(crate::error::type_error("number", &v[i]));
            },
        };
        proof {
            assert(m.skip(i as int)[0] == m[i as int]);
            assert(m.skip(i as int).drop_first() =~= m.skip(i as int + 1));
        }
        acc = match acc.checked_add(k) {
            Some(next) => next,
            None => {
                return Err(crate::error::domain_error("numeric overflow"));
            },
        };
        i += 1;
    }
    proof {
        assert(m.skip(m.len() as int).len() == 0);
    }
    Ok(Value::Num(acc))
}

/// `*`: the product of the arguments, from one, under the same rules as `+`.
pub fn operator_mul(v: &Vec<Value>) -> (r: Result<Value, Error>)
    ensures
        (match fold_mul(1, model_seq(v@)) {
            Ok(total) => r matches Ok(out) && out@ == ValueModel::Num(total),
            Err(wrong_kind) => if wrong_kind {
                r matches Err(Error::TypeError { .. })
            } else {
                r matches Err(Error::DomainError { .. })
            },
        }),
{
    proof {
        lemma_model_seq(v@);
    }
    let ghost m = model_seq(v@);
    proof {
        assert(m.skip(0) =~= m);
    }
    let mut acc: i64 = 1;
    let mut i: usize = 0;
    while i < v.len()
        invariant
            i <= v@.len(),
            m == model_seq(v@),
            m.len() == v@.len(),
            forall|j: int| 0 <= j < v@.len() ==> m[j] == value_model(#[trigger] v@[j]),
            forall|j: int| 0 <= j < i ==> (#[trigger] m[j]) is Num,
            fold_mul(1, m) == fold_mul(acc as int, m.skip(i as int)),
        decreases v@.len() - i,
    {
        let k = match &v[i] {
            Value::Num(k) => *k,
            _ => {
                proof {
                    assert(m.skip(i as int)[0] == m[i as int]);
                }
                return Err(crate::error::type_error("number", &v[i]));
            },
        };
        proof {
            assert(m.skip(i as int)[0] == m[i as int]);
            assert(m.skip(i as int).drop_first() =~= m.skip(i as int + 1));
        }
        acc = match acc.checked_mul(k) {
            Some(next) => next,
            None => {
                return Err(crate::error::domain_error("numeric overflow"));
            },
        };
        i += 1;
    }
    proof {
        assert(m.skip(m.len() as int).len() == 0);
    }
    Ok(Value::Num(acc))
}

/// A running left fold of subtraction, under the same rules as `fold_add`.
pub open spec fn fold_sub(acc: int, args: Seq<ValueModel>) -> Result<int, bool>
    decreases args,
{
    if args.len() == 0 {
        Ok(acc)
    } else {
        match args[0] {
            ValueModel::Num(k) => if i64::MIN <= acc - k <= i64::MAX {
                fold_sub(acc - k, args.drop_first())
            } else {
                Err(false)
            },
            _ => Err(true),
        }
    }
}

/// `-`: with no arguments zero; with one its negation; otherwise the first
/// argument minus each of the rest in turn.
pub fn operator_sub(v: &Vec<Value>) -> (r: Result<Value, Error>)
    ensures
        v@.len() == 0 ==> (r matches Ok(out) && out@ == ValueModel::Num(0)),
        v@.len() == 1 ==> (match value_model(v@[0]) {
            ValueModel::Num(n) => if -n <= i64::MAX {
                r matches Ok(out) && out@ == ValueModel::Num(-n)
            } else {
                r matches Err(Error::DomainError { .. })
            },
            _ => r matches Err(Error::TypeError { .. }),
        }),
        v@.len() >= 2 ==> (match value_model(v@[0]) {
            ValueModel::Num(first) => match fold_sub(first, model_seq(v@).skip(1)) {
                Ok(total) => r matches Ok(out) && out@ == ValueModel::Num(total),
                Err(wrong_kind) => if wrong_kind {
                    r matches Err(Error::TypeError { .. })
                } else {
                    r matches Err(Error::DomainError { .. })
                },
            },
            _ => r matches Err(Error::TypeError { .. }),
        }),
{
    if v.len() == 0 {
        return Ok(Value::Num(0));
    }
    let first = match &v[0] {
        Value::Num(n) => *n,
        _ => {
            return Err(crate::error::type_error("number", &v[0]));
        },
    };
    if v.len() == 1 {
        return if first > i64::MIN {
            Ok(Value::Num(-first))
        } else {
            Err(crate::error::domain_error("numeric overflow"))
        };
    }
    proof {
        lemma_model_seq(v@);
    }
    let ghost m = model_seq(v@);
    let mut acc: i64 = first;
    let mut i: usize = 1;
    while i < v.len()
        invariant
            1 <= i <= v@.len(),
            v@.len() >= 2,
            m == model_seq(v@),
            m.len() == v@.len(),
            forall|j: int| 0 <= j < v@.len() ==> m[j] == value_model(#[trigger] v@[j]),
            value_model(v@[0]) == ValueModel::Num(first as int),
            fold_sub(first as int, m.skip(1)) == fold_sub(acc as int, m.skip(i as int)),
        decreases v@.len() - i,
    {
        let k = match &v[i] {
            Value::Num(k) => *k,
            _ => {
                proof {
                    assert(m.skip(i as int)[0] == m[i as int]);
                }
                return Err(crate::error::type_error("number", &v[i]));
            },
        };
        proof {
            assert(m.skip(i as int)[0] == m[i as int]);
            assert(m.skip(i as int).drop_first() =~= m.skip(i as int + 1));
        }
        acc = match acc.checked_sub(k) {
            Some(next) => next,
            None => {
                return Err(crate::error::domain_error("numeric overflow"));
            },
        };
        i += 1;
    }
    proof {
        assert(m.skip(m.len() as int).len() == 0);
    }
    Ok(Value::Num(acc))
}

/// Truncating integer division, the quotient rounding toward zero.
pub open spec fn trunc_div(a: int, b: int) -> int {
    let q = abs_int(a) / abs_int(b);
    if (a < 0) != (b < 0) {
        -q
    } else {
        q
    }
}

pub open spec fn abs_int(a: int) -> int {
    if a < 0 {
        -a
    } else {
        a
    }
}

/// Truncating division on machine numbers; zero divisors and the one
/// overflowing quotient are excluded.
fn div_i64(a: i64, b: i64) -> (r: Result<i64, Error>)
    ensures
        b == 0 ==> (r matches Err(Error::DomainError { .. })),
        b != 0 && a == i64::MIN && b == -1 ==> (r matches Err(Error::DomainError { .. })),
        b != 0 && !(a == i64::MIN && b == -1)
            ==> (r matches Ok(q) && q as int == trunc_div(a as int, b as int)),
{
    if b == 0 {
        return Err(crate::error::domain_error("division by zero"));
    }
    if a == i64::MIN && b == -1 {
        return Err(crate::error::domain_error("numeric overflow"));
    }
    let mag_a: u64 = if a >= 0 {
        a as u64
    } else if a == i64::MIN {
        0x8000_0000_0000_0000u64
    } else {
        (-a) as u64
    };
    let mag_b: u64 = if b >= 0 {
        b as u64
    } else if b == i64::MIN {
        0x8000_0000_0000_0000u64
    } else {
        (-b) as u64
    };
    proof {
        assert(mag_a == abs_int(a as int));
        assert(mag_b == abs_int(b as int));
    }
    let q = mag_a / mag_b;
    proof {
        assert(mag_b >= 1);
        vstd::arithmetic::div_mod::lemma_div_nonincreasing(mag_a as int, mag_b as int);
        assert(q <= mag_a);
        assert(mag_a <= 0x8000_0000_0000_0000u64);
    }
    let neg = (a < 0) != (b < 0);
    if neg {
        proof {
            assert(trunc_div(a as int, b as int) == -(q as int));
        }
        let qi: i64 = if q == 0x8000_0000_0000_0000u64 {
            i64::MIN
        } else {
            -(q as i64)
        };
        Ok(qi)
    } else {
        proof {
            if a == i64::MIN {
                assert(b <= -2);
                assert(mag_b >= 2);
                vstd::arithmetic::div_mod::lemma_div_is_ordered_by_denominator(
                    mag_a as int, 2, mag_b as int);
                assert(mag_a as int / 2 == 0x4000_0000_0000_0000);
            }
            assert(q <= i64::MAX as u64);
            assert(trunc_div(a as int, b as int) == q as int);
        }
        Ok(q as i64)
    }
}

/// A running left fold of truncating division: a non-number is `Err(true)`,
/// a zero divisor or the one overflowing quotient `Err(false)`.
pub open spec fn fold_div(acc: int, args: Seq<ValueModel>) -> Result<int, bool>
    decreases args,
{
    if args.len() == 0 {
        Ok(acc)
    } else {
        match args[0] {
            ValueModel::Num(k) => if k != 0 && !(acc == i64::MIN && k == -1) {
                fold_div(trunc_div(acc, k), args.drop_first())
            } else {
                Err(false)
            },
            _ => Err(true),
        }
    }
}

/// `/`: with no arguments an error; with one the truncated reciprocal;
/// otherwise the first argument divided by each of the rest in turn. A zero
/// divisor is a domain error.
pub fn operator_div(v: &Vec<Value>) -> (r: Result<Value, Error>)
    ensures
        v@.len() == 0 ==> (r matches Err(Error::DomainError { .. })),
        v@.len() == 1 ==> (match value_model(v@[0]) {
            ValueModel::Num(n) => if n != 0 {
                r matches Ok(out) && out@ == ValueModel::Num(trunc_div(1, n))
            } else {
                r matches Err(Error::DomainError { .. })
            },
            _ => r matches Err(Error::TypeError { .. }),
        }),
        v@.len() >= 2 ==> (match value_model(v@[0]) {
            ValueModel::Num(first) => match fold_div(first, model_seq(v@).skip(1)) {
                Ok(total) => r matches Ok(out) && out@ == ValueModel::Num(total),
                Err(wrong_kind) => if wrong_kind {
                    r matches Err(Error::TypeError { .. })
                } else {
                    r matches Err(Error::DomainError { .. })
                },
            },
            _ => r matches Err(Error::TypeError { .. }),
        }),
{
    if v.len() == 0 {
        return Err(crate::error::domain_error("invalid number argument"));
    }
    let first = match &v[0] {
        Value::Num(n) => *n,
        _ => {
            return Err(crate::error::type_error("number", &v[0]));
        },
    };
    if v.len() == 1 {
        let q = match div_i64(1, first) {
            Ok(q) => q,
            Err(e) => {
                return Err(e);
            },
        };
        return Ok(Value::Num(q));
    }
    proof {
        lemma_model_seq(v@);
    }
    let ghost m = model_seq(v@);
    let mut acc: i64 = first;
    let mut i: usize = 1;
    while i < v.len()
        invariant
            1 <= i <= v@.len(),
            v@.len() >= 2,
            m == model_seq(v@),
            m.len() == v@.len(),
            forall|j: int| 0 <= j < v@.len() ==> m[j] == value_model(#[trigger] v@[j]),
            value_model(v@[0]) == ValueModel::Num(first as int),
            fold_div(first as int, m.skip(1)) == fold_div(acc as int, m.skip(i as int)),
        decreases v@.len() - i,
    {
        let k = match &v[i] {
            Value::Num(k) => *k,
            _ => {
                proof {
                    assert(m.skip(i as int)[0] == m[i as int]);
                }
                return Err(crate::error::type_error("number", &v[i]));
            },
        };
        proof {
            assert(m.skip(i as int)[0] == m[i as int]);
            assert(m.skip(i as int).drop_first() =~= m.skip(i as int + 1));
        }
        acc = match div_i64(acc, k) {
            Ok(next) => next,
            Err(e) => {
                return Err(e);
            },
        };
        i += 1;
    }
    proof {
        assert(m.skip(m.len() as int).len() == 0);
    }
    Ok(Value::Num(acc))
}

/// The four chain comparisons over numbers.
#[derive(Clone, Copy, PartialEq, Eq, Structural)]
pub enum CmpOp {
    Lt,
    Gt,
    Le,
    Ge,
}

pub open spec fn cmp_holds(op: CmpOp, a: int, b: int) -> bool {
    match op {
        CmpOp::Lt => a < b,
        CmpOp::Gt => a > b,
        CmpOp::Le => a <= b,
        CmpOp::Ge => a >= b,
    }
}

/// Walks the arguments after the first, comparing each adjacent pair:
/// `Ok(false)` at the first failing pair (later arguments then go unseen),
/// `Err` at the first non-number.
pub open spec fn chain_cmp_spec(op: CmpOp, left: int, args: Seq<ValueModel>)
    -> Result<bool, ()>
    decreases args,
{
    if args.len() == 0 {
        Ok(true)
    } else {
        match args[0] {
            ValueModel::Num(k) => if cmp_holds(op, left, k) {
                chain_cmp_spec(op, k, args.drop_first())
            } else {
                Ok(false)
            },
            _ => Err(()),
        }
    }
}

/// The chain comparison behind `<`, `>`, `<=` and `>=`.
pub fn chain_cmp(op: CmpOp, v: &Vec<Value>) -> (r: Result<Value, Error>)
    requires
        v@.len() >= 1,
    ensures
        (match value_model(v@[0]) {
            ValueModel::Num(first) => match chain_cmp_spec(op, first, model_seq(v@).skip(1)) {
                Ok(b) => r matches Ok(out) && out@ == (if b {
                    ValueModel::True
                } else {
                    ValueModel::False
                }),
                Err(_) => r matches Err(Error::TypeError { .. }),
            },
            _ => r matches Err(Error::TypeError { .. }),
        }),
{
    let first = match &v[0] {
        Value::Num(n) => *n,
        _ => {
            return Err(crate::error::type_error("number", &v[0]));
        },
    };
    proof {
        lemma_model_seq(v@);
    }
    let ghost m = model_seq(v@);
    let mut left: i64 = first;
    let mut i: usize = 1;
    while i < v.len()
        invariant
            1 <= i <= v@.len(),
            m == model_seq(v@),
            m.len() == v@.len(),
            forall|j: int| 0 <= j < v@.len() ==> m[j] == value_model(#[trigger] v@[j]),
            value_model(v@[0]) == ValueModel::Num(first as int),
            chain_cmp_spec(op, first as int, m.skip(1))
                == chain_cmp_spec(op, left as int, m.skip(i as int)),
        decreases v@.len() - i,
    {
        let k = match &v[i] {
            Value::Num(k) => *k,
            _ => {
                proof {
                    assert(m.skip(i as int)[0] == m[i as int]);
                }
                return Err(crate::error::type_error("number", &v[i]));
            },
        };
        proof {
            assert(m.skip(i as int)[0] == m[i as int]);
            assert(m.skip(i as int).drop_first() =~= m.skip(i as int + 1));
        }
        let holds = match op {
            CmpOp::Lt => left < k,
            CmpOp::Gt => left > k,
            CmpOp::Le => left <= k,
            CmpOp::Ge => left >= k,
        };
        if !holds {
            return Ok(Value::False);
        }
        left = k;
        i += 1;
    }
    proof {
        assert(m.skip(m.len() as int).len() == 0);
    }
    Ok(Value::True)
}

} // verus!
