use lisp_core::error::Error;
use lisp_core::ops;
use lisp_core::ops::{chain_cmp, operator_dec, operator_inc, CmpOp};
use lisp_core::names::NamePool;
use lisp_core::predicates;
use lisp_core::registry;
use lisp_core::value::{copy_value, values_equal, Value};

fn num(n: i64) -> Value {
    Value::Num(n)
}

fn text(s: &str) -> Value {
    Value::Str(s.to_string())
}

#[test]
fn interning_is_stable() {
    let mut pool = NamePool::new();
    let a1 = pool.intern(&"alpha".to_string());
    let b1 = pool.intern(&"beta".to_string());
    let a2 = pool.intern(&"alpha".to_string());
    let a3 = pool.intern(&"alpha".to_string());
    let b2 = pool.intern(&"beta".to_string());
    assert_eq!(a1, a2);
    assert_eq!(a1, a3);
    assert_eq!(b1, b2);
    assert_ne!(a1, b1);
    assert_eq!(pool.len(), 2);
    assert_eq!(pool.resolve(a1), "alpha");
    assert_eq!(pool.resolve(b1), "beta");
}

#[test]
fn structural_equality_basics() {
    assert!(values_equal(&Value::Nil, &Value::Nil));
    assert!(values_equal(&num(4), &num(4)));
    assert!(!values_equal(&num(4), &num(5)));
    assert!(values_equal(&text("ab"), &text("ab")));
    assert!(!values_equal(&text("ab"), &text("ac")));
    assert!(!values_equal(&Value::Nil, &Value::False));
    assert!(values_equal(&Value::Sym(3), &Value::Sym(3)));
    assert!(!values_equal(&Value::Sym(3), &Value::Keyword(3)));
    let l1 = Value::List(vec![num(1), num(2)]);
    let l2 = Value::List(vec![num(1), num(2)]);
    let l3 = Value::List(vec![num(2), num(1)]);
    assert!(values_equal(&l1, &l2));
    assert!(!values_equal(&l1, &l3));
}

#[test]
fn map_equality_ignores_entry_order() {
    let m1 = Value::Hashmap(vec![(0, num(1)), (1, num(2))]);
    let m2 = Value::Hashmap(vec![(1, num(2)), (0, num(1))]);
    let m3 = Value::Hashmap(vec![(0, num(1)), (1, num(3))]);
    assert!(values_equal(&m1, &m2));
    assert!(!values_equal(&m1, &m3));
}

#[test]
fn copy_is_structurally_equal() {
    let v = Value::List(vec![num(1), text("x"), Value::Struct(0, vec![num(9)])]);
    let c = copy_value(&v);
    assert!(values_equal(&v, &c));
}

#[test]
fn operator_eq_and_ne() {
    let r = lisp_core::ops::operator_eq(&vec![num(3), num(3), num(3)]).unwrap();
    assert!(matches!(r, Value::True));
    let r = lisp_core::ops::operator_eq(&vec![num(3), num(3), num(4)]).unwrap();
    assert!(matches!(r, Value::False));
    let r = lisp_core::ops::operator_ne(&vec![num(3), num(4)]).unwrap();
    assert!(matches!(r, Value::True));
    let r = lisp_core::ops::operator_ne(&vec![num(3), num(4), num(3)]).unwrap();
    assert!(matches!(r, Value::False));
}

#[test]
fn predicates_answer_by_kind() {
    assert!(matches!(predicates::pred_nil(&vec![Value::Nil]).unwrap(), Value::True));
    assert!(matches!(predicates::pred_nil(&vec![Value::List(vec![])]).unwrap(), Value::True));
    assert!(matches!(predicates::pred_nil(&vec![num(0)]).unwrap(), Value::False));
    assert!(matches!(predicates::pred_atom(&vec![num(0)]).unwrap(), Value::True));
    assert!(matches!(
        predicates::pred_atom(&vec![Value::List(vec![num(1)])]).unwrap(),
        Value::False
    ));
    assert!(matches!(
        predicates::pred_list(&vec![Value::List(vec![num(1)])]).unwrap(),
        Value::True
    ));
    assert!(matches!(predicates::pred_list(&vec![Value::List(vec![])]).unwrap(), Value::False));
    assert!(matches!(predicates::pred_number(&vec![num(1)]).unwrap(), Value::True));
    assert!(matches!(predicates::pred_string(&vec![text("a")]).unwrap(), Value::True));
    assert!(matches!(predicates::pred_symbol(&vec![Value::Sym(0)]).unwrap(), Value::True));
    assert!(matches!(predicates::pred_keyword(&vec![Value::Keyword(0)]).unwrap(), Value::True));
    assert!(matches!(
        predicates::pred_hashmap(&vec![Value::Hashmap(vec![])]).unwrap(),
        Value::True
    ));
    assert!(matches!(
        predicates::pred_function(&vec![Value::NatFunc(lisp_core::builtins::Builtin::Cons)])
            .unwrap(),
        Value::True
    ));
    assert!(matches!(predicates::pred_function(&vec![num(1)]).unwrap(), Value::False));
}

#[test]
fn symbol_and_keyword_creation() {
    let mut pool = NamePool::new();
    let r = registry::core_symbol(&vec![text("foo")], &mut pool).unwrap();
    let n = match r {
        Value::Sym(n) => n,
        _ => panic!("expected a symbol"),
    };
    assert_eq!(pool.resolve(n), "foo");
    let r2 = registry::core_keyword(&vec![text("foo")], &mut pool).unwrap();
    match r2 {
        Value::Keyword(k) => assert_eq!(k, n),
        _ => panic!("expected a keyword"),
    }
    let r3 = registry::core_symbol(&vec![num(1)], &mut pool);
    assert!(matches!(r3, Err(Error::TypeError { .. })));
}

#[test]
fn intern_numbers_round_trip() {
    let r = registry::core_keyword_intern_number(&vec![Value::Keyword(7)]).unwrap();
    assert!(values_equal(&r, &num(7)));
    let r = registry::core_keyword_intern_number(&vec![Value::Sym(4)]).unwrap();
    assert!(values_equal(&r, &num(4)));
    let r = registry::core_name_from_intern_number(&vec![num(4)]).unwrap();
    assert!(matches!(r, Value::Sym(4)));
    let r = registry::core_name_from_intern_number(&vec![num(-1)]);
    assert!(matches!(r, Err(Error::DomainError { .. })));
    let r = registry::core_keyword_intern_number(&vec![text("x")]);
    assert!(matches!(r, Err(Error::TypeError { .. })));
}

#[test]
fn arithmetic_folds() {
    let r = ops::operator_add(&vec![num(1), num(2), num(3)]).unwrap();
    assert!(values_equal(&r, &num(6)));
    let r = ops::operator_add(&vec![]).unwrap();
    assert!(values_equal(&r, &num(0)));
    let r = ops::operator_mul(&vec![num(2), num(3), num(4)]).unwrap();
    assert!(values_equal(&r, &num(24)));
    let r = ops::operator_mul(&vec![]).unwrap();
    assert!(values_equal(&r, &num(1)));
    let r = ops::operator_sub(&vec![num(10), num(3), num(2)]).unwrap();
    assert!(values_equal(&r, &num(5)));
    let r = ops::operator_sub(&vec![num(10)]).unwrap();
    assert!(values_equal(&r, &num(-10)));
    let r = ops::operator_sub(&vec![]).unwrap();
    assert!(values_equal(&r, &num(0)));
    let r = ops::operator_div(&vec![num(20), num(3)]).unwrap();
    assert!(values_equal(&r, &num(6)));
    let r = ops::operator_div(&vec![num(-20), num(3)]).unwrap();
    assert!(values_equal(&r, &num(-6)));
    let r = ops::operator_div(&vec![num(1)]).unwrap();
    assert!(values_equal(&r, &num(1)));
    let r = ops::operator_div(&vec![num(5), num(0)]);
    assert!(matches!(r, Err(Error::DomainError { .. })));
    let r = ops::operator_div(&vec![]);
    assert!(matches!(r, Err(Error::DomainError { .. })));
    let r = ops::operator_add(&vec![num(1), text("x")]);
    assert!(matches!(r, Err(Error::TypeError { .. })));
    let r = ops::operator_add(&vec![num(i64::MAX), num(1)]);
    assert!(matches!(r, Err(Error::DomainError { .. })));
}

#[test]
fn comparison_chains() {
    assert!(matches!(chain_cmp(CmpOp::Lt, &vec![num(1), num(2), num(3)]).unwrap(), Value::True));
    assert!(matches!(chain_cmp(CmpOp::Lt, &vec![num(1), num(3), num(2)]).unwrap(), Value::False));
    assert!(matches!(chain_cmp(CmpOp::Ge, &vec![num(3), num(3), num(1)]).unwrap(), Value::True));
    assert!(matches!(chain_cmp(CmpOp::Gt, &vec![num(3)]).unwrap(), Value::True));
    let r = chain_cmp(CmpOp::Le, &vec![num(1), text("x")]);
    assert!(matches!(r, Err(Error::TypeError { .. })));
}

#[test]
fn inc_and_dec() {
    let r = operator_inc(&vec![num(41)]).unwrap();
    assert!(values_equal(&r, &num(42)));
    let r = operator_dec(&vec![num(0)]).unwrap();
    assert!(values_equal(&r, &num(-1)));
    assert!(matches!(operator_inc(&vec![text("x")]), Err(Error::TypeError { .. })));
    assert!(matches!(operator_inc(&vec![num(i64::MAX)]), Err(Error::DomainError { .. })));
}
