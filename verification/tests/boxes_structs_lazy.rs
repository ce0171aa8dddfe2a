use lisp_core::builtins::Builtin;
use lisp_core::error::Error;
use lisp_core::eval::Evaluator;
use lisp_core::heap::Heap;
use lisp_core::names::NamePool;
use lisp_core::registry;
use lisp_core::structs;
use lisp_core::value::{copy_value, values_equal, Value};

fn num(n: i64) -> Value {
    Value::Num(n)
}

fn list_of(ns: &[i64]) -> Value {
    Value::List(ns.iter().map(|n| Value::Num(*n)).collect())
}

/// An evaluator whose forcing steps count an environment down to zero,
/// yielding the counter as each head, and whose application dispatches back
/// into the registry.
struct CountdownEval {}

impl Evaluator for CountdownEval {
    fn eval(
        &self,
        _tail: &Value,
        env: u64,
        _pool: &mut NamePool,
        _heap: &mut Heap,
    ) -> Result<Value, Error> {
        if env == 0 {
            Ok(Value::Nil)
        } else {
            Ok(Value::Lazy {
                head: Box::new(Value::Num(env as i64)),
                tail: Box::new(Value::Nil),
                env: env - 1,
            })
        }
    }

    fn apply(
        &self,
        f: &Value,
        args: Vec<Value>,
        pool: &mut NamePool,
        heap: &mut Heap,
    ) -> Result<Value, Error> {
        registry::apply_value(f, args, pool, heap, self)
    }
}

fn lazy_cell(first: i64, env: u64) -> Value {
    Value::Lazy {
        head: Box::new(Value::Num(first)),
        tail: Box::new(Value::Nil),
        env,
    }
}

#[test]
fn box_identity_through_aliases() {
    let mut heap = Heap::new();
    let b1 = heap.box_value(&num(1));
    let b2 = copy_value(&b1);
    let stored = heap.set_box(&b1, &num(99)).unwrap();
    assert!(values_equal(&stored, &num(99)));
    let seen = heap.deref(&b2).unwrap();
    assert!(values_equal(&seen, &num(99)));
}

#[test]
fn box_errors() {
    let mut heap = Heap::new();
    let r = heap.deref(&Value::BoxCell(7));
    assert!(matches!(r, Err(Error::DomainError { .. })));
    let r = heap.set_box(&num(1), &num(2));
    assert!(matches!(r, Err(Error::TypeError { .. })));
}

#[test]
fn swap_box_stores_result_but_returns_function() {
    let mut pool = NamePool::new();
    let mut heap = Heap::new();
    let ev = CountdownEval {};
    let b = heap.box_value(&num(41));
    let f = Value::NatFunc(Builtin::Inc);
    let args = vec![copy_value(&b), copy_value(&f)];
    let r = registry::swap_box(&args, &mut pool, &mut heap, &ev).unwrap();
    assert!(values_equal(&r, &f));
    let seen = heap.deref(&b).unwrap();
    assert!(values_equal(&seen, &num(42)));
}

#[test]
fn struct_identity() {
    let mut pool = NamePool::new();
    let tag_a = pool.intern(&"point".to_string());
    let tag_b = pool.intern(&"circle".to_string());
    let s = structs::core_make_struct(&vec![Value::Sym(tag_a), num(3), num(4)]).unwrap();
    let yes = structs::core_assert_struct(&vec![copy_value(&s), Value::Sym(tag_a)]).unwrap();
    assert!(matches!(yes, Value::True));
    let no = structs::core_assert_struct(&vec![copy_value(&s), Value::Sym(tag_b)]).unwrap();
    assert!(matches!(no, Value::False));
    let second = structs::core_member_struct(&vec![copy_value(&s), Value::Sym(tag_a), num(1)],
        &pool).unwrap();
    assert!(values_equal(&second, &num(4)));
    let mismatched = structs::core_member_struct(&vec![copy_value(&s), Value::Sym(tag_b),
        num(0)], &pool);
    assert!(matches!(mismatched, Err(Error::DomainError { .. })));
    let out_of_range = structs::core_member_struct(&vec![s, Value::Sym(tag_a), num(5)], &pool);
    assert!(matches!(out_of_range, Err(Error::DomainError { .. })));
}

#[test]
fn make_struct_needs_a_symbol() {
    let r = structs::core_make_struct(&vec![num(1)]);
    assert!(matches!(r, Err(Error::DomainError { .. })));
}

#[test]
fn collect_materializes_a_finite_chain() {
    let mut pool = NamePool::new();
    let mut heap = Heap::new();
    let ev = CountdownEval {};
    let cell = lazy_cell(3, 2);
    let r = lisp_core::lazy::core_collect(&vec![cell], &mut pool, &mut heap, &ev).unwrap();
    assert!(values_equal(&r, &list_of(&[3, 2, 1])));
}

#[test]
fn collect_passes_lists_through() {
    let mut pool = NamePool::new();
    let mut heap = Heap::new();
    let ev = CountdownEval {};
    let r = lisp_core::lazy::core_collect(&vec![list_of(&[1, 2])], &mut pool, &mut heap, &ev)
        .unwrap();
    assert!(values_equal(&r, &list_of(&[1, 2])));
    let r = lisp_core::lazy::core_collect(&vec![Value::Nil], &mut pool, &mut heap, &ev).unwrap();
    assert!(values_equal(&r, &Value::Nil));
    let r = lisp_core::lazy::core_collect(&vec![num(1)], &mut pool, &mut heap, &ev);
    assert!(matches!(r, Err(Error::TypeError { .. })));
}

#[test]
fn nth_steps_match_collected_positions() {
    let mut pool = NamePool::new();
    let mut heap = Heap::new();
    let ev = CountdownEval {};
    let collected = lisp_core::lazy::core_collect(&vec![lazy_cell(3, 2)], &mut pool, &mut heap,
        &ev).unwrap();
    let items = match &collected {
        Value::List(items) => items,
        _ => panic!("expected a list"),
    };
    assert_eq!(items.len(), 3);
    for i in 0..items.len() {
        let stepped = lisp_core::lazy::operator_nth(&vec![lazy_cell(3, 2), num(i as i64)],
            &mut pool, &mut heap, &ev).unwrap();
        assert!(values_equal(&stepped, &items[i]));
    }
    let past = lisp_core::lazy::operator_nth(&vec![lazy_cell(3, 2), num(7)], &mut pool,
        &mut heap, &ev).unwrap();
    assert!(values_equal(&past, &Value::Nil));
}

#[test]
fn rest_forces_one_step() {
    let mut pool = NamePool::new();
    let mut heap = Heap::new();
    let ev = CountdownEval {};
    let r = lisp_core::lazy::operator_tail(&vec![lazy_cell(9, 1)], &mut pool, &mut heap, &ev)
        .unwrap();
    match r {
        Value::Lazy { head, env, .. } => {
            assert!(values_equal(&head, &num(1)));
            assert_eq!(env, 0);
        },
        _ => panic!("expected a further lazy cell"),
    }
    let r = lisp_core::lazy::operator_tail(&vec![lazy_cell(9, 0)], &mut pool, &mut heap, &ev)
        .unwrap();
    assert!(values_equal(&r, &Value::Nil));
}

#[test]
fn first_reads_the_forced_head() {
    let r = lisp_core::seqs::operator_head(&vec![lazy_cell(9, 5)]).unwrap();
    assert!(values_equal(&r, &num(9)));
}

#[test]
fn update_and_map_apply_through_the_evaluator() {
    let mut pool = NamePool::new();
    let mut heap = Heap::new();
    let ev = CountdownEval {};
    let m = lisp_core::maps::core_hashmap(&vec![Value::Str("n".to_string()), num(10)],
        &mut pool).unwrap();
    let updated = lisp_core::maps::operator_map_update(
        &vec![m, Value::Str("n".to_string()), Value::NatFunc(Builtin::Inc)],
        &mut pool,
        &mut heap,
        &ev,
    )
    .unwrap();
    let got = lisp_core::maps::operator_map_get(&vec![updated, Value::Str("n".to_string())],
        &mut pool).unwrap();
    assert!(values_equal(&got, &num(11)));

    let mapped = registry::core_map(
        &vec![Value::NatFunc(Builtin::Inc), list_of(&[1, 2, 3])],
        &mut pool,
        &mut heap,
        &ev,
    )
    .unwrap();
    assert!(values_equal(&mapped, &list_of(&[2, 3, 4])));
}

#[test]
fn map_treats_nil_as_the_empty_sequence() {
    let mut pool = NamePool::new();
    let mut heap = Heap::new();
    let ev = CountdownEval {};
    let mapped = registry::core_map(
        &vec![Value::NatFunc(Builtin::Inc), Value::Nil],
        &mut pool,
        &mut heap,
        &ev,
    )
    .unwrap();
    assert!(values_equal(&mapped, &Value::List(vec![])));
}

#[test]
fn table_entries_dispatch_to_their_named_procedures() {
    let mut pool = NamePool::new();
    let mut heap = Heap::new();
    let ev = CountdownEval {};
    let table = registry::ns();
    let inc_entry = table.iter().find(|e| e.0 == "inc").expect("inc is registered");
    let r = registry::apply_value(&inc_entry.1, vec![num(1)], &mut pool, &mut heap, &ev)
        .unwrap();
    assert!(values_equal(&r, &num(2)));
    let cons_entry = table.iter().find(|e| e.0 == "cons").expect("cons is registered");
    let r = registry::apply_value(&cons_entry.1, vec![num(1), Value::Nil], &mut pool,
        &mut heap, &ev).unwrap();
    assert!(values_equal(&r, &list_of(&[1])));
    let box_entry = table.iter().find(|e| e.0 == "box").expect("box is registered");
    let set_entry = table.iter().find(|e| e.0 == "set-box").expect("set-box is registered");
    let deref_entry = table.iter().find(|e| e.0 == "deref").expect("deref is registered");
    let b = registry::apply_value(&box_entry.1, vec![num(7)], &mut pool, &mut heap, &ev)
        .unwrap();
    let b2 = copy_value(&b);
    let stored = registry::apply_value(&set_entry.1, vec![copy_value(&b), num(9)],
        &mut pool, &mut heap, &ev).unwrap();
    assert!(values_equal(&stored, &num(9)));
    let seen = registry::apply_value(&deref_entry.1, vec![b2], &mut pool, &mut heap, &ev)
        .unwrap();
    assert!(values_equal(&seen, &num(9)));
    let bad = registry::apply_value(&deref_entry.1, vec![num(1)], &mut pool, &mut heap, &ev);
    assert!(matches!(bad, Err(Error::TypeError { .. })));
    let swap_entry = table.iter().find(|e| e.0 == "swap-box").expect("swap-box is registered");
    let inc_val = copy_value(&inc_entry.1);
    let swapped = registry::apply_value(&swap_entry.1, vec![copy_value(&b), inc_val],
        &mut pool, &mut heap, &ev).unwrap();
    assert!(values_equal(&swapped, &inc_entry.1));
    let seen = registry::apply_value(&deref_entry.1, vec![b], &mut pool, &mut heap, &ev)
        .unwrap();
    assert!(values_equal(&seen, &num(10)));
}

#[test]
fn apply_spreads_its_last_argument() {
    let mut pool = NamePool::new();
    let mut heap = Heap::new();
    let ev = CountdownEval {};
    let r = registry::core_apply(
        &vec![Value::NatFunc(Builtin::NumAdd), num(1), list_of(&[2, 3])],
        &mut pool,
        &mut heap,
        &ev,
    )
    .unwrap();
    assert!(values_equal(&r, &num(6)));
    let r = registry::core_apply(
        &vec![Value::NatFunc(Builtin::NumAdd), num(1), num(2)],
        &mut pool,
        &mut heap,
        &ev,
    );
    assert!(matches!(r, Err(Error::TypeError { .. })));
}

#[test]
fn dispatch_checks_arity() {
    let mut pool = NamePool::new();
    let mut heap = Heap::new();
    let ev = CountdownEval {};
    let r = registry::apply_value(&Value::NatFunc(Builtin::Cons), vec![num(1)], &mut pool,
        &mut heap, &ev);
    assert!(matches!(r, Err(Error::ArityError { .. })));
    let r = registry::apply_value(&num(5), vec![], &mut pool, &mut heap, &ev);
    assert!(matches!(r, Err(Error::TypeError { .. })));
    let r = registry::apply_value(&Value::NatFunc(Builtin::Cons),
        vec![num(1), Value::Nil], &mut pool, &mut heap, &ev).unwrap();
    assert!(values_equal(&r, &list_of(&[1])));
}
