use lisp_core::error::Error;
use lisp_core::eval::InertEvaluator;
use lisp_core::heap::Heap;
use lisp_core::maps;
use lisp_core::names::NamePool;
use lisp_core::seqs;
use lisp_core::value::{values_equal, Value};

fn num(n: i64) -> Value {
    Value::Num(n)
}

fn text(s: &str) -> Value {
    Value::Str(s.to_string())
}

fn list_of(ns: &[i64]) -> Value {
    Value::List(ns.iter().map(|n| Value::Num(*n)).collect())
}

#[test]
fn cons_first_rest_round_trip() {
    let l = list_of(&[2, 3]);
    let consed = seqs::operator_cons(&vec![num(1), l]).unwrap();
    let first = seqs::operator_head(&vec![cv(&consed)]).unwrap();
    assert!(values_equal(&first, &num(1)));
    let mut pool = NamePool::new();
    let mut heap = Heap::new();
    let ev = InertEvaluator {};
    let rest = lisp_core::lazy::operator_tail(&vec![consed], &mut pool, &mut heap, &ev).unwrap();
    assert!(values_equal(&rest, &list_of(&[2, 3])));
}

#[test]
fn cons_leaves_input_unchanged() {
    let l = list_of(&[2, 3]);
    let args = vec![num(1), l];
    let _ = seqs::operator_cons(&args).unwrap();
    assert!(values_equal(&args[1], &list_of(&[2, 3])));
}

#[test]
fn cons_to_nil_and_errors() {
    let r = seqs::operator_cons(&vec![num(1), Value::Nil]).unwrap();
    assert!(values_equal(&r, &list_of(&[1])));
    let r = seqs::operator_cons(&vec![num(1), num(2)]);
    assert!(matches!(r, Err(Error::DomainError { .. })));
}

#[test]
fn rev_cons_appends() {
    let r = seqs::operator_rev_cons(&vec![list_of(&[1, 2]), num(3)]).unwrap();
    assert!(values_equal(&r, &list_of(&[1, 2, 3])));
    let r = seqs::operator_rev_cons(&vec![Value::Nil, num(3)]).unwrap();
    assert!(values_equal(&r, &list_of(&[3])));
}

#[test]
fn append_concatenates_lists_and_nil() {
    let r = seqs::core_append(&vec![list_of(&[1, 2]), Value::Nil, list_of(&[3])]).unwrap();
    assert!(values_equal(&r, &list_of(&[1, 2, 3])));
    let r = seqs::core_append(&vec![]).unwrap();
    assert!(values_equal(&r, &Value::List(vec![])));
    let r = seqs::core_append(&vec![list_of(&[1]), num(2)]);
    assert!(matches!(r, Err(Error::TypeError { .. })));
}

#[test]
fn reverse_turns_the_list_around() {
    let r = seqs::reverse_list(&vec![list_of(&[1, 2, 3])]).unwrap();
    assert!(values_equal(&r, &list_of(&[3, 2, 1])));
    let r = seqs::reverse_list(&vec![num(1)]);
    assert!(matches!(r, Err(Error::DomainError { .. })));
}

#[test]
fn len_counts_by_kind() {
    let r = seqs::operator_len(&vec![list_of(&[1, 2, 3])]).unwrap();
    assert!(values_equal(&r, &num(3)));
    let r = seqs::operator_len(&vec![Value::Nil]).unwrap();
    assert!(values_equal(&r, &num(0)));
    let r = seqs::operator_len(&vec![text("abc")]).unwrap();
    assert!(values_equal(&r, &num(3)));
    let r = seqs::operator_len(&vec![Value::Chars(vec!['a', 'b'])]).unwrap();
    assert!(values_equal(&r, &num(2)));
    let r = seqs::operator_len(&vec![Value::Hashmap(vec![])]);
    assert!(matches!(r, Err(Error::TypeError { .. })));
}

#[test]
fn len_of_text_counts_bytes_but_chars_count_code_points() {
    let r = seqs::operator_len(&vec![text("héllo")]).unwrap();
    assert!(values_equal(&r, &num(6)));
    let decomposed = lisp_core::strings::core_string_to_chars(&vec![text("héllo")]).unwrap();
    let r = seqs::operator_len(&vec![decomposed]).unwrap();
    assert!(values_equal(&r, &num(5)));
}

#[test]
fn nth_on_lists() {
    let mut pool = NamePool::new();
    let mut heap = Heap::new();
    let ev = InertEvaluator {};
    let r = lisp_core::lazy::operator_nth(&vec![list_of(&[5, 6, 7]), num(1)], &mut pool,
        &mut heap, &ev).unwrap();
    assert!(values_equal(&r, &num(6)));
    let r = lisp_core::lazy::operator_nth(&vec![list_of(&[5]), num(9)], &mut pool, &mut heap,
        &ev).unwrap();
    assert!(values_equal(&r, &Value::Nil));
    let r = lisp_core::lazy::operator_nth(&vec![Value::Nil, num(0)], &mut pool, &mut heap, &ev)
        .unwrap();
    assert!(values_equal(&r, &Value::Nil));
    let r = lisp_core::lazy::operator_nth(&vec![list_of(&[1]), num(-1)], &mut pool, &mut heap,
        &ev);
    assert!(matches!(r, Err(Error::DomainError { .. })));
    let r = lisp_core::lazy::operator_nth(&vec![num(3), num(0)], &mut pool, &mut heap, &ev);
    assert!(matches!(r, Err(Error::TypeError { .. })));
}

#[test]
fn map_round_trip() {
    let mut pool = NamePool::new();
    let k = text("k");
    let m = maps::core_hashmap(&vec![], &mut pool).unwrap();
    let m2 = maps::operator_assoc(&vec![m, cv(&k), num(42)], &mut pool).unwrap();
    let got = maps::operator_map_get(&vec![cv(&m2), cv(&k)], &mut pool)
        .unwrap();
    assert!(values_equal(&got, &num(42)));
    let has = maps::operator_has_key(&vec![cv(&m2), cv(&k)], &mut pool)
        .unwrap();
    assert!(matches!(has, Value::True));
    let m3 = maps::operator_dissoc(&vec![m2, cv(&k)], &mut pool).unwrap();
    let has = maps::operator_has_key(&vec![cv(&m3), cv(&k)], &mut pool)
        .unwrap();
    assert!(matches!(has, Value::False));
    let got = maps::operator_map_get(&vec![m3, k], &mut pool);
    assert!(matches!(got, Err(Error::KeyNotFound { .. })));
}

#[test]
fn map_keys_by_any_key_kind() {
    let mut pool = NamePool::new();
    let m = maps::core_hashmap(
        &vec![text("a"), num(1), Value::Keyword(pool.intern(&"b".to_string())), num(2)],
        &mut pool,
    )
    .unwrap();
    let keys = maps::core_map_keys(&vec![m], &pool).unwrap();
    match keys {
        Value::List(items) => {
            assert_eq!(items.len(), 2);
            assert!(values_equal(&items[0], &text("a")));
            assert!(values_equal(&items[1], &text("b")));
        },
        _ => panic!("expected a list of keys"),
    }
}

#[test]
fn duplicate_keys_last_write_wins() {
    let mut pool = NamePool::new();
    let m = maps::core_hashmap(&vec![text("k"), num(1), text("k"), num(2)], &mut pool).unwrap();
    let got = maps::operator_map_get(&vec![m, text("k")], &mut pool).unwrap();
    assert!(values_equal(&got, &num(2)));
}

#[test]
fn odd_kv_run_is_a_key_arg_error() {
    let mut pool = NamePool::new();
    let r = maps::core_hashmap(&vec![text("k")], &mut pool);
    assert!(matches!(r, Err(Error::KeyArgError { .. })));
    let r = maps::core_hashmap(&vec![text("k"), num(1), text("q")], &mut pool);
    assert!(matches!(r, Err(Error::KeyArgError { .. })));
    let m = maps::core_hashmap(&vec![], &mut pool).unwrap();
    let r = maps::operator_assoc(&vec![m, text("k")], &mut pool);
    assert!(matches!(r, Err(Error::KeyArgError { .. })));
}

#[test]
fn bad_keys_are_domain_errors() {
    let mut pool = NamePool::new();
    let r = maps::core_hashmap(&vec![num(1), num(2)], &mut pool);
    assert!(matches!(r, Err(Error::DomainError { .. })));
    let m = maps::core_hashmap(&vec![], &mut pool).unwrap();
    let r = maps::operator_map_get(&vec![m, num(1)], &mut pool);
    assert!(matches!(r, Err(Error::DomainError { .. })));
    let r = maps::operator_map_get(&vec![num(0), text("k")], &mut pool);
    assert!(matches!(r, Err(Error::TypeError { .. })));
}

fn cv(v: &Value) -> Value {
    lisp_core::value::copy_value(v)
}
