use lisp_core::error::Error;
use lisp_core::names::NamePool;
use lisp_core::registry;
use lisp_core::strings;
use lisp_core::value::{values_equal, Value};

fn num(n: i64) -> Value {
    Value::Num(n)
}

fn text(s: &str) -> Value {
    Value::Str(s.to_string())
}

fn list_of(ns: &[i64]) -> Value {
    Value::List(ns.iter().map(|n| Value::Num(*n)).collect())
}

fn as_text(v: Value) -> String {
    match v {
        Value::Str(s) => s,
        _ => panic!("expected a string result"),
    }
}

#[test]
fn format_display_and_debug_forms() {
    let pool = NamePool::new();
    let r = lisp_core::format::core_format(&vec![text("{}-{?}"), num(5), text("x")], &pool).unwrap();
    assert_eq!(as_text(r), "5-\"x\"");
}

#[test]
fn format_escaped_braces() {
    let pool = NamePool::new();
    let r = lisp_core::format::core_format(&vec![text("{{}}")], &pool).unwrap();
    assert_eq!(as_text(r), "{}");
}

#[test]
fn format_list_slice_with_separator() {
    let pool = NamePool::new();
    let r = lisp_core::format::core_format(&vec![text("{@, }"), list_of(&[1, 2, 3])], &pool).unwrap();
    assert_eq!(as_text(r), "1, 2, 3");
}

#[test]
fn format_list_slice_without_separator() {
    let pool = NamePool::new();
    let r = lisp_core::format::core_format(&vec![text("{@}"), list_of(&[1, 2])], &pool).unwrap();
    assert_eq!(as_text(r), "12");
}

#[test]
fn format_errors() {
    let pool = NamePool::new();
    let r = lisp_core::format::core_format(&vec![text("{")], &pool);
    assert!(matches!(r, Err(Error::DomainError { .. })));
    let r = lisp_core::format::core_format(&vec![text("}")], &pool);
    assert!(matches!(r, Err(Error::DomainError { .. })));
    let r = lisp_core::format::core_format(&vec![text("{x}")], &pool);
    assert!(matches!(r, Err(Error::DomainError { .. })));
    let r = lisp_core::format::core_format(&vec![text("{}")], &pool);
    assert!(matches!(r, Err(Error::DomainError { .. })));
    let r = lisp_core::format::core_format(&vec![text("{@, ")], &pool);
    assert!(matches!(r, Err(Error::DomainError { .. })));
    let r = lisp_core::format::core_format(&vec![text("{@,}"), num(1)], &pool);
    assert!(matches!(r, Err(Error::DomainError { .. })));
    let r = lisp_core::format::core_format(&vec![num(1)], &pool);
    assert!(matches!(r, Err(Error::DomainError { .. })));
}

#[test]
fn join_interleaves_display_forms() {
    let pool = NamePool::new();
    let r = lisp_core::format::core_join(&vec![text(","), list_of(&[1, 2, 3])], &pool).unwrap();
    assert_eq!(as_text(r), "1,2,3");
    let r = lisp_core::format::core_join(&vec![text(","), Value::Nil], &pool).unwrap();
    assert_eq!(as_text(r), "");
    let r = lisp_core::format::core_join(&vec![num(1), Value::Nil], &pool);
    assert!(matches!(r, Err(Error::TypeError { .. })));
    let r = lisp_core::format::core_join(&vec![text(","), num(1)], &pool);
    assert!(matches!(r, Err(Error::TypeError { .. })));
}

#[test]
fn str_concatenates_display_forms() {
    let pool = NamePool::new();
    let r = lisp_core::format::operator_str(&vec![num(1), text("a"), Value::True], &pool).unwrap();
    assert_eq!(as_text(r), "1atrue");
    let r = lisp_core::format::operator_str(&vec![], &pool).unwrap();
    assert_eq!(as_text(r), "");
}

#[test]
fn repr_quotes_strings() {
    let pool = NamePool::new();
    let r = lisp_core::format::core_repr(&vec![text("hi")], &pool).unwrap();
    assert_eq!(as_text(r), "\"hi\"");
    let r = lisp_core::format::core_repr(&vec![], &pool).unwrap();
    assert_eq!(as_text(r), "nil");
}

#[test]
fn display_renders_each_kind() {
    let mut pool = NamePool::new();
    let n = pool.intern(&"abc".to_string());
    let r = lisp_core::format::operator_str(&vec![Value::Sym(n)], &pool).unwrap();
    assert_eq!(as_text(r), "abc");
    let r = lisp_core::format::operator_str(&vec![Value::Keyword(n)], &pool).unwrap();
    assert_eq!(as_text(r), ":abc");
    let r = lisp_core::format::operator_str(&vec![list_of(&[1, 2])], &pool).unwrap();
    assert_eq!(as_text(r), "(1 2)");
    let r = lisp_core::format::operator_str(&vec![num(-17)], &pool).unwrap();
    assert_eq!(as_text(r), "-17");
    let r = lisp_core::format::operator_str(&vec![Value::Char('q')], &pool).unwrap();
    assert_eq!(as_text(r), "q");
    let r = lisp_core::format::operator_str(&vec![Value::False, Value::Nil], &pool).unwrap();
    assert_eq!(as_text(r), "falsenil");
}

#[test]
fn string_to_chars_and_back() {
    let r = strings::core_string_to_chars(&vec![text("abc")]).unwrap();
    match &r {
        Value::Chars(cs) => assert_eq!(cs, &vec!['a', 'b', 'c']),
        _ => panic!("expected chars"),
    }
    let again = strings::core_string_to_chars(&vec![r]).unwrap();
    match &again {
        Value::Chars(cs) => assert_eq!(cs.len(), 3),
        _ => panic!("expected chars"),
    }
    let r = strings::core_string_to_chars(&vec![num(1)]);
    assert!(matches!(r, Err(Error::TypeError { .. })));
}

#[test]
fn append_char_extends_the_buffer() {
    let r = strings::core_string_append_char(&vec![text("ab"), Value::Char('c')]).unwrap();
    assert_eq!(as_text(r), "abc");
    let r = strings::core_string_append_char(&vec![text("ab"), num(1)]);
    assert!(matches!(r, Err(Error::TypeError { .. })));
}

#[test]
fn char_to_string_makes_one_character() {
    let r = strings::core_char_to_string(&vec![Value::Char('z')]).unwrap();
    assert_eq!(as_text(r), "z");
}

#[test]
fn char_list_to_string_joins_characters() {
    let l = Value::List(vec![Value::Char('h'), Value::Char('i')]);
    let r = strings::core_char_list_to_string(&vec![l]).unwrap();
    assert_eq!(as_text(r), "hi");
    let bad = Value::List(vec![Value::Char('h'), num(1)]);
    let r = strings::core_char_list_to_string(&vec![bad]);
    assert!(matches!(r, Err(Error::TypeError { .. })));
}

#[test]
fn starts_with_over_strings_and_chars() {
    let r = strings::core_string_starts_with(&vec![text("hello"), text("he")]).unwrap();
    assert!(matches!(r, Value::True));
    let r = strings::core_string_starts_with(&vec![text("hello"), text("lo")]).unwrap();
    assert!(matches!(r, Value::False));
    let cs = Value::Chars(vec!['h', 'i']);
    let r = strings::core_string_starts_with(&vec![cs, text("h")]).unwrap();
    assert!(matches!(r, Value::True));
    let r = strings::core_string_starts_with(&vec![Value::Nil, text("h")]).unwrap();
    assert!(matches!(r, Value::False));
    let r = strings::core_string_starts_with(&vec![num(1), text("h")]);
    assert!(matches!(r, Err(Error::DomainError { .. })));
}

#[test]
fn chars_slice_bounds() {
    let cs = Value::Chars(vec!['a', 'b', 'c', 'd']);
    let r = strings::core_chars_slice(&vec![lisp_core::value::copy_value(&cs), num(1)]).unwrap();
    match &r {
        Value::Chars(out) => assert_eq!(out, &vec!['b', 'c', 'd']),
        _ => panic!("expected chars"),
    }
    let r = strings::core_chars_slice(&vec![lisp_core::value::copy_value(&cs), num(1), num(3)])
        .unwrap();
    match &r {
        Value::Chars(out) => assert_eq!(out, &vec!['b', 'c']),
        _ => panic!("expected chars"),
    }
    let r = strings::core_chars_slice(&vec![lisp_core::value::copy_value(&cs), num(2), num(2)])
        .unwrap();
    assert!(values_equal(&r, &Value::Nil));
    let r = strings::core_chars_slice(&vec![lisp_core::value::copy_value(&cs), num(9)]);
    assert!(matches!(r, Err(Error::DomainError { .. })));
    let r = strings::core_chars_slice(&vec![cs, num(3), num(1)]);
    assert!(matches!(r, Err(Error::DomainError { .. })));
}

#[test]
fn assert_builtin_checks_values() {
    let pool = NamePool::new();
    let r = registry::core_assert(&vec![num(1)], &pool).unwrap();
    assert!(values_equal(&r, &num(1)));
    let r = registry::core_assert(&vec![Value::Nil], &pool);
    assert!(matches!(r, Err(Error::DomainError { .. })));
    let r = registry::core_assert(&vec![num(1), num(1)], &pool).unwrap();
    assert!(values_equal(&r, &num(1)));
    let r = registry::core_assert(&vec![num(1), num(2)], &pool);
    assert!(matches!(r, Err(Error::DomainError { .. })));
    let r = registry::core_assert(&vec![num(1), num(2), text("boom")], &pool);
    match r {
        Err(Error::DomainError { message }) => assert_eq!(message, "boom"),
        _ => panic!("expected the rendered message"),
    }
    let r = registry::core_assert(&vec![num(1), num(1), num(1), num(1)], &pool);
    assert!(matches!(r, Err(Error::ArityError { .. })));
}

#[test]
fn registry_lists_every_builtin() {
    let entries = registry::ns();
    assert_eq!(entries.len(), 71);
    assert!(entries.iter().any(|e| e.0 == "cons"));
    assert!(entries.iter().any(|e| e.0 == "hash-map"));
    assert!(entries.iter().any(|e| e.0 == "chars/slice"));
    for e in entries.iter() {
        assert!(matches!(e.1, Value::NatFunc(_)));
    }
}
