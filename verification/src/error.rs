use vstd::prelude::*;
use crate::builtins::Arity;
use crate::names::Name;
use crate::value::Value;

verus! {

/// The closed error taxonomy. Every failing operation of the core returns
/// exactly one of these; none are recovered internally, all propagate to the
/// evaluator.
#[derive(Debug)]
pub enum Error {
    /// An argument had the wrong kind; `expected` describes the kind wanted.
    TypeError { expected: String, got: Value },
    /// A procedure was applied to an argument count its arity refuses.
    ArityError { name: String, expected: Arity, got: usize },
    /// A flattened key/value argument run had odd length.
    KeyArgError { name: String },
    /// A map lookup asked for a key the map does not carry.
    KeyNotFound { key: Name },
    /// A malformed template, invalid slice bounds, a struct tag mismatch and
    /// other domain violations.
    DomainError { message: String },
}

/// A type error whose description is a string literal.
pub fn type_error(expected: &str, got: &Value) -> (e: Error)
    ensures
        e matches Error::TypeError { expected: ex, got: g }
            && ex@ == expected@ && g@ == got@,
{
    Error::TypeError { expected: expected.to_owned(), got: crate::value::copy_value(got) }
}

/// A domain error whose message is a string literal.
pub fn domain_error(message: &str) -> (e: Error)
    ensures
        e matches Error::DomainError { message: m } && m@ == message@,
{
    Error::DomainError { message: message.to_owned() }
}

/// A key/value parity error named after the operation that found it.
pub fn key_arg_error(name: &str) -> (e: Error)
    ensures
        e matches Error::KeyArgError { name: n } && n@ == name@,
{
    Error::KeyArgError { name: name.to_owned() }
}

} // verus!
