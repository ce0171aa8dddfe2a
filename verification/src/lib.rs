//! Runtime core of a small Lisp-family language: the value algebra with its
//! structural equality, interned names, persistent list and map updates, the
//! lazy-sequence forcing protocol, mutable box cells, tagged structs, a
//! template formatter, and the registry of native procedures.

pub mod builtins;
pub mod error;
pub mod eval;
pub mod format;
pub mod heap;
pub mod lazy;
pub mod maps;
pub mod names;
pub mod ops;
pub mod predicates;
pub mod registry;
pub mod render;
pub mod seqs;
pub mod strings;
pub mod structs;
pub mod value;
