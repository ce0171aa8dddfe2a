use vstd::prelude::*;
use crate::builtins::Builtin;
use crate::names::Name;

verus! {

/// The tagged value algebra. Exactly one variant is active per instance, and
/// every consumer matches exhaustively. All variants are immutable once
/// constructed except `BoxCell`, which names a mutable cell in a `Heap`.
///
/// The empty sequence has two representations, `Nil` and a zero-length
/// `List`; every sequence operation treats both as empty.
#[derive(Debug)]
pub enum Value {
    /// The empty/absent marker and canonical false-like sequence end.
    Nil,
    True,
    False,
    /// A number. This algebra carries integers.
    Num(i64),
    /// An owned text buffer.
    Str(String),
    /// A single scalar character.
    Char(char),
    /// A string already decomposed into code points, supporting slicing.
    Chars(Vec<char>),
    /// A symbol: a tag around an interned name, compared by name only.
    Sym(Name),
    /// A keyword: distinguished from `Sym` only by tag.
    Keyword(Name),
    /// An ordered immutable sequence.
    List(Vec<Value>),
    /// An immutable mapping from interned names to values.
    Hashmap(Vec<(Name, Value)>),
    /// A nominal tagged tuple: an identifying name and ordered fields.
    Struct(Name, Vec<Value>),
    /// The one mutable value kind: an index into a `Heap` cell shared by
    /// every holder of the same index.
    BoxCell(usize),
    /// A user-defined closure, opaque to this core beyond invocation.
    Func { params: Vec<Name>, body: Box<Value>, env: u64 },
    /// A native procedure descriptor.
    NatFunc(Builtin),
    /// A suspended sequence cell: a forced head, an unevaluated tail
    /// expression and the environment needed to evaluate it.
    Lazy { head: Box<Value>, tail: Box<Value>, env: u64 },
}

/// The mathematical shape of a `Value`: the same tree with text as character
/// sequences, vectors as sequences and numbers as unbounded integers.
pub enum ValueModel {
    Nil,
    True,
    False,
    Num(int),
    Str(Seq<char>),
    Char(char),
    Chars(Seq<char>),
    Sym(int),
    Keyword(int),
    List(Seq<ValueModel>),
    Hashmap(Seq<(int, ValueModel)>),
    Struct(int, Seq<ValueModel>),
    BoxCell(int),
    Func { params: Seq<int>, body: Box<ValueModel>, env: int },
    NatFunc(Builtin),
    Lazy { head: Box<ValueModel>, tail: Box<ValueModel>, env: int },
}

/// The model of each element of a vector of values.
pub open spec fn model_seq(s: Seq<Value>) -> Seq<ValueModel>
    decreases s,
{
    if s.len() == 0 {
        Seq::empty()
    } else {
        seq![value_model(s[0])] + model_seq(s.drop_first())
    }
}

/// The model of each entry of a vector of map entries.
pub open spec fn model_entries(s: Seq<(Name, Value)>) -> Seq<(int, ValueModel)>
    decreases s,
{
    if s.len() == 0 {
        Seq::empty()
    } else {
        seq![(s[0].0 as int, value_model(s[0].1))] + model_entries(s.drop_first())
    }
}

/// The model of a list of interned names.
pub open spec fn model_names(s: Seq<Name>) -> Seq<int> {
    s.map_values(|n: Name| n as int)
}

pub open spec fn value_model(v: Value) -> ValueModel
    decreases v,
{
    match v {
        Value::Nil => ValueModel::Nil,
        Value::True => ValueModel::True,
        Value::False => ValueModel::False,
        Value::Num(n) => ValueModel::Num(n as int),
        Value::Str(s) => ValueModel::Str(s@),
        Value::Char(c) => ValueModel::Char(c),
        Value::Chars(cs) => ValueModel::Chars(cs@),
        Value::Sym(n) => ValueModel::Sym(n as int),
        Value::Keyword(n) => ValueModel::Keyword(n as int),
        Value::List(items) => ValueModel::List(model_seq(items@)),
        Value::Hashmap(entries) => ValueModel::Hashmap(model_entries(entries@)),
        Value::Struct(tag, fields) => ValueModel::Struct(tag as int, model_seq(fields@)),
        Value::BoxCell(i) => ValueModel::BoxCell(i as int),
        Value::Func { params, body, env } => ValueModel::Func {
            params: model_names(params@),
            body: Box::new(value_model(*body)),
            env: env as int,
        },
        Value::NatFunc(b) => ValueModel::NatFunc(b),
        Value::Lazy { head, tail, env } => ValueModel::Lazy {
            head: Box::new(value_model(*head)),
            tail: Box::new(value_model(*tail)),
            env: env as int,
        },
    }
}

impl View for Value {
    type V = ValueModel;

    open spec fn view(&self) -> ValueModel {
        value_model(*self)
    }
}

/// `model_seq` is the element-wise model.
pub broadcast proof fn lemma_model_seq(s: Seq<Value>)
    ensures
        (#[trigger] model_seq(s)).len() == s.len(),
        forall|i: int| 0 <= i < s.len() ==> model_seq(s)[i] == value_model(s[i]),
    decreases s,
{
    if s.len() > 0 {
        lemma_model_seq(s.drop_first());
    }
}

/// `model_entries` is the entry-wise model.
pub broadcast proof fn lemma_model_entries(s: Seq<(Name, Value)>)
    ensures
        (#[trigger] model_entries(s)).len() == s.len(),
        forall|i: int| 0 <= i < s.len() ==> model_entries(s)[i]
            == (s[i].0 as int, value_model(s[i].1)),
    decreases s,
{
    if s.len() > 0 {
        lemma_model_entries(s.drop_first());
    }
}

/// First-match lookup among map entries.
pub open spec fn lookup_model(s: Seq<(int, ValueModel)>, k: int) -> Option<ValueModel>
    decreases s,
{
    if s.len() == 0 {
        None
    } else if s[0].0 == k {
        Some(s[0].1)
    } else {
        lookup_model(s.drop_first(), k)
    }
}

/// Whether some entry carries key `k`.
pub open spec fn has_key_model(s: Seq<(int, ValueModel)>, k: int) -> bool {
    lookup_model(s, k) is Some
}

/// No two entries carry the same key. Every map the library builds keeps
/// this invariant (`hash-map`, `assoc`, `update` and `dissoc` preserve it,
/// starting from the empty map); under it the first-match lookup is the only
/// match, and the map-equality case of `eq_model` — length equality plus
/// one-way containment — is set-equality of the bindings and is symmetric.
pub open spec fn entries_unique(s: Seq<(int, ValueModel)>) -> bool {
    forall|i: int, j: int| 0 <= i < j < s.len() ==> (#[trigger] s[i]).0 != (#[trigger] s[j]).0
}

/// Structural equality over value models:
/// numbers, text, characters and booleans by value; symbols and keywords by
/// interned name; lists and structs element-wise; maps by key set and the
/// value at each key (length equality plus containment of the first map's
/// bindings in the second — set-equality of bindings for the duplicate-free
/// entry vectors the library builds, see `entries_unique`); box cells by
/// cell identity; native procedures by descriptor. User closures and lazy
/// cells have no structural equality and compare unequal.
pub open spec fn eq_model(a: ValueModel, b: ValueModel) -> bool
    decreases a,
{
    match (a, b) {
        (ValueModel::Nil, ValueModel::Nil) => true,
        (ValueModel::True, ValueModel::True) => true,
        (ValueModel::False, ValueModel::False) => true,
        (ValueModel::Num(x), ValueModel::Num(y)) => x == y,
        (ValueModel::Str(x), ValueModel::Str(y)) => x == y,
        (ValueModel::Char(x), ValueModel::Char(y)) => x == y,
        (ValueModel::Chars(x), ValueModel::Chars(y)) => x == y,
        (ValueModel::Sym(x), ValueModel::Sym(y)) => x == y,
        (ValueModel::Keyword(x), ValueModel::Keyword(y)) => x == y,
        (ValueModel::List(x), ValueModel::List(y)) => eq_model_seq(x, y),
        (ValueModel::Hashmap(x), ValueModel::Hashmap(y)) =>
            x.len() == y.len() && entries_contained(x, y),
        (ValueModel::Struct(t1, f1), ValueModel::Struct(t2, f2)) =>
            t1 == t2 && eq_model_seq(f1, f2),
        (ValueModel::BoxCell(x), ValueModel::BoxCell(y)) => x == y,
        (ValueModel::NatFunc(x), ValueModel::NatFunc(y)) => x == y,
        _ => false,
    }
}

/// Element-wise structural equality of two model sequences.
pub open spec fn eq_model_seq(x: Seq<ValueModel>, y: Seq<ValueModel>) -> bool
    decreases x,
{
    x.len() == y.len()
        && forall|i: int| 0 <= i < x.len() ==> eq_model(#[trigger] x[i], y[i])
}

/// Every entry of `x` is present in `y` under first-match lookup with a
/// structurally equal value.
pub open spec fn entries_contained(x: Seq<(int, ValueModel)>, y: Seq<(int, ValueModel)>) -> bool
    decreases x,
{
    forall|i: int| 0 <= i < x.len() ==> match lookup_model(y, (#[trigger] x[i]).0) {
        Some(v) => eq_model(x[i].1, v),
        None => false,
    }
}

/// Nil-likeness: `Nil`, `False` and the empty list are false-like.
pub open spec fn is_nil_model(a: ValueModel) -> bool {
    match a {
        ValueModel::Nil => true,
        ValueModel::False => true,
        ValueModel::List(items) => items.len() == 0,
        _ => false,
    }
}

/// Whether a value is false-like.
pub fn is_false_like(v: &Value) -> (r: bool)
    ensures
        r == is_nil_model(v@),
{
    match v {
        Value::Nil => true,
        Value::False => true,
        Value::List(items) => {
            let empty = items.len() == 0;
            proof {
                lemma_model_seq(items@);
            }
            empty
        },
        _ => false,
    }
}

/// Skipping entries that do not carry the key leaves first-match lookup
/// unchanged.
pub proof fn lemma_lookup_skip(m: Seq<(int, ValueModel)>, k: int, i: int)
    requires
        0 <= i <= m.len(),
        forall|j: int| 0 <= j < i ==> m[j].0 != k,
    ensures
        lookup_model(m, k) == lookup_model(m.skip(i), k),
    decreases i,
{
    if i == 0 {
        assert(m.skip(0) =~= m);
    } else {
        assert(m.len() > 0);
        lemma_lookup_skip(m.drop_first(), k, i - 1);
        assert(m.drop_first().skip(i - 1) =~= m.skip(i));
    }
}

/// The index of the first entry carrying key `k`, if any; agrees with
/// first-match lookup over the entry models.
pub fn map_find(entries: &Vec<(Name, Value)>, k: Name) -> (r: Option<usize>)
    ensures
        match r {
            Some(j) => j < entries@.len() && entries@[j as int].0 == k
                && (forall|l: int| 0 <= l < j ==> (#[trigger] entries@[l]).0 != k)
                && lookup_model(model_entries(entries@), k as int)
                    == Some(value_model(entries@[j as int].1)),
            None => lookup_model(model_entries(entries@), k as int) is None,
        },
{
    proof {
        lemma_model_entries(entries@);
    }
    let ghost m = model_entries(entries@);
    let mut i: usize = 0;
    while i < entries.len()
        invariant
            i <= entries@.len(),
            m == model_entries(entries@),
            m.len() == entries@.len(),
            forall|j: int| 0 <= j < entries@.len() ==> m[j]
                == (entries@[j].0 as int, value_model(entries@[j].1)),
            forall|j: int| 0 <= j < i ==> m[j].0 != k as int,
        decreases entries@.len() - i,
    {
        if entries[i].0 == k {
            proof {
                lemma_lookup_skip(m, k as int, i as int);
                assert(m.skip(i as int).len() > 0);
                assert(m.skip(i as int)[0] == m[i as int]);
                assert(m.skip(i as int).drop_first() =~= m.skip(i as int + 1));
                assert forall|l: int| 0 <= l < i implies (#[trigger] entries@[l]).0 != k by {
                    assert(m[l] == (entries@[l].0 as int, value_model(entries@[l].1)));
                }
            }
            return Some(i);
        }
        i += 1;
    }
    proof {
        lemma_lookup_skip(m, k as int, m.len() as int);
        assert(m.skip(m.len() as int).len() == 0);
    }
    None
}

/// Structural equality of two values, as `eq_model` describes it.
pub fn values_equal(a: &Value, b: &Value) -> (r: bool)
    ensures
        r == eq_model(a@, b@),
    decreases *a,
{
    match (a, b) {
        (Value::Nil, Value::Nil) => true,
        (Value::True, Value::True) => true,
        (Value::False, Value::False) => true,
        (Value::Num(x), Value::Num(y)) => x == y,
        (Value::Str(x), Value::Str(y)) => x.eq(y),
        (Value::Char(x), Value::Char(y)) => x == y,
        (Value::Chars(x), Value::Chars(y)) => char_vecs_equal(x, y),
        (Value::Sym(x), Value::Sym(y)) => x == y,
        (Value::Keyword(x), Value::Keyword(y)) => x == y,
        (Value::List(x), Value::List(y)) => value_vecs_equal(x, y),
        (Value::Hashmap(x), Value::Hashmap(y)) => {
            proof {
                lemma_model_entries(x@);
                lemma_model_entries(y@);
            }
            if x.len() != y.len() {
                false
            } else {
                entry_vecs_contained(x, y)
            }
        },
        (Value::Struct(t1, f1), Value::Struct(t2, f2)) => {
            if t1 == t2 {
                value_vecs_equal(f1, f2)
            } else {
                false
            }
        },
        (Value::BoxCell(x), Value::BoxCell(y)) => x == y,
        (Value::NatFunc(x), Value::NatFunc(y)) => x == y,
        _ => false,
    }
}

/// Element-wise equality of two character vectors.
pub fn char_vecs_equal(x: &Vec<char>, y: &Vec<char>) -> (r: bool)
    ensures
        r == (x@ == y@),
{
    if x.len() != y.len() {
        return false;
    }
    let mut i: usize = 0;
    while i < x.len()
        invariant
            x@.len() == y@.len(),
            i <= x@.len(),
            forall|j: int| 0 <= j < i ==> x@[j] == y@[j],
        decreases x@.len() - i,
    {
        if x[i] != y[i] {
            return false;
        }
        i += 1;
    }
    proof {
        assert(x@ =~= y@);
    }
    true
}

/// Element-wise structural equality of two value vectors.
pub fn value_vecs_equal(x: &Vec<Value>, y: &Vec<Value>) -> (r: bool)
    ensures
        r == eq_model_seq(model_seq(x@), model_seq(y@)),
    decreases *x,
{
    proof {
        lemma_model_seq(x@);
        lemma_model_seq(y@);
    }
    if x.len() != y.len() {
        return false;
    }
    let mut i: usize = 0;
    while i < x.len()
        invariant
            x@.len() == y@.len(),
            i <= x@.len(),
            forall|j: int| 0 <= j < i
                ==> eq_model(#[trigger] model_seq(x@)[j], model_seq(y@)[j]),
            model_seq(x@).len() == x@.len(),
            model_seq(y@).len() == y@.len(),
            forall|j: int| 0 <= j < x@.len()
                ==> #[trigger] model_seq(x@)[j] == value_model(x@[j]),
            forall|j: int| 0 <= j < y@.len()
                ==> #[trigger] model_seq(y@)[j] == value_model(y@[j]),
        decreases x@.len() - i,
    {
        if !values_equal(&x[i], &y[i]) {
            proof {
                assert(!eq_model(model_seq(x@)[i as int], model_seq(y@)[i as int]));
            }
            return false;
        }
        i += 1;
    }
    true
}

/// Containment of `x`'s entries in `y`, by first-match lookup and structural
/// equality of the values.
pub fn entry_vecs_contained(x: &Vec<(Name, Value)>, y: &Vec<(Name, Value)>) -> (r: bool)
    ensures
        r == entries_contained(model_entries(x@), model_entries(y@)),
    decreases *x,
{
    proof {
        lemma_model_entries(x@);
        lemma_model_entries(y@);
    }
    let ghost mx = model_entries(x@);
    let ghost my = model_entries(y@);
    let mut i: usize = 0;
    while i < x.len()
        invariant
            mx == model_entries(x@),
            my == model_entries(y@),
            i <= x@.len(),
            mx.len() == x@.len(),
            forall|j: int| 0 <= j < x@.len() ==> mx[j]
                == (x@[j].0 as int, value_model(x@[j].1)),
            forall|j: int| 0 <= j < i ==> match lookup_model(my, (#[trigger] mx[j]).0) {
                Some(v) => eq_model(mx[j].1, v),
                None => false,
            },
        decreases x@.len() - i,
    {
        match map_find(y, x[i].0) {
            Some(j) => {
                if !values_equal(&x[i].1, &y[j].1) {
                    proof {
                        assert(lookup_model(my, mx[i as int].0)
                            == Some(value_model(y@[j as int].1)));
                        assert(!eq_model(mx[i as int].1, value_model(y@[j as int].1)));
                    }
                    return false;
                }
            },
            None => {
                proof {
                    assert(lookup_model(my, mx[i as int].0) is None);
                }
                return false;
            },
        }
        i += 1;
    }
    true
}

/// A structurally identical copy: the fresh value has the same model.
pub fn copy_value(v: &Value) -> (r: Value)
    ensures
        r@ == v@,
    decreases *v,
{
    match v {
        Value::Nil => Value::Nil,
        Value::True => Value::True,
        Value::False => Value::False,
        Value::Num(n) => Value::Num(*n),
        Value::Str(s) => Value::Str(s.clone()),
        Value::Char(c) => Value::Char(*c),
        Value::Chars(cs) => Value::Chars(copy_chars(cs)),
        Value::Sym(n) => Value::Sym(*n),
        Value::Keyword(n) => Value::Keyword(*n),
        Value::List(items) => Value::List(copy_values(items)),
        Value::Hashmap(entries) => Value::Hashmap(copy_entries(entries)),
        Value::Struct(tag, fields) => Value::Struct(*tag, copy_values(fields)),
        Value::BoxCell(i) => Value::BoxCell(*i),
        Value::Func { params, body, env } => Value::Func {
            params: copy_names(params),
            body: Box::new(copy_value(body)),
            env: *env,
        },
        Value::NatFunc(b) => Value::NatFunc(*b),
        Value::Lazy { head, tail, env } => Value::Lazy {
            head: Box::new(copy_value(head)),
            tail: Box::new(copy_value(tail)),
            env: *env,
        },
    }
}

/// A fresh character vector with the same contents.
pub fn copy_chars(cs: &Vec<char>) -> (r: Vec<char>)
    ensures
        r@ == cs@,
{
    let mut out: Vec<char> = Vec::new();
    let mut i: usize = 0;
    while i < cs.len()
        invariant
            i <= cs@.len(),
            out@ == cs@.subrange(0, i as int),
        decreases cs@.len() - i,
    {
        out.push(cs[i]);
        proof {
            assert(out@ =~= cs@.subrange(0, i as int + 1));
        }
        i += 1;
    }
    proof {
        assert(out@ =~= cs@);
    }
    out
}

/// A fresh name vector with the same contents.
pub fn copy_names(ns: &Vec<Name>) -> (r: Vec<Name>)
    ensures
        r@ == ns@,
{
    let mut out: Vec<Name> = Vec::new();
    let mut i: usize = 0;
    while i < ns.len()
        invariant
            i <= ns@.len(),
            out@ == ns@.subrange(0, i as int),
        decreases ns@.len() - i,
    {
        out.push(ns[i]);
        proof {
            assert(out@ =~= ns@.subrange(0, i as int + 1));
        }
        i += 1;
    }
    proof {
        assert(out@ =~= ns@);
    }
    out
}

/// A fresh value vector whose elements have the same models.
pub fn copy_values(items: &Vec<Value>) -> (r: Vec<Value>)
    ensures
        model_seq(r@) == model_seq(items@),
        r@.len() == items@.len(),
    decreases *items,
{
    proof {
        lemma_model_seq(items@);
    }
    let mut out: Vec<Value> = Vec::new();
    let mut i: usize = 0;
    while i < items.len()
        invariant
            i <= items@.len(),
            out@.len() == i,
            forall|j: int| 0 <= j < i
                ==> value_model(#[trigger] out@[j]) == value_model(items@[j]),
        decreases items@.len() - i,
    {
        let c = copy_value(&items[i]);
        out.push(c);
        i += 1;
    }
    proof {
        lemma_model_seq(out@);
        assert(model_seq(out@) =~= model_seq(items@));
    }
    out
}

/// A fresh entry vector whose entries have the same models.
pub fn copy_entries(entries: &Vec<(Name, Value)>) -> (r: Vec<(Name, Value)>)
    ensures
        model_entries(r@) == model_entries(entries@),
        r@.len() == entries@.len(),
    decreases *entries,
{
    proof {
        lemma_model_entries(entries@);
    }
    let mut out: Vec<(Name, Value)> = Vec::new();
    let mut i: usize = 0;
    while i < entries.len()
        invariant
            i <= entries@.len(),
            out@.len() == i,
            forall|j: int| 0 <= j < i ==> (#[trigger] out@[j]).0 == entries@[j].0
                && value_model(out@[j].1) == value_model(entries@[j].1),
        decreases entries@.len() - i,
    {
        let k = entries[i].0;
        let c = copy_value(&entries[i].1);
        out.push((k, c));
        i += 1;
    }
    proof {
        lemma_model_entries(out@);
        assert(model_entries(out@) =~= model_entries(entries@));
    }
    out
}

} // verus!
