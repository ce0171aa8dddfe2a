use vstd::prelude::*;
use vstd::string::StrSliceExecFns;
use crate::error::Error;
use crate::value::{copy_chars, lemma_model_seq, model_seq, value_model, Value, ValueModel};

verus! {

/// Appends one character to a string.
/// Relies on String::push: it appends exactly the given character.
#[verifier::external_body]
pub fn push_char(s: &mut String, c: char)
    ensures
        final(s)@ == old(s)@.push(c),
{
    s.push(c);
}

/// The characters of a string, in order, as a fresh vector.
pub fn string_chars(s: &String) -> (r: Vec<char>)
    ensures
        r@ == s@,
{
    let n = s.as_str().unicode_len();
    let mut out: Vec<char> = Vec::new();
    let mut i: usize = 0;
    while i < n
        invariant
            n == s@.len(),
            i <= n,
            out@ == s@.subrange(0, i as int),
        decreases n - i,
    {
        let c = s.as_str().get_char(i);
        out.push(c);
        proof {
            assert(out@ =~= s@.subrange(0, i as int + 1));
        }
        i += 1;
    }
    proof {
        assert(out@ =~= s@);
    }
    out
}

/// A string holding the given characters, in order.
pub fn chars_string(cs: &Vec<char>) -> (r: String)
    ensures
        r@ == cs@,
{
    let mut out = String::new();
    let mut i: usize = 0;
    while i < cs.len()
        invariant
            i <= cs@.len(),
            out@ == cs@.subrange(0, i as int),
        decreases cs@.len() - i,
    {
        push_char(&mut out, cs[i]);
        proof {
            assert(out@ =~= cs@.subrange(0, i as int + 1));
        }
        i += 1;
    }
    proof {
        assert(out@ =~= cs@);
    }
    out
}

/// `string->chars`: decomposes a string into its code points; a value
/// already decomposed passes through.
pub fn core_string_to_chars(v: &Vec<Value>) -> (r: Result<Value, Error>)
    requires
        v@.len() >= 1,
    ensures
        (match value_model(v@[0]) {
            ValueModel::Str(s) => r matches Ok(out) && out@ == ValueModel::Chars(s),
            ValueModel::Chars(cs) => r matches Ok(out) && out@ == ValueModel::Chars(cs),
            _ => r matches Err(Error::TypeError { .. }),
        }),
{
    match &v[0] {
        Value::Str(s) => Ok(Value::Chars(string_chars(s))),
        Value::Chars(cs) => Ok(Value::Chars(copy_chars(cs))),
        _ => Err(crate::error::type_error("string", &v[0])),
    }
}

/// `string/append-char`: a string with one character appended.
pub fn core_string_append_char(v: &Vec<Value>) -> (r: Result<Value, Error>)
    requires
        v@.len() >= 2,
    ensures
        (match (value_model(v@[0]), value_model(v@[1])) {
            (ValueModel::Str(s), ValueModel::Char(c)) => r matches Ok(out)
                && out@ == ValueModel::Str(s.push(c)),
            _ => r matches Err(Error::TypeError { .. }),
        }),
{
    match (&v[0], &v[1]) {
        (Value::Str(s), Value::Char(c)) => {
            let mut out = s.clone();
            push_char(&mut out, *c);
            Ok(Value::Str(out))
        },
        _ => Err(crate::error::type_error("string and char", &v[0])),
    }
}

/// `char->string`: the one-character string.
pub fn core_char_to_string(v: &Vec<Value>) -> (r: Result<Value, Error>)
    requires
        v@.len() >= 1,
    ensures
        (match value_model(v@[0]) {
            ValueModel::Char(c) => r matches Ok(out)
                && out@ == ValueModel::Str(Seq::empty().push(c)),
            _ => r matches Err(Error::TypeError { .. }),
        }),
{
    match &v[0] {
        Value::Char(c) => {
            let mut out = String::new();
            push_char(&mut out, *c);
            Ok(Value::Str(out))
        },
        _ => Err(crate::error::type_error("char", &v[0])),
    }
}

/// The characters of a list whose elements are all `Char`; `None` as soon as
/// one is not.
pub open spec fn chars_of_list(items: Seq<ValueModel>) -> Option<Seq<char>>
    decreases items,
{
    if items.len() == 0 {
        Some(Seq::empty())
    } else {
        match items[0] {
            ValueModel::Char(c) => match chars_of_list(items.drop_first()) {
                Some(rest) => Some(seq![c] + rest),
                None => None,
            },
            _ => None,
        }
    }
}

/// Taking the characters of a list distributes over appending one element.
proof fn lemma_chars_of_list_snoc(items: Seq<ValueModel>, x: ValueModel)
    ensures
        chars_of_list(items.push(x)) == (match (chars_of_list(items), x) {
            (Some(cs), ValueModel::Char(c)) => Some(cs.push(c)),
            _ => None::<Seq<char>>,
        }),
    decreases items,
{
    let whole = items.push(x);
    if items.len() == 0 {
        assert(whole[0] == x);
        assert(whole.drop_first() =~= Seq::<ValueModel>::empty());
        if x is Char {
            let c = x->Char_0;
            assert(chars_of_list(whole.drop_first()) == Some(Seq::<char>::empty()));
            assert(chars_of_list(whole) == Some(seq![c] + Seq::<char>::empty()));
            assert(seq![c] + Seq::<char>::empty() =~= Seq::<char>::empty().push(c));
        }
    } else {
        assert(whole[0] == items[0]);
        assert(whole.drop_first() =~= items.drop_first().push(x));
        lemma_chars_of_list_snoc(items.drop_first(), x);
        if items[0] is Char && x is Char {
            let c0 = items[0]->Char_0;
            let c = x->Char_0;
            match chars_of_list(items.drop_first()) {
                Some(rest) => {
                    assert(seq![c0] + rest.push(c) =~= (seq![c0] + rest).push(c));
                },
                None => {},
            }
        }
    }
}

/// `char-list->string`: joins a list of characters into a string; any
/// non-character element is a type error.
pub fn core_char_list_to_string(v: &Vec<Value>) -> (r: Result<Value, Error>)
    requires
        v@.len() >= 1,
    ensures
        (match value_model(v@[0]) {
            ValueModel::List(items) => match chars_of_list(items) {
                Some(cs) => r matches Ok(out) && out@ == ValueModel::Str(cs),
                None => r matches Err(Error::TypeError { .. }),
            },
            _ => r matches Err(Error::TypeError { .. }),
        }),
{
    let items = match &v[0] {
        Value::List(items) => items,
        _ => {
            return Err(crate::error::type_error("list", &v[0]));
        },
    };
    proof {
        lemma_model_seq(items@);
    }
    let ghost m = model_seq(items@);
    let mut out = String::new();
    let mut i: usize = 0;
    while i < items.len()
        invariant
            i <= items@.len(),
            m == model_seq(items@),
            m.len() == items@.len(),
            forall|j: int| 0 <= j < items@.len() ==> m[j] == value_model(#[trigger] items@[j]),
            value_model(v@[0]) == ValueModel::List(m),
            chars_of_list(m.subrange(0, i as int)) == Some(out@),
        decreases items@.len() - i,
    {
        let ghost prefix = m.subrange(0, i as int);
        match &items[i] {
            Value::Char(c) => {
                push_char(&mut out, *c);
                proof {
                    lemma_chars_of_list_snoc(prefix, m[i as int]);
                    assert(prefix.push(m[i as int]) =~= m.subrange(0, i as int + 1));
                }
            },
            _ => {
                proof {
                    lemma_chars_of_list_none(m, i as int);
                }
                return Err(crate::error::type_error("char", &items[i]));
            },
        }
        i += 1;
    }
    proof {
        assert(m.subrange(0, m.len() as int) =~= m);
    }
    Ok(Value::Str(out))
}

/// A non-character element anywhere makes the whole list unjoinable.
proof fn lemma_chars_of_list_none(m: Seq<ValueModel>, i: int)
    requires
        0 <= i < m.len(),
        !(m[i] is Char),
    ensures
        chars_of_list(m) is None,
    decreases m,
{
    if i > 0 {
        lemma_chars_of_list_none(m.drop_first(), i - 1);
    }
}

/// Whether `p` is a prefix of `s`, comparing characters.
fn chars_prefix(s: &Vec<char>, p: &Vec<char>) -> (r: bool)
    ensures
        r == p@.is_prefix_of(s@),
{
    if p.len() > s.len() {
        proof {
            assert(!p@.is_prefix_of(s@));
        }
        return false;
    }
    let mut i: usize = 0;
    while i < p.len()
        invariant
            p@.len() <= s@.len(),
            i <= p@.len(),
            forall|j: int| 0 <= j < i ==> p@[j] == s@[j],
        decreases p@.len() - i,
    {
        if p[i] != s[i] {
            proof {
                assert(p@[i as int] != s@.subrange(0, p@.len() as int)[i as int]);
            }
            return false;
        }
        i += 1;
    }
    proof {
        assert(p@ =~= s@.subrange(0, p@.len() as int));
    }
    true
}

/// `string/starts-with`: prefix test over strings or decomposed characters;
/// `Nil` starts with nothing.
pub fn core_string_starts_with(v: &Vec<Value>) -> (r: Result<Value, Error>)
    requires
        v@.len() >= 2,
    ensures
        (match (value_model(v@[0]), value_model(v@[1])) {
            (ValueModel::Str(s), ValueModel::Str(p)) => r matches Ok(out)
                && out@ == (if p.is_prefix_of(s) { ValueModel::True } else { ValueModel::False }),
            (ValueModel::Chars(cs), ValueModel::Str(p)) => r matches Ok(out)
                && out@ == (if p.is_prefix_of(cs) { ValueModel::True } else { ValueModel::False }),
            (ValueModel::Nil, ValueModel::Str(_)) => r matches Ok(out)
                && out@ == ValueModel::False,
            _ => r matches Err(Error::DomainError { .. }),
        }),
{
    match (&v[0], &v[1]) {
        (Value::Str(s), Value::Str(p)) => {
            let sc = string_chars(s);
            let pc = string_chars(p);
            if chars_prefix(&sc, &pc) {
                Ok(Value::True)
            } else {
                Ok(Value::False)
            }
        },
        (Value::Chars(cs), Value::Str(p)) => {
            let pc = string_chars(p);
            if chars_prefix(cs, &pc) {
                Ok(Value::True)
            } else {
                Ok(Value::False)
            }
        },
        (Value::Nil, Value::Str(_)) => Ok(Value::False),
        _ => Err(crate::error::domain_error("invalid arguments to a prefix test")),
    }
}

/// `chars/slice`: a sub-vector of a decomposed string. With two arguments it
/// keeps everything from `start`; with three it keeps `start..end`, and an
/// empty result collapses to `Nil`. Bounds outside the vector are domain
/// errors.
pub fn core_chars_slice(v: &Vec<Value>) -> (r: Result<Value, Error>)
    requires
        2 <= v@.len(),
    ensures
        v@.len() == 2 ==> (match (value_model(v@[0]), value_model(v@[1])) {
            (ValueModel::Chars(cs), ValueModel::Num(start)) => {
                if 0 <= start <= cs.len() {
                    r matches Ok(out)
                        && out@ == ValueModel::Chars(cs.subrange(start, cs.len() as int))
                } else {
                    r matches Err(Error::DomainError { .. })
                }
            },
            _ => r matches Err(Error::DomainError { .. }),
        }),
        v@.len() == 3 ==> (match (value_model(v@[0]), value_model(v@[1]), value_model(v@[2])) {
            (ValueModel::Chars(cs), ValueModel::Num(start), ValueModel::Num(end)) => {
                if 0 <= start <= end <= cs.len() {
                    if start == end {
                        r matches Ok(out) && out@ == ValueModel::Nil
                    } else {
                        r matches Ok(out) && out@ == ValueModel::Chars(cs.subrange(start, end))
                    }
                } else {
                    r matches Err(Error::DomainError { .. })
                }
            },
            _ => r matches Err(Error::DomainError { .. }),
        }),
        v@.len() > 3 ==> (r matches Err(Error::DomainError { .. })),
{
    if v.len() == 2 {
        match (&v[0], &v[1]) {
            (Value::Chars(cs), Value::Num(start)) => {
                if 0 <= *start && (*start as u64) <= (cs.len() as u64) {
                    let out = chars_range(cs, *start as usize, cs.len());
                    Ok(Value::Chars(out))
                } else {
                    Err(crate::error::domain_error("invalid slice bounds"))
                }
            },
            _ => Err(crate::error::domain_error("invalid arguments to a slice")),
        }
    } else if v.len() == 3 {
        match (&v[0], &v[1], &v[2]) {
            (Value::Chars(cs), Value::Num(start), Value::Num(end)) => {
                if 0 <= *start && *start <= *end && (*end as u64) <= (cs.len() as u64) {
                    if *start == *end {
                        Ok(Value::Nil)
                    } else {
                        let out = chars_range(cs, *start as usize, *end as usize);
                        Ok(Value::Chars(out))
                    }
                } else {
                    Err(crate::error::domain_error("invalid slice bounds"))
                }
            },
            _ => Err(crate::error::domain_error("invalid arguments to a slice")),
        }
    } else {
        Err(crate::error::domain_error("invalid arguments to a slice"))
    }
}

/// The characters of `cs` from `start` up to `end`, as a fresh vector.
pub fn chars_range(cs: &Vec<char>, start: usize, end: usize) -> (r: Vec<char>)
    requires
        start <= end <= cs@.len(),
    ensures
        r@ == cs@.subrange(start as int, end as int),
{
    let mut out: Vec<char> = Vec::new();
    let mut i: usize = start;
    while i < end
        invariant
            start <= i <= end <= cs@.len(),
            out@ == cs@.subrange(start as int, i as int),
        decreases end - i,
    {
        out.push(cs[i]);
        proof {
            assert(out@ =~= cs@.subrange(start as int, i as int + 1));
        }
        i += 1;
    }
    out
}

} // verus!
