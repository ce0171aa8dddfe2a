use vstd::prelude::*;
use vstd::string::StringExecFns;
use crate::error::Error;
use crate::names::NamePool;
use crate::render::{render, render_items, render_of, render_sep_slice};
use crate::value::{lemma_model_seq, model_seq, value_model, Value, ValueModel};

verus! {

/// The display forms of a run of values, concatenated with no separator.
pub open spec fn str_text(args: Seq<ValueModel>, pool: Seq<Seq<char>>) -> Seq<char>
    decreases args,
{
    if args.len() == 0 {
        Seq::empty()
    } else {
        render_of(args[0], pool, false) + str_text(args.drop_first(), pool)
    }
}

/// Concatenation grows one rendering at a time.
proof fn lemma_str_text_snoc(args: Seq<ValueModel>, x: ValueModel, pool: Seq<Seq<char>>)
    ensures
        str_text(args.push(x), pool) == str_text(args, pool) + render_of(x, pool, false),
    decreases args,
{
    let whole = args.push(x);
    if args.len() == 0 {
        assert(whole[0] == x);
        assert(whole.drop_first() =~= Seq::<ValueModel>::empty());
        assert(str_text(whole.drop_first(), pool) =~= Seq::<char>::empty());
        assert(str_text(args, pool) =~= Seq::<char>::empty());
        assert(str_text(whole, pool)
            =~= str_text(args, pool) + render_of(x, pool, false));
    } else {
        assert(whole[0] == args[0]);
        assert(whole.drop_first() =~= args.drop_first().push(x));
        lemma_str_text_snoc(args.drop_first(), x, pool);
        assert(str_text(whole, pool)
            =~= str_text(args, pool) + render_of(x, pool, false));
    }
}

/// `str`: concatenates the display form of every argument.
pub fn operator_str(v: &Vec<Value>, pool: &NamePool) -> (r: Result<Value, Error>)
    ensures
        r matches Ok(out) && out@ == ValueModel::Str(str_text(model_seq(v@), pool@)),
{
    proof {
        lemma_model_seq(v@);
    }
    let ghost m = model_seq(v@);
    let mut out = String::new();
    let mut i: usize = 0;
    while i < v.len()
        invariant
            i <= v@.len(),
            m == model_seq(v@),
            m.len() == v@.len(),
            forall|j: int| 0 <= j < v@.len() ==> m[j] == value_model(#[trigger] v@[j]),
            out@ == str_text(m.subrange(0, i as int), pool@),
        decreases v@.len() - i,
    {
        let ghost prefix = m.subrange(0, i as int);
        let text = render(&v[i], pool, false);
        out.append(text.as_str());
        proof {
            lemma_str_text_snoc(prefix, m[i as int], pool@);
            assert(prefix.push(m[i as int]) =~= m.subrange(0, i as int + 1));
        }
        i += 1;
    }
    proof {
        assert(m.subrange(0, m.len() as int) =~= m);
    }
    Ok(Value::Str(out))
}

/// `repr`: the debug form of the first argument, of `Nil` when none is given.
pub fn core_repr(v: &Vec<Value>, pool: &NamePool) -> (r: Result<Value, Error>)
    ensures
        r matches Ok(out) && out@ == ValueModel::Str(render_of(
            if v@.len() == 0 { ValueModel::Nil } else { value_model(v@[0]) },
            pool@,
            true,
        )),
{
    if v.len() == 0 {
        let text = render(&Value::Nil, pool, true);
        Ok(Value::Str(text))
    } else {
        let text = render(&v[0], pool, true);
        Ok(Value::Str(text))
    }
}

/// `join`: the display forms of a list's elements interleaved with a
/// separator; `Nil` joins to the empty string.
pub fn core_join(v: &Vec<Value>, pool: &NamePool) -> (r: Result<Value, Error>)
    requires
        v@.len() >= 2,
    ensures
        (match (value_model(v@[0]), value_model(v@[1])) {
            (ValueModel::Str(sep), ValueModel::List(items)) => r matches Ok(out)
                && out@ == ValueModel::Str(render_items(items, pool@, sep, false)),
            (ValueModel::Str(_), ValueModel::Nil) => r matches Ok(out)
                && out@ == ValueModel::Str(Seq::empty()),
            (ValueModel::Str(_), _) => r matches Err(Error::TypeError { .. }),
            _ => r matches Err(Error::TypeError { .. }),
        }),
{
    let sep = match &v[0] {
        Value::Str(sep) => sep,
        _ => {
            return Err(crate::error::type_error("string", &v[0]));
        },
    };
    match &v[1] {
        Value::List(items) => {
            let sep_chars = crate::strings::string_chars(sep);
            let text = render_sep_slice(items, pool, sep_chars, false);
            Ok(Value::Str(text))
        },
        Value::Nil => Ok(Value::Str(String::new())),
        _ => Err(crate::error::type_error("list", &v[1])),
    }
}

/// The first position at or after `from` holding `c`.
pub open spec fn find_char(t: Seq<char>, from: int, c: char) -> Option<int>
    decreases t.len() - from,
{
    if from < 0 || from >= t.len() {
        None
    } else if t[from] == c {
        Some(from)
    } else {
        find_char(t, from + 1, c)
    }
}

/// The template scan. A left-to-right pass over the template with a
/// positional cursor into `args` (starting at 1: argument 0 is the template
/// itself). Literal characters copy through; `{{` and `}}` escape the
/// braces; `{}` consumes the next argument in display form and `{?}` in
/// debug form; `{@sep}` consumes the next argument, which must be a list,
/// rendering its elements separated by `sep` (empty when no separator text
/// is given). Any other character after `{`, a dangling brace, a missing
/// argument or a non-list under `{@}` is an error.
pub open spec fn format_spec(
    t: Seq<char>,
    args: Seq<ValueModel>,
    cur: int,
    pool: Seq<Seq<char>>,
) -> Result<Seq<char>, ()>
    decreases t.len(),
{
    if t.len() == 0 {
        Ok(Seq::empty())
    } else if t[0] == '{' {
        let dbg = t.len() >= 2 && t[1] == '?';
        let j: int = if dbg { 2 } else { 1 };
        if t.len() <= j {
            Err(())
        } else if t[j] == '}' {
            if 0 <= cur < args.len() {
                match format_spec(t.skip(j + 1), args, cur + 1, pool) {
                    Ok(rest) => Ok(render_of(args[cur], pool, dbg) + rest),
                    Err(e) => Err(e),
                }
            } else {
                Err(())
            }
        } else if t[j] == '{' {
            match format_spec(t.skip(j + 1), args, cur, pool) {
                Ok(rest) => Ok(seq!['{'] + rest),
                Err(e) => Err(e),
            }
        } else if t[j] == '@' {
            if t.len() <= j + 1 {
                Err(())
            } else {
                match find_char(t, j + 1, '}') {
                    None => Err(()),
                    Some(close) => if j + 1 <= close < t.len() {
                        let sep = t.subrange(j + 1, close);
                        if 0 <= cur < args.len() {
                            match args[cur] {
                                ValueModel::List(items) => match format_spec(
                                    t.skip(close + 1), args, cur + 1, pool,
                                ) {
                                    Ok(rest) => Ok(render_items(items, pool, sep, dbg)
                                        + rest),
                                    Err(e) => Err(e),
                                },
                                _ => Err(()),
                            }
                        } else {
                            Err(())
                        }
                    } else {
                        Err(())
                    },
                }
            }
        } else {
            Err(())
        }
    } else if t[0] == '}' {
        if t.len() >= 2 && t[1] == '}' {
            match format_spec(t.skip(2), args, cur, pool) {
                Ok(rest) => Ok(seq!['}'] + rest),
                Err(e) => Err(e),
            }
        } else {
            Err(())
        }
    } else {
        match format_spec(t.skip(1), args, cur, pool) {
            Ok(rest) => Ok(seq![t[0]] + rest),
            Err(e) => Err(e),
        }
    }
}

/// The first `}` at or after `from`, as `find_char` describes it.
fn find_close(t: &Vec<char>, from: usize) -> (r: Option<usize>)
    ensures
        match r {
            Some(p) => from <= p < t@.len() && find_char(t@, from as int, '}')
                == Some(p as int),
            None => find_char(t@, from as int, '}') is None,
        },
{
    let mut i: usize = from;
    while i < t.len()
        invariant
            from <= i,
            i <= t@.len() || from >= t@.len(),
            find_char(t@, from as int, '}') == find_char(t@, i as int, '}'),
        decreases t@.len() - i,
    {
        if t[i] == '}' {
            return Some(i);
        }
        i += 1;
    }
    None
}

/// `format`: runs the template scan over the first argument with the rest as
/// positional arguments. Every scan error is a domain error.
#[verifier::rlimit(100)]
pub fn core_format(v: &Vec<Value>, pool: &NamePool) -> (r: Result<Value, Error>)
    requires
        v@.len() >= 1,
    ensures
        (match value_model(v@[0]) {
            ValueModel::Str(t) => match format_spec(t, model_seq(v@), 1, pool@) {
                Ok(text) => r matches Ok(out) && out@ == ValueModel::Str(text),
                Err(_) => r matches Err(Error::DomainError { .. }),
            },
            _ => r matches Err(Error::DomainError { .. }),
        }),
{
    let template = match &v[0] {
        Value::Str(s) => s,
        _ => {
            return Err(crate::error::domain_error("format requires a format string argument"));
        },
    };
    let t = crate::strings::string_chars(template);
    proof {
        lemma_model_seq(v@);
    }
    let ghost tm = t@;
    let ghost args = model_seq(v@);
    let ghost goal = format_spec(tm, args, 1, pool@);
    let mut out = String::new();
    let mut i: usize = 0;
    let mut cur: usize = 1;
    proof {
        assert(tm.skip(0) =~= tm);
    }
    while i < t.len()
        invariant
            i <= t@.len(),
            1 <= cur,
            tm == t@,
            args == model_seq(v@),
            args.len() == v@.len(),
            forall|j: int| 0 <= j < v@.len() ==> args[j] == value_model(#[trigger] v@[j]),
            value_model(v@[0]) == ValueModel::Str(tm),
            goal == format_spec(tm, args, 1, pool@),
            (match format_spec(tm.skip(i as int), args, cur as int, pool@) {
                Ok(rest) => goal == Ok::<Seq<char>, ()>(out@ + rest),
                Err(_) => goal is Err,
            }),
        decreases t@.len() - i,
    {
        let ghost suffix = tm.skip(i as int);
        proof {
            assert(suffix.len() == tm.len() - i);
            assert(suffix[0] == tm[i as int]);
        }
        let c = t[i];
        if c == '{' {
            let dbg = i + 1 < t.len() && t[i + 1] == '?';
            let j: usize = if dbg { i + 2 } else { i + 1 };
            proof {
                if i + 1 < tm.len() {
                    assert(suffix[1] == tm[i as int + 1]);
                }
            }
            if j >= t.len() {
                proof {
                    assert(format_spec(suffix, args, cur as int, pool@) is Err);
                }
                return Err(crate::error::domain_error("invalid syntax in format string"));
            }
            let d = t[j];
            proof {
                assert(suffix[j - i] == tm[j as int]);
            }
            if d == '}' {
                if cur >= v.len() {
                    proof {
                        assert(format_spec(suffix, args, cur as int, pool@) is Err);
                    }
                    return Err(crate::error::domain_error(
                        "value expected to format string not found"));
                }
                let ghost out_before = out@;
                let text = render(&v[cur], pool, dbg);
                out.append(text.as_str());
                proof {
                    assert(suffix.skip(j - i + 1) =~= tm.skip(j as int + 1));
                    let after = format_spec(tm.skip(j as int + 1), args, cur as int + 1,
                        pool@);
                    if after is Ok {
                        let rest2 = after->Ok_0;
                        assert(out_before + (text@ + rest2) =~= (out_before + text@) + rest2);
                    }
                }
                i = j + 1;
                cur = cur + 1;
            } else if d == '{' {
                let ghost out_before = out@;
                crate::strings::push_char(&mut out, '{');
                proof {
                    assert(out@ =~= out_before + seq!['{']);
                    assert(suffix.skip(j - i + 1) =~= tm.skip(j as int + 1));
                    let after = format_spec(tm.skip(j as int + 1), args, cur as int, pool@);
                    if after is Ok {
                        let rest2 = after->Ok_0;
                        assert(out_before + (seq!['{'] + rest2)
                            =~= (out_before + seq!['{']) + rest2);
                    }
                }
                i = j + 1;
            } else if d == '@' {
                if j + 1 >= t.len() {
                    proof {
                        assert(format_spec(suffix, args, cur as int, pool@) is Err);
                    }
                    return Err(crate::error::domain_error("invalid syntax in format string"));
                }
                proof {
                    lemma_find_char_shift(tm, i as int, j as int + 1);
                }
                let close = match find_close(&t, j + 1) {
                    Some(p) => p,
                    None => {
                        proof {
                            assert(format_spec(suffix, args, cur as int, pool@) is Err);
                        }
                        return Err(crate::error::domain_error(
                            "invalid syntax in format string expected closing }"));
                    },
                };
                if cur >= v.len() {
                    proof {
                        assert(format_spec(suffix, args, cur as int, pool@) is Err);
                    }
                    return Err(crate::error::domain_error(
                        "value expected to format string not found"));
                }
                let items = match &v[cur] {
                    Value::List(items) => items,
                    _ => {
                        proof {
                            assert(!(args[cur as int] is List));
                            assert(format_spec(suffix, args, cur as int, pool@) is Err);
                        }
                        return Err(crate::error::domain_error(
                            "value expected to slice in format string must be a list"));
                    },
                };
                let sep = crate::strings::chars_range(&t, j + 1, close);
                let ghost out_before = out@;
                let text = render_sep_slice(items, pool, sep, dbg);
                out.append(text.as_str());
                proof {
                    assert(args[cur as int] == ValueModel::List(model_seq(items@)));
                    assert(suffix.subrange(j - i + 1, close - i)
                        =~= tm.subrange(j as int + 1, close as int));
                    assert(suffix.skip(close - i + 1) =~= tm.skip(close as int + 1));
                    let after = format_spec(tm.skip(close as int + 1), args, cur as int + 1,
                        pool@);
                    if after is Ok {
                        let rest2 = after->Ok_0;
                        assert(out_before + (text@ + rest2) =~= (out_before + text@) + rest2);
                    }
                }
                i = close + 1;
                cur = cur + 1;
            } else {
                proof {
                    assert(format_spec(suffix, args, cur as int, pool@) is Err);
                }
                return Err(crate::error::domain_error("invalid syntax in format string"));
            }
        } else if c == '}' {
            if i + 1 < t.len() && t[i + 1] == '}' {
                let ghost out_before = out@;
                crate::strings::push_char(&mut out, '}');
                proof {
                    assert(out@ =~= out_before + seq!['}']);
                    assert(suffix[1] == tm[i as int + 1]);
                    assert(suffix.skip(2) =~= tm.skip(i as int + 2));
                    let after = format_spec(tm.skip(i as int + 2), args, cur as int, pool@);
                    if after is Ok {
                        let rest2 = after->Ok_0;
                        assert(out_before + (seq!['}'] + rest2)
                            =~= (out_before + seq!['}']) + rest2);
                    }
                }
                i = i + 2;
            } else {
                proof {
                    if i + 1 < tm.len() {
                        assert(suffix[1] == tm[i as int + 1]);
                    }
                    assert(format_spec(suffix, args, cur as int, pool@) is Err);
                }
                return Err(crate::error::domain_error("invalid syntax in format string"));
            }
        } else {
            let ghost out_before = out@;
            crate::strings::push_char(&mut out, c);
            proof {
                assert(out@ =~= out_before + seq![c]);
                assert(suffix.skip(1) =~= tm.skip(i as int + 1));
                let after = format_spec(tm.skip(i as int + 1), args, cur as int, pool@);
                if after is Ok {
                    let rest2 = after->Ok_0;
                    assert(out_before + (seq![c] + rest2) =~= (out_before + seq![c]) + rest2);
                }
            }
            i = i + 1;
        }
    }
    proof {
        assert(tm.skip(tm.len() as int).len() == 0);
    }
    Ok(Value::Str(out))
}

/// Searching within a suffix finds the same first position.
proof fn lemma_find_char_shift(t: Seq<char>, base: int, from: int)
    requires
        0 <= base <= from,
        base <= t.len(),
    ensures
        (match find_char(t, from, '}') {
            Some(p) => find_char(t.skip(base), from - base, '}') == Some(p - base),
            None => find_char(t.skip(base), from - base, '}') is None,
        }),
    decreases t.len() - from,
{
    if from >= t.len() {
        assert(t.skip(base).len() == t.len() - base);
        assert(find_char(t.skip(base), from - base, '}') is None);
    } else {
        assert(t.skip(base)[from - base] == t[from]);
        if t[from] == '}' {
            assert(find_char(t, from, '}') == Some(from));
            assert(find_char(t.skip(base), from - base, '}') == Some(from - base));
        } else {
            lemma_find_char_shift(t, base, from + 1);
            assert(find_char(t, from, '}') == find_char(t, from + 1, '}'));
            assert(find_char(t.skip(base), from - base, '}')
                == find_char(t.skip(base), from - base + 1, '}'));
        }
    }
}

} // verus!
