use vstd::prelude::*;
use vstd::string::StringExecFns;
use crate::names::NamePool;
use crate::strings::push_char;
use crate::value::{lemma_model_entries, lemma_model_seq, model_entries, model_seq, value_model,
    Value, ValueModel};

verus! {

/// The character for one decimal digit.
pub open spec fn digit_char(d: int) -> char {
    if d == 0 { '0' }
    else if d == 1 { '1' }
    else if d == 2 { '2' }
    else if d == 3 { '3' }
    else if d == 4 { '4' }
    else if d == 5 { '5' }
    else if d == 6 { '6' }
    else if d == 7 { '7' }
    else if d == 8 { '8' }
    else { '9' }
}

/// The decimal digits of a non-negative number, most significant first.
pub open spec fn dec_digits(n: nat) -> Seq<char>
    decreases n,
{
    if n < 10 {
        seq![digit_char(n as int)]
    } else {
        dec_digits(n / 10).push(digit_char((n % 10) as int))
    }
}

/// The rendering of a number: its decimal digits, minus-signed when negative.
pub open spec fn num_text(n: int) -> Seq<char> {
    if n < 0 {
        seq!['-'] + dec_digits((-n) as nat)
    } else {
        dec_digits(n as nat)
    }
}

/// The text behind an interned name; empty for a name this pool never made.
pub open spec fn name_text(pool: Seq<Seq<char>>, n: int) -> Seq<char> {
    if 0 <= n < pool.len() {
        pool[n]
    } else {
        Seq::empty()
    }
}

/// The rendering of a value. The display form (`dbg` false) shows text
/// bare; the debug form wraps an owned text buffer in quotes. Containers
/// recurse with the same form.
pub open spec fn render_of(v: ValueModel, pool: Seq<Seq<char>>, dbg: bool) -> Seq<char>
    decreases v,
{
    match v {
        ValueModel::Nil => "nil"@,
        ValueModel::True => "true"@,
        ValueModel::False => "false"@,
        ValueModel::Num(n) => num_text(n),
        ValueModel::Str(s) => if dbg { seq!['"'] + s + seq!['"'] } else { s },
        ValueModel::Char(c) => seq![c],
        ValueModel::Chars(cs) => cs,
        ValueModel::Sym(n) => name_text(pool, n),
        ValueModel::Keyword(n) => seq![':'] + name_text(pool, n),
        ValueModel::List(items) => seq!['('] + render_items(items, pool, seq![' '], dbg)
            + seq![')'],
        ValueModel::Hashmap(entries) => seq!['{'] + render_entries(entries, pool, dbg)
            + seq!['}'],
        ValueModel::Struct(tag, fields) => "#["@ + name_text(pool, tag)
            + rest_items(fields, pool, seq![' '], dbg) + seq![']'],
        ValueModel::BoxCell(_) => "#<box>"@,
        ValueModel::Func { .. } => "#<function>"@,
        ValueModel::NatFunc(_) => "#<native>"@,
        ValueModel::Lazy { .. } => "#<lazy>"@,
    }
}

/// Elements rendered in order, the first bare and each later one preceded by
/// the separator.
pub open spec fn render_items(
    items: Seq<ValueModel>,
    pool: Seq<Seq<char>>,
    sep: Seq<char>,
    dbg: bool,
) -> Seq<char>
    decreases items,
{
    if items.len() == 0 {
        Seq::empty()
    } else {
        render_of(items[0], pool, dbg) + rest_items(items.drop_first(), pool, sep, dbg)
    }
}

/// Elements rendered in order, each preceded by the separator.
pub open spec fn rest_items(
    items: Seq<ValueModel>,
    pool: Seq<Seq<char>>,
    sep: Seq<char>,
    dbg: bool,
) -> Seq<char>
    decreases items,
{
    if items.len() == 0 {
        Seq::empty()
    } else {
        sep + render_of(items[0], pool, dbg) + rest_items(items.drop_first(), pool, sep, dbg)
    }
}

/// Map entries rendered in order as `key value`, space-separated.
pub open spec fn render_entries(
    entries: Seq<(int, ValueModel)>,
    pool: Seq<Seq<char>>,
    dbg: bool,
) -> Seq<char>
    decreases entries,
{
    if entries.len() == 0 {
        Seq::empty()
    } else if entries.len() == 1 {
        entry_text(entries[0], pool, dbg)
    } else {
        entry_text(entries[0], pool, dbg) + seq![' ']
            + render_entries(entries.drop_first(), pool, dbg)
    }
}

/// One map entry rendered as `key value`.
pub open spec fn entry_text(e: (int, ValueModel), pool: Seq<Seq<char>>, dbg: bool)
    -> Seq<char>
    decreases e,
{
    name_text(pool, e.0) + seq![' '] + render_of(e.1, pool, dbg)
}

/// Appending one element extends the separated rendering by separator and
/// element.
pub proof fn lemma_rest_items_snoc(
    items: Seq<ValueModel>,
    x: ValueModel,
    pool: Seq<Seq<char>>,
    sep: Seq<char>,
    dbg: bool,
)
    ensures
        rest_items(items.push(x), pool, sep, dbg)
            == rest_items(items, pool, sep, dbg) + sep + render_of(x, pool, dbg),
    decreases items,
{
    let whole = items.push(x);
    if items.len() == 0 {
        assert(whole[0] == x);
        assert(whole.drop_first() =~= Seq::<ValueModel>::empty());
        assert(rest_items(whole.drop_first(), pool, sep, dbg) =~= Seq::<char>::empty());
        assert(rest_items(items, pool, sep, dbg) =~= Seq::<char>::empty());
        assert(rest_items(whole, pool, sep, dbg)
            =~= rest_items(items, pool, sep, dbg) + sep + render_of(x, pool, dbg));
    } else {
        assert(whole[0] == items[0]);
        assert(whole.drop_first() =~= items.drop_first().push(x));
        lemma_rest_items_snoc(items.drop_first(), x, pool, sep, dbg);
        assert(rest_items(whole, pool, sep, dbg)
            =~= rest_items(items, pool, sep, dbg) + sep + render_of(x, pool, dbg));
    }
}

/// The digits of a non-negative number, as text.
pub fn u64_digits(n: u64) -> (r: String)
    ensures
        r@ == dec_digits(n as nat),
    decreases n,
{
    if n < 10 {
        let mut out = String::new();
        push_char(&mut out, digit_of(n));
        proof {
            assert(out@ =~= seq![digit_char(n as int)]);
        }
        out
    } else {
        let mut out = u64_digits(n / 10);
        push_char(&mut out, digit_of(n % 10));
        out
    }
}

/// The character for a digit below ten.
fn digit_of(d: u64) -> (c: char)
    requires
        d < 10,
    ensures
        c == digit_char(d as int),
{
    if d == 0 { '0' }
    else if d == 1 { '1' }
    else if d == 2 { '2' }
    else if d == 3 { '3' }
    else if d == 4 { '4' }
    else if d == 5 { '5' }
    else if d == 6 { '6' }
    else if d == 7 { '7' }
    else if d == 8 { '8' }
    else { '9' }
}

/// A number as text.
pub fn num_string(n: i64) -> (r: String)
    ensures
        r@ == num_text(n as int),
{
    if n >= 0 {
        u64_digits(n as u64)
    } else {
        let mag: u64 = if n == i64::MIN {
            0x8000_0000_0000_0000u64
        } else {
            (-n) as u64
        };
        proof {
            assert(mag == (-(n as int)) as nat);
        }
        let digits = u64_digits(mag);
        let mut out = String::new();
        push_char(&mut out, '-');
        proof {
            assert(out@ =~= seq!['-']);
        }
        out.concat(digits.as_str())
    }
}

/// The text behind a name, or nothing for a foreign name.
pub fn name_string(pool: &NamePool, n: usize) -> (r: String)
    ensures
        r@ == name_text(pool@, n as int),
{
    if n < pool.len() {
        pool.resolve(n)
    } else {
        String::new()
    }
}

/// Renders a value in display or debug form, as `render_of` describes it.
pub fn render(v: &Value, pool: &NamePool, dbg: bool) -> (r: String)
    ensures
        r@ == render_of(v@, pool@, dbg),
    decreases *v, 0int,
{
    match v {
        Value::Nil => "nil".to_owned(),
        Value::True => "true".to_owned(),
        Value::False => "false".to_owned(),
        Value::Num(n) => num_string(*n),
        Value::Str(s) => {
            if dbg {
                let mut out = String::new();
                push_char(&mut out, '"');
                let mut out2 = out.concat(s.as_str());
                push_char(&mut out2, '"');
                proof {
                    assert(out2@ =~= seq!['"'] + s@ + seq!['"']);
                }
                out2
            } else {
                s.clone()
            }
        },
        Value::Char(c) => {
            let mut out = String::new();
            push_char(&mut out, *c);
            proof {
                assert(out@ =~= seq![*c]);
            }
            out
        },
        Value::Chars(cs) => crate::strings::chars_string(cs),
        Value::Sym(n) => name_string(pool, *n),
        Value::Keyword(n) => {
            let mut out = String::new();
            push_char(&mut out, ':');
            proof {
                assert(out@ =~= seq![':']);
            }
            let text = name_string(pool, *n);
            out.concat(text.as_str())
        },
        Value::List(items) => {
            proof {
                lemma_model_seq(items@);
            }
            let mut out = String::new();
            push_char(&mut out, '(');
            proof {
                assert(out@ =~= seq!['(']);
            }
            let inner = render_slice(items, pool, dbg);
            let mut r = out.concat(inner.as_str());
            push_char(&mut r, ')');
            proof {
                assert(r@ =~= seq!['('] + inner@ + seq![')']);
            }
            r
        },
        Value::Hashmap(entries) => {
            proof {
                lemma_model_entries(entries@);
            }
            let mut out = String::new();
            push_char(&mut out, '{');
            proof {
                assert(out@ =~= seq!['{']);
            }
            let inner = render_entry_slice(entries, pool, dbg);
            let mut r = out.concat(inner.as_str());
            push_char(&mut r, '}');
            proof {
                assert(r@ =~= seq!['{'] + inner@ + seq!['}']);
            }
            r
        },
        Value::Struct(tag, fields) => {
            proof {
                lemma_model_seq(fields@);
            }
            let mut out = String::from_str("#[");
            let text = name_string(pool, *tag);
            out.append(text.as_str());
            let ghost base = out@;
            let ghost m = model_seq(fields@);
            proof {
                assert(m.subrange(0, 0) =~= Seq::<ValueModel>::empty());
                assert(base + rest_items(m.subrange(0, 0), pool@, seq![' '], dbg) =~= base);
                assert(decreases_to!(*v => *fields));
            }
            let mut i: usize = 0;
            while i < fields.len()
                invariant
                    (decreases_to!(*v => *fields)),
                    i <= fields@.len(),
                    m == model_seq(fields@),
                    m.len() == fields@.len(),
                    forall|j: int| 0 <= j < fields@.len()
                        ==> m[j] == value_model(#[trigger] fields@[j]),
                    out@ == base + rest_items(m.subrange(0, i as int), pool@, seq![' '], dbg),
                decreases fields@.len() - i,
            {
                let ghost prefix = m.subrange(0, i as int);
                push_char(&mut out, ' ');
                proof {
                    assert(decreases_to!(*fields => fields@[i as int]));
                }
                let text = render(&fields[i], pool, dbg);
                out.append(text.as_str());
                proof {
                    lemma_rest_items_snoc(prefix, m[i as int], pool@, seq![' '], dbg);
                    assert(prefix.push(m[i as int]) =~= m.subrange(0, i as int + 1));
                    assert(out@ =~= base
                        + rest_items(m.subrange(0, i as int + 1), pool@, seq![' '], dbg));
                }
                i += 1;
            }
            push_char(&mut out, ']');
            proof {
                assert(m.subrange(0, m.len() as int) =~= m);
                assert(out@ =~= "#["@ + name_text(pool@, *tag as int)
                    + rest_items(m, pool@, seq![' '], dbg) + seq![']']);
            }
            out
        },
        Value::BoxCell(_) => "#<box>".to_owned(),
        Value::Func { .. } => "#<function>".to_owned(),
        Value::NatFunc(_) => "#<native>".to_owned(),
        Value::Lazy { .. } => "#<lazy>".to_owned(),
    }
}

/// Renders the elements of a vector, space-separated.
fn render_slice(items: &Vec<Value>, pool: &NamePool, dbg: bool) -> (r: String)
    ensures
        r@ == render_items(model_seq(items@), pool@, seq![' '], dbg),
    decreases *items, 1int,
{
    render_sep_slice(items, pool, seq_space(), dbg)
}

/// A one-space separator.
fn seq_space() -> (r: Vec<char>)
    ensures
        r@ == seq![' '],
{
    let mut out: Vec<char> = Vec::new();
    out.push(' ');
    proof {
        assert(out@ =~= seq![' ']);
    }
    out
}

/// Renders the elements of a vector with the given separator between them.
pub fn render_sep_slice(items: &Vec<Value>, pool: &NamePool, sep: Vec<char>, dbg: bool)
    -> (r: String)
    ensures
        r@ == render_items(model_seq(items@), pool@, sep@, dbg),
    decreases *items, 0int,
{
    proof {
        lemma_model_seq(items@);
    }
    let ghost m = model_seq(items@);
    let mut out = String::new();
    if items.len() == 0 {
        proof {
            assert(out@ =~= render_items(m, pool@, sep@, dbg));
        }
        return out;
    }
    proof {
        assert(decreases_to!(*items => items@[0]));
    }
    let first = render(&items[0], pool, dbg);
    out.append(first.as_str());
    let sep_string = crate::strings::chars_string(&sep);
    let ghost base = out@;
    proof {
        assert(m.subrange(1, 1) =~= Seq::<ValueModel>::empty());
        assert(base + rest_items(m.subrange(1, 1), pool@, sep@, dbg) =~= base);
    }
    let mut i: usize = 1;
    while i < items.len()
        invariant
            1 <= i <= items@.len(),
            m == model_seq(items@),
            m.len() == items@.len(),
            forall|j: int| 0 <= j < items@.len() ==> m[j] == value_model(#[trigger] items@[j]),
            base == render_of(m[0], pool@, dbg),
            sep_string@ == sep@,
            out@ == base + rest_items(m.subrange(1, i as int), pool@, sep@, dbg),
        decreases items@.len() - i,
    {
        let ghost prefix = m.subrange(1, i as int);
        out.append(sep_string.as_str());
        proof {
            assert(decreases_to!(*items => items@[i as int]));
        }
        let text = render(&items[i], pool, dbg);
        out.append(text.as_str());
        proof {
            lemma_rest_items_snoc(prefix, m[i as int], pool@, sep@, dbg);
            assert(prefix.push(m[i as int]) =~= m.subrange(1, i as int + 1));
            assert(out@ =~= base + rest_items(m.subrange(1, i as int + 1), pool@, sep@, dbg));
        }
        i += 1;
    }
    proof {
        assert(m.subrange(1, m.len() as int) =~= m.drop_first());
        assert(out@ =~= render_items(m, pool@, sep@, dbg));
    }
    out
}

/// Renders map entries, space-separated.
fn render_entry_slice(entries: &Vec<(crate::names::Name, Value)>, pool: &NamePool, dbg: bool)
    -> (r: String)
    ensures
        r@ == render_entries(model_entries(entries@), pool@, dbg),
    decreases *entries, 0int,
{
    proof {
        lemma_model_entries(entries@);
    }
    let ghost m = model_entries(entries@);
    let mut out = String::new();
    let mut i: usize = 0;
    while i < entries.len()
        invariant
            i <= entries@.len(),
            m == model_entries(entries@),
            m.len() == entries@.len(),
            forall|j: int| 0 <= j < entries@.len() ==> m[j]
                == (entries@[j].0 as int, value_model(entries@[j].1)),
            i < entries@.len() ==> out@ == render_entries_open(m.subrange(0, i as int),
                pool@, dbg),
            i == entries@.len() ==> out@ == render_entries(m.subrange(0, i as int),
                pool@, dbg),
        decreases entries@.len() - i,
    {
        let ghost prefix = m.subrange(0, i as int);
        let key_text = name_string(pool, entries[i].0);
        out.append(key_text.as_str());
        push_char(&mut out, ' ');
        proof {
            assert(decreases_to!(*entries => entries@[i as int]));
            assert(decreases_to!(entries@[i as int] => entries@[i as int].1));
        }
        let val_text = render(&entries[i].1, pool, dbg);
        out.append(val_text.as_str());
        if i + 1 < entries.len() {
            push_char(&mut out, ' ');
        }
        proof {
            lemma_render_entries_snoc(prefix, m[i as int], pool@, dbg,
                i as int + 1 < m.len());
            assert(prefix.push(m[i as int]) =~= m.subrange(0, i as int + 1));
        }
        i += 1;
    }
    proof {
        assert(m.subrange(0, m.len() as int) =~= m);
    }
    out
}

/// Entries rendered with a trailing space after each, used while more follow.
pub open spec fn render_entries_open(
    entries: Seq<(int, ValueModel)>,
    pool: Seq<Seq<char>>,
    dbg: bool,
) -> Seq<char>
    decreases entries,
{
    if entries.len() == 0 {
        Seq::empty()
    } else {
        entry_text(entries[0], pool, dbg) + seq![' ']
            + render_entries_open(entries.drop_first(), pool, dbg)
    }
}

/// Appending one entry to either rendering form.
proof fn lemma_render_entries_snoc(
    entries: Seq<(int, ValueModel)>,
    e: (int, ValueModel),
    pool: Seq<Seq<char>>,
    dbg: bool,
    more: bool,
)
    ensures
        render_entries(entries.push(e), pool, dbg)
            == render_entries_open(entries, pool, dbg) + entry_text(e, pool, dbg),
        render_entries_open(entries.push(e), pool, dbg)
            == render_entries_open(entries, pool, dbg) + entry_text(e, pool, dbg) + seq![' '],
    decreases entries,
{
    let whole = entries.push(e);
    if entries.len() == 0 {
        assert(whole[0] == e);
        assert(whole.drop_first() =~= Seq::<(int, ValueModel)>::empty());
        assert(render_entries_open(whole.drop_first(), pool, dbg) =~= Seq::<char>::empty());
        assert(render_entries_open(entries, pool, dbg) =~= Seq::<char>::empty());
        assert(render_entries(whole, pool, dbg)
            =~= render_entries_open(entries, pool, dbg) + entry_text(e, pool, dbg));
        assert(render_entries_open(whole, pool, dbg)
            =~= render_entries_open(entries, pool, dbg) + entry_text(e, pool, dbg)
                + seq![' ']);
    } else {
        assert(whole[0] == entries[0]);
        assert(whole.drop_first() =~= entries.drop_first().push(e));
        lemma_render_entries_snoc(entries.drop_first(), e, pool, dbg, more);
        assert(whole.len() >= 2);
        assert(render_entries(whole, pool, dbg)
            =~= render_entries_open(entries, pool, dbg) + entry_text(e, pool, dbg));
        assert(render_entries_open(whole, pool, dbg)
            =~= render_entries_open(entries, pool, dbg) + entry_text(e, pool, dbg)
                + seq![' ']);
    }
}

} // verus!
