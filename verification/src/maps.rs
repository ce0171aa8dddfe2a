use vstd::prelude::*;
use crate::error::Error;
use crate::eval::Evaluator;
use crate::heap::Heap;
use crate::names::{intern_spec, Name, NamePool};
use crate::value::{
    copy_entries, copy_value, entries_unique, has_key_model, lemma_model_entries,
    lemma_model_seq, lookup_model, map_find, model_entries, model_seq, value_model, Value,
    ValueModel,
};

verus! {

/// Key normalization: symbols and keywords are used by their name directly;
/// strings are interned on the fly; anything else is no key.
pub open spec fn key_spec(pool: Seq<Seq<char>>, k: ValueModel)
    -> Option<(Seq<Seq<char>>, int)> {
    match k {
        ValueModel::Sym(n) => Some((pool, n)),
        ValueModel::Keyword(n) => Some((pool, n)),
        ValueModel::Str(s) => Some(intern_spec(pool, s)),
        _ => None,
    }
}

/// The index of the first entry carrying key `k`; `m.len()` when absent.
pub open spec fn first_idx(m: Seq<(int, ValueModel)>, k: int) -> int
    decreases m,
{
    if m.len() == 0 {
        0
    } else if m[0].0 == k {
        0
    } else {
        1 + first_idx(m.drop_first(), k)
    }
}

/// Insert-or-replace: a present key keeps its position and takes the new
/// value; an absent key is appended.
pub open spec fn upsert(m: Seq<(int, ValueModel)>, k: int, v: ValueModel)
    -> Seq<(int, ValueModel)> {
    if has_key_model(m, k) {
        m.update(first_idx(m, k), (k, v))
    } else {
        m.push((k, v))
    }
}

/// Removal of every entry carrying key `k`, keeping the rest in order.
pub open spec fn remove_key(m: Seq<(int, ValueModel)>, k: int) -> Seq<(int, ValueModel)>
    decreases m,
{
    if m.len() == 0 {
        Seq::empty()
    } else if m[0].0 == k {
        remove_key(m.drop_first(), k)
    } else {
        seq![m[0]] + remove_key(m.drop_first(), k)
    }
}

/// Copy-then-insert over a flattened key/value run, interning string keys as
/// it walks; `Err` when a key value is of no key kind.
pub open spec fn build_map_spec(
    pool: Seq<Seq<char>>,
    m: Seq<(int, ValueModel)>,
    kvs: Seq<ValueModel>,
) -> Result<(Seq<Seq<char>>, Seq<(int, ValueModel)>), ()>
    decreases kvs.len(),
{
    if kvs.len() < 2 {
        Ok((pool, m))
    } else {
        match key_spec(pool, kvs[0]) {
            Some((pool2, k)) => build_map_spec(pool2, upsert(m, k, kvs[1]), kvs.skip(2)),
            None => Err(()),
        }
    }
}

/// Copy-then-remove over a run of keys, interning string keys as it walks.
pub open spec fn dissoc_spec(
    pool: Seq<Seq<char>>,
    m: Seq<(int, ValueModel)>,
    keys: Seq<ValueModel>,
) -> Result<(Seq<Seq<char>>, Seq<(int, ValueModel)>), ()>
    decreases keys.len(),
{
    if keys.len() == 0 {
        Ok((pool, m))
    } else {
        match key_spec(pool, keys[0]) {
            Some((pool2, k)) => dissoc_spec(pool2, remove_key(m, k), keys.skip(1)),
            None => Err(()),
        }
    }
}

/// A position that carries `k` with no earlier occurrence is the first index.
pub proof fn lemma_first_idx_char(m: Seq<(int, ValueModel)>, k: int, j: int)
    requires
        0 <= j < m.len(),
        m[j].0 == k,
        forall|l: int| 0 <= l < j ==> m[l].0 != k,
    ensures
        first_idx(m, k) == j,
        has_key_model(m, k),
        lookup_model(m, k) == Some(m[j].1),
    decreases m,
{
    if j > 0 {
        lemma_first_idx_char(m.drop_first(), k, j - 1);
    }
}

/// Lookup after appending an entry.
pub proof fn lemma_lookup_push(m: Seq<(int, ValueModel)>, e: (int, ValueModel), q: int)
    ensures
        lookup_model(m.push(e), q) == (if lookup_model(m, q) is Some {
            lookup_model(m, q)
        } else if e.0 == q {
            Some(e.1)
        } else {
            None
        }),
    decreases m,
{
    if m.len() == 0 {
        assert(m.push(e)[0] == e);
        assert(m.push(e).drop_first() =~= Seq::<(int, ValueModel)>::empty());
        assert(lookup_model(m, q) is None);
        if e.0 == q {
            assert(lookup_model(m.push(e), q) == Some(e.1));
        } else {
            assert(lookup_model(m.push(e).drop_first(), q) is None);
            assert(lookup_model(m.push(e), q) is None);
        }
    } else {
        assert(m.push(e)[0] == m[0]);
        assert(m.push(e).drop_first() =~= m.drop_first().push(e));
        lemma_lookup_push(m.drop_first(), e, q);
        if m[0].0 == q {
            assert(lookup_model(m, q) == Some(m[0].1));
            assert(lookup_model(m.push(e), q) == Some(m[0].1));
        } else {
            assert(lookup_model(m, q) == lookup_model(m.drop_first(), q));
            assert(lookup_model(m.push(e), q) == lookup_model(m.drop_first().push(e), q));
        }
    }
}

/// Lookup after rewriting the entry at a position that keeps its key.
pub proof fn lemma_lookup_update(m: Seq<(int, ValueModel)>, j: int, e: (int, ValueModel), q: int)
    requires
        0 <= j < m.len(),
        m[j].0 == e.0,
        forall|l: int| 0 <= l < j ==> m[l].0 != e.0,
    ensures
        lookup_model(m.update(j, e), e.0) == Some(e.1),
        q != e.0 ==> lookup_model(m.update(j, e), q) == lookup_model(m, q),
    decreases m,
{
    if j == 0 {
        assert(m.update(0, e)[0] == e);
        assert(m.update(0, e).drop_first() =~= m.drop_first());
    } else {
        assert(m.update(j, e)[0] == m[0]);
        assert(m.update(j, e).drop_first() =~= m.drop_first().update(j - 1, e));
        lemma_lookup_update(m.drop_first(), j - 1, e, q);
    }
}

/// The first half of the map round-trip law: after writing `v` under `k`,
/// looking `k` up yields exactly `v`; every other key reads as before.
pub proof fn lemma_upsert_lookup(m: Seq<(int, ValueModel)>, k: int, v: ValueModel, q: int)
    ensures
        lookup_model(upsert(m, k, v), k) == Some(v),
        q != k ==> lookup_model(upsert(m, k, v), q) == lookup_model(m, q),
{
    if has_key_model(m, k) {
        let j = lemma_has_key_first_idx(m, k);
        lemma_lookup_update(m, j, (k, v), q);
    } else {
        lemma_lookup_push(m, (k, v), k);
        lemma_lookup_push(m, (k, v), q);
    }
}

/// A present key's first index is a real position carrying it first.
pub proof fn lemma_has_key_first_idx(m: Seq<(int, ValueModel)>, k: int) -> (j: int)
    requires
        has_key_model(m, k),
    ensures
        j == first_idx(m, k),
        0 <= j < m.len(),
        m[j].0 == k,
        forall|l: int| 0 <= l < j ==> m[l].0 != k,
    decreases m,
{
    if m.len() == 0 {
        0
    } else if m[0].0 == k {
        0
    } else {
        let j0 = lemma_has_key_first_idx(m.drop_first(), k);
        assert forall|l: int| 0 <= l < j0 + 1 implies m[l].0 != k by {
            if l > 0 {
                assert(m[l] == m.drop_first()[l - 1]);
            }
        }
        j0 + 1
    }
}

/// The second half of the map round-trip law: after removing `k` the key is
/// gone, and every other key reads as before.
pub proof fn lemma_remove_lookup(m: Seq<(int, ValueModel)>, k: int, q: int)
    ensures
        lookup_model(remove_key(m, k), k) is None,
        q != k ==> lookup_model(remove_key(m, k), q) == lookup_model(m, q),
    decreases m,
{
    if m.len() > 0 {
        lemma_remove_lookup(m.drop_first(), k, q);
        if m[0].0 != k {
            let rest = remove_key(m.drop_first(), k);
            assert((seq![m[0]] + rest).drop_first() =~= rest);
        }
    }
}

/// The map round-trip law, as the surface operations compose it: writing a
/// binding and reading it back yields the written value, and removing it
/// afterwards leaves a map without the key.
pub proof fn lemma_map_round_trip(m: Seq<(int, ValueModel)>, k: int, v: ValueModel)
    ensures
        lookup_model(upsert(m, k, v), k) == Some(v),
        !has_key_model(remove_key(upsert(m, k, v), k), k),
{
    lemma_upsert_lookup(m, k, v, k);
    lemma_remove_lookup(upsert(m, k, v), k, k);
}

/// A key is carried by some entry exactly when lookup finds it.
pub proof fn lemma_has_key_iff(m: Seq<(int, ValueModel)>, q: int)
    ensures
        has_key_model(m, q) <==> exists|l: int| 0 <= l < m.len() && (#[trigger] m[l]).0 == q,
    decreases m,
{
    if m.len() > 0 {
        lemma_has_key_iff(m.drop_first(), q);
        if m[0].0 == q {
            assert(m[0].0 == q);
        } else {
            if has_key_model(m, q) {
                let l = choose|l: int| 0 <= l < m.drop_first().len()
                    && (#[trigger] m.drop_first()[l]).0 == q;
                assert(m[l + 1].0 == q);
            }
            if exists|l: int| 0 <= l < m.len() && (#[trigger] m[l]).0 == q {
                let l = choose|l: int| 0 <= l < m.len() && (#[trigger] m[l]).0 == q;
                assert(m.drop_first()[l - 1].0 == q);
            }
        }
    }
}

/// Insert-or-replace keeps the keys free of duplicates.
pub proof fn lemma_upsert_unique(m: Seq<(int, ValueModel)>, k: int, v: ValueModel)
    requires
        entries_unique(m),
    ensures
        entries_unique(upsert(m, k, v)),
{
    if has_key_model(m, k) {
        let j = lemma_has_key_first_idx(m, k);
        let m2 = m.update(j, (k, v));
        assert forall|i1: int, i2: int| 0 <= i1 < i2 < m2.len()
            implies (#[trigger] m2[i1]).0 != (#[trigger] m2[i2]).0 by {
            assert(m2[i1].0 == m[i1].0);
            assert(m2[i2].0 == m[i2].0);
        }
    } else {
        lemma_has_key_iff(m, k);
        let m2 = m.push((k, v));
        assert forall|i1: int, i2: int| 0 <= i1 < i2 < m2.len()
            implies (#[trigger] m2[i1]).0 != (#[trigger] m2[i2]).0 by {
            if i2 == m.len() as int {
                assert(m2[i1] == m[i1]);
                assert(m[i1].0 != k);
            } else {
                assert(m2[i1] == m[i1]);
                assert(m2[i2] == m[i2]);
            }
        }
    }
}

/// Removal keeps the keys free of duplicates.
pub proof fn lemma_remove_unique(m: Seq<(int, ValueModel)>, k: int)
    requires
        entries_unique(m),
    ensures
        entries_unique(remove_key(m, k)),
    decreases m,
{
    if m.len() > 0 {
        let rest = m.drop_first();
        assert(entries_unique(rest)) by {
            assert forall|i1: int, i2: int| 0 <= i1 < i2 < rest.len()
                implies (#[trigger] rest[i1]).0 != (#[trigger] rest[i2]).0 by {
                assert(rest[i1] == m[i1 + 1]);
                assert(rest[i2] == m[i2 + 1]);
            }
        }
        lemma_remove_unique(rest, k);
        if m[0].0 != k {
            let tail = remove_key(rest, k);
            let whole = seq![m[0]] + tail;
            assert forall|i1: int, i2: int| 0 <= i1 < i2 < whole.len()
                implies (#[trigger] whole[i1]).0 != (#[trigger] whole[i2]).0 by {
                if i1 == 0 {
                    assert(whole[i2] == tail[i2 - 1]);
                    if tail[i2 - 1].0 == m[0].0 {
                        lemma_has_key_iff(tail, m[0].0);
                        lemma_remove_lookup(rest, k, m[0].0);
                        lemma_has_key_iff(rest, m[0].0);
                        let l = choose|l: int| 0 <= l < rest.len()
                            && (#[trigger] rest[l]).0 == m[0].0;
                        assert(rest[l] == m[l + 1]);
                    }
                } else {
                    assert(whole[i1] == tail[i1 - 1]);
                    assert(whole[i2] == tail[i2 - 1]);
                }
            }
        }
    }
}

/// Building a map from a duplicate-free base keeps the keys free of
/// duplicates — `hash-map` (from the empty base) and `assoc` preserve the
/// invariant.
pub proof fn lemma_build_map_unique(
    pool: Seq<Seq<char>>,
    m: Seq<(int, ValueModel)>,
    kvs: Seq<ValueModel>,
)
    requires
        entries_unique(m),
    ensures
        (match build_map_spec(pool, m, kvs) {
            Ok((_, m2)) => entries_unique(m2),
            Err(_) => true,
        }),
    decreases kvs.len(),
{
    if kvs.len() >= 2 {
        match key_spec(pool, kvs[0]) {
            Some((pool2, k)) => {
                lemma_upsert_unique(m, k, kvs[1]);
                lemma_build_map_unique(pool2, upsert(m, k, kvs[1]), kvs.skip(2));
            },
            None => {},
        }
    }
}

/// Removing a run of keys keeps the keys free of duplicates — `dissoc`
/// preserves the invariant.
pub proof fn lemma_dissoc_unique(
    pool: Seq<Seq<char>>,
    m: Seq<(int, ValueModel)>,
    keys: Seq<ValueModel>,
)
    requires
        entries_unique(m),
    ensures
        (match dissoc_spec(pool, m, keys) {
            Ok((_, m2)) => entries_unique(m2),
            Err(_) => true,
        }),
    decreases keys.len(),
{
    if keys.len() > 0 {
        match key_spec(pool, keys[0]) {
            Some((pool2, k)) => {
                lemma_remove_unique(m, k);
                lemma_dissoc_unique(pool2, remove_key(m, k), keys.skip(1));
            },
            None => {},
        }
    }
}

/// Normalizes a key value to an interned name.
pub fn key_name(pool: &mut NamePool, k: &Value) -> (r: Result<Name, Error>)
    requires
        old(pool).wf(),
    ensures
        final(pool).wf(),
        old(pool)@.is_prefix_of(final(pool)@),
        (match key_spec(old(pool)@, k@) {
            Some((pool2, n)) => final(pool)@ == pool2
                && (r matches Ok(name) && name as int == n),
            None => final(pool)@ == old(pool)@
                && r matches Err(Error::DomainError { .. }),
        }),
{
    match k {
        Value::Sym(n) => Ok(*n),
        Value::Keyword(n) => Ok(*n),
        Value::Str(s) => {
            let n = pool.intern(s);
            Ok(n)
        },
        _ => Err(crate::error::domain_error("value cannot be used as key")),
    }
}

/// Insert-or-replace in an entry vector, as `upsert` describes it.
pub fn upsert_entry(entries: &mut Vec<(Name, Value)>, k: Name, val: Value)
    ensures
        model_entries(final(entries)@)
            == upsert(model_entries(old(entries)@), k as int, val@),
{
    proof {
        lemma_model_entries(entries@);
    }
    let ghost m = model_entries(entries@);
    match map_find(entries, k) {
        Some(j) => {
            proof {
                lemma_first_idx_char(m, k as int, j as int);
            }
            entries.set(j, (k, val));
            proof {
                lemma_model_entries(entries@);
                assert(model_entries(entries@) =~= m.update(j as int, (k as int, val@)));
            }
        },
        None => {
            entries.push((k, val));
            proof {
                lemma_model_entries(entries@);
                assert(model_entries(entries@) =~= m.push((k as int, val@)));
            }
        },
    }
}

/// Walks a flattened key/value run, inserting each pair; shared by `hash-map`
/// and `assoc`.
fn build_entries(
    entries: &mut Vec<(Name, Value)>,
    v: &Vec<Value>,
    start: usize,
    pool: &mut NamePool,
) -> (r: Result<(), Error>)
    requires
        old(pool).wf(),
        start <= v@.len(),
        (v@.len() - start) % 2 == 0,
    ensures
        final(pool).wf(),
        old(pool)@.is_prefix_of(final(pool)@),
        (match build_map_spec(
            old(pool)@,
            model_entries(old(entries)@),
            model_seq(v@).skip(start as int),
        ) {
            Ok((pool2, m2)) => r is Ok && final(pool)@ == pool2
                && model_entries(final(entries)@) == m2,
            Err(_) => r matches Err(Error::DomainError { .. }),
        }),
{
    proof {
        lemma_model_seq(v@);
        lemma_model_entries(entries@);
    }
    let ghost kvs = model_seq(v@);
    let ghost goal = build_map_spec(old(pool)@, model_entries(old(entries)@),
        kvs.skip(start as int));
    let mut i: usize = start;
    while i < v.len()
        invariant
            old(pool).wf(),
            pool.wf(),
            start <= i <= v@.len(),
            (v@.len() - i) % 2 == 0,
            kvs == model_seq(v@),
            kvs.len() == v@.len(),
            forall|j: int| 0 <= j < v@.len() ==> kvs[j] == value_model(#[trigger] v@[j]),
            old(pool)@.is_prefix_of(pool@),
            goal == build_map_spec(old(pool)@, model_entries(old(entries)@),
                kvs.skip(start as int)),
            goal == build_map_spec(pool@, model_entries(entries@), kvs.skip(i as int)),
        decreases v@.len() - i,
    {
        let ghost pool_before = pool@;
        let ghost m_before = model_entries(entries@);
        let k = match key_name(pool, &v[i]) {
            Ok(k) => k,
            Err(e) => {
                proof {
                    assert(kvs.skip(i as int)[0] == kvs[i as int]);
                    assert(kvs.skip(i as int).len() >= 2);
                    assert(key_spec(pool@, kvs.skip(i as int)[0]) is None);
                    assert(build_map_spec(pool@, model_entries(entries@),
                        kvs.skip(i as int)) is Err);
                    assert(goal is Err);
                }
                return Err(e);
            },
        };
        let val = copy_value(&v[i + 1]);
        upsert_entry(entries, k, val);
        proof {
            assert(kvs.skip(i as int)[0] == kvs[i as int]);
            assert(kvs.skip(i as int)[1] == kvs[i as int + 1]);
            assert(kvs.skip(i as int).len() >= 2);
            assert(kvs.skip(i as int).skip(2) =~= kvs.skip(i as int + 2));
        }
        i += 2;
    }
    proof {
        assert(kvs.skip(v@.len() as int).len() == 0);
    }
    Ok(())
}

/// `hash-map`: builds a fresh map from a flattened key/value run. An odd run
/// is a key-argument error; for duplicate keys the last write wins.
pub fn core_hashmap(v: &Vec<Value>, pool: &mut NamePool) -> (r: Result<Value, Error>)
    requires
        old(pool).wf(),
    ensures
        final(pool).wf(),
        old(pool)@.is_prefix_of(final(pool)@),
        v@.len() % 2 != 0 ==> (final(pool)@ == old(pool)@
            && r matches Err(Error::KeyArgError { .. })),
        v@.len() % 2 == 0 ==> (match build_map_spec(old(pool)@, Seq::empty(), model_seq(v@)) {
            Ok((pool2, m)) => final(pool)@ == pool2
                && (r matches Ok(out) && out@ == ValueModel::Hashmap(m)),
            Err(_) => r matches Err(Error::DomainError { .. }),
        }),
{
    if v.len() % 2 != 0 {
        return Err(crate::error::key_arg_error("hash-map"));
    }
    let mut entries: Vec<(Name, Value)> = Vec::new();
    proof {
        lemma_model_entries(entries@);
        lemma_model_seq(v@);
        assert(model_entries(entries@) =~= Seq::<(int, ValueModel)>::empty());
        assert(model_seq(v@).skip(0) =~= model_seq(v@));
    }
    match build_entries(&mut entries, v, 0, pool) {
        Ok(_) => Ok(Value::Hashmap(entries)),
        Err(e) => Err(e),
    }
}

/// `assoc`: copy-then-insert of a flattened key/value run onto a map.
pub fn operator_assoc(v: &Vec<Value>, pool: &mut NamePool) -> (r: Result<Value, Error>)
    requires
        old(pool).wf(),
        v@.len() >= 1,
    ensures
        final(pool).wf(),
        old(pool)@.is_prefix_of(final(pool)@),
        (match value_model(v@[0]) {
            ValueModel::Hashmap(m) => {
                if (v@.len() - 1) % 2 != 0 {
                    final(pool)@ == old(pool)@ && r matches Err(Error::KeyArgError { .. })
                } else {
                    match build_map_spec(old(pool)@, m, model_seq(v@).skip(1)) {
                        Ok((pool2, m2)) => final(pool)@ == pool2
                            && (r matches Ok(out) && out@ == ValueModel::Hashmap(m2)),
                        Err(_) => r matches Err(Error::DomainError { .. }),
                    }
                }
            },
            _ => final(pool)@ == old(pool)@ && r matches Err(Error::TypeError { .. }),
        }),
{
    let entries0 = match &v[0] {
        Value::Hashmap(entries) => entries,
        _ => {
            return Err(crate::error::type_error("map", &v[0]));
        },
    };
    if (v.len() - 1) % 2 != 0 {
        return Err(crate::error::key_arg_error("assoc"));
    }
    let mut entries = copy_entries(entries0);
    match build_entries(&mut entries, v, 1, pool) {
        Ok(_) => Ok(Value::Hashmap(entries)),
        Err(e) => Err(e),
    }
}

/// `dissoc`: copy-then-remove of a run of keys from a map.
pub fn operator_dissoc(v: &Vec<Value>, pool: &mut NamePool) -> (r: Result<Value, Error>)
    requires
        old(pool).wf(),
        v@.len() >= 1,
    ensures
        final(pool).wf(),
        old(pool)@.is_prefix_of(final(pool)@),
        (match value_model(v@[0]) {
            ValueModel::Hashmap(m) => match dissoc_spec(old(pool)@, m, model_seq(v@).skip(1)) {
                Ok((pool2, m2)) => final(pool)@ == pool2
                    && (r matches Ok(out) && out@ == ValueModel::Hashmap(m2)),
                Err(_) => r matches Err(Error::DomainError { .. }),
            },
            _ => final(pool)@ == old(pool)@ && r matches Err(Error::TypeError { .. }),
        }),
{
    let entries0 = match &v[0] {
        Value::Hashmap(entries) => entries,
        _ => {
            return Err(crate::error::type_error("map", &v[0]));
        },
    };
    let mut entries = copy_entries(entries0);
    proof {
        lemma_model_seq(v@);
    }
    let ghost keys = model_seq(v@);
    let ghost goal = dissoc_spec(old(pool)@, model_entries(entries0@), keys.skip(1));
    let mut i: usize = 1;
    while i < v.len()
        invariant
            old(pool).wf(),
            pool.wf(),
            1 <= i <= v@.len(),
            keys == model_seq(v@),
            keys.len() == v@.len(),
            forall|j: int| 0 <= j < v@.len() ==> keys[j] == value_model(#[trigger] v@[j]),
            old(pool)@.is_prefix_of(pool@),
            value_model(v@[0]) == ValueModel::Hashmap(model_entries(entries0@)),
            goal == dissoc_spec(old(pool)@, model_entries(entries0@), keys.skip(1)),
            goal == dissoc_spec(pool@, model_entries(entries@), keys.skip(i as int)),
        decreases v@.len() - i,
    {
        let k = match key_name(pool, &v[i]) {
            Ok(k) => k,
            Err(e) => {
                proof {
                    assert(keys.skip(i as int).len() >= 1);
                    assert(keys.skip(i as int)[0] == keys[i as int]);
                    assert(key_spec(pool@, keys.skip(i as int)[0]) is None);
                    assert(dissoc_spec(pool@, model_entries(entries@),
                        keys.skip(i as int)) is Err);
                }
                return Err(e);
            },
        };
        remove_entries(&mut entries, k);
        proof {
            assert(keys.skip(i as int)[0] == keys[i as int]);
            assert(keys.skip(i as int).skip(1) =~= keys.skip(i as int + 1));
        }
        i += 1;
    }
    proof {
        assert(keys.skip(v@.len() as int).len() == 0);
    }
    Ok(Value::Hashmap(entries))
}

/// Removes every entry carrying `k`, as `remove_key` describes it.
pub fn remove_entries(entries: &mut Vec<(Name, Value)>, k: Name)
    ensures
        model_entries(final(entries)@) == remove_key(model_entries(old(entries)@), k as int),
{
    proof {
        lemma_model_entries(entries@);
    }
    let ghost m = model_entries(entries@);
    let mut out: Vec<(Name, Value)> = Vec::new();
    let mut i: usize = 0;
    while i < entries.len()
        invariant
            i <= entries@.len(),
            m == model_entries(entries@),
            m.len() == entries@.len(),
            forall|j: int| 0 <= j < entries@.len() ==> m[j]
                == (entries@[j].0 as int, value_model(entries@[j].1)),
            model_entries(out@) == remove_key(m.subrange(0, i as int), k as int),
        decreases entries@.len() - i,
    {
        let ghost prefix = m.subrange(0, i as int);
        if entries[i].0 != k {
            let val = copy_value(&entries[i].1);
            let ghost out_before = out@;
            out.push((entries[i].0, val));
            proof {
                lemma_model_entries(out_before);
                lemma_model_entries(out@);
                lemma_remove_snoc(prefix, m[i as int], k as int);
                assert(prefix.push(m[i as int]) =~= m.subrange(0, i as int + 1));
                assert(model_entries(out@)
                    =~= model_entries(out_before).push((entries@[i as int].0 as int,
                        value_model(entries@[i as int].1))));
                assert(model_entries(out@)
                    =~= remove_key(m.subrange(0, i as int + 1), k as int));
            }
        } else {
            proof {
                lemma_remove_snoc(prefix, m[i as int], k as int);
                assert(prefix.push(m[i as int]) =~= m.subrange(0, i as int + 1));
            }
        }
        i += 1;
    }
    proof {
        assert(m.subrange(0, m.len() as int) =~= m);
    }
    *entries = out;
}

/// Removal distributes over appending one entry.
pub proof fn lemma_remove_snoc(m: Seq<(int, ValueModel)>, e: (int, ValueModel), k: int)
    ensures
        remove_key(m.push(e), k) == (if e.0 == k {
            remove_key(m, k)
        } else {
            remove_key(m, k).push(e)
        }),
    decreases m,
{
    let whole = m.push(e);
    if m.len() == 0 {
        assert(whole[0] == e);
        assert(whole.drop_first() =~= Seq::<(int, ValueModel)>::empty());
        assert(remove_key(whole.drop_first(), k) =~= Seq::<(int, ValueModel)>::empty());
        assert(remove_key(m, k) =~= Seq::<(int, ValueModel)>::empty());
        if e.0 != k {
            assert(remove_key(whole, k) =~= seq![e] + remove_key(whole.drop_first(), k));
            assert(remove_key(whole, k) =~= remove_key(m, k).push(e));
        } else {
            assert(remove_key(whole, k) =~= remove_key(m, k));
        }
    } else {
        assert(whole[0] == m[0]);
        assert(whole.drop_first() =~= m.drop_first().push(e));
        lemma_remove_snoc(m.drop_first(), e, k);
        if m[0].0 != k {
            if e.0 == k {
                assert(remove_key(whole, k) =~= remove_key(m, k));
            } else {
                assert(remove_key(whole, k) =~= remove_key(m, k).push(e));
            }
        }
    }
}

/// `get-key`: map lookup. An absent key is an error, not `Nil`; callers
/// needing an optional lookup pre-check with `has-key?`.
pub fn operator_map_get(v: &Vec<Value>, pool: &mut NamePool) -> (r: Result<Value, Error>)
    requires
        old(pool).wf(),
        v@.len() >= 2,
    ensures
        final(pool).wf(),
        old(pool)@.is_prefix_of(final(pool)@),
        (match value_model(v@[0]) {
            ValueModel::Hashmap(m) => match key_spec(old(pool)@, value_model(v@[1])) {
                Some((pool2, k)) => final(pool)@ == pool2 && match lookup_model(m, k) {
                    Some(val) => r matches Ok(out) && out@ == val,
                    None => r matches Err(Error::KeyNotFound { key }) && key as int == k,
                },
                None => final(pool)@ == old(pool)@
                    && r matches Err(Error::DomainError { .. }),
            },
            _ => final(pool)@ == old(pool)@ && r matches Err(Error::TypeError { .. }),
        }),
{
    let entries = match &v[0] {
        Value::Hashmap(entries) => entries,
        _ => {
            return Err(crate::error::type_error("map", &v[0]));
        },
    };
    let k = match key_name(pool, &v[1]) {
        Ok(k) => k,
        Err(e) => {
            return Err(e);
        },
    };
    match map_find(entries, k) {
        Some(j) => Ok(copy_value(&entries[j].1)),
        None => Err(Error::KeyNotFound { key: k }),
    }
}

/// `has-key?`: whether the map carries the key.
pub fn operator_has_key(v: &Vec<Value>, pool: &mut NamePool) -> (r: Result<Value, Error>)
    requires
        old(pool).wf(),
        v@.len() >= 2,
    ensures
        final(pool).wf(),
        old(pool)@.is_prefix_of(final(pool)@),
        (match value_model(v@[0]) {
            ValueModel::Hashmap(m) => match key_spec(old(pool)@, value_model(v@[1])) {
                Some((pool2, k)) => final(pool)@ == pool2
                    && (r matches Ok(out) && out@ == (if has_key_model(m, k) {
                        ValueModel::True
                    } else {
                        ValueModel::False
                    })),
                None => final(pool)@ == old(pool)@
                    && r matches Err(Error::DomainError { .. }),
            },
            _ => final(pool)@ == old(pool)@ && r matches Err(Error::TypeError { .. }),
        }),
{
    let entries = match &v[0] {
        Value::Hashmap(entries) => entries,
        _ => {
            return Err(crate::error::type_error("map", &v[0]));
        },
    };
    let k = match key_name(pool, &v[1]) {
        Ok(k) => k,
        Err(e) => {
            return Err(e);
        },
    };
    match map_find(entries, k) {
        Some(_) => Ok(Value::True),
        None => Ok(Value::False),
    }
}

/// `map-keys`: the keys of a map, rendered back to text through the pool, in
/// entry order. A key interned by no pool of this process is refused.
pub fn core_map_keys(v: &Vec<Value>, pool: &NamePool) -> (r: Result<Value, Error>)
    requires
        v@.len() >= 1,
    ensures
        (match value_model(v@[0]) {
            ValueModel::Hashmap(m) => {
                if forall|j: int| 0 <= j < m.len() ==> 0 <= (#[trigger] m[j]).0 < pool@.len() {
                    r matches Ok(out) && out@ == ValueModel::List(
                        m.map_values(|e: (int, ValueModel)| ValueModel::Str(pool@[e.0])),
                    )
                } else {
                    r matches Err(Error::DomainError { .. })
                }
            },
            _ => r matches Err(Error::TypeError { .. }),
        }),
{
    let entries = match &v[0] {
        Value::Hashmap(entries) => entries,
        _ => {
            return Err(crate::error::type_error("map", &v[0]));
        },
    };
    proof {
        lemma_model_entries(entries@);
    }
    let ghost m = model_entries(entries@);
    if !all_keys_resolvable(entries, pool) {
        proof {
            let j = choose|j: int| 0 <= j < entries@.len()
                && !((#[trigger] entries@[j]).0 < pool@.len());
            assert(m[j] == (entries@[j].0 as int, value_model(entries@[j].1)));
            assert(!(0 <= m[j].0 < pool@.len()));
            assert(value_model(v@[0])->Hashmap_0 == m);
            assert(!(0 <= value_model(v@[0])->Hashmap_0[j].0 < pool@.len()));
        }
        return Err(crate::error::domain_error("key name is foreign to this pool"));
    }
    let mut out: Vec<Value> = Vec::new();
    let mut i: usize = 0;
    while i < entries.len()
        invariant
            i <= entries@.len(),
            m == model_entries(entries@),
            m.len() == entries@.len(),
            forall|j: int| 0 <= j < entries@.len() ==> m[j]
                == (entries@[j].0 as int, value_model(entries@[j].1)),
            forall|j: int| 0 <= j < entries@.len() ==> (#[trigger] entries@[j]).0
                < pool@.len(),
            out@.len() == i,
            forall|j: int| 0 <= j < i ==> value_model(#[trigger] out@[j])
                == ValueModel::Str(pool@[m[j].0]),
        decreases entries@.len() - i,
    {
        let k = entries[i].0;
        let text = pool.resolve(k);
        out.push(Value::Str(text));
        i += 1;
    }
    proof {
        lemma_model_seq(out@);
        assert(model_seq(out@)
            =~= m.map_values(|e: (int, ValueModel)| ValueModel::Str(pool@[e.0])));
    }
    Ok(Value::List(out))
}

/// Whether every key of an entry vector names a string of the pool.
fn all_keys_resolvable(entries: &Vec<(Name, Value)>, pool: &NamePool) -> (r: bool)
    ensures
        r == (forall|j: int| 0 <= j < entries@.len()
            ==> (#[trigger] entries@[j]).0 < pool@.len()),
{
    let n = pool.len();
    let mut i: usize = 0;
    while i < entries.len()
        invariant
            n == pool@.len(),
            i <= entries@.len(),
            forall|j: int| 0 <= j < i ==> (#[trigger] entries@[j]).0 < pool@.len(),
        decreases entries@.len() - i,
    {
        if entries[i].0 >= n {
            return false;
        }
        i += 1;
    }
    true
}

/// `update`: reads the current value at the key (`Nil` when absent), applies
/// the given function to `[current, extra arguments...]` through the
/// evaluator, and stores the result under the key in a copy of the map.
pub fn operator_map_update<E: Evaluator>(
    v: &Vec<Value>,
    pool: &mut NamePool,
    heap: &mut Heap,
    ev: &E,
) -> (r: Result<Value, Error>)
    requires
        old(pool).wf(),
        v@.len() >= 3,
    ensures
        final(pool).wf(),
        old(pool)@.is_prefix_of(final(pool)@),
        (match value_model(v@[0]) {
            ValueModel::Hashmap(m) => match key_spec(old(pool)@, value_model(v@[1])) {
                Some((pool2, k)) => {
                    let cur = match lookup_model(m, k) {
                        Some(val) => val,
                        None => ValueModel::Nil,
                    };
                    let args = seq![cur] + model_seq(v@).skip(3);
                    match ev.apply_spec(value_model(v@[2]), args) {
                        Ok(nv) => r matches Ok(out)
                            && out@ == ValueModel::Hashmap(upsert(m, k, nv)),
                        Err(_) => r is Err,
                    }
                },
                None => final(pool)@ == old(pool)@
                    && r matches Err(Error::DomainError { .. }),
            },
            _ => final(pool)@ == old(pool)@ && r matches Err(Error::TypeError { .. }),
        }),
{
    let entries0 = match &v[0] {
        Value::Hashmap(entries) => entries,
        _ => {
            return Err(crate::error::type_error("map", &v[0]));
        },
    };
    let k = match key_name(pool, &v[1]) {
        Ok(k) => k,
        Err(e) => {
            return Err(e);
        },
    };
    proof {
        lemma_model_entries(entries0@);
        lemma_model_seq(v@);
    }
    let current = match map_find(entries0, k) {
        Some(j) => copy_value(&entries0[j].1),
        None => Value::Nil,
    };
    let mut args: Vec<Value> = Vec::new();
    args.push(current);
    let mut i: usize = 3;
    while i < v.len()
        invariant
            3 <= i <= v@.len(),
            args@.len() == i - 2,
            value_model(args@[0]) == (match lookup_model(
                model_entries(entries0@), k as int,
            ) {
                Some(val) => val,
                None => ValueModel::Nil,
            }),
            forall|j: int| 1 <= j < args@.len()
                ==> value_model(#[trigger] args@[j]) == value_model(v@[j + 2]),
        decreases v@.len() - i,
    {
        let c = copy_value(&v[i]);
        args.push(c);
        i += 1;
    }
    proof {
        lemma_model_seq(args@);
        lemma_model_seq(v@);
        assert(model_seq(args@) =~= seq![value_model(args@[0])] + model_seq(v@).skip(3));
    }
    let entries1 = copy_entries(entries0);
    let mut entries = entries1;
    match ev.apply(&v[2], args, pool, heap) {
        Ok(nv) => {
            upsert_entry(&mut entries, k, nv);
            Ok(Value::Hashmap(entries))
        },
        Err(e) => Err(e),
    }
}

} // verus!
