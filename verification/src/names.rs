use vstd::prelude::*;

verus! {

/// An interned identifier: an index into the pool that produced it.
/// Equal strings always intern to the same index, so two names are the same
/// name exactly when their indices are equal.
pub type Name = usize;

/// The append-only intern pool. Entries are never removed or renumbered, and
/// no string is stored twice, so every name is stable for the pool's lifetime.
pub struct NamePool {
    table: Vec<String>,
}

impl View for NamePool {
    type V = Seq<Seq<char>>;

    closed spec fn view(&self) -> Seq<Seq<char>> {
        self.table.deep_view()
    }
}

/// No string is stored twice.
pub open spec fn pool_unique(pool: Seq<Seq<char>>) -> bool {
    forall|i: int, j: int| 0 <= i < j < pool.len() ==> pool[i] != pool[j]
}

/// The index of `s` in `pool`; meaningful only when `pool` contains `s`.
pub open spec fn name_of(pool: Seq<Seq<char>>, s: Seq<char>) -> int {
    choose|i: int| 0 <= i < pool.len() && pool[i] == s
}

/// The pool after interning `s`, paired with the name interning returns.
pub open spec fn intern_spec(pool: Seq<Seq<char>>, s: Seq<char>) -> (Seq<Seq<char>>, int) {
    if pool.contains(s) {
        (pool, name_of(pool, s))
    } else {
        (pool.push(s), pool.len() as int)
    }
}

impl NamePool {
    pub open spec fn wf(&self) -> bool {
        pool_unique(self@)
    }

    /// A fresh pool with no names.
    pub fn new() -> (pool: NamePool)
        ensures
            pool@ == Seq::<Seq<char>>::empty(),
            pool.wf(),
    {
        let pool = NamePool { table: Vec::new() };
        proof {
            assert(pool@ =~= Seq::<Seq<char>>::empty());
        }
        pool
    }

    /// How many names have been interned so far.
    pub fn len(&self) -> (n: usize)
        ensures
            n == self@.len(),
    {
        self.table.len()
    }

    /// Returns the existing name when `text` was seen before, else stores the
    /// string under the next index and returns that.
    pub fn intern(&mut self, text: &String) -> (n: Name)
        requires
            old(self).wf(),
        ensures
            final(self).wf(),
            (final(self)@, n as int) == intern_spec(old(self)@, text@),
            n < final(self)@.len(),
            final(self)@[n as int] == text@,
            old(self)@.is_prefix_of(final(self)@),
    {
        let ghost orig = self@;
        let mut i: usize = 0;
        while i < self.table.len()
            invariant
                self@ == orig,
                self.wf(),
                i <= self@.len(),
                forall|j: int| 0 <= j < i ==> self@[j] != text@,
            decreases self@.len() - i,
        {
            let same = self.table[i].eq(text);
            proof {
                assert(self@[i as int] == self.table@[i as int].deep_view());
            }
            if same {
                proof {
                    assert(orig[i as int] == text@);
                    assert(orig.contains(text@));
                    assert(orig[name_of(orig, text@)] == text@);
                    assert(name_of(orig, text@) == i as int);
                    assert(orig.is_prefix_of(orig));
                }
                return i;
            }
            i += 1;
        }
        proof {
            assert(forall|j: int| 0 <= j < orig.len() ==> orig[j] != text@);
            assert(!orig.contains(text@));
        }
        let n = self.table.len();
        self.table.push(text.clone());
        proof {
            assert(self@ =~= orig.push(text@));
            assert(orig.is_prefix_of(self@));
        }
        n
    }

    /// The string a name was interned from. A name the pool never returned is
    /// out of range and excluded here; callers that may hold a foreign name
    /// must test against `len` first.
    pub fn resolve(&self, n: Name) -> (text: String)
        requires
            n < self@.len(),
        ensures
            text@ == self@[n as int],
    {
        let text: &String = &self.table[n];
        text.clone()
    }
}

/// Interning is stable: interning a string a second time (and so any number of
/// times) returns the same name as the first time and leaves the pool as it was.
pub proof fn lemma_intern_stable(pool: Seq<Seq<char>>, s: Seq<char>)
    requires
        pool_unique(pool),
    ensures
        intern_spec(intern_spec(pool, s).0, s).0 == intern_spec(pool, s).0,
        intern_spec(intern_spec(pool, s).0, s).1 == intern_spec(pool, s).1,
{
    let pool1 = intern_spec(pool, s).0;
    if pool.contains(s) {
        let i = name_of(pool, s);
        assert(0 <= i < pool.len() && pool[i] == s);
    } else {
        assert(pool1[pool.len() as int] == s);
        assert(pool1.contains(s));
        let i = name_of(pool1, s);
        assert(0 <= i < pool1.len() && pool1[i] == s);
        assert(forall|j: int| 0 <= j < pool.len() ==> pool[j] != s);
        assert(forall|j: int| 0 <= j < pool.len() ==> pool1[j] != s);
        assert(i == pool.len() as int);
    }
}

} // verus!
