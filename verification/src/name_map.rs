//! A map from names to values that keeps its entries in the order of the
//! names, as a `BTreeMap<String, V>` does.
use vstd::prelude::*;
use crate::text::{chars_of, chars_eq, chars_lt, seq_lt, lemma_seq_lt_total, lemma_seq_lt_trans};

verus! {

/// Whether the names of `es` are strictly ascending.
pub open spec fn names_ascending<V>(es: Seq<(String, V)>) -> bool {
    forall|i: int, j: int| 0 <= i < j < es.len() ==> seq_lt(#[trigger] es[i].0@, #[trigger] es[j].0@)
}

/// The index of the first entry of `es` named `k`.
pub open spec fn name_index<V>(es: Seq<(String, V)>, k: Seq<char>) -> Option<int>
    decreases es.len(),
{
    if es.len() == 0 {
        None
    } else {
        let r = name_index(es.drop_last(), k);
        if r is Some {
            r
        } else if es.last().0@ == k {
            Some(es.len() - 1)
        } else {
            None
        }
    }
}

/// The entry of `es` named `k`.
pub open spec fn entry_named<V>(es: Seq<(String, V)>, k: Seq<char>) -> Option<(String, V)> {
    match name_index(es, k) {
        Some(i) => Some(es[i]),
        None => None,
    }
}

/// The value of `es` named `k`.
pub open spec fn value_named<V>(es: Seq<(String, V)>, k: Seq<char>) -> Option<V> {
    match name_index(es, k) {
        Some(i) => Some(es[i].1),
        None => None,
    }
}

/// `name_index` finds the first entry with the name, and nothing where there is none.
pub proof fn lemma_name_index<V>(es: Seq<(String, V)>, k: Seq<char>)
    ensures
        name_index(es, k) matches Some(i) ==> 0 <= i < es.len() && es[i].0@ == k && forall|j: int|
            0 <= j < i ==> (#[trigger] es[j]).0@ != k,
        name_index(es, k) is None ==> forall|j: int| 0 <= j < es.len() ==> (#[trigger] es[j]).0@ != k,
    decreases es.len(),
{
    if es.len() > 0 {
        lemma_name_index(es.drop_last(), k);
        assert forall|j: int| 0 <= j < es.len() - 1 implies es.drop_last()[j] == es[j] by {}
    }
}

/// An index whose name no earlier entry has is what `name_index` finds.
pub proof fn lemma_name_index_at<V>(es: Seq<(String, V)>, i: int)
    requires
        0 <= i < es.len(),
        forall|j: int| 0 <= j < i ==> (#[trigger] es[j]).0@ != es[i].0@,
    ensures
        name_index(es, es[i].0@) == Some(i),
{
    lemma_name_index(es, es[i].0@);
}

/// In ascending entries each name stands once.
proof fn lemma_ascending_index<V>(es: Seq<(String, V)>, i: int)
    requires
        names_ascending(es),
        0 <= i < es.len(),
    ensures
        name_index(es, es[i].0@) == Some(i),
{
    assert forall|j: int| 0 <= j < i implies (#[trigger] es[j]).0@ != es[i].0@ by {
        lemma_seq_lt_total(es[j].0@, es[i].0@);
    }
    lemma_name_index_at(es, i);
}

/// After a value is stored under a key, the key gives that value, and every
/// other key gives what it gave before (what `insert` ensures, read as `get`
/// reads it).
pub proof fn lemma_get_after_insert<V>(
    before: Seq<(String, V)>,
    after: Seq<(String, V)>,
    key: String,
    value: V,
)
    requires
        entry_named(after, key@) == Some((key, value)),
        forall|k: Seq<char>| k != key@ ==> #[trigger] entry_named(after, k) == entry_named(before, k),
    ensures
        value_named(after, key@) == Some(value),
        forall|k: Seq<char>| k != key@ ==> #[trigger] value_named(after, k) == value_named(before, k),
{
    assert forall|k: Seq<char>| k != key@ implies #[trigger] value_named(after, k) == value_named(
        before,
        k,
    ) by {
        assert(entry_named(after, k) == entry_named(before, k));
    }
}

/// A map from names to values, kept in ascending order of the names.
#[derive(Debug)]
pub struct NameMap<V> {
    entries: Vec<(String, V)>,
}

impl<V> NameMap<V> {
    /// The entries, in ascending order of their names.
    #[verifier::type_invariant]
    spec fn well_formed(self) -> bool {
        names_ascending(self.entries@)
    }

    /// The entries of the map, in ascending order of their names.
    pub closed spec fn entries_view(self) -> Seq<(String, V)> {
        self.entries@
    }

    /// An empty map.
    pub fn new() -> (m: Self)
        ensures
            m.entries_view() == Seq::<(String, V)>::empty(),
    {
        NameMap { entries: Vec::new() }
    }

    /// The map with the one entry `key`, `value`.
    pub fn single(key: String, value: V) -> (m: Self)
        ensures
            m.entries_view() == seq![(key, value)],
    {
        let mut m = Self::new();
        m.insert(key, value);
        proof {
            let es = m.entries_view();
            lemma_name_index(es, key@);
            assert(es =~= seq![(key, value)]);
        }
        m
    }

    /// The number of entries.
    pub fn len(&self) -> (n: usize)
        ensures
            n == self.entries_view().len(),
    {
        self.entries.len()
    }

    /// The entries, in ascending order of their names.
    pub fn entries(&self) -> (r: &Vec<(String, V)>)
        ensures
            r@ == self.entries_view(),
            names_ascending(r@),
    {
        proof {
            use_type_invariant(self);
        }
        &self.entries
    }

    /// The value named `key` (`BTreeMap::get`).
    pub fn get(&self, key: &str) -> (r: Option<&V>)
        ensures
            match r {
                Some(v) => value_named(self.entries_view(), key@) == Some(*v),
                None => value_named(self.entries_view(), key@) is None,
            },
    {
        let k = chars_of(key);
        let n = self.entries.len();
        for i in 0..n
            invariant
                n == self.entries@.len(),
                k@ == key@,
                forall|j: int| 0 <= j < i ==> (#[trigger] self.entries@[j]).0@ != key@,
        {
            let name = chars_of(self.entries[i].0.as_str());
            if chars_eq(&name, &k) {
                proof {
                    lemma_name_index_at(self.entries@, i as int);
                }
                return Some(&self.entries[i].1);
            }
        }
        proof {
            lemma_name_index(self.entries@, key@);
        }
        None
    }

    /// The position at which `key` stands or would stand: the first entry
    /// whose name is not below `key`.
    fn position(&self, key: &Vec<char>) -> (p: usize)
        ensures
            p <= self.entries_view().len(),
            forall|j: int| 0 <= j < p ==> seq_lt((#[trigger] self.entries_view()[j]).0@, key@),
            p < self.entries_view().len() ==> !seq_lt(self.entries_view()[p as int].0@, key@),
    {
        let n = self.entries.len();
        let mut p: usize = 0;
        while p < n
            invariant
                n == self.entries@.len(),
                p <= n,
                forall|j: int| 0 <= j < p ==> seq_lt((#[trigger] self.entries@[j]).0@, key@),
            decreases n - p,
        {
            let name = chars_of(self.entries[p].0.as_str());
            if !chars_lt(&name, key) {
                return p;
            }
            p = p + 1;
        }
        p
    }

    /// Stores `value` under `key`, in place of any value the key had, which is
    /// returned (`BTreeMap::insert`).
    pub fn insert(&mut self, key: String, value: V) -> (prev: Option<V>)
        ensures
            prev == value_named(old(self).entries_view(), key@),
            entry_named(final(self).entries_view(), key@) == Some((key, value)),
            forall|k: Seq<char>|
                k != key@ ==> #[trigger] entry_named(final(self).entries_view(), k) == entry_named(
                    old(self).entries_view(),
                    k,
                ),
            final(self).entries_view().len() == old(self).entries_view().len() + (if prev is Some {
                0int
            } else {
                1int
            }),
    {
        proof {
            use_type_invariant(&*self);
        }
        let ghost es = self.entries@;
        let k = chars_of(key.as_str());
        let p = self.position(&k);
        let n = self.entries.len();
        let found = if p < n {
            let name = chars_of(self.entries[p].0.as_str());
            chars_eq(&name, &k)
        } else {
            false
        };
        let ghost entry = (key, value);
        let mut v: Vec<(String, V)> = Vec::new();
        std::mem::swap(&mut v, &mut self.entries);
        assert(v@ == es);
        if found {
            proof {
                lemma_ascending_index(es, p as int);
            }
            let removed = v.remove(p);
            v.insert(p, (key, value));
            assert(v@ == es.update(p as int, entry));
            assert(names_ascending(v@)) by {
                assert forall|i: int, j: int| 0 <= i < j < v@.len() implies seq_lt(
                    #[trigger] v@[i].0@,
                    #[trigger] v@[j].0@,
                ) by {
                    assert(v@[i].0@ == es[i].0@);
                    assert(v@[j].0@ == es[j].0@);
                }
            }
            self.entries = v;
            proof {
                self.lemma_same_names(es, p as int, entry);
            }
            Some(removed.1)
        } else {
            proof {
                lemma_name_index(es, key@);
                assert forall|j: int| 0 <= j < es.len() implies (#[trigger] es[j]).0@ != key@ by {
                    if j < p {
                        lemma_seq_lt_total(es[j].0@, key@);
                    } else if j > p {
                        lemma_seq_lt_total(es[p as int].0@, key@);
                        lemma_seq_lt_total(es[j].0@, key@);
                        lemma_seq_lt_trans(key@, es[p as int].0@, es[j].0@);
                    }
                }
                if p < n {
                    lemma_seq_lt_total(es[p as int].0@, key@);
                }
            }
            v.insert(p, (key, value));
            assert(v@ == es.insert(p as int, entry));
            assert(names_ascending(v@)) by {
                assert forall|i: int, j: int| 0 <= i < j < v@.len() implies seq_lt(
                    #[trigger] v@[i].0@,
                    #[trigger] v@[j].0@,
                ) by {
                    if j < p {
                        assert(v@[i] == es[i]);
                        assert(v@[j] == es[j]);
                    } else if j == p {
                        assert(v@[i] == es[i]);
                    } else if i == p {
                        assert(v@[j] == es[j - 1]);
                        if j - 1 > p {
                            lemma_seq_lt_trans(key@, es[p as int].0@, es[j - 1].0@);
                        }
                    } else if i < p {
                        assert(v@[i] == es[i]);
                        assert(v@[j] == es[j - 1]);
                    } else {
                        assert(v@[i] == es[i - 1]);
                        assert(v@[j] == es[j - 1]);
                    }
                }
            }
            self.entries = v;
            proof {
                self.lemma_new_name(es, p as int, entry);
            }
            None
        }
    }

    /// After the entry at `p` is replaced by one of the same name, each name
    /// keeps its entry but that one.
    proof fn lemma_same_names(self, es: Seq<(String, V)>, p: int, entry: (String, V))
        requires
            names_ascending(es),
            names_ascending(self.entries@),
            0 <= p < es.len(),
            es[p].0@ == entry.0@,
            self.entries@ == es.update(p, entry),
        ensures
            entry_named(self.entries@, entry.0@) == Some(entry),
            forall|k: Seq<char>|
                k != entry.0@ ==> #[trigger] entry_named(self.entries@, k) == entry_named(es, k),
    {
        let fs = self.entries@;
        lemma_ascending_index(fs, p);
        assert forall|k: Seq<char>| k != entry.0@ implies #[trigger] entry_named(fs, k) == entry_named(
            es,
            k,
        ) by {
            lemma_name_index(es, k);
            lemma_name_index(fs, k);
            if let Some(i) = name_index(es, k) {
                lemma_ascending_index(fs, i);
            } else if let Some(i) = name_index(fs, k) {
                assert(fs[i] == es[i]);
            }
        }
    }

    /// After a new name is put at `p`, it has its entry and every other name
    /// keeps its entry.
    proof fn lemma_new_name(self, es: Seq<(String, V)>, p: int, entry: (String, V))
        requires
            names_ascending(es),
            names_ascending(self.entries@),
            0 <= p <= es.len(),
            forall|j: int| 0 <= j < es.len() ==> (#[trigger] es[j]).0@ != entry.0@,
            self.entries@ == es.insert(p, entry),
        ensures
            entry_named(self.entries@, entry.0@) == Some(entry),
            forall|k: Seq<char>|
                k != entry.0@ ==> #[trigger] entry_named(self.entries@, k) == entry_named(es, k),
    {
        let fs = self.entries@;
        lemma_ascending_index(fs, p);
        assert forall|k: Seq<char>| k != entry.0@ implies #[trigger] entry_named(fs, k) == entry_named(
            es,
            k,
        ) by {
            lemma_name_index(es, k);
            lemma_name_index(fs, k);
            if let Some(i) = name_index(es, k) {
                let i1 = if i < p { i } else { i + 1 };
                assert(fs[i1] == es[i]);
                lemma_ascending_index(fs, i1);
            } else if let Some(i) = name_index(fs, k) {
                if i < p {
                    assert(fs[i] == es[i]);
                } else if i > p {
                    assert(fs[i] == es[i - 1]);
                }
            }
        }
    }
}

} // verus!
