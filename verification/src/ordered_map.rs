//! A map from texts to values that hands its entries out in the order of the keys.

use vstd::prelude::*;

use crate::lexical::{at_most, lemma_lex_antisymmetric, lemma_lex_lt_transitive, lemma_lex_total, lex_le, lex_lt};
use crate::text::{chars_of, same_text};

verus! {

/// Entries with pairwise different keys, sorted by key.
pub struct OrderedMap<V> {
    pub entries: Vec<(String, V)>,
}

/// The keys of the entries, in their order.
pub open spec fn keys_of<V>(entries: Seq<(String, V)>) -> Seq<Seq<char>> {
    entries.map_values(|e: (String, V)| e.0@)
}

pub open spec fn strictly_sorted(keys: Seq<Seq<char>>) -> bool {
    forall|i: int, j: int| 0 <= i < j < keys.len() ==> lex_lt(#[trigger] keys[i], #[trigger] keys[j])
}

/// The value that the entries give to a key.
pub open spec fn lookup<V>(entries: Seq<(String, V)>, key: Seq<char>) -> Option<V>
    decreases entries.len(),
{
    if entries.len() == 0 {
        None
    } else if entries.last().0@ == key {
        Some(entries.last().1)
    } else {
        lookup(entries.drop_last(), key)
    }
}

pub proof fn lemma_lookup_found<V>(entries: Seq<(String, V)>, i: int)
    requires
        strictly_sorted(keys_of(entries)),
        0 <= i < entries.len(),
    ensures
        lookup(entries, entries[i].0@) == Some(entries[i].1),
    decreases entries.len(),
{
    let n = entries.len() - 1;
    if i < n {
        let keys = keys_of(entries);
        assert(lex_lt(keys[i], keys[n]));
        assert(keys_of(entries.drop_last()) =~= keys.drop_last());
        lemma_lookup_found(entries.drop_last(), i);
    }
}

pub proof fn lemma_lookup_absent<V>(entries: Seq<(String, V)>, key: Seq<char>)
    requires
        forall|i: int| 0 <= i < entries.len() ==> (#[trigger] entries[i]).0@ != key,
    ensures
        lookup(entries, key) is None,
    decreases entries.len(),
{
    if entries.len() > 0 {
        lemma_lookup_absent(entries.drop_last(), key);
    }
}

pub proof fn lemma_lookup_some<V>(entries: Seq<(String, V)>, key: Seq<char>) -> (i: int)
    requires
        lookup(entries, key) is Some,
    ensures
        0 <= i < entries.len(),
        entries[i].0@ == key,
        lookup(entries, key) == Some(entries[i].1),
    decreases entries.len(),
{
    if entries.last().0@ == key {
        entries.len() - 1
    } else {
        lemma_lookup_some(entries.drop_last(), key)
    }
}

impl<V> OrderedMap<V> {
    pub open spec fn wf(&self) -> bool {
        strictly_sorted(keys_of(self.entries@))
    }

    /// The entries in the order of their keys.
    pub open spec fn seq(&self) -> Seq<(String, V)> {
        self.entries@
    }

    pub open spec fn spec_get(&self, key: Seq<char>) -> Option<V> {
        lookup(self.entries@, key)
    }

    pub fn new() -> (r: Self)
        ensures
            r.wf(),
            r.seq() == Seq::<(String, V)>::empty(),
    {
        OrderedMap { entries: Vec::new() }
    }

    pub fn len(&self) -> (n: usize)
        ensures
            n == self.seq().len(),
    {
        self.entries.len()
    }

    /// The first position whose key is not before `key`.
    fn position(&self, key: &str) -> (r: usize)
        requires
            self.wf(),
        ensures
            r <= self.seq().len(),
            forall|i: int| 0 <= i < r ==> lex_lt((#[trigger] self.seq()[i]).0@, key@),
            forall|i: int| r <= i < self.seq().len() ==> lex_le(key@, (#[trigger] self.seq()[i]).0@),
    {
        let k: Vec<char> = chars_of(key);
        let mut a: usize = 0;
        let mut b: usize = self.entries.len();
        while a < b
            invariant
                a <= b <= self.entries@.len(),
                k@ == key@,
                self.wf(),
                forall|i: int| 0 <= i < a ==> lex_lt((#[trigger] self.entries@[i]).0@, key@),
                forall|i: int|
                    b <= i < self.entries@.len() ==> lex_le(
                        key@,
                        (#[trigger] self.entries@[i]).0@,
                    ),
            decreases b - a,
        {
            let m: usize = a + (b - a) / 2;
            let here: Vec<char> = chars_of(self.entries[m].0.as_str());
            let ghost keys = keys_of(self.entries@);
            if at_most(&k, &here) {
                assert forall|i: int| m <= i < self.entries@.len() implies lex_le(
                    key@,
                    (#[trigger] self.entries@[i]).0@,
                ) by {
                    if i > m {
                        assert(lex_lt(keys[m as int], keys[i]));
                        crate::lexical::lemma_lex_transitive(key@, keys[m as int], keys[i]);
                    }
                }
                b = m;
            } else {
                proof {
                    lemma_lex_total(key@, here@);
                    crate::lexical::lemma_lex_reflexive(key@);
                }
                assert(lex_lt(here@, key@));
                assert forall|i: int| 0 <= i < m + 1 implies lex_lt(
                    (#[trigger] self.entries@[i]).0@,
                    key@,
                ) by {
                    if i < m {
                        assert(lex_lt(keys[i], keys[m as int]));
                        lemma_lex_lt_transitive(keys[i], keys[m as int], key@);
                    }
                }
                a = m + 1;
            }
        }
        a
    }

    pub fn get(&self, key: &str) -> (r: Option<&V>)
        requires
            self.wf(),
        ensures
            r is Some <==> self.spec_get(key@) is Some,
            r matches Some(v) ==> self.spec_get(key@) == Some(*v),
    {
        let p: usize = self.position(key);
        if p < self.entries.len() && same_text(self.entries[p].0.as_str(), key) {
            proof {
                lemma_lookup_found(self.entries@, p as int);
            }
            Some(&self.entries[p].1)
        } else {
            assert forall|i: int| 0 <= i < self.entries@.len() implies (#[trigger] self.entries@[i]).0@
                != key@ by {
                let keys = keys_of(self.entries@);
                if i > p {
                    assert(lex_lt(keys[p as int], keys[i]));
                    if keys[i] == key@ {
                        lemma_lex_antisymmetric(key@, keys[p as int]);
                    }
                }
            }
            proof {
                lemma_lookup_absent(self.entries@, key@);
            }
            None
        }
    }

    pub fn contains_key(&self, key: &str) -> (r: bool)
        requires
            self.wf(),
        ensures
            r == (self.spec_get(key@) is Some),
    {
        self.get(key).is_some()
    }

    /// Give `key` the value `value`; the earlier value, if the key had one.
    pub fn insert(&mut self, key: String, value: V) -> (r: Option<V>)
        requires
            old(self).wf(),
        ensures
            final(self).wf(),
            r == old(self).spec_get(key@),
            final(self).spec_get(key@) == Some(value),
            forall|k: Seq<char>| k != key@ ==> #[trigger] final(self).spec_get(k) == old(self).spec_get(
                k,
            ),
            r is None ==> final(self).seq().len() == old(self).seq().len() + 1,
            r is Some ==> keys_of(final(self).seq()) == keys_of(old(self).seq()),
    {
        let p: usize = self.position(key.as_str());
        let ghost before = self.entries@;
        let ghost keys = keys_of(before);
        if p < self.entries.len() && same_text(self.entries[p].0.as_str(), key.as_str()) {
            let old_entry = self.entries.remove(p);
            proof {
                lemma_lookup_found(before, p as int);
            }
            let ghost k = key@;
            self.entries.insert(p, (key, value));
            proof {
                let after = self.entries@;
                assert(after =~= before.update(p as int, after[p as int]));
                assert(keys_of(after) =~= keys);
                lemma_lookup_found(after, p as int);
                assert forall|x: Seq<char>| x != k implies #[trigger] lookup(after, x) == lookup(
                    before,
                    x,
                ) by {
                    lemma_lookup_elsewhere(before, after, x, p as int);
                }
            }
            Some(old_entry.1)
        } else {
            let ghost k = key@;
            proof {
                assert forall|i: int| 0 <= i < before.len() implies (#[trigger] before[i]).0@ != k by {
                    if i > p {
                        assert(lex_lt(keys[p as int], keys[i]));
                        if keys[i] == k {
                            lemma_lex_antisymmetric(k, keys[p as int]);
                        }
                    }
                }
                lemma_lookup_absent(before, k);
            }
            self.entries.insert(p, (key, value));
            proof {
                let after = self.entries@;
                let new_keys = keys_of(after);
                assert(new_keys =~= keys.insert(p as int, k));
                assert forall|i: int, j: int| 0 <= i < j < new_keys.len() implies lex_lt(
                    #[trigger] new_keys[i],
                    #[trigger] new_keys[j],
                ) by {
                    if j < p {
                        assert(lex_lt(keys[i], keys[j]));
                    } else if j == p {
                        assert(before[i].0@ == keys[i]);
                    } else if i == p {
                        assert(before[j - 1].0@ == keys[j - 1]);
                    } else if i < p {
                        assert(lex_lt(keys[i], keys[j - 1]));
                    } else {
                        assert(lex_lt(keys[i - 1], keys[j - 1]));
                    }
                }
                lemma_lookup_found(after, p as int);
                assert forall|x: Seq<char>| x != k implies #[trigger] lookup(after, x) == lookup(
                    before,
                    x,
                ) by {
                    lemma_lookup_inserted(before, after, x, p as int);
                }
            }
            None
        }
    }
}

proof fn lemma_lookup_elsewhere<V>(
    a: Seq<(String, V)>,
    b: Seq<(String, V)>,
    key: Seq<char>,
    p: int,
)
    requires
        strictly_sorted(keys_of(a)),
        strictly_sorted(keys_of(b)),
        a.len() == b.len(),
        0 <= p < a.len(),
        forall|i: int| 0 <= i < a.len() && i != p ==> #[trigger] a[i] == b[i],
        a[p].0@ == b[p].0@,
        a[p].0@ != key,
    ensures
        lookup(a, key) == lookup(b, key),
{
    if lookup(a, key) is Some {
        let i = lemma_lookup_some(a, key);
        assert(a[i] == b[i]);
        lemma_lookup_found(b, i);
    } else {
        assert forall|i: int| 0 <= i < b.len() implies (#[trigger] b[i]).0@ != key by {
            if b[i].0@ == key {
                assert(a[i] == b[i]);
                lemma_lookup_found(a, i);
            }
        }
        lemma_lookup_absent(b, key);
    }
}

proof fn lemma_lookup_inserted<V>(
    a: Seq<(String, V)>,
    b: Seq<(String, V)>,
    key: Seq<char>,
    p: int,
)
    requires
        strictly_sorted(keys_of(a)),
        strictly_sorted(keys_of(b)),
        0 <= p <= a.len(),
        b.len() == a.len() + 1,
        b == a.insert(p, b[p]),
        b[p].0@ != key,
    ensures
        lookup(a, key) == lookup(b, key),
{
    if lookup(a, key) is Some {
        let i = lemma_lookup_some(a, key);
        let j = if i < p { i } else { i + 1 };
        assert(a[i] == b[j]);
        lemma_lookup_found(b, j);
    } else {
        assert forall|j: int| 0 <= j < b.len() implies (#[trigger] b[j]).0@ != key by {
            if b[j].0@ == key {
                let i = if j < p { j } else { j - 1 };
                assert(a[i] == b[j]);
                lemma_lookup_found(a, i);
            }
        }
        lemma_lookup_absent(b, key);
    }
}

} // verus!
