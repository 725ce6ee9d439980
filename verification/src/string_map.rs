//! A map from strings to values that keeps its entries in the order in which
//! their keys first came.

use crate::text::str_eq;
use vstd::prelude::*;

verus! {

/// The position of the entry for `key`, or the number of entries where there is
/// none.
pub open spec fn key_index<V>(s: Seq<(Seq<char>, V)>, key: Seq<char>) -> nat
    decreases s.len(),
{
    if s.len() == 0 || s[0].0 == key {
        0
    } else {
        1 + key_index(s.drop_first(), key)
    }
}

/// The value stored for `key`.
pub open spec fn value_of<V>(s: Seq<(Seq<char>, V)>, key: Seq<char>) -> Option<V> {
    if key_index(s, key) < s.len() {
        Some(s[key_index(s, key) as int].1)
    } else {
        None
    }
}

/// The entries after `value` was stored for `key`: an entry for that key keeps
/// its place, a new one comes last.
pub open spec fn with_entry<V>(s: Seq<(Seq<char>, V)>, key: Seq<char>, value: V) -> Seq<
    (Seq<char>, V),
> {
    if key_index(s, key) < s.len() {
        s.update(key_index(s, key) as int, (key, value))
    } else {
        s.push((key, value))
    }
}

/// The entries after each of `t` was stored, in order.
pub open spec fn with_entries<V>(s: Seq<(Seq<char>, V)>, t: Seq<(Seq<char>, V)>) -> Seq<
    (Seq<char>, V),
>
    decreases t.len(),
{
    if t.len() == 0 {
        s
    } else {
        let before = with_entries(s, t.drop_last());
        with_entry(before, t.last().0, t.last().1)
    }
}

/// No key has two entries.
pub open spec fn distinct_keys<V>(s: Seq<(Seq<char>, V)>) -> bool {
    forall|i: int, j: int| 0 <= i < j < s.len() ==> (#[trigger] s[i]).0 != (#[trigger] s[j]).0
}

/// `key_index` finds the first entry for the key.
pub proof fn lemma_key_index<V>(s: Seq<(Seq<char>, V)>, key: Seq<char>)
    ensures
        key_index(s, key) <= s.len(),
        key_index(s, key) < s.len() ==> s[key_index(s, key) as int].0 == key,
        forall|i: int| 0 <= i < key_index(s, key) ==> (#[trigger] s[i]).0 != key,
    decreases s.len(),
{
    if s.len() != 0 && s[0].0 != key {
        let rest = s.drop_first();
        lemma_key_index(rest, key);
        assert forall|i: int| 0 <= i < key_index(s, key) implies (#[trigger] s[i]).0 != key by {
            if i > 0 {
                assert(rest[i - 1] == s[i]);
            }
        }
    }
}

/// An entry for `key` with none before it is the one that is found.
pub proof fn lemma_key_index_is<V>(s: Seq<(Seq<char>, V)>, key: Seq<char>, k: int)
    requires
        0 <= k <= s.len(),
        forall|i: int| 0 <= i < k ==> (#[trigger] s[i]).0 != key,
        k < s.len() ==> s[k].0 == key,
    ensures
        key_index(s, key) == k,
{
    lemma_key_index(s, key);
    let f = key_index(s, key) as int;
    if f < k {
        assert(s[f].0 == key);
    }
    if k < f {
        assert(s[k].0 != key);
    }
}

/// Storing a value keeps the keys distinct.
pub proof fn lemma_with_entry_distinct<V>(s: Seq<(Seq<char>, V)>, key: Seq<char>, value: V)
    requires
        distinct_keys(s),
    ensures
        distinct_keys(with_entry(s, key, value)),
{
    lemma_key_index(s, key);
    let t = with_entry(s, key, value);
    let k = key_index(s, key) as int;
    assert forall|i: int, j: int| 0 <= i < j < t.len() implies (#[trigger] t[i]).0 != (
    #[trigger] t[j]).0 by {
        assert(i < s.len() ==> t[i].0 == s[i].0);
        assert(j < s.len() ==> t[j].0 == s[j].0);
    }
}

/// What was stored last is read back, and every other key reads as before.
pub proof fn lemma_read_after_store<V>(
    s: Seq<(Seq<char>, V)>,
    key: Seq<char>,
    value: V,
    other: Seq<char>,
)
    ensures
        value_of(with_entry(s, key, value), key) == Some(value),
        other != key ==> value_of(with_entry(s, key, value), other) == value_of(s, other),
{
    let t = with_entry(s, key, value);
    lemma_key_index(s, key);
    lemma_key_index(s, other);
    let k = key_index(s, key) as int;
    assert forall|i: int| 0 <= i < k implies (#[trigger] t[i]).0 != key by {
        assert(t[i] == s[i]);
    }
    lemma_key_index_is(t, key, k);
    if other != key {
        let o = key_index(s, other) as int;
        if o < s.len() {
            assert forall|i: int| 0 <= i < o implies (#[trigger] t[i]).0 != other by {
                assert(t[i].0 == s[i].0);
            }
            assert(t[o].0 == other);
            lemma_key_index_is(t, other, o);
        } else {
            assert forall|i: int| 0 <= i < t.len() implies (#[trigger] t[i]).0 != other by {
                if i < s.len() {
                    assert(t[i].0 == s[i].0);
                }
            }
            lemma_key_index_is(t, other, t.len() as int);
        }
    }
}

/// Of what is stored for a key, the last wins; and a key for which nothing is stored keeps
/// what it had.
pub proof fn lemma_last_entry_wins<V>(
    s: Seq<(Seq<char>, V)>,
    t: Seq<(Seq<char>, V)>,
    k: int,
    key: Seq<char>,
)
    requires
        -1 <= k < t.len(),
        k >= 0 ==> t[k].0 == key,
        forall|j: int| k < j < t.len() ==> (#[trigger] t[j]).0 != key,
    ensures
        value_of(with_entries(s, t), key) == (if k >= 0 {
            Some(t[k].1)
        } else {
            value_of(s, key)
        }),
    decreases t.len(),
{
    if t.len() > 0 {
        let init = t.drop_last();
        lemma_read_after_store(with_entries(s, init), t.last().0, t.last().1, key);
        if k < init.len() {
            assert(t[t.len() - 1].0 != key);
            assert forall|j: int| k < j < init.len() implies (#[trigger] init[j]).0 != key by {
                assert(t[j].0 != key);
            }
            lemma_last_entry_wins(s, init, k, key);
        }
    }
}

/// A map from strings to values.
#[derive(Debug)]
pub struct StringMap<V> {
    entries: Vec<(String, V)>,
}

impl<V> View for StringMap<V> {
    type V = Seq<(Seq<char>, V)>;

    closed spec fn view(&self) -> Seq<(Seq<char>, V)> {
        Seq::new(self.entries@.len(), |i: int| (self.entries@[i].0@, self.entries@[i].1))
    }
}

impl<V> StringMap<V> {
    /// No key has two entries.
    #[verifier::type_invariant]
    pub(crate) open spec fn keys_are_distinct(self) -> bool {
        distinct_keys(self@)
    }

    /// An empty map.
    pub fn new() -> (r: Self)
        ensures
            r@ == Seq::<(Seq<char>, V)>::empty(),
    {
        let r = StringMap { entries: Vec::new() };
        assert(r@ =~= Seq::<(Seq<char>, V)>::empty());
        r
    }

    /// The number of entries.
    pub fn len(&self) -> (r: usize)
        ensures
            r == self@.len(),
    {
        self.entries.len()
    }

    /// Whether there is no entry.
    pub fn is_empty(&self) -> (r: bool)
        ensures
            r == (self@.len() == 0),
    {
        self.entries.len() == 0
    }

    /// The key of the entry at `i`.
    pub fn key_at(&self, i: usize) -> (r: &String)
        requires
            i < self@.len(),
        ensures
            r@ == self@[i as int].0,
    {
        &self.entries[i].0
    }

    /// The value of the entry at `i`.
    pub fn value_at(&self, i: usize) -> (r: &V)
        requires
            i < self@.len(),
        ensures
            *r == self@[i as int].1,
    {
        &self.entries[i].1
    }

    fn find(&self, key: &str) -> (r: usize)
        ensures
            r == key_index(self@, key@),
            r <= self@.len(),
    {
        let mut i: usize = 0;
        while i < self.entries.len()
            invariant
                i <= self@.len(),
                self@.len() == self.entries@.len(),
                forall|j: int| 0 <= j < i ==> (#[trigger] self@[j]).0 != key@,
            decreases self@.len() - i,
        {
            if str_eq(self.entries[i].0.as_str(), key) {
                proof {
                    lemma_key_index_is(self@, key@, i as int);
                }
                return i;
            }
            i += 1;
        }
        proof {
            lemma_key_index_is(self@, key@, i as int);
        }
        i
    }

    /// The value stored for `key`.
    pub fn get(&self, key: &str) -> (r: Option<&V>)
        ensures
            match r {
                Some(v) => value_of(self@, key@) == Some(*v),
                None => value_of(self@, key@) is None,
            },
    {
        let i = self.find(key);
        if i < self.entries.len() {
            Some(&self.entries[i].1)
        } else {
            None
        }
    }

    /// Whether a value is stored for `key`.
    pub fn contains_key(&self, key: &str) -> (r: bool)
        ensures
            r == value_of(self@, key@) is Some,
    {
        let i = self.find(key);
        i < self.entries.len()
    }

    /// Stores `value` for `key`, in place of the value that was stored for it.
    pub fn insert(&mut self, key: String, value: V)
        ensures
            final(self)@ == with_entry(old(self)@, key@, value),
    {
        proof {
            use_type_invariant(&*self);
            lemma_with_entry_distinct(self@, key@, value);
        }
        let ghost before = self@;
        let i = self.find(key.as_str());
        proof {
            lemma_key_index(before, key@);
        }
        let mut entries: Vec<(String, V)> = Vec::new();
        std::mem::swap(&mut entries, &mut self.entries);
        let ghost k = key@;
        if i < entries.len() {
            entries[i] = (key, value);
        } else {
            entries.push((key, value));
        }
        assert(Seq::new(entries@.len(), |j: int| (entries@[j].0@, entries@[j].1)) =~= with_entry(
            before,
            k,
            value,
        ));
        *self = StringMap { entries };
    }

    /// Stores every entry of `other`, in order.
    pub fn extend(&mut self, other: StringMap<V>)
        ensures
            final(self)@ == with_entries(old(self)@, other@),
    {
        let ghost all = other@;
        let mut rest = other.into_entries();
        let ghost before = self@;
        let mut taken: Vec<(String, V)> = Vec::new();
        let total = rest.len();
        let ghost n = total as int;
        while rest.len() > 0
            invariant
                n == all.len(),
                rest@.len() + taken@.len() == n,
                forall|i: int|
                    0 <= i < rest@.len() ==> (#[trigger] rest@[i]).0@ == all[i].0 && rest@[i].1
                        == all[i].1,
                forall|i: int|
                    0 <= i < taken@.len() ==> (#[trigger] taken@[i]).0@ == all[n - 1 - i].0
                        && taken@[i].1 == all[n - 1 - i].1,
            decreases rest@.len(),
        {
            let e = rest.pop().unwrap();
            taken.push(e);
        }
        let mut done: usize = 0;
        assert(all.take(0) =~= Seq::empty());
        while taken.len() > 0
            invariant
                n == all.len(),
                n <= usize::MAX,
                done + taken@.len() == n,
                forall|i: int|
                    0 <= i < taken@.len() ==> (#[trigger] taken@[i]).0@ == all[n - 1 - i].0
                        && taken@[i].1 == all[n - 1 - i].1,
                self@ == with_entries(before, all.take(done as int)),
            decreases taken@.len(),
        {
            let (k, v) = taken.pop().unwrap();
            self.insert(k, v);
            done += 1;
            assert(all.take(done as int).drop_last() =~= all.take(done - 1));
        }
        assert(all.take(n) =~= all);
    }

    fn into_entries(self) -> (r: Vec<(String, V)>)
        ensures
            r@.len() == self@.len(),
            forall|i: int|
                0 <= i < r@.len() ==> (#[trigger] r@[i]).0@ == self@[i].0 && r@[i].1 == self@[i].1,
    {
        self.entries
    }
}

impl<V> Default for StringMap<V> {
    fn default() -> (r: Self)
        ensures
            r@ == Seq::<(Seq<char>, V)>::empty(),
    {
        StringMap::new()
    }
}

/// A map with the same entries.
pub fn copied(m: &StringMap<String>) -> (r: StringMap<String>)
    ensures
        r@ == m@,
{
    let mut entries: Vec<(String, String)> = Vec::new();
    let mut i: usize = 0;
    proof {
        use_type_invariant(m);
    }
    while i < m.entries.len()
        invariant
            i <= m.entries@.len(),
            entries@.len() == i,
            forall|j: int|
                0 <= j < i ==> (#[trigger] entries@[j]).0@ == m@[j].0 && entries@[j].1 == m@[j].1,
        decreases m.entries@.len() - i,
    {
        entries.push((m.entries[i].0.clone(), m.entries[i].1.clone()));
        i += 1;
    }
    assert(Seq::new(entries@.len(), |j: int| (entries@[j].0@, entries@[j].1)) =~= m@);
    StringMap { entries }
}

/// The value of a key is that of its entry, and there is none where no entry has the key.
pub proof fn law_values_are_found_by_key<V>(s: Seq<(Seq<char>, V)>, key: Seq<char>, i: int)
    ensures
        distinct_keys(s) && 0 <= i < s.len() ==> value_of(s, s[i].0) == Some(s[i].1),
        value_of(s, key) is None <==> forall|k: int| 0 <= k < s.len() ==> (#[trigger] s[k]).0 != key,
{
    lemma_key_index(s, key);
    if distinct_keys(s) && 0 <= i < s.len() {
        assert forall|k: int| 0 <= k < i implies (#[trigger] s[k]).0 != s[i].0 by {
            assert(s[k].0 != s[i].0);
        }
        lemma_key_index_is(s, s[i].0, i);
    }
    if value_of(s, key) is Some {
        assert(s[key_index(s, key) as int].0 == key);
    }
}

} // verus!
