//! A mapping from string keys to values, kept as a list of entries in which
//! no key occurs twice.

use crate::text::str_eq;
use vstd::prelude::*;

verus! {

/// The mapping without entries.
pub open spec fn empty_map<V: View>() -> Map<Seq<char>, V::V> {
    Map::empty()
}

/// The key of the entry at position `i`.
pub open spec fn key_at<V: View>(s: Seq<(String, V)>, i: int) -> Seq<char> {
    s[i].0@
}

/// Whether some entry of `s` has the key `k`.
pub open spec fn has_key<V: View>(s: Seq<(String, V)>, k: Seq<char>) -> bool {
    exists|i: int| 0 <= i < s.len() && #[trigger] key_at(s, i) == k
}

/// Whether no key occurs twice in `s`.
pub open spec fn distinct_keys<V: View>(s: Seq<(String, V)>) -> bool {
    forall|i: int, j: int|
        0 <= i < j < s.len() ==> #[trigger] key_at(s, i) != #[trigger] key_at(s, j)
}

/// A position at which `k` occurs in `s`, where it occurs at all.
pub open spec fn index_of<V: View>(s: Seq<(String, V)>, k: Seq<char>) -> int {
    choose|i: int| 0 <= i < s.len() && #[trigger] key_at(s, i) == k
}

/// The mapping that a list of entries with distinct keys stands for.
pub open spec fn map_of<V: View>(s: Seq<(String, V)>) -> Map<Seq<char>, V::V> {
    Map::new(|k: Seq<char>| has_key(s, k), |k: Seq<char>| s[index_of(s, k)].1@)
}

/// Each entry of a list with distinct keys is found in its mapping.
pub proof fn lemma_map_of_entry<V: View>(s: Seq<(String, V)>, i: int)
    requires
        distinct_keys(s),
        0 <= i < s.len(),
    ensures
        map_of(s).contains_key(key_at(s, i)),
        map_of(s)[key_at(s, i)] == s[i].1@,
{
    let k = key_at(s, i);
    assert(has_key(s, k));
    let j = index_of(s, k);
    assert(0 <= j < s.len() && key_at(s, j) == k);
    if i < j {
        assert(key_at(s, i) != key_at(s, j));
    } else if j < i {
        assert(key_at(s, j) != key_at(s, i));
    }
}

/// Appending an entry with a new key inserts it into the mapping.
pub proof fn lemma_map_of_push<V: View>(s: Seq<(String, V)>, e: (String, V))
    requires
        distinct_keys(s),
        !has_key(s, e.0@),
    ensures
        distinct_keys(s.push(e)),
        map_of(s.push(e)) == map_of(s).insert(e.0@, e.1@),
{
    let t = s.push(e);
    assert forall|i: int, j: int| 0 <= i < j < t.len() implies #[trigger] key_at(t, i)
        != #[trigger] key_at(t, j) by {
        if j < s.len() {
            assert(key_at(s, i) != key_at(s, j));
        } else {
            assert(key_at(s, i) != e.0@);
        }
    }
    assert forall|k: Seq<char>| has_key(t, k) <==> (has_key(s, k) || k == e.0@) by {
        if has_key(t, k) {
            let i = index_of(t, k);
            if i < s.len() {
                assert(key_at(s, i) == k);
            }
        }
        if has_key(s, k) {
            let i = index_of(s, k);
            assert(key_at(t, i) == k);
        }
        if k == e.0@ {
            assert(key_at(t, s.len() as int) == k);
        }
    }
    assert forall|k: Seq<char>| has_key(t, k) implies #[trigger] map_of(t)[k] == map_of(s).insert(
        e.0@,
        e.1@,
    )[k] by {
        let i = index_of(t, k);
        lemma_map_of_entry(t, i);
        if i < s.len() {
            assert(key_at(s, i) == k);
            lemma_map_of_entry(s, i);
        }
    }
    assert(map_of(t) =~= map_of(s).insert(e.0@, e.1@));
}

/// Replacing the value of an entry inserts the new value under its key.
pub proof fn lemma_map_of_update<V: View>(s: Seq<(String, V)>, i: int, e: (String, V))
    requires
        distinct_keys(s),
        0 <= i < s.len(),
        e.0@ == key_at(s, i),
    ensures
        distinct_keys(s.update(i, e)),
        map_of(s.update(i, e)) == map_of(s).insert(e.0@, e.1@),
{
    let t = s.update(i, e);
    assert forall|a: int| 0 <= a < t.len() implies #[trigger] key_at(t, a) == key_at(s, a) by {}
    assert forall|a: int, b: int| 0 <= a < b < t.len() implies #[trigger] key_at(t, a)
        != #[trigger] key_at(t, b) by {
        assert(key_at(s, a) != key_at(s, b));
    }
    assert forall|k: Seq<char>| has_key(t, k) <==> has_key(s, k) by {
        if has_key(t, k) {
            let a = index_of(t, k);
            assert(key_at(s, a) == k);
        }
        if has_key(s, k) {
            let a = index_of(s, k);
            assert(key_at(t, a) == k);
        }
    }
    assert(has_key(s, e.0@));
    assert forall|k: Seq<char>| has_key(t, k) implies #[trigger] map_of(t)[k] == map_of(s).insert(
        e.0@,
        e.1@,
    )[k] by {
        let a = index_of(t, k);
        lemma_map_of_entry(t, a);
        if a != i {
            assert(key_at(s, a) == k);
            lemma_map_of_entry(s, a);
            if a < i {
                assert(key_at(s, a) != key_at(s, i));
            } else {
                assert(key_at(s, i) != key_at(s, a));
            }
        }
    }
    assert(map_of(t) =~= map_of(s).insert(e.0@, e.1@));
}

/// Taking an entry out removes its key from the mapping.
pub proof fn lemma_map_of_remove<V: View>(s: Seq<(String, V)>, i: int)
    requires
        distinct_keys(s),
        0 <= i < s.len(),
    ensures
        distinct_keys(s.remove(i)),
        map_of(s.remove(i)) == map_of(s).remove(key_at(s, i)),
{
    let t = s.remove(i);
    let gone = key_at(s, i);
    assert forall|a: int| 0 <= a < t.len() implies #[trigger] key_at(t, a) == key_at(
        s,
        if a < i {
            a
        } else {
            a + 1
        },
    ) by {}
    assert forall|a: int, b: int| 0 <= a < b < t.len() implies #[trigger] key_at(t, a)
        != #[trigger] key_at(t, b) by {
        let a1 = if a < i {
            a
        } else {
            a + 1
        };
        let b1 = if b < i {
            b
        } else {
            b + 1
        };
        assert(key_at(s, a1) != key_at(s, b1));
    }
    assert forall|k: Seq<char>| has_key(t, k) <==> (has_key(s, k) && k != gone) by {
        if has_key(t, k) {
            let a = index_of(t, k);
            let a1 = if a < i {
                a
            } else {
                a + 1
            };
            assert(key_at(s, a1) == k);
            if a1 < i {
                assert(key_at(s, a1) != key_at(s, i));
            } else {
                assert(key_at(s, i) != key_at(s, a1));
            }
        }
        if has_key(s, k) && k != gone {
            let a = index_of(s, k);
            let a0 = if a < i {
                a
            } else {
                a - 1
            };
            assert(key_at(t, a0) == k);
        }
    }
    assert forall|k: Seq<char>| has_key(t, k) implies #[trigger] map_of(t)[k] == map_of(s).remove(
        gone,
    )[k] by {
        let a = index_of(t, k);
        let a1 = if a < i {
            a
        } else {
            a + 1
        };
        lemma_map_of_entry(t, a);
        assert(key_at(s, a1) == k);
        lemma_map_of_entry(s, a1);
    }
    assert(map_of(t) =~= map_of(s).remove(gone));
}

/// Two lists that agree entry by entry stand for the same mapping.
pub proof fn lemma_map_of_congruent<V: View>(s: Seq<(String, V)>, t: Seq<(String, V)>)
    requires
        distinct_keys(s),
        s.len() == t.len(),
        forall|i: int|
            0 <= i < s.len() ==> #[trigger] key_at(t, i) == key_at(s, i) && t[i].1@ == s[i].1@,
    ensures
        distinct_keys(t),
        map_of(t) == map_of(s),
{
    assert forall|a: int, b: int| 0 <= a < b < t.len() implies #[trigger] key_at(t, a)
        != #[trigger] key_at(t, b) by {
        assert(key_at(s, a) != key_at(s, b));
    }
    assert forall|k: Seq<char>| has_key(t, k) <==> has_key(s, k) by {
        if has_key(t, k) {
            let a = index_of(t, k);
            assert(key_at(s, a) == k);
        }
        if has_key(s, k) {
            let a = index_of(s, k);
            assert(key_at(t, a) == k);
        }
    }
    assert forall|k: Seq<char>| has_key(t, k) implies #[trigger] map_of(t)[k] == map_of(s)[k] by {
        let a = index_of(t, k);
        lemma_map_of_entry(t, a);
        assert(key_at(s, a) == k);
        lemma_map_of_entry(s, a);
    }
    assert(map_of(t) =~= map_of(s));
}

/// The keys of a list of entries, in the order of the list.
pub open spec fn keys_of<V: View>(s: Seq<(String, V)>) -> Seq<Seq<char>> {
    Seq::new(s.len(), |i: int| key_at(s, i))
}

/// The mapping of a list with distinct keys has exactly the list's keys, and
/// as many of them as the list has entries.
pub proof fn lemma_map_of_domain<V: View>(s: Seq<(String, V)>)
    requires
        distinct_keys(s),
    ensures
        map_of(s).dom() == keys_of(s).to_set(),
        map_of(s).dom().finite(),
        map_of(s).dom().len() == s.len(),
        keys_of(s).no_duplicates(),
{
    let keys = keys_of(s);
    assert forall|k: Seq<char>| map_of(s).dom().contains(k) <==> keys.to_set().contains(k) by {
        if has_key(s, k) {
            let i = index_of(s, k);
            assert(keys[i] == k);
        }
        if keys.to_set().contains(k) {
            let i = choose|i: int| 0 <= i < keys.len() && keys[i] == k;
            assert(key_at(s, i) == k);
        }
    }
    assert(map_of(s).dom() =~= keys.to_set());
    assert forall|i: int, j: int| 0 <= i < keys.len() && 0 <= j < keys.len() && i != j implies keys[i]
        != keys[j] by {
        if i < j {
            assert(key_at(s, i) != key_at(s, j));
        } else {
            assert(key_at(s, j) != key_at(s, i));
        }
    }
    keys.unique_seq_to_set();
    vstd::seq_lib::seq_to_set_is_finite(keys);
}

/// The mapping `m` after the first `n` entries of `s` were inserted in turn.
pub open spec fn inserted_all<V: View>(
    m: Map<Seq<char>, V::V>,
    s: Seq<(String, V)>,
    n: int,
) -> Map<Seq<char>, V::V>
    decreases n,
{
    if n <= 0 {
        m
    } else {
        inserted_all(m, s, n - 1).insert(s[n - 1].0@, s[n - 1].1@)
    }
}

/// A mapping from string keys to values, in which no key occurs twice. The
/// order in which entries were inserted carries no meaning.
#[derive(Debug)]
pub struct StringMap<V: View> {
    entries: Vec<(String, V)>,
}

impl<V: View> View for StringMap<V> {
    type V = Map<Seq<char>, V::V>;

    closed spec fn view(&self) -> Map<Seq<char>, V::V> {
        map_of(self.entries@)
    }
}

impl<V: View> StringMap<V> {
    #[verifier::type_invariant]
    spec fn well_formed(self) -> bool {
        distinct_keys(self.entries@)
    }

    /// The empty mapping.
    pub fn new() -> (r: StringMap<V>)
        ensures
            r@ == empty_map::<V>(),
    {
        let r = StringMap { entries: Vec::new() };
        assert(r@ =~= Map::<Seq<char>, V::V>::empty());
        r
    }

    fn position(&self, key: &str) -> (r: Option<usize>)
        ensures
            match r {
                Some(i) => i < self.entries@.len() && key_at(self.entries@, i as int) == key@,
                None => !has_key(self.entries@, key@),
            },
    {
        let mut i: usize = 0;
        while i < self.entries.len()
            invariant
                i <= self.entries@.len(),
                forall|j: int| 0 <= j < i ==> #[trigger] key_at(self.entries@, j) != key@,
            decreases self.entries@.len() - i,
        {
            if str_eq(self.entries[i].0.as_str(), key) {
                return Some(i);
            }
            i += 1;
        }
        None
    }

    /// Whether `key` is present.
    pub fn contains_key(&self, key: &str) -> (r: bool)
        ensures
            r == self@.contains_key(key@),
    {
        self.position(key).is_some()
    }

    /// The value under `key`, if the key is present.
    pub fn get(&self, key: &str) -> (r: Option<&V>)
        ensures
            match r {
                Some(v) => self@.contains_key(key@) && v@ == self@[key@],
                None => !self@.contains_key(key@),
            },
    {
        proof {
            use_type_invariant(self);
        }
        match self.position(key) {
            Some(i) => {
                proof {
                    lemma_map_of_entry(self.entries@, i as int);
                }
                Some(&self.entries[i].1)
            },
            None => None,
        }
    }

    /// Puts `value` under `key`, replacing what was there.
    pub fn insert(&mut self, key: &str, value: V)
        ensures
            final(self)@ == old(self)@.insert(key@, value@),
    {
        proof {
            use_type_invariant(&*self);
        }
        let entry = (key.to_owned(), value);
        let found = self.position(key);
        let mut entries: Vec<(String, V)> = Vec::new();
        core::mem::swap(&mut self.entries, &mut entries);
        match found {
            Some(i) => {
                proof {
                    lemma_map_of_update(entries@, i as int, entry);
                }
                entries.set(i, entry);
            },
            None => {
                proof {
                    lemma_map_of_push(entries@, entry);
                }
                entries.push(entry);
            },
        }
        self.entries = entries;
    }

    /// Takes `key` out and returns the value that was under it.
    pub fn remove(&mut self, key: &str) -> (r: Option<V>)
        ensures
            final(self)@ == old(self)@.remove(key@),
            match r {
                Some(v) => old(self)@.contains_key(key@) && v@ == old(self)@[key@],
                None => !old(self)@.contains_key(key@),
            },
    {
        proof {
            use_type_invariant(&*self);
        }
        match self.position(key) {
            Some(i) => {
                proof {
                    lemma_map_of_entry(self.entries@, i as int);
                    lemma_map_of_remove(self.entries@, i as int);
                }
                let mut entries: Vec<(String, V)> = Vec::new();
                core::mem::swap(&mut self.entries, &mut entries);
                let gone = entries.remove(i);
                self.entries = entries;
                Some(gone.1)
            },
            None => {
                assert(self@.remove(key@) =~= self@);
                None
            },
        }
    }

    /// The number of entries.
    pub fn len(&self) -> (r: usize)
        ensures
            self@.dom().finite(),
            r == self@.dom().len(),
    {
        proof {
            use_type_invariant(self);
            lemma_map_of_domain(self.entries@);
        }
        self.entries.len()
    }

    /// The keys, each once, in no particular order.
    pub fn keys(&self) -> (r: Vec<String>)
        ensures
            r@.len() == self@.dom().len(),
            self@.dom().finite(),
            forall|i: int| 0 <= i < r@.len() ==> self@.contains_key(#[trigger] r@[i]@),
            forall|k: Seq<char>|
                self@.contains_key(k) ==> exists|i: int| 0 <= i < r@.len() && #[trigger] r@[i]@ == k,
            forall|i: int, j: int| 0 <= i < j < r@.len() ==> #[trigger] r@[i]@ != #[trigger] r@[j]@,
    {
        proof {
            use_type_invariant(self);
            lemma_map_of_domain(self.entries@);
        }
        let mut out: Vec<String> = Vec::new();
        let mut i: usize = 0;
        while i < self.entries.len()
            invariant
                i <= self.entries@.len(),
                out@.len() == i,
                forall|j: int| 0 <= j < i ==> (#[trigger] out@[j])@ == key_at(self.entries@, j),
            decreases self.entries@.len() - i,
        {
            out.push(self.entries[i].0.clone());
            i += 1;
        }
        proof {
            let s = self.entries@;
            assert forall|j: int| 0 <= j < out@.len() implies self@.contains_key(
                #[trigger] out@[j]@,
            ) by {
                assert(key_at(s, j) == out@[j]@);
            }
            assert forall|k: Seq<char>| self@.contains_key(k) implies exists|j: int|
                0 <= j < out@.len() && #[trigger] out@[j]@ == k by {
                let j = index_of(s, k);
                assert(out@[j]@ == k);
            }
            assert forall|a: int, b: int| 0 <= a < b < out@.len() implies #[trigger] out@[a]@
                != #[trigger] out@[b]@ by {
                assert(key_at(s, a) != key_at(s, b));
            }
        }
        out
    }

    /// The entries, each key once, in no particular order.
    pub fn entries(&self) -> (r: &Vec<(String, V)>)
        ensures
            distinct_keys(r@),
            map_of(r@) == self@,
    {
        proof {
            use_type_invariant(self);
        }
        &self.entries
    }

    /// The mapping that holds the given entries; of two entries with one key
    /// the later one stays.
    pub fn from_entries(entries: Vec<(String, V)>) -> (r: StringMap<V>)
        ensures
            r@ == inserted_all(Map::empty(), entries@, entries@.len() as int),
    {
        let mut out = StringMap::new();
        let mut entries = entries;
        let ghost all = entries@;
        let mut i: usize = 0;
        let n: usize = entries.len();
        let mut rest: Vec<(String, V)> = Vec::new();
        // Entries are moved out back to front, so turn the list round first.
        while entries.len() > 0
            invariant
                entries@.len() + rest@.len() == all.len(),
                forall|j: int| 0 <= j < entries@.len() ==> entries@[j] == all[j],
                forall|j: int|
                    0 <= j < rest@.len() ==> #[trigger] rest@[j] == all[all.len() - 1 - j],
            decreases entries@.len(),
        {
            let e = entries.pop().unwrap();
            rest.push(e);
        }
        while rest.len() > 0
            invariant
                i + rest@.len() == all.len(),
                n == all.len(),
                forall|j: int|
                    0 <= j < rest@.len() ==> #[trigger] rest@[j] == all[all.len() - 1 - j],
                out@ == inserted_all(Map::empty(), all, i as int),
            decreases rest@.len(),
        {
            let e = rest.pop().unwrap();
            assert(e == all[i as int]);
            out.insert(e.0.as_str(), e.1);
            i += 1;
        }
        out
    }

    /// The mapping that holds the given entries, none of which shares its
    /// key with another.
    pub(crate) fn from_distinct(entries: Vec<(String, V)>) -> (r: StringMap<V>)
        requires
            distinct_keys(entries@),
        ensures
            r@ == map_of(entries@),
    {
        StringMap { entries }
    }

    /// Takes every entry out.
    pub fn clear(&mut self)
        ensures
            final(self)@ == empty_map::<V>(),
    {
        self.entries = Vec::new();
        assert(self@ =~= Map::<Seq<char>, V::V>::empty());
    }
}

} // verus!
