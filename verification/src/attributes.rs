//! The attribute mapping of a session: string keys to structured values.

use crate::string_map::{
    distinct_keys, has_key, index_of, key_at, lemma_map_of_congruent, lemma_map_of_push, map_of,
    StringMap,
};
use crate::value::{Value, ValueView};
use vstd::prelude::*;

verus! {

/// The attributes of a session: a mapping from string keys to structured
/// values. The order in which entries were inserted carries no meaning.
pub type Attributes = StringMap<Value>;

impl StringMap<Value> {
    /// Lays the entries of `other` over this mapping: where both hold a key,
    /// the value of `other` stays.
    pub fn merge(&mut self, other: &Attributes)
        ensures
            final(self)@ == old(self)@.union_prefer_right(other@),
    {
        let entries = other.entries();
        let ghost start = self@;
        let ghost given = entries@;
        let mut i: usize = 0;
        assert(map_of(given.take(0)) =~= Map::<Seq<char>, ValueView>::empty());
        assert(start =~= start.union_prefer_right(map_of(given.take(0))));
        while i < entries.len()
            invariant
                i <= given.len(),
                given == entries@,
                distinct_keys(given),
                self@ == start.union_prefer_right(map_of(given.take(i as int))),
            decreases given.len() - i,
        {
            proof {
                let head = given.take(i as int);
                let e = given[i as int];
                assert(given.take(i + 1) =~= head.push(e));
                assert forall|a: int, b: int| 0 <= a < b < head.len() implies #[trigger] key_at(
                    head,
                    a,
                ) != #[trigger] key_at(head, b) by {
                    assert(key_at(given, a) != key_at(given, b));
                }
                assert(!has_key(head, e.0@)) by {
                    if has_key(head, e.0@) {
                        let a = index_of(head, e.0@);
                        assert(key_at(given, a) != key_at(given, i as int));
                    }
                }
                lemma_map_of_push(head, e);
                assert(start.union_prefer_right(map_of(head).insert(e.0@, e.1@))
                    =~= start.union_prefer_right(map_of(head)).insert(e.0@, e.1@));
            }
            self.insert(entries[i].0.as_str(), entries[i].1.clone());
            i += 1;
        }
        assert(given.take(i as int) =~= given);
    }
}

impl Clone for StringMap<Value> {
    fn clone(&self) -> (r: Attributes)
        ensures
            r@ == self@,
    {
        let entries = self.entries();
        let mut out: Vec<(String, Value)> = Vec::new();
        let mut i: usize = 0;
        while i < entries.len()
            invariant
                i <= entries@.len(),
                out@.len() == i,
                forall|j: int| 0 <= j < i ==> (#[trigger] out@[j]).0@ == entries@[j].0@,
                forall|j: int| 0 <= j < i ==> (#[trigger] out@[j]).1@ == entries@[j].1@,
            decreases entries@.len() - i,
        {
            let key = entries[i].0.clone();
            let value = entries[i].1.clone();
            out.push((key, value));
            i += 1;
        }
        proof {
            lemma_map_of_congruent(entries@, out@);
        }
        StringMap::from_distinct(out)
    }
}

} // verus!
