//! The session store: attributes of one request, with flash-data aging, the
//! CSRF token and the rules on session identifiers.

use crate::attributes::Attributes;
use crate::random::random_str;
use crate::text::{
    all_alphanumeric, clone_list, lemma_take_to_set, list_contains, list_joined, list_unique,
    list_without, optional_text, str_all_alphanumeric, str_eq, strings, unique, without,
};
use crate::value::{lemma_array_view, list_value, string_list, Value, ValueView};
use vstd::prelude::*;

verus! {

/// The attributes of a session as a mathematical mapping.
pub type AttributeMap = Map<Seq<char>, ValueView>;

/// The key under which the CSRF token is kept.
pub open spec fn token_key() -> Seq<char> {
    "_token"@
}

/// The key under which the keys flashed in this cycle are listed.
pub open spec fn flash_new_key() -> Seq<char> {
    "_flash.new"@
}

/// The key under which the keys flashed in the previous cycle are listed.
pub open spec fn flash_old_key() -> Seq<char> {
    "_flash.old"@
}

/// The key under which the last visited URL is kept.
pub open spec fn previous_url_key() -> Seq<char> {
    "_previous.url"@
}

/// The length of a session identifier and of a CSRF token.
pub const ID_LENGTH: usize = 40;

/// Whether `id` has the form of a session identifier: exactly 40 ASCII
/// letters and digits.
pub open spec fn valid_id(id: Seq<char>) -> bool {
    id.len() == 40 && all_alphanumeric(id)
}

/// Whether `m` holds a value under `key` that is not null.
pub open spec fn holds(m: AttributeMap, key: Seq<char>) -> bool {
    m.contains_key(key) && !(m[key] is Null)
}

/// Whether `key` is absent from `m` or holds an array.
pub open spec fn array_or_absent(m: AttributeMap, key: Seq<char>) -> bool {
    m.contains_key(key) ==> m[key] is Array
}

/// Whether `key` is absent from `m` or holds an array of strings.
pub open spec fn list_or_absent(m: AttributeMap, key: Seq<char>) -> bool {
    m.contains_key(key) ==> string_list(m[key]) is Some
}

/// Whether `key` is absent from `m` or holds a string.
pub open spec fn text_or_absent(m: AttributeMap, key: Seq<char>) -> bool {
    m.contains_key(key) ==> m[key] is Text
}

/// Whether `key` is absent from `m` or holds an integer.
pub open spec fn int_or_absent(m: AttributeMap, key: Seq<char>) -> bool {
    m.contains_key(key) ==> m[key] is Int
}

/// The strings listed under `key`; none where the key is absent or holds
/// anything but an array of strings.
pub open spec fn listed(m: AttributeMap, key: Seq<char>) -> Seq<Seq<char>> {
    if m.contains_key(key) && string_list(m[key]) is Some {
        string_list(m[key])->Some_0
    } else {
        Seq::empty()
    }
}

/// The integer under `key`, and 0 where the key is absent.
pub open spec fn counter(m: AttributeMap, key: Seq<char>) -> int {
    if m.contains_key(key) && m[key] is Int {
        m[key]->Int_0 as int
    } else {
        0
    }
}

/// `m` with `item` appended to the array under `key`. A key that is absent
/// stays absent: there is no array to append to.
pub open spec fn pushed(m: AttributeMap, key: Seq<char>, item: ValueView) -> AttributeMap {
    if m.contains_key(key) && m[key] is Array {
        m.insert(key, ValueView::Array(m[key]->Array_0.push(item)))
    } else {
        m
    }
}

/// `m` with `key` appended to the list under `list`; the list is created
/// where it is absent.
pub open spec fn marked(m: AttributeMap, list: Seq<char>, key: Seq<char>) -> AttributeMap {
    if m.contains_key(list) && m[list] is Array {
        m.insert(list, ValueView::Array(m[list]->Array_0.push(ValueView::Text(key))))
    } else {
        m.insert(list, list_value(seq![key]))
    }
}

/// `m` after `key` was flashed with `value`: the value is set, the key is
/// listed as flashed in this cycle and struck from the list of the previous
/// cycle.
pub open spec fn flashed_into(m: AttributeMap, key: Seq<char>, value: ValueView) -> AttributeMap {
    let set = marked(m.insert(key, value), flash_new_key(), key);
    set.insert(flash_old_key(), list_value(without(listed(set, flash_old_key()), seq![key])))
}

/// `m` after `key` was flashed with `value` for the current request only.
pub open spec fn flashed_now(m: AttributeMap, key: Seq<char>, value: ValueView) -> AttributeMap {
    marked(m.insert(key, value), flash_old_key(), key)
}

/// `m` after the keys `keys` were kept for one more cycle.
pub open spec fn kept(m: AttributeMap, keys: Seq<Seq<char>>) -> AttributeMap {
    let renewed = m.insert(
        flash_new_key(),
        list_value(unique(listed(m, flash_new_key()) + keys)),
    );
    renewed.insert(flash_old_key(), list_value(without(listed(renewed, flash_old_key()), keys)))
}

/// `m` after every key of the previous cycle was flashed again.
pub open spec fn reflashed(m: AttributeMap) -> AttributeMap {
    let renewed = m.insert(
        flash_new_key(),
        list_value(unique(listed(m, flash_new_key()) + listed(m, flash_old_key()))),
    );
    renewed.insert(flash_old_key(), list_value(Seq::empty()))
}

/// `m` after its flash data aged by one cycle: what was flashed in the
/// previous cycle is gone, what was flashed in this cycle becomes the
/// previous cycle's, and nothing is flashed in the new cycle yet.
pub open spec fn aged(m: AttributeMap) -> AttributeMap {
    let purged = m.remove_keys(listed(m, flash_old_key()).to_set());
    let shifted = purged.insert(flash_old_key(), list_value(listed(purged, flash_new_key())));
    shifted.insert(flash_new_key(), list_value(Seq::empty()))
}

/// Whether the flash data of `m` can age: the list of the previous cycle is
/// an array of strings or absent, and so is the list of this cycle once the
/// keys of the previous cycle are gone.
pub open spec fn can_age(m: AttributeMap) -> bool {
    &&& list_or_absent(m, flash_old_key())
    &&& list_or_absent(m.remove_keys(listed(m, flash_old_key()).to_set()), flash_new_key())
}

/// The keys that the session keeps for itself differ from each other.
pub proof fn lemma_reserved_keys_differ()
    ensures
        token_key() != flash_new_key(),
        token_key() != flash_old_key(),
        flash_new_key() != flash_old_key(),
{
    reveal_strlit("_token");
    reveal_strlit("_flash.new");
    reveal_strlit("_flash.old");
    assert(token_key().len() == 6);
    assert(flash_new_key().len() == 10);
    assert(flash_old_key().len() == 10);
    assert(flash_new_key()[7] == 'n');
    assert(flash_old_key()[7] == 'o');
}

/// Whether `key` can be flashed with `value`: once the value is set, the
/// list of this cycle is an array or absent, and once the key is marked
/// there, the list of the previous cycle is an array of strings or absent.
pub open spec fn can_flash(m: AttributeMap, key: Seq<char>, value: ValueView) -> bool {
    &&& array_or_absent(m.insert(key, value), flash_new_key())
    &&& list_or_absent(marked(m.insert(key, value), flash_new_key(), key), flash_old_key())
}

/// Whether `key` can be flashed with `value` for the current request: once
/// the value is set, the list of the previous cycle is an array or absent.
pub open spec fn can_flash_now(m: AttributeMap, key: Seq<char>, value: ValueView) -> bool {
    array_or_absent(m.insert(key, value), flash_old_key())
}

/// Whether flashed keys can be kept: both flash lists are arrays of strings
/// or absent.
pub open spec fn can_keep(m: AttributeMap) -> bool {
    list_or_absent(m, flash_new_key()) && list_or_absent(m, flash_old_key())
}

/// Whether `amount` can be added to what `key` holds: that is an integer or
/// nothing, and the sum fits a signed 64-bit integer.
pub open spec fn can_increment(m: AttributeMap, key: Seq<char>, amount: int) -> bool {
    int_or_absent(m, key) && i64::MIN <= counter(m, key) + amount <= i64::MAX
}

/// `given` laid over `base`: where both hold a key, the value of `given`
/// stays.
pub open spec fn merged(base: AttributeMap, given: AttributeMap) -> AttributeMap {
    base.union_prefer_right(given)
}

/// Whether `after` is `before` with some token of 40 letters and digits put
/// in place of the CSRF token.
pub open spec fn token_renewed(before: AttributeMap, after: AttributeMap) -> bool {
    exists|t: Seq<char>| #[trigger]
        valid_id(t) && after == before.insert(token_key(), ValueView::Text(t))
}

/// Whether `after` is `before` with a CSRF token ensured: unchanged where
/// `before` holds one, else with a fresh token in its place.
pub open spec fn token_ensured(before: AttributeMap, after: AttributeMap) -> bool {
    if holds(before, token_key()) {
        after == before
    } else {
        token_renewed(before, after)
    }
}

/// Whether `id` is what a session takes for its identifier when `candidate`
/// is offered: the candidate where it is valid, else some valid identifier.
pub open spec fn id_taken(candidate: Option<Seq<char>>, id: Seq<char>) -> bool {
    &&& valid_id(id)
    &&& candidate is Some && valid_id(candidate->Some_0) ==> id == candidate->Some_0
}

/// What can go wrong when a session is used.
#[derive(Debug, Clone, Copy, PartialEq, Eq, Structural)]
pub enum Error {
    /// The session was started twice without being ended in between.
    AlreadyStarted,
}

impl Error {
    /// The message of the error.
    pub fn message(&self) -> (r: &'static str)
        ensures
            r@ == "This session has already been initialized"@,
    {
        "This session has already been initialized"
    }
}

/// The state of a session, as contracts see it.
pub struct SessionView {
    pub id: Seq<char>,
    pub started: bool,
    pub attributes: AttributeMap,
}

/// The session of one request in flight.
#[derive(Debug)]
pub struct Session {
    id: String,
    started: bool,
    attributes: Attributes,
}

impl View for Session {
    type V = SessionView;

    closed spec fn view(&self) -> SessionView {
        SessionView { id: self.id@, started: self.started, attributes: self.attributes@ }
    }
}

/// Tests a string for having the form of a session identifier.
pub fn is_valid_id(id: &str) -> (r: bool)
    ensures
        r == valid_id(id@),
{
    id.unicode_len() == ID_LENGTH && str_all_alphanumeric(id)
}

impl Session {
    #[verifier::type_invariant]
    spec fn id_is_valid(self) -> bool {
        valid_id(self.id@)
    }

    /// A session that is not started and holds nothing, under a fresh
    /// identifier.
    pub fn new() -> (r: Session)
        ensures
            !r@.started,
            r@.attributes == AttributeMap::empty(),
            valid_id(r@.id),
    {
        Session { id: random_str(ID_LENGTH), started: false, attributes: Attributes::new() }
    }

    /// Whether the session has been started.
    pub fn has_started(&self) -> (r: bool)
        ensures
            r == self@.started,
    {
        self.started
    }

    /// The identifier of the session, which is always valid.
    pub fn id(&self) -> (r: String)
        ensures
            r@ == self@.id,
            valid_id(r@),
    {
        proof {
            use_type_invariant(self);
        }
        self.id.clone()
    }

    /// Binds the session to `id` where that is a valid identifier, and to a
    /// fresh random identifier where it is not, or where none is given.
    pub fn set_id(&mut self, id: Option<String>)
        ensures
            id_taken(optional_text(id), final(self)@.id),
            id is Some ==> (final(self)@.id == id->Some_0@ <==> valid_id(id->Some_0@)),
            final(self)@.started == old(self)@.started,
            final(self)@.attributes == old(self)@.attributes,
    {
        match id {
            Some(given) => {
                if is_valid_id(given.as_str()) {
                    self.id = given;
                } else {
                    self.id = random_str(ID_LENGTH);
                }
            },
            None => {
                self.id = random_str(ID_LENGTH);
            },
        }
    }

    fn put(&mut self, key: &str, value: Value)
        ensures
            final(self)@.attributes == old(self)@.attributes.insert(key@, value@),
            final(self)@.id == old(self)@.id,
            final(self)@.started == old(self)@.started,
    {
        proof {
            use_type_invariant(&*self);
        }
        let mut attributes = Attributes::new();
        core::mem::swap(&mut self.attributes, &mut attributes);
        attributes.insert(key, value);
        self.attributes = attributes;
    }

    fn take(&mut self, key: &str) -> (r: Option<Value>)
        ensures
            final(self)@.attributes == old(self)@.attributes.remove(key@),
            final(self)@.id == old(self)@.id,
            final(self)@.started == old(self)@.started,
            match r {
                Some(v) => old(self)@.attributes.contains_key(key@) && v@ == old(self)@.attributes[key@],
                None => !old(self)@.attributes.contains_key(key@),
            },
    {
        proof {
            use_type_invariant(&*self);
        }
        let mut attributes = Attributes::new();
        core::mem::swap(&mut self.attributes, &mut attributes);
        let r = attributes.remove(key);
        self.attributes = attributes;
        r
    }

    /// Puts `value` under `key`, replacing what was there.
    pub fn set(&mut self, key: &str, value: Value)
        ensures
            final(self)@.attributes == old(self)@.attributes.insert(key@, value@),
            final(self)@.id == old(self)@.id,
            final(self)@.started == old(self)@.started,
    {
        self.put(key, value);
    }

    /// Replaces the attributes of the session by `attributes`.
    pub fn replace(&mut self, attributes: Attributes)
        ensures
            final(self)@.attributes == attributes@,
            final(self)@.id == old(self)@.id,
            final(self)@.started == old(self)@.started,
    {
        proof {
            use_type_invariant(&*self);
        }
        self.attributes = attributes;
    }

    /// Takes every attribute out of the session.
    pub fn flush(&mut self)
        ensures
            final(self)@.attributes == AttributeMap::empty(),
            final(self)@.id == old(self)@.id,
            final(self)@.started == old(self)@.started,
    {
        proof {
            use_type_invariant(&*self);
        }
        self.attributes = Attributes::new();
    }

    /// The value under `key`, if the key is present.
    pub fn get(&self, key: &str) -> (r: Option<Value>)
        requires
            self@.started,
        ensures
            match r {
                Some(v) => self@.attributes.contains_key(key@) && v@ == self@.attributes[key@],
                None => !self@.attributes.contains_key(key@),
            },
    {
        match self.attributes.get(key) {
            Some(v) => Some(v.clone()),
            None => None,
        }
    }

    /// All attributes of the session.
    pub fn all(&self) -> (r: Attributes)
        requires
            self@.started,
        ensures
            r@ == self@.attributes,
    {
        self.attributes.clone()
    }

    /// Overwrites the CSRF token with a fresh one of 40 letters and digits.
    pub fn regenerate_token(&mut self)
        ensures
            token_renewed(old(self)@.attributes, final(self)@.attributes),
            final(self)@.id == old(self)@.id,
            final(self)@.started == old(self)@.started,
    {
        let token = random_str(ID_LENGTH);
        let ghost t = token@;
        self.put("_token", Value::Text(token));
        assert(valid_id(t));
    }

    /// Whether every one of the given keys is present.
    pub fn exists_key<K: IntoKey>(&self, key: K) -> (r: bool)
        ensures
            r == forall|i: int|
                0 <= i < key.key_list().len() ==> self@.attributes.contains_key(
                    #[trigger] key.key_list()[i],
                ),
    {
        let keys = key.get_keys();
        let mut i: usize = 0;
        while i < keys.len()
            invariant
                i <= keys@.len(),
                strings(keys@) == key.key_list(),
                forall|j: int|
                    0 <= j < i ==> self@.attributes.contains_key(#[trigger] key.key_list()[j]),
            decreases keys@.len() - i,
        {
            assert(strings(keys@)[i as int] == keys@[i as int]@);
            if !self.attributes.contains_key(keys[i].as_str()) {
                return false;
            }
            i += 1;
        }
        true
    }

    /// Whether one of the given keys is absent.
    pub fn missing<K: IntoKey>(&self, key: K) -> (r: bool)
        ensures
            r == exists|i: int|
                0 <= i < key.key_list().len() && !self@.attributes.contains_key(
                    #[trigger] key.key_list()[i],
                ),
    {
        !self.exists_key(key)
    }

    /// Whether every one of the given keys is present with a value that is
    /// not null.
    pub fn has<K: IntoKey>(&self, key: K) -> (r: bool)
        ensures
            r == forall|i: int|
                0 <= i < key.key_list().len() ==> holds(
                    self@.attributes,
                    #[trigger] key.key_list()[i],
                ),
    {
        let keys = key.get_keys();
        let mut i: usize = 0;
        while i < keys.len()
            invariant
                i <= keys@.len(),
                strings(keys@) == key.key_list(),
                forall|j: int|
                    0 <= j < i ==> holds(self@.attributes, #[trigger] key.key_list()[j]),
            decreases keys@.len() - i,
        {
            assert(strings(keys@)[i as int] == keys@[i as int]@);
            match self.attributes.get(keys[i].as_str()) {
                Some(v) => {
                    if v.is_null() {
                        return false;
                    }
                },
                None => {
                    return false;
                },
            }
            i += 1;
        }
        true
    }

    /// The attributes under the given keys.
    pub fn only<K: IntoKey>(&self, keys: K) -> (r: Attributes)
        requires
            self@.started,
        ensures
            r@ == self@.attributes.restrict(keys.key_list().to_set()),
    {
        let keys = keys.get_keys();
        let ghost all = strings(keys@);
        let mut out = Attributes::new();
        let mut i: usize = 0;
        assert(all.take(0) =~= Seq::<Seq<char>>::empty());
        assert(out@ =~= self@.attributes.restrict(all.take(0).to_set()));
        while i < keys.len()
            invariant
                i <= keys@.len(),
                all == strings(keys@),
                out@ == self@.attributes.restrict(all.take(i as int).to_set()),
            decreases keys@.len() - i,
        {
            let ghost before = out@;
            let ghost k = keys@[i as int]@;
            proof {
                lemma_take_to_set(all, i as int);
            }
            match self.attributes.get(keys[i].as_str()) {
                Some(v) => {
                    out.insert(keys[i].as_str(), v.clone());
                    assert(out@ =~= self@.attributes.restrict(all.take(i + 1).to_set()));
                },
                None => {
                    assert(out@ =~= self@.attributes.restrict(all.take(i + 1).to_set()));
                },
            }
            i += 1;
        }
        assert(all.take(i as int) =~= all);
        out
    }

    /// Takes the given keys out of the session.
    pub fn forget<K: IntoKey>(&mut self, keys: K)
        ensures
            final(self)@.attributes == old(self)@.attributes.remove_keys(keys.key_list().to_set()),
            final(self)@.id == old(self)@.id,
            final(self)@.started == old(self)@.started,
    {
        let keys = keys.get_keys();
        self.forget_list(&keys);
    }

    fn forget_list(&mut self, keys: &Vec<String>)
        ensures
            final(self)@.attributes == old(self)@.attributes.remove_keys(strings(keys@).to_set()),
            final(self)@.id == old(self)@.id,
            final(self)@.started == old(self)@.started,
    {
        let ghost all = strings(keys@);
        let ghost start = self@.attributes;
        let mut i: usize = 0;
        assert(all.take(0) =~= Seq::<Seq<char>>::empty());
        assert(start =~= start.remove_keys(all.take(0).to_set()));
        while i < keys.len()
            invariant
                i <= keys@.len(),
                all == strings(keys@),
                self@.attributes == start.remove_keys(all.take(i as int).to_set()),
                self@.id == old(self)@.id,
                self@.started == old(self)@.started,
            decreases keys@.len() - i,
        {
            let ghost k = keys@[i as int]@;
            proof {
                lemma_take_to_set(all, i as int);
            }
            let _ = self.take(keys[i].as_str());
            assert(self@.attributes =~= start.remove_keys(all.take(i + 1).to_set()));
            i += 1;
        }
        assert(all.take(i as int) =~= all);
    }

    /// The value under `key`, which is taken out of the session.
    pub fn pull(&mut self, key: &str) -> (r: Option<Value>)
        requires
            old(self)@.started,
        ensures
            final(self)@.attributes == old(self)@.attributes.remove(key@),
            final(self)@.id == old(self)@.id,
            final(self)@.started == old(self)@.started,
            match r {
                Some(v) => old(self)@.attributes.contains_key(key@) && v@ == old(self)@.attributes[key@],
                None => !old(self)@.attributes.contains_key(key@),
            },
    {
        self.take(key)
    }

    /// Takes `key` out of the session and returns the value that was under
    /// it.
    pub fn remove(&mut self, key: &str) -> (r: Option<Value>)
        requires
            old(self)@.started,
        ensures
            final(self)@.attributes == old(self)@.attributes.remove(key@),
            final(self)@.id == old(self)@.id,
            final(self)@.started == old(self)@.started,
            match r {
                Some(v) => old(self)@.attributes.contains_key(key@) && v@ == old(self)@.attributes[key@],
                None => !old(self)@.attributes.contains_key(key@),
            },
    {
        self.take(key)
    }

    /// The value under `key` where one is held that is not null; else the
    /// value that `value` computes, which is then stored under `key`.
    pub fn remember<F: FnOnce() -> Value>(&mut self, key: &str, value: F) -> (r: Value)
        requires
            value.requires(()),
        ensures
            final(self)@.id == old(self)@.id,
            final(self)@.started == old(self)@.started,
            holds(old(self)@.attributes, key@) ==> r@ == old(self)@.attributes[key@] && final(self)@.attributes == old(self)@.attributes,
            !holds(old(self)@.attributes, key@) ==> value.ensures((), r) && final(self)@.attributes == old(self)@.attributes.insert(key@, r@),
    {
        match self.attributes.get(key) {
            Some(held) => {
                if !held.is_null() {
                    return held.clone();
                }
            },
            None => {},
        }
        let computed = value();
        self.put(key, computed.clone());
        computed
    }

    /// Appends `value` to the array under `key`. A key that is absent stays
    /// absent. The value under `key` must not be anything but an array.
    pub fn push(&mut self, key: &str, value: Value)
        requires
            array_or_absent(old(self)@.attributes, key@),
        ensures
            final(self)@.attributes == pushed(old(self)@.attributes, key@, value@),
            final(self)@.id == old(self)@.id,
            final(self)@.started == old(self)@.started,
    {
        match self.take(key) {
            Some(Value::Array(items)) => {
                let mut items = items;
                let ghost before = items;
                items.push(value);
                proof {
                    lemma_array_view(before);
                    lemma_array_view(items);
                    assert(Value::Array(items)@->Array_0 =~= Value::Array(before)@->Array_0.push(
                        value@,
                    ));
                }
                self.put(key, Value::Array(items));
                assert(self@.attributes =~= pushed(old(self)@.attributes, key@, value@));
            },
            Some(other) => {
                self.put(key, other);
            },
            None => {
                assert(self@.attributes =~= old(self)@.attributes);
            },
        }
    }

    /// Adds `amount` to the integer under `key`, counting from 0 where the
    /// key is absent, and returns the sum. The value under `key` must not be
    /// anything but an integer.
    pub fn increment(&mut self, key: &str, amount: i64) -> (r: i64)
        requires
            can_increment(old(self)@.attributes, key@, amount as int),
        ensures
            r == counter(old(self)@.attributes, key@) + amount,
            final(self)@.attributes == old(self)@.attributes.insert(key@, ValueView::Int(r)),
            final(self)@.id == old(self)@.id,
            final(self)@.started == old(self)@.started,
    {
        let base: i64 = match self.attributes.get(key) {
            Some(Value::Int(n)) => *n,
            _ => 0,
        };
        let sum: i64 = base + amount;
        self.put(key, Value::Int(sum));
        sum
    }

    /// Subtracts `amount` from the integer under `key`, counting from 0
    /// where the key is absent, and returns the difference.
    pub fn decrement(&mut self, key: &str, amount: i64) -> (r: i64)
        requires
            amount != i64::MIN,
            can_increment(old(self)@.attributes, key@, -amount),
        ensures
            r == counter(old(self)@.attributes, key@) - amount,
            final(self)@.attributes == old(self)@.attributes.insert(key@, ValueView::Int(r)),
            final(self)@.id == old(self)@.id,
            final(self)@.started == old(self)@.started,
    {
        self.increment(key, -amount)
    }

    fn keys_under(&self, list: &str) -> (r: Vec<String>)
        requires
            list_or_absent(self@.attributes, list@),
        ensures
            strings(r@) == listed(self@.attributes, list@),
    {
        match self.attributes.get(list) {
            Some(v) => match v.as_keys() {
                Some(keys) => keys,
                None => Vec::new(),
            },
            None => {
                let r: Vec<String> = Vec::new();
                assert(strings(r@) =~= Seq::<Seq<char>>::empty());
                r
            },
        }
    }

    fn mark(&mut self, list: &str, key: &str)
        requires
            array_or_absent(old(self)@.attributes, list@),
        ensures
            final(self)@.attributes == marked(old(self)@.attributes, list@, key@),
            final(self)@.id == old(self)@.id,
            final(self)@.started == old(self)@.started,
    {
        match self.take(list) {
            Some(Value::Array(items)) => {
                let mut items = items;
                let ghost before = items;
                items.push(Value::text(key));
                proof {
                    lemma_array_view(before);
                    lemma_array_view(items);
                    assert(Value::Array(items)@->Array_0 =~= Value::Array(before)@->Array_0.push(
                        ValueView::Text(key@),
                    ));
                }
                self.put(list, Value::Array(items));
                assert(self@.attributes =~= marked(old(self)@.attributes, list@, key@));
            },
            _ => {
                let mut keys: Vec<String> = Vec::new();
                keys.push(key.to_owned());
                assert(strings(keys@) =~= seq![key@]);
                self.put(list, Value::from_keys(&keys));
                assert(self@.attributes =~= marked(old(self)@.attributes, list@, key@));
            },
        }
    }

    fn strike_from_old(&mut self, keys: &Vec<String>)
        requires
            list_or_absent(old(self)@.attributes, flash_old_key()),
        ensures
            final(self)@.attributes == old(self)@.attributes.insert(
                flash_old_key(),
                list_value(
                    without(listed(old(self)@.attributes, flash_old_key()), strings(keys@)),
                ),
            ),
            final(self)@.id == old(self)@.id,
            final(self)@.started == old(self)@.started,
    {
        let old_keys = self.keys_under("_flash.old");
        let rest = list_without(&old_keys, keys);
        self.put("_flash.old", Value::from_keys(&rest));
    }

    fn merge_new_flashes(&mut self, keys: &Vec<String>)
        requires
            list_or_absent(old(self)@.attributes, flash_new_key()),
        ensures
            final(self)@.attributes == old(self)@.attributes.insert(
                flash_new_key(),
                list_value(unique(listed(old(self)@.attributes, flash_new_key()) + strings(keys@))),
            ),
            final(self)@.id == old(self)@.id,
            final(self)@.started == old(self)@.started,
    {
        let new_keys = self.keys_under("_flash.new");
        let all = list_joined(&new_keys, keys);
        let merged = list_unique(&all);
        self.put("_flash.new", Value::from_keys(&merged));
    }

    /// Sets `value` under `key` and flashes it: the key is listed as flashed
    /// in this cycle and struck from the list of the previous cycle.
    pub fn flash(&mut self, key: &str, value: Value)
        requires
            old(self)@.started,
            can_flash(old(self)@.attributes, key@, value@),
        ensures
            final(self)@.attributes == flashed_into(old(self)@.attributes, key@, value@),
            final(self)@.id == old(self)@.id,
            final(self)@.started == old(self)@.started,
    {
        self.put(key, value);
        self.mark("_flash.new", key);
        let mut keys: Vec<String> = Vec::new();
        keys.push(key.to_owned());
        assert(strings(keys@) =~= seq![key@]);
        self.strike_from_old(&keys);
    }

    /// Sets `value` under `key` and flashes it for the current request only.
    pub fn now(&mut self, key: &str, value: Value)
        requires
            can_flash_now(old(self)@.attributes, key@, value@),
        ensures
            final(self)@.attributes == flashed_now(old(self)@.attributes, key@, value@),
            final(self)@.id == old(self)@.id,
            final(self)@.started == old(self)@.started,
    {
        self.put(key, value);
        self.mark("_flash.old", key);
    }

    /// Flashes every key of the previous cycle again.
    pub fn reflash(&mut self)
        requires
            old(self)@.started,
            can_keep(old(self)@.attributes),
        ensures
            final(self)@.attributes == reflashed(old(self)@.attributes),
            final(self)@.id == old(self)@.id,
            final(self)@.started == old(self)@.started,
    {
        let old_keys = self.keys_under("_flash.old");
        self.merge_new_flashes(&old_keys);
        let none: Vec<String> = Vec::new();
        assert(strings(none@) =~= Seq::<Seq<char>>::empty());
        self.put("_flash.old", Value::from_keys(&none));
    }

    /// Flashes the given keys again.
    pub fn keep<K: IntoKey>(&mut self, keys: K)
        requires
            old(self)@.started,
            can_keep(old(self)@.attributes),
        ensures
            final(self)@.attributes == kept(old(self)@.attributes, keys.key_list()),
            final(self)@.id == old(self)@.id,
            final(self)@.started == old(self)@.started,
    {
        let keys = keys.get_keys();
        proof {
            lemma_reserved_keys_differ();
        }
        self.merge_new_flashes(&keys);
        self.strike_from_old(&keys);
    }

    fn age_flash_data(&mut self)
        requires
            old(self)@.started,
            can_age(old(self)@.attributes),
        ensures
            final(self)@.attributes == aged(old(self)@.attributes),
            final(self)@.id == old(self)@.id,
            final(self)@.started == old(self)@.started,
    {
        let old_keys = self.keys_under("_flash.old");
        self.forget_list(&old_keys);
        let new_keys = self.keys_under("_flash.new");
        self.put("_flash.old", Value::from_keys(&new_keys));
        let none: Vec<String> = Vec::new();
        assert(strings(none@) =~= Seq::<Seq<char>>::empty());
        self.put("_flash.new", Value::from_keys(&none));
    }

    /// The attributes that were flashed in this cycle.
    pub fn flashed(&self) -> (r: Attributes)
        requires
            self@.started,
            list_or_absent(self@.attributes, flash_new_key()),
        ensures
            r@ == self@.attributes.restrict(listed(self@.attributes, flash_new_key()).to_set()),
    {
        let keys = self.keys_under("_flash.new");
        self.only(keys)
    }

    /// The CSRF token, if one is held. What is held as the token must be a
    /// string.
    pub fn token(&self) -> (r: Option<String>)
        requires
            self@.started,
            text_or_absent(self@.attributes, token_key()),
        ensures
            match r {
                Some(t) => self@.attributes.contains_key(token_key()) && self@.attributes[token_key()]
                    == ValueView::Text(t@),
                None => !self@.attributes.contains_key(token_key()),
            },
    {
        self.text_under("_token")
    }

    /// The URL that the session remembers as the previous one, if any. What
    /// is held as that URL must be a string.
    pub fn previous_url(&self) -> (r: Option<String>)
        requires
            self@.started,
            text_or_absent(self@.attributes, previous_url_key()),
        ensures
            match r {
                Some(t) => self@.attributes.contains_key(previous_url_key())
                    && self@.attributes[previous_url_key()] == ValueView::Text(t@),
                None => !self@.attributes.contains_key(previous_url_key()),
            },
    {
        self.text_under("_previous.url")
    }

    fn text_under(&self, key: &str) -> (r: Option<String>)
        requires
            text_or_absent(self@.attributes, key@),
        ensures
            match r {
                Some(t) => self@.attributes.contains_key(key@) && self@.attributes[key@]
                    == ValueView::Text(t@),
                None => !self@.attributes.contains_key(key@),
            },
    {
        match self.attributes.get(key) {
            Some(Value::Text(t)) => Some(t.clone()),
            _ => None,
        }
    }

    /// Remembers `url` as the previous URL.
    pub fn set_previous_url(&mut self, url: String)
        ensures
            final(self)@.attributes == old(self)@.attributes.insert(
                previous_url_key(),
                ValueView::Text(url@),
            ),
            final(self)@.id == old(self)@.id,
            final(self)@.started == old(self)@.started,
    {
        self.put("_previous.url", Value::Text(url));
    }

    /// Starts the session: binds it to `id`, lays `attributes` over what it
    /// holds and makes sure that it holds a CSRF token. A session that is
    /// started already is left as it is, and the call fails.
    pub fn start(&mut self, id: Option<String>, attributes: Attributes) -> (r: Result<(), Error>)
        ensures
            old(self)@.started ==> r == Err::<(), Error>(Error::AlreadyStarted) && final(self)@
                == old(self)@,
            !old(self)@.started ==> {
                &&& r is Ok
                &&& final(self)@.started
                &&& id_taken(optional_text(id), final(self)@.id)
                &&& id is Some ==> (final(self)@.id == id->Some_0@ <==> valid_id(id->Some_0@))
                &&& token_ensured(
                    merged(old(self)@.attributes, attributes@),
                    final(self)@.attributes,
                )
            },
    {
        if self.started {
            return Err(Error::AlreadyStarted);
        }
        self.set_id(id);
        self.merge(&attributes);
        let has_token = self.has("_token");
        proof {
            let keys = seq![token_key()];
            assert(keys[0] == token_key());
            assert(has_token == holds(self@.attributes, token_key()));
        }
        if !has_token {
            self.regenerate_token();
        }
        proof {
            use_type_invariant(&*self);
        }
        self.started = true;
        Ok(())
    }

    fn merge(&mut self, attributes: &Attributes)
        ensures
            final(self)@.attributes == merged(old(self)@.attributes, attributes@),
            final(self)@.id == old(self)@.id,
            final(self)@.started == old(self)@.started,
    {
        proof {
            use_type_invariant(&*self);
        }
        let mut held = Attributes::new();
        core::mem::swap(&mut self.attributes, &mut held);
        held.merge(attributes);
        self.attributes = held;
    }

    /// Ends the session: ages the flash data, hands the attributes out for
    /// persisting and leaves the session empty and not started.
    pub fn end(&mut self) -> (r: Result<Attributes, Error>)
        requires
            old(self)@.started,
            can_age(old(self)@.attributes),
        ensures
            r is Ok,
            r->Ok_0@ == aged(old(self)@.attributes),
            final(self)@.attributes == AttributeMap::empty(),
            !final(self)@.started,
            final(self)@.id == old(self)@.id,
    {
        self.age_flash_data();
        proof {
            use_type_invariant(&*self);
        }
        self.started = false;
        let mut attributes = Attributes::new();
        core::mem::swap(&mut self.attributes, &mut attributes);
        Ok(attributes)
    }

    /// Gives the session a fresh identifier. Where `destroy` is set, the
    /// identifier that the session had is returned: what is persisted under
    /// it is to be destroyed.
    pub fn migrate(&mut self, destroy: bool) -> (r: Option<String>)
        ensures
            valid_id(final(self)@.id),
            optional_text(r) == if destroy {
                Some(old(self)@.id)
            } else {
                None::<Seq<char>>
            },
            final(self)@.attributes == old(self)@.attributes,
            final(self)@.started == old(self)@.started,
    {
        let previous = self.id();
        self.set_id(None);
        if destroy {
            Some(previous)
        } else {
            None
        }
    }

    /// Gives the session a fresh identifier and a fresh CSRF token. Where
    /// `destroy` is set, the identifier that the session had is returned.
    pub fn regenerate(&mut self, destroy: bool) -> (r: Option<String>)
        ensures
            valid_id(final(self)@.id),
            optional_text(r) == if destroy {
                Some(old(self)@.id)
            } else {
                None::<Seq<char>>
            },
            token_renewed(old(self)@.attributes, final(self)@.attributes),
            final(self)@.started == old(self)@.started,
    {
        let previous = self.migrate(destroy);
        self.regenerate_token();
        proof {
            use_type_invariant(&*self);
        }
        previous
    }

    /// Resets the session: takes every attribute out and gives it a fresh
    /// identifier. The identifier that the session had is returned: what is
    /// persisted under it is to be destroyed.
    pub fn invalidate(&mut self) -> (r: String)
        ensures
            r@ == old(self)@.id,
            valid_id(final(self)@.id),
            final(self)@.attributes == AttributeMap::empty(),
            final(self)@.started == old(self)@.started,
    {
        self.flush();
        let previous = self.id();
        self.set_id(None);
        previous
    }

    /// Whether `push` can be called on `key`: it holds an array or nothing.
    pub fn can_push(&self, key: &str) -> (r: bool)
        ensures
            r == array_or_absent(self@.attributes, key@),
    {
        match self.attributes.get(key) {
            Some(v) => v.is_array(),
            None => true,
        }
    }

    /// Whether `increment` can be called on `key` with `amount`.
    pub fn can_increment(&self, key: &str, amount: i64) -> (r: bool)
        ensures
            r == can_increment(self@.attributes, key@, amount as int),
    {
        match self.attributes.get(key) {
            Some(Value::Int(n)) => n.checked_add(amount).is_some(),
            Some(_) => false,
            None => true,
        }
    }

    /// Whether `decrement` can be called on `key` with `amount`.
    pub fn can_decrement(&self, key: &str, amount: i64) -> (r: bool)
        ensures
            r == (amount != i64::MIN && can_increment(self@.attributes, key@, -amount)),
    {
        if amount == i64::MIN {
            return false;
        }
        self.can_increment(key, -amount)
    }

    fn holds_list_or_nothing(&self, key: &str) -> (r: bool)
        ensures
            r == list_or_absent(self@.attributes, key@),
    {
        match self.attributes.get(key) {
            Some(v) => v.as_keys().is_some(),
            None => true,
        }
    }

    fn holds_text_or_nothing(&self, key: &str) -> (r: bool)
        ensures
            r == text_or_absent(self@.attributes, key@),
    {
        match self.attributes.get(key) {
            Some(Value::Text(_)) => true,
            Some(_) => false,
            None => true,
        }
    }

    /// Whether `flash` can be called with `key` and `value`.
    pub fn can_flash(&self, key: &str, value: &Value) -> (r: bool)
        ensures
            r == can_flash(self@.attributes, key@, value@),
    {
        proof {
            lemma_reserved_keys_differ();
        }
        let new_ok = if str_eq(key, "_flash.new") {
            value.is_array()
        } else {
            self.can_push("_flash.new")
        };
        let old_ok = if str_eq(key, "_flash.old") {
            value.as_keys().is_some()
        } else {
            self.holds_list_or_nothing("_flash.old")
        };
        new_ok && old_ok
    }

    /// Whether `now` can be called with `key` and `value`.
    pub fn can_flash_now(&self, key: &str, value: &Value) -> (r: bool)
        ensures
            r == can_flash_now(self@.attributes, key@, value@),
    {
        if str_eq(key, "_flash.old") {
            value.is_array()
        } else {
            self.can_push("_flash.old")
        }
    }

    /// Whether `keep`, `reflash` and `flashed` can be called: both flash
    /// lists are arrays of strings or absent.
    pub fn can_keep(&self) -> (r: bool)
        ensures
            r == can_keep(self@.attributes),
    {
        self.holds_list_or_nothing("_flash.new") && self.holds_list_or_nothing("_flash.old")
    }

    /// Whether the flash data can age, so that `end` can be called.
    pub fn can_end(&self) -> (r: bool)
        ensures
            r == can_age(self@.attributes),
    {
        proof {
            lemma_reserved_keys_differ();
        }
        if !self.holds_list_or_nothing("_flash.old") {
            return false;
        }
        let old_keys = self.keys_under("_flash.old");
        if list_contains(&old_keys, "_flash.new") {
            assert(listed(self@.attributes, flash_old_key()).to_set().contains(flash_new_key()));
            true
        } else {
            assert(!listed(self@.attributes, flash_old_key()).to_set().contains(flash_new_key()));
            self.holds_list_or_nothing("_flash.new")
        }
    }

    /// Whether `token` can be called: what is held as the token is a string
    /// or nothing.
    pub fn can_read_token(&self) -> (r: bool)
        ensures
            r == text_or_absent(self@.attributes, token_key()),
    {
        self.holds_text_or_nothing("_token")
    }

    /// Whether `previous_url` can be called: what is held as the previous
    /// URL is a string or nothing.
    pub fn can_read_previous_url(&self) -> (r: bool)
        ensures
            r == text_or_absent(self@.attributes, previous_url_key()),
    {
        self.holds_text_or_nothing("_previous.url")
    }
}

/// One key or several, as the functions of a session take them.
pub trait IntoKey {
    /// The keys that the value stands for.
    spec fn key_list(&self) -> Seq<Seq<char>>;

    /// The keys as a list of strings.
    fn get_keys(&self) -> (r: Vec<String>)
        ensures
            strings(r@) == self.key_list(),
    ;
}

impl IntoKey for &str {
    open spec fn key_list(&self) -> Seq<Seq<char>> {
        seq![self@]
    }

    fn get_keys(&self) -> (r: Vec<String>) {
        let mut r: Vec<String> = Vec::new();
        r.push((*self).to_owned());
        assert(strings(r@) =~= seq![self@]);
        r
    }
}

impl IntoKey for String {
    open spec fn key_list(&self) -> Seq<Seq<char>> {
        seq![self@]
    }

    fn get_keys(&self) -> (r: Vec<String>) {
        let mut r: Vec<String> = Vec::new();
        r.push(self.clone());
        assert(strings(r@) =~= seq![self@]);
        r
    }
}

impl IntoKey for Vec<String> {
    open spec fn key_list(&self) -> Seq<Seq<char>> {
        strings(self@)
    }

    fn get_keys(&self) -> (r: Vec<String>) {
        clone_list(self)
    }
}

impl IntoKey for Vec<&str> {
    open spec fn key_list(&self) -> Seq<Seq<char>> {
        Seq::new(self@.len(), |i: int| self@[i]@)
    }

    fn get_keys(&self) -> (r: Vec<String>) {
        let mut r: Vec<String> = Vec::new();
        let mut i: usize = 0;
        while i < self.len()
            invariant
                i <= self@.len(),
                r@.len() == i,
                forall|j: int| 0 <= j < i ==> (#[trigger] r@[j])@ == self@[j]@,
            decreases self@.len() - i,
        {
            r.push(self[i].to_owned());
            i += 1;
        }
        assert(strings(r@) =~= self.key_list());
        r
    }
}

} // verus!
