//! What holds of sessions over several requests, of their identifiers and
//! of the garbage-collection lottery.

use crate::middleware::wins;
use crate::session::{
    aged, can_age, flash_new_key, flash_old_key, flashed_into, flashed_now, holds,
    id_taken, lemma_reserved_keys_differ, list_or_absent, listed, marked, merged, token_ensured,
    token_key, valid_id, AttributeMap,
};
use crate::text::without;
use crate::value::{lemma_string_list_of_list_value, list_value, string_list, ValueView};
use vstd::prelude::*;

verus! {

/// The attributes with which the next request starts: those that the session
/// hands out when it ends, with `token` as the CSRF token where none was
/// held.
pub open spec fn carried_over(m: AttributeMap, token: Seq<char>) -> AttributeMap {
    if holds(aged(m), token_key()) {
        aged(m)
    } else {
        aged(m).insert(token_key(), ValueView::Text(token))
    }
}

/// The attributes after as many further requests as `tokens` has items, each
/// of which ends and hands its attributes to the next; `tokens` holds the
/// token that each start would generate.
pub open spec fn after_requests(m: AttributeMap, tokens: Seq<Seq<char>>) -> AttributeMap
    decreases tokens.len(),
{
    if tokens.len() == 0 {
        m
    } else {
        carried_over(after_requests(m, tokens.drop_last()), tokens.last())
    }
}

/// Whether `key` is none of the keys that the session keeps for itself.
pub open spec fn unreserved(key: Seq<char>) -> bool {
    key != token_key() && key != flash_new_key() && key != flash_old_key()
}

/// What is left after striking `gone` from `s` is what `s` holds and `gone`
/// does not.
pub proof fn lemma_without_holds(s: Seq<Seq<char>>, gone: Seq<Seq<char>>, x: Seq<char>)
    ensures
        without(s, gone).contains(x) <==> s.contains(x) && !gone.contains(x),
    decreases s.len(),
{
    if s.len() > 0 {
        let head = s.drop_last();
        lemma_without_holds(head, gone, x);
        if s.contains(x) {
            let i = choose|i: int| 0 <= i < s.len() && s[i] == x;
            if i < head.len() {
                assert(head[i] == x);
            }
        }
        if head.contains(x) {
            let i = choose|i: int| 0 <= i < head.len() && head[i] == x;
            assert(s[i] == x);
        }
        assert(s[s.len() - 1] == s.last());
        if !gone.contains(s.last()) {
            let w = without(head, gone);
            let t = w.push(s.last());
            if t.contains(x) {
                let i = choose|i: int| 0 <= i < t.len() && t[i] == x;
                if i < w.len() {
                    assert(w[i] == x);
                }
            }
            if w.contains(x) {
                let i = choose|i: int| 0 <= i < w.len() && w[i] == x;
                assert(t[i] == x);
            }
            assert(t[t.len() - 1] == s.last());
        }
    }
}

/// Marking a key in a list of strings appends it to what is listed.
pub proof fn lemma_marked_listed(m: AttributeMap, list: Seq<char>, key: Seq<char>)
    requires
        list_or_absent(m, list),
    ensures
        listed(marked(m, list, key), list) == listed(m, list).push(key),
        list_or_absent(marked(m, list, key), list),
        marked(m, list, key).dom() == m.dom().insert(list),
        forall|k: Seq<char>| k != list && m.contains_key(k) ==> marked(m, list, key)[k] == m[k],
{
    let after = marked(m, list, key);
    if m.contains_key(list) {
        let items = m[list]->Array_0;
        let grown = items.push(ValueView::Text(key));
        assert(after[list] == ValueView::Array(grown));
        assert forall|i: int| 0 <= i < grown.len() implies #[trigger] grown[i] is Text by {
            if i < items.len() {
                assert(items[i] is Text);
            }
        }
        assert(string_list(after[list])->Some_0 =~= string_list(m[list])->Some_0.push(key));
    } else {
        lemma_string_list_of_list_value(seq![key]);
        assert(listed(m, list).push(key) =~= seq![key]);
    }
    assert(after.dom() =~= m.dom().insert(list));
}

/// Aging leaves the flash lists as arrays of strings, so that the data can
/// age again; the keys of this cycle become those of the previous one.
pub proof fn lemma_aged_lists(m: AttributeMap)
    ensures
        can_age(aged(m)),
        listed(aged(m), flash_new_key()) == Seq::<Seq<char>>::empty(),
        listed(aged(m), flash_old_key()) == listed(
            m.remove_keys(listed(m, flash_old_key()).to_set()),
            flash_new_key(),
        ),
{
    lemma_reserved_keys_differ();
    let purged = m.remove_keys(listed(m, flash_old_key()).to_set());
    lemma_string_list_of_list_value(listed(purged, flash_new_key()));
    lemma_string_list_of_list_value(Seq::<Seq<char>>::empty());
}

/// A key that the session does not keep for itself and that is absent stays
/// absent over any number of further requests.
pub proof fn law_absent_stays_absent(m: AttributeMap, key: Seq<char>, tokens: Seq<Seq<char>>)
    requires
        unreserved(key),
        !m.contains_key(key),
    ensures
        !after_requests(m, tokens).contains_key(key),
    decreases tokens.len(),
{
    if tokens.len() > 0 {
        law_absent_stays_absent(m, key, tokens.drop_last());
    }
}

/// A key that the previous cycle lists is gone after one further request,
/// and stays gone.
pub proof fn lemma_listed_old_expires(m: AttributeMap, key: Seq<char>, tokens: Seq<Seq<char>>)
    requires
        unreserved(key),
        listed(m, flash_old_key()).contains(key),
        tokens.len() >= 1,
    ensures
        !after_requests(m, tokens).contains_key(key),
    decreases tokens.len(),
{
    if tokens.len() == 1 {
        reveal_with_fuel(after_requests, 2);
        assert(tokens.drop_last().len() == 0);
        assert(after_requests(m, tokens) == carried_over(m, tokens.last()));
        assert(listed(m, flash_old_key()).to_set().contains(key));
    } else {
        lemma_listed_old_expires(m, key, tokens.drop_last());
    }
}

/// A flashed value lasts for two requests. After `flash(key, value)` the
/// session holds `value` under `key`; it still does in the request that
/// follows; in every later request `key` is absent.
///
/// This is said of keys that the session does not keep for itself, of flash
/// lists that are arrays of strings, and of a list of the previous cycle that
/// does not name the list of this cycle.
pub proof fn law_flash_lasts_two_requests(
    m: AttributeMap,
    key: Seq<char>,
    value: ValueView,
    tokens: Seq<Seq<char>>,
)
    requires
        unreserved(key),
        list_or_absent(m, flash_new_key()),
        list_or_absent(m, flash_old_key()),
        !listed(m, flash_old_key()).contains(flash_new_key()),
    ensures
        flashed_into(m, key, value).contains_key(key),
        flashed_into(m, key, value)[key] == value,
        can_age(flashed_into(m, key, value)),
        tokens.len() == 1 ==> after_requests(flashed_into(m, key, value), tokens).contains_key(key)
            && after_requests(flashed_into(m, key, value), tokens)[key] == value,
        tokens.len() >= 2 ==> !after_requests(flashed_into(m, key, value), tokens).contains_key(
            key,
        ),
{
    lemma_reserved_keys_differ();
    let newk = flash_new_key();
    let oldk = flash_old_key();
    let m1 = m.insert(key, value);
    let set = marked(m1, newk, key);
    lemma_marked_listed(m1, newk, key);
    let struck = without(listed(set, oldk), seq![key]);
    let f = flashed_into(m, key, value);
    assert(f == set.insert(oldk, list_value(struck)));
    lemma_string_list_of_list_value(struck);
    assert(listed(f, oldk) == struck);
    assert(listed(set, oldk) == listed(m, oldk));
    lemma_without_holds(listed(set, oldk), seq![key], key);
    lemma_without_holds(listed(set, oldk), seq![key], newk);
    assert(seq![key][0] == key);
    assert(!struck.contains(key));
    assert(!struck.contains(newk));
    assert(f[newk] == set[newk]);
    assert(listed(f, newk) == listed(m1, newk).push(key));
    let fresh = listed(f, newk);
    assert(fresh[fresh.len() - 1] == key);
    assert(fresh.contains(key));
    // The first aging keeps the key and lists it for the previous cycle.
    let purged = f.remove_keys(struck.to_set());
    assert(purged.contains_key(key) && purged[key] == value);
    assert(purged.contains_key(newk) && purged[newk] == f[newk]);
    assert(listed(purged, newk) == fresh);
    lemma_aged_lists(f);
    let a = aged(f);
    assert(a.contains_key(key) && a[key] == value);
    assert(listed(a, oldk) == fresh);
    if tokens.len() >= 1 {
        let first = carried_over(f, tokens[0]);
        assert(first.contains_key(key) && first[key] == value);
        assert(listed(first, oldk) == fresh);
        assert(after_requests(f, tokens.take(1)) == first) by {
            reveal_with_fuel(after_requests, 2);
            assert(tokens.take(1).drop_last().len() == 0);
            assert(tokens.take(1).last() == tokens[0]);
        }
        if tokens.len() == 1 {
            assert(tokens.take(1) =~= tokens);
        } else {
            lemma_after_requests_split(f, tokens, 1);
            lemma_listed_old_expires(first, key, tokens.skip(1));
        }
    }
}

/// Going through the requests of `tokens` is going through the first `n` of
/// them and then through the rest.
pub proof fn lemma_after_requests_split(m: AttributeMap, tokens: Seq<Seq<char>>, n: int)
    requires
        0 <= n <= tokens.len(),
    ensures
        after_requests(m, tokens) == after_requests(
            after_requests(m, tokens.take(n)),
            tokens.skip(n),
        ),
    decreases tokens.len(),
{
    if n == tokens.len() {
        assert(tokens.take(n) =~= tokens);
        assert(tokens.skip(n).len() == 0);
    } else {
        lemma_after_requests_split(m, tokens.drop_last(), n);
        assert(tokens.drop_last().take(n) =~= tokens.take(n));
        assert(tokens.drop_last().skip(n) =~= tokens.skip(n).drop_last());
        assert(tokens.skip(n).last() == tokens.last());
    }
}

/// A value flashed for the current request lasts for that request only.
/// After `now(key, value)` the session holds `value` under `key`; in every
/// later request `key` is absent.
///
/// This is said of keys that the session does not keep for itself and of a
/// list of the previous cycle that is an array of strings.
pub proof fn law_now_lasts_one_request(
    m: AttributeMap,
    key: Seq<char>,
    value: ValueView,
    tokens: Seq<Seq<char>>,
)
    requires
        unreserved(key),
        list_or_absent(m, flash_old_key()),
    ensures
        flashed_now(m, key, value).contains_key(key),
        flashed_now(m, key, value)[key] == value,
        tokens.len() >= 1 ==> !after_requests(flashed_now(m, key, value), tokens).contains_key(key),
{
    lemma_reserved_keys_differ();
    let oldk = flash_old_key();
    let m1 = m.insert(key, value);
    lemma_marked_listed(m1, oldk, key);
    let n = flashed_now(m, key, value);
    let due = listed(n, oldk);
    assert(due == listed(m1, oldk).push(key));
    assert(due[due.len() - 1] == key);
    assert(due.contains(key));
    if tokens.len() >= 1 {
        lemma_listed_old_expires(n, key, tokens);
    }
}

/// What a session holds when the next request has started it is what it
/// held when the previous request ended, carried over.
///
/// `held` is what the session held before `end`; `after` is what a session
/// that held nothing holds once `start` was called with the attributes that
/// `end` handed out.
pub proof fn law_start_after_end_carries_over(held: AttributeMap, after: AttributeMap)
    requires
        token_ensured(
            merged(Map::empty(), aged(held)),
            after,
        ),
    ensures
        exists|token: Seq<char>| after == #[trigger] carried_over(held, token),
{
    let given = merged(Map::empty(), aged(held));
    assert(given =~= aged(held));
    if holds(aged(held), token_key()) {
        assert(after == carried_over(held, Seq::<char>::empty()));
    } else {
        let token = choose|t: Seq<char>| #[trigger]
            valid_id(t) && after == given.insert(token_key(), ValueView::Text(t));
        assert(after == carried_over(held, token));
    }
}

/// An identifier that is offered to a session becomes its identifier if and
/// only if it is valid: exactly 40 ASCII letters and digits. The identifier
/// of the session is valid either way.
pub proof fn law_offered_id_is_kept_iff_valid(offered: Seq<char>, id: Seq<char>)
    requires
        id_taken(Some(offered), id),
    ensures
        id == offered <==> valid_id(offered),
        valid_id(id),
{
}

/// The number of draws from 1 up to, but without, `upto` that win the
/// lottery.
pub open spec fn winning_draws(lottery: [u8; 2], upto: int) -> int
    decreases upto,
{
    if upto <= 1 {
        0
    } else if wins((upto - 1) as u8, lottery) {
        winning_draws(lottery, upto - 1) + 1
    } else {
        winning_draws(lottery, upto - 1)
    }
}

/// Of the draws that the lottery can give, from 1 up to but without its
/// second number, as many win as its first number says, and all of them
/// where there are fewer.
pub proof fn law_lottery_winning_draws(lottery: [u8; 2], upto: int)
    requires
        1 <= upto <= lottery[1],
    ensures
        winning_draws(lottery, upto) == if lottery[0] < upto - 1 {
            lottery[0] as int
        } else {
            upto - 1
        },
    decreases upto,
{
    if upto > 1 {
        law_lottery_winning_draws(lottery, upto - 1);
    }
}

} // verus!
