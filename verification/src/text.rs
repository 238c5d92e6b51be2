//! Small verified helpers on strings.

use vstd::prelude::*;
use vstd::std_specs::iter::IteratorSpec;

verus! {

/// Whether `c` is an ASCII letter or digit.
pub open spec fn is_alphanumeric(c: char) -> bool {
    ||| 'a' <= c <= 'z'
    ||| 'A' <= c <= 'Z'
    ||| '0' <= c <= '9'
}

/// Whether every character of `s` is an ASCII letter or digit.
pub open spec fn all_alphanumeric(s: Seq<char>) -> bool {
    forall|i: int| 0 <= i < s.len() ==> is_alphanumeric(#[trigger] s[i])
}

/// Tests a single character for being an ASCII letter or digit.
pub fn char_is_alphanumeric(c: char) -> (r: bool)
    ensures
        r == is_alphanumeric(c),
{
    ('a' <= c && c <= 'z') || ('A' <= c && c <= 'Z') || ('0' <= c && c <= '9')
}

/// Tests a string for consisting of ASCII letters and digits only.
pub fn str_all_alphanumeric(s: &str) -> (r: bool)
    ensures
        r == all_alphanumeric(s@),
{
    let mut it = s.chars();
    let ghost mut seen: Seq<char> = Seq::empty();
    assert(seen + it.remaining() =~= s@);
    loop
        invariant
            seen + it.remaining() == s@,
            all_alphanumeric(seen),
            it.decrease() is Some,
        ensures
            seen == s@,
        decreases it.decrease()->0,
    {
        let ghost rest = it.remaining();
        match it.next() {
            Some(c) => {
                proof {
                    assert(seen.push(c) + it.remaining() =~= seen + rest);
                    assert(s@[seen.len() as int] == c);
                }
                if !char_is_alphanumeric(c) {
                    return false;
                }
                proof {
                    seen = seen.push(c);
                }
            },
            None => {
                assert(seen =~= s@);
                break;
            },
        }
    }
    true
}

/// Compares two strings character by character.
pub fn str_eq(a: &str, b: &str) -> (r: bool)
    ensures
        r == (a@ == b@),
{
    let x = a.to_owned();
    let y = b.to_owned();
    x == y
}

/// The concatenation of two strings.
pub fn joined(a: &str, b: &str) -> (r: String)
    ensures
        r@ == a@ + b@,
{
    let mut r = a.to_owned();
    r.append(b);
    r
}

/// The concatenation of three strings.
pub fn joined3(a: &str, b: &str, c: &str) -> (r: String)
    ensures
        r@ == a@ + b@ + c@,
{
    let mut r = a.to_owned();
    r.append(b);
    r.append(c);
    r
}

/// The characters of an optional string.
pub open spec fn optional_text(s: Option<String>) -> Option<Seq<char>> {
    match s {
        Some(t) => Some(t@),
        None => None,
    }
}

/// A copy of an optional string.
pub fn clone_optional_text(s: &Option<String>) -> (r: Option<String>)
    ensures
        optional_text(r) == optional_text(*s),
{
    match s {
        Some(t) => Some(t.clone()),
        None => None,
    }
}

/// The strings of a list, each by its characters.
pub open spec fn strings(v: Seq<String>) -> Seq<Seq<char>> {
    Seq::new(v.len(), |i: int| v[i]@)
}

/// Whether `s` occurs in the list `v`.
pub fn list_contains(v: &Vec<String>, s: &str) -> (r: bool)
    ensures
        r == strings(v@).contains(s@),
{
    let mut i: usize = 0;
    while i < v.len()
        invariant
            i <= v@.len(),
            forall|j: int| 0 <= j < i ==> strings(v@)[j] != s@,
        decreases v@.len() - i,
    {
        if str_eq(v[i].as_str(), s) {
            assert(strings(v@)[i as int] == s@);
            return true;
        }
        i += 1;
    }
    false
}

/// A copy of a list of strings.
pub fn clone_list(v: &Vec<String>) -> (r: Vec<String>)
    ensures
        strings(r@) == strings(v@),
{
    let mut out: Vec<String> = Vec::new();
    let mut i: usize = 0;
    while i < v.len()
        invariant
            i <= v@.len(),
            out@.len() == i,
            forall|j: int| 0 <= j < i ==> out@[j]@ == v@[j]@,
        decreases v@.len() - i,
    {
        out.push(v[i].clone());
        i += 1;
    }
    assert(strings(out@) =~= strings(v@));
    out
}

/// The items of `s` that do not occur in `gone`, in their order.
pub open spec fn without<T>(s: Seq<T>, gone: Seq<T>) -> Seq<T>
    decreases s.len(),
{
    if s.len() == 0 {
        s
    } else if gone.contains(s.last()) {
        without(s.drop_last(), gone)
    } else {
        without(s.drop_last(), gone).push(s.last())
    }
}

/// The strings of `s`, each once, in the order of their first occurrence.
pub open spec fn unique(s: Seq<Seq<char>>) -> Seq<Seq<char>>
    decreases s.len(),
{
    if s.len() == 0 {
        s
    } else if unique(s.drop_last()).contains(s.last()) {
        unique(s.drop_last())
    } else {
        unique(s.drop_last()).push(s.last())
    }
}

/// The set of the first `i + 1` items of a list is the set of the first `i`
/// with the item at `i` added.
pub proof fn lemma_take_to_set(s: Seq<Seq<char>>, i: int)
    requires
        0 <= i < s.len(),
    ensures
        s.take(i + 1).to_set() == s.take(i).to_set().insert(s[i]),
{
    let a = s.take(i + 1);
    let b = s.take(i);
    assert forall|x: Seq<char>| a.to_set().contains(x) <==> b.to_set().insert(s[i]).contains(
        x,
    ) by {
        if a.contains(x) {
            let j = choose|j: int| 0 <= j < a.len() && #[trigger] a[j] == x;
            if j < i {
                assert(b[j] == x);
            }
        }
        if b.contains(x) {
            let j = choose|j: int| 0 <= j < b.len() && #[trigger] b[j] == x;
            assert(a[j] == x);
        }
        if x == s[i] {
            assert(a[i] == x);
        }
    }
    assert(a.to_set() =~= b.to_set().insert(s[i]));
}

/// The strings of `list` that do not occur in `gone`, in their order.
pub fn list_without(list: &Vec<String>, gone: &Vec<String>) -> (r: Vec<String>)
    ensures
        strings(r@) == without(strings(list@), strings(gone@)),
{
    let ghost all = strings(list@);
    let mut out: Vec<String> = Vec::new();
    let mut i: usize = 0;
    assert(all.take(0) =~= Seq::<Seq<char>>::empty());
    assert(strings(out@) =~= Seq::<Seq<char>>::empty());
    while i < list.len()
        invariant
            i <= list@.len(),
            all == strings(list@),
            strings(out@) == without(all.take(i as int), strings(gone@)),
        decreases list@.len() - i,
    {
        let ghost before = strings(out@);
        proof {
            assert(all.take(i + 1).drop_last() =~= all.take(i as int));
            assert(all.take(i + 1).last() == list@[i as int]@);
        }
        if !list_contains(gone, list[i].as_str()) {
            out.push(list[i].clone());
            assert(strings(out@) =~= before.push(list@[i as int]@));
        }
        i += 1;
    }
    assert(all.take(i as int) =~= all);
    out
}

/// The strings of `list`, each once, in the order of their first occurrence.
pub fn list_unique(list: &Vec<String>) -> (r: Vec<String>)
    ensures
        strings(r@) == unique(strings(list@)),
{
    let ghost all = strings(list@);
    let mut out: Vec<String> = Vec::new();
    let mut i: usize = 0;
    assert(all.take(0) =~= Seq::<Seq<char>>::empty());
    assert(strings(out@) =~= Seq::<Seq<char>>::empty());
    while i < list.len()
        invariant
            i <= list@.len(),
            all == strings(list@),
            strings(out@) == unique(all.take(i as int)),
        decreases list@.len() - i,
    {
        let ghost before = strings(out@);
        proof {
            assert(all.take(i + 1).drop_last() =~= all.take(i as int));
            assert(all.take(i + 1).last() == list@[i as int]@);
        }
        if !list_contains(&out, list[i].as_str()) {
            out.push(list[i].clone());
            assert(strings(out@) =~= before.push(list@[i as int]@));
        }
        i += 1;
    }
    assert(all.take(i as int) =~= all);
    out
}

/// The strings of `a` followed by those of `b`.
pub fn list_joined(a: &Vec<String>, b: &Vec<String>) -> (r: Vec<String>)
    ensures
        strings(r@) == strings(a@) + strings(b@),
{
    let mut out = clone_list(a);
    let mut i: usize = 0;
    assert(strings(b@).take(0) =~= Seq::<Seq<char>>::empty());
    assert(strings(a@) + Seq::<Seq<char>>::empty() =~= strings(a@));
    while i < b.len()
        invariant
            i <= b@.len(),
            strings(out@) == strings(a@) + strings(b@).take(i as int),
        decreases b@.len() - i,
    {
        let ghost before = strings(out@);
        out.push(b[i].clone());
        proof {
            assert(strings(out@) =~= before.push(b@[i as int]@));
            assert(strings(b@).take(i + 1) =~= strings(b@).take(i as int).push(b@[i as int]@));
            assert(strings(out@) =~= strings(a@) + strings(b@).take(i + 1));
        }
        i += 1;
    }
    assert(strings(b@).take(i as int) =~= strings(b@));
    out
}

/// `s` without the run of `c` at its end.
pub open spec fn trimmed_end(s: Seq<char>, c: char) -> Seq<char>
    decreases s.len(),
{
    if s.len() > 0 && s.last() == c {
        trimmed_end(s.drop_last(), c)
    } else {
        s
    }
}

/// The longest part at the end of `s` that holds no `c`.
pub open spec fn tail_without(s: Seq<char>, c: char) -> Seq<char>
    decreases s.len(),
{
    if s.len() == 0 || s.last() == c {
        Seq::empty()
    } else {
        tail_without(s.drop_last(), c).push(s.last())
    }
}

/// The last of the parts that `c` separates `s` into and that are not
/// empty; none where every part is empty.
pub open spec fn last_segment(s: Seq<char>, c: char) -> Option<Seq<char>> {
    if trimmed_end(s, c).len() == 0 {
        None
    } else {
        Some(tail_without(trimmed_end(s, c), c))
    }
}

/// The last of the parts that `c` separates `s` into and that are not
/// empty, if there is one.
pub fn last_segment_of(s: &str, c: char) -> (r: Option<String>)
    ensures
        optional_text(r) == last_segment(s@, c),
{
    let n: usize = s.unicode_len();
    let mut end: usize = n;
    assert(s@.take(n as int) =~= s@);
    while end > 0 && s.get_char(end - 1) == c
        invariant
            end <= n,
            n == s@.len(),
            trimmed_end(s@, c) == trimmed_end(s@.take(end as int), c),
        decreases end,
    {
        assert(s@.take(end as int).drop_last() =~= s@.take(end - 1));
        end -= 1;
    }
    if end == 0 {
        return None;
    }
    let ghost trimmed = s@.take(end as int);
    assert(trimmed.last() == s@[end - 1]);
    assert(trimmed_end(trimmed, c) == trimmed);
    let mut start: usize = end;
    assert(s@.subrange(end as int, end as int) =~= Seq::<char>::empty());
    assert(tail_without(trimmed, c) + Seq::<char>::empty() =~= tail_without(trimmed, c));
    while start > 0 && s.get_char(start - 1) != c
        invariant
            start <= end <= n,
            n == s@.len(),
            trimmed == s@.take(end as int),
            tail_without(trimmed, c) == tail_without(s@.take(start as int), c) + s@.subrange(
                start as int,
                end as int,
            ),
        decreases start,
    {
        proof {
            let head = s@.take(start as int);
            assert(head.last() == s@[start - 1]);
            assert(head.drop_last() =~= s@.take(start - 1));
            assert(tail_without(head, c) == tail_without(s@.take(start - 1), c).push(
                s@[start - 1],
            ));
            assert(tail_without(s@.take(start - 1), c).push(s@[start - 1]) + s@.subrange(
                start as int,
                end as int,
            ) =~= tail_without(s@.take(start - 1), c) + s@.subrange(start - 1, end as int));
        }
        start -= 1;
    }
    proof {
        let head = s@.take(start as int);
        if start > 0 {
            assert(head.last() == s@[start - 1]);
        }
        assert(tail_without(head, c) =~= Seq::<char>::empty());
        assert(Seq::<char>::empty() + s@.subrange(start as int, end as int) =~= s@.subrange(
            start as int,
            end as int,
        ));
    }
    Some(s.substring_char(start, end).to_owned())
}

/// The parts that `c` separates `s` into, in their order. There is always
/// one part at least; between two neighbouring `c` and at an end there is an
/// empty one.
pub open spec fn split_on(s: Seq<char>, c: char) -> Seq<Seq<char>>
    decreases s.len(),
{
    if s.len() == 0 {
        seq![Seq::empty()]
    } else if s.last() == c {
        split_on(s.drop_last(), c).push(Seq::empty())
    } else {
        let parts = split_on(s.drop_last(), c);
        parts.drop_last().push(parts.last().push(s.last()))
    }
}

/// Calls `String::push`.
///
/// Trusted: the character is appended to the string.
#[verifier::external_body]
fn push_char(s: &mut String, c: char)
    ensures
        final(s)@ == old(s)@.push(c),
{
    s.push(c)
}

/// The parts that `c` separates `s` into, in their order.
pub fn split(s: &str, c: char) -> (r: Vec<String>)
    ensures
        strings(r@) == split_on(s@, c),
{
    let mut parts: Vec<String> = Vec::new();
    let mut current = String::new();
    let mut it = s.chars();
    let ghost mut seen: Seq<char> = Seq::empty();
    assert(seen + it.remaining() =~= s@);
    assert(strings(parts@).push(current@) =~= seq![Seq::<char>::empty()]);
    loop
        invariant
            seen + it.remaining() == s@,
            split_on(seen, c) == strings(parts@).push(current@),
            it.decrease() is Some,
        ensures
            seen == s@,
        decreases it.decrease()->0,
    {
        let ghost rest = it.remaining();
        let ghost before = strings(parts@);
        let ghost piece = current@;
        match it.next() {
            Some(x) => {
                proof {
                    let known = before.push(piece);
                    assert(known.last() == piece);
                    assert(known.drop_last() =~= before);
                    assert(seen.push(x).drop_last() =~= seen);
                    assert(seen.push(x).last() == x);
                    assert(seen.push(x) + it.remaining() =~= seen + rest);
                    seen = seen.push(x);
                }
                if x == c {
                    parts.push(current);
                    current = String::new();
                    assert(strings(parts@) =~= before.push(piece));
                } else {
                    push_char(&mut current, x);
                }
            },
            None => {
                assert(seen =~= s@);
                break;
            },
        }
    }
    let ghost before = strings(parts@);
    parts.push(current);
    assert(strings(parts@) =~= before.push(current@));
    parts
}

} // verus!
