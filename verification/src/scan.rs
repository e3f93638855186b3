//! Searches in text.
use vstd::prelude::*;
use vstd::string::*;

use crate::strings::{chars_of, text_between};

verus! {

/// Whether a text begins with another.
pub open spec fn begins_with(s: Seq<char>, start: Seq<char>) -> bool {
    start.len() <= s.len() && s.take(start.len() as int) == start
}

/// Whether a text ends with another.
pub open spec fn ends_in(s: Seq<char>, end: Seq<char>) -> bool {
    end.len() <= s.len() && s.skip(s.len() - end.len()) == end
}

/// Whether `t` stands in `s` at position `i`.
pub open spec fn stands_at(s: Seq<char>, t: Seq<char>, i: int) -> bool {
    0 <= i && i + t.len() <= s.len() && s.subrange(i, i + t.len()) == t
}

/// Whether one text stands somewhere in another.
pub open spec fn holds_text(s: Seq<char>, t: Seq<char>) -> bool {
    exists|i: int| stands_at(s, t, i)
}

fn found_at(v: &Vec<char>, t: &Vec<char>, i: usize) -> (r: bool)
    requires
        i <= v@.len(),
    ensures
        r == stands_at(v@, t@, i as int),
{
    if t.len() > v.len() - i {
        return false;
    }
    let count: usize = v.len();
    let mut k: usize = 0;
    while k < t.len()
        invariant
            count == v@.len(),
            i + t@.len() <= count,
            k <= t@.len(),
            forall|j: int| 0 <= j < k ==> v@[i + j] == t@[j],
        decreases t@.len() - k,
    {
        if v[i + k] != t[k] {
            assert(v@.subrange(i as int, i + t@.len())[k as int] != t@[k as int]);
            return false;
        }
        k += 1;
    }
    assert(v@.subrange(i as int, i + t@.len()) =~= t@);
    true
}

pub fn contains_text(s: &str, t: &str) -> (r: bool)
    ensures
        r == holds_text(s@, t@),
{
    let v = chars_of(s);
    let w = chars_of(t);
    let mut i: usize = 0;
    loop
        invariant
            v@ == s@,
            w@ == t@,
            i <= v@.len(),
            forall|k: int| 0 <= k < i ==> !stands_at(s@, t@, k),
        decreases v@.len() - i,
    {
        if found_at(&v, &w, i) {
            assert(stands_at(s@, t@, i as int));
            return true;
        }
        if i == v.len() {
            assert forall|k: int| !stands_at(s@, t@, k) by {
                if k == i {
                    assert(!stands_at(s@, t@, i as int));
                }
            }
            return false;
        }
        i += 1;
    }
}

pub fn starts_with(s: &str, start: &str) -> (r: bool)
    ensures
        r == begins_with(s@, start@),
{
    let v = chars_of(s);
    let w = chars_of(start);
    let r = found_at(&v, &w, 0);
    proof {
        if start@.len() <= s@.len() {
            assert(s@.subrange(0, start@.len() as int) =~= s@.take(start@.len() as int));
        }
    }
    r
}

pub fn ends_with(s: &str, end: &str) -> (r: bool)
    ensures
        r == ends_in(s@, end@),
{
    let v = chars_of(s);
    let w = chars_of(end);
    if w.len() > v.len() {
        return false;
    }
    let from: usize = v.len() - w.len();
    assert(s@.subrange(from as int, from + end@.len()) =~= s@.skip(s@.len() - end@.len()));
    found_at(&v, &w, from)
}

/// What follows a text at the start of another.
pub open spec fn after_start(s: Seq<char>, start: Seq<char>) -> Option<Seq<char>> {
    if begins_with(s, start) {
        Some(s.skip(start.len() as int))
    } else {
        None
    }
}

pub fn strip_start(s: &str, start: &str) -> (r: Option<String>)
    ensures
        match r {
            Some(rest) => after_start(s@, start@) == Some(rest@),
            None => after_start(s@, start@) is None,
        },
{
    if !starts_with(s, start) {
        return None;
    }
    let v = chars_of(s);
    let rest = text_between(&v, start.unicode_len(), v.len());
    assert(rest@ =~= s@.skip(start@.len() as int));
    Some(rest)
}

/// The first place of a character, or the length of the text where it has none.
pub open spec fn first_place(s: Seq<char>, c: char) -> int
    decreases s.len(),
{
    if s.len() == 0 || s[0] == c {
        0
    } else {
        1 + first_place(s.drop_first(), c)
    }
}

pub proof fn lemma_first_place(s: Seq<char>, c: char, i: int)
    requires
        0 <= i <= s.len(),
        i < s.len() ==> s[i] == c,
        forall|k: int| 0 <= k < i ==> s[k] != c,
    ensures
        first_place(s, c) == i,
    decreases i,
{
    if i > 0 {
        assert(s[0] != c);
        assert forall|k: int| 0 <= k < i - 1 implies s.drop_first()[k] != c by {
            assert(s[k + 1] != c);
        }
        lemma_first_place(s.drop_first(), c, i - 1);
    }
}

/// The last place of a character, or minus one where it has none.
pub open spec fn last_place(s: Seq<char>, c: char) -> int
    decreases s.len(),
{
    if s.len() == 0 {
        -1
    } else if s.last() == c {
        s.len() - 1
    } else {
        last_place(s.drop_last(), c)
    }
}

/// A text in two, before and after the first place of a character.
pub open spec fn split_first(s: Seq<char>, c: char) -> Option<(Seq<char>, Seq<char>)> {
    let i = first_place(s, c);
    if i < s.len() {
        Some((s.take(i), s.skip(i + 1)))
    } else {
        None
    }
}

/// A text in two, before and after the last place of a character.
pub open spec fn split_last(s: Seq<char>, c: char) -> Option<(Seq<char>, Seq<char>)> {
    let i = last_place(s, c);
    if i >= 0 {
        Some((s.take(i), s.skip(i + 1)))
    } else {
        None
    }
}

pub open spec fn opt_pair(r: Option<(String, String)>) -> Option<(Seq<char>, Seq<char>)> {
    match r {
        Some((a, b)) => Some((a@, b@)),
        None => None,
    }
}

pub fn split_once(s: &str, c: char) -> (r: Option<(String, String)>)
    ensures
        opt_pair(r) == split_first(s@, c),
{
    let v = chars_of(s);
    let mut i: usize = 0;
    while i < v.len()
        invariant
            v@ == s@,
            i <= v@.len(),
            forall|k: int| 0 <= k < i ==> s@[k] != c,
        decreases v@.len() - i,
    {
        if v[i] == c {
            proof {
                lemma_first_place(s@, c, i as int);
            }
            let before = text_between(&v, 0, i);
            let after = text_between(&v, i + 1, v.len());
            assert(before@ =~= s@.take(i as int));
            assert(after@ =~= s@.skip(i + 1));
            return Some((before, after));
        }
        i += 1;
    }
    proof {
        lemma_first_place(s@, c, s@.len() as int);
    }
    None
}

pub fn rsplit_once(s: &str, c: char) -> (r: Option<(String, String)>)
    ensures
        opt_pair(r) == split_last(s@, c),
{
    let v = chars_of(s);
    let mut i: usize = v.len();
    assert(s@.take(i as int) =~= s@);
    while i > 0
        invariant
            v@ == s@,
            i <= v@.len(),
            last_place(s@, c) == last_place(s@.take(i as int), c),
        decreases i,
    {
        assert(s@.take(i as int).drop_last() =~= s@.take(i - 1));
        if v[i - 1] == c {
            let before = text_between(&v, 0, i - 1);
            let after = text_between(&v, i, v.len());
            assert(before@ =~= s@.take(i - 1));
            assert(after@ =~= s@.skip(i as int));
            return Some((before, after));
        }
        i -= 1;
    }
    None
}

/// One text stands in another exactly when the other is some text, the one, and some text more.
pub proof fn law_a_text_stands_in_another(s: &str, t: &str, r: bool)
    requires
        call_ensures(contains_text, (s, t), r),
    ensures
        r <==> exists|before: Seq<char>, after: Seq<char>| s@ == #[trigger] (before + t@ + after),
{
    if r {
        let i = choose|i: int| stands_at(s@, t@, i);
        let before = s@.take(i);
        let after = s@.skip(i + t@.len());
        assert(s@ =~= before + t@ + after);
    }
    if exists|before: Seq<char>, after: Seq<char>| s@ == #[trigger] (before + t@ + after) {
        let (before, after) = choose|before: Seq<char>, after: Seq<char>|
            s@ == #[trigger] (before + t@ + after);
        assert(s@.subrange(before.len() as int, (before.len() + t@.len()) as int) =~= t@);
        assert(stands_at(s@, t@, before.len() as int));
    }
}

/// A text begins, or ends, with another exactly when it is that one with some text after, or before,
/// it; what follows the start is the rest.
pub proof fn law_a_text_is_its_start_and_the_rest(
    s: &str,
    t: &str,
    starts: bool,
    ends: bool,
    rest: Option<String>,
)
    requires
        call_ensures(starts_with, (s, t), starts),
        call_ensures(ends_with, (s, t), ends),
        call_ensures(strip_start, (s, t), rest),
    ensures
        starts <==> exists|after: Seq<char>| s@ == #[trigger] (t@ + after),
        ends <==> exists|before: Seq<char>| s@ == #[trigger] (before + t@),
        starts <==> rest is Some,
        rest matches Some(after) ==> s@ == t@ + after@,
{
    if starts {
        let after = s@.skip(t@.len() as int);
        assert(s@ =~= t@ + after);
    }
    if exists|after: Seq<char>| s@ == #[trigger] (t@ + after) {
        assert(s@.take(t@.len() as int) =~= t@);
    }
    if ends {
        let before = s@.take(s@.len() - t@.len());
        assert(s@ =~= before + t@);
    }
    if exists|before: Seq<char>| s@ == #[trigger] (before + t@) {
        assert(s@.skip(s@.len() - t@.len()) =~= t@);
    }
}

/// A text is cut at the first, or the last, of a character: the two parts and the character between
/// them are the text, and the part on that side holds none of it.
pub proof fn law_a_text_is_cut_at_one_character(
    s: &str,
    c: char,
    first: Option<(String, String)>,
    last: Option<(String, String)>,
)
    requires
        call_ensures(split_once, (s, c), first),
        call_ensures(rsplit_once, (s, c), last),
    ensures
        first is Some <==> s@.contains(c),
        last is Some <==> s@.contains(c),
        first matches Some((a, b)) ==> s@ == a@.push(c) + b@ && !a@.contains(c),
        last matches Some((a, b)) ==> s@ == a@.push(c) + b@ && !b@.contains(c),
{
    lemma_places(s@, c);
    let i = first_place(s@, c);
    let j = last_place(s@, c);
    if let Some((a, b)) = first {
        assert(opt_pair(first) == Some((a@, b@)));
        assert(s@ =~= a@.push(c) + b@);
    }
    if let Some((a, b)) = last {
        assert(opt_pair(last) == Some((a@, b@)));
        assert(s@ =~= a@.push(c) + b@);
        assert(!b@.contains(c)) by {
            if b@.contains(c) {
                let k = choose|k: int| 0 <= k < b@.len() && b@[k] == c;
                assert(s@[j + 1 + k] == c);
            }
        }
    }
}

pub proof fn lemma_places(s: Seq<char>, c: char)
    ensures
        0 <= first_place(s, c) <= s.len(),
        first_place(s, c) < s.len() ==> s[first_place(s, c)] == c,
        forall|k: int| 0 <= k < first_place(s, c) ==> s[k] != c,
        -1 <= last_place(s, c) < s.len(),
        last_place(s, c) >= 0 ==> s[last_place(s, c)] == c,
        forall|k: int| last_place(s, c) < k < s.len() ==> s[k] != c,
        first_place(s, c) < s.len() <==> s.contains(c),
        last_place(s, c) >= 0 <==> s.contains(c),
    decreases s.len(),
{
    if s.len() > 0 {
        lemma_places(s.drop_first(), c);
        lemma_places(s.drop_last(), c);
        assert forall|k: int| 0 <= k < first_place(s, c) implies s[k] != c by {
            if k > 0 {
                assert(s.drop_first()[k - 1] == s[k]);
            }
        }
        if s[0] != c && first_place(s.drop_first(), c) < s.len() - 1 {
            assert(s.drop_first()[first_place(s.drop_first(), c)] == s[first_place(s, c)]);
        }
        assert forall|k: int| last_place(s, c) < k < s.len() implies s[k] != c by {
            if k < s.len() - 1 {
                assert(s.drop_last()[k] == s[k]);
            }
        }
        if s.last() != c && last_place(s.drop_last(), c) >= 0 {
            assert(s.drop_last()[last_place(s.drop_last(), c)] == s[last_place(s, c)]);
        }
    }
}

} // verus!
