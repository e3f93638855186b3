//! The order of texts: lexicographic by the bytes of their UTF-8 form.
use vstd::prelude::*;
use vstd::string::*;
use vstd::utf8::*;

use crate::strings::texts;

verus! {

/// Lexicographic order of byte sequences.
pub open spec fn bytes_before(a: Seq<u8>, b: Seq<u8>) -> bool
    decreases a.len(),
{
    b.len() > 0 && (a.len() == 0 || a[0] < b[0] || (a[0] == b[0] && bytes_before(
        a.drop_first(),
        b.drop_first(),
    )))
}

/// Whether the text `a` comes strictly before the text `b`.
pub open spec fn text_before(a: Seq<char>, b: Seq<char>) -> bool {
    bytes_before(encode_utf8(a), encode_utf8(b))
}

pub proof fn lemma_bytes_before_irreflexive(a: Seq<u8>)
    ensures
        !bytes_before(a, a),
    decreases a.len(),
{
    if a.len() > 0 {
        lemma_bytes_before_irreflexive(a.drop_first());
    }
}

pub proof fn lemma_bytes_before_transitive(a: Seq<u8>, b: Seq<u8>, c: Seq<u8>)
    requires
        bytes_before(a, b),
        bytes_before(b, c),
    ensures
        bytes_before(a, c),
    decreases a.len(),
{
    if a.len() > 0 && a[0] == b[0] && b[0] == c[0] {
        lemma_bytes_before_transitive(a.drop_first(), b.drop_first(), c.drop_first());
    }
}

pub proof fn lemma_bytes_before_total(a: Seq<u8>, b: Seq<u8>)
    ensures
        bytes_before(a, b) || a == b || bytes_before(b, a),
    decreases a.len(),
{
    if a.len() > 0 && b.len() > 0 && a[0] == b[0] {
        lemma_bytes_before_total(a.drop_first(), b.drop_first());
        if a.drop_first() == b.drop_first() {
            assert(a =~= seq![a[0]] + a.drop_first());
            assert(b =~= seq![b[0]] + b.drop_first());
        }
    } else if a.len() == 0 && b.len() == 0 {
        assert(a =~= b);
    }
}

/// The order of texts is strict and total: it is irreflexive and transitive, and of two
/// different texts one comes before the other.
pub proof fn lemma_text_order()
    ensures
        forall|a: Seq<char>| !text_before(a, a),
        forall|a: Seq<char>, b: Seq<char>, c: Seq<char>| #[trigger]
            text_before(a, b) && #[trigger] text_before(b, c) ==> text_before(a, c),
        forall|a: Seq<char>, b: Seq<char>|
            #![trigger text_before(a, b)]
            #![trigger text_before(b, a)]
            text_before(a, b) || a == b || text_before(b, a),
{
    assert forall|a: Seq<char>| !text_before(a, a) by {
        lemma_bytes_before_irreflexive(encode_utf8(a));
    }
    assert forall|a: Seq<char>, b: Seq<char>, c: Seq<char>| #[trigger]
        text_before(a, b) && #[trigger] text_before(b, c) implies text_before(a, c) by {
        lemma_bytes_before_transitive(encode_utf8(a), encode_utf8(b), encode_utf8(c));
    }
    assert forall|a: Seq<char>, b: Seq<char>|
        #![trigger text_before(a, b)]
        #![trigger text_before(b, a)]
        text_before(a, b) || a == b || text_before(b, a) by {
        lemma_bytes_before_total(encode_utf8(a), encode_utf8(b));
        encode_utf8_decode_utf8(a);
        encode_utf8_decode_utf8(b);
    }
}

/// Whether `a` comes strictly before `b`.
pub fn is_before(a: &str, b: &str) -> (r: bool)
    ensures
        r == text_before(a@, b@),
{
    let x = a.as_bytes();
    let y = b.as_bytes();
    let mut i: usize = 0;
    assert(x@.skip(0) =~= x@);
    assert(y@.skip(0) =~= y@);
    while i < x.len() && i < y.len()
        invariant
            i <= x@.len(),
            i <= y@.len(),
            bytes_before(x@, y@) == bytes_before(x@.skip(i as int), y@.skip(i as int)),
            x@ == encode_utf8(a@),
            y@ == encode_utf8(b@),
        decreases x@.len() - i,
    {
        assert(x@.skip(i as int).drop_first() =~= x@.skip(i + 1));
        assert(y@.skip(i as int).drop_first() =~= y@.skip(i + 1));
        if x[i] < y[i] {
            return true;
        }
        if x[i] > y[i] {
            return false;
        }
        i += 1;
    }
    i < y.len()
}

/// Every text comes strictly before the ones that follow it.
pub open spec fn strictly_sorted(v: Seq<Seq<char>>) -> bool {
    forall|i: int, j: int| 0 <= i < j < v.len() ==> text_before(#[trigger] v[i], #[trigger] v[j])
}

/// The texts of `input`, each once, in order.
pub fn sorted_set(input: Vec<String>) -> (out: Vec<String>)
    ensures
        strictly_sorted(texts(out@)),
        forall|t: Seq<char>| texts(out@).contains(t) <==> texts(input@).contains(t),
{
    proof {
        lemma_text_order();
    }
    let mut out: Vec<String> = Vec::new();
    let mut n: usize = 0;
    while n < input.len()
        invariant
            n <= input@.len(),
            strictly_sorted(texts(out@)),
            forall|k: int| 0 <= k < n ==> texts(out@).contains(texts(input@)[k]),
            forall|k: int| 0 <= k < out@.len() ==> texts(input@).contains(#[trigger] texts(out@)[k]),
        decreases input@.len() - n,
    {
        proof {
            lemma_text_order();
        }
        let item = input[n].clone();
        let ghost before = out@;
        let ghost t = item@;
        assert(texts(input@)[n as int] == t);
        let mut p: usize = 0;
        while p < out.len() && is_before(out[p].as_str(), item.as_str())
            invariant
                p <= out@.len(),
                t == item@,
                forall|k: int| 0 <= k < p ==> text_before(#[trigger] texts(out@)[k], t),
            decreases out@.len() - p,
        {
            assert(texts(out@)[p as int] == out@[p as int]@);
            p += 1;
        }
        if p < out.len() && out[p] == item {
            assert(texts(out@)[p as int] == t);
        } else {
            if p < out.len() {
                assert(texts(out@)[p as int] == out@[p as int]@);
                assert(text_before(t, texts(out@)[p as int]));
            }
            out.insert(p, item);
            assert(texts(out@) =~= texts(before).insert(p as int, t));
            assert forall|i: int, j: int| 0 <= i < j < texts(out@).len() implies text_before(
                #[trigger] texts(out@)[i],
                #[trigger] texts(out@)[j],
            ) by {
                let s = texts(before);
                if i == p {
                    if j - 1 > p {
                        assert(text_before(s[p as int], s[j - 1]));
                    }
                } else if j == p {
                    assert(text_before(s[i], t));
                } else {
                    let a = if i < p { i } else { i - 1 };
                    let b = if j < p { j } else { j - 1 };
                    assert(text_before(s[a], s[b]));
                }
            }
            assert forall|k: int| 0 <= k < n + 1 implies texts(out@).contains(texts(input@)[k]) by {
                if k == n {
                    assert(texts(out@)[p as int] == t);
                } else {
                    let w = texts(input@)[k];
                    let q = choose|q: int| 0 <= q < texts(before).len() && texts(before)[q] == w;
                    if q < p {
                        assert(texts(out@)[q] == w);
                    } else {
                        assert(texts(out@)[q + 1] == w);
                    }
                }
            }
            assert forall|k: int| 0 <= k < out@.len() implies texts(input@).contains(
                #[trigger] texts(out@)[k],
            ) by {
                if k == p {
                    assert(texts(input@)[n as int] == t);
                } else if k < p {
                    assert(texts(out@)[k] == texts(before)[k]);
                } else {
                    assert(texts(out@)[k] == texts(before)[k - 1]);
                }
            }
        }
        n += 1;
    }
    assert forall|t: Seq<char>| texts(out@).contains(t) <==> texts(input@).contains(t) by {
        if texts(input@).contains(t) {
            let k = choose|k: int| 0 <= k < texts(input@).len() && texts(input@)[k] == t;
            assert(texts(out@).contains(texts(input@)[k]));
        }
    }
    out
}

/// A relation by which things can be sorted: no thing comes before itself, the relation is
/// transitive, and so is having neither come before the other.
pub open spec fn strict_weak_order<T>(before: spec_fn(T, T) -> bool) -> bool {
    &&& forall|a: T| !#[trigger] before(a, a)
    &&& forall|a: T, b: T, c: T| #[trigger] before(a, b) && #[trigger] before(b, c) ==> before(a, c)
    &&& forall|a: T, b: T, c: T|
        #![trigger before(a, c), before(a, b)]
        #![trigger before(a, c), before(b, c)]
        before(a, c) ==> before(a, b) || before(b, c)
}

/// The things that come neither before nor after `x`.
pub open spec fn alike<T>(before: spec_fn(T, T) -> bool, x: T) -> spec_fn(T) -> bool {
    |y: T| !before(x, y) && !before(y, x)
}

pub open spec fn sorted_by<T>(v: Seq<T>, before: spec_fn(T, T) -> bool) -> bool {
    forall|i: int, j: int| 0 <= i < j < v.len() ==> !before(#[trigger] v[j], #[trigger] v[i])
}

/// `out` holds what `input` holds, sorted; things that are alike keep the order that they had.
pub open spec fn stably_sorted<T>(input: Seq<T>, out: Seq<T>, before: spec_fn(T, T) -> bool) -> bool {
    &&& out.to_multiset() == input.to_multiset()
    &&& sorted_by(out, before)
    &&& forall|x: T| out.filter(#[trigger] alike(before, x)) == input.filter(alike(before, x))
}

proof fn lemma_insert_sorted<T>(v: Seq<T>, p: int, x: T, before: spec_fn(T, T) -> bool)
    requires
        strict_weak_order(before),
        sorted_by(v, before),
        0 <= p <= v.len(),
        forall|k: int| 0 <= k < p ==> !before(x, #[trigger] v[k]),
        p < v.len() ==> before(x, v[p]),
    ensures
        sorted_by(v.insert(p, x), before),
        forall|y: T|
            v.insert(p, x).filter(#[trigger] alike(before, y)) == v.push(x).filter(alike(before, y)),
{
    let w = v.insert(p, x);
    assert forall|k: int| p <= k < v.len() implies before(x, #[trigger] v[k]) by {
        if k > p {
            assert(!before(v[k], v[p]));
        }
    }
    assert forall|i: int, j: int| 0 <= i < j < w.len() implies !before(#[trigger] w[j], #[trigger] w[i]) by {
        if i == p {
            assert(before(x, v[j - 1]));
        } else if j == p {
            assert(!before(x, v[i]));
        } else {
            let a = if i < p { i } else { i - 1 };
            let b = if j < p { j } else { j - 1 };
            assert(!before(v[b], v[a]));
        }
    }
    assert forall|y: T| w.filter(#[trigger] alike(before, y)) == v.push(x).filter(alike(before, y)) by {
        let q = alike(before, y);
        let head = v.take(p);
        let tail = v.skip(p);
        assert(w =~= head.push(x) + tail);
        assert(v =~= head + tail);
        Seq::filter_distributes_over_add(head.push(x), tail, q);
        Seq::filter_distributes_over_add(head, tail, q);
        head.lemma_filter_push(x, q);
        v.lemma_filter_push(x, q);
        if q(x) {
            assert forall|k: int| 0 <= k < tail.len() implies !q(#[trigger] tail[k]) by {
                assert(before(x, v[p + k]));
                if q(v[p + k]) {
                    assert(before(x, v[p + k]) ==> before(x, y) || before(y, v[p + k]));
                }
            }
            assert(tail.all(|z: T| !q(z)));
            tail.lemma_all_neg_filter_empty(q);
            assert(head.filter(q).push(x) + tail.filter(q) =~= (head.filter(q) + tail.filter(q)).push(x));
        }
    }
}

/// Sorts `input`; things that are alike keep their order. `f` says what comes before what.
pub(crate) fn stable_sort<T, F: Fn(&T, &T) -> bool>(
    input: Vec<T>,
    f: F,
    Ghost(before): Ghost<spec_fn(T, T) -> bool>,
) -> (out: Vec<T>)
    requires
        strict_weak_order(before),
        forall|a: &T, b: &T| call_requires(f, (a, b)),
        forall|a: &T, b: &T, r: bool| call_ensures(f, (a, b), r) ==> r == before(*a, *b),
    ensures
        stably_sorted(input@, out@, before),
{
    let mut rest = input;
    let mut out: Vec<T> = Vec::new();
    let ghost mut taken: Seq<T> = Seq::empty();
    assert(input@ =~= taken + rest@);
    while rest.len() > 0
        invariant
            strict_weak_order(before),
            forall|a: &T, b: &T| call_requires(f, (a, b)),
            forall|a: &T, b: &T, r: bool| call_ensures(f, (a, b), r) ==> r == before(*a, *b),
            input@ == taken + rest@,
            stably_sorted(taken, out@, before),
        decreases rest@.len(),
    {
        let ghost left = rest@;
        let x = rest.remove(0);
        assert(left =~= seq![x] + rest@);
        assert(input@ =~= taken.push(x) + rest@);
        let mut p: usize = 0;
        while p < out.len() && !f(&x, &out[p])
            invariant
                forall|a: &T, b: &T| call_requires(f, (a, b)),
                forall|a: &T, b: &T, r: bool| call_ensures(f, (a, b), r) ==> r == before(*a, *b),
                p <= out@.len(),
                forall|k: int| 0 <= k < p ==> !before(x, #[trigger] out@[k]),
            decreases out@.len() - p,
        {
            p += 1;
        }
        proof {
            lemma_insert_sorted(out@, p as int, x, before);
            vstd::seq_lib::to_multiset_insert(out@, p as int, x);
            vstd::seq_lib::to_multiset_build(taken, x);
            assert forall|y: T|
                out@.insert(p as int, x).filter(#[trigger] alike(before, y)) == taken.push(x).filter(
                    alike(before, y),
                ) by {
                out@.lemma_filter_push(x, alike(before, y));
                taken.lemma_filter_push(x, alike(before, y));
            }
            taken = taken.push(x);
        }
        out.insert(p, x);
    }
    assert(input@ =~= taken);
    out
}

/// Of two texts the one with the smaller byte at the first place where they differ comes first, and a
/// text comes before every longer one that it begins.
pub proof fn law_the_first_difference_decides(a: &str, b: &str, i: int, r: bool)
    requires
        call_ensures(is_before, (a, b), r),
        0 <= i <= encode_utf8(a@).len(),
        i <= encode_utf8(b@).len(),
        forall|k: int|
            0 <= k < i ==> #[trigger] encode_utf8(a@)[k] == encode_utf8(b@)[k],
    ensures
        i < encode_utf8(a@).len() && i < encode_utf8(b@).len() && encode_utf8(a@)[i]
            != encode_utf8(b@)[i] ==> (r <==> encode_utf8(a@)[i] < encode_utf8(b@)[i]),
        i == encode_utf8(a@).len() ==> (r <==> encode_utf8(a@).len() < encode_utf8(b@).len()),
        i == encode_utf8(b@).len() ==> !r,
{
    lemma_first_difference(encode_utf8(a@), encode_utf8(b@), i);
}

proof fn lemma_first_difference(a: Seq<u8>, b: Seq<u8>, i: int)
    requires
        0 <= i <= a.len(),
        i <= b.len(),
        forall|k: int| 0 <= k < i ==> #[trigger] a[k] == b[k],
    ensures
        bytes_before(a, b) == bytes_before(a.skip(i), b.skip(i)),
        i < a.len() && i < b.len() && a[i] != b[i] ==> (bytes_before(a, b) <==> a[i] < b[i]),
        i == a.len() ==> (bytes_before(a, b) <==> a.len() < b.len()),
        i == b.len() ==> !bytes_before(a, b),
    decreases i,
{
    if i > 0 {
        assert(a[0] == b[0]);
        let x = a.drop_first();
        let y = b.drop_first();
        assert forall|k: int| 0 <= k < i - 1 implies #[trigger] x[k] == y[k] by {
            assert(a[k + 1] == b[k + 1]);
        }
        lemma_first_difference(x, y, i - 1);
        assert(x.skip(i - 1) =~= a.skip(i));
        assert(y.skip(i - 1) =~= b.skip(i));
    } else {
        assert(a.skip(0) =~= a);
        assert(b.skip(0) =~= b);
    }
}

} // verus!
