//! Facts about sequences that searches and selections rest on.
use vstd::prelude::*;

verus! {

/// The first element that `p` picks out.
pub open spec fn first_where<T>(s: Seq<T>, p: spec_fn(T) -> bool) -> Option<T>
    decreases s.len(),
{
    if s.len() == 0 {
        None
    } else if p(s[0]) {
        Some(s[0])
    } else {
        first_where(s.drop_first(), p)
    }
}

pub proof fn lemma_first_where_at<T>(s: Seq<T>, p: spec_fn(T) -> bool, i: int)
    requires
        0 <= i < s.len(),
        p(s[i]),
        forall|k: int| 0 <= k < i ==> !p(#[trigger] s[k]),
    ensures
        first_where(s, p) == Some(s[i]),
    decreases i,
{
    if i > 0 {
        assert(!p(s[0]));
        assert forall|k: int| 0 <= k < i - 1 implies !p(#[trigger] s.drop_first()[k]) by {
            assert(!p(s[k + 1]));
        }
        lemma_first_where_at(s.drop_first(), p, i - 1);
    }
}

pub proof fn lemma_first_where_none<T>(s: Seq<T>, p: spec_fn(T) -> bool)
    requires
        forall|k: int| 0 <= k < s.len() ==> !p(#[trigger] s[k]),
    ensures
        first_where(s, p) is None,
    decreases s.len(),
{
    if s.len() > 0 {
        assert(!p(s[0]));
        assert forall|k: int| 0 <= k < s.drop_first().len() implies !p(#[trigger] s.drop_first()[k]) by {
            assert(!p(s[k + 1]));
        }
        lemma_first_where_none(s.drop_first(), p);
    }
}

/// What selecting from one element more adds.
pub proof fn lemma_filter_step<T>(s: Seq<T>, p: spec_fn(T) -> bool, i: int)
    requires
        0 <= i < s.len(),
    ensures
        s.take(i + 1).filter(p) == (if p(s[i]) {
            s.take(i).filter(p).push(s[i])
        } else {
            s.take(i).filter(p)
        }),
{
    assert(s.take(i + 1) =~= s.take(i).push(s[i]));
    s.take(i).lemma_filter_push(s[i], p);
}

pub proof fn lemma_filter_nothing<T>(s: Seq<T>, p: spec_fn(T) -> bool)
    requires
        s.len() == 0,
    ensures
        s.filter(p).len() == 0,
{
    s.lemma_filter_len(p);
}

pub proof fn lemma_concat_contains<T>(a: Seq<T>, b: Seq<T>, x: T)
    ensures
        (a + b).contains(x) <==> a.contains(x) || b.contains(x),
{
    if a.contains(x) {
        let k = choose|k: int| 0 <= k < a.len() && a[k] == x;
        assert((a + b)[k] == x);
    }
    if b.contains(x) {
        let k = choose|k: int| 0 <= k < b.len() && b[k] == x;
        assert((a + b)[a.len() + k] == x);
    }
    if (a + b).contains(x) {
        let k = choose|k: int| 0 <= k < (a + b).len() && (a + b)[k] == x;
        if k < a.len() {
            assert(a[k] == x);
        } else {
            assert(b[k - a.len()] == x);
        }
    }
}

/// The elements of `v` that `f` picks out, in their order; `p` says which these are.
pub(crate) fn keep_when<T, F: Fn(&T) -> bool>(v: Vec<T>, f: F, Ghost(p): Ghost<spec_fn(T) -> bool>) -> (r: Vec<
    T,
>)
    requires
        forall|x: &T| call_requires(f, (x,)),
        forall|x: &T, b: bool| call_ensures(f, (x,), b) ==> b == p(*x),
    ensures
        r@ == v@.filter(p),
{
    let mut rest = v;
    let mut kept: Vec<T> = Vec::new();
    let ghost all = v@;
    let ghost mut i: int = 0;
    proof {
        lemma_filter_nothing(all.take(0), p);
    }
    assert(kept@ =~= all.take(0).filter(p));
    assert(rest@ =~= all.skip(0));
    while rest.len() > 0
        invariant
            forall|x: &T| call_requires(f, (x,)),
            forall|x: &T, b: bool| call_ensures(f, (x,), b) ==> b == p(*x),
            0 <= i <= all.len(),
            rest@ == all.skip(i),
            kept@ == all.take(i).filter(p),
        decreases rest@.len(),
    {
        let x = rest.remove(0);
        proof {
            lemma_filter_step(all, p, i);
        }
        assert(rest@ =~= all.skip(i + 1));
        if f(&x) {
            kept.push(x);
        }
        proof {
            i = i + 1;
        }
    }
    assert(all.take(i) =~= all);
    kept
}

/// What `f` makes of each element, in their order; `g` and `h` say how the two are seen.
pub(crate) fn map_each<T, U, V, F: Fn(T) -> U>(
    v: Vec<T>,
    f: F,
    Ghost(g): Ghost<spec_fn(T) -> V>,
    Ghost(h): Ghost<spec_fn(U) -> V>,
) -> (r: Vec<U>)
    requires
        forall|x: T| call_requires(f, (x,)),
        forall|x: T, y: U| call_ensures(f, (x,), y) ==> h(y) == g(x),
    ensures
        r@.map_values(h) == v@.map_values(g),
{
    let mut rest = v;
    let mut made: Vec<U> = Vec::new();
    let ghost all = v@;
    let ghost goal = all.map_values(g);
    let ghost mut i: int = 0;
    assert(made@.map_values(h) =~= goal.take(0));
    assert(rest@ =~= all.skip(0));
    while rest.len() > 0
        invariant
            forall|x: T| call_requires(f, (x,)),
            forall|x: T, y: U| call_ensures(f, (x,), y) ==> h(y) == g(x),
            0 <= i <= all.len(),
            goal == all.map_values(g),
            rest@ == all.skip(i),
            made@.map_values(h) == goal.take(i),
        decreases rest@.len(),
    {
        let x = rest.remove(0);
        assert(x == all[i]);
        assert(rest@ =~= all.skip(i + 1));
        let ghost before = made@;
        let y = f(x);
        made.push(y);
        assert(made@.map_values(h) =~= before.map_values(h).push(h(y)));
        assert(goal.take(i + 1) =~= goal.take(i).push(goal[i]));
        proof {
            i = i + 1;
        }
    }
    assert(goal.take(goal.len() as int) =~= goal);
    made
}

/// Each element that is kept stood at some place, and the places keep their order.
pub proof fn lemma_filter_places<T>(s: Seq<T>, p: spec_fn(T) -> bool) -> (places: Seq<int>)
    ensures
        places.len() == s.filter(p).len(),
        forall|i: int|
            0 <= i < places.len() ==> 0 <= #[trigger] places[i] < s.len() && s[places[i]] == s.filter(
                p,
            )[i],
        forall|i: int, j: int|
            0 <= i < j < places.len() ==> #[trigger] places[i] < #[trigger] places[j],
    decreases s.len(),
{
    if s.len() == 0 {
        lemma_filter_nothing(s, p);
        Seq::empty()
    } else {
        let shorter = s.drop_last();
        let before = lemma_filter_places(shorter, p);
        lemma_filter_step(s, p, s.len() - 1);
        assert(s.take(s.len() as int) =~= s);
        assert(s.take(s.len() - 1) =~= shorter);
        if p(s.last()) {
            before.push(s.len() - 1)
        } else {
            before
        }
    }
}

} // verus!
