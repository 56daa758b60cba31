//! Looking through a list, and thinning one out.

use vstd::prelude::*;

verus! {

/// Whether `i` is where the first element that satisfies `p` stands.
pub open spec fn is_first<A>(s: Seq<A>, p: spec_fn(A) -> bool, i: int) -> bool {
    &&& 0 <= i < s.len()
    &&& p(s[i])
    &&& forall|j: int| 0 <= j < i ==> !p(#[trigger] s[j])
}

/// Where the first element that satisfies `p` stands, if one does.
pub open spec fn first<A>(s: Seq<A>, p: spec_fn(A) -> bool) -> Option<int> {
    if exists|i: int| is_first(s, p, i) {
        Some(choose|i: int| is_first(s, p, i))
    } else {
        None
    }
}

/// Whether some element satisfies `p`.
pub open spec fn some_element<A>(s: Seq<A>, p: spec_fn(A) -> bool) -> bool {
    exists|i: int| 0 <= i < s.len() && p(#[trigger] s[i])
}

/// There is only one first.
pub proof fn lemma_first_is<A>(s: Seq<A>, p: spec_fn(A) -> bool, i: int)
    requires
        is_first(s, p, i),
    ensures
        first(s, p) == Some(i),
{
    let j = choose|j: int| is_first(s, p, j);
    assert(is_first(s, p, j));
    if j < i {
        assert(!p(s[j]));
    }
    if i < j {
        assert(!p(s[i]));
    }
}

/// With nothing to find, there is no first.
pub proof fn lemma_first_none<A>(s: Seq<A>, p: spec_fn(A) -> bool)
    requires
        forall|j: int| 0 <= j < s.len() ==> !p(#[trigger] s[j]),
    ensures
        first(s, p) is None,
{
    if exists|i: int| is_first(s, p, i) {
        let i = choose|i: int| is_first(s, p, i);
        assert(p(s[i]));
    }
}

/// A first exists where anything satisfies the predicate at all.
pub proof fn lemma_first_exists<A>(s: Seq<A>, p: spec_fn(A) -> bool, k: int)
    requires
        0 <= k < s.len(),
        p(s[k]),
    ensures
        first(s, p) is Some,
        is_first(s, p, first(s, p)->0),
        first(s, p)->0 <= k,
    decreases k,
{
    if forall|j: int| 0 <= j < k ==> !p(#[trigger] s[j]) {
        assert(is_first(s, p, k));
        lemma_first_is(s, p, k);
    } else {
        let j = choose|j: int| 0 <= j < k && p(#[trigger] s[j]);
        lemma_first_exists(s, p, j);
    }
}

/// What `first` found is a first, and what it did not find is not there.
pub proof fn lemma_first<A>(s: Seq<A>, p: spec_fn(A) -> bool)
    ensures
        first(s, p) matches Some(i) ==> is_first(s, p, i),
        first(s, p) is None ==> forall|j: int| 0 <= j < s.len() ==> !p(#[trigger] s[j]),
        first(s, p) is Some <==> some_element(s, p),
{
    if some_element(s, p) {
        let k = choose|k: int| 0 <= k < s.len() && p(#[trigger] s[k]);
        lemma_first_exists(s, p, k);
    } else {
        lemma_first_none(s, p);
    }
}

/// Filtering one element more.
pub proof fn lemma_filter_step<A>(s: Seq<A>, p: spec_fn(A) -> bool, k: int)
    requires
        0 <= k < s.len(),
    ensures
        s.take(k + 1).filter(p) == (if p(s[k]) {
            s.take(k).filter(p).push(s[k])
        } else {
            s.take(k).filter(p)
        }),
{
    reveal(Seq::filter);
    assert(s.take(k + 1).drop_last() =~= s.take(k));
}

/// Nothing that fails `p` is left by a filter, and nothing is in it that was not there.
pub proof fn lemma_filter_members<A>(s: Seq<A>, p: spec_fn(A) -> bool)
    ensures
        forall|i: int| 0 <= i < s.filter(p).len() ==> p(#[trigger] s.filter(p)[i]),
        forall|i: int| 0 <= i < s.filter(p).len() ==> s.contains(#[trigger] s.filter(p)[i]),
        forall|i: int| 0 <= i < s.len() && p(#[trigger] s[i]) ==> s.filter(p).contains(s[i]),
    decreases s.len(),
{
    reveal(Seq::filter);
    if s.len() > 0 {
        let front = s.drop_last();
        lemma_filter_members(front, p);
        assert forall|i: int| 0 <= i < s.filter(p).len() implies s.contains(
            #[trigger] s.filter(p)[i],
        ) by {
            if i < front.filter(p).len() {
                assert(front.contains(front.filter(p)[i]));
                let j = choose|j: int| 0 <= j < front.len() && front[j] == front.filter(p)[i];
                assert(s[j] == s.filter(p)[i]);
            } else {
                assert(s[s.len() - 1] == s.filter(p)[i]);
            }
        }
        assert forall|i: int| 0 <= i < s.len() && p(#[trigger] s[i]) implies s.filter(p).contains(
            s[i],
        ) by {
            if i < front.len() {
                assert(front[i] == s[i]);
                assert(front.filter(p).contains(front[i]));
                let j = choose|j: int|
                    0 <= j < front.filter(p).len() && front.filter(p)[j] == front[i];
                assert(s.filter(p)[j] == s[i]);
            } else {
                assert(s.filter(p).last() == s[i]);
            }
        }
    }
}

/// A filter that everything passes changes nothing.
pub proof fn lemma_filter_all<A>(s: Seq<A>, p: spec_fn(A) -> bool)
    requires
        forall|i: int| 0 <= i < s.len() ==> p(#[trigger] s[i]),
    ensures
        s.filter(p) == s,
    decreases s.len(),
{
    reveal(Seq::filter);
    if s.len() > 0 {
        assert forall|i: int| 0 <= i < s.drop_last().len() implies p(
            #[trigger] s.drop_last()[i],
        ) by {
            assert(s[i] == s.drop_last()[i]);
        }
        lemma_filter_all(s.drop_last(), p);
        assert(p(s[s.len() - 1]));
        assert(s.drop_last().push(s.last()) =~= s);
    } else {
        assert(s.filter(p) =~= s);
    }
}

/// Filtering twice is filtering by both.
pub proof fn lemma_filter_twice<A>(
    s: Seq<A>,
    p: spec_fn(A) -> bool,
    q: spec_fn(A) -> bool,
    both: spec_fn(A) -> bool,
)
    requires
        forall|a: A| #[trigger] both(a) == (p(a) && q(a)),
    ensures
        s.filter(p).filter(q) == s.filter(both),
    decreases s.len(),
{
    reveal(Seq::filter);
    if s.len() > 0 {
        let front = s.drop_last();
        lemma_filter_twice(front, p, q, both);
        assert(both(s.last()) == (p(s.last()) && q(s.last())));
        if p(s.last()) {
            assert(s.filter(p).drop_last() =~= front.filter(p));
            assert(s.filter(p).last() == s.last());
        }
    } else {
        assert(s.filter(p) =~= Seq::empty());
        assert(s.filter(p).filter(q) =~= s.filter(both));
    }
}

/// Where the first element that satisfies the test stands.
pub(crate) fn position<A, F: Fn(&A) -> bool>(
    list: &[A],
    test: F,
    Ghost(p): Ghost<spec_fn(A) -> bool>,
) -> (found: Option<usize>)
    requires
        forall|a: &A| test.requires((a,)),
        forall|a: &A, r: bool| test.ensures((a,), r) ==> r == p(*a),
    ensures
        match found {
            Some(i) => i < list.len() && first(list@, p) == Some(i as int) && is_first(
                list@,
                p,
                i as int,
            ),
            None => first(list@, p) is None && forall|j: int|
                0 <= j < list@.len() ==> !p(#[trigger] list@[j]),
        },
{
    let mut i: usize = 0;
    while i < list.len()
        invariant
            i <= list.len(),
            forall|a: &A| test.requires((a,)),
            forall|a: &A, r: bool| test.ensures((a,), r) ==> r == p(*a),
            forall|j: int| 0 <= j < i ==> !p(#[trigger] list@[j]),
        decreases list.len() - i,
    {
        if test(&list[i]) {
            proof {
                assert(is_first(list@, p, i as int));
                lemma_first_is(list@, p, i as int);
            }
            return Some(i);
        }
        i += 1;
    }
    proof {
        lemma_first_none(list@, p);
    }
    None
}

/// Keep the elements that satisfy the test, in the order they stand in.
pub(crate) fn retain<A, F: Fn(&A) -> bool>(
    list: &mut Vec<A>,
    keep: F,
    Ghost(p): Ghost<spec_fn(A) -> bool>,
)
    requires
        forall|a: &A| keep.requires((a,)),
        forall|a: &A, r: bool| keep.ensures((a,), r) ==> r == p(*a),
    ensures
        final(list)@ == old(list)@.filter(p),
{
    let mut i: usize = 0;
    let ghost mut k: int = 0;
    let ghost start = list@;
    proof {
        reveal(Seq::filter);
        assert(start.take(0).filter(p) =~= Seq::empty());
        assert(list@ =~= start.take(0).filter(p) + start.skip(0));
    }
    while i < list.len()
        invariant
            forall|a: &A| keep.requires((a,)),
            forall|a: &A, r: bool| keep.ensures((a,), r) ==> r == p(*a),
            0 <= k <= start.len(),
            i == start.take(k).filter(p).len(),
            list@ == start.take(k).filter(p) + start.skip(k),
        decreases start.len() - k,
    {
        assert(list@[i as int] == start[k]);
        proof {
            lemma_filter_step(start, p, k);
        }
        if keep(&list[i]) {
            i += 1;
        } else {
            let _ = list.remove(i);
        }
        proof {
            assert(start.skip(k) =~= seq![start[k]] + start.skip(k + 1));
            assert(list@ =~= start.take(k + 1).filter(p) + start.skip(k + 1));
            k = k + 1;
        }
    }
    proof {
        assert(k == start.len());
        assert(start.take(k) =~= start);
        assert(list@ =~= start.filter(p));
    }
}

} // verus!
