//! Facts about the items of a sequence that meet a condition.

use vstd::multiset::Multiset;
use vstd::prelude::*;
use vstd::seq_lib::*;

verus! {

/// Conditions that agree on every item select the same items.
pub proof fn lemma_filter_agree<A>(s: Seq<A>, p: spec_fn(A) -> bool, q: spec_fn(A) -> bool)
    requires
        forall|i: int| 0 <= i < s.len() ==> p(#[trigger] s[i]) == q(s[i]),
    ensures
        s.filter(p) == s.filter(q),
    decreases s.len(),
{
    reveal(Seq::filter);
    if s.len() > 0 {
        assert forall|i: int| 0 <= i < s.drop_last().len() implies p(#[trigger] s.drop_last()[i])
            == q(s.drop_last()[i]) by {
            assert(s.drop_last()[i] == s[i]);
        }
        lemma_filter_agree(s.drop_last(), p, q);
    }
}

/// A condition that all items meet selects them all.
pub proof fn lemma_filter_all<A>(s: Seq<A>, p: spec_fn(A) -> bool)
    requires
        forall|i: int| 0 <= i < s.len() ==> p(#[trigger] s[i]),
    ensures
        s.filter(p) == s,
    decreases s.len(),
{
    reveal(Seq::filter);
    if s.len() > 0 {
        assert forall|i: int| 0 <= i < s.drop_last().len() implies p(
            #[trigger] s.drop_last()[i],
        ) by {
            assert(s.drop_last()[i] == s[i]);
        }
        lemma_filter_all(s.drop_last(), p);
        assert(s.drop_last().push(s.last()) =~= s);
    }
}

/// A condition that no item meets selects none.
pub proof fn lemma_filter_none<A>(s: Seq<A>, p: spec_fn(A) -> bool)
    requires
        forall|i: int| 0 <= i < s.len() ==> !p(#[trigger] s[i]),
    ensures
        s.filter(p) == Seq::<A>::empty(),
    decreases s.len(),
{
    reveal(Seq::filter);
    if s.len() > 0 {
        assert forall|i: int| 0 <= i < s.drop_last().len() implies !p(
            #[trigger] s.drop_last()[i],
        ) by {
            assert(s.drop_last()[i] == s[i]);
        }
        lemma_filter_none(s.drop_last(), p);
    }
}

/// A condition that the first `at` items meet, and no other, selects those.
pub proof fn lemma_filter_prefix<A>(s: Seq<A>, at: int, p: spec_fn(A) -> bool)
    requires
        0 <= at <= s.len(),
        forall|i: int| 0 <= i < at ==> p(#[trigger] s[i]),
        forall|i: int| at <= i < s.len() ==> !p(#[trigger] s[i]),
    ensures
        s.filter(p) == s.take(at),
{
    assert(s =~= s.take(at) + s.skip(at));
    Seq::filter_distributes_over_add(s.take(at), s.skip(at), p);
    lemma_filter_all(s.take(at), p);
    lemma_filter_none(s.skip(at), p);
}

/// A condition that all but the first `at` items meet selects the others.
pub proof fn lemma_filter_suffix<A>(s: Seq<A>, at: int, p: spec_fn(A) -> bool)
    requires
        0 <= at <= s.len(),
        forall|i: int| 0 <= i < at ==> !p(#[trigger] s[i]),
        forall|i: int| at <= i < s.len() ==> p(#[trigger] s[i]),
    ensures
        s.filter(p) == s.skip(at),
{
    assert(s =~= s.take(at) + s.skip(at));
    Seq::filter_distributes_over_add(s.take(at), s.skip(at), p);
    lemma_filter_none(s.take(at), p);
    lemma_filter_all(s.skip(at), p);
}

/// An item that is selected was there, and meets the condition.
pub proof fn lemma_filter_item<A>(s: Seq<A>, p: spec_fn(A) -> bool, i: int)
    requires
        0 <= i < s.filter(p).len(),
    ensures
        p(s.filter(p)[i]),
        s.contains(s.filter(p)[i]),
    decreases s.len(),
{
    reveal(Seq::filter);
    if s.len() > 0 {
        let rest = s.drop_last();
        if i < rest.filter(p).len() {
            lemma_filter_item(rest, p, i);
            let k = rest.index_of(s.filter(p)[i]);
            assert(rest.contains(s.filter(p)[i]));
            assert(s[k] == s.filter(p)[i]);
        } else {
            assert(s[s.len() - 1] == s.filter(p)[i]);
        }
    }
}

/// One more item is selected if and only if it meets the condition.
pub proof fn lemma_filter_push<A>(s: Seq<A>, x: A, p: spec_fn(A) -> bool)
    ensures
        s.push(x).filter(p) == if p(x) {
            s.filter(p).push(x)
        } else {
            s.filter(p)
        },
{
    reveal(Seq::filter);
    assert(s.push(x).drop_last() =~= s);
}

/// To select by one condition and then by another is to select by both.
pub proof fn lemma_filter_twice<A>(s: Seq<A>, p: spec_fn(A) -> bool, q: spec_fn(A) -> bool)
    ensures
        s.filter(p).filter(q) == s.filter(|x: A| p(x) && q(x)),
    decreases s.len(),
{
    reveal(Seq::filter);
    if s.len() > 0 {
        let rest = s.drop_last();
        lemma_filter_twice(rest, p, q);
        lemma_filter_push(rest.filter(p), s.last(), q);
    }
}

/// Selecting by a condition at the end makes selecting by it at the beginning needless.
pub proof fn lemma_filter_again<A>(s: Seq<A>, p: spec_fn(A) -> bool, q: spec_fn(A) -> bool)
    ensures
        s.filter(q).filter(p).filter(q) == s.filter(p).filter(q),
{
    let both = |x: A| q(x) && p(x);
    lemma_filter_twice(s, q, p);
    lemma_filter_twice(s, both, q);
    lemma_filter_twice(s, p, q);
    lemma_filter_agree(s, |x: A| both(x) && q(x), |x: A| p(x) && q(x));
}

/// Of items that meet one condition, one that meets neither, and items that meet another
/// condition, each condition selects its own.
pub proof fn lemma_filter_around<A>(
    low: Seq<A>,
    x: A,
    high: Seq<A>,
    p: spec_fn(A) -> bool,
    q: spec_fn(A) -> bool,
)
    requires
        forall|i: int| 0 <= i < low.len() ==> p(#[trigger] low[i]) && !q(low[i]),
        !p(x) && !q(x),
        forall|i: int| 0 <= i < high.len() ==> !p(#[trigger] high[i]) && q(high[i]),
    ensures
        (low + seq![x] + high).filter(p) == low,
        (low + seq![x] + high).filter(q) == high,
{
    let one = seq![x];
    Seq::filter_distributes_over_add(low + one, high, p);
    Seq::filter_distributes_over_add(low, one, p);
    Seq::filter_distributes_over_add(low + one, high, q);
    Seq::filter_distributes_over_add(low, one, q);
    lemma_filter_all(low, p);
    lemma_filter_none(one, p);
    lemma_filter_none(high, p);
    lemma_filter_none(low, q);
    lemma_filter_none(one, q);
    lemma_filter_all(high, q);
}

/// A narrower condition selects no more items.
pub proof fn lemma_filter_narrower<A>(s: Seq<A>, p: spec_fn(A) -> bool, q: spec_fn(A) -> bool)
    requires
        forall|i: int| 0 <= i < s.len() && p(#[trigger] s[i]) ==> q(s[i]),
    ensures
        s.filter(p).len() <= s.filter(q).len(),
    decreases s.len(),
{
    reveal(Seq::filter);
    if s.len() > 0 {
        assert forall|i: int| 0 <= i < s.drop_last().len() && p(
            #[trigger] s.drop_last()[i],
        ) implies q(s.drop_last()[i]) by {
            assert(s.drop_last()[i] == s[i]);
        }
        lemma_filter_narrower(s.drop_last(), p, q);
    }
}

/// How many items meet a condition does not depend on their order.
pub proof fn lemma_filter_len_of_multiset<A>(s: Seq<A>, p: spec_fn(A) -> bool)
    ensures
        s.filter(p).len() == s.to_multiset().filter(p).len(),
    decreases s.len(),
{
    broadcast use group_to_multiset_ensures, vstd::multiset::group_multiset_axioms;

    reveal(Seq::filter);
    if s.len() == 0 {
        assert(s.to_multiset() =~= Multiset::empty());
        assert(s.to_multiset().filter(p) =~= Multiset::empty());
    } else {
        let rest = s.drop_last();
        let last = s.last();
        lemma_filter_len_of_multiset(rest, p);
        assert(s =~= rest.push(last));
        assert(s.to_multiset() =~= rest.to_multiset().insert(last));
        if p(last) {
            assert(s.to_multiset().filter(p) =~= rest.to_multiset().filter(p).insert(last));
        } else {
            assert(s.to_multiset().filter(p) =~= rest.to_multiset().filter(p));
        }
    }
}

} // verus!
