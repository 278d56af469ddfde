//! Lists of declared tips: how one is added, whose count, and which amount is paid.

use crate::bytes::{comes_before, precedes, lemma_order_is_total};
use crate::module::Module;
use crate::runtime::Hashing;
use crate::seqs::{
    lemma_filter_agree, lemma_filter_all, lemma_filter_item, lemma_filter_none,
    lemma_filter_prefix, lemma_filter_suffix,
};
use crate::types::{AccountId, Balance};
use vstd::prelude::*;
use vstd::relations::sorted_by;
use vstd::seq_lib::*;

verus! {

/// Each account occurs once, and the accounts ascend.
pub open spec fn ordered(tips: Seq<(AccountId, Balance)>) -> bool {
    forall|i: int, j: int| 0 <= i < j < tips.len() ==> precedes(tips[i].0, tips[j].0)
}

/// The accounts ascend.
pub open spec fn ascending(members: Seq<AccountId>) -> bool {
    forall|i: int, j: int| 0 <= i < j < members.len() ==> !precedes(members[j], members[i])
}

/// The tips as they are once `who` has declared `value`: all that others declared, and this, at
/// its place.
pub open spec fn declared(
    tips: Seq<(AccountId, Balance)>,
    who: AccountId,
    value: Balance,
) -> Seq<(AccountId, Balance)> {
    tips.filter(|t: (AccountId, Balance)| precedes(t.0, who)) + seq![(who, value)] + tips.filter(
        |t: (AccountId, Balance)| precedes(who, t.0),
    )
}

/// The tips that are left by a walk along the tips and the members side by side, where a tip
/// stays when its account is met among the members.
pub open spec fn retained(
    tips: Seq<(AccountId, Balance)>,
    members: Seq<AccountId>,
) -> Seq<(AccountId, Balance)>
    decreases tips.len() + members.len(),
{
    if tips.len() == 0 || members.len() == 0 {
        Seq::empty()
    } else if precedes(tips[0].0, members[0]) {
        retained(tips.drop_first(), members)
    } else if precedes(members[0], tips[0].0) {
        retained(tips, members.drop_first())
    } else {
        seq![tips[0]] + retained(tips.drop_first(), members.drop_first())
    }
}

/// The tips that members declared.
pub open spec fn by_members(
    tips: Seq<(AccountId, Balance)>,
    members: Seq<AccountId>,
) -> Seq<(AccountId, Balance)> {
    tips.filter(|t: (AccountId, Balance)| members.contains(t.0))
}

/// The amounts that were declared.
pub open spec fn amounts(tips: Seq<(AccountId, Balance)>) -> Seq<Balance> {
    tips.map_values(|t: (AccountId, Balance)| t.1)
}

/// The amount in the middle of those declared; of two in the middle, the larger.
pub open spec fn median(tips: Seq<(AccountId, Balance)>) -> Balance {
    amounts(tips).sort_by(|x: Balance, y: Balance| x <= y)[tips.len() as int / 2]
}

/// Where the tips and the members ascend, the walk leaves the tips of members.
pub proof fn lemma_retained_by_members(tips: Seq<(AccountId, Balance)>, members: Seq<AccountId>)
    requires
        ordered(tips),
        ascending(members),
    ensures
        retained(tips, members) == by_members(tips, members),
    decreases tips.len() + members.len(),
{
    let p = |t: (AccountId, Balance)| members.contains(t.0);
    if tips.len() == 0 {
        lemma_filter_none(tips, p);
    } else if members.len() == 0 {
        lemma_filter_none(tips, p);
    } else {
        let rest = members.drop_first();
        let q = |t: (AccountId, Balance)| rest.contains(t.0);
        assert(forall|a: AccountId|
            members.contains(a) <==> a == members[0] || #[trigger] rest.contains(a)) by {
            assert(members =~= seq![members[0]] + rest);
            assert forall|a: AccountId|
                members.contains(a) <==> a == members[0] || #[trigger] rest.contains(a) by {
                if rest.contains(a) {
                    let i = rest.index_of(a);
                    assert(members[i + 1] == a);
                }
                if members.contains(a) && a != members[0] {
                    let i = members.index_of(a);
                    assert(rest[i - 1] == a);
                }
                if a == members[0] {
                    assert(members.contains(members[0]));
                }
            }
        }
        if precedes(tips[0].0, members[0]) {
            lemma_retained_by_members(tips.drop_first(), members);
            assert(!members.contains(tips[0].0));
            assert(tips =~= seq![tips[0]] + tips.drop_first());
            Seq::filter_distributes_over_add(seq![tips[0]], tips.drop_first(), p);
            lemma_filter_none(seq![tips[0]], p);
        } else if precedes(members[0], tips[0].0) {
            lemma_retained_by_members(tips, rest);
            lemma_filter_agree(tips, p, q);
        } else {
            lemma_order_is_total(tips[0].0, members[0]);
            lemma_retained_by_members(tips.drop_first(), rest);
            assert(tips =~= seq![tips[0]] + tips.drop_first());
            Seq::filter_distributes_over_add(seq![tips[0]], tips.drop_first(), p);
            assert(p(tips[0]));
            lemma_filter_all(seq![tips[0]], p);
            lemma_filter_agree(tips.drop_first(), p, q);
        }
    }
}

/// The walk leaves tips that were there, in the order in which they were there.
pub proof fn lemma_retained_subsequence(tips: Seq<(AccountId, Balance)>, members: Seq<AccountId>)
    ensures
        retained(tips, members).len() <= tips.len(),
        retained(tips, members).len() <= members.len(),
        forall|i: int|
            0 <= i < retained(tips, members).len() ==> tips.contains(
                #[trigger] retained(tips, members)[i],
            ) && members.contains(retained(tips, members)[i].0),
        ordered(tips) ==> ordered(retained(tips, members)),
    decreases tips.len() + members.len(),
{
    if tips.len() == 0 || members.len() == 0 {
    } else {
        let r = retained(tips, members);
        let (t, m) = if precedes(tips[0].0, members[0]) {
            (tips.drop_first(), members)
        } else if precedes(members[0], tips[0].0) {
            (tips, members.drop_first())
        } else {
            (tips.drop_first(), members.drop_first())
        };
        lemma_retained_subsequence(t, m);
        let s = retained(t, m);
        assert forall|i: int| 0 <= i < s.len() implies tips.contains(#[trigger] s[i])
            && members.contains(s[i].0) by {
            let j = t.index_of(s[i]);
            let k = m.index_of(s[i].0);
            assert(tips.contains(t[j]));
            assert(members.contains(m[k]));
        }
        if !precedes(tips[0].0, members[0]) && !precedes(members[0], tips[0].0) {
            lemma_order_is_total(tips[0].0, members[0]);
            assert(r =~= seq![tips[0]] + s);
            assert(tips.contains(tips[0]) && members.contains(members[0]));
            assert forall|i: int| 0 <= i < r.len() implies tips.contains(#[trigger] r[i])
                && members.contains(r[i].0) by {
                if i > 0 {
                    assert(r[i] == s[i - 1]);
                }
            }
            if ordered(tips) {
                assert forall|i: int, j: int| 0 <= i < j < r.len() implies precedes(
                    r[i].0,
                    r[j].0,
                ) by {
                    assert(r[j] == s[j - 1]);
                    if i == 0 {
                        let k = t.index_of(s[j - 1]);
                        assert(t.contains(s[j - 1]));
                        assert(tips[k + 1] == r[j]);
                    } else {
                        assert(r[i] == s[i - 1]);
                    }
                }
            }
        }
    }
}

/// Splits an ordered list of tips at the place of `who`.
proof fn lemma_declared_at(
    tips: Seq<(AccountId, Balance)>,
    who: AccountId,
    value: Balance,
    before: int,
    after: int,
)
    requires
        0 <= before <= after <= tips.len(),
        after <= before + 1,
        forall|i: int| 0 <= i < before ==> precedes((#[trigger] tips[i]).0, who),
        forall|i: int| after <= i < tips.len() ==> precedes(who, (#[trigger] tips[i]).0),
        before < after ==> tips[before].0 == who,
    ensures
        declared(tips, who, value) == tips.take(before) + seq![(who, value)] + tips.skip(after),
{
    let below = |t: (AccountId, Balance)| precedes(t.0, who);
    let above = |t: (AccountId, Balance)| precedes(who, t.0);
    lemma_filter_prefix(tips, before, below);
    lemma_filter_suffix(tips, after, above);
}

/// What is selected from an ordered list of tips is ordered.
proof fn lemma_filter_ordered(
    tips: Seq<(AccountId, Balance)>,
    p: spec_fn((AccountId, Balance)) -> bool,
)
    requires
        ordered(tips),
    ensures
        ordered(tips.filter(p)),
    decreases tips.len(),
{
    reveal(Seq::filter);
    if tips.len() > 0 {
        let rest = tips.drop_last();
        let all = tips.filter(p);
        let some = rest.filter(p);
        assert forall|i: int, j: int| 0 <= i < j < rest.len() implies precedes(
            rest[i].0,
            rest[j].0,
        ) by {
            assert(rest[i] == tips[i] && rest[j] == tips[j]);
        }
        lemma_filter_ordered(rest, p);
        assert forall|i: int, j: int| 0 <= i < j < all.len() implies precedes(
            all[i].0,
            all[j].0,
        ) by {
            assert(all[i] == some[i]);
            if j < some.len() {
                assert(all[j] == some[j]);
            } else {
                lemma_filter_item(rest, p, i);
                let k = rest.index_of(some[i]);
                assert(tips[k] == some[i]);
                assert(all[j] == tips[tips.len() - 1]);
            }
        }
    }
}

/// A declaration keeps a list of tips ordered.
pub proof fn lemma_declared_ordered(
    tips: Seq<(AccountId, Balance)>,
    who: AccountId,
    value: Balance,
)
    requires
        ordered(tips),
    ensures
        ordered(declared(tips, who, value)),
{
    let below = |t: (AccountId, Balance)| precedes(t.0, who);
    let above = |t: (AccountId, Balance)| precedes(who, t.0);
    let low = tips.filter(below);
    let high = tips.filter(above);
    let all = declared(tips, who, value);
    let at = low.len() as int;
    lemma_filter_ordered(tips, below);
    lemma_filter_ordered(tips, above);
    assert forall|i: int, j: int| 0 <= i < j < all.len() implies precedes(all[i].0, all[j].0) by {
        if i < at {
            assert(all[i] == low[i]);
            lemma_filter_item(tips, below, i);
        }
        if j > at {
            assert(all[j] == high[j - at - 1]);
            lemma_filter_item(tips, above, j - at - 1);
        }
        if j < at {
            assert(all[j] == low[j]);
        }
        if i > at {
            assert(all[i] == high[i - at - 1]);
        }
    }
}

/// Whether a list of tips has each account once, and the accounts ascending.
pub fn in_order(tips: &Vec<(AccountId, Balance)>) -> (r: bool)
    ensures
        r == ordered(tips@),
{
    let mut i: usize = 1;
    while i < tips.len()
        invariant
            1 <= i,
            tips@.len() > 0 ==> i <= tips@.len(),
            forall|a: int, b: int|
                0 <= a < b < i && b < tips@.len() ==> precedes(
                    (#[trigger] tips@[a]).0,
                    (#[trigger] tips@[b]).0,
                ),
        decreases tips@.len() - i,
    {
        if !comes_before(&tips[i - 1].0, &tips[i].0) {
            return false;
        }
        assert forall|a: int, b: int| 0 <= a < b < i + 1 && b < tips@.len() implies precedes(
            (#[trigger] tips@[a]).0,
            (#[trigger] tips@[b]).0,
        ) by {
            if b == i && a < i - 1 {
                assert(precedes(tips@[a].0, tips@[i - 1].0));
            }
        }
        i = i + 1;
    }
    true
}

/// The place of `who` in an ordered list of tips: `Ok` where it is, or `Err` with the place
/// where it would be.
fn search(tips: &Vec<(AccountId, Balance)>, who: &AccountId) -> (r: Result<usize, usize>)
    requires
        ordered(tips@),
    ensures
        match r {
            Ok(at) => at < tips@.len() && tips@[at as int].0 == *who,
            Err(at) => at <= tips@.len() && (forall|i: int|
                0 <= i < at ==> precedes((#[trigger] tips@[i]).0, *who)) && (forall|i: int|
                at <= i < tips@.len() ==> precedes(*who, (#[trigger] tips@[i]).0)),
        },
{
    let mut low: usize = 0;
    let mut high: usize = tips.len();
    while low < high
        invariant
            low <= high <= tips@.len(),
            ordered(tips@),
            forall|i: int| 0 <= i < low ==> precedes((#[trigger] tips@[i]).0, *who),
            forall|i: int| high <= i < tips@.len() ==> precedes(*who, (#[trigger] tips@[i]).0),
        decreases high - low,
    {
        let middle: usize = low + (high - low) / 2;
        proof {
            let m = middle as int;
            assert forall|i: int| 0 <= i < m implies precedes(
                (#[trigger] tips@[i]).0,
                tips@[m].0,
            ) by {}
            assert forall|i: int| m < i < tips@.len() implies precedes(
                tips@[m].0,
                (#[trigger] tips@[i]).0,
            ) by {}
        }
        if comes_before(&tips[middle].0, who) {
            low = middle + 1;
        } else if comes_before(who, &tips[middle].0) {
            high = middle;
        } else {
            proof {
                lemma_order_is_total(tips@[middle as int].0, *who);
            }
            return Ok(middle);
        }
    }
    Err(low)
}

/// Adds what `who` declares, in place of what `who` declared before.
pub fn declare(tips: &mut Vec<(AccountId, Balance)>, who: AccountId, value: Balance)
    requires
        ordered(old(tips)@),
    ensures
        final(tips)@ == declared(old(tips)@, who, value),
        ordered(final(tips)@),
{
    let ghost before = tips@;
    match search(tips, &who) {
        Ok(at) => {
            tips.set(at, (who, value));
            proof {
                lemma_declared_at(before, who, value, at as int, at + 1);
                lemma_declared_ordered(before, who, value);
                assert(tips@ =~= declared(before, who, value));
            }
        },
        Err(at) => {
            tips.insert(at, (who, value));
            proof {
                lemma_declared_at(before, who, value, at as int, at as int);
                lemma_declared_ordered(before, who, value);
                assert(tips@ =~= declared(before, who, value));
            }
        },
    }
}

impl<H: Hashing> Module<H> {
    /// Remove any tips of accounts other than `members` from a `tips` vector. `O(T)`.
    ///
    /// Where both lists ascend, what is left is what members declared.
    pub fn retain_active_tips(tips: &mut Vec<(AccountId, Balance)>, members: &Vec<AccountId>)
        ensures
            final(tips)@ == retained(old(tips)@, members@),
            ordered(old(tips)@) && ascending(members@) ==> final(tips)@ == by_members(
                old(tips)@,
                members@,
            ),
            ordered(old(tips)@) ==> ordered(final(tips)@),
    {
        let ghost before = tips@;
        let ghost all = members@;
        let mut kept: Vec<(AccountId, Balance)> = Vec::new();
        let mut i: usize = 0;
        let mut k: usize = 0;
        assert(before.skip(0) =~= before);
        assert(all.skip(0) =~= all);
        while i < tips.len() && k < members.len()
            invariant
                tips@ == before,
                members@ == all,
                i <= before.len(),
                k <= all.len(),
                retained(before, all) =~= kept@ + retained(before.skip(i as int), all.skip(k as int)),
            decreases before.len() - i + all.len() - k,
        {
            proof {
                assert(before.skip(i as int)[0] == before[i as int]);
                assert(all.skip(k as int)[0] == all[k as int]);
                assert(before.skip(i as int).drop_first() =~= before.skip(i + 1));
                assert(all.skip(k as int).drop_first() =~= all.skip(k + 1));
            }
            if comes_before(&tips[i].0, &members[k]) {
                i = i + 1;
            } else if comes_before(&members[k], &tips[i].0) {
                k = k + 1;
            } else {
                kept.push(tips[i]);
                i = i + 1;
                k = k + 1;
            }
        }
        proof {
            assert(retained(before.skip(i as int), all.skip(k as int)) =~= Seq::empty());
            lemma_retained_subsequence(before, all);
            if ordered(before) && ascending(all) {
                lemma_retained_by_members(before, all);
            }
        }
        *tips = kept;
    }
}

/// Amounts in ascending order, sorted by insertion.
fn sort(items: &Vec<Balance>) -> (r: Vec<Balance>)
    ensures
        r@ == items@.sort_by(|x: Balance, y: Balance| x <= y),
{
    let ghost leq = |x: Balance, y: Balance| x <= y;
    let mut r: Vec<Balance> = Vec::new();
    let mut i: usize = 0;
    assert(items@.take(0) =~= r@);
    while i < items.len()
        invariant
            i <= items@.len(),
            r@.len() == i,
            r@.to_multiset() == items@.take(i as int).to_multiset(),
            forall|a: int, b: int| 0 <= a < b < r@.len() ==> r@[a] <= r@[b],
        decreases items@.len() - i,
    {
        let item: Balance = items[i];
        let mut at: usize = r.len();
        while at > 0 && r[at - 1] > item
            invariant
                at <= r@.len(),
                forall|b: int| at <= b < r@.len() ==> r@[b] > item,
            decreases at,
        {
            at = at - 1;
        }
        let ghost before = r@;
        r.insert(at, item);
        proof {
            broadcast use group_to_multiset_ensures;

            assert(r@ =~= before.insert(at as int, item));
            to_multiset_insert(before, at as int, item);
            assert(items@.take(i + 1) =~= items@.take(i as int).push(item));
        }
        i = i + 1;
    }
    proof {
        assert(items@.take(i as int) =~= items@);
        items@.lemma_sort_by_ensures(leq);
        assert(sorted_by(r@, leq));
        lemma_sorted_unique(r@, items@.sort_by(leq), leq);
    }
    r
}

/// The amount in the middle of those declared.
pub fn median_of(tips: &Vec<(AccountId, Balance)>) -> (r: Balance)
    requires
        tips@.len() > 0,
    ensures
        r == median(tips@),
{
    let mut values: Vec<Balance> = Vec::new();
    let mut i: usize = 0;
    while i < tips.len()
        invariant
            i <= tips@.len(),
            values@ =~= amounts(tips@.take(i as int)),
        decreases tips@.len() - i,
    {
        values.push(tips[i].1);
        i = i + 1;
    }
    assert(values@ =~= amounts(tips@)) by {
        assert(tips@.take(i as int) =~= tips@);
    }
    let sorted: Vec<Balance> = sort(&values);
    proof {
        broadcast use group_to_multiset_ensures;

        let leq = |x: Balance, y: Balance| x <= y;
        values@.lemma_sort_by_ensures(leq);
        assert(sorted@.len() == sorted@.to_multiset().len());
        assert(values@.len() == values@.to_multiset().len());
    }
    sorted[tips.len() / 2]
}

} // verus!
