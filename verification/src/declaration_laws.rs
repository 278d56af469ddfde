//! What holds of several declarations for one tip: declaring again, the order of declarations,
//! and when the closing begins.

use crate::bytes::{lemma_order_is_total, precedes};
use crate::seqs::{
    lemma_filter_agree, lemma_filter_again, lemma_filter_all, lemma_filter_item, lemma_filter_none,
    lemma_filter_push, lemma_filter_twice,
};
use crate::tipping_laws::law_redeclared;
use crate::tips::{
    ascending, by_members, declared, lemma_declared_ordered, lemma_retained_by_members,
    lemma_retained_subsequence, ordered, retained,
};
use crate::types::{AccountId, Balance, BlockNumber, TipView};
use vstd::prelude::*;

verus! {

/// A declaration for a tip, with what the chain says when it is made.
pub struct Declaration {
    /// Those who may tip.
    pub members: Seq<AccountId>,
    /// Who declares.
    pub tipper: AccountId,
    /// What is declared.
    pub value: Balance,
    /// The current block.
    pub now: BlockNumber,
    /// How long a tip stays open once it has enough tippers.
    pub countdown: BlockNumber,
}

impl TipView {
    /// The declaration has the tip begin to close.
    pub open spec fn closed_by(self, d: Declaration) -> bool {
        self.with_tip(d.members, d.tipper, d.value).begins_closing(d.members)
    }

    /// The tip after a declaration.
    pub open spec fn after(self, d: Declaration) -> TipView {
        self.with_tip(d.members, d.tipper, d.value).with_closing(d.members, d.now, d.countdown)
    }

    /// The tip after some declarations.
    pub open spec fn after_all(self, ds: Seq<Declaration>) -> TipView
        decreases ds.len(),
    {
        if ds.len() == 0 {
            self
        } else {
            self.after_all(ds.drop_last()).after(ds.last())
        }
    }

    /// Of some declarations, the one at `i` has the tip begin to close.
    pub open spec fn closed_at(self, ds: Seq<Declaration>, i: int) -> bool {
        self.after_all(ds.take(i)).closed_by(ds[i])
    }
}

// When the closing begins

/// A closing that is scheduled stays as it is.
proof fn lemma_closing_stays(tip: TipView, ds: Seq<Declaration>, i: int, k: int)
    requires
        0 <= i <= k <= ds.len(),
        tip.after_all(ds.take(i)).closes is Some,
    ensures
        tip.after_all(ds.take(k)).closes == tip.after_all(ds.take(i)).closes,
    decreases k,
{
    if i < k {
        lemma_closing_stays(tip, ds, i, k - 1);
        assert(ds.take(k).drop_last() =~= ds.take(k - 1));
    }
}

/// Of any declarations for a tip, whoever makes them, for whatever amounts, at whatever blocks,
/// and whoever the members are then, at most one has the tip begin to close. It schedules the
/// closing for the end of its countdown, and no later declaration changes that. None does where a
/// closing was scheduled before.
pub proof fn law_closing_begins_once(tip: TipView, ds: Seq<Declaration>)
    ensures
        forall|i: int, j: int|
            0 <= i < j < ds.len() && #[trigger] tip.closed_at(ds, i) ==> !(
            #[trigger] tip.closed_at(ds, j)),
        forall|i: int, k: int|
            0 <= i < k <= ds.len() && #[trigger] tip.closed_at(ds, i) ==> (
            #[trigger] tip.after_all(ds.take(k))).closes == Some(
                (ds[i].now + ds[i].countdown) as BlockNumber,
            ),
        tip.closes is Some ==> forall|k: int|
            0 <= k <= ds.len() ==> (#[trigger] tip.after_all(ds.take(k))).closes == tip.closes,
        tip.closes is Some ==> forall|i: int|
            0 <= i < ds.len() ==> !(#[trigger] tip.closed_at(ds, i)),
{
    assert forall|i: int, k: int|
        0 <= i < k <= ds.len() && #[trigger] tip.closed_at(ds, i) implies (
    #[trigger] tip.after_all(ds.take(k))).closes == Some(
        (ds[i].now + ds[i].countdown) as BlockNumber,
    ) by {
        assert(ds.take(i + 1).drop_last() =~= ds.take(i));
        lemma_closing_stays(tip, ds, i + 1, k);
    }
    assert forall|i: int, j: int|
        0 <= i < j < ds.len() && #[trigger] tip.closed_at(ds, i) implies !(
    #[trigger] tip.closed_at(ds, j)) by {
        assert(tip.after_all(ds.take(j)).closes is Some);
    }
    if tip.closes is Some {
        assert(ds.take(0) =~= Seq::empty());
        assert forall|k: int| 0 <= k <= ds.len() implies (
        #[trigger] tip.after_all(ds.take(k))).closes == tip.closes by {
            lemma_closing_stays(tip, ds, 0, k);
        }
        assert forall|i: int| 0 <= i < ds.len() implies !(#[trigger] tip.closed_at(ds, i)) by {
            assert(tip.after_all(ds.take(i)).closes is Some);
        }
    }
}

// Declaring again, and the order of declarations

/// Whether or not tips of others than members are dropped before a declaration makes no
/// difference once they are dropped after it.
proof fn lemma_members_before_and_after(
    tips: Seq<(AccountId, Balance)>,
    members: Seq<AccountId>,
    who: AccountId,
    value: Balance,
)
    ensures
        by_members(declared(by_members(tips, members), who, value), members) == by_members(
            declared(tips, who, value),
            members,
        ),
{
    let m = |t: (AccountId, Balance)| members.contains(t.0);
    let below = |t: (AccountId, Balance)| precedes(t.0, who);
    let above = |t: (AccountId, Balance)| precedes(who, t.0);
    let one = seq![(who, value)];
    let some = tips.filter(m);
    Seq::filter_distributes_over_add(some.filter(below) + one, some.filter(above), m);
    Seq::filter_distributes_over_add(some.filter(below), one, m);
    Seq::filter_distributes_over_add(tips.filter(below) + one, tips.filter(above), m);
    Seq::filter_distributes_over_add(tips.filter(below), one, m);
    lemma_filter_again(tips, below, m);
    lemma_filter_again(tips, above, m);
}

/// How many tips of members there are after a declaration.
proof fn lemma_declared_by_members_len(
    tips: Seq<(AccountId, Balance)>,
    members: Seq<AccountId>,
    who: AccountId,
    value: Balance,
)
    ensures
        by_members(declared(tips, who, value), members).len() == by_members(
            tips.filter(|t: (AccountId, Balance)| precedes(t.0, who)),
            members,
        ).len() + by_members(
            tips.filter(|t: (AccountId, Balance)| precedes(who, t.0)),
            members,
        ).len() + if members.contains(who) {
            1int
        } else {
            0int
        },
{
    let m = |t: (AccountId, Balance)| members.contains(t.0);
    let low = tips.filter(|t: (AccountId, Balance)| precedes(t.0, who));
    let high = tips.filter(|t: (AccountId, Balance)| precedes(who, t.0));
    let one = seq![(who, value)];
    Seq::filter_distributes_over_add(low + one, high, m);
    Seq::filter_distributes_over_add(low, one, m);
    if members.contains(who) {
        lemma_filter_all(one, m);
    } else {
        lemma_filter_none(one, m);
    }
}

/// Of two declarations by different tippers it makes no difference which comes first, where `a`
/// comes before `b` in the order of accounts.
proof fn lemma_declared_in_either_order(
    tips: Seq<(AccountId, Balance)>,
    a: (AccountId, Balance),
    b: (AccountId, Balance),
)
    requires
        precedes(a.0, b.0),
    ensures
        declared(declared(tips, a.0, a.1), b.0, b.1) == declared(
            declared(tips, b.0, b.1),
            a.0,
            a.1,
        ),
{
    let below_a = |t: (AccountId, Balance)| precedes(t.0, a.0);
    let above_a = |t: (AccountId, Balance)| precedes(a.0, t.0);
    let below_b = |t: (AccountId, Balance)| precedes(t.0, b.0);
    let above_b = |t: (AccountId, Balance)| precedes(b.0, t.0);
    let low = tips.filter(below_a);
    let after_a = tips.filter(above_a);
    let before_b = tips.filter(below_b);
    let high = tips.filter(above_b);
    let one_a = seq![a];
    let one_b = seq![b];

    // First `a`, then `b`.
    Seq::filter_distributes_over_add(low + one_a, after_a, below_b);
    Seq::filter_distributes_over_add(low, one_a, below_b);
    Seq::filter_distributes_over_add(low + one_a, after_a, above_b);
    Seq::filter_distributes_over_add(low, one_a, above_b);
    assert forall|i: int| 0 <= i < low.len() implies below_b(#[trigger] low[i]) && !above_b(
        low[i],
    ) by {
        lemma_filter_item(tips, below_a, i);
    }
    lemma_filter_all(low, below_b);
    lemma_filter_none(low, above_b);
    lemma_filter_all(one_a, below_b);
    lemma_filter_none(one_a, above_b);
    lemma_filter_twice(tips, above_a, above_b);
    lemma_filter_agree(tips, |t: (AccountId, Balance)| above_a(t) && above_b(t), above_b);

    // First `b`, then `a`.
    Seq::filter_distributes_over_add(before_b + one_b, high, below_a);
    Seq::filter_distributes_over_add(before_b, one_b, below_a);
    Seq::filter_distributes_over_add(before_b + one_b, high, above_a);
    Seq::filter_distributes_over_add(before_b, one_b, above_a);
    assert forall|i: int| 0 <= i < high.len() implies !below_a(#[trigger] high[i]) && above_a(
        high[i],
    ) by {
        lemma_filter_item(tips, above_b, i);
    }
    lemma_filter_none(high, below_a);
    lemma_filter_all(high, above_a);
    lemma_filter_none(one_b, below_a);
    lemma_filter_all(one_b, above_a);
    lemma_filter_twice(tips, below_b, below_a);
    lemma_filter_agree(tips, |t: (AccountId, Balance)| below_b(t) && below_a(t), below_a);

    // What is between the two.
    lemma_filter_twice(tips, above_a, below_b);
    lemma_filter_twice(tips, below_b, above_a);
    lemma_filter_agree(
        tips,
        |t: (AccountId, Balance)| above_a(t) && below_b(t),
        |t: (AccountId, Balance)| below_b(t) && above_a(t),
    );
    let between = after_a.filter(below_b);
    assert(declared(declared(tips, a.0, a.1), b.0, b.1) =~= low + one_a + between + one_b + high);
    assert(declared(declared(tips, b.0, b.1), a.0, a.1) =~= low + one_a + between + one_b + high);
}

/// In an ordered list of tips, all but at most one are of accounts before or after `who`, and all
/// are where none is of `who`.
proof fn lemma_before_and_after(tips: Seq<(AccountId, Balance)>, who: AccountId)
    requires
        ordered(tips),
    ensures
        ({
            let low = tips.filter(|t: (AccountId, Balance)| precedes(t.0, who));
            let high = tips.filter(|t: (AccountId, Balance)| precedes(who, t.0));
            &&& low.len() + high.len() + 1 >= tips.len()
            &&& (forall|i: int| 0 <= i < tips.len() ==> (#[trigger] tips[i]).0 != who)
                ==> low.len() + high.len() == tips.len()
        }),
    decreases tips.len(),
{
    let below = |t: (AccountId, Balance)| precedes(t.0, who);
    let above = |t: (AccountId, Balance)| precedes(who, t.0);
    if tips.len() > 0 {
        let rest = tips.drop_last();
        let last = tips.last();
        assert(tips =~= rest.push(last));
        lemma_filter_push(rest, last, below);
        lemma_filter_push(rest, last, above);
        assert forall|i: int, j: int| 0 <= i < j < rest.len() implies precedes(
            rest[i].0,
            rest[j].0,
        ) by {
            assert(rest[i] == tips[i] && rest[j] == tips[j]);
        }
        if last.0 == who {
            assert forall|i: int| 0 <= i < rest.len() implies below(#[trigger] rest[i]) by {
                assert(rest[i] == tips[i]);
                assert(precedes(tips[i].0, tips[tips.len() - 1].0));
            }
            lemma_filter_all(rest, below);
        } else {
            lemma_order_is_total(last.0, who);
            lemma_before_and_after(rest, who);
            if forall|i: int| 0 <= i < tips.len() ==> (#[trigger] tips[i]).0 != who {
                assert forall|i: int| 0 <= i < rest.len() implies (#[trigger] rest[i]).0 != who by {
                    assert(rest[i] == tips[i]);
                }
            }
        }
    } else {
        lemma_filter_none(tips, below);
        lemma_filter_none(tips, above);
    }
}

/// A declaration does not make the tips of members fewer.
proof fn lemma_declaration_adds(
    tips: Seq<(AccountId, Balance)>,
    members: Seq<AccountId>,
    who: AccountId,
    value: Balance,
)
    requires
        ordered(tips),
        forall|i: int| 0 <= i < tips.len() ==> members.contains((#[trigger] tips[i]).0),
    ensures
        by_members(declared(tips, who, value), members).len() >= tips.len(),
{
    let m = |t: (AccountId, Balance)| members.contains(t.0);
    let below = |t: (AccountId, Balance)| precedes(t.0, who);
    let above = |t: (AccountId, Balance)| precedes(who, t.0);
    let low = tips.filter(below);
    let high = tips.filter(above);
    assert forall|i: int| 0 <= i < low.len() implies m(#[trigger] low[i]) by {
        lemma_filter_item(tips, below, i);
        assert(tips[tips.index_of(low[i])] == low[i]);
    }
    assert forall|i: int| 0 <= i < high.len() implies m(#[trigger] high[i]) by {
        lemma_filter_item(tips, above, i);
        assert(tips[tips.index_of(high[i])] == high[i]);
    }
    lemma_filter_all(low, m);
    lemma_filter_all(high, m);
    lemma_declared_by_members_len(tips, members, who, value);
    lemma_before_and_after(tips, who);
}

/// The tips after a declaration, where the members are listed in order.
proof fn lemma_tips_after(tip: TipView, d: Declaration)
    requires
        ordered(tip.tips),
        ascending(d.members),
    ensures
        tip.after(d).tips == by_members(declared(tip.tips, d.tipper, d.value), d.members),
        ordered(tip.after(d).tips),
        forall|i: int|
            0 <= i < tip.after(d).tips.len() ==> d.members.contains(
                (#[trigger] tip.after(d).tips[i]).0,
            ),
{
    let all = declared(tip.tips, d.tipper, d.value);
    lemma_declared_ordered(tip.tips, d.tipper, d.value);
    lemma_retained_by_members(all, d.members);
    lemma_retained_subsequence(all, d.members);
    assert(tip.after(d).tips == retained(all, d.members));
}

/// A tipper who declares again, at the same block and with the same members, leaves the tip as if
/// it had made the second declaration alone: nothing is left of the first.
pub proof fn law_redeclaration_replaces(tip: TipView, d: Declaration, first: Balance)
    requires
        ordered(tip.tips),
        ascending(d.members),
    ensures
        tip.after(Declaration { value: first, ..d }).after(d) == tip.after(d),
{
    let e = Declaration { value: first, ..d };
    let once = tip.after(e);
    lemma_tips_after(tip, e);
    lemma_tips_after(tip, d);
    lemma_tips_after(once, d);
    lemma_members_before_and_after(
        declared(tip.tips, d.tipper, first),
        d.members,
        d.tipper,
        d.value,
    );
    law_redeclared(tip.tips, d.tipper, first, d.value);
    lemma_declared_by_members_len(tip.tips, d.members, d.tipper, first);
    lemma_declared_by_members_len(tip.tips, d.members, d.tipper, d.value);
    assert(once.after(d) =~= tip.after(d));
}

/// Two tippers who declare at the same block and with the same members leave the same tip, its
/// declarations and its closing, whichever of them is first.
pub proof fn law_order_of_tippers(tip: TipView, d: Declaration, e: Declaration)
    requires
        ordered(tip.tips),
        ascending(d.members),
        d.tipper != e.tipper,
        d.members == e.members,
        d.now == e.now,
        d.countdown == e.countdown,
    ensures
        tip.after(d).after(e) == tip.after(e).after(d),
{
    lemma_tips_after(tip, d);
    lemma_tips_after(tip, e);
    lemma_tips_after(tip.after(d), e);
    lemma_tips_after(tip.after(e), d);
    lemma_members_before_and_after(
        declared(tip.tips, d.tipper, d.value),
        d.members,
        e.tipper,
        e.value,
    );
    lemma_members_before_and_after(
        declared(tip.tips, e.tipper, e.value),
        d.members,
        d.tipper,
        d.value,
    );
    lemma_order_is_total(d.tipper, e.tipper);
    if precedes(d.tipper, e.tipper) {
        lemma_declared_in_either_order(tip.tips, (d.tipper, d.value), (e.tipper, e.value));
    } else {
        lemma_declared_in_either_order(tip.tips, (e.tipper, e.value), (d.tipper, d.value));
    }
    lemma_declaration_adds(tip.after(d).tips, d.members, e.tipper, e.value);
    lemma_declaration_adds(tip.after(e).tips, d.members, d.tipper, d.value);
    assert(tip.after(d).after(e) =~= tip.after(e).after(d));
}

} // verus!
