//! What holds of tipping: properties that relate several calls, or that hold of all inputs.

use crate::amount_laws::law_portion_nearest;
use crate::bytes::{lemma_order_is_total, precedes};
use crate::effects::{lemma_total_of_few, total};
use crate::module::{State, pot_of, reason_hash, tip_hash, treasury_account};
use crate::record_laws::{returned, returned_by, slashed, slashed_by};
use crate::runtime::{Hashing, capped, lemma_portion_within};
use crate::seqs::{
    lemma_filter_agree, lemma_filter_around, lemma_filter_item, lemma_filter_len_of_multiset,
    lemma_filter_narrower,
};
use crate::tipping::{MAX_SENSIBLE_REASON_LENGTH, closing_effects, signed_by_member};
use crate::tips::{
    amounts, ascending, by_members, declared, lemma_declared_ordered, lemma_retained_by_members,
    lemma_retained_subsequence, median, ordered, retained,
};
use crate::types::{
    AccountId, Balance, BlockNumber, DispatchError, Effect, Error, Event, Funds, H256, Parameters,
    RawOrigin, TipView,
};
use vstd::math::min;
use vstd::prelude::*;
use vstd::seq_lib::*;

verus! {

// Declared amounts, and the one that is paid

/// A tipper who declares again replaces what it declared before.
pub proof fn law_redeclared(
    tips: Seq<(AccountId, Balance)>,
    who: AccountId,
    first: Balance,
    second: Balance,
)
    ensures
        declared(declared(tips, who, first), who, second) == declared(tips, who, second),
{
    let below = |t: (AccountId, Balance)| precedes(t.0, who);
    let above = |t: (AccountId, Balance)| precedes(who, t.0);
    let low = tips.filter(below);
    let high = tips.filter(above);
    assert forall|i: int| 0 <= i < low.len() implies below(#[trigger] low[i]) && !above(low[i]) by {
        lemma_filter_item(tips, below, i);
    }
    assert forall|i: int| 0 <= i < high.len() implies !below(#[trigger] high[i]) && above(
        high[i],
    ) by {
        lemma_filter_item(tips, above, i);
    }
    lemma_filter_around(low, (who, first), high, below, above);
}

/// A declaration is there once it is made, it is the only one of its tipper, and those of others
/// are what they were.
pub proof fn law_declaration(
    tips: Seq<(AccountId, Balance)>,
    who: AccountId,
    value: Balance,
    other: (AccountId, Balance),
)
    ensures
        declared(tips, who, value).contains((who, value)),
        other.0 == who ==> (declared(tips, who, value).contains(other) <==> other.1 == value),
        other.0 != who ==> (declared(tips, who, value).contains(other) <==> tips.contains(other)),
{
    let below = |t: (AccountId, Balance)| precedes(t.0, who);
    let above = |t: (AccountId, Balance)| precedes(who, t.0);
    let low = tips.filter(below);
    let high = tips.filter(above);
    let after = declared(tips, who, value);
    assert(after == low + seq![(who, value)] + high);
    assert(after[low.len() as int] == (who, value));
    if after.contains(other) {
        let k = after.index_of(other);
        if k < low.len() {
            assert(after[k] == low[k]);
            lemma_filter_item(tips, below, k);
        } else if k > low.len() {
            assert(after[k] == high[k - low.len() - 1]);
            lemma_filter_item(tips, above, k - low.len() - 1);
        }
    }
    if tips.contains(other) && other.0 != who {
        lemma_order_is_total(other.0, who);
        let at = tips.index_of(other);
        assert(tips[at] == other);
        if precedes(other.0, who) {
            tips.lemma_filter_contains(below, at);
            let k = low.index_of(other);
            assert(after[k] == other);
        } else {
            tips.lemma_filter_contains(above, at);
            let k = high.index_of(other);
            assert(after[low.len() + 1 + k] == other);
        }
    }
}

/// The walk along the members leaves the tips of members and no others, in their order, where the
/// members are listed in order.
pub proof fn law_only_members_count(tips: Seq<(AccountId, Balance)>, members: Seq<AccountId>)
    requires
        ordered(tips),
        ascending(members),
    ensures
        retained(tips, members) == by_members(tips, members),
        forall|t: (AccountId, Balance)| #[trigger]
            retained(tips, members).contains(t) <==> tips.contains(t) && members.contains(t.0),
        forall|i: int, j: int|
            0 <= i < j < retained(tips, members).len() ==> precedes(
                retained(tips, members)[i].0,
                retained(tips, members)[j].0,
            ),
{
    let m = |t: (AccountId, Balance)| members.contains(t.0);
    lemma_retained_by_members(tips, members);
    lemma_retained_subsequence(tips, members);
    let left = retained(tips, members);
    assert forall|t: (AccountId, Balance)| #[trigger] left.contains(t) <==> tips.contains(t)
        && members.contains(t.0) by {
        if left.contains(t) {
            assert(left[left.index_of(t)] == t);
        }
        if tips.contains(t) && members.contains(t.0) {
            tips.lemma_filter_contains(m, tips.index_of(t));
        }
    }
    assert(ordered(left));
}

proof fn lemma_sorted_amounts(tips: Seq<(AccountId, Balance)>)
    ensures
        ({
            let sorted = amounts(tips).sort_by(|x: Balance, y: Balance| x <= y);
            &&& sorted.len() == tips.len()
            &&& sorted.to_multiset() == amounts(tips).to_multiset()
            &&& forall|i: int, j: int| 0 <= i <= j < sorted.len() ==> sorted[i] <= sorted[j]
        }),
{
    broadcast use group_to_multiset_ensures;

    let leq = |x: Balance, y: Balance| x <= y;
    let all = amounts(tips);
    all.lemma_sort_by_ensures(leq);
    let sorted = all.sort_by(leq);
    assert(all.len() == all.to_multiset().len());
    assert(sorted.len() == sorted.to_multiset().len());
    assert forall|i: int, j: int| 0 <= i <= j < sorted.len() implies sorted[i] <= sorted[j] by {
        if i < j {
            assert(leq(sorted[i], sorted[j]));
        }
    }
}

/// The median is one of the amounts that were declared. At most half of the amounts are below
/// it, and fewer than half are above it.
pub proof fn law_median_in_the_middle(tips: Seq<(AccountId, Balance)>)
    requires
        tips.len() > 0,
    ensures
        amounts(tips).contains(median(tips)),
        2 * amounts(tips).filter(|x: Balance| x < median(tips)).len() <= tips.len(),
        2 * amounts(tips).filter(|x: Balance| x > median(tips)).len() < tips.len(),
        exists|i: int| 0 <= i < tips.len() && (#[trigger] tips[i]).1 == median(tips),
        2 * tips.filter(|t: (AccountId, Balance)| t.1 < median(tips)).len() <= tips.len(),
        2 * tips.filter(|t: (AccountId, Balance)| t.1 > median(tips)).len() < tips.len(),
{
    let all = amounts(tips);
    let sorted = all.sort_by(|x: Balance, y: Balance| x <= y);
    let at = tips.len() as int / 2;
    let m = median(tips);
    let lower = |x: Balance| x < m;
    let higher = |x: Balance| x > m;
    lemma_sorted_amounts(tips);
    assert(m == sorted[at]);
    assert(all.contains(m)) by {
        broadcast use group_to_multiset_ensures;

        assert(sorted.contains(sorted[at]));
        assert(sorted.to_multiset().count(m) > 0);
        assert(all.to_multiset().count(m) > 0);
    }
    lemma_filter_len_of_multiset(all, lower);
    lemma_filter_len_of_multiset(sorted, lower);
    lemma_filter_len_of_multiset(all, higher);
    lemma_filter_len_of_multiset(sorted, higher);
    lemma_filter_below(sorted, at, lower);
    lemma_filter_above(sorted, at + 1, higher);
    let k = all.index_of(m);
    assert(all[k] == m && all[k] == tips[k].1);
    lemma_filter_amounts(tips, lower);
    lemma_filter_amounts(tips, higher);
    lemma_filter_agree(
        tips,
        |t: (AccountId, Balance)| lower(t.1),
        |t: (AccountId, Balance)| t.1 < median(tips),
    );
    lemma_filter_agree(
        tips,
        |t: (AccountId, Balance)| higher(t.1),
        |t: (AccountId, Balance)| t.1 > median(tips),
    );
}

/// As many amounts meet a condition as there are tips of such amounts.
proof fn lemma_filter_amounts(tips: Seq<(AccountId, Balance)>, p: spec_fn(Balance) -> bool)
    ensures
        amounts(tips).filter(p).len() == tips.filter(|t: (AccountId, Balance)| p(t.1)).len(),
    decreases tips.len(),
{
    reveal(Seq::filter);
    if tips.len() > 0 {
        lemma_filter_amounts(tips.drop_last(), p);
        assert(amounts(tips).drop_last() =~= amounts(tips.drop_last()));
    }
}

/// A condition that no item from `at` on meets selects at most `at` items.
proof fn lemma_filter_below<A>(s: Seq<A>, at: int, p: spec_fn(A) -> bool)
    requires
        0 <= at <= s.len(),
        forall|i: int| at <= i < s.len() ==> !p(#[trigger] s[i]),
    ensures
        s.filter(p).len() <= at,
    decreases s.len(),
{
    reveal(Seq::filter);
    if s.len() > at {
        let rest = s.drop_last();
        assert forall|i: int| at <= i < rest.len() implies !p(#[trigger] rest[i]) by {
            assert(rest[i] == s[i]);
        }
        lemma_filter_below(rest, at, p);
    } else {
        s.lemma_filter_len(p);
    }
}

/// A condition that no item before `at` meets selects at most the items from there on.
proof fn lemma_filter_above<A>(s: Seq<A>, at: int, p: spec_fn(A) -> bool)
    requires
        0 <= at <= s.len(),
        forall|i: int| 0 <= i < at ==> !p(#[trigger] s[i]),
    ensures
        s.filter(p).len() <= s.len() - at,
    decreases s.len(),
{
    reveal(Seq::filter);
    if s.len() > at {
        let rest = s.drop_last();
        assert forall|i: int| 0 <= i < at implies !p(#[trigger] rest[i]) by {
            assert(rest[i] == s[i]);
        }
        lemma_filter_above(rest, at, p);
    } else {
        lemma_filter_below(s, 0, p);
    }
}

/// An amount that more than half of the tippers declared is the median.
pub proof fn law_majority_decides(tips: Seq<(AccountId, Balance)>, value: Balance)
    requires
        2 * amounts(tips).filter(|x: Balance| x == value).len() > tips.len(),
    ensures
        median(tips) == value,
{
    let all = amounts(tips);
    let m = median(tips);
    let agree = |x: Balance| x == value;
    all.lemma_filter_len(agree);
    law_median_in_the_middle(tips);
    if value < m {
        lemma_filter_narrower(all, agree, |x: Balance| x < m);
    }
    if value > m {
        lemma_filter_narrower(all, agree, |x: Balance| x > m);
    }
}

/// The median depends on which amounts were declared, not on who declared which, nor on their
/// order.
pub proof fn law_median_of_amounts(
    tips: Seq<(AccountId, Balance)>,
    others: Seq<(AccountId, Balance)>,
)
    requires
        amounts(tips).to_multiset() == amounts(others).to_multiset(),
    ensures
        median(tips) == median(others),
{
    broadcast use group_to_multiset_ensures;

    let leq = |x: Balance, y: Balance| x <= y;
    lemma_sorted_amounts(tips);
    lemma_sorted_amounts(others);
    amounts(tips).lemma_sort_by_ensures(leq);
    amounts(others).lemma_sort_by_ensures(leq);
    lemma_sorted_unique(amounts(tips).sort_by(leq), amounts(others).sort_by(leq), leq);
}

// The course of a tip

/// Declaring an amount leaves a tip's reason, beneficiary and finder as they are, and a closing
/// that is scheduled. Only members are listed afterwards. Where no closing was scheduled, one is
/// at the end of the countdown if and only if half of the members are listed.
pub proof fn law_course_of_a_tip(
    tip: TipView,
    members: Seq<AccountId>,
    tipper: AccountId,
    value: Balance,
    now: BlockNumber,
    countdown: BlockNumber,
)
    ensures
        ({
            let after = tip.with_tip(members, tipper, value).with_closing(members, now, countdown);
            &&& after.reason == tip.reason
            &&& after.who == tip.who
            &&& after.finder == tip.finder
            &&& tip.closes is Some ==> after.closes == tip.closes
            &&& tip.closes is None ==> after.closes == if 2 * after.tips.len() >= members.len() {
                Some((now + countdown) as BlockNumber)
            } else {
                None::<BlockNumber>
            }
            &&& forall|i: int|
                0 <= i < after.tips.len() ==> members.contains((#[trigger] after.tips[i]).0)
        }),
{
    lemma_retained_subsequence(declared(tip.tips, tipper, value), members);
}

/// A member who tips is listed with the amount that it declared, where the members are listed in
/// order.
pub proof fn law_tip_counts(
    tip: TipView,
    members: Seq<AccountId>,
    tipper: AccountId,
    value: Balance,
)
    requires
        ordered(tip.tips),
        ascending(members),
        members.contains(tipper),
    ensures
        tip.with_tip(members, tipper, value).tips.contains((tipper, value)),
{
    let all = declared(tip.tips, tipper, value);
    lemma_declared_ordered(tip.tips, tipper, value);
    law_declaration(tip.tips, tipper, value, (tipper, value));
    law_only_members_count(all, members);
    let at = all.index_of((tipper, value));
    assert(all[at] == (tipper, value));
    all.lemma_filter_contains(|t: (AccountId, Balance)| members.contains(t.0), at);
}

/// After a declaration a tip lists, in order, what members declared: what the tipper declares now,
/// where it is a member, and what the other members on the list declared before.
pub proof fn law_listed_after_declaration(
    tip: TipView,
    members: Seq<AccountId>,
    tipper: AccountId,
    value: Balance,
    t: (AccountId, Balance),
)
    requires
        ordered(tip.tips),
        ascending(members),
    ensures
        ({
            let after = tip.with_tip(members, tipper, value);
            &&& after.tips.contains(t) <==> members.contains(t.0) && if t.0 == tipper {
                t.1 == value
            } else {
                tip.tips.contains(t)
            }
            &&& forall|i: int, j: int|
                0 <= i < j < after.tips.len() ==> precedes(after.tips[i].0, after.tips[j].0)
        }),
{
    let all = declared(tip.tips, tipper, value);
    lemma_declared_ordered(tip.tips, tipper, value);
    law_declaration(tip.tips, tipper, value, t);
    law_only_members_count(all, members);
}

/// That a tip begins to close is recorded if and only if the declaration schedules its closing.
/// Nothing else is asked for.
pub proof fn law_closing_recorded(
    tip: TipView,
    members: Seq<AccountId>,
    tipper: AccountId,
    value: Balance,
    now: BlockNumber,
    countdown: BlockNumber,
    hash: H256,
)
    ensures
        ({
            let listed = tip.with_tip(members, tipper, value);
            let after = listed.with_closing(members, now, countdown);
            let effects = closing_effects(listed.begins_closing(members), hash);
            &&& after.closes == tip.closes ==> effects.len() == 0
            &&& after.closes != tip.closes ==> effects.len() == 1 && effects[0] == Effect::Emit(
                Event::TipClosing(hash),
            )
        }),
{
}

/// A tip cannot be closed before its countdown is over: not while no closing is scheduled, and
/// not before the block that the countdown leads to.
pub proof fn law_countdown<H: Hashing>(
    state: State<H>,
    hash: H256,
    members: Seq<AccountId>,
    tipper: AccountId,
    value: Balance,
    now: BlockNumber,
    countdown: BlockNumber,
    origin: RawOrigin,
    later: BlockNumber,
)
    requires
        state.tips.contains_key(hash),
        state.tips[hash].closes is None,
        origin is Signed,
        now + countdown <= BlockNumber::MAX,
    ensures
        ({
            let tip = state.tips[hash].with_tip(members, tipper, value);
            let after = state.with_tip_at(hash, tip.with_closing(members, now, countdown));
            after.close_refusal(origin, later, hash) == if !tip.begins_closing(members) {
                Some(DispatchError::Module(Error::StillOpen))
            } else if later < now + countdown {
                Some(DispatchError::Module(Error::Premature))
            } else {
                None::<DispatchError>
            }
        }),
{
}

// Payments

/// What an effect transfers from the treasury's account.
pub open spec fn transferred_by(effect: Effect) -> int {
    match effect {
        Effect::Transfer { from, amount, .. } => if from == treasury_account() {
            amount as int
        } else {
            0
        },
        _ => 0,
    }
}

/// What some effects transfer from the treasury's account.
pub open spec fn transferred(effects: Seq<Effect>) -> int {
    total(effects, |effect: Effect| transferred_by(effect))
}

/// What a tip pays in all is its payment: the median of what was declared, where the pot covers
/// it, and never more than the pot. The finder's fee is a part of it. So a payout leaves the
/// treasury's account the least balance that keeps it alive.
pub proof fn law_payout_within_pot(
    tip: TipView,
    parameters: Parameters,
    members: Seq<AccountId>,
    funds: Funds,
)
    ensures
        transferred(tip.payout_effects(parameters, members, funds)) == tip.payment(members, funds),
        tip.payment(members, funds) <= pot_of(funds),
        tip.payment(members, funds) <= median(retained(tip.tips, members)),
        median(retained(tip.tips, members)) <= pot_of(funds) ==> tip.payment(members, funds)
            == median(retained(tip.tips, members)),
        pot_of(funds) <= median(retained(tip.tips, members)) ==> tip.payment(members, funds)
            == pot_of(funds),
        tip.finders_fee(parameters, members, funds) <= tip.payment(members, funds),
        funds.minimum_balance <= funds.free_balance ==> funds.free_balance - transferred(
            tip.payout_effects(parameters, members, funds),
        ) >= funds.minimum_balance,
{
    let payment = tip.payment(members, funds);
    lemma_portion_within(capped(parameters.tip_finders_fee as int, 100), 100, payment as int);
    let effects = tip.payout_effects(parameters, members, funds);
    lemma_total_of_few(effects, |effect: Effect| transferred_by(effect));
}

/// What an effect transfers from the treasury's account to an account.
pub open spec fn received_by(effect: Effect, account: AccountId) -> int {
    match effect {
        Effect::Transfer { from, to, amount } => if from == treasury_account() && to == account {
            amount as int
        } else {
            0
        },
        _ => 0,
    }
}

/// What some effects transfer from the treasury's account to an account.
pub open spec fn received(effects: Seq<Effect>, account: AccountId) -> int {
    total(effects, |effect: Effect| received_by(effect, account))
}

/// Where a tip has a finder other than its beneficiary, the finder is paid the configured
/// percentage of the payment, to the nearest unit, and the beneficiary the rest. Nobody else is
/// paid anything.
pub proof fn law_finder_and_beneficiary_share(
    tip: TipView,
    parameters: Parameters,
    members: Seq<AccountId>,
    funds: Funds,
    finder: AccountId,
    deposit: Balance,
    other: AccountId,
)
    requires
        tip.finder == Some((finder, deposit)),
        finder != tip.who,
        other != finder,
        other != tip.who,
    ensures
        ({
            let effects = tip.payout_effects(parameters, members, funds);
            let payment = tip.payment(members, funds) as int;
            let fee = received(effects, finder);
            let percent = min(parameters.tip_finders_fee as int, 100);
            &&& -50 <= 100 * fee - percent * payment < 50
            &&& received(effects, tip.who) == payment - fee
            &&& received(effects, other) == 0
        }),
{
    let effects = tip.payout_effects(parameters, members, funds);
    let payment = tip.payment(members, funds) as int;
    let percent = capped(parameters.tip_finders_fee as int, 100);
    lemma_portion_within(percent, 100, payment);
    law_portion_nearest(percent, 100, payment, 0);
    lemma_total_of_few(effects, |effect: Effect| received_by(effect, finder));
    lemma_total_of_few(effects, |effect: Effect| received_by(effect, tip.who));
    lemma_total_of_few(effects, |effect: Effect| received_by(effect, other));
}

/// Where a tip has no finder, or its finder is its beneficiary, the beneficiary is paid the whole
/// payment, and nobody else anything.
pub proof fn law_beneficiary_alone(
    tip: TipView,
    parameters: Parameters,
    members: Seq<AccountId>,
    funds: Funds,
    who: AccountId,
)
    requires
        tip.finder matches Some((finder, _)) ==> finder == tip.who,
    ensures
        received(tip.payout_effects(parameters, members, funds), who) == if who == tip.who {
            tip.payment(members, funds) as int
        } else {
            0
        },
{
    let effects = tip.payout_effects(parameters, members, funds);
    lemma_total_of_few(effects, |effect: Effect| received_by(effect, who));
}

/// A payout first returns its finder the whole deposit, and slashes nothing, then pays the finder,
/// where it is another than the beneficiary, and last the beneficiary. It does nothing else.
pub proof fn law_payout_in_order(
    tip: TipView,
    parameters: Parameters,
    members: Seq<AccountId>,
    funds: Funds,
    who: AccountId,
)
    ensures
        ({
            let effects = tip.payout_effects(parameters, members, funds);
            let end = effects.len() as int;
            &&& end == match tip.finder {
                Some((finder, _)) => if finder == tip.who {
                    2int
                } else {
                    3int
                },
                None => 1int,
            }
            &&& tip.finder is Some ==> effects[0] is Unreserve
            &&& forall|i: int|
                0 <= i < end && (i > 0 || tip.finder is None) ==> (
                #[trigger] effects[i]) is Transfer && effects[i]->Transfer_from == treasury_account()
            &&& effects[end - 1]->Transfer_to == tip.who
            &&& returned(effects, who) == match tip.finder {
                Some((finder, deposit)) => if who == finder {
                    deposit as int
                } else {
                    0int
                },
                None => 0int,
            }
            &&& slashed(effects, who) == 0
        }),
{
    let effects = tip.payout_effects(parameters, members, funds);
    lemma_total_of_few(effects, |effect: Effect| returned_by(effect, who));
    lemma_total_of_few(effects, |effect: Effect| slashed_by(effect, who));
}

/// No finder's fee is taken of a tip without a finder: its payment goes to its beneficiary whole.
pub proof fn law_no_finder_no_fee(
    tip: TipView,
    parameters: Parameters,
    members: Seq<AccountId>,
    funds: Funds,
)
    requires
        tip.finder is None,
    ensures
        tip.payout_effects(parameters, members, funds) == seq![
            Effect::Transfer {
                from: treasury_account(),
                to: tip.who,
                amount: tip.payment(members, funds),
            },
        ],
{
}

// The records of tips

/// A report that is retracted leaves the records as they were, and its finder, and nobody else,
/// can retract it.
pub proof fn law_report_retracted<H: Hashing>(
    state: State<H>,
    origin: RawOrigin,
    reason: Seq<u8>,
    who: AccountId,
    deposit: Balance,
    other: RawOrigin,
)
    requires
        state.report_refusal(origin, reason, who) is None,
    ensures
        ({
            let finder = origin->Signed_0;
            let hash = tip_hash::<H>(reason_hash::<H>(reason), who);
            let reported = state.with_new_tip(
                reason,
                TipView {
                    reason: reason_hash::<H>(reason),
                    who,
                    finder: Some((finder, deposit)),
                    closes: None,
                    tips: Seq::empty(),
                },
            );
            &&& reported.retraction_refusal(other, hash) is None <==> other == origin
            &&& reported.tips[hash].finder == Some((finder, deposit))
            &&& reported.without_tip(hash) == state
        }),
{
    let hash = tip_hash::<H>(reason_hash::<H>(reason), who);
    let tip = TipView {
        reason: reason_hash::<H>(reason),
        who,
        finder: Some((origin->Signed_0, deposit)),
        closes: None,
        tips: Seq::empty(),
    };
    assert(state.with_new_tip(reason, tip).without_tip(hash) =~= state);
}

/// While a reason is on record, nobody can report it again, nor give a new tip for it, whoever
/// is to be credited.
pub proof fn law_known_reason_refused<H: Hashing>(
    state: State<H>,
    reason: Seq<u8>,
    tip: TipView,
    origin: RawOrigin,
    members: Seq<AccountId>,
    who: AccountId,
)
    requires
        tip.reason == reason_hash::<H>(reason),
    ensures
        ({
            let after = state.with_new_tip(reason, tip);
            &&& after.report_refusal(origin, reason, who) is Some
            &&& origin is Signed && reason.len() <= MAX_SENSIBLE_REASON_LENGTH
                ==> after.report_refusal(origin, reason, who) == Some(
                DispatchError::Module(Error::AlreadyKnown),
            )
            &&& after.new_tip_refusal(members, origin, reason) is Some
            &&& signed_by_member(origin, members) ==> after.new_tip_refusal(members, origin, reason)
                == Some(DispatchError::Module(Error::AlreadyKnown))
        }),
{
}

/// A tip that was closed or retracted is not known any more: it is paid, or retracted, once.
pub proof fn law_tip_ends_once<H: Hashing>(
    state: State<H>,
    hash: H256,
    origin: RawOrigin,
    now: BlockNumber,
    members: Seq<AccountId>,
)
    requires
        origin is Signed,
    ensures
        ({
            let after = state.without_tip(hash);
            let unknown = Some(DispatchError::Module(Error::UnknownTip));
            &&& after.close_refusal(origin, now, hash) == unknown
            &&& after.retraction_refusal(origin, hash) == unknown
            &&& signed_by_member(origin, members) ==> after.tip_refusal(members, origin, hash)
                == unknown
        }),
{
}

impl<H: Hashing> State<H> {
    /// Every reason on record is that of an open tip.
    pub open spec fn reasons_in_use(self) -> bool {
        forall|r: H256| #[trigger]
            self.reasons.contains_key(r) ==> exists|h: H256| #[trigger]
                self.tips.contains_key(h) && self.tips[h].reason == r
    }
}

/// Every reason on record stays that of an open tip, as long as a new tip does not take the
/// place of another that bears the same hash.
pub proof fn law_reasons_in_use<H: Hashing>(
    state: State<H>,
    reason: Seq<u8>,
    tip: TipView,
    hash: H256,
    next: TipView,
)
    requires
        state.wf(),
        state.reasons_in_use(),
        !state.tips.contains_key(tip_hash::<H>(tip.reason, tip.who)),
        state.tips.contains_key(hash),
        next.reason == state.tips[hash].reason,
    ensures
        state.with_new_tip(reason, tip).reasons_in_use(),
        state.with_tip_at(hash, next).reasons_in_use(),
        state.without_tip(hash).reasons_in_use(),
{
    let added = state.with_new_tip(reason, tip);
    let id = tip_hash::<H>(tip.reason, tip.who);
    assert forall|r: H256| #[trigger] added.reasons.contains_key(r) implies exists|h: H256|
        #[trigger] added.tips.contains_key(h) && added.tips[h].reason == r by {
        if r == tip.reason {
            assert(added.tips.contains_key(id));
        } else {
            assert(state.reasons.contains_key(r));
            let h = choose|h: H256| #[trigger]
                state.tips.contains_key(h) && state.tips[h].reason == r;
            assert(added.tips.contains_key(h));
        }
    }
    let changed = state.with_tip_at(hash, next);
    assert forall|r: H256| #[trigger] changed.reasons.contains_key(r) implies exists|h: H256|
        #[trigger] changed.tips.contains_key(h) && changed.tips[h].reason == r by {
        assert(state.reasons.contains_key(r));
        let h = choose|h: H256| #[trigger] state.tips.contains_key(h) && state.tips[h].reason == r;
        assert(changed.tips.contains_key(h));
    }
    let removed = state.without_tip(hash);
    assert forall|r: H256| #[trigger] removed.reasons.contains_key(r) implies exists|h: H256|
        #[trigger] removed.tips.contains_key(h) && removed.tips[h].reason == r by {
        assert(state.reasons.contains_key(r));
        let h = choose|h: H256| #[trigger] state.tips.contains_key(h) && state.tips[h].reason == r;
        assert(removed.tips.contains_key(h));
    }
}

} // verus!
