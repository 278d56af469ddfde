//! What holds of proposals and of the spending of the pot: properties that relate several calls,
//! or that hold of all inputs.

use crate::amount_laws::{law_portion_nearest, nearest};
use crate::effects::{lemma_total_adds, lemma_total_of_few, total};
use crate::module::{State, bond_for, pot_of, treasury_account};
use crate::runtime::{Hashing, capped, lemma_portion_within, portion};
use crate::seqs::{lemma_filter_agree, lemma_filter_item};
use crate::spending::{award, lemma_round_shrinks, lemma_spending_total, round};
use crate::types::{
    AccountId, Balance, Effect, Event, Funds, H256, Parameters, ProposalIndex, TipView,
    TreasuryProposal,
};
use vstd::math::min;
use vstd::prelude::*;

verus! {

/// The bond of a proposal is the larger of the minimum and the configured fraction of its value,
/// to the nearest unit: it is at least each of the two, and it is one of the two.
pub proof fn law_bond_bounds(parameters: Parameters, value: Balance)
    ensures
        ({
            let bond = bond_for(parameters, value) as int;
            let minimum = parameters.proposal_bond_minimum as int;
            let parts = min(parameters.proposal_bond as int, 1_000_000);
            &&& bond >= minimum
            &&& 2 * (1_000_000 * bond - parts * value) >= -1_000_000
            &&& bond == minimum || nearest(bond, parts, 1_000_000, value as int)
            &&& bond <= minimum || bond <= value
            &&& bond >= portion(parts, 1_000_000, value as int)
            &&& bond == minimum || bond == portion(parts, 1_000_000, value as int)
        }),
{
    let parts = capped(parameters.proposal_bond as int, 1_000_000);
    lemma_portion_within(parts, 1_000_000, value as int);
    law_portion_nearest(parts, 1_000_000, value as int, 0);
}

/// A new proposal has an index that no other has, and leaves the others as they are.
pub proof fn law_new_index<H: Hashing>(state: State<H>, proposal: TreasuryProposal)
    requires
        state.wf(),
        state.proposal_count < ProposalIndex::MAX,
    ensures
        !state.proposals.contains_key(state.proposal_count),
        !state.approvals.contains(state.proposal_count),
        state.proposals.submap_of(state.with_proposal(proposal).proposals),
{
    if state.approvals.contains(state.proposal_count) {
        let k = state.approvals.index_of(state.proposal_count);
        assert(state.approvals[k] < state.proposal_count);
    }
}

/// An index that was given out and whose proposal is gone is not given out again.
pub proof fn law_index_not_reused<H: Hashing>(
    state: State<H>,
    index: ProposalIndex,
    proposal: TreasuryProposal,
    other: ProposalIndex,
    funds: Funds,
)
    requires
        state.wf(),
        index < state.proposal_count,
        !state.proposals.contains_key(index),
        state.proposal_count < ProposalIndex::MAX,
    ensures
        index < state.with_proposal(proposal).proposal_count,
        !state.with_proposal(proposal).proposals.contains_key(index),
        !state.without_proposal(other).proposals.contains_key(index),
        !state.with_approval(other).proposals.contains_key(index),
        !state.after_spending(funds).proposals.contains_key(index),
{
    lemma_round_shrinks(state.proposals, state.approvals, pot_of(funds) as int);
    if state.after_spending(funds).proposals.contains_key(index) {
        assert(state.spending(funds).proposals.dom().contains(index));
    }
}

/// The indices of which a spend of `budget` awards the proposals, in the order of the awards: of
/// the approvals, in their order, each whose proposal is on record, was not awarded before, and
/// costs no more than is left of the budget after the awards before it.
pub open spec fn awarded(
    proposals: Map<ProposalIndex, TreasuryProposal>,
    approvals: Seq<ProposalIndex>,
    budget: int,
) -> Seq<ProposalIndex>
    decreases approvals.len(),
{
    if approvals.len() == 0 {
        Seq::empty()
    } else {
        let earlier = awarded(proposals, approvals.drop_last(), budget);
        let index = approvals.last();
        if proposals.contains_key(index) && !earlier.contains(index) && total_value(
            proposals,
            earlier,
        ) + proposals[index].value <= budget {
            earlier.push(index)
        } else {
            earlier
        }
    }
}

/// What awarding some proposals asks for.
pub open spec fn awards(
    proposals: Map<ProposalIndex, TreasuryProposal>,
    indices: Seq<ProposalIndex>,
) -> Seq<Effect>
    decreases indices.len(),
{
    if indices.len() == 0 {
        Seq::empty()
    } else {
        awards(proposals, indices.drop_last()) + award(indices.last(), proposals[indices.last()])
    }
}

/// The value of some proposals together.
pub open spec fn total_value(
    proposals: Map<ProposalIndex, TreasuryProposal>,
    indices: Seq<ProposalIndex>,
) -> int
    decreases indices.len(),
{
    if indices.len() == 0 {
        0
    } else {
        total_value(proposals, indices.drop_last()) + proposals[indices.last()].value
    }
}

/// A spend awards approved proposals, each at most once. Those that it awards leave the record,
/// and no others do. For each of them, its bond is returned to its proposer and its value paid
/// to its beneficiary, and for nothing else is anything asked. What it awards and what it
/// leaves make up the budget.
pub proof fn law_awards(
    proposals: Map<ProposalIndex, TreasuryProposal>,
    approvals: Seq<ProposalIndex>,
    budget: int,
)
    requires
        0 <= budget,
    ensures
        ({
            let indices = awarded(proposals, approvals, budget);
            let after = round(proposals, approvals, budget);
            &&& indices.no_duplicates()
            &&& forall|k: int|
                0 <= k < indices.len() ==> approvals.contains(#[trigger] indices[k])
                    && proposals.contains_key(indices[k])
            &&& after.proposals == proposals.remove_keys(indices.to_set())
            &&& after.effects == awards(proposals, indices)
            &&& total_value(proposals, indices) + after.budget == budget
        }),
    decreases approvals.len(),
{
    let indices = awarded(proposals, approvals, budget);
    let after = round(proposals, approvals, budget);
    if approvals.len() == 0 {
        assert(after.proposals =~= proposals.remove_keys(indices.to_set()));
    } else {
        let prefix = approvals.drop_last();
        let earlier = awarded(proposals, prefix, budget);
        let before = round(proposals, prefix, budget);
        let index = approvals.last();
        law_awards(proposals, prefix, budget);
        assert forall|k: int| 0 <= k < earlier.len() implies approvals.contains(
            #[trigger] earlier[k],
        ) by {
            assert(prefix.contains(earlier[k]));
            let j = prefix.index_of(earlier[k]);
            assert(approvals[j] == earlier[k]);
        }
        assert(before.proposals.contains_key(index) <==> proposals.contains_key(index)
            && !earlier.to_set().contains(index));
        assert(earlier.to_set().contains(index) <==> earlier.contains(index));
        if before.proposals.contains_key(index) && before.proposals[index].value <= before.budget {
            assert(indices =~= earlier.push(index));
            assert(indices.drop_last() =~= earlier);
            assert(approvals[approvals.len() - 1] == index);
            assert(indices.to_set() =~= earlier.to_set().insert(index)) by {
                assert forall|i: ProposalIndex|
                    indices.to_set().contains(i) <==> earlier.to_set().insert(index).contains(
                        i,
                    ) by {
                    if indices.contains(i) && i != index {
                        let k = indices.index_of(i);
                        assert(earlier[k] == i);
                    }
                    if earlier.contains(i) {
                        let k = earlier.index_of(i);
                        assert(indices[k] == i);
                    }
                    assert(indices[indices.len() - 1] == index);
                }
            }
            assert(after.proposals =~= proposals.remove_keys(indices.to_set()));
        }
    }
}

/// An approval waits for the next spend if and only if its proposal is still on record after
/// this one, and then the proposal's value is more than what is left.
pub proof fn law_waiting(
    proposals: Map<ProposalIndex, TreasuryProposal>,
    approvals: Seq<ProposalIndex>,
    budget: int,
)
    ensures
        ({
            let after = round(proposals, approvals, budget);
            &&& after.kept == approvals.filter(
                |i: ProposalIndex| after.proposals.contains_key(i),
            )
            &&& forall|k: int|
                0 <= k < after.kept.len() ==> after.proposals.contains_key(#[trigger] after.kept[k])
                    && after.proposals[after.kept[k]].value > after.budget
        }),
    decreases approvals.len(),
{
    reveal(Seq::filter);
    let after = round(proposals, approvals, budget);
    let still = |i: ProposalIndex| after.proposals.contains_key(i);
    if approvals.len() > 0 {
        let prefix = approvals.drop_last();
        let before = round(proposals, prefix, budget);
        let index = approvals.last();
        let was = |i: ProposalIndex| before.proposals.contains_key(i);
        law_waiting(proposals, prefix, budget);
        if before.proposals.contains_key(index) && before.proposals[index].value <= before.budget {
            assert forall|i: int| 0 <= i < prefix.len() implies still(#[trigger] prefix[i]) == was(
                prefix[i],
            ) by {
                if prefix[i] == index {
                    prefix.lemma_filter_contains(was, i);
                    let k = before.kept.index_of(index);
                    assert(before.kept[k] == index);
                }
            }
            lemma_filter_agree(prefix, still, was);
            assert forall|k: int| 0 <= k < after.kept.len() implies after.proposals.contains_key(
                #[trigger] after.kept[k],
            ) && after.proposals[after.kept[k]].value > after.budget by {
                assert(before.kept[k] != index);
            }
        } else if before.proposals.contains_key(index) {
            assert(still == was);
            assert forall|k: int| 0 <= k < after.kept.len() implies after.proposals.contains_key(
                #[trigger] after.kept[k],
            ) && after.proposals[after.kept[k]].value > after.budget by {
                if k < before.kept.len() {
                    assert(after.kept[k] == before.kept[k]);
                }
            }
        } else {
            assert(still == was);
        }
    }
}

/// An award asks for three things.
proof fn lemma_awards_len(
    proposals: Map<ProposalIndex, TreasuryProposal>,
    indices: Seq<ProposalIndex>,
)
    ensures
        awards(proposals, indices).len() == 3 * indices.len(),
    decreases indices.len(),
{
    if indices.len() > 0 {
        lemma_awards_len(proposals, indices.drop_last());
    }
}

/// The awards of some proposals stand one after the other.
proof fn lemma_award_at(
    proposals: Map<ProposalIndex, TreasuryProposal>,
    indices: Seq<ProposalIndex>,
    k: int,
)
    requires
        0 <= k < indices.len(),
    ensures
        awards(proposals, indices).subrange(3 * k, 3 * k + 3) == award(
            indices[k],
            proposals[indices[k]],
        ),
    decreases indices.len(),
{
    let earlier = indices.drop_last();
    let last = award(indices.last(), proposals[indices.last()]);
    lemma_awards_len(proposals, earlier);
    if k < earlier.len() {
        lemma_award_at(proposals, earlier, k);
        assert((awards(proposals, earlier) + last).subrange(3 * k, 3 * k + 3) =~= awards(
            proposals,
            earlier,
        ).subrange(3 * k, 3 * k + 3));
    } else {
        assert((awards(proposals, earlier) + last).subrange(3 * k, 3 * k + 3) =~= last);
    }
}

/// A proposal that was approved is awarded by a spend, and then it is gone from the record and
/// from the approvals, or it waits for the next. One that was not approved stays as it is, and
/// what it asks for is not paid.
pub proof fn law_paid_iff_approved<H: Hashing>(
    state: State<H>,
    parameters: Parameters,
    funds: Funds,
    index: ProposalIndex,
)
    requires
        state.proposals.contains_key(index),
    ensures
        ({
            let after = state.after_spending(funds);
            let effects = state.spending_effects(parameters, funds);
            let proposal = state.proposals[index];
            &&& after.proposals.contains_key(index) ==> after.proposals[index] == proposal
            &&& state.approvals.contains(index) ==> (after.proposals.contains_key(index)
                <==> after.approvals.contains(index))
            &&& !state.approvals.contains(index) ==> after.proposals.contains_key(index)
                && !after.approvals.contains(index)
            &&& !after.proposals.contains_key(index) <==> effects.contains(
                Effect::Emit(Event::Awarded(index, proposal.value, proposal.beneficiary)),
            )
            &&& !after.proposals.contains_key(index) ==> exists|at: int|
                0 <= at && at + 3 <= effects.len() && #[trigger] effects.subrange(at, at + 3)
                    == award(index, proposal)
        }),
{
    let pot = pot_of(funds) as int;
    let after = state.after_spending(funds);
    let effects = state.spending_effects(parameters, funds);
    let round_effects = state.spending(funds).effects;
    let proposal = state.proposals[index];
    let indices = awarded(state.proposals, state.approvals, pot);
    let event = Effect::Emit(Event::Awarded(index, proposal.value, proposal.beneficiary));
    law_awards(state.proposals, state.approvals, pot);
    law_waiting(state.proposals, state.approvals, pot);
    let still = |i: ProposalIndex| after.proposals.contains_key(i);
    if after.approvals.contains(index) {
        let k = after.approvals.index_of(index);
        lemma_filter_item(state.approvals, still, k);
    }
    if state.approvals.contains(index) && after.proposals.contains_key(index) {
        state.approvals.lemma_filter_contains(still, state.approvals.index_of(index));
    }
    if !after.proposals.contains_key(index) {
        assert(indices.to_set().contains(index));
        let k = indices.index_of(index);
        lemma_awards_len(state.proposals, indices);
        lemma_award_at(state.proposals, indices, k);
        let at = 1 + 3 * k;
        assert(effects.subrange(at, at + 3) =~= round_effects.subrange(3 * k, 3 * k + 3));
        assert(effects[at + 2] == effects.subrange(at, at + 3)[2]);
        assert(effects.contains(event));
    }
    if effects.contains(event) {
        let at = effects.index_of(event);
        assert(effects[at] == event);
        assert(1 <= at <= round_effects.len());
        assert(round_effects[at - 1] == event);
        let k = (at - 1) / 3;
        lemma_awards_len(state.proposals, indices);
        lemma_award_at(state.proposals, indices, k);
        assert(round_effects.subrange(3 * k, 3 * k + 3)[(at - 1) - 3 * k] == event);
        assert(indices[k] == index);
        assert(indices.to_set().contains(index));
    }
}

/// What an effect credits to an account.
pub open spec fn credited_by(effect: Effect, account: AccountId) -> int {
    match effect {
        Effect::DepositCreating { who, amount } => if who == account {
            amount as int
        } else {
            0
        },
        _ => 0,
    }
}

/// What some effects credit to an account.
pub open spec fn credited(effects: Seq<Effect>, account: AccountId) -> int {
    total(effects, |effect: Effect| credited_by(effect, account))
}

/// The value of those of some proposals whose beneficiary is an account, together.
pub open spec fn value_for(
    proposals: Map<ProposalIndex, TreasuryProposal>,
    indices: Seq<ProposalIndex>,
    account: AccountId,
) -> int
    decreases indices.len(),
{
    if indices.len() == 0 {
        0
    } else {
        let last = proposals[indices.last()];
        value_for(proposals, indices.drop_last(), account) + if last.beneficiary == account {
            last.value as int
        } else {
            0
        }
    }
}

proof fn lemma_awards_credit(
    proposals: Map<ProposalIndex, TreasuryProposal>,
    indices: Seq<ProposalIndex>,
    account: AccountId,
)
    ensures
        credited(awards(proposals, indices), account) == value_for(proposals, indices, account),
    decreases indices.len(),
{
    if indices.len() > 0 {
        let earlier = indices.drop_last();
        let last = award(indices.last(), proposals[indices.last()]);
        lemma_awards_credit(proposals, earlier, account);
        lemma_total_adds(
            awards(proposals, earlier),
            last,
            |effect: Effect| credited_by(effect, account),
        );
        lemma_total_of_few(last, |effect: Effect| credited_by(effect, account));
    }
}

/// A spend credits to each account the value of the awarded proposals whose beneficiary it is, and
/// nothing else.
pub proof fn law_beneficiaries_are_paid<H: Hashing>(
    state: State<H>,
    parameters: Parameters,
    funds: Funds,
    account: AccountId,
)
    ensures
        credited(state.spending_effects(parameters, funds), account) == value_for(
            state.proposals,
            awarded(state.proposals, state.approvals, pot_of(funds) as int),
            account,
        ),
{
    let pot = pot_of(funds) as int;
    let indices = awarded(state.proposals, state.approvals, pot);
    law_awards(state.proposals, state.approvals, pot);
    lemma_awards_credit(state.proposals, indices, account);
    lemma_spending_total(
        state,
        parameters,
        funds,
        |effect: Effect| credited_by(effect, account),
    );
}

/// What a spend asks for, from first to last. It records the pot. Of each award, the bond goes back
/// to the proposer, the value is paid to the beneficiary, and the award is recorded. Where no
/// approval waits, it burns an amount, and records how much. Then it settles with the treasury's
/// account what it paid and burnt, and records what is left of the pot.
pub proof fn law_spend_in_order<H: Hashing>(state: State<H>, parameters: Parameters, funds: Funds)
    ensures
        ({
            let effects = state.spending_effects(parameters, funds);
            let indices = awarded(state.proposals, state.approvals, pot_of(funds) as int);
            let n = indices.len() as int;
            let none_waits = state.after_spending(funds).approvals.len() == 0;
            let end = effects.len() as int;
            &&& end == 3 * n + (if none_waits {
                5int
            } else {
                3int
            })
            &&& effects[0] == Effect::Emit(Event::Spending(pot_of(funds)))
            &&& forall|k: int|
                0 <= k < n ==> {
                    let proposal = state.proposals[#[trigger] indices[k]];
                    &&& effects[3 * k + 1] == Effect::Unreserve {
                        who: proposal.proposer,
                        amount: proposal.bond,
                    }
                    &&& effects[3 * k + 2] == Effect::DepositCreating {
                        who: proposal.beneficiary,
                        amount: proposal.value,
                    }
                    &&& effects[3 * k + 3] == Effect::Emit(
                        Event::Awarded(indices[k], proposal.value, proposal.beneficiary),
                    )
                }
            &&& none_waits ==> {
                &&& effects[end - 4] is Burn
                &&& effects[end - 3] == Effect::Emit(Event::Burnt(effects[end - 4]->Burn_amount))
            }
            &&& effects[end - 2] == Effect::Settle { who: treasury_account() }
            &&& effects[end - 1] matches Effect::Emit(Event::Rollover(rest)) && rest
                + settled(effects) == pot_of(funds)
        }),
{
    let pot = pot_of(funds) as int;
    let effects = state.spending_effects(parameters, funds);
    let round_effects = state.spending(funds).effects;
    let indices = awarded(state.proposals, state.approvals, pot);
    law_awards(state.proposals, state.approvals, pot);
    law_spend_within_pot(state, parameters, funds);
    lemma_awards_len(state.proposals, indices);
    lemma_round_shrinks(state.proposals, state.approvals, pot);
    lemma_portion_within(
        capped(parameters.burn as int, 1_000_000),
        1_000_000,
        state.spending(funds).budget,
    );
    assert forall|k: int| 0 <= k < indices.len() implies {
        let proposal = state.proposals[#[trigger] indices[k]];
        &&& effects[3 * k + 1] == Effect::Unreserve {
            who: proposal.proposer,
            amount: proposal.bond,
        }
        &&& effects[3 * k + 2] == Effect::DepositCreating {
            who: proposal.beneficiary,
            amount: proposal.value,
        }
        &&& effects[3 * k + 3] == Effect::Emit(
            Event::Awarded(indices[k], proposal.value, proposal.beneficiary),
        )
    } by {
        lemma_award_at(state.proposals, indices, k);
        let three = round_effects.subrange(3 * k, 3 * k + 3);
        assert(effects[3 * k + 1] == three[0]);
        assert(effects[3 * k + 2] == three[1]);
        assert(effects[3 * k + 3] == three[2]);
    }
}

/// What an effect burns.
pub open spec fn burnt_by(effect: Effect) -> int {
    match effect {
        Effect::Burn { amount } => amount as int,
        _ => 0,
    }
}

/// Where no approval waits, a spend burns the configured fraction, to the nearest unit, of what the
/// awards leave of the pot. Where one waits, it burns nothing.
pub proof fn law_burn<H: Hashing>(state: State<H>, parameters: Parameters, funds: Funds)
    ensures
        ({
            let burnt = total(
                state.spending_effects(parameters, funds),
                |effect: Effect| burnt_by(effect),
            );
            let indices = awarded(state.proposals, state.approvals, pot_of(funds) as int);
            if state.after_spending(funds).approvals.len() == 0 {
                nearest(
                    burnt,
                    min(parameters.burn as int, 1_000_000),
                    1_000_000,
                    pot_of(funds) - total_value(state.proposals, indices),
                )
            } else {
                burnt == 0
            }
        }),
{
    let pot = pot_of(funds) as int;
    let indices = awarded(state.proposals, state.approvals, pot);
    let parts = capped(parameters.burn as int, 1_000_000);
    law_awards(state.proposals, state.approvals, pot);
    lemma_round_shrinks(state.proposals, state.approvals, pot);
    lemma_portion_within(parts, 1_000_000, state.spending(funds).budget);
    law_portion_nearest(parts, 1_000_000, state.spending(funds).budget, 0);
    lemma_spending_total(state, parameters, funds, |effect: Effect| burnt_by(effect));
    lemma_awards_burn_nothing(state.proposals, indices);
}

proof fn lemma_awards_burn_nothing(
    proposals: Map<ProposalIndex, TreasuryProposal>,
    indices: Seq<ProposalIndex>,
)
    ensures
        total(awards(proposals, indices), |effect: Effect| burnt_by(effect)) == 0,
    decreases indices.len(),
{
    if indices.len() > 0 {
        let earlier = indices.drop_last();
        let last = award(indices.last(), proposals[indices.last()]);
        lemma_awards_burn_nothing(proposals, earlier);
        lemma_total_adds(awards(proposals, earlier), last, |effect: Effect| burnt_by(effect));
        lemma_total_of_few(last, |effect: Effect| burnt_by(effect));
    }
}

/// A spend takes from the record the proposals that it awards. Of the approvals, in their order, it
/// keeps those whose proposal is still on record, and nothing else changes.
pub proof fn law_records_after_spend<H: Hashing>(
    state: State<H>,
    funds: Funds,
    index: ProposalIndex,
)
    ensures
        ({
            let after = state.after_spending(funds);
            let indices = awarded(state.proposals, state.approvals, pot_of(funds) as int);
            &&& after.proposals.contains_key(index) <==> state.proposals.contains_key(index)
                && !indices.contains(index)
            &&& after.proposals.contains_key(index) ==> after.proposals[index]
                == state.proposals[index]
            &&& after.approvals == state.approvals.filter(
                |i: ProposalIndex| state.proposals.contains_key(i) && !indices.contains(i),
            )
            &&& after.proposal_count == state.proposal_count
            &&& after.tips == state.tips
            &&& after.reasons == state.reasons
        }),
{
    let pot = pot_of(funds) as int;
    let after = state.after_spending(funds);
    let indices = awarded(state.proposals, state.approvals, pot);
    law_awards(state.proposals, state.approvals, pot);
    law_waiting(state.proposals, state.approvals, pot);
    assert forall|i: ProposalIndex| #[trigger]
        after.proposals.contains_key(i) <==> state.proposals.contains_key(i) && !indices.contains(
            i,
        ) by {
        assert(indices.to_set().contains(i) <==> indices.contains(i));
    }
    lemma_filter_agree(
        state.approvals,
        |i: ProposalIndex| after.proposals.contains_key(i),
        |i: ProposalIndex| state.proposals.contains_key(i) && !indices.contains(i),
    );
}

/// Where the pot covers all approved proposals, a spend awards them all, and none waits.
pub proof fn law_covered_is_paid(
    proposals: Map<ProposalIndex, TreasuryProposal>,
    approvals: Seq<ProposalIndex>,
    budget: int,
)
    requires
        total_value(proposals, approvals) <= budget,
        forall|k: int|
            0 <= k < approvals.len() ==> proposals.contains_key(#[trigger] approvals[k]),
    ensures
        round(proposals, approvals, budget).kept.len() == 0,
        forall|k: int|
            0 <= k < approvals.len() ==> !round(
                proposals,
                approvals,
                budget,
            ).proposals.contains_key(#[trigger] approvals[k]),
        round(proposals, approvals, budget).budget >= budget - total_value(proposals, approvals),
    decreases approvals.len(),
{
    if approvals.len() > 0 {
        let prefix = approvals.drop_last();
        let index = approvals.last();
        let before = round(proposals, prefix, budget);
        let after = round(proposals, approvals, budget);
        assert forall|k: int| 0 <= k < prefix.len() implies proposals.contains_key(
            #[trigger] prefix[k],
        ) by {
            assert(prefix[k] == approvals[k]);
        }
        assert(proposals.contains_key(approvals[approvals.len() - 1]));
        lemma_total_value_not_negative(proposals, prefix);
        law_covered_is_paid(proposals, prefix, budget);
        lemma_round_shrinks(proposals, prefix, budget);
        if before.proposals.contains_key(index) {
            assert(before.proposals.dom().contains(index));
            assert(before.proposals[index] == proposals[index]);
        }
        assert forall|k: int|
            0 <= k < approvals.len() implies !after.proposals.contains_key(
            #[trigger] approvals[k],
        ) by {
            if k < prefix.len() {
                assert(approvals[k] == prefix[k]);
            }
        }
    }
}

proof fn lemma_total_value_not_negative(
    proposals: Map<ProposalIndex, TreasuryProposal>,
    indices: Seq<ProposalIndex>,
)
    ensures
        0 <= total_value(proposals, indices),
    decreases indices.len(),
{
    if indices.len() > 0 {
        lemma_total_value_not_negative(proposals, indices.drop_last());
    }
}

/// What an effect has the treasury's account debited with when it is settled.
pub open spec fn settled_by(effect: Effect) -> int {
    match effect {
        Effect::DepositCreating { amount, .. } => amount as int,
        Effect::Burn { amount } => amount as int,
        _ => 0,
    }
}

/// What some effects have the treasury's account debited with when they are settled.
pub open spec fn settled(effects: Seq<Effect>) -> int {
    total(effects, |effect: Effect| settled_by(effect))
}

proof fn lemma_settled_round(
    proposals: Map<ProposalIndex, TreasuryProposal>,
    approvals: Seq<ProposalIndex>,
    budget: int,
)
    ensures
        settled(round(proposals, approvals, budget).effects) + round(
            proposals,
            approvals,
            budget,
        ).budget == budget,
    decreases approvals.len(),
{
    if approvals.len() > 0 {
        let before = round(proposals, approvals.drop_last(), budget);
        let index = approvals.last();
        lemma_settled_round(proposals, approvals.drop_last(), budget);
        if before.proposals.contains_key(index) && before.proposals[index].value <= before.budget {
            let a = award(index, before.proposals[index]);
            lemma_total_adds(before.effects, a, |effect: Effect| settled_by(effect));
            lemma_total_of_few(a, |effect: Effect| settled_by(effect));
        }
    }
}

/// What a spend pays and burns, and what it rolls over, make up the pot. So a spend takes no
/// more from the treasury's account than the pot, and leaves the account the least balance that
/// keeps it alive.
pub proof fn law_spend_within_pot<H: Hashing>(state: State<H>, parameters: Parameters, funds: Funds)
    ensures
        settled(state.spending_effects(parameters, funds)) + state.rollover(parameters, funds)
            == pot_of(funds),
        0 <= state.rollover(parameters, funds),
        funds.minimum_balance <= funds.free_balance ==> funds.free_balance - settled(
            state.spending_effects(parameters, funds),
        ) >= funds.minimum_balance,
{
    let pot = pot_of(funds) as int;
    let after = state.spending(funds);
    lemma_settled_round(state.proposals, state.approvals, pot);
    lemma_round_shrinks(state.proposals, state.approvals, pot);
    lemma_portion_within(capped(parameters.burn as int, 1_000_000), 1_000_000, after.budget);
    lemma_spending_total(state, parameters, funds, |effect: Effect| settled_by(effect));
}

impl<H: Hashing> State<H> {
    /// Every approval is of a proposal on record.
    pub open spec fn approvals_backed(self) -> bool {
        forall|k: int|
            0 <= k < self.approvals.len() ==> self.proposals.contains_key(
                #[trigger] self.approvals[k],
            )
    }
}

/// Every approval stays one of a proposal on record, as long as no proposal is rejected that was
/// approved.
pub proof fn law_approvals_backed<H: Hashing>(
    state: State<H>,
    proposal: TreasuryProposal,
    approved: ProposalIndex,
    rejected: ProposalIndex,
    funds: Funds,
)
    requires
        state.approvals_backed(),
        state.proposals.contains_key(approved),
        !state.approvals.contains(rejected),
    ensures
        state.with_proposal(proposal).approvals_backed(),
        state.with_approval(approved).approvals_backed(),
        state.without_proposal(rejected).approvals_backed(),
        state.after_spending(funds).approvals_backed(),
{
    law_waiting(state.proposals, state.approvals, pot_of(funds) as int);
    assert forall|k: int| 0 <= k < state.approvals.len() implies state.without_proposal(
        rejected,
    ).proposals.contains_key(#[trigger] state.approvals[k]) by {
        assert(state.approvals.contains(state.approvals[k]));
    }
    assert forall|k: int|
        0 <= k < state.with_approval(approved).approvals.len() implies state.with_approval(
        approved,
    ).proposals.contains_key(#[trigger] state.with_approval(approved).approvals[k]) by {
        if k < state.approvals.len() {
            assert(state.with_approval(approved).approvals[k] == state.approvals[k]);
        }
    }
}

/// Proposals and tips do not bear on each other: no call on the one changes the records of the
/// other.
pub proof fn law_proposals_apart_from_tips<H: Hashing>(
    state: State<H>,
    proposal: TreasuryProposal,
    index: ProposalIndex,
    funds: Funds,
    reason: Seq<u8>,
    tip: TipView,
    hash: H256,
)
    ensures
        forall|after: State<H>|
            after == state.with_proposal(proposal) || after == state.without_proposal(index)
                || after == state.with_approval(index) || after == state.after_spending(funds)
                ==> (#[trigger] after.tips) == state.tips && after.reasons == state.reasons,
        forall|after: State<H>|
            after == state.with_new_tip(reason, tip) || after == state.without_tip(hash) || after
                == state.with_tip_at(hash, tip) ==> (#[trigger] after.proposals) == state.proposals
                && after.approvals == state.approvals && after.proposal_count
                == state.proposal_count,
{
}

} // verus!
