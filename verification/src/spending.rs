//! The spending of the pot: which approved proposals are awarded, and what is burnt.

use crate::effects::{lemma_total_adds, lemma_total_of_few, total};
use crate::module::{Module, State, pot_of, treasury_account};
use crate::runtime::{Hashing, capped, lemma_portion_within, permill_of, portion};
use crate::types::{
    Balance, BlockNumber, Effect, Event, Funds, Parameters, ProposalIndex, TreasuryProposal,
};
use vstd::prelude::*;

verus! {

/// A spend falls on this block.
pub open spec fn spends_at(parameters: Parameters, n: BlockNumber) -> bool {
    n % parameters.spend_period == 0
}

/// What is asked for where something was slashed elsewhere: it goes into the pot, and this is
/// recorded.
pub open spec fn deposit_effects(amount: Balance) -> Seq<Effect> {
    seq![
        Effect::ResolveCreating { who: treasury_account(), amount },
        Effect::Emit(Event::Deposit(amount)),
    ]
}

/// How a spend stands after some of the approvals.
#[verifier::ext_equal]
pub struct Round {
    /// The proposals that are still on record.
    pub proposals: Map<ProposalIndex, TreasuryProposal>,
    /// The approvals that wait for the next spend.
    pub kept: Seq<ProposalIndex>,
    /// What is left to spend.
    pub budget: int,
    /// What has been asked for.
    pub effects: Seq<Effect>,
}

/// What awarding a proposal asks for: its deposit is returned, and its value is paid.
pub open spec fn award(index: ProposalIndex, proposal: TreasuryProposal) -> Seq<Effect> {
    seq![
        Effect::Unreserve { who: proposal.proposer, amount: proposal.bond },
        Effect::DepositCreating { who: proposal.beneficiary, amount: proposal.value },
        Effect::Emit(Event::Awarded(index, proposal.value, proposal.beneficiary)),
    ]
}

/// How a spend of `budget` stands after these approvals. In their order, each proposal that the
/// budget still covers is awarded and leaves the record, and each that it does not cover waits.
/// An approval without a proposal is dropped.
pub open spec fn round(
    proposals: Map<ProposalIndex, TreasuryProposal>,
    approvals: Seq<ProposalIndex>,
    budget: int,
) -> Round
    decreases approvals.len(),
{
    if approvals.len() == 0 {
        Round { proposals, kept: Seq::empty(), budget, effects: Seq::empty() }
    } else {
        let before = round(proposals, approvals.drop_last(), budget);
        let index = approvals.last();
        if !before.proposals.contains_key(index) {
            before
        } else if before.proposals[index].value <= before.budget {
            Round {
                proposals: before.proposals.remove(index),
                kept: before.kept,
                budget: before.budget - before.proposals[index].value,
                effects: before.effects + award(index, before.proposals[index]),
            }
        } else {
            Round { kept: before.kept.push(index), ..before }
        }
    }
}

impl<H: Hashing> State<H> {
    /// The awards of a spend of the pot.
    pub open spec fn spending(self, funds: Funds) -> Round {
        round(self.proposals, self.approvals, pot_of(funds) as int)
    }

    /// What a spend burns: a part of what is left, where no approval has to wait.
    pub open spec fn burning(self, parameters: Parameters, funds: Funds) -> int {
        if self.spending(funds).kept.len() == 0 {
            portion(
                capped(parameters.burn as int, 1_000_000),
                1_000_000,
                self.spending(funds).budget,
            )
        } else {
            0
        }
    }

    /// What a spend leaves in the pot until the next.
    pub open spec fn rollover(self, parameters: Parameters, funds: Funds) -> int {
        self.spending(funds).budget - self.burning(parameters, funds)
    }

    /// The records after a spend.
    pub open spec fn after_spending(self, funds: Funds) -> State<H> {
        State {
            proposals: self.spending(funds).proposals,
            approvals: self.spending(funds).kept,
            ..self
        }
    }

    /// What a spend asks for.
    pub open spec fn spending_effects(self, parameters: Parameters, funds: Funds) -> Seq<Effect> {
        let burnt = self.burning(parameters, funds) as Balance;
        seq![Effect::Emit(Event::Spending(pot_of(funds)))] + self.spending(funds).effects + (if self
            .spending(funds).kept.len() == 0 {
            seq![Effect::Burn { amount: burnt }, Effect::Emit(Event::Burnt(burnt))]
        } else {
            Seq::empty()
        }) + seq![
            Effect::Settle { who: treasury_account() },
            Effect::Emit(Event::Rollover(self.rollover(parameters, funds) as Balance)),
        ]
    }
}

/// A spend takes proposals from the record and never more than the budget, and the approvals
/// that wait are among those there were.
pub proof fn lemma_round_shrinks(
    proposals: Map<ProposalIndex, TreasuryProposal>,
    approvals: Seq<ProposalIndex>,
    budget: int,
)
    requires
        0 <= budget,
    ensures
        0 <= round(proposals, approvals, budget).budget <= budget,
        round(proposals, approvals, budget).proposals.submap_of(proposals),
        proposals.dom().finite() ==> round(proposals, approvals, budget).proposals.dom().finite(),
        round(proposals, approvals, budget).kept.len() <= approvals.len(),
        forall|k: int|
            0 <= k < round(proposals, approvals, budget).kept.len() ==> approvals.contains(
                #[trigger] round(proposals, approvals, budget).kept[k],
            ),
    decreases approvals.len(),
{
    if approvals.len() > 0 {
        lemma_round_shrinks(proposals, approvals.drop_last(), budget);
        let before = round(proposals, approvals.drop_last(), budget);
        let after = round(proposals, approvals, budget);
        assert forall|k: int| 0 <= k < after.kept.len() implies approvals.contains(
            #[trigger] after.kept[k],
        ) by {
            if k < before.kept.len() {
                assert(after.kept[k] == before.kept[k]);
                let j = approvals.drop_last().index_of(before.kept[k]);
                assert(approvals.drop_last().contains(before.kept[k]));
                assert(approvals[j] == before.kept[k]);
            } else {
                assert(approvals[approvals.len() - 1] == after.kept[k]);
            }
        }
    }
}

/// What a spend comes to: what its awards do, and what it burns. Nothing else that it asks for
/// bears on what is worth nothing in events and in the settlement.
pub proof fn lemma_spending_total<H: Hashing>(
    state: State<H>,
    parameters: Parameters,
    funds: Funds,
    worth: spec_fn(Effect) -> int,
)
    requires
        forall|event: Event| #[trigger] worth(Effect::Emit(event)) == 0,
        worth(Effect::Settle { who: treasury_account() }) == 0,
    ensures
        total(state.spending_effects(parameters, funds), worth) == total(
            state.spending(funds).effects,
            worth,
        ) + if state.spending(funds).kept.len() == 0 {
            worth(Effect::Burn { amount: state.burning(parameters, funds) as Balance })
        } else {
            0
        },
{
    let after = state.spending(funds);
    let burnt = state.burning(parameters, funds) as Balance;
    let opening = seq![Effect::Emit(Event::Spending(pot_of(funds)))];
    let burning = if after.kept.len() == 0 {
        seq![Effect::Burn { amount: burnt }, Effect::Emit(Event::Burnt(burnt))]
    } else {
        Seq::<Effect>::empty()
    };
    let closing = seq![
        Effect::Settle { who: treasury_account() },
        Effect::Emit(Event::Rollover(state.rollover(parameters, funds) as Balance)),
    ];
    lemma_total_adds(opening + after.effects + burning, closing, worth);
    lemma_total_adds(opening + after.effects, burning, worth);
    lemma_total_adds(opening, after.effects, worth);
    lemma_total_of_few(opening, worth);
    lemma_total_of_few(burning, worth);
    lemma_total_of_few(closing, worth);
}

impl<H: Hashing> Module<H> {
    /// What was slashed elsewhere goes into the pot.
    pub fn on_nonzero_unbalanced(amount: Balance) -> (r: Vec<Effect>)
        ensures
            r@ == deposit_effects(amount),
    {
        let mut effects: Vec<Effect> = Vec::new();
        // Must resolve into existing but better to be safe.
        effects.push(Effect::ResolveCreating { who: Self::account_id(), amount });
        effects.push(Effect::Emit(Event::Deposit(amount)));
        effects
    }

    /// Spend some money!
    pub fn spend_funds(&mut self, parameters: &Parameters, funds: &Funds) -> (r: Vec<Effect>)
        ensures
            final(self)@ == old(self)@.after_spending(*funds),
            old(self)@.wf() ==> final(self)@.wf(),
            r@ == old(self)@.spending_effects(*parameters, *funds),
    {
        let ghost before = self@;
        let ghost pot = pot_of(*funds);
        let mut budget_remaining: Balance = Self::pot(funds);
        let mut effects: Vec<Effect> = Vec::new();
        effects.push(Effect::Emit(Event::Spending(budget_remaining)));
        let ghost opening = effects@;

        let mut missed_any = false;
        let mut kept: Vec<ProposalIndex> = Vec::new();
        let mut i: usize = 0;
        assert(opening + Seq::<Effect>::empty() =~= opening);
        while i < self.approvals.len()
            invariant
                i <= before.approvals.len(),
                self.approvals@ == before.approvals,
                self.proposal_count == before.proposal_count,
                self@.tips == before.tips,
                self@.reasons == before.reasons,
                self.proposals@ == round(
                    before.proposals,
                    before.approvals.take(i as int),
                    pot as int,
                ).proposals,
                kept@ == round(before.proposals, before.approvals.take(i as int), pot as int).kept,
                budget_remaining == round(
                    before.proposals,
                    before.approvals.take(i as int),
                    pot as int,
                ).budget,
                effects@ == opening + round(
                    before.proposals,
                    before.approvals.take(i as int),
                    pot as int,
                ).effects,
                missed_any == (kept@.len() > 0),
            decreases before.approvals.len() - i,
        {
            let ghost so_far = round(
                before.proposals,
                before.approvals.take(i as int),
                pot as int,
            );
            let ghost effects_before = effects@;
            let index: ProposalIndex = self.approvals[i];
            proof {
                assert(before.approvals.take(i + 1).drop_last() =~= before.approvals.take(i as int));
                assert(before.approvals.take(i + 1).last() == index);
            }
            // Should always be there, but shouldn't panic if not or we're screwed.
            if let Some(p) = self.proposals(index) {
                if p.value <= budget_remaining {
                    budget_remaining = budget_remaining - p.value;
                    let _ = self.proposals.take(&index);

                    // return their deposit.
                    effects.push(Effect::Unreserve { who: p.proposer, amount: p.bond });

                    // provide the allocation.
                    effects.push(Effect::DepositCreating { who: p.beneficiary, amount: p.value });

                    effects.push(Effect::Emit(Event::Awarded(index, p.value, p.beneficiary)));
                    assert(effects@ =~= opening + (so_far.effects + award(index, p)));
                } else {
                    missed_any = true;
                    kept.push(index);
                }
            }
            i = i + 1;
        }
        assert(before.approvals.take(i as int) =~= before.approvals);
        let ghost awards = before.spending(*funds);
        self.approvals = kept;

        if !missed_any {
            // burn some proportion of the remaining budget if we run a surplus.
            let share: Balance = permill_of(parameters.burn, budget_remaining);
            let burn: Balance = if share < budget_remaining {
                share
            } else {
                budget_remaining
            };
            proof {
                lemma_portion_within(
                    capped(parameters.burn as int, 1_000_000),
                    1_000_000,
                    budget_remaining as int,
                );
            }
            budget_remaining = budget_remaining - burn;
            effects.push(Effect::Burn { amount: burn });
            effects.push(Effect::Emit(Event::Burnt(burn)));
        }
        effects.push(Effect::Settle { who: Self::account_id() });
        effects.push(Effect::Emit(Event::Rollover(budget_remaining)));
        proof {
            assert(effects@ =~= before.spending_effects(*parameters, *funds));
            assert(self@ =~= before.after_spending(*funds));
            lemma_round_shrinks(before.proposals, before.approvals, pot as int);
            assert(before.wf() ==> self@.wf()) by {
                if before.wf() {
                    assert forall|i: ProposalIndex| #[trigger]
                        self@.proposals.contains_key(i) implies i < self@.proposal_count by {
                        assert(awards.proposals.dom().contains(i));
                        assert(before.proposals.contains_key(i));
                    }
                    assert forall|k: int| 0 <= k < self@.approvals.len() implies
                        #[trigger] self@.approvals[k] < self@.proposal_count by {
                        assert(before.approvals.contains(awards.kept[k]));
                    }
                }
            }
        }
        effects
    }

    /// Check to see if we should spend some funds!
    pub fn on_initialize(
        &mut self,
        parameters: &Parameters,
        funds: &Funds,
        n: BlockNumber,
    ) -> (r: Vec<Effect>)
        requires
            parameters.spend_period > 0,
        ensures
            old(self)@.wf() ==> final(self)@.wf(),
            spends_at(*parameters, n) ==> {
                &&& final(self)@ == old(self)@.after_spending(*funds)
                &&& r@ == old(self)@.spending_effects(*parameters, *funds)
            },
            !spends_at(*parameters, n) ==> {
                &&& final(self)@ == old(self)@
                &&& r@ == Seq::<Effect>::empty()
            },
    {
        if n % parameters.spend_period == 0 {
            self.spend_funds(parameters, funds)
        } else {
            Vec::new()
        }
    }
}

} // verus!
