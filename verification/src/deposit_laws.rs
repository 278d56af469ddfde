//! What holds of deposits: what is reserved in an account for the records is what the records
//! say, and it is released with them.

use crate::effects::{lemma_total_adds, lemma_total_of_few, total};
use crate::module::{State, pot_of, tip_hash};
use crate::runtime::Hashing;
use crate::spending::{award, lemma_round_shrinks, lemma_spending_total, round};
use crate::types::{
    AccountId, Balance, Effect, Funds, H256, Parameters, ProposalIndex, TipView,
    TreasuryProposal,
};
use vstd::prelude::*;

verus! {

/// The sum of what a map holds.
pub open spec fn sum<K>(m: Map<K, int>) -> int
    decreases m.dom().len(),
{
    if m.dom().finite() && m.dom().len() > 0 {
        let k = m.dom().choose();
        m[k] + sum(m.remove(k))
    } else {
        0
    }
}

/// Any entry can be taken out of a sum.
proof fn lemma_sum_remove<K>(m: Map<K, int>, k: K)
    requires
        m.dom().finite(),
        m.contains_key(k),
    ensures
        sum(m) == m[k] + sum(m.remove(k)),
    decreases m.dom().len(),
{
    let c = m.dom().choose();
    assert(m.dom().contains(k));
    assert(m.dom().len() > 0);
    if c != k {
        assert(m.remove(c).dom() =~= m.dom().remove(c));
        assert(m.remove(k).dom() =~= m.dom().remove(k));
        lemma_sum_remove(m.remove(c), k);
        lemma_sum_remove(m.remove(k), c);
        assert(m.remove(c).remove(k) =~= m.remove(k).remove(c));
    }
}

/// A new entry adds to a sum.
proof fn lemma_sum_insert<K>(m: Map<K, int>, k: K, v: int)
    requires
        m.dom().finite(),
        !m.contains_key(k),
    ensures
        sum(m.insert(k, v)) == v + sum(m),
{
    lemma_sum_remove(m.insert(k, v), k);
    assert(m.insert(k, v).remove(k) =~= m);
}

/// The bond that a proposal holds in an account.
pub open spec fn bond_in(proposal: TreasuryProposal, who: AccountId) -> int {
    if proposal.proposer == who {
        proposal.bond as int
    } else {
        0
    }
}

/// The bonds that some proposals hold in an account.
pub open spec fn bonds(
    proposals: Map<ProposalIndex, TreasuryProposal>,
    who: AccountId,
) -> Map<ProposalIndex, int> {
    proposals.map_values(|p: TreasuryProposal| bond_in(p, who))
}

/// The deposit that a tip holds in an account.
pub open spec fn deposit_in(tip: TipView, who: AccountId) -> int {
    match tip.finder {
        Some((finder, deposit)) => if finder == who {
            deposit as int
        } else {
            0
        },
        None => 0,
    }
}

/// The deposits that some tips hold in an account.
pub open spec fn deposits(tips: Map<H256, TipView>, who: AccountId) -> Map<H256, int> {
    tips.map_values(|t: TipView| deposit_in(t, who))
}

impl<H: Hashing> State<H> {
    /// All that is held on deposit in an account for the records: the bonds of its proposals, and
    /// the deposits of the tips that it reported.
    pub open spec fn held(self, who: AccountId) -> int {
        sum(bonds(self.proposals, who)) + sum(deposits(self.tips, who))
    }
}

/// What an effect releases of what is reserved in an account, be it returned or slashed.
pub open spec fn released_by(effect: Effect, account: AccountId) -> int {
    match effect {
        Effect::Unreserve { who, amount } => if who == account {
            amount as int
        } else {
            0
        },
        Effect::SlashReserved { who, amount } => if who == account {
            amount as int
        } else {
            0
        },
        _ => 0,
    }
}

/// What some effects release of what is reserved in an account, be it returned or slashed.
pub open spec fn released(effects: Seq<Effect>, account: AccountId) -> int {
    total(effects, |effect: Effect| released_by(effect, account))
}

/// Making a proposal adds its bond, which is what is reserved for it, to what is held in the
/// proposer's account, and nothing in any other.
pub proof fn law_proposal_holds_bond<H: Hashing>(
    state: State<H>,
    proposal: TreasuryProposal,
    who: AccountId,
)
    requires
        state.wf(),
        state.proposal_count < ProposalIndex::MAX,
    ensures
        state.with_proposal(proposal).held(who) == state.held(who) + bond_in(proposal, who),
{
    assert(bonds(state.proposals, who).dom() =~= state.proposals.dom());
    assert(bonds(state.with_proposal(proposal).proposals, who) =~= bonds(
        state.proposals,
        who,
    ).insert(state.proposal_count, bond_in(proposal, who)));
    lemma_sum_insert(bonds(state.proposals, who), state.proposal_count, bond_in(proposal, who));
}

/// Rejecting a proposal releases, by slashing it, what was held for the proposal in its proposer's
/// account, and nothing in any other.
pub proof fn law_rejection_releases_bond<H: Hashing>(
    state: State<H>,
    index: ProposalIndex,
    who: AccountId,
)
    requires
        state.wf(),
        state.proposals.contains_key(index),
    ensures
        ({
            state.without_proposal(index).held(who) + released(state.rejection_effects(index), who)
                == state.held(who)
        }),
{
    let effects = state.rejection_effects(index);
    lemma_total_of_few(effects, |effect: Effect| released_by(effect, who));
    lemma_bonds_remove(state.proposals, index, who);
}

proof fn lemma_bonds_remove(
    proposals: Map<ProposalIndex, TreasuryProposal>,
    index: ProposalIndex,
    who: AccountId,
)
    requires
        proposals.dom().finite(),
        proposals.contains_key(index),
    ensures
        sum(bonds(proposals, who)) == bond_in(proposals[index], who) + sum(
            bonds(proposals.remove(index), who),
        ),
{
    assert(bonds(proposals, who).dom() =~= proposals.dom());
    lemma_sum_remove(bonds(proposals, who), index);
    assert(bonds(proposals, who).remove(index) =~= bonds(proposals.remove(index), who));
}

proof fn lemma_round_releases(
    proposals: Map<ProposalIndex, TreasuryProposal>,
    approvals: Seq<ProposalIndex>,
    budget: int,
    who: AccountId,
)
    requires
        proposals.dom().finite(),
        0 <= budget,
    ensures
        sum(bonds(round(proposals, approvals, budget).proposals, who)) + released(
            round(proposals, approvals, budget).effects,
            who,
        ) == sum(bonds(proposals, who)),
    decreases approvals.len(),
{
    if approvals.len() > 0 {
        let prefix = approvals.drop_last();
        let before = round(proposals, prefix, budget);
        let index = approvals.last();
        lemma_round_releases(proposals, prefix, budget, who);
        lemma_round_shrinks(proposals, prefix, budget);
        if before.proposals.contains_key(index) && before.proposals[index].value <= before.budget {
            let a = award(index, before.proposals[index]);
            lemma_total_adds(before.effects, a, |effect: Effect| released_by(effect, who));
            lemma_total_of_few(a, |effect: Effect| released_by(effect, who));
            lemma_bonds_remove(before.proposals, index, who);
        }
    }
}

/// A spend releases, in each account, what was held for the proposals that it awards, and nothing
/// else.
pub proof fn law_spend_releases_bonds<H: Hashing>(
    state: State<H>,
    parameters: Parameters,
    funds: Funds,
    who: AccountId,
)
    requires
        state.wf(),
    ensures
        state.after_spending(funds).held(who) + released(
            state.spending_effects(parameters, funds),
            who,
        ) == state.held(who),
{
    lemma_spending_total(state, parameters, funds, |effect: Effect| released_by(effect, who));
    lemma_round_releases(state.proposals, state.approvals, pot_of(funds) as int, who);
}

/// Opening a tip adds its deposit, which is what is reserved for it, to what is held in the
/// finder's account, and nothing in any other, as long as it does not take the place of another
/// tip that bears the same hash.
pub proof fn law_new_tip_holds_deposit<H: Hashing>(
    state: State<H>,
    reason: Seq<u8>,
    tip: TipView,
    who: AccountId,
)
    requires
        state.wf(),
        !state.tips.contains_key(tip_hash::<H>(tip.reason, tip.who)),
    ensures
        state.with_new_tip(reason, tip).held(who) == state.held(who) + deposit_in(tip, who),
{
    let hash = tip_hash::<H>(tip.reason, tip.who);
    assert(deposits(state.tips, who).dom() =~= state.tips.dom());
    assert(deposits(state.with_new_tip(reason, tip).tips, who) =~= deposits(state.tips, who).insert(
        hash,
        deposit_in(tip, who),
    ));
    lemma_sum_insert(deposits(state.tips, who), hash, deposit_in(tip, who));
}

/// Declaring an amount for a tip changes nothing of what is held in any account.
pub proof fn law_declaration_holds<H: Hashing>(
    state: State<H>,
    hash: H256,
    next: TipView,
    who: AccountId,
)
    requires
        state.wf(),
        state.tips.contains_key(hash),
        next.finder == state.tips[hash].finder,
    ensures
        state.with_tip_at(hash, next).held(who) == state.held(who),
{
    assert(deposits(state.with_tip_at(hash, next).tips, who) =~= deposits(state.tips, who));
}

proof fn lemma_deposits_remove(tips: Map<H256, TipView>, hash: H256, who: AccountId)
    requires
        tips.dom().finite(),
        tips.contains_key(hash),
    ensures
        sum(deposits(tips, who)) == deposit_in(tips[hash], who) + sum(
            deposits(tips.remove(hash), who),
        ),
{
    assert(deposits(tips, who).dom() =~= tips.dom());
    lemma_sum_remove(deposits(tips, who), hash);
    assert(deposits(tips, who).remove(hash) =~= deposits(tips.remove(hash), who));
}

/// Retracting a tip releases what was held for it in its finder's account, and nothing in any
/// other.
pub proof fn law_retraction_releases_deposit<H: Hashing>(
    state: State<H>,
    hash: H256,
    finder: AccountId,
    deposit: Balance,
    who: AccountId,
)
    requires
        state.wf(),
        state.tips.contains_key(hash),
        state.tips[hash].finder == Some((finder, deposit)),
    ensures
        state.without_tip(hash).held(who) + released(state.retraction_effects(hash), who)
            == state.held(who),
{
    let effects = state.retraction_effects(hash);
    lemma_total_of_few(effects, |effect: Effect| released_by(effect, who));
    lemma_deposits_remove(state.tips, hash, who);
}

/// Paying out a tip releases what was held for it in its finder's account, and nothing in any
/// other.
pub proof fn law_payout_releases_deposit<H: Hashing>(
    state: State<H>,
    hash: H256,
    parameters: Parameters,
    members: Seq<AccountId>,
    funds: Funds,
    who: AccountId,
)
    requires
        state.wf(),
        state.tips.contains_key(hash),
    ensures
        state.without_tip(hash).held(who) + released(
            state.tips[hash].payout_effects(parameters, members, funds),
            who,
        ) == state.held(who),
{
    let effects = state.tips[hash].payout_effects(parameters, members, funds);
    lemma_total_of_few(effects, |effect: Effect| released_by(effect, who));
    lemma_deposits_remove(state.tips, hash, who);
}

} // verus!
