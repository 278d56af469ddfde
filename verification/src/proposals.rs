//! Proposals to spend from the pot: making one, rejecting it, and approving it.

use crate::module::{Module, State, bond_for};
use crate::origin::{ensure_privileged, ensure_signed, privileged};
use crate::runtime::Hashing;
use crate::types::{
    AccountId, Balance, DispatchError, Effect, Error, Event, Parameters, Proposal, ProposalIndex,
    RawOrigin, TreasuryProposal,
};
use vstd::prelude::*;

verus! {

/// The proposal that `proposer` makes to pay `value` to `beneficiary`, with the bond that it takes.
pub open spec fn proposal_for(
    parameters: Parameters,
    proposer: AccountId,
    value: Balance,
    beneficiary: AccountId,
) -> TreasuryProposal {
    Proposal { proposer, value, beneficiary, bond: bond_for(parameters, value) }
}

/// Why a proposal would be refused, before its bond is looked at.
pub open spec fn proposal_refusal(origin: RawOrigin, beneficiary: Option<AccountId>) -> Option<
    DispatchError,
> {
    match (origin, beneficiary) {
        (RawOrigin::Signed(_), Some(_)) => None,
        (RawOrigin::Signed(_), None) => Some(DispatchError::CannotLookup),
        _ => Some(DispatchError::BadOrigin),
    }
}

impl<H: Hashing> State<H> {
    /// Why a rejection or an approval of the proposal at an index would be refused.
    pub open spec fn decision_refusal(
        self,
        origin: RawOrigin,
        admitted: bool,
        index: ProposalIndex,
    ) -> Option<DispatchError> {
        if !privileged(origin, admitted) {
            Some(DispatchError::BadOrigin)
        } else if !self.proposals.contains_key(index) {
            Some(DispatchError::Module(Error::InvalidProposalIndex))
        } else {
            None
        }
    }

    /// What a new proposal asks for: that it is recorded.
    pub open spec fn proposal_effects(self) -> Seq<Effect> {
        seq![Effect::Emit(Event::Proposed(self.proposal_count))]
    }

    /// What rejecting a proposal asks for: its bond is slashed, and this is recorded.
    pub open spec fn rejection_effects(self, index: ProposalIndex) -> Seq<Effect> {
        let proposal = self.proposals[index];
        seq![
            Effect::SlashReserved { who: proposal.proposer, amount: proposal.bond },
            Effect::Emit(Event::Rejected(index, proposal.bond)),
        ]
    }

    /// The records with one more proposal.
    pub open spec fn with_proposal(self, proposal: TreasuryProposal) -> State<H> {
        State {
            proposal_count: (self.proposal_count + 1) as ProposalIndex,
            proposals: self.proposals.insert(self.proposal_count, proposal),
            ..self
        }
    }

    /// The records without the proposal at an index.
    pub open spec fn without_proposal(self, index: ProposalIndex) -> State<H> {
        State { proposals: self.proposals.remove(index), ..self }
    }

    /// The records with one more approval.
    pub open spec fn with_approval(self, index: ProposalIndex) -> State<H> {
        State { approvals: self.approvals.push(index), ..self }
    }
}

impl<H: Hashing> Module<H> {
    /// Put forward a suggestion for spending. A deposit proportional to the value
    /// is reserved and slashed if the proposal is rejected. It is returned once the
    /// proposal is awarded.
    ///
    /// `beneficiary` is the account that the given address leads to, and `reserve` has the
    /// currency reserve an amount in an account.
    pub fn propose_spend<E, F: FnOnce(AccountId, Balance) -> Result<(), E>>(
        &mut self,
        parameters: &Parameters,
        origin: RawOrigin,
        value: Balance,
        beneficiary: Option<AccountId>,
        reserve: F,
    ) -> (r: Result<Vec<Effect>, DispatchError>)
        requires
            origin is Signed && beneficiary is Some ==> {
                &&& reserve.requires((origin->Signed_0, bond_for(*parameters, value)))
                &&& forall|reserved: Result<(), E>|
                    #[trigger] reserve.ensures(
                        (origin->Signed_0, bond_for(*parameters, value)),
                        reserved,
                    ) && reserved is Ok ==> old(self)@.proposal_count < ProposalIndex::MAX
            },
        ensures
            old(self)@.wf() ==> final(self)@.wf(),
            match proposal_refusal(origin, beneficiary) {
                Some(refusal) => {
                    &&& r == Err::<Vec<Effect>, DispatchError>(refusal)
                    &&& final(self)@ == old(self)@
                },
                None => {
                    let proposal = proposal_for(
                        *parameters,
                        origin->Signed_0,
                        value,
                        beneficiary->0,
                    );
                    exists|reserved: Result<(), E>| #[trigger]
                        reserve.ensures((proposal.proposer, proposal.bond), reserved)
                            && match reserved {
                            Ok(_) => {
                                &&& r matches Ok(effects) && effects@
                                    == old(self)@.proposal_effects()
                                &&& final(self)@ == old(self)@.with_proposal(proposal)
                            },
                            Err(_) => {
                                &&& r == Err::<Vec<Effect>, DispatchError>(
                                    DispatchError::Module(Error::InsufficientProposersBalance),
                                )
                                &&& final(self)@ == old(self)@
                            },
                        }
                },
            },
    {
        let proposer: AccountId = match ensure_signed(origin) {
            Ok(who) => who,
            Err(e) => return Err(e),
        };
        let beneficiary: AccountId = match beneficiary {
            Some(who) => who,
            None => return Err(DispatchError::CannotLookup),
        };

        let bond: Balance = Self::calculate_bond(parameters, value);
        let reserved: Result<(), E> = reserve(proposer, bond);
        let ghost proposal = proposal_for(*parameters, proposer, value, beneficiary);
        assert(reserve.ensures((proposal.proposer, proposal.bond), reserved));
        match reserved {
            Ok(_) => {},
            Err(_) => return Err(DispatchError::Module(Error::InsufficientProposersBalance)),
        }

        let c: ProposalIndex = self.proposal_count;
        self.proposal_count = c + 1;
        self.proposals.insert(c, Proposal { proposer, value, beneficiary, bond });

        let mut effects: Vec<Effect> = Vec::new();
        effects.push(Effect::Emit(Event::Proposed(c)));
        assert(self@ =~= old(self)@.with_proposal(Proposal { proposer, value, beneficiary, bond }));
        Ok(effects)
    }

    /// Reject a proposed spend. The original deposit will be slashed.
    ///
    /// `admitted` says whether the chain's configuration lets this origin reject proposals.
    pub fn reject_proposal(
        &mut self,
        origin: RawOrigin,
        admitted: bool,
        proposal_id: ProposalIndex,
    ) -> (r: Result<Vec<Effect>, DispatchError>)
        ensures
            old(self)@.wf() ==> final(self)@.wf(),
            match old(self)@.decision_refusal(origin, admitted, proposal_id) {
                Some(refusal) => {
                    &&& r == Err::<Vec<Effect>, DispatchError>(refusal)
                    &&& final(self)@ == old(self)@
                },
                None => {
                    &&& r matches Ok(effects) && effects@ == old(self)@.rejection_effects(
                        proposal_id,
                    )
                    &&& final(self)@ == old(self)@.without_proposal(proposal_id)
                },
            },
    {
        match ensure_privileged(origin, admitted) {
            Ok(_) => {},
            Err(e) => return Err(e),
        }

        let proposal: TreasuryProposal = match self.proposals.take(&proposal_id) {
            Some(proposal) => proposal,
            None => {
                assert(self@ =~= old(self)@);
                return Err(DispatchError::Module(Error::InvalidProposalIndex));
            },
        };
        let value: Balance = proposal.bond;
        let mut effects: Vec<Effect> = Vec::new();
        effects.push(Effect::SlashReserved { who: proposal.proposer, amount: value });
        effects.push(Effect::Emit(Event::Rejected(proposal_id, value)));
        assert(self@ =~= old(self)@.without_proposal(proposal_id));
        Ok(effects)
    }

    /// Approve a proposal. At a later time, the proposal will be allocated to the beneficiary
    /// and the original deposit will be returned.
    ///
    /// `admitted` says whether the chain's configuration lets this origin approve proposals.
    pub fn approve_proposal(
        &mut self,
        origin: RawOrigin,
        admitted: bool,
        proposal_id: ProposalIndex,
    ) -> (r: Result<(), DispatchError>)
        ensures
            old(self)@.wf() ==> final(self)@.wf(),
            match old(self)@.decision_refusal(origin, admitted, proposal_id) {
                Some(refusal) => {
                    &&& r == Err::<(), DispatchError>(refusal)
                    &&& final(self)@ == old(self)@
                },
                None => {
                    &&& r is Ok
                    &&& final(self)@ == old(self)@.with_approval(proposal_id)
                },
            },
    {
        match ensure_privileged(origin, admitted) {
            Ok(_) => {},
            Err(e) => return Err(e),
        }

        if !self.proposals.contains_key(&proposal_id) {
            return Err(DispatchError::Module(Error::InvalidProposalIndex));
        }
        self.approvals.push(proposal_id);
        assert(self@ =~= old(self)@.with_approval(proposal_id));
        Ok(())
    }
}

} // verus!
