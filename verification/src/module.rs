//! The treasury's records, and what is computed without them.

use crate::runtime::{Hashing, capped, module_account, permill_of, portion};
use crate::storage::StorageMap;
use crate::tips::ordered;
use crate::types::{
    AccountId, Balance, Effect, Funds, H256, Parameters, ProposalIndex, TipView, TreasuryProposal,
    TreasuryTip,
};
use std::marker::PhantomData;
use vstd::prelude::*;

verus! {

/// The records of a treasury, on a chain that hashes with `H`.
#[derive(Debug)]
pub struct Module<H> {
    /// Number of proposals that have been made.
    pub proposal_count: ProposalIndex,
    /// Proposals that have been made.
    pub proposals: StorageMap<ProposalIndex, TreasuryProposal>,
    /// Proposal indices that have been approved but not yet awarded.
    pub approvals: Vec<ProposalIndex>,
    /// Tips that are not yet completed. Keyed by the hash of `(reason, who)` from the value.
    pub tips: StorageMap<H256, TreasuryTip>,
    /// Simple preimage lookup from the reason's hash to the original data.
    pub reasons: StorageMap<H256, Vec<u8>>,
    /// The hash function of the chain.
    pub hashing: PhantomData<H>,
}

/// What the records of a treasury say.
#[verifier::ext_equal]
pub struct State<H> {
    pub proposal_count: ProposalIndex,
    pub proposals: Map<ProposalIndex, TreasuryProposal>,
    pub approvals: Seq<ProposalIndex>,
    pub tips: Map<H256, TipView>,
    pub reasons: Map<H256, Seq<u8>>,
    pub hashing: PhantomData<H>,
}

impl<H> View for Module<H> {
    type V = State<H>;

    open spec fn view(&self) -> State<H> {
        State {
            proposal_count: self.proposal_count,
            proposals: self.proposals@,
            approvals: self.approvals@,
            tips: self.tips@.map_values(|tip: TreasuryTip| tip@),
            reasons: self.reasons@.map_values(|reason: Vec<u8>| reason@),
            hashing: self.hashing,
        }
    }
}

impl<H: Hashing> State<H> {
    /// Proposals, and approvals of them, bear indices that were given out.
    pub open spec fn indices_given_out(self) -> bool {
        &&& forall|i: ProposalIndex| #[trigger]
            self.proposals.contains_key(i) ==> i < self.proposal_count
        &&& forall|k: int|
            0 <= k < self.approvals.len() ==> #[trigger] self.approvals[k] < self.proposal_count
    }

    /// Each open tip lists its tippers in order, and each once.
    pub open spec fn tippers_in_order(self) -> bool {
        forall|h: H256| #[trigger] self.tips.contains_key(h) ==> ordered(self.tips[h].tips)
    }

    /// The reason of each open tip is on record, and no two open tips share one.
    pub open spec fn reasons_on_record(self) -> bool {
        &&& forall|h: H256| #[trigger]
            self.tips.contains_key(h) ==> self.reasons.contains_key(self.tips[h].reason)
        &&& forall|h: H256, k: H256|
            #![trigger self.tips.contains_key(h), self.tips.contains_key(k)]
            self.tips.contains_key(h) && self.tips.contains_key(k) && h != k ==> self.tips[h].reason
                != self.tips[k].reason
    }

    /// Each open tip is found under the hash of its reason's hash and the account to be tipped,
    /// and each reason under its own hash.
    pub open spec fn keyed_by_hash(self) -> bool {
        &&& forall|h: H256| #[trigger]
            self.tips.contains_key(h) ==> h == tip_hash::<H>(self.tips[h].reason, self.tips[h].who)
        &&& forall|h: H256| #[trigger]
            self.reasons.contains_key(h) ==> h == reason_hash::<H>(self.reasons[h])
    }

    /// There are finitely many proposals and open tips.
    pub open spec fn finite(self) -> bool {
        self.proposals.dom().finite() && self.tips.dom().finite()
    }

    /// What the records of a treasury keep to.
    pub open spec fn wf(self) -> bool {
        &&& self.finite()
        &&& self.indices_given_out()
        &&& self.tippers_in_order()
        &&& self.reasons_on_record()
        &&& self.keyed_by_hash()
    }

    /// The records of a treasury that nobody has called yet.
    pub open spec fn genesis() -> State<H> {
        State {
            proposal_count: 0,
            proposals: Map::empty(),
            approvals: Seq::empty(),
            tips: Map::empty(),
            reasons: Map::empty(),
            hashing: PhantomData,
        }
    }
}

/// The hash of a reason.
pub open spec fn reason_hash<H: Hashing>(reason: Seq<u8>) -> H256 {
    H::digest(reason)
}

/// The hash under which a tip is found, for the hash of its reason and the account to be tipped.
pub open spec fn tip_hash<H: Hashing>(reason: H256, who: AccountId) -> H256 {
    H::digest(reason@ + who@)
}

/// The account of the treasury: the tag `modl`, the module's name `py/trsry`, and zeroes.
pub open spec fn treasury_account() -> AccountId {
    [
        0x6du8, 0x6f, 0x64, 0x6c, 0x70, 0x79, 0x2f, 0x74, 0x72, 0x73, 0x72, 0x79, 0, 0, 0, 0,
        0, 0, 0, 0, 0, 0, 0, 0, 0, 0, 0, 0, 0, 0, 0, 0,
    ]
}

/// The bond that a proposal to spend `value` takes.
pub open spec fn bond_for(parameters: Parameters, value: Balance) -> Balance {
    let share = portion(
        capped(parameters.proposal_bond as int, 1_000_000),
        1_000_000,
        value as int,
    );
    if share < parameters.proposal_bond_minimum {
        parameters.proposal_bond_minimum
    } else {
        share as Balance
    }
}

/// The funds in the pot: what the treasury's account holds beyond what keeps it alive.
pub open spec fn pot_of(funds: Funds) -> Balance {
    if funds.free_balance < funds.minimum_balance {
        0
    } else {
        (funds.free_balance - funds.minimum_balance) as Balance
    }
}

/// What genesis asks for: the treasury's account is created, with the least balance that keeps an
/// account alive.
pub open spec fn genesis_effects(minimum_balance: Balance) -> Seq<Effect> {
    seq![Effect::MakeFreeBalanceBe { who: treasury_account(), amount: minimum_balance }]
}

impl<H: Hashing> Module<H> {
    /// The records at genesis. The treasury's account is created, with the least balance that
    /// keeps an account alive.
    pub fn build(minimum_balance: Balance) -> (r: (Module<H>, Vec<Effect>))
        ensures
            r.0@ == State::<H>::genesis(),
            r.0@.wf(),
            r.1@ == genesis_effects(minimum_balance),
    {
        let module = Module {
            proposal_count: 0,
            proposals: StorageMap::new(),
            approvals: Vec::new(),
            tips: StorageMap::new(),
            reasons: StorageMap::new(),
            hashing: PhantomData,
        };
        let mut effects: Vec<Effect> = Vec::new();
        effects.push(
            Effect::MakeFreeBalanceBe { who: Self::account_id(), amount: minimum_balance },
        );
        assert(module@ =~= State::<H>::genesis());
        (module, effects)
    }

    /// The account ID of the treasury pot.
    ///
    /// This actually does computation. If you need to keep using it, then make sure you cache
    /// the value and only call this once.
    pub fn account_id() -> (r: AccountId)
        ensures
            r == treasury_account(),
    {
        // The treasury's module id, used for deriving its sovereign account ID: `py/trsry`.
        let id: [u8; 8] = [0x70, 0x79, 0x2f, 0x74, 0x72, 0x73, 0x72, 0x79];
        let r: AccountId = module_account(id);
        assert(r =~= treasury_account());
        r
    }

    /// The needed bond for a proposal whose spend is `value`.
    pub fn calculate_bond(parameters: &Parameters, value: Balance) -> (r: Balance)
        ensures
            r == bond_for(*parameters, value),
    {
        let share: Balance = permill_of(parameters.proposal_bond, value);
        if share < parameters.proposal_bond_minimum {
            parameters.proposal_bond_minimum
        } else {
            share
        }
    }

    /// Return the amount of money in the pot.
    // The existential deposit is not part of the pot so treasury account never gets deleted.
    pub fn pot(funds: &Funds) -> (r: Balance)
        ensures
            r == pot_of(*funds),
    {
        // Must never be less than 0 but better be safe.
        funds.free_balance.saturating_sub(funds.minimum_balance)
    }

    /// Number of proposals that have been made.
    pub fn proposal_count(&self) -> (r: ProposalIndex)
        ensures
            r == self@.proposal_count,
    {
        self.proposal_count
    }

    /// The proposal at an index.
    pub fn proposals(&self, index: ProposalIndex) -> (r: Option<TreasuryProposal>)
        ensures
            match r {
                Some(proposal) => self@.proposals.contains_key(index) && proposal
                    == self@.proposals[index],
                None => !self@.proposals.contains_key(index),
            },
    {
        match self.proposals.get(&index) {
            Some(proposal) => Some(*proposal),
            None => None,
        }
    }

    /// Proposal indices that have been approved but not yet awarded.
    pub fn approvals(&self) -> (r: &Vec<ProposalIndex>)
        ensures
            r@ == self@.approvals,
    {
        &self.approvals
    }

    /// The open tip under a hash.
    pub fn tips(&self, hash: &H256) -> (r: Option<&TreasuryTip>)
        ensures
            match r {
                Some(tip) => self@.tips.contains_key(*hash) && tip@ == self@.tips[*hash],
                None => !self@.tips.contains_key(*hash),
            },
    {
        self.tips.get(hash)
    }

    /// The reason with a hash.
    pub fn reasons(&self, hash: &H256) -> (r: Option<&Vec<u8>>)
        ensures
            match r {
                Some(reason) => self@.reasons.contains_key(*hash) && reason@
                    == self@.reasons[*hash],
                None => !self@.reasons.contains_key(*hash),
            },
    {
        self.reasons.get(hash)
    }
}

} // verus!
