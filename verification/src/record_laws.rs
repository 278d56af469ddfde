//! What each call leaves in the records and asks for, looked up entry by entry and account by
//! account.

use crate::effects::{lemma_total_of_few, total};
use crate::module::{Module, State, genesis_effects, reason_hash, tip_hash, treasury_account};
use crate::proposals::proposal_for;
use crate::runtime::Hashing;
use crate::spending::deposit_effects;
use crate::tipping::{opened_tip, opening_effects, report_deposit, reported_tip};
use crate::types::{
    AccountId, Balance, Effect, Event, H256, Parameters, ProposalIndex, TipView,
};
use vstd::prelude::*;

verus! {

/// What an effect returns of what is reserved in an account.
pub open spec fn returned_by(effect: Effect, account: AccountId) -> int {
    match effect {
        Effect::Unreserve { who, amount } => if who == account {
            amount as int
        } else {
            0
        },
        _ => 0,
    }
}

/// What some effects return of what is reserved in an account.
pub open spec fn returned(effects: Seq<Effect>, account: AccountId) -> int {
    total(effects, |effect: Effect| returned_by(effect, account))
}

/// What an effect slashes of what is reserved in an account.
pub open spec fn slashed_by(effect: Effect, account: AccountId) -> int {
    match effect {
        Effect::SlashReserved { who, amount } => if who == account {
            amount as int
        } else {
            0
        },
        _ => 0,
    }
}

/// What some effects slash of what is reserved in an account.
pub open spec fn slashed(effects: Seq<Effect>, account: AccountId) -> int {
    total(effects, |effect: Effect| slashed_by(effect, account))
}

/// Nothing moves any funds of an account but that it is reserved there, returned or slashed.
pub open spec fn only_deposits(effects: Seq<Effect>) -> bool {
    forall|i: int|
        0 <= i < effects.len() ==> (#[trigger] effects[i] is Emit || effects[i] is Unreserve
            || effects[i] is SlashReserved)
}

/// Some effects record one event, and no other.
pub open spec fn records(effects: Seq<Effect>, event: Event) -> bool {
    &&& effects.contains(Effect::Emit(event))
    &&& forall|i: int|
        0 <= i < effects.len() && #[trigger] effects[i] is Emit ==> effects[i] == Effect::Emit(
            event,
        )
    &&& total(
        effects,
        |effect: Effect|
            if effect is Emit {
                1int
            } else {
                0int
            },
    ) == 1
}

// Reading the records

/// The records say what they hold.
pub proof fn law_records_read<H: Hashing>(module: Module<H>, index: ProposalIndex, hash: H256)
    ensures
        module@.proposal_count == module.proposal_count,
        module@.approvals == module.approvals@,
        module@.proposals.contains_key(index) <==> module.proposals@.contains_key(index),
        module.proposals@.contains_key(index) ==> module@.proposals[index]
            == module.proposals@[index],
        module@.tips.contains_key(hash) <==> module.tips@.contains_key(hash),
        module.tips@.contains_key(hash) ==> {
            let tip = module.tips@[hash];
            let read = module@.tips[hash];
            &&& read.reason == tip.reason
            &&& read.who == tip.who
            &&& read.finder == tip.finder
            &&& read.closes == tip.closes
            &&& read.tips == tip.tips@
        },
        module@.reasons.contains_key(hash) <==> module.reasons@.contains_key(hash),
        module.reasons@.contains_key(hash) ==> module@.reasons[hash] == module.reasons@[hash]@,
{
}

// Genesis, and what goes into the pot

/// The treasury begins with no records, and with an account of its own that holds the least
/// balance that keeps an account alive. No other account is touched.
pub proof fn law_genesis<H: Hashing>(minimum_balance: Balance, who: AccountId)
    ensures
        ({
            let state = State::<H>::genesis();
            let effects = genesis_effects(minimum_balance);
            &&& state.proposal_count == 0
            &&& state.approvals.len() == 0
            &&& forall|i: ProposalIndex| !(#[trigger] state.proposals.contains_key(i))
            &&& forall|h: H256| !(#[trigger] state.tips.contains_key(h))
            &&& forall|h: H256| !(#[trigger] state.reasons.contains_key(h))
            &&& effects.len() == 1
            &&& effects[0] is MakeFreeBalanceBe
            &&& effects[0]->MakeFreeBalanceBe_who == who <==> who == treasury_account()
            &&& effects[0]->MakeFreeBalanceBe_amount == minimum_balance
        }),
{
}

/// The treasury's account: the tag `modl` and the name `py/trsry`, letter by letter, and then
/// nothing.
pub proof fn law_treasury_account()
    ensures
        treasury_account()@ == seq![
            'm' as u8,
            'o' as u8,
            'd' as u8,
            'l' as u8,
            'p' as u8,
            'y' as u8,
            '/' as u8,
            't' as u8,
            'r' as u8,
            's' as u8,
            'r' as u8,
            'y' as u8,
        ] + Seq::new(20, |i: int| 0u8),
{
    assert(treasury_account()@ =~= seq![
        'm' as u8,
        'o' as u8,
        'd' as u8,
        'l' as u8,
        'p' as u8,
        'y' as u8,
        '/' as u8,
        't' as u8,
        'r' as u8,
        's' as u8,
        'r' as u8,
        'y' as u8,
    ] + Seq::new(20, |i: int| 0u8));
}

/// What an effect puts into an account of what was taken elsewhere.
pub open spec fn resolved_by(effect: Effect, account: AccountId) -> int {
    match effect {
        Effect::ResolveCreating { who, amount } => if who == account {
            amount as int
        } else {
            0
        },
        _ => 0,
    }
}

/// What was slashed elsewhere goes into the treasury's account, all of it, and this is recorded.
pub proof fn law_deposit(amount: Balance, who: AccountId)
    ensures
        ({
            let effects = deposit_effects(amount);
            &&& total(effects, |effect: Effect| resolved_by(effect, who)) == if who
                == treasury_account() {
                amount as int
            } else {
                0
            }
            &&& records(effects, Event::Deposit(amount))
            &&& effects.len() == 2
            &&& effects[0] is ResolveCreating
        }),
{
    let effects = deposit_effects(amount);
    lemma_total_of_few(effects, |effect: Effect| resolved_by(effect, who));
    lemma_records_one(effects, 1, Event::Deposit(amount));
}

proof fn lemma_records_one(effects: Seq<Effect>, at: int, event: Event)
    requires
        1 <= effects.len() <= 2,
        0 <= at < effects.len(),
        effects[at] == Effect::Emit(event),
        forall|i: int| 0 <= i < effects.len() && i != at ==> !(#[trigger] effects[i] is Emit),
    ensures
        records(effects, event),
{
    lemma_total_of_few(
        effects,
        |effect: Effect|
            if effect is Emit {
                1int
            } else {
                0int
            },
    );
    assert(effects.contains(effects[at]));
}

// Proposals

/// The records of proposals differ in nothing but what is found at an index.
pub open spec fn differ_at<H: Hashing>(a: State<H>, b: State<H>, index: ProposalIndex) -> bool {
    forall|i: ProposalIndex|
        i != index ==> (#[trigger] a.proposals.contains_key(i) <==> b.proposals.contains_key(i))
            && (a.proposals.contains_key(i) ==> a.proposals[i] == b.proposals[i])
}

/// A proposal is recorded as it was made, under the number of proposals so far, with the bond that
/// was reserved in its proposer's account. Nothing else changes but that number, by one, and the
/// index is recorded.
pub proof fn law_proposed<H: Hashing>(
    state: State<H>,
    parameters: Parameters,
    proposer: AccountId,
    value: Balance,
    beneficiary: AccountId,
)
    requires
        state.proposal_count < ProposalIndex::MAX,
    ensures
        ({
            let proposal = proposal_for(parameters, proposer, value, beneficiary);
            let after = state.with_proposal(proposal);
            let index = state.proposal_count;
            &&& proposal.proposer == proposer
            &&& proposal.value == value
            &&& proposal.beneficiary == beneficiary
            &&& after.proposals.contains_key(index)
            &&& after.proposals[index] == proposal
            &&& differ_at(state, after, index)
            &&& after.proposal_count == index + 1
            &&& after.approvals == state.approvals
            &&& after.tips == state.tips
            &&& after.reasons == state.reasons
            &&& records(state.proposal_effects(), Event::Proposed(index))
            &&& state.proposal_effects().len() == 1
        }),
{
    lemma_records_one(state.proposal_effects(), 0, Event::Proposed(state.proposal_count));
}

/// A rejected proposal is gone, and nothing else. Its proposer loses the whole bond, and nobody
/// else anything; nothing is returned or paid. The rejection is recorded, with the bond.
pub proof fn law_rejected<H: Hashing>(state: State<H>, index: ProposalIndex, who: AccountId)
    requires
        state.proposals.contains_key(index),
    ensures
        ({
            let proposal = state.proposals[index];
            let after = state.without_proposal(index);
            let effects = state.rejection_effects(index);
            &&& !after.proposals.contains_key(index)
            &&& differ_at(state, after, index)
            &&& after.proposal_count == state.proposal_count
            &&& after.approvals == state.approvals
            &&& after.tips == state.tips
            &&& after.reasons == state.reasons
            &&& slashed(effects, who) == if who == proposal.proposer {
                proposal.bond as int
            } else {
                0
            }
            &&& returned(effects, who) == 0
            &&& only_deposits(effects)
            &&& records(effects, Event::Rejected(index, proposal.bond))
            &&& effects.len() == 2
            &&& effects[0] is SlashReserved
        }),
{
    let effects = state.rejection_effects(index);
    lemma_total_of_few(effects, |effect: Effect| slashed_by(effect, who));
    lemma_total_of_few(effects, |effect: Effect| returned_by(effect, who));
    lemma_records_one(effects, 1, Event::Rejected(index, state.proposals[index].bond));
}

/// An approval is recorded after all others, and nothing else changes.
pub proof fn law_approved<H: Hashing>(state: State<H>, index: ProposalIndex)
    ensures
        ({
            let after = state.with_approval(index);
            &&& after.approvals.len() == state.approvals.len() + 1
            &&& after.approvals.last() == index
            &&& after.approvals.drop_last() == state.approvals
            &&& after.proposals == state.proposals
            &&& after.proposal_count == state.proposal_count
            &&& after.tips == state.tips
            &&& after.reasons == state.reasons
        }),
{
    assert(state.with_approval(index).approvals.drop_last() =~= state.approvals);
}

// Tips

/// A reason is found under its digest, and a tip under the digest of sixty-four bytes: those of
/// the reason's digest, and then those of the account to be tipped.
pub proof fn law_hashes<H: Hashing>(reason: Seq<u8>, who: AccountId, pair: Seq<u8>)
    requires
        pair.len() == 64,
        pair.take(32) == H::digest(reason)@,
        pair.skip(32) == who@,
    ensures
        reason_hash::<H>(reason) == H::digest(reason),
        tip_hash::<H>(H::digest(reason), who) == H::digest(pair),
{
    assert(pair =~= H::digest(reason)@ + who@);
}

/// A reported tip bears its reason's hash and its beneficiary, no declarations, and its finder,
/// with the deposit that was reserved there.
pub proof fn law_reported_tip<H: Hashing>(
    parameters: Parameters,
    finder: AccountId,
    reason: Seq<u8>,
    who: AccountId,
)
    requires
        report_deposit(parameters, reason) <= Balance::MAX,
    ensures
        ({
            let tip = reported_tip::<H>(parameters, finder, reason, who);
            &&& tip.reason == H::digest(reason)
            &&& tip.who == who
            &&& tip.finder matches Some((a, deposit)) && a == finder && deposit == report_deposit(
                parameters,
                reason,
            )
            &&& tip.closes is None
            &&& tip.tips.len() == 0
        }),
{
    assert(0 <= parameters.tip_report_deposit_per_byte * reason.len()) by (nonlinear_arith);
}

/// A tip that a member opens bears its reason's hash and its beneficiary, no finder, and what the
/// member declared.
pub proof fn law_opened_tip<H: Hashing>(
    tipper: AccountId,
    reason: Seq<u8>,
    who: AccountId,
    value: Balance,
)
    ensures
        ({
            let tip = opened_tip::<H>(tipper, reason, who, value);
            &&& tip.reason == H::digest(reason)
            &&& tip.who == who
            &&& tip.finder is None
            &&& tip.closes is None
            &&& tip.tips.len() == 1
            &&& tip.tips[0].0 == tipper
            &&& tip.tips[0].1 == value
        }),
{
}

/// The records of tips differ in nothing but what is found under a hash.
pub open spec fn tips_differ_at<H: Hashing>(a: State<H>, b: State<H>, hash: H256) -> bool {
    forall|h: H256|
        h != hash ==> (#[trigger] a.tips.contains_key(h) <==> b.tips.contains_key(h)) && (
        a.tips.contains_key(h) ==> a.tips[h] == b.tips[h])
}

/// The records of reasons differ in nothing but what is found under a hash.
pub open spec fn reasons_differ_at<H: Hashing>(a: State<H>, b: State<H>, hash: H256) -> bool {
    forall|h: H256|
        h != hash ==> (#[trigger] a.reasons.contains_key(h) <==> b.reasons.contains_key(h)) && (
        a.reasons.contains_key(h) ==> a.reasons[h] == b.reasons[h])
}

/// A new tip is found under the digest of its reason's hash and its beneficiary, and its reason
/// under the reason's hash. Nothing else changes, and the tip's identity is recorded.
pub proof fn law_tip_opened<H: Hashing>(state: State<H>, reason: Seq<u8>, tip: TipView)
    ensures
        ({
            let after = state.with_new_tip(reason, tip);
            let hash = H::digest(tip.reason@ + tip.who@);
            &&& after.tips.contains_key(hash)
            &&& after.tips[hash] == tip
            &&& tips_differ_at(state, after, hash)
            &&& after.reasons.contains_key(tip.reason)
            &&& after.reasons[tip.reason] == reason
            &&& reasons_differ_at(state, after, tip.reason)
            &&& after.proposal_count == state.proposal_count
            &&& after.proposals == state.proposals
            &&& after.approvals == state.approvals
            &&& tip_hash::<H>(tip.reason, tip.who) == hash
        }),
{
}

/// Opening a tip is recorded, and asks for nothing else.
pub proof fn law_opening_recorded(hash: H256)
    ensures
        records(opening_effects(hash), Event::NewTip(hash)),
        opening_effects(hash).len() == 1,
{
    lemma_records_one(opening_effects(hash), 0, Event::NewTip(hash));
}

/// A declaration changes the tip that it is for, and nothing else.
pub proof fn law_tip_changed<H: Hashing>(state: State<H>, hash: H256, tip: TipView)
    ensures
        ({
            let after = state.with_tip_at(hash, tip);
            &&& after.tips.contains_key(hash)
            &&& after.tips[hash] == tip
            &&& tips_differ_at(state, after, hash)
            &&& after.reasons == state.reasons
            &&& after.proposal_count == state.proposal_count
            &&& after.proposals == state.proposals
            &&& after.approvals == state.approvals
        }),
{
}

/// A tip that was retracted or closed is gone, with its reason, and nothing else.
pub proof fn law_tip_ended<H: Hashing>(state: State<H>, hash: H256)
    ensures
        ({
            let after = state.without_tip(hash);
            &&& !after.tips.contains_key(hash)
            &&& tips_differ_at(state, after, hash)
            &&& !after.reasons.contains_key(state.tips[hash].reason)
            &&& reasons_differ_at(state, after, state.tips[hash].reason)
            &&& after.proposal_count == state.proposal_count
            &&& after.proposals == state.proposals
            &&& after.approvals == state.approvals
        }),
{
}

/// Retracting a tip returns its finder the whole deposit, and nobody else anything; nothing is
/// slashed or paid. The retraction is recorded.
pub proof fn law_retracted<H: Hashing>(
    state: State<H>,
    hash: H256,
    finder: AccountId,
    deposit: Balance,
    who: AccountId,
)
    requires
        state.tips[hash].finder == Some((finder, deposit)),
    ensures
        ({
            let effects = state.retraction_effects(hash);
            &&& returned(effects, who) == if who == finder {
                deposit as int
            } else {
                0
            }
            &&& slashed(effects, who) == 0
            &&& only_deposits(effects)
            &&& records(effects, Event::TipRetracted(hash))
            &&& effects.len() == 2
            &&& effects[0] is Unreserve
        }),
{
    let effects = state.retraction_effects(hash);
    lemma_total_of_few(effects, |effect: Effect| returned_by(effect, who));
    lemma_total_of_few(effects, |effect: Effect| slashed_by(effect, who));
    lemma_records_one(effects, 1, Event::TipRetracted(hash));
}

} // verus!
