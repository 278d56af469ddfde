//! Who is refused what, and why: for every call, what decides whether it is refused, and with which
//! error.

use crate::declaration_laws::Declaration;
use crate::module::State;
use crate::proposals::proposal_refusal;
use crate::runtime::Hashing;
use crate::types::{
    AccountId, BlockNumber, DispatchError, Error, H256, ProposalIndex, RawOrigin,
};
use vstd::prelude::*;

verus! {

/// A proposal is not refused, before its bond is looked at, if and only if some account signed it
/// and the beneficiary's address leads to an account.
pub proof fn law_proposal_refusal(origin: RawOrigin, beneficiary: Option<AccountId>)
    ensures
        proposal_refusal(origin, beneficiary) is None <==> (exists|who: AccountId|
            origin == RawOrigin::Signed(who)) && beneficiary is Some,
        proposal_refusal(origin, beneficiary) == Some(DispatchError::BadOrigin) <==> !(exists|
            who: AccountId,
        |
            origin == RawOrigin::Signed(who)),
        proposal_refusal(origin, beneficiary) == Some(DispatchError::CannotLookup) <==> (exists|
            who: AccountId,
        |
            origin == RawOrigin::Signed(who)) && beneficiary is None,
{
    if let RawOrigin::Signed(who) = origin {
        assert(origin == RawOrigin::Signed(who));
    }
}

/// A decision on a proposal is not refused if and only if the proposal is on record and the
/// decision comes from the system itself or from whom the chain admits. Where it comes from
/// neither, that is the reason; else, that the proposal is not on record.
pub proof fn law_decision_refusal<H: Hashing>(
    state: State<H>,
    origin: RawOrigin,
    admitted: bool,
    index: ProposalIndex,
)
    ensures
        state.decision_refusal(origin, admitted, index) is None <==> state.proposals.contains_key(
            index,
        ) && (admitted || origin == RawOrigin::Root),
        state.decision_refusal(origin, admitted, index) == Some(DispatchError::BadOrigin)
            <==> !admitted && origin != RawOrigin::Root,
        state.decision_refusal(origin, admitted, index) == Some(
            DispatchError::Module(Error::InvalidProposalIndex),
        ) <==> !state.proposals.contains_key(index) && (admitted || origin == RawOrigin::Root),
{
}

/// A report is not refused, before its deposit is looked at, if and only if it is signed, its
/// reason has at most 16384 bytes, neither the reason's hash nor the tip's hash is on record.
pub proof fn law_report_refusal<H: Hashing>(
    state: State<H>,
    origin: RawOrigin,
    reason: Seq<u8>,
    who: AccountId,
)
    ensures
        ({
            let refusal = state.report_refusal(origin, reason, who);
            let known = state.reasons.contains_key(H::digest(reason)) || state.tips.contains_key(
                H::digest(H::digest(reason)@ + who@),
            );
            &&& refusal is None <==> origin is Signed && reason.len() <= 16384 && !known
            &&& refusal == Some(DispatchError::BadOrigin) <==> !(origin is Signed)
            &&& refusal == Some(DispatchError::Module(Error::ReasonTooBig)) <==> origin is Signed
                && reason.len() > 16384
            &&& refusal == Some(DispatchError::Module(Error::AlreadyKnown)) <==> origin is Signed
                && reason.len() <= 16384 && known
        }),
{
}

/// A retraction of a tip on record is not refused if and only if the tip's finder signed it,
/// whatever was declared for the tip, and whether or not a closing is scheduled.
pub proof fn law_retraction_refusal<H: Hashing>(state: State<H>, origin: RawOrigin, hash: H256)
    ensures
        ({
            let refusal = state.retraction_refusal(origin, hash);
            let by_finder = state.tips[hash].finder matches Some((finder, _)) && origin
                == RawOrigin::Signed(finder);
            &&& refusal is None <==> state.tips.contains_key(hash) && by_finder
            &&& refusal == Some(DispatchError::BadOrigin) <==> !(origin is Signed)
            &&& refusal == Some(DispatchError::Module(Error::UnknownTip)) <==> origin is Signed
                && !state.tips.contains_key(hash)
            &&& refusal == Some(DispatchError::Module(Error::NotFinder)) <==> origin is Signed
                && state.tips.contains_key(hash) && !by_finder
        }),
{
}

/// Declarations for a tip make no difference to its retraction: it is refused or not, for the same
/// reason, and asks for the same, before any declarations and after them.
pub proof fn law_retraction_after_declarations<H: Hashing>(
    state: State<H>,
    origin: RawOrigin,
    hash: H256,
    ds: Seq<Declaration>,
)
    requires
        state.tips.contains_key(hash),
    ensures
        ({
            let after = state.with_tip_at(hash, state.tips[hash].after_all(ds));
            &&& after.retraction_refusal(origin, hash) == state.retraction_refusal(origin, hash)
            &&& after.retraction_effects(hash) == state.retraction_effects(hash)
            &&& after.without_tip(hash) == state.without_tip(hash)
        }),
    decreases ds.len(),
{
    let after = state.with_tip_at(hash, state.tips[hash].after_all(ds));
    if ds.len() > 0 {
        law_retraction_after_declarations(state, origin, hash, ds.drop_last());
        let before = state.with_tip_at(hash, state.tips[hash].after_all(ds.drop_last()));
        assert(after.tips[hash].finder == before.tips[hash].finder);
        assert(after.tips[hash].reason == before.tips[hash].reason);
        assert(after.without_tip(hash) =~= before.without_tip(hash));
    } else {
        assert(after =~= state);
    }
}

/// A new tip is not refused if and only if a member signed it and the reason's hash is not on
/// record.
pub proof fn law_new_tip_refusal<H: Hashing>(
    state: State<H>,
    members: Seq<AccountId>,
    origin: RawOrigin,
    reason: Seq<u8>,
)
    ensures
        ({
            let refusal = state.new_tip_refusal(members, origin, reason);
            let by_member = exists|i: int|
                0 <= i < members.len() && origin == RawOrigin::Signed(#[trigger] members[i]);
            let known = state.reasons.contains_key(H::digest(reason));
            &&& refusal is None <==> by_member && !known
            &&& refusal == Some(DispatchError::BadOrigin) <==> !by_member
            &&& refusal == Some(DispatchError::Module(Error::AlreadyKnown)) <==> by_member && known
        }),
{
    if let RawOrigin::Signed(who) = origin {
        if members.contains(who) {
            assert(origin == RawOrigin::Signed(members[members.index_of(who)]));
        }
    }
}

/// A declaration is not refused if and only if a member signed it and the tip is on record.
pub proof fn law_tip_refusal<H: Hashing>(
    state: State<H>,
    members: Seq<AccountId>,
    origin: RawOrigin,
    hash: H256,
)
    ensures
        ({
            let refusal = state.tip_refusal(members, origin, hash);
            let by_member = exists|i: int|
                0 <= i < members.len() && origin == RawOrigin::Signed(#[trigger] members[i]);
            let known = state.tips.contains_key(hash);
            &&& refusal is None <==> by_member && known
            &&& refusal == Some(DispatchError::BadOrigin) <==> !by_member
            &&& refusal == Some(DispatchError::Module(Error::UnknownTip)) <==> by_member && !known
        }),
{
    if let RawOrigin::Signed(who) = origin {
        if members.contains(who) {
            assert(origin == RawOrigin::Signed(members[members.index_of(who)]));
        }
    }
}

/// Closing a tip is not refused if and only if some account signed it, the tip is on record, and a
/// closing is scheduled for the current block or an earlier one.
pub proof fn law_close_refusal<H: Hashing>(
    state: State<H>,
    origin: RawOrigin,
    now: BlockNumber,
    hash: H256,
)
    ensures
        ({
            let refusal = state.close_refusal(origin, now, hash);
            let known = state.tips.contains_key(hash);
            let closes = state.tips[hash].closes;
            &&& refusal is None <==> origin is Signed && known && (closes matches Some(n) && n
                <= now)
            &&& refusal == Some(DispatchError::BadOrigin) <==> !(origin is Signed)
            &&& refusal == Some(DispatchError::Module(Error::UnknownTip)) <==> origin is Signed
                && !known
            &&& refusal == Some(DispatchError::Module(Error::StillOpen)) <==> origin is Signed
                && known && closes is None
            &&& refusal == Some(DispatchError::Module(Error::Premature)) <==> origin is Signed
                && known && (closes matches Some(n) && n > now)
        }),
{
}

} // verus!
