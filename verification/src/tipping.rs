//! Tipping: reporting what deserves a tip, declaring amounts for it, and paying it out.

use crate::bytes::same;
use crate::module::{Module, State, pot_of, reason_hash, tip_hash, treasury_account};
use crate::origin::ensure_signed;
use crate::runtime::{Hashing, capped, lemma_portion_within, percent_of, portion};
use crate::tips::{declare, declared, median, median_of, ordered, retained};
use crate::types::{
    AccountId, Balance, BlockNumber, DispatchError, Effect, Error, Event, Funds, H256, OpenTip,
    Parameters, RawOrigin, ReportError, TipView, TreasuryTip,
};
use vstd::prelude::*;

verus! {

/// The length of the longest reason that can be reported.
pub const MAX_SENSIBLE_REASON_LENGTH: usize = 16384;

/// The deposit that a report takes.
pub open spec fn report_deposit(parameters: Parameters, reason: Seq<u8>) -> int {
    parameters.tip_report_deposit_base + parameters.tip_report_deposit_per_byte * reason.len()
}

/// The tip that a report opens: its finder is who reported it, with the deposit that it takes.
pub open spec fn reported_tip<H: Hashing>(
    parameters: Parameters,
    finder: AccountId,
    reason: Seq<u8>,
    who: AccountId,
) -> TipView {
    TipView {
        reason: reason_hash::<H>(reason),
        who,
        finder: Some((finder, report_deposit(parameters, reason) as Balance)),
        closes: None,
        tips: Seq::empty(),
    }
}

/// The tip that a member opens: it has no finder, and one declaration.
pub open spec fn opened_tip<H: Hashing>(
    tipper: AccountId,
    reason: Seq<u8>,
    who: AccountId,
    value: Balance,
) -> TipView {
    TipView {
        reason: reason_hash::<H>(reason),
        who,
        finder: None,
        closes: None,
        tips: seq![(tipper, value)],
    }
}

/// What opening the tip under `hash` asks for: that it is recorded.
pub open spec fn opening_effects(hash: H256) -> Seq<Effect> {
    seq![Effect::Emit(Event::NewTip(hash))]
}

/// One of `members` signed the call.
pub open spec fn signed_by_member(origin: RawOrigin, members: Seq<AccountId>) -> bool {
    origin matches RawOrigin::Signed(who) && members.contains(who)
}

/// How many tippers there have to be before a tip closes: half of all.
pub open spec fn threshold(members: Seq<AccountId>) -> nat {
    (members.len() + 1) / 2
}

/// What a declaration for the tip under `hash` asks for: where the tip begins to close, that this
/// is recorded.
pub open spec fn closing_effects(begins: bool, hash: H256) -> Seq<Effect> {
    if begins {
        seq![Effect::Emit(Event::TipClosing(hash))]
    } else {
        Seq::empty()
    }
}

impl TipView {
    /// The tip once `tipper` has declared `value`, and only the tips of `members` are left.
    pub open spec fn with_tip(
        self,
        members: Seq<AccountId>,
        tipper: AccountId,
        value: Balance,
    ) -> TipView {
        TipView { tips: retained(declared(self.tips, tipper, value), members), ..self }
    }

    /// The tip has enough tippers, and no closing is scheduled yet.
    pub open spec fn begins_closing(self, members: Seq<AccountId>) -> bool {
        self.tips.len() >= threshold(members) && self.closes is None
    }

    /// The tip with its closing scheduled, where it is due.
    pub open spec fn with_closing(
        self,
        members: Seq<AccountId>,
        now: BlockNumber,
        countdown: BlockNumber,
    ) -> TipView {
        if self.begins_closing(members) {
            TipView { closes: Some((now + countdown) as BlockNumber), ..self }
        } else {
            self
        }
    }

    /// What is paid for the tip in all: the median of what members declared, as far as the pot
    /// allows.
    pub open spec fn payment(self, members: Seq<AccountId>, funds: Funds) -> Balance {
        let middle = median(retained(self.tips, members));
        if middle < pot_of(funds) {
            middle
        } else {
            pot_of(funds)
        }
    }

    /// The finder's part of the payment.
    pub open spec fn finders_fee(
        self,
        parameters: Parameters,
        members: Seq<AccountId>,
        funds: Funds,
    ) -> Balance {
        if self.finder matches Some((finder, _)) && finder != self.who {
            portion(
                capped(parameters.tip_finders_fee as int, 100),
                100,
                self.payment(members, funds) as int,
            ) as Balance
        } else {
            0
        }
    }

    /// What paying out the tip asks for: the finder's deposit is returned, the finder, where it
    /// is another than the account to be tipped, has its fee, and that account has the rest.
    pub open spec fn payout_effects(
        self,
        parameters: Parameters,
        members: Seq<AccountId>,
        funds: Funds,
    ) -> Seq<Effect> {
        let payment = self.payment(members, funds);
        let fee = self.finders_fee(parameters, members, funds);
        (match self.finder {
            Some((finder, deposit)) => if finder != self.who {
                seq![
                    Effect::Unreserve { who: finder, amount: deposit },
                    Effect::Transfer { from: treasury_account(), to: finder, amount: fee },
                ]
            } else {
                seq![Effect::Unreserve { who: finder, amount: deposit }]
            },
            None => Seq::empty(),
        }) + seq![
            Effect::Transfer {
                from: treasury_account(),
                to: self.who,
                amount: (payment - fee) as Balance,
            },
        ]
    }
}

impl<H: Hashing> State<H> {
    /// Why a report of `reason` for `who` would be refused, before the deposit is looked at.
    pub open spec fn report_refusal(
        self,
        origin: RawOrigin,
        reason: Seq<u8>,
        who: AccountId,
    ) -> Option<DispatchError> {
        if !(origin is Signed) {
            Some(DispatchError::BadOrigin)
        } else if reason.len() > MAX_SENSIBLE_REASON_LENGTH {
            Some(DispatchError::Module(Error::ReasonTooBig))
        } else if self.reasons.contains_key(reason_hash::<H>(reason)) || self.tips.contains_key(
            tip_hash::<H>(reason_hash::<H>(reason), who),
        ) {
            Some(DispatchError::Module(Error::AlreadyKnown))
        } else {
            None
        }
    }

    /// Why a retraction of the tip under `hash` would be refused.
    pub open spec fn retraction_refusal(self, origin: RawOrigin, hash: H256) -> Option<
        DispatchError,
    > {
        if let RawOrigin::Signed(who) = origin {
            if !self.tips.contains_key(hash) {
                Some(DispatchError::Module(Error::UnknownTip))
            } else if self.tips[hash].finder matches Some((finder, _)) && finder == who {
                None
            } else {
                Some(DispatchError::Module(Error::NotFinder))
            }
        } else {
            Some(DispatchError::BadOrigin)
        }
    }

    /// Why a new tip for `reason` would be refused.
    pub open spec fn new_tip_refusal(
        self,
        members: Seq<AccountId>,
        origin: RawOrigin,
        reason: Seq<u8>,
    ) -> Option<DispatchError> {
        if !signed_by_member(origin, members) {
            Some(DispatchError::BadOrigin)
        } else if self.reasons.contains_key(reason_hash::<H>(reason)) {
            Some(DispatchError::Module(Error::AlreadyKnown))
        } else {
            None
        }
    }

    /// Why a declaration for the tip under `hash` would be refused.
    pub open spec fn tip_refusal(
        self,
        members: Seq<AccountId>,
        origin: RawOrigin,
        hash: H256,
    ) -> Option<DispatchError> {
        if !signed_by_member(origin, members) {
            Some(DispatchError::BadOrigin)
        } else if !self.tips.contains_key(hash) {
            Some(DispatchError::Module(Error::UnknownTip))
        } else {
            None
        }
    }

    /// Why the tip under `hash` would not be closed.
    pub open spec fn close_refusal(
        self,
        origin: RawOrigin,
        now: BlockNumber,
        hash: H256,
    ) -> Option<DispatchError> {
        if !(origin is Signed) {
            Some(DispatchError::BadOrigin)
        } else if !self.tips.contains_key(hash) {
            Some(DispatchError::Module(Error::UnknownTip))
        } else if self.tips[hash].closes is None {
            Some(DispatchError::Module(Error::StillOpen))
        } else if now < self.tips[hash].closes->0 {
            Some(DispatchError::Module(Error::Premature))
        } else {
            None
        }
    }

    /// What retracting the tip under `hash` asks for: the finder's deposit is returned, and this is
    /// recorded.
    pub open spec fn retraction_effects(self, hash: H256) -> Seq<Effect> {
        let (finder, deposit) = self.tips[hash].finder->0;
        seq![
            Effect::Unreserve { who: finder, amount: deposit },
            Effect::Emit(Event::TipRetracted(hash)),
        ]
    }

    /// The records with a new tip, under its hash, and its reason.
    pub open spec fn with_new_tip(self, reason: Seq<u8>, tip: TipView) -> State<H> {
        State {
            tips: self.tips.insert(tip_hash::<H>(tip.reason, tip.who), tip),
            reasons: self.reasons.insert(tip.reason, reason),
            ..self
        }
    }

    /// The records without the tip under a hash, nor its reason.
    pub open spec fn without_tip(self, hash: H256) -> State<H> {
        State {
            tips: self.tips.remove(hash),
            reasons: self.reasons.remove(self.tips[hash].reason),
            ..self
        }
    }

    /// The records with the tip under a hash in a new state.
    pub open spec fn with_tip_at(self, hash: H256, tip: TipView) -> State<H> {
        State { tips: self.tips.insert(hash, tip), ..self }
    }
}

/// Whether an account is among `members`.
fn is_member(members: &Vec<AccountId>, who: &AccountId) -> (r: bool)
    ensures
        r == members@.contains(*who),
{
    let mut i: usize = 0;
    while i < members.len()
        invariant
            i <= members@.len(),
            forall|j: int| 0 <= j < i ==> members@[j] != *who,
        decreases members@.len() - i,
    {
        if same(&members[i], who) {
            return true;
        }
        i = i + 1;
    }
    false
}

impl<H: Hashing> Module<H> {
    /// The hash under which a reason is on record.
    pub fn hash_of_reason(reason: &Vec<u8>) -> (r: H256)
        ensures
            r == reason_hash::<H>(reason@),
    {
        H::hash(reason)
    }

    /// The identity of a tip: the hash of the tuple of the hash of its reason and the
    /// beneficiary account ID.
    pub fn hash_of_tip(reason: &H256, who: &AccountId) -> (r: H256)
        ensures
            r == tip_hash::<H>(*reason, *who),
    {
        H::hash_of(reason, who)
    }

    /// Given a mutable reference to an `OpenTip`, insert the tip into it and check whether it
    /// closes, if so, then deposit the relevant event and set closing accordingly.
    ///
    /// `hash` is the identity of the open tip, and the event is added to `effects`.
    ///
    /// `O(T)`.
    pub fn insert_tip_and_check_closing(
        parameters: &Parameters,
        tippers: &Vec<AccountId>,
        now: BlockNumber,
        hash: H256,
        tip: &mut TreasuryTip,
        tipper: AccountId,
        tip_value: Balance,
        effects: &mut Vec<Effect>,
    ) -> (r: bool)
        requires
            ordered(old(tip)@.tips),
            old(tip)@.with_tip(tippers@, tipper, tip_value).begins_closing(tippers@) ==> now
                + parameters.tip_countdown <= BlockNumber::MAX,
        ensures
            final(tip)@ == old(tip)@.with_tip(tippers@, tipper, tip_value).with_closing(
                tippers@,
                now,
                parameters.tip_countdown,
            ),
            ordered(final(tip)@.tips),
            r == old(tip)@.with_tip(tippers@, tipper, tip_value).begins_closing(tippers@),
            final(effects)@ == old(effects)@ + closing_effects(r, hash),
    {
        declare(&mut tip.tips, tipper, tip_value);
        Self::retain_active_tips(&mut tip.tips, tippers);
        // Half of the tippers, rounded up.
        let threshold: usize = tippers.len() / 2 + tippers.len() % 2;
        if tip.tips.len() >= threshold && tip.closes.is_none() {
            effects.push(Effect::Emit(Event::TipClosing(hash)));
            tip.closes = Some(now + parameters.tip_countdown);
            true
        } else {
            assert(effects@ =~= old(effects)@ + closing_effects(false, hash));
            false
        }
    }

    /// Execute the payout of a tip.
    ///
    /// `O(T^2)` at worst (`T` is Tippers length): the declared amounts are sorted by insertion.
    pub fn payout_tip(
        parameters: &Parameters,
        tippers: &Vec<AccountId>,
        funds: &Funds,
        tip: TreasuryTip,
    ) -> (r: Vec<Effect>)
        requires
            retained(tip@.tips, tippers@).len() > 0,
        ensures
            r@ == tip@.payout_effects(*parameters, tippers@, *funds),
    {
        let ghost view = tip@;
        let mut tips: Vec<(AccountId, Balance)> = tip.tips;
        Self::retain_active_tips(&mut tips, tippers);
        let treasury: AccountId = Self::account_id();
        let max_payout: Balance = Self::pot(funds);
        let middle: Balance = median_of(&tips);
        let mut payout: Balance = if middle < max_payout {
            middle
        } else {
            max_payout
        };
        let mut effects: Vec<Effect> = Vec::new();
        if let Some((finder, deposit)) = tip.finder {
            effects.push(Effect::Unreserve { who: finder, amount: deposit });
            if !same(&finder, &tip.who) {
                // pay out the finder's fee.
                let finders_fee: Balance = percent_of(parameters.tip_finders_fee, payout);
                proof {
                    lemma_portion_within(
                        capped(parameters.tip_finders_fee as int, 100),
                        100,
                        payout as int,
                    );
                }
                payout = payout - finders_fee;
                // this should go through given we checked it's at most the free balance, but
                // still we only make a best-effort.
                effects.push(Effect::Transfer { from: treasury, to: finder, amount: finders_fee });
            }
        }
        // same as above: best-effort only.
        effects.push(Effect::Transfer { from: treasury, to: tip.who, amount: payout });
        assert(effects@ =~= view.payout_effects(*parameters, tippers@, *funds));
        effects
    }

    /// Report something `reason` that deserves a tip and claim any eventual the finder's fee.
    ///
    /// The dispatch origin for this call must be _Signed_.
    ///
    /// Payment: `TipReportDepositBase` will be reserved from the origin account, as well as
    /// `TipReportDepositPerByte` for each byte in `reason`.
    ///
    /// - `reason`: The reason for, or the thing that deserves, the tip; generally this will be
    ///   a UTF-8-encoded URL.
    /// - `who`: The account which should be credited for the tip.
    /// - `reserve`: has the currency reserve an amount in an account.
    ///
    /// Emits `NewTip` if successful.
    pub fn report_awesome<E, F: FnOnce(AccountId, Balance) -> Result<(), E>>(
        &mut self,
        parameters: &Parameters,
        origin: RawOrigin,
        reason: Vec<u8>,
        who: AccountId,
        reserve: F,
    ) -> (r: Result<Vec<Effect>, ReportError<E>>)
        requires
            old(self)@.report_refusal(origin, reason@, who) is None ==> {
                &&& report_deposit(*parameters, reason@) <= Balance::MAX
                &&& reserve.requires(
                    (origin->Signed_0, report_deposit(*parameters, reason@) as Balance),
                )
            },
        ensures
            old(self)@.wf() ==> final(self)@.wf(),
            match old(self)@.report_refusal(origin, reason@, who) {
                Some(refusal) => {
                    &&& r == Err::<Vec<Effect>, ReportError<E>>(ReportError::Refused(refusal))
                    &&& final(self)@ == old(self)@
                },
                None => {
                    let tip = reported_tip::<H>(*parameters, origin->Signed_0, reason@, who);
                    let (finder, deposit) = tip.finder->0;
                    exists|reserved: Result<(), E>| #[trigger]
                        reserve.ensures((finder, deposit), reserved) && match reserved {
                            Ok(_) => {
                                &&& r matches Ok(effects) && effects@ == opening_effects(
                                    tip_hash::<H>(tip.reason, tip.who),
                                )
                                &&& final(self)@ == old(self)@.with_new_tip(reason@, tip)
                            },
                            Err(e) => {
                                &&& r == Err::<Vec<Effect>, ReportError<E>>(
                                    ReportError::NotReserved(e),
                                )
                                &&& final(self)@ == old(self)@
                            },
                        }
                },
            },
    {
        let finder: AccountId = match ensure_signed(origin) {
            Ok(who) => who,
            Err(e) => return Err(ReportError::Refused(e)),
        };

        if reason.len() > MAX_SENSIBLE_REASON_LENGTH {
            return Err(ReportError::Refused(DispatchError::Module(Error::ReasonTooBig)));
        }
        let reason_id: H256 = Self::hash_of_reason(&reason);
        if self.reasons.contains_key(&reason_id) {
            return Err(ReportError::Refused(DispatchError::Module(Error::AlreadyKnown)));
        }
        let id: H256 = Self::hash_of_tip(&reason_id, &who);
        if self.tips.contains_key(&id) {
            return Err(ReportError::Refused(DispatchError::Module(Error::AlreadyKnown)));
        }
        let deposit: Balance = parameters.tip_report_deposit_base
            + parameters.tip_report_deposit_per_byte * (reason.len() as Balance);
        let reserved: Result<(), E> = reserve(finder, deposit);
        let ghost report = reported_tip::<H>(*parameters, finder, reason@, who);
        proof {
            let (bonded, amount) = report.finder->0;
            assert(reserve.ensures((bonded, amount), reserved));
        }
        match reserved {
            Ok(_) => {},
            Err(e) => return Err(ReportError::NotReserved(e)),
        }

        let tip: TreasuryTip = OpenTip {
            reason: reason_id,
            who,
            finder: Some((finder, deposit)),
            closes: None,
            tips: Vec::new(),
        };
        let ghost view = tip@;
        self.reasons.insert(reason_id, reason);
        self.tips.insert(id, tip);
        let mut effects: Vec<Effect> = Vec::new();
        effects.push(Effect::Emit(Event::NewTip(id)));
        assert(self@ =~= old(self)@.with_new_tip(reason@, view));
        Ok(effects)
    }

    /// Retract a prior tip-report from `report_awesome`, and cancel the process of tipping.
    ///
    /// If successful, the original deposit will be unreserved.
    ///
    /// The dispatch origin for this call must be _Signed_ and the tip identified by `hash`
    /// must have been reported by the signing account through `report_awesome` (and not
    /// through `tip_new`).
    ///
    /// - `hash`: The identity of the open tip for which a tip value is declared. This is formed
    ///   as the hash of the tuple of the hash of the original tip `reason` and the beneficiary
    ///   account ID.
    ///
    /// Emits `TipRetracted` if successful.
    pub fn retract_tip(&mut self, origin: RawOrigin, hash: H256) -> (r: Result<
        Vec<Effect>,
        DispatchError,
    >)
        ensures
            old(self)@.wf() ==> final(self)@.wf(),
            match old(self)@.retraction_refusal(origin, hash) {
                Some(refusal) => {
                    &&& r == Err::<Vec<Effect>, DispatchError>(refusal)
                    &&& final(self)@ == old(self)@
                },
                None => {
                    &&& r matches Ok(effects) && effects@ == old(self)@.retraction_effects(hash)
                    &&& final(self)@ == old(self)@.without_tip(hash)
                },
            },
    {
        let who: AccountId = match ensure_signed(origin) {
            Ok(who) => who,
            Err(e) => return Err(e),
        };
        let (reason, finder) = match self.tips.get(&hash) {
            Some(tip) => (tip.reason, tip.finder),
            None => return Err(DispatchError::Module(Error::UnknownTip)),
        };
        let (finder, deposit) = match finder {
            Some(pair) => pair,
            None => return Err(DispatchError::Module(Error::NotFinder)),
        };
        if !same(&finder, &who) {
            return Err(DispatchError::Module(Error::NotFinder));
        }

        let _ = self.reasons.take(&reason);
        let _ = self.tips.take(&hash);
        let mut effects: Vec<Effect> = Vec::new();
        effects.push(Effect::Unreserve { who, amount: deposit });
        effects.push(Effect::Emit(Event::TipRetracted(hash)));
        assert(self@ =~= old(self)@.without_tip(hash));
        Ok(effects)
    }

    /// Give a tip for something new; no finder's fee will be taken.
    ///
    /// The dispatch origin for this call must be _Signed_ and the signing account must be a
    /// member of the `tippers` set.
    ///
    /// - `reason`: The reason for, or the thing that deserves, the tip; generally this will be
    ///   a UTF-8-encoded URL.
    /// - `who`: The account which should be credited for the tip.
    /// - `tip_value`: The amount of tip that the sender would like to give. The median tip
    ///   value of active tippers will be given to the `who`.
    ///
    /// Emits `NewTip` if successful.
    pub fn tip_new(
        &mut self,
        tippers: &Vec<AccountId>,
        origin: RawOrigin,
        reason: Vec<u8>,
        who: AccountId,
        tip_value: Balance,
    ) -> (r: Result<Vec<Effect>, DispatchError>)
        ensures
            old(self)@.wf() ==> final(self)@.wf(),
            match old(self)@.new_tip_refusal(tippers@, origin, reason@) {
                Some(refusal) => {
                    &&& r == Err::<Vec<Effect>, DispatchError>(refusal)
                    &&& final(self)@ == old(self)@
                },
                None => {
                    let tip = opened_tip::<H>(origin->Signed_0, reason@, who, tip_value);
                    &&& r matches Ok(effects) && effects@ == opening_effects(
                        tip_hash::<H>(tip.reason, tip.who),
                    )
                    &&& final(self)@ == old(self)@.with_new_tip(reason@, tip)
                },
            },
    {
        let tipper: AccountId = match ensure_signed(origin) {
            Ok(who) => who,
            Err(e) => return Err(e),
        };
        if !is_member(tippers, &tipper) {
            return Err(DispatchError::BadOrigin);
        }
        let reason_id: H256 = Self::hash_of_reason(&reason);
        if self.reasons.contains_key(&reason_id) {
            return Err(DispatchError::Module(Error::AlreadyKnown));
        }
        let id: H256 = Self::hash_of_tip(&reason_id, &who);

        let mut tips: Vec<(AccountId, Balance)> = Vec::new();
        tips.push((tipper, tip_value));
        let tip: TreasuryTip = OpenTip { reason: reason_id, who, finder: None, closes: None, tips };
        let ghost view = tip@;
        assert(view.tips =~= seq![(tipper, tip_value)]);
        self.reasons.insert(reason_id, reason);
        let mut effects: Vec<Effect> = Vec::new();
        effects.push(Effect::Emit(Event::NewTip(id)));
        self.tips.insert(id, tip);
        assert(self@ =~= old(self)@.with_new_tip(reason@, view));
        Ok(effects)
    }

    /// Declare a tip value for an already-open tip.
    ///
    /// The dispatch origin for this call must be _Signed_ and the signing account must be a
    /// member of the `tippers` set.
    ///
    /// - `hash`: The identity of the open tip for which a tip value is declared. This is formed
    ///   as the hash of the tuple of the hash of the original tip `reason` and the beneficiary
    ///   account ID.
    /// - `tip_value`: The amount of tip that the sender would like to give. The median tip
    ///   value of active tippers will be given to the `who`.
    ///
    /// Emits `TipClosing` if the threshold of tippers has been reached and the countdown period
    /// has started.
    pub fn tip(
        &mut self,
        parameters: &Parameters,
        tippers: &Vec<AccountId>,
        now: BlockNumber,
        origin: RawOrigin,
        hash: H256,
        tip_value: Balance,
    ) -> (r: Result<Vec<Effect>, DispatchError>)
        requires
            old(self)@.tip_refusal(tippers@, origin, hash) is None ==> {
                let tip = old(self)@.tips[hash];
                &&& ordered(tip.tips)
                &&& tip.with_tip(tippers@, origin->Signed_0, tip_value).begins_closing(tippers@)
                    ==> now + parameters.tip_countdown <= BlockNumber::MAX
            },
        ensures
            old(self)@.wf() ==> final(self)@.wf(),
            match old(self)@.tip_refusal(tippers@, origin, hash) {
                Some(refusal) => {
                    &&& r == Err::<Vec<Effect>, DispatchError>(refusal)
                    &&& final(self)@ == old(self)@
                },
                None => {
                    let tip = old(self)@.tips[hash].with_tip(
                        tippers@,
                        origin->Signed_0,
                        tip_value,
                    );
                    &&& r matches Ok(effects) && effects@ == closing_effects(
                        tip.begins_closing(tippers@),
                        hash,
                    )
                    &&& final(self)@ == old(self)@.with_tip_at(
                        hash,
                        tip.with_closing(tippers@, now, parameters.tip_countdown),
                    )
                },
            },
    {
        let tipper: AccountId = match ensure_signed(origin) {
            Ok(who) => who,
            Err(e) => return Err(e),
        };
        if !is_member(tippers, &tipper) {
            return Err(DispatchError::BadOrigin);
        }

        let mut tip: TreasuryTip = match self.tips.take(&hash) {
            Some(tip) => tip,
            None => {
                assert(self@ =~= old(self)@);
                return Err(DispatchError::Module(Error::UnknownTip));
            },
        };
        let mut effects: Vec<Effect> = Vec::new();
        let _ = Self::insert_tip_and_check_closing(
            parameters,
            tippers,
            now,
            hash,
            &mut tip,
            tipper,
            tip_value,
            &mut effects,
        );
        let ghost view = tip@;
        self.tips.insert(hash, tip);
        assert(self@ =~= old(self)@.with_tip_at(hash, view));
        Ok(effects)
    }

    /// Close and payout a tip.
    ///
    /// The dispatch origin for this call must be _Signed_.
    ///
    /// The tip identified by `hash` must have finished its countdown period.
    ///
    /// - `hash`: The identity of the open tip for which a tip value is declared. This is formed
    ///   as the hash of the tuple of the hash of the original tip `reason` and the beneficiary
    ///   account ID.
    pub fn close_tip(
        &mut self,
        parameters: &Parameters,
        tippers: &Vec<AccountId>,
        funds: &Funds,
        now: BlockNumber,
        origin: RawOrigin,
        hash: H256,
    ) -> (r: Result<Vec<Effect>, DispatchError>)
        requires
            old(self)@.close_refusal(origin, now, hash) is None ==> retained(
                old(self)@.tips[hash].tips,
                tippers@,
            ).len() > 0,
        ensures
            old(self)@.wf() ==> final(self)@.wf(),
            match old(self)@.close_refusal(origin, now, hash) {
                Some(refusal) => {
                    &&& r == Err::<Vec<Effect>, DispatchError>(refusal)
                    &&& final(self)@ == old(self)@
                },
                None => {
                    &&& r matches Ok(effects) && effects@ == old(self)@.tips[hash].payout_effects(
                        *parameters,
                        tippers@,
                        *funds,
                    )
                    &&& final(self)@ == old(self)@.without_tip(hash)
                },
            },
    {
        match ensure_signed(origin) {
            Ok(_) => {},
            Err(e) => return Err(e),
        }

        let closes: Option<BlockNumber> = match self.tips.get(&hash) {
            Some(tip) => tip.closes,
            None => return Err(DispatchError::Module(Error::UnknownTip)),
        };
        let n: BlockNumber = match closes {
            Some(n) => n,
            None => return Err(DispatchError::Module(Error::StillOpen)),
        };
        if now < n {
            return Err(DispatchError::Module(Error::Premature));
        }
        // closed.
        match self.tips.take(&hash) {
            Some(tip) => {
                let _ = self.reasons.take(&tip.reason);
                assert(self@ =~= old(self)@.without_tip(hash));
                Ok(Self::payout_tip(parameters, tippers, funds, tip))
            },
            None => Err(DispatchError::Module(Error::UnknownTip)),
        }
    }
}

} // verus!
