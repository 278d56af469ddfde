//! The values that the treasury works on, and what it asks of its surroundings.

use vstd::prelude::*;

verus! {

/// The identifier of an account.
pub type AccountId = [u8; 32];

/// A hash: of a reason for a tip, or of a reason and the account to be tipped.
pub type H256 = [u8; 32];

/// An amount of the currency.
pub type Balance = u128;

/// The number of a block.
pub type BlockNumber = u64;

/// An index of a proposal. Just a `u32`.
pub type ProposalIndex = u32;

/// A spending proposal.
#[derive(Clone, Copy, Debug, PartialEq, Eq)]
pub struct Proposal<AccountId, Balance> {
    /// The account proposing it.
    pub proposer: AccountId,
    /// The (total) amount that should be paid if the proposal is accepted.
    pub value: Balance,
    /// The account to whom the payment should be made if the proposal is accepted.
    pub beneficiary: AccountId,
    /// The amount held on deposit (reserved) for making this proposal.
    pub bond: Balance,
}

/// An open tipping "motion". Retains all details of a tip including information on the finder
/// and the members who have voted.
#[derive(Clone, Debug, PartialEq, Eq)]
pub struct OpenTip<AccountId, Balance, BlockNumber, H256> {
    /// The hash of the reason for the tip. The reason should be a human-readable UTF-8 encoded
    /// string. A URL would be sensible.
    pub reason: H256,
    /// The account to be tipped.
    pub who: AccountId,
    /// The account who began this tip and the amount held on deposit.
    pub finder: Option<(AccountId, Balance)>,
    /// The block number at which this tip will close if `Some`. If `None`, then no closing is
    /// scheduled.
    pub closes: Option<BlockNumber>,
    /// The members who have voted for this tip. Sorted by account.
    pub tips: Vec<(AccountId, Balance)>,
}

/// A proposal of this treasury.
pub type TreasuryProposal = Proposal<AccountId, Balance>;

/// An open tip of this treasury.
pub type TreasuryTip = OpenTip<AccountId, Balance, BlockNumber, H256>;

/// What an open tip says.
#[verifier::ext_equal]
pub struct TipView {
    pub reason: H256,
    pub who: AccountId,
    pub finder: Option<(AccountId, Balance)>,
    pub closes: Option<BlockNumber>,
    pub tips: Seq<(AccountId, Balance)>,
}

impl View for OpenTip<AccountId, Balance, BlockNumber, H256> {
    type V = TipView;

    open spec fn view(&self) -> TipView {
        TipView {
            reason: self.reason,
            who: self.who,
            finder: self.finder,
            closes: self.closes,
            tips: self.tips@,
        }
    }
}

/// What the chain's configuration fixes for the treasury.
#[derive(Clone, Copy, Debug, PartialEq, Eq)]
pub struct Parameters {
    /// Fraction of a proposal's value that should be bonded in order to place the proposal, in
    /// millionths. An accepted proposal gets these back. A rejected proposal does not.
    pub proposal_bond: u32,
    /// Minimum amount of funds that should be placed in a deposit for making a proposal.
    pub proposal_bond_minimum: Balance,
    /// Period between successive spends.
    pub spend_period: BlockNumber,
    /// Fraction of spare funds (if any) that are burnt per spend period, in millionths.
    pub burn: u32,
    /// The period for which a tip remains open after it has achieved threshold tippers.
    pub tip_countdown: BlockNumber,
    /// The percent of the final tip which goes to the original reporter of the tip.
    pub tip_finders_fee: u8,
    /// The amount held on deposit for placing a tip report.
    pub tip_report_deposit_base: Balance,
    /// The amount held on deposit per byte within the tip report reason.
    pub tip_report_deposit_per_byte: Balance,
}

/// What the currency says of the treasury's account.
#[derive(Clone, Copy, Debug, PartialEq, Eq)]
pub struct Funds {
    /// The free balance of the treasury's account.
    pub free_balance: Balance,
    /// The least balance that keeps an account alive.
    pub minimum_balance: Balance,
}

/// Who makes a call.
#[derive(Clone, Copy, Debug, PartialEq, Eq)]
pub enum RawOrigin {
    /// The system itself.
    Root,
    /// It is signed by some account.
    Signed(AccountId),
    /// It is signed by nobody.
    Unsigned,
    /// It comes from another module of the chain.
    Other,
}

/// What happened, for the chain's record.
#[derive(Clone, Copy, Debug, PartialEq, Eq)]
pub enum Event {
    /// New proposal.
    Proposed(ProposalIndex),
    /// We have ended a spend period and will now allocate funds.
    Spending(Balance),
    /// Some funds have been allocated.
    Awarded(ProposalIndex, Balance, AccountId),
    /// A proposal was rejected; funds were slashed.
    Rejected(ProposalIndex, Balance),
    /// Some of our funds have been burnt.
    Burnt(Balance),
    /// Spending has finished; this is the amount that rolls over until next spend.
    Rollover(Balance),
    /// Some funds have been deposited.
    Deposit(Balance),
    /// A new tip suggestion has been opened.
    NewTip(H256),
    /// A tip suggestion has reached threshold and is closing.
    TipClosing(H256),
    /// A tip suggestion has been closed.
    TipClosed(H256, AccountId, Balance),
    /// A tip suggestion has been retracted.
    TipRetracted(H256),
}

/// Error for the treasury module.
#[derive(Clone, Copy, Debug, PartialEq, Eq)]
pub enum Error {
    /// Proposer's balance is too low.
    InsufficientProposersBalance,
    /// No proposal at that index.
    InvalidProposalIndex,
    /// The reason given is just too big.
    ReasonTooBig,
    /// The tip was already found/started.
    AlreadyKnown,
    /// The tip hash is unknown.
    UnknownTip,
    /// The account attempting to retract the tip is not the finder of the tip.
    NotFinder,
    /// The tip cannot be claimed/closed because there are not enough tippers yet.
    StillOpen,
    /// The tip cannot be claimed/closed because it's still in the countdown period.
    Premature,
}

/// Why a call was refused.
#[derive(Clone, Copy, Debug, PartialEq, Eq)]
pub enum DispatchError {
    /// The origin may not make this call.
    BadOrigin,
    /// An address does not lead to an account.
    CannotLookup,
    /// The treasury refuses.
    Module(Error),
}

/// Why a report was refused.
#[derive(Clone, Copy, Debug, PartialEq, Eq)]
pub enum ReportError<E> {
    /// The report itself was refused.
    Refused(DispatchError),
    /// The currency would not reserve the deposit, for the reason that it gave.
    NotReserved(E),
}

/// What a call has the chain do, beyond the treasury's own records. A call yields its effects
/// in the order in which they are to be carried out.
#[derive(Clone, Copy, Debug, PartialEq, Eq)]
pub enum Effect {
    /// Record an event.
    Emit(Event),
    /// Set the free balance of an account.
    MakeFreeBalanceBe { who: AccountId, amount: Balance },
    /// Release an amount that is reserved in an account, as far as it is there.
    Unreserve { who: AccountId, amount: Balance },
    /// Slash an amount that is reserved in an account, and hand what was slashed to the
    /// handler of rejected proposals.
    SlashReserved { who: AccountId, amount: Balance },
    /// Pay from one account to another, as long as that keeps the payer's account alive.
    Transfer { from: AccountId, to: AccountId, amount: Balance },
    /// Credit an account, creating it if need be. What is credited counts towards the next
    /// [`Effect::Settle`].
    DepositCreating { who: AccountId, amount: Balance },
    /// Reduce the total issuance by an amount, which counts towards the next
    /// [`Effect::Settle`].
    Burn { amount: Balance },
    /// Debit an account with all that counts towards this settlement, as long as that keeps
    /// the account alive.
    Settle { who: AccountId },
    /// Credit an account, creating it if need be, with an amount that was taken elsewhere.
    ResolveCreating { who: AccountId, amount: Balance },
}

} // verus!
