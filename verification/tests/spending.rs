use pallet_treasury::runtime::BlakeTwo256;
use pallet_treasury::types::{
    AccountId, Balance, Effect, Event, Funds, Parameters, ProposalIndex, RawOrigin,
};

type Module = pallet_treasury::Module<BlakeTwo256>;

fn account(n: u8) -> AccountId {
    let mut id = [0u8; 32];
    id[31] = n;
    id
}

fn parameters() -> Parameters {
    Parameters {
        proposal_bond: 50_000,
        proposal_bond_minimum: 1,
        spend_period: 2,
        burn: 500_000,
        tip_countdown: 1,
        tip_finders_fee: 20,
        tip_report_deposit_base: 1,
        tip_report_deposit_per_byte: 1,
    }
}

fn funds(free_balance: Balance) -> Funds {
    Funds { free_balance, minimum_balance: 1 }
}

/// A treasury with proposals of these values, made by the first account, all approved.
fn approved(values: &[Balance]) -> Module {
    let (mut module, _) = Module::build(1);
    for (i, value) in values.iter().enumerate() {
        module
            .propose_spend(
                &parameters(),
                RawOrigin::Signed(account(0)),
                *value,
                Some(account(3)),
                |_: AccountId, _: Balance| -> Result<(), ()> { Ok(()) },
            )
            .unwrap();
        module.approve_proposal(RawOrigin::Root, false, i as ProposalIndex).unwrap();
    }
    module
}

fn award(index: ProposalIndex, value: Balance, bond: Balance) -> Vec<Effect> {
    vec![
        Effect::Unreserve { who: account(0), amount: bond },
        Effect::DepositCreating { who: account(3), amount: value },
        Effect::Emit(Event::Awarded(index, value, account(3))),
    ]
}

fn settle(rest: Balance) -> Vec<Effect> {
    vec![
        Effect::Settle { who: Module::account_id() },
        Effect::Emit(Event::Rollover(rest)),
    ]
}

#[test]
fn minting_works() {
    assert_eq!(Module::pot(&funds(101)), 100);
}

#[test]
fn pot_is_never_below_nothing() {
    assert_eq!(Module::pot(&Funds { free_balance: 1, minimum_balance: 2 }), 0);
    assert_eq!(Module::pot(&Funds { free_balance: 0, minimum_balance: 0 }), 0);
}

#[test]
fn accepted_spend_proposal_enacted_on_spend_period() {
    let mut module = approved(&[100]);
    let effects = module.on_initialize(&parameters(), &funds(101), 2);
    let mut expected = vec![Effect::Emit(Event::Spending(100))];
    expected.extend(award(0, 100, 5));
    expected.extend(vec![Effect::Burn { amount: 0 }, Effect::Emit(Event::Burnt(0))]);
    expected.extend(settle(0));
    assert_eq!(effects, expected);
    assert_eq!(module.proposals(0), None);
    assert!(module.approvals().is_empty());
}

#[test]
fn accepted_spend_proposal_ignored_outside_spend_period() {
    let mut module = approved(&[100]);
    assert_eq!(module.on_initialize(&parameters(), &funds(101), 1), vec![]);
    assert!(module.proposals(0).is_some());
    assert_eq!(module.approvals(), &vec![0]);
}

#[test]
fn unused_pot_should_diminish() {
    let (mut module, _) = Module::build(1);
    let effects = module.on_initialize(&parameters(), &funds(101), 2);
    let mut expected = vec![
        Effect::Emit(Event::Spending(100)),
        Effect::Burn { amount: 50 },
        Effect::Emit(Event::Burnt(50)),
    ];
    expected.extend(settle(50));
    assert_eq!(effects, expected);
}

#[test]
fn pot_underflow_should_not_diminish() {
    let mut module = approved(&[150]);
    let effects = module.on_initialize(&parameters(), &funds(101), 2);
    let mut expected = vec![Effect::Emit(Event::Spending(100))];
    expected.extend(settle(100));
    assert_eq!(effects, expected);
    assert_eq!(module.approvals(), &vec![0]);

    let effects = module.on_initialize(&parameters(), &funds(201), 4);
    let mut expected = vec![Effect::Emit(Event::Spending(200))];
    expected.extend(award(0, 150, 7));
    expected.extend(vec![Effect::Burn { amount: 25 }, Effect::Emit(Event::Burnt(25))]);
    expected.extend(settle(25));
    assert_eq!(effects, expected);
    assert!(module.approvals().is_empty());
}

#[test]
fn smaller_proposal_is_paid_past_a_larger_one_that_waits() {
    let mut module = approved(&[60, 50, 30]);
    let effects = module.spend_funds(&parameters(), &funds(101));
    let mut expected = vec![Effect::Emit(Event::Spending(100))];
    expected.extend(award(0, 60, 3));
    expected.extend(award(2, 30, 1));
    expected.extend(settle(10));
    assert_eq!(effects, expected);
    assert_eq!(module.approvals(), &vec![1]);
    assert!(module.proposals(1).is_some());
    assert_eq!(module.proposals(0), None);
    assert_eq!(module.proposals(2), None);
}

#[test]
fn proposal_approved_twice_is_paid_once() {
    let mut module = approved(&[40]);
    module.approve_proposal(RawOrigin::Root, false, 0).unwrap();
    let effects = module.spend_funds(&parameters(), &funds(101));
    let mut expected = vec![Effect::Emit(Event::Spending(100))];
    expected.extend(award(0, 40, 2));
    expected.extend(vec![Effect::Burn { amount: 30 }, Effect::Emit(Event::Burnt(30))]);
    expected.extend(settle(30));
    assert_eq!(effects, expected);
    assert!(module.approvals().is_empty());
}

#[test]
fn approval_of_a_rejected_proposal_is_dropped() {
    let mut module = approved(&[40]);
    module.reject_proposal(RawOrigin::Root, false, 0).unwrap();
    assert_eq!(module.approvals(), &vec![0]);
    let effects = module.spend_funds(&parameters(), &funds(101));
    assert!(!effects.contains(&Effect::DepositCreating { who: account(3), amount: 40 }));
    assert!(module.approvals().is_empty());
}

#[test]
fn what_is_paid_burnt_and_left_makes_up_the_pot() {
    let mut module = approved(&[60, 50, 30, 7]);
    let effects = module.spend_funds(&parameters(), &funds(1001));
    let mut out: Balance = 0;
    let mut rest: Balance = 0;
    for effect in effects {
        match effect {
            Effect::DepositCreating { amount, .. } | Effect::Burn { amount } => out += amount,
            Effect::Emit(Event::Rollover(amount)) => rest = amount,
            _ => {}
        }
    }
    assert_eq!(out, 147 + 426);
    assert_eq!(out + rest, 1000);
}
