use pallet_treasury::runtime::BlakeTwo256;
use pallet_treasury::types::{
    AccountId, Balance, DispatchError, Effect, Error, Event, Parameters, Proposal,
    ProposalIndex, RawOrigin,
};

type Module = pallet_treasury::Module<BlakeTwo256>;

fn account(n: u8) -> AccountId {
    let mut id = [0u8; 32];
    id[31] = n;
    id
}

fn parameters() -> Parameters {
    Parameters {
        proposal_bond: 50_000,
        proposal_bond_minimum: 1,
        spend_period: 2,
        burn: 500_000,
        tip_countdown: 1,
        tip_finders_fee: 20,
        tip_report_deposit_base: 1,
        tip_report_deposit_per_byte: 1,
    }
}

fn propose(module: &mut Module, proposer: u8, value: Balance, beneficiary: u8) {
    let effects = module
        .propose_spend(
            &parameters(),
            RawOrigin::Signed(account(proposer)),
            value,
            Some(account(beneficiary)),
            |_: AccountId, _: Balance| -> Result<(), ()> { Ok(()) },
        )
        .unwrap();
    assert_eq!(effects.len(), 1);
}

#[test]
fn genesis_config_works() {
    let (module, effects) = Module::build(7);
    assert_eq!(module.proposal_count(), 0);
    assert!(module.approvals().is_empty());
    assert_eq!(module.proposals(0), None);
    assert_eq!(
        effects,
        vec![Effect::MakeFreeBalanceBe { who: Module::account_id(), amount: 7 }]
    );
}

#[test]
fn account_id_is_the_module_name_filled_up() {
    let mut expected = [0u8; 32];
    expected[..12].copy_from_slice(b"modlpy/trsry");
    assert_eq!(Module::account_id(), expected);
}

#[test]
fn bond_is_a_share_or_the_minimum() {
    let mut p = parameters();
    assert_eq!(Module::calculate_bond(&p, 100), 5);
    assert_eq!(Module::calculate_bond(&p, 0), 1);
    assert_eq!(Module::calculate_bond(&p, u128::MAX), u128::MAX / 20 + 1);
    p.proposal_bond_minimum = 6;
    assert_eq!(Module::calculate_bond(&p, 100), 6);
}

#[test]
fn bond_rounds_to_the_nearest_and_halves_down() {
    let mut p = parameters();
    p.proposal_bond_minimum = 0;
    p.proposal_bond = 500_000;
    assert_eq!(Module::calculate_bond(&p, 1), 0);
    assert_eq!(Module::calculate_bond(&p, 3), 1);
    p.proposal_bond = 500_001;
    assert_eq!(Module::calculate_bond(&p, 1), 1);
    p.proposal_bond = 333_333;
    assert_eq!(Module::calculate_bond(&p, 10), 3);
    p.proposal_bond = 2_000_000;
    assert_eq!(Module::calculate_bond(&p, 10), 10);
}

#[test]
fn proposing_reserves_the_bond_and_records_the_proposal() {
    let (mut module, _) = Module::build(1);
    let mut asked: Vec<(AccountId, Balance)> = vec![];
    let effects = module.propose_spend(
        &parameters(),
        RawOrigin::Signed(account(0)),
        100,
        Some(account(3)),
        |who: AccountId, amount: Balance| -> Result<(), ()> {
            asked.push((who, amount));
            Ok(())
        },
    );
    assert_eq!(asked, vec![(account(0), 5)]);
    assert_eq!(effects, Ok(vec![Effect::Emit(Event::Proposed(0))]));
    assert_eq!(module.proposal_count(), 1);
    assert_eq!(
        module.proposals(0),
        Some(Proposal { proposer: account(0), value: 100, beneficiary: account(3), bond: 5 })
    );
    propose(&mut module, 1, 20, 4);
    assert_eq!(module.proposal_count(), 2);
    assert_eq!(module.proposals(0).unwrap().value, 100);
    assert_eq!(module.proposals(1).unwrap().value, 20);
}

#[test]
fn proposer_without_funds_is_refused() {
    let (mut module, _) = Module::build(1);
    let r = module.propose_spend(
        &parameters(),
        RawOrigin::Signed(account(2)),
        100,
        Some(account(3)),
        |_: AccountId, _: Balance| -> Result<(), ()> { Err(()) },
    );
    assert_eq!(r, Err(DispatchError::Module(Error::InsufficientProposersBalance)));
    assert_eq!(module.proposal_count(), 0);
    assert_eq!(module.proposals(0), None);
}

#[test]
fn proposal_must_be_signed_and_its_beneficiary_known() {
    let (mut module, _) = Module::build(1);
    let mut calls = 0;
    for origin in [RawOrigin::Root, RawOrigin::Unsigned, RawOrigin::Other] {
        let r = module.propose_spend(
            &parameters(),
            origin,
            100,
            None,
            |_: AccountId, _: Balance| -> Result<(), ()> {
                calls += 1;
                Ok(())
            },
        );
        assert_eq!(r, Err(DispatchError::BadOrigin));
    }
    let r = module.propose_spend(
        &parameters(),
        RawOrigin::Signed(account(0)),
        100,
        None,
        |_: AccountId, _: Balance| -> Result<(), ()> {
            calls += 1;
            Ok(())
        },
    );
    assert_eq!(r, Err(DispatchError::CannotLookup));
    assert_eq!(calls, 0);
    assert_eq!(module.proposal_count(), 0);
}

#[test]
fn rejected_proposal_is_slashed_and_gone() {
    let (mut module, _) = Module::build(1);
    propose(&mut module, 0, 100, 3);
    let r = module.reject_proposal(RawOrigin::Root, false, 0);
    assert_eq!(
        r,
        Ok(vec![
            Effect::SlashReserved { who: account(0), amount: 5 },
            Effect::Emit(Event::Rejected(0, 5)),
        ])
    );
    assert_eq!(module.proposals(0), None);
    assert_eq!(module.proposal_count(), 1);
    assert_eq!(
        module.reject_proposal(RawOrigin::Root, false, 0),
        Err(DispatchError::Module(Error::InvalidProposalIndex))
    );
    propose(&mut module, 0, 30, 3);
    assert_eq!(module.proposals(0), None);
    assert_eq!(module.proposals(1).unwrap().value, 30);
}

#[test]
fn rejecting_takes_privilege() {
    let (mut module, _) = Module::build(1);
    propose(&mut module, 0, 100, 3);
    assert_eq!(
        module.reject_proposal(RawOrigin::Signed(account(0)), false, 0),
        Err(DispatchError::BadOrigin)
    );
    assert!(module.proposals(0).is_some());
    assert!(module.reject_proposal(RawOrigin::Other, true, 0).is_ok());
}

#[test]
fn approving_records_the_index() {
    let (mut module, _) = Module::build(1);
    assert_eq!(
        module.approve_proposal(RawOrigin::Root, false, 0),
        Err(DispatchError::Module(Error::InvalidProposalIndex))
    );
    propose(&mut module, 0, 100, 3);
    assert_eq!(
        module.approve_proposal(RawOrigin::Signed(account(1)), false, 0),
        Err(DispatchError::BadOrigin)
    );
    assert_eq!(module.approve_proposal(RawOrigin::Signed(account(1)), true, 0), Ok(()));
    assert_eq!(module.approvals(), &vec![0]);
}

#[test]
fn slashed_funds_go_to_the_pot() {
    assert_eq!(
        Module::on_nonzero_unbalanced(5),
        vec![
            Effect::ResolveCreating { who: Module::account_id(), amount: 5 },
            Effect::Emit(Event::Deposit(5)),
        ]
    );
}

#[test]
fn proposer_without_funds_is_refused_though_no_index_is_left() {
    let (mut module, _) = Module::build(1);
    module.proposal_count = ProposalIndex::MAX;
    let r = module.propose_spend(
        &parameters(),
        RawOrigin::Signed(account(0)),
        100,
        Some(account(3)),
        |_: AccountId, _: Balance| -> Result<(), ()> { Err(()) },
    );
    assert_eq!(r, Err(DispatchError::Module(Error::InsufficientProposersBalance)));
    assert_eq!(module.proposal_count(), ProposalIndex::MAX);
}
