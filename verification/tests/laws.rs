use pallet_treasury::runtime::BlakeTwo256;
use pallet_treasury::tips::median_of;
use pallet_treasury::types::{
    AccountId, Balance, DispatchError, Effect, Error, Event, Funds, OpenTip, Parameters,
    ProposalIndex, RawOrigin, ReportError, TreasuryTip, H256,
};

type Module = pallet_treasury::Module<BlakeTwo256>;

fn account(n: u8) -> AccountId {
    let mut id = [0u8; 32];
    id[31] = n;
    id
}

fn signed(n: u8) -> RawOrigin {
    RawOrigin::Signed(account(n))
}

fn parameters() -> Parameters {
    Parameters {
        proposal_bond: 50_000,
        proposal_bond_minimum: 1,
        spend_period: 2,
        burn: 500_000,
        tip_countdown: 1,
        tip_finders_fee: 20,
        tip_report_deposit_base: 1,
        tip_report_deposit_per_byte: 1,
    }
}

fn tippers() -> Vec<AccountId> {
    vec![account(10), account(11), account(12)]
}

fn funds() -> Funds {
    Funds { free_balance: 101, minimum_balance: 1 }
}

fn propose(module: &mut Module, proposer: u8, value: Balance) -> ProposalIndex {
    let index = module.proposal_count();
    module
        .propose_spend(
            &parameters(),
            signed(proposer),
            value,
            Some(account(3)),
            |_: AccountId, _: Balance| -> Result<(), ()> { Ok(()) },
        )
        .unwrap();
    index
}

fn report(
    module: &mut Module,
    finder: u8,
    reason: &str,
    who: u8,
) -> Result<Vec<Effect>, ReportError<()>> {
    module.report_awesome(
        &parameters(),
        signed(finder),
        reason.as_bytes().to_vec(),
        account(who),
        |_: AccountId, _: Balance| -> Result<(), ()> { Ok(()) },
    )
}

fn hash(reason: &str, who: u8) -> H256 {
    let reason = Module::hash_of_reason(&reason.as_bytes().to_vec());
    Module::hash_of_tip(&reason, &account(who))
}

/// What some effects release of what is reserved in an account.
fn released(effects: &[Effect], account: AccountId) -> Balance {
    effects
        .iter()
        .map(|effect| match effect {
            Effect::Unreserve { who, amount } | Effect::SlashReserved { who, amount }
                if *who == account =>
            {
                *amount
            }
            _ => 0,
        })
        .sum()
}

#[test]
fn indices_are_given_out_once() {
    let (mut module, _) = Module::build(1);
    assert_eq!(propose(&mut module, 0, 100), 0);
    assert_eq!(propose(&mut module, 0, 100), 1);
    module.reject_proposal(RawOrigin::Root, false, 1).unwrap();
    assert_eq!(propose(&mut module, 0, 100), 2);
    assert!(module.proposals(0).is_some());
    assert!(module.proposals(1).is_none());
    assert!(module.proposals(2).is_some());
}

#[test]
fn proposal_is_paid_only_once_it_is_approved() {
    let (mut module, _) = Module::build(1);
    propose(&mut module, 0, 40);
    propose(&mut module, 1, 60);
    let awarded = |index: ProposalIndex, value: Balance| {
        Effect::Emit(Event::Awarded(index, value, account(3)))
    };

    module.approve_proposal(RawOrigin::Root, false, 1).unwrap();
    let effects = module.spend_funds(&parameters(), &funds());
    assert!(effects.contains(&awarded(1, 60)));
    assert!(!effects.contains(&awarded(0, 40)));
    assert!(module.proposals(0).is_some());
    assert!(module.proposals(1).is_none());

    module.approve_proposal(RawOrigin::Root, false, 0).unwrap();
    let effects = module.spend_funds(&parameters(), &funds());
    assert!(effects.contains(&awarded(0, 40)));
    assert!(module.proposals(0).is_none());
    assert!(module.approvals().is_empty());
}

#[test]
fn bonds_are_released_in_the_accounts_that_hold_them() {
    let (mut module, _) = Module::build(1);
    propose(&mut module, 0, 40);
    propose(&mut module, 1, 60);
    assert_eq!(module.proposals(0).unwrap().bond, 2);
    assert_eq!(module.proposals(1).unwrap().bond, 3);

    module.approve_proposal(RawOrigin::Root, false, 0).unwrap();
    let effects = module.spend_funds(&parameters(), &funds());
    assert_eq!(released(&effects, account(0)), 2);
    assert_eq!(released(&effects, account(1)), 0);

    let effects = module.reject_proposal(RawOrigin::Root, false, 1).unwrap();
    assert_eq!(released(&effects, account(0)), 0);
    assert_eq!(released(&effects, account(1)), 3);
}

#[test]
fn deposits_are_released_in_the_accounts_that_hold_them() {
    let (mut module, _) = Module::build(1);
    report(&mut module, 0, "one", 3).unwrap();
    report(&mut module, 1, "three", 3).unwrap();

    let effects = module.retract_tip(signed(0), hash("one", 3)).unwrap();
    assert_eq!(released(&effects, account(0)), 4);
    assert_eq!(released(&effects, account(1)), 0);

    let id = hash("three", 3);
    module.tip(&parameters(), &tippers(), 1, signed(10), id, 10).unwrap();
    module.tip(&parameters(), &tippers(), 1, signed(11), id, 10).unwrap();
    let effects =
        module.close_tip(&parameters(), &tippers(), &funds(), 2, signed(0), id).unwrap();
    assert_eq!(released(&effects, account(0)), 0);
    assert_eq!(released(&effects, account(1)), 6);
}

#[test]
fn proposals_and_tips_are_apart() {
    let (mut module, _) = Module::build(1);
    propose(&mut module, 0, 40);
    module.approve_proposal(RawOrigin::Root, false, 0).unwrap();
    report(&mut module, 0, "one", 3).unwrap();
    assert_eq!(module.proposal_count(), 1);
    assert_eq!(module.approvals(), &vec![0]);

    module.spend_funds(&parameters(), &funds());
    let tip = module.tips(&hash("one", 3)).unwrap();
    assert_eq!(tip.finder, Some((account(0), 4)));
    assert_eq!(module.reasons(&tip.reason), Some(&b"one".to_vec()));
}

#[test]
fn tip_is_under_the_hash_of_its_reason_and_its_beneficiary() {
    let (mut module, _) = Module::build(1);
    let effects = report(&mut module, 0, "one", 3).unwrap();
    assert_eq!(effects, vec![Effect::Emit(Event::NewTip(hash("one", 3)))]);
    assert!(module.tips(&hash("one", 4)).is_none());
    assert!(module.tips(&hash("two", 3)).is_none());
    let tip = module.tips(&hash("one", 3)).unwrap();
    assert_eq!(tip.reason, Module::hash_of_reason(&b"one".to_vec()));
    assert_eq!(tip.who, account(3));
}

#[test]
fn known_reason_is_refused_for_anybody() {
    let (mut module, _) = Module::build(1);
    report(&mut module, 0, "one", 3).unwrap();
    let known = DispatchError::Module(Error::AlreadyKnown);
    assert_eq!(report(&mut module, 1, "one", 4), Err(ReportError::Refused(known)));
    let r = module.tip_new(&tippers(), signed(10), b"one".to_vec(), account(5), 10);
    assert_eq!(r, Err(known));
}

#[test]
fn tip_ends_once_and_its_reason_with_it() {
    let (mut module, _) = Module::build(1);
    let unknown = DispatchError::Module(Error::UnknownTip);
    let id = hash("one", 3);
    report(&mut module, 0, "one", 3).unwrap();
    module.retract_tip(signed(0), id).unwrap();
    assert!(module.reasons(&Module::hash_of_reason(&b"one".to_vec())).is_none());
    assert_eq!(module.retract_tip(signed(0), id), Err(unknown));
    assert_eq!(
        module.close_tip(&parameters(), &tippers(), &funds(), 9, signed(0), id),
        Err(unknown)
    );
    assert_eq!(module.tip(&parameters(), &tippers(), 1, signed(10), id, 10), Err(unknown));
    report(&mut module, 1, "one", 3).unwrap();
    assert_eq!(module.tips(&id).unwrap().finder, Some((account(1), 4)));
}

#[test]
fn majority_decides_the_median() {
    let tips = vec![
        (account(10), 7),
        (account(11), 1_000_000),
        (account(12), 7),
        (account(13), 0),
        (account(14), 7),
    ];
    assert_eq!(median_of(&tips), 7);
}

#[test]
fn median_does_not_depend_on_who_declared_what() {
    let tips = vec![(account(10), 3), (account(11), 1), (account(12), 2)];
    let others = vec![(account(20), 1), (account(21), 2), (account(22), 3)];
    assert_eq!(median_of(&tips), 2);
    assert_eq!(median_of(&others), 2);
}

/// An open tip with one report, after these declarations, each at a block, by an account, of an
/// amount. How many of them had it begin to close comes with it.
fn declared(calls: &[(u64, u8, Balance)]) -> (TreasuryTip, usize) {
    let mut tip = OpenTip {
        reason: [1; 32],
        who: account(3),
        finder: None,
        closes: None,
        tips: vec![(account(9), 1)],
    };
    let mut effects = vec![];
    let began = calls
        .iter()
        .filter(|(now, who, value)| {
            Module::insert_tip_and_check_closing(
                &parameters(),
                &tippers(),
                *now,
                [2; 32],
                &mut tip,
                account(*who),
                *value,
                &mut effects,
            )
        })
        .count();
    assert_eq!(effects, vec![Effect::Emit(Event::TipClosing([2; 32])); began]);
    (tip, began)
}

#[test]
fn redeclaration_leaves_no_trace_of_the_first() {
    assert_eq!(declared(&[(5, 10, 7), (5, 10, 8)]), declared(&[(5, 10, 8)]));
    assert_eq!(
        declared(&[(5, 11, 1), (5, 10, 7), (5, 10, 8)]),
        declared(&[(5, 11, 1), (5, 10, 8)])
    );
}

#[test]
fn order_of_two_tippers_does_not_matter() {
    let one = declared(&[(5, 10, 7), (5, 12, 8)]);
    assert_eq!(one, declared(&[(5, 12, 8), (5, 10, 7)]));
    assert_eq!(one.0.tips, vec![(account(10), 7), (account(12), 8)]);
    assert_eq!(one.0.closes, Some(6));
}

#[test]
fn closing_begins_once() {
    let (tip, began) = declared(&[(5, 10, 7), (6, 11, 8), (7, 12, 9), (9, 10, 1)]);
    assert_eq!(tip.closes, Some(7));
    assert_eq!(began, 1);
}
