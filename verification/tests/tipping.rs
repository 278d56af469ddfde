use pallet_treasury::runtime::{BlakeTwo256, Hashing};
use pallet_treasury::tips::{declare, in_order, median_of};
use pallet_treasury::types::{
    AccountId, Balance, DispatchError, Effect, Error, Event, Funds, OpenTip, Parameters,
    RawOrigin, ReportError, H256,
};

type Module = pallet_treasury::Module<BlakeTwo256>;

/// The BLAKE2b digest, 256 bits long, of `awesome.dot`.
const REASON_HASH: H256 = [
    0xa9, 0x35, 0xd5, 0x5b, 0xfc, 0x42, 0x56, 0xba, 0xca, 0xa3, 0x12, 0x6c,
    0x15, 0xf3, 0x9d, 0x60, 0xf0, 0xc3, 0x7f, 0x22, 0x88, 0xd6, 0xe0, 0x74,
    0xb4, 0x43, 0x3f, 0x0b, 0xb9, 0xbb, 0x01, 0xb6,
];

/// The digest of [`REASON_HASH`] and the third account.
const TIP_HASH: H256 = [
    0xe7, 0xde, 0xe8, 0x40, 0xc0, 0xa2, 0xf3, 0x7f, 0x0c, 0x87, 0xc7, 0xe0,
    0xa1, 0x7e, 0xe2, 0x28, 0xf2, 0x03, 0xa3, 0x64, 0xd5, 0xd9, 0x26, 0xd0,
    0x12, 0xdc, 0x97, 0x4c, 0x26, 0x19, 0xf2, 0x66,
];

fn account(n: u8) -> AccountId {
    let mut id = [0u8; 32];
    id[31] = n;
    id
}

fn signed(n: u8) -> RawOrigin {
    RawOrigin::Signed(account(n))
}

fn parameters() -> Parameters {
    Parameters {
        proposal_bond: 50_000,
        proposal_bond_minimum: 1,
        spend_period: 2,
        burn: 500_000,
        tip_countdown: 1,
        tip_finders_fee: 20,
        tip_report_deposit_base: 1,
        tip_report_deposit_per_byte: 1,
    }
}

fn tippers() -> Vec<AccountId> {
    vec![account(10), account(11), account(12), account(13), account(14)]
}

fn funds() -> Funds {
    Funds { free_balance: 101, minimum_balance: 1 }
}

fn reserve(_: AccountId, _: Balance) -> Result<(), u8> {
    Ok(())
}

fn empty() -> Module {
    Module::build(1).0
}

/// A treasury with one report, by the given account for the third.
fn reported(finder: u8) -> Module {
    let mut module = empty();
    module
        .report_awesome(
            &parameters(),
            signed(finder),
            b"awesome.dot".to_vec(),
            account(3),
            reserve,
        )
        .unwrap();
    module
}

/// A treasury with one tip, opened by the tenth account for the third.
fn tipped(value: Balance) -> Module {
    let mut module = empty();
    module
        .tip_new(&tippers(), signed(10), b"awesome.dot".to_vec(), account(3), value)
        .unwrap();
    module
}

fn tip(module: &mut Module, now: u64, who: u8, value: Balance) -> Vec<Effect> {
    module.tip(&parameters(), &tippers(), now, signed(who), TIP_HASH, value).unwrap()
}

fn close(module: &mut Module, now: u64) -> Result<Vec<Effect>, DispatchError> {
    module.close_tip(&parameters(), &tippers(), &funds(), now, signed(0), TIP_HASH)
}

fn pay(to: u8, amount: Balance) -> Effect {
    Effect::Transfer { from: Module::account_id(), to: account(to), amount }
}

#[test]
fn report_awesome_works() {
    let mut module = empty();
    let mut asked: Vec<(AccountId, Balance)> = vec![];
    let r = module.report_awesome(
        &parameters(),
        signed(0),
        b"awesome.dot".to_vec(),
        account(3),
        |who: AccountId, amount: Balance| -> Result<(), u8> {
            asked.push((who, amount));
            Ok(())
        },
    );
    assert_eq!(asked, vec![(account(0), 12)]);
    assert_eq!(r, Ok(vec![Effect::Emit(Event::NewTip(TIP_HASH))]));
    assert_eq!(
        module.tips(&TIP_HASH),
        Some(&OpenTip {
            reason: REASON_HASH,
            who: account(3),
            finder: Some((account(0), 12)),
            closes: None,
            tips: vec![],
        })
    );
    assert_eq!(module.reasons(&REASON_HASH), Some(&b"awesome.dot".to_vec()));
}

#[test]
fn report_that_cannot_be_bonded_is_refused() {
    let mut module = empty();
    let r = module.report_awesome(
        &parameters(),
        signed(0),
        b"awesome.dot".to_vec(),
        account(3),
        |_: AccountId, _: Balance| -> Result<(), u8> { Err(77) },
    );
    assert_eq!(r, Err(ReportError::NotReserved(77)));
    assert!(module.tips(&TIP_HASH).is_none());
    assert!(module.reasons(&REASON_HASH).is_none());
}

#[test]
fn report_must_be_signed_short_and_new() {
    let mut module = reported(0);
    let again = module.report_awesome(
        &parameters(),
        signed(1),
        b"awesome.dot".to_vec(),
        account(4),
        reserve,
    );
    assert_eq!(
        again,
        Err(ReportError::Refused(DispatchError::Module(Error::AlreadyKnown)))
    );
    let unsigned = module.report_awesome(
        &parameters(),
        RawOrigin::Unsigned,
        b"other".to_vec(),
        account(4),
        reserve,
    );
    assert_eq!(unsigned, Err(ReportError::Refused(DispatchError::BadOrigin)));
    let long =
        module.report_awesome(&parameters(), signed(1), vec![0; 16385], account(4), reserve);
    assert_eq!(long, Err(ReportError::Refused(DispatchError::Module(Error::ReasonTooBig))));
    let longest =
        module.report_awesome(&parameters(), signed(1), vec![0; 16384], account(4), reserve);
    assert!(longest.is_ok());
}

#[test]
fn report_awesome_from_beneficiary_and_tip_works() {
    let mut module = reported(3);
    assert_eq!(tip(&mut module, 1, 10, 10), vec![]);
    assert_eq!(tip(&mut module, 1, 11, 10), vec![]);
    assert_eq!(
        tip(&mut module, 1, 12, 10),
        vec![Effect::Emit(Event::TipClosing(TIP_HASH))]
    );
    assert_eq!(
        close(&mut module, 2),
        Ok(vec![Effect::Unreserve { who: account(3), amount: 12 }, pay(3, 10)])
    );
}

#[test]
fn report_awesome_and_tip_works() {
    let mut module = reported(0);
    tip(&mut module, 1, 10, 10);
    tip(&mut module, 1, 11, 10);
    tip(&mut module, 1, 12, 10);
    assert_eq!(
        close(&mut module, 2),
        Ok(vec![Effect::Unreserve { who: account(0), amount: 12 }, pay(0, 2), pay(3, 8)])
    );
    assert!(module.tips(&TIP_HASH).is_none());
    assert!(module.reasons(&REASON_HASH).is_none());
}

#[test]
fn retract_tip_works() {
    let mut module = reported(0);
    tip(&mut module, 1, 10, 10);
    assert_eq!(
        module.retract_tip(signed(10), TIP_HASH),
        Err(DispatchError::Module(Error::NotFinder))
    );
    assert_eq!(module.retract_tip(RawOrigin::Root, TIP_HASH), Err(DispatchError::BadOrigin));
    assert_eq!(
        module.retract_tip(signed(0), TIP_HASH),
        Ok(vec![
            Effect::Unreserve { who: account(0), amount: 12 },
            Effect::Emit(Event::TipRetracted(TIP_HASH)),
        ])
    );
    assert!(module.tips(&TIP_HASH).is_none());
    assert!(module.reasons(&REASON_HASH).is_none());
    assert_eq!(close(&mut module, 2), Err(DispatchError::Module(Error::UnknownTip)));
    assert_eq!(
        module.retract_tip(signed(0), TIP_HASH),
        Err(DispatchError::Module(Error::UnknownTip))
    );
}

#[test]
fn tip_without_a_finder_cannot_be_retracted() {
    let mut module = tipped(10);
    assert_eq!(
        module.retract_tip(signed(10), TIP_HASH),
        Err(DispatchError::Module(Error::NotFinder))
    );
}

#[test]
fn tip_new_cannot_be_used_twice() {
    let mut module = tipped(10);
    assert_eq!(
        module.tip_new(&tippers(), signed(11), b"awesome.dot".to_vec(), account(3), 10),
        Err(DispatchError::Module(Error::AlreadyKnown))
    );
    assert_eq!(
        module.tip_new(&tippers(), signed(11), b"awesome.dot".to_vec(), account(4), 10),
        Err(DispatchError::Module(Error::AlreadyKnown))
    );
}

#[test]
fn tip_new_opens_a_tip_with_one_declaration() {
    let mut module = empty();
    assert_eq!(
        module.tip_new(&tippers(), signed(9), b"awesome.dot".to_vec(), account(3), 10),
        Err(DispatchError::BadOrigin)
    );
    assert_eq!(
        module.tip_new(&tippers(), RawOrigin::Root, b"awesome.dot".to_vec(), account(3), 10),
        Err(DispatchError::BadOrigin)
    );
    assert_eq!(
        module.tip_new(&tippers(), signed(10), b"awesome.dot".to_vec(), account(3), 10),
        Ok(vec![Effect::Emit(Event::NewTip(TIP_HASH))])
    );
    let open = module.tips(&TIP_HASH).unwrap();
    assert_eq!(open.finder, None);
    assert_eq!(open.closes, None);
    assert_eq!(open.tips, vec![(account(10), 10)]);
}

#[test]
fn only_tippers_can_tip_and_only_open_tips() {
    let mut module = tipped(10);
    assert_eq!(
        module.tip(&parameters(), &tippers(), 1, signed(9), TIP_HASH, 10),
        Err(DispatchError::BadOrigin)
    );
    assert_eq!(
        module.tip(&parameters(), &tippers(), 1, signed(11), REASON_HASH, 10),
        Err(DispatchError::Module(Error::UnknownTip))
    );
}

#[test]
fn close_tip_works() {
    let mut module = tipped(10);
    assert_eq!(tip(&mut module, 1, 11, 10), vec![]);
    assert_eq!(close(&mut module, 1), Err(DispatchError::Module(Error::StillOpen)));
    assert_eq!(
        tip(&mut module, 1, 12, 10),
        vec![Effect::Emit(Event::TipClosing(TIP_HASH))]
    );
    assert_eq!(module.tips(&TIP_HASH).unwrap().closes, Some(2));
    assert_eq!(close(&mut module, 1), Err(DispatchError::Module(Error::Premature)));
    let unsigned =
        module.close_tip(&parameters(), &tippers(), &funds(), 2, RawOrigin::Unsigned, TIP_HASH);
    assert_eq!(unsigned, Err(DispatchError::BadOrigin));
    assert_eq!(close(&mut module, 2), Ok(vec![pay(3, 10)]));
    assert_eq!(close(&mut module, 2), Err(DispatchError::Module(Error::UnknownTip)));
}

#[test]
fn closing_is_scheduled_once() {
    let mut module = tipped(10);
    tip(&mut module, 1, 11, 10);
    tip(&mut module, 1, 12, 10);
    assert_eq!(tip(&mut module, 5, 13, 10), vec![]);
    assert_eq!(module.tips(&TIP_HASH).unwrap().closes, Some(2));
}

#[test]
fn tip_median_calculation_works() {
    let mut module = tipped(0);
    tip(&mut module, 1, 11, 10);
    tip(&mut module, 1, 12, 1_000_000);
    assert_eq!(close(&mut module, 2), Ok(vec![pay(3, 10)]));
}

#[test]
fn tip_changing_works() {
    let mut module = tipped(10_000);
    tip(&mut module, 1, 11, 10_000);
    tip(&mut module, 1, 12, 10_000);
    tip(&mut module, 1, 13, 0);
    tip(&mut module, 1, 14, 0);
    tip(&mut module, 1, 12, 1_000);
    tip(&mut module, 1, 11, 100);
    tip(&mut module, 1, 10, 10);
    assert_eq!(
        module.tips(&TIP_HASH).unwrap().tips,
        vec![
            (account(10), 10),
            (account(11), 100),
            (account(12), 1_000),
            (account(13), 0),
            (account(14), 0),
        ]
    );
    assert_eq!(close(&mut module, 2), Ok(vec![pay(3, 10)]));
}

#[test]
fn payment_is_limited_by_the_pot() {
    let mut module = reported(0);
    tip(&mut module, 1, 10, 1_000);
    tip(&mut module, 1, 11, 1_000);
    tip(&mut module, 1, 12, 1_000);
    assert_eq!(
        close(&mut module, 2),
        Ok(vec![Effect::Unreserve { who: account(0), amount: 12 }, pay(0, 20), pay(3, 80)])
    );
}

#[test]
fn finders_fee_rounds_to_the_nearest_and_halves_down() {
    for (value, fee) in [(2, 0), (3, 1), (7, 1), (8, 2), (10, 2)] {
        let mut module = reported(0);
        tip(&mut module, 1, 10, value);
        tip(&mut module, 1, 11, value);
        tip(&mut module, 1, 12, value);
        let effects = close(&mut module, 2).unwrap();
        assert_eq!(effects[1..], [pay(0, fee), pay(3, value - fee)]);
    }
    let mut half = parameters();
    half.tip_finders_fee = 50;
    let mut module = reported(0);
    for who in 10..13 {
        module.tip(&half, &tippers(), 1, signed(who), TIP_HASH, 5).unwrap();
    }
    let effects =
        module.close_tip(&half, &tippers(), &funds(), 2, signed(0), TIP_HASH).unwrap();
    assert_eq!(effects[1..], [pay(0, 2), pay(3, 3)]);
}

#[test]
fn tips_of_former_members_do_not_count() {
    let mut module = tipped(50);
    tip(&mut module, 1, 11, 60);
    let fewer = vec![account(11), account(12), account(13)];
    assert_eq!(
        module.tip(&parameters(), &fewer, 1, signed(12), TIP_HASH, 70),
        Ok(vec![Effect::Emit(Event::TipClosing(TIP_HASH))])
    );
    assert_eq!(
        module.tips(&TIP_HASH).unwrap().tips,
        vec![(account(11), 60), (account(12), 70)]
    );
    let fewest = vec![account(11)];
    assert_eq!(
        module.close_tip(&parameters(), &fewest, &funds(), 2, signed(0), TIP_HASH),
        Ok(vec![pay(3, 60)])
    );
}

#[test]
fn retain_active_tips_keeps_those_of_members() {
    let mut tips: Vec<(AccountId, Balance)> = (10..15).map(|n| (account(n), n.into())).collect();
    Module::retain_active_tips(&mut tips, &vec![account(9), account(11), account(14), account(20)]);
    assert_eq!(tips, vec![(account(11), 11), (account(14), 14)]);
    Module::retain_active_tips(&mut tips, &vec![]);
    assert_eq!(tips, vec![]);
}

#[test]
fn declarations_stay_in_the_order_of_accounts() {
    let mut high = account(1);
    high[0] = 1;
    let mut tips: Vec<(AccountId, Balance)> = vec![];
    for who in [account(12), high, account(10), account(11), account(200)] {
        declare(&mut tips, who, 1);
    }
    declare(&mut tips, account(11), 5);
    assert_eq!(
        tips,
        vec![
            (account(10), 1),
            (account(11), 5),
            (account(12), 1),
            (account(200), 1),
            (high, 1),
        ]
    );
    assert!(in_order(&tips));
    tips.swap(0, 1);
    assert!(!in_order(&tips));
    assert!(!in_order(&vec![(high, 1), (high, 2)]));
    assert!(in_order(&vec![]));
}

#[test]
fn median_is_in_the_middle() {
    let of = |amounts: &[Balance]| {
        let tips: Vec<(AccountId, Balance)> =
            amounts.iter().map(|a| (account(0), *a)).collect();
        median_of(&tips)
    };
    assert_eq!(of(&[7]), 7);
    assert_eq!(of(&[9, 1]), 9);
    assert_eq!(of(&[3, 1, 2]), 2);
    assert_eq!(of(&[4, 4, 4, 1, 100]), 4);
    assert_eq!(of(&[8, 2, 6, 4]), 6);
}

#[test]
fn payout_tip_pays_beneficiary_and_finder() {
    let open = OpenTip {
        reason: REASON_HASH,
        who: account(3),
        finder: Some((account(4), 9)),
        closes: Some(1),
        tips: vec![(account(10), 30), (account(11), 50), (account(12), 40)],
    };
    assert_eq!(
        Module::payout_tip(&parameters(), &tippers(), &funds(), open),
        vec![Effect::Unreserve { who: account(4), amount: 9 }, pay(4, 8), pay(3, 32)]
    );
}

#[test]
fn insert_tip_reports_when_closing_begins() {
    let mut open = OpenTip {
        reason: REASON_HASH,
        who: account(3),
        finder: None,
        closes: None,
        tips: vec![],
    };
    let p = parameters();
    let two = vec![account(10), account(11)];
    let mut effects = vec![];
    assert!(Module::insert_tip_and_check_closing(
        &p, &two, 8, TIP_HASH, &mut open, account(11), 5, &mut effects
    ));
    assert_eq!(open.closes, Some(9));
    assert_eq!(effects, vec![Effect::Emit(Event::TipClosing(TIP_HASH))]);
    assert!(!Module::insert_tip_and_check_closing(
        &p, &two, 20, TIP_HASH, &mut open, account(10), 6, &mut effects
    ));
    assert_eq!(open.closes, Some(9));
    assert_eq!(effects, vec![Effect::Emit(Event::TipClosing(TIP_HASH))]);
    assert_eq!(open.tips, vec![(account(10), 6), (account(11), 5)]);
}

#[test]
fn known_reason_is_refused_before_the_deposit_is_counted() {
    let mut module = reported(0);
    let p = Parameters { tip_report_deposit_per_byte: Balance::MAX, ..parameters() };
    let r = module.report_awesome(&p, signed(1), b"awesome.dot".to_vec(), account(4), reserve);
    assert_eq!(
        r,
        Err(ReportError::Refused(DispatchError::Module(Error::AlreadyKnown)))
    );
}

/// A hash function that tells inputs apart by their last byte and their length.
#[derive(Debug)]
struct LastByte;

impl Hashing for LastByte {
    fn hash(data: &Vec<u8>) -> [u8; 32] {
        let mut digest = [0u8; 32];
        digest[0] = data[data.len() - 1];
        digest[1] = data.len() as u8;
        digest
    }

    fn hash_of(hash: &[u8; 32], who: &[u8; 32]) -> [u8; 32] {
        let mut data = hash.to_vec();
        data.extend_from_slice(who);
        Self::hash(&data)
    }
}

#[test]
fn records_are_kept_under_the_hash_of_the_chain() {
    let (mut module, _) = pallet_treasury::Module::<LastByte>::build(1);
    module
        .tip_new(&tippers(), signed(10), b"awesome.dot".to_vec(), account(3), 10)
        .unwrap();
    let mut reason = [0u8; 32];
    reason[0] = b't';
    reason[1] = 11;
    let mut id = [0u8; 32];
    id[0] = 3;
    id[1] = 64;
    assert_eq!(module.reasons(&reason), Some(&b"awesome.dot".to_vec()));
    assert_eq!(module.tips(&id).map(|tip| tip.reason), Some(reason));
    assert!(module.tips(&TIP_HASH).is_none());
}
