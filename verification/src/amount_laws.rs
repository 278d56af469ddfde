//! What holds of amounts: fractions, the pot, the deposit of a report, and the blocks on which the
//! pot is spent.

use crate::module::pot_of;
use crate::runtime::portion;
use crate::spending::spends_at;
use crate::tipping::report_deposit;
use crate::types::{BlockNumber, Funds, Parameters};
use vstd::arithmetic::div_mod::{lemma_fundamental_div_mod, lemma_fundamental_div_mod_converse};
use vstd::prelude::*;

verus! {

/// `amount` is nearest to `parts` out of `whole` of `value`: it is off by less than half a unit,
/// or by half a unit that it is short.
pub open spec fn nearest(amount: int, parts: int, whole: int, value: int) -> bool {
    -whole <= 2 * (whole * amount - parts * value) < whole
}

/// A part of an amount is rounded to the nearest unit, an exact half down. No other number is.
pub proof fn law_portion_nearest(parts: int, whole: int, value: int, other: int)
    requires
        0 < whole,
    ensures
        nearest(portion(parts, whole, value), parts, whole, value),
        nearest(other, parts, whole, value) ==> other == portion(parts, whole, value),
{
    let product = parts * value;
    let q = product / whole;
    let r = product % whole;
    let p = portion(parts, whole, value);
    lemma_fundamental_div_mod(product, whole);
    assert(0 <= r < whole) by (nonlinear_arith)
        requires
            r == product % whole,
            0 < whole,
    ;
    assert(whole * (q + 1) == whole * q + whole) by (nonlinear_arith);
    if nearest(other, parts, whole, value) {
        assert(-whole < whole * other - whole * p < whole);
        assert(other == p) by (nonlinear_arith)
            requires
                -whole < whole * other - whole * p < whole,
                0 < whole,
        ;
    }
}

/// The pot is what the treasury's account holds beyond the least balance that keeps it alive, and
/// empty where it holds less.
pub proof fn law_pot(funds: Funds)
    ensures
        funds.free_balance >= funds.minimum_balance ==> pot_of(funds) + funds.minimum_balance
            == funds.free_balance,
        funds.free_balance <= funds.minimum_balance ==> pot_of(funds) == 0,
{
}

/// To report an empty reason takes the base deposit, and each further byte of the reason takes the
/// deposit per byte.
pub proof fn law_report_deposit(parameters: Parameters, reason: Seq<u8>, byte: u8)
    ensures
        report_deposit(parameters, Seq::empty()) == parameters.tip_report_deposit_base,
        report_deposit(parameters, reason.push(byte)) == report_deposit(parameters, reason)
            + parameters.tip_report_deposit_per_byte,
{
    let rate = parameters.tip_report_deposit_per_byte as int;
    let len = reason.len() as int;
    assert(rate * (len + 1) == rate * len + rate) by (nonlinear_arith);
    assert(rate * 0 == 0) by (nonlinear_arith);
}

/// The pot is spent on the blocks whose number is a multiple of the spend period, and on no others.
pub proof fn law_spend_blocks(parameters: Parameters, n: BlockNumber)
    requires
        parameters.spend_period > 0,
    ensures
        spends_at(parameters, n) <==> exists|k: int| n == #[trigger] (k * parameters.spend_period),
{
    let period = parameters.spend_period as int;
    lemma_fundamental_div_mod(n as int, period);
    let k = n as int / period;
    if spends_at(parameters, n) {
        assert(period * k == k * period) by (nonlinear_arith);
        assert(n == k * parameters.spend_period);
    }
    if exists|k: int| n == #[trigger] (k * parameters.spend_period) {
        let k = choose|k: int| n == #[trigger] (k * parameters.spend_period);
        lemma_fundamental_div_mod_converse(n as int, period, k, 0);
    }
}

/// From one spend to the next it is the spend period.
pub proof fn law_spend_period(parameters: Parameters, n: BlockNumber, m: BlockNumber)
    requires
        parameters.spend_period > 0,
        spends_at(parameters, n),
        n < m,
    ensures
        m == n + parameters.spend_period ==> spends_at(parameters, m),
        m < n + parameters.spend_period ==> !spends_at(parameters, m),
{
    let period = parameters.spend_period as int;
    law_spend_blocks(parameters, n);
    law_spend_blocks(parameters, m);
    let k = choose|k: int| n == #[trigger] (k * parameters.spend_period);
    assert((k + 1) * period == k * period + period) by (nonlinear_arith);
    if m == n + period {
        assert(m == (k + 1) * parameters.spend_period);
    }
    if m < n + period && spends_at(parameters, m) {
        let j = choose|j: int| m == #[trigger] (j * parameters.spend_period);
        assert(false) by (nonlinear_arith)
            requires
                k * period < j * period < (k + 1) * period,
                0 < period,
        ;
    }
}

} // verus!
