//! What a holding has earned and what it is expected to earn.
//!
//! These operations read the store and never write it.

use vstd::prelude::*;
use crate::errors::{BitcoinUSTBillsError, Result};
use crate::money::{prorate, ratio, ratio_bps, saturated};
use crate::platform::{Platform, PlatformView};
use crate::trading::projected_yield;
use crate::types::{TokenHoldingView, USTBillView, YieldProjection, YieldProjectionView};

verus! {

/// Whole days from the purchase of a holding to `now`.
pub open spec fn days_held(holding: TokenHoldingView, now: u64) -> int {
    (now - holding.purchase_date) / 86400
}

/// What a holding is worth at `now`: its value and what it has earned since
/// its purchase at the yearly yield of its bill.
pub open spec fn current_value(holding: TokenHoldingView, bill: USTBillView, now: u64) -> int {
    holding.current_value + saturated(
        holding.accrued_yield(bill.annual_yield_bps, days_held(holding, now) as u64),
    )
}

/// What a holding yields at maturity: its share of the face value of the bill,
/// rounded down, less what was paid for it. A holding bought above par yields
/// a loss, which is a negative amount.
pub open spec fn maturity_yield(holding: TokenHoldingView, bill: USTBillView) -> int {
    bill.face_value * holding.tokens_owned / (bill.total_tokens as int) - holding.tokens_owned
        * holding.purchase_price_per_token
}

/// What a holding is expected to earn from `now` to the maturity of its bill.
pub open spec fn projection(
    holding_id: Seq<char>,
    holding: TokenHoldingView,
    bill: USTBillView,
    now: u64,
) -> YieldProjectionView {
    let expected = projected_yield(bill, holding.current_value, now);
    YieldProjectionView {
        holding_id,
        current_value: holding.current_value,
        projected_yield: expected,
        yield_bps: saturated(ratio_bps(expected as nat, holding.current_value as nat)),
        days_to_maturity: bill.days_to_maturity(now) as u64,
        annual_yield_rate_bps: bill.annual_yield_bps,
    }
}

impl PlatformView {
    /// Why a holding cannot be valued, if it cannot: there is no such holding,
    /// or no bill that it belongs to.
    pub open spec fn valuation_rejection(self, holding_id: Seq<char>) -> Option<
        BitcoinUSTBillsError,
    > {
        if !self.has_holding(holding_id) {
            Some(BitcoinUSTBillsError::HoldingNotFound)
        } else if !self.has_bill(self.holding(holding_id).ustbill_id) {
            Some(BitcoinUSTBillsError::USTBillNotFound)
        } else {
            None
        }
    }

    /// The bill that a holding belongs to.
    pub open spec fn bill_of(self, holding_id: Seq<char>) -> USTBillView {
        self.bill(self.holding(holding_id).ustbill_id)
    }
}

/// Whether a holding can be valued at `now`: true where there is no such
/// holding or no bill that it belongs to, and where the holding was bought at
/// or before `now` and its value and what it has earned fit in 64 bits.
pub fn current_value_is_defined(platform: &Platform, holding_id: &str, now: u64) -> (defined: bool)
    requires
        platform.wf(),
    ensures
        defined == (platform@.valuation_rejection(holding_id@) is None ==> platform@.holding(
            holding_id@,
        ).purchase_date <= now && current_value(
            platform@.holding(holding_id@),
            platform@.bill_of(holding_id@),
            now,
        ) <= u64::MAX),
{
    let holding = match platform.holdings.get(holding_id) {
        Ok(holding) => holding,
        Err(e) => {
            return true;
        },
    };
    let ustbill = match platform.ustbills.get(holding.ustbill_id.as_str()) {
        Ok(ustbill) => ustbill,
        Err(e) => {
            return true;
        },
    };
    if holding.purchase_date > now {
        return false;
    }
    let days_held = (now - holding.purchase_date) / 86400;
    let accrued_yield = holding.calculate_current_yield(ustbill.annual_yield_bps, days_held);
    holding.current_value.checked_add(accrued_yield).is_some()
}

/// Whether the yield of a holding at maturity can be computed: true where
/// there is no such holding or no bill that it belongs to, where the bill has
/// not matured, and where the bill has tokens and the two amounts that are
/// compared fit in 127 bits.
pub fn maturity_yield_is_defined(platform: &Platform, holding_id: &str, now: u64) -> (defined: bool)
    requires
        platform.wf(),
    ensures
        defined == (platform@.valuation_rejection(holding_id@) is None && platform@.bill_of(
            holding_id@,
        ).maturity_date <= now ==> platform@.bill_of(holding_id@).total_tokens > 0
            && platform@.bill_of(holding_id@).face_value * platform@.holding(
            holding_id@,
        ).tokens_owned <= i128::MAX && platform@.holding(holding_id@).tokens_owned
            * platform@.holding(holding_id@).purchase_price_per_token <= i128::MAX),
{
    let holding = match platform.holdings.get(holding_id) {
        Ok(holding) => holding,
        Err(e) => {
            return true;
        },
    };
    let ustbill = match platform.ustbills.get(holding.ustbill_id.as_str()) {
        Ok(ustbill) => ustbill,
        Err(e) => {
            return true;
        },
    };
    if ustbill.maturity_date > now {
        return true;
    }
    assert(ustbill.face_value * holding.tokens_owned <= u64::MAX * u64::MAX) by (nonlinear_arith)
        requires
            ustbill.face_value <= u64::MAX,
            holding.tokens_owned <= u64::MAX,
    ;
    assert(holding.tokens_owned * holding.purchase_price_per_token <= u64::MAX * u64::MAX)
        by (nonlinear_arith)
        requires
            holding.tokens_owned <= u64::MAX,
            holding.purchase_price_per_token <= u64::MAX,
    ;
    let face: u128 = (ustbill.face_value as u128) * (holding.tokens_owned as u128);
    let paid: u128 = (holding.tokens_owned as u128) * (holding.purchase_price_per_token as u128);
    ustbill.total_tokens > 0 && face <= i128::MAX as u128 && paid <= i128::MAX as u128
}

/// What a holding is worth at `now`.
pub fn calculate_current_value(platform: &Platform, holding_id: &str, now: u64) -> (result: Result<
    u64,
>)
    requires
        platform.wf(),
        platform@.valuation_rejection(holding_id@) is None ==> platform@.holding(
            holding_id@,
        ).purchase_date <= now && current_value(
            platform@.holding(holding_id@),
            platform@.bill_of(holding_id@),
            now,
        ) <= u64::MAX,
    ensures
        platform@.valuation_rejection(holding_id@) matches Some(e) ==> result == Err::<
            u64,
            BitcoinUSTBillsError,
        >(e),
        platform@.valuation_rejection(holding_id@) is None ==> (result matches Ok(value) && value
            == current_value(
            platform@.holding(holding_id@),
            platform@.bill_of(holding_id@),
            now,
        )),
{
    let holding = match platform.holdings.get(holding_id) {
        Ok(holding) => holding,
        Err(e) => {
            return Err(BitcoinUSTBillsError::HoldingNotFound);
        },
    };
    let ustbill = match platform.ustbills.get(holding.ustbill_id.as_str()) {
        Ok(ustbill) => ustbill,
        Err(e) => {
            return Err(BitcoinUSTBillsError::USTBillNotFound);
        },
    };
    let days_held = (now - holding.purchase_date) / 86400;
    let accrued_yield = holding.calculate_current_yield(ustbill.annual_yield_bps, days_held);
    Ok(holding.current_value + accrued_yield)
}

/// What a holding yields at maturity. Until the bill has matured this fails
/// with `MaturityDatePassed`; from then on it is the holding's share of the
/// face value less what was paid for it, which is negative for a loss.
pub fn calculate_maturity_yield(platform: &Platform, holding_id: &str, now: u64) -> (result: Result<
    i128,
>)
    requires
        platform.wf(),
        platform@.valuation_rejection(holding_id@) is None && platform@.bill_of(
            holding_id@,
        ).maturity_date <= now ==> platform@.bill_of(holding_id@).total_tokens > 0
            && platform@.bill_of(holding_id@).face_value * platform@.holding(
            holding_id@,
        ).tokens_owned <= i128::MAX && platform@.holding(holding_id@).tokens_owned
            * platform@.holding(holding_id@).purchase_price_per_token <= i128::MAX,
    ensures
        platform@.valuation_rejection(holding_id@) matches Some(e) ==> result == Err::<
            i128,
            BitcoinUSTBillsError,
        >(e),
        platform@.valuation_rejection(holding_id@) is None && platform@.bill_of(
            holding_id@,
        ).maturity_date > now ==> result matches Err(BitcoinUSTBillsError::MaturityDatePassed),
        platform@.valuation_rejection(holding_id@) is None && platform@.bill_of(
            holding_id@,
        ).maturity_date <= now ==> (result matches Ok(earned) && earned == maturity_yield(
            platform@.holding(holding_id@),
            platform@.bill_of(holding_id@),
        )),
{
    let holding = match platform.holdings.get(holding_id) {
        Ok(holding) => holding,
        Err(e) => {
            return Err(BitcoinUSTBillsError::HoldingNotFound);
        },
    };
    let ustbill = match platform.ustbills.get(holding.ustbill_id.as_str()) {
        Ok(ustbill) => ustbill,
        Err(e) => {
            return Err(BitcoinUSTBillsError::USTBillNotFound);
        },
    };
    if ustbill.maturity_date <= now {
        let tokens = holding.tokens_owned as i128;
        let face = ustbill.face_value as i128;
        let total = ustbill.total_tokens as i128;
        let price = holding.purchase_price_per_token as i128;
        assert(0 <= (face * tokens) / (total as int) <= face * tokens) by (nonlinear_arith)
            requires
                face * tokens >= 0,
                total > 0,
        ;
        let purchase_value: i128 = tokens * price;
        let face_value: i128 = (face * tokens) / total;
        assert(face * tokens == ustbill.face_value * holding.tokens_owned);
        assert(tokens * price == holding.tokens_owned * holding.purchase_price_per_token);
        Ok(face_value - purchase_value)
    } else {
        Err(BitcoinUSTBillsError::MaturityDatePassed)
    }
}

/// What a holding is expected to earn from `now` to the maturity of its bill,
/// and that as a share of its present value.
pub fn get_yield_projection(platform: &Platform, holding_id: String, now: u64) -> (result: Result<
    YieldProjection,
>)
    requires
        platform.wf(),
    ensures
        platform@.valuation_rejection(holding_id@) matches Some(e) ==> result == Err::<
            YieldProjection,
            BitcoinUSTBillsError,
        >(e),
        platform@.valuation_rejection(holding_id@) is None ==> (result matches Ok(expected)
            && expected@ == projection(
            holding_id@,
            platform@.holding(holding_id@),
            platform@.bill_of(holding_id@),
            now,
        )),
{
    let holding = match platform.holdings.get(holding_id.as_str()) {
        Ok(holding) => holding,
        Err(e) => {
            return Err(BitcoinUSTBillsError::HoldingNotFound);
        },
    };
    let ustbill = match platform.ustbills.get(holding.ustbill_id.as_str()) {
        Ok(ustbill) => ustbill,
        Err(e) => {
            return Err(BitcoinUSTBillsError::USTBillNotFound);
        },
    };
    let current_value = holding.current_value;
    let days_to_maturity = ustbill.days_to_maturity(now);
    let annual_yield_rate_bps = ustbill.annual_yield_bps;
    let projected_yield = prorate(current_value as u128, annual_yield_rate_bps, days_to_maturity);
    let yield_bps = ratio(projected_yield, current_value);
    Ok(
        YieldProjection {
            holding_id,
            current_value,
            projected_yield,
            yield_bps,
            days_to_maturity,
            annual_yield_rate_bps,
        },
    )
}

} // verus!
