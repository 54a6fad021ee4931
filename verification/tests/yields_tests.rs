use ustbills::errors::BitcoinUSTBillsError;
use ustbills::guard::Guard;
use ustbills::money::{prorate, ratio, share};
use ustbills::platform::Platform;
use ustbills::principal::Principal;
use ustbills::stable::StableMemory;
use ustbills::types::{
    HoldingStatus, TokenHolding, USTBill, USTBillStatus, YieldOption, YieldProjection,
};
use ustbills::yields::{calculate_current_value, calculate_maturity_yield, get_yield_projection};

const NOW: u64 = 1_700_000_000;
const DAY: u64 = 86_400;

fn bill(id: &str) -> USTBill {
    USTBill {
        id: id.to_string(),
        cusip: "912796RF5".to_string(),
        face_value: 100_000,
        purchase_price: 95_000,
        maturity_date: NOW + 90 * DAY,
        annual_yield_bps: 526,
        total_tokens: 1000,
        tokens_sold: 10,
        status: USTBillStatus::Active,
        created_at: NOW,
        updated_at: NOW,
        issuer: "US Treasury".to_string(),
        bill_type: "13-week".to_string(),
    }
}

fn holding(id: &str, ustbill_id: &str, price: u64) -> TokenHolding {
    TokenHolding {
        id: id.to_string(),
        user_principal: Principal::from_slice(&[1]).unwrap(),
        ustbill_id: ustbill_id.to_string(),
        tokens_owned: 10,
        purchase_price_per_token: price,
        purchase_date: NOW,
        yield_option: YieldOption::Maturity,
        status: HoldingStatus::Active,
        current_value: 10 * price,
        projected_yield: 0,
    }
}

fn platform() -> Platform {
    let mut platform = Platform::install(StableMemory::new(), Guard::new());
    platform.ustbills.insert(bill("b")).unwrap();
    platform.holdings.insert(holding("h", "b", 95)).unwrap();
    platform.holdings.insert(holding("dear", "b", 120)).unwrap();
    platform.holdings.insert(holding("lost", "nowhere", 95)).unwrap();
    platform.holdings.insert(holding("free", "b", 0)).unwrap();
    platform
}

#[test]
fn accrued_yield_is_rounded_down() {
    let h = holding("h", "b", 95);
    // 950 * 526 * 30 / 3650000 = 4.1
    assert_eq!(h.calculate_current_yield(526, 30), 4);
    assert_eq!(h.calculate_current_yield(526, 0), 0);
    assert_eq!(h.calculate_current_yield(0, 30), 0);
    assert_eq!(h.calculate_current_yield(10_000, 365), 950);
    assert!(h.is_active());
    let sold = TokenHolding { status: HoldingStatus::Sold, ..holding("h", "b", 95) };
    assert!(!sold.is_active());
    let huge = TokenHolding { tokens_owned: u64::MAX, ..holding("h", "b", u64::MAX) };
    assert_eq!(huge.calculate_current_yield(10_000, 365), u64::MAX);
}

#[test]
fn shares_and_ratios_are_rounded_down() {
    assert_eq!(share(950, 50), 4);
    assert_eq!(prorate(950, 526, 90), 12);
    assert_eq!(prorate(u128::MAX, 1, 1), u64::MAX);
    assert_eq!(prorate(u128::MAX, 0, 1), 0);
    assert_eq!(prorate(3_650_000, 1, 1), 1);
    assert_eq!(prorate(3_649_999, 1, 1), 0);
    assert_eq!(ratio(12, 950), 126);
    assert_eq!(ratio(50, 200), 2500);
    assert_eq!(ratio(0, 100), 0);
    assert_eq!(ratio(100, 0), 0);
    assert_eq!(ratio(u64::MAX, 1), u64::MAX);
}

#[test]
fn value_of_a_holding_grows_with_the_days_held() {
    let platform = platform();
    assert_eq!(calculate_current_value(&platform, "h", NOW), Ok(950));
    assert_eq!(calculate_current_value(&platform, "h", NOW + 30 * DAY), Ok(954));
    assert_eq!(calculate_current_value(&platform, "h", NOW + 30 * DAY - 1), Ok(953));
    assert_eq!(
        calculate_current_value(&platform, "none", NOW),
        Err(BitcoinUSTBillsError::HoldingNotFound)
    );
    assert_eq!(
        calculate_current_value(&platform, "lost", NOW),
        Err(BitcoinUSTBillsError::USTBillNotFound)
    );
}

#[test]
fn yield_at_maturity_is_face_value_less_what_was_paid() {
    let platform = platform();
    assert_eq!(
        calculate_maturity_yield(&platform, "h", NOW + 90 * DAY - 1),
        Err(BitcoinUSTBillsError::MaturityDatePassed)
    );
    // 100000 * 10 / 1000 - 10 * 95 = 50
    assert_eq!(calculate_maturity_yield(&platform, "h", NOW + 90 * DAY), Ok(50));
    assert_eq!(calculate_maturity_yield(&platform, "h", u64::MAX), Ok(50));
    // bought above par: a loss
    assert_eq!(calculate_maturity_yield(&platform, "dear", NOW + 90 * DAY), Ok(-200));
    assert_eq!(calculate_maturity_yield(&platform, "free", NOW + 90 * DAY), Ok(1000));
    assert_eq!(
        calculate_maturity_yield(&platform, "none", NOW + 90 * DAY),
        Err(BitcoinUSTBillsError::HoldingNotFound)
    );
    assert_eq!(
        calculate_maturity_yield(&platform, "lost", NOW + 90 * DAY),
        Err(BitcoinUSTBillsError::USTBillNotFound)
    );
}

#[test]
fn projection_reads_and_does_not_write() {
    let platform = platform();
    assert_eq!(
        get_yield_projection(&platform, "h".to_string(), NOW),
        Ok(YieldProjection {
            holding_id: "h".to_string(),
            current_value: 950,
            projected_yield: 12,
            yield_bps: 126,
            days_to_maturity: 90,
            annual_yield_rate_bps: 526,
        })
    );
    assert_eq!(
        get_yield_projection(&platform, "free".to_string(), NOW),
        Ok(YieldProjection {
            holding_id: "free".to_string(),
            current_value: 0,
            projected_yield: 0,
            yield_bps: 0,
            days_to_maturity: 90,
            annual_yield_rate_bps: 526,
        })
    );
    assert_eq!(
        get_yield_projection(&platform, "h".to_string(), NOW + 91 * DAY).unwrap().projected_yield,
        0
    );
    assert_eq!(
        get_yield_projection(&platform, "none".to_string(), NOW),
        Err(BitcoinUSTBillsError::HoldingNotFound)
    );
    assert_eq!(
        get_yield_projection(&platform, "lost".to_string(), NOW),
        Err(BitcoinUSTBillsError::USTBillNotFound)
    );
    assert_eq!(platform.holdings.get("h"), Ok(holding("h", "b", 95)));
    assert_eq!(platform.ustbills.get("b"), Ok(bill("b")));
}
