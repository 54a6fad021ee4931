use ustbills::accounts::{register_user, update_kyc_status};
use ustbills::admin::{get_trading_metrics, update_platform_config};
use ustbills::bills::{create_ustbill, get_ustbill};
use ustbills::errors::BitcoinUSTBillsError;
use ustbills::guard::{get_initial_principal, Guard};
use ustbills::platform::Platform;
use ustbills::principal::Principal;
use ustbills::stable::StableMemory;
use ustbills::trading::{
    buy_ustbill_tokens, calculate_projected_yield, calculate_purchase_cost,
    calculate_purchase_cost_internal, deposit_funds, purchase_stays_in_range, withdraw_funds,
};
use ustbills::utils::calculate_fees;
use ustbills::types::{
    HoldingStatus, KYCStatus, PlatformConfig, TokenHolding, TradingMetrics, Transaction,
    TransactionStatus, TransactionType, USTBill, USTBillCreateRequest, USTBillStatus,
    UserRegistrationRequest, YieldOption,
};

const NOW: u64 = 1_700_000_000;
const DAY: u64 = 86_400;

fn buyer() -> Principal {
    Principal::from_slice(&[1, 2, 3, 4]).unwrap()
}

fn other_buyer() -> Principal {
    Principal::from_slice(&[9, 9, 9]).unwrap()
}

fn install() -> Platform {
    Platform::install(StableMemory::new(), Guard::new())
}

fn offer(platform: &mut Platform, purchase_price: u64, total_tokens: u64) -> USTBill {
    let data = USTBillCreateRequest {
        cusip: "912796RF5".to_string(),
        face_value: 100_000,
        purchase_price,
        maturity_date: NOW + 90 * DAY,
        annual_yield_bps: 526,
        total_tokens,
        issuer: "US Treasury".to_string(),
        bill_type: "13-week".to_string(),
    };
    create_ustbill(platform, &get_initial_principal(), data, NOW).unwrap()
}

fn open_account(platform: &mut Platform, owner: &Principal, balance: u64) {
    let data = UserRegistrationRequest {
        email: "buyer@example.com".to_string(),
        phone_number: None,
        country: "US".to_string(),
    };
    register_user(platform, owner, data, NOW).unwrap();
    update_kyc_status(platform, &get_initial_principal(), owner, KYCStatus::Verified, NOW).unwrap();
    if balance > 0 {
        deposit_funds(platform, owner, balance, NOW).unwrap();
    }
}

fn settings(fee_bps: u64) -> PlatformConfig {
    PlatformConfig { platform_fee_bps: fee_bps, ..PlatformConfig::default() }
}

#[test]
fn purchase_is_determined_by_bill_tokens_and_fee() {
    let mut platform = install();
    let bill = offer(&mut platform, 95_000, 1000);
    assert_eq!(bill.id, "0");
    open_account(&mut platform, &buyer(), 1000);
    assert_eq!(platform.config.get(), settings(50));

    let holding = buy_ustbill_tokens(&mut platform, &buyer(), "0".to_string(), 10, NOW).unwrap();

    assert_eq!(
        holding,
        TokenHolding {
            id: "2".to_string(),
            user_principal: buyer(),
            ustbill_id: "0".to_string(),
            tokens_owned: 10,
            purchase_price_per_token: 95,
            purchase_date: NOW,
            yield_option: YieldOption::Maturity,
            status: HoldingStatus::Active,
            current_value: 950,
            projected_yield: 12,
        }
    );
    assert_eq!(platform.holdings.get("2"), Ok(holding));
    let account = platform.users.get(&buyer()).unwrap();
    assert_eq!(account.wallet_balance, 46);
    assert_eq!(account.total_invested, 950);
    let bill = get_ustbill(&platform, "0").unwrap();
    assert_eq!(bill.tokens_sold, 10);
    assert_eq!(bill.status, USTBillStatus::Active);
    assert_eq!(bill.updated_at, NOW);
    assert_eq!(
        platform.transactions.get("3"),
        Ok(Transaction {
            id: "3".to_string(),
            user_principal: buyer(),
            transaction_type: TransactionType::Purchase,
            amount: 950,
            ustbill_id: Some("0".to_string()),
            holding_id: Some("2".to_string()),
            timestamp: NOW,
            status: TransactionStatus::Completed,
            fees: 4,
            description: "Purchase of 10 tokens from UST Bill 0".to_string(),
        })
    );
    assert_eq!(
        platform.transactions.get("4"),
        Ok(Transaction {
            id: "4".to_string(),
            user_principal: buyer(),
            transaction_type: TransactionType::Fee,
            amount: 4,
            ustbill_id: Some("0".to_string()),
            holding_id: Some("2".to_string()),
            timestamp: NOW,
            status: TransactionStatus::Completed,
            fees: 0,
            description: "Platform fee".to_string(),
        })
    );
    assert_eq!(platform.transactions.count(), 3);
    assert_eq!(platform.id_counter.current(), 5);
    assert_eq!(
        get_trading_metrics(&platform),
        TradingMetrics {
            total_volume: 950,
            total_transactions: 1,
            average_price: 95,
            highest_price: 95,
            lowest_price: 95,
            last_updated: NOW,
        }
    );
}

#[test]
fn cost_is_the_floored_price_of_a_token_times_the_tokens() {
    let mut platform = install();
    let bill = offer(&mut platform, 95_999, 1000);
    assert_eq!(calculate_purchase_cost_internal(&bill, 10), Ok(950));
    assert_eq!(calculate_purchase_cost_internal(&bill, 1000), Ok(95_000));
    assert_eq!(
        calculate_purchase_cost_internal(&bill, 0),
        Err(BitcoinUSTBillsError::InvalidTokenAmount)
    );
    assert_eq!(calculate_purchase_cost(&platform, "0", 7), Ok(665));
    assert_eq!(
        calculate_purchase_cost(&platform, "0", 0),
        Err(BitcoinUSTBillsError::InvalidTokenAmount)
    );
    assert_eq!(
        calculate_purchase_cost(&platform, "1", 7),
        Err(BitcoinUSTBillsError::USTBillNotFound)
    );
    assert_eq!(calculate_fees(950, 50), 4);
    assert_eq!(calculate_projected_yield(&bill, 950, NOW), 12);
    assert_eq!(calculate_projected_yield(&bill, 950, NOW + 90 * DAY), 0);
    assert_eq!(calculate_projected_yield(&bill, 100_000, NOW + 1), 1282);
}

#[test]
fn purchase_below_the_minimum_changes_nothing() {
    let mut platform = install();
    offer(&mut platform, 95_000, 1000);
    open_account(&mut platform, &buyer(), 1000);
    let metrics = get_trading_metrics(&platform);

    let result = buy_ustbill_tokens(&mut platform, &buyer(), "0".to_string(), 1, NOW + 5);

    assert_eq!(result, Err(BitcoinUSTBillsError::MinimumInvestmentNotMet));
    assert_eq!(platform.users.get(&buyer()).unwrap().wallet_balance, 1000);
    assert_eq!(platform.users.get(&buyer()).unwrap().total_invested, 0);
    assert_eq!(get_ustbill(&platform, "0").unwrap().tokens_sold, 0);
    assert_eq!(platform.holdings.count(), 0);
    assert_eq!(platform.transactions.count(), 1);
    assert_eq!(platform.id_counter.current(), 2);
    assert_eq!(get_trading_metrics(&platform), metrics);
}

#[test]
fn purchase_of_the_last_tokens_sells_the_bill_out() {
    let mut platform = install();
    offer(&mut platform, 1000, 10);
    offer(&mut platform, 1000, 10);
    open_account(&mut platform, &buyer(), 5000);

    let first = buy_ustbill_tokens(&mut platform, &buyer(), "0".to_string(), 4, NOW);
    assert!(first.is_ok());
    assert_eq!(get_ustbill(&platform, "0").unwrap().status, USTBillStatus::Active);

    let last = buy_ustbill_tokens(&mut platform, &buyer(), "0".to_string(), 6, NOW);
    assert!(last.is_ok());
    let bill = get_ustbill(&platform, "0").unwrap();
    assert_eq!(bill.status, USTBillStatus::SoldOut);
    assert_eq!(bill.tokens_sold, 10);
    assert_eq!(bill.available_tokens(), 0);

    let again = buy_ustbill_tokens(&mut platform, &buyer(), "0".to_string(), 1, NOW);
    assert_eq!(again, Err(BitcoinUSTBillsError::USTBillSoldOut));
    let elsewhere = buy_ustbill_tokens(&mut platform, &buyer(), "1".to_string(), 1, NOW);
    assert!(elsewhere.is_ok());
}

#[test]
fn tokens_sold_are_the_tokens_of_the_active_holdings() {
    let mut platform = install();
    offer(&mut platform, 100_000, 100);
    offer(&mut platform, 50_000, 50);
    open_account(&mut platform, &buyer(), 500_000);
    open_account(&mut platform, &other_buyer(), 500_000);
    buy_ustbill_tokens(&mut platform, &buyer(), "0".to_string(), 3, NOW).unwrap();
    buy_ustbill_tokens(&mut platform, &other_buyer(), "0".to_string(), 5, NOW).unwrap();
    buy_ustbill_tokens(&mut platform, &buyer(), "1".to_string(), 7, NOW).unwrap();
    buy_ustbill_tokens(&mut platform, &buyer(), "0".to_string(), 11, NOW).unwrap();
    for bill in platform.ustbills.get_all() {
        let held: u64 = platform
            .holdings
            .get_by_ustbill(&bill.id)
            .iter()
            .filter(|h| h.status == HoldingStatus::Active)
            .map(|h| h.tokens_owned)
            .sum();
        assert_eq!(bill.tokens_sold, held);
    }
    assert_eq!(get_ustbill(&platform, "0").unwrap().tokens_sold, 19);
    assert_eq!(get_ustbill(&platform, "1").unwrap().tokens_sold, 7);
    assert_eq!(platform.holdings.get_by_user(&buyer()).len(), 3);
    assert_eq!(platform.holdings.get_active().len(), 4);
}

#[test]
fn refusals_come_in_the_order_of_the_tests() {
    let mut platform = install();
    offer(&mut platform, 95_000, 1000);

    // no account
    assert_eq!(
        buy_ustbill_tokens(&mut platform, &buyer(), "0".to_string(), 10, NOW),
        Err(BitcoinUSTBillsError::TradingNotAllowed)
    );
    // an account that is not verified, and no such bill
    let data = UserRegistrationRequest {
        email: "buyer@example.com".to_string(),
        phone_number: Some("+1 555 123 4567".to_string()),
        country: "US".to_string(),
    };
    register_user(&mut platform, &buyer(), data, NOW).unwrap();
    assert_eq!(
        buy_ustbill_tokens(&mut platform, &buyer(), "7".to_string(), 10, NOW),
        Err(BitcoinUSTBillsError::TradingNotAllowed)
    );
    update_kyc_status(&mut platform, &get_initial_principal(), &buyer(), KYCStatus::Verified, NOW)
        .unwrap();
    // no such bill
    assert_eq!(
        buy_ustbill_tokens(&mut platform, &buyer(), "7".to_string(), 10, NOW),
        Err(BitcoinUSTBillsError::USTBillSoldOut)
    );
    // more tokens than there are, even where none is asked for elsewhere
    assert_eq!(
        buy_ustbill_tokens(&mut platform, &buyer(), "0".to_string(), 1001, NOW),
        Err(BitcoinUSTBillsError::InsufficientTokens)
    );
    assert_eq!(
        buy_ustbill_tokens(&mut platform, &buyer(), "0".to_string(), 0, NOW),
        Err(BitcoinUSTBillsError::InvalidTokenAmount)
    );
    assert_eq!(
        buy_ustbill_tokens(&mut platform, &buyer(), "0".to_string(), 1, NOW),
        Err(BitcoinUSTBillsError::MinimumInvestmentNotMet)
    );
    update_platform_config(
        &mut platform,
        &get_initial_principal(),
        PlatformConfig { maximum_investment: 900, ..PlatformConfig::default() },
    )
    .unwrap();
    assert_eq!(
        buy_ustbill_tokens(&mut platform, &buyer(), "0".to_string(), 10, NOW),
        Err(BitcoinUSTBillsError::MaximumInvestmentExceeded)
    );
    update_platform_config(&mut platform, &get_initial_principal(), PlatformConfig::default())
        .unwrap();
    assert_eq!(
        buy_ustbill_tokens(&mut platform, &buyer(), "0".to_string(), 10, NOW),
        Err(BitcoinUSTBillsError::InsufficientFunds)
    );
    // the wallet covers the cost but not the fee
    deposit_funds(&mut platform, &buyer(), 953, NOW).unwrap();
    assert_eq!(
        buy_ustbill_tokens(&mut platform, &buyer(), "0".to_string(), 10, NOW),
        Err(BitcoinUSTBillsError::InsufficientFunds)
    );
    deposit_funds(&mut platform, &buyer(), 1, NOW).unwrap();
    let holding = buy_ustbill_tokens(&mut platform, &buyer(), "0".to_string(), 10, NOW).unwrap();
    assert_eq!(holding.current_value, 950);
    assert_eq!(platform.users.get(&buyer()).unwrap().wallet_balance, 0);
}

#[test]
fn accounts_that_are_not_active_do_not_trade() {
    let mut platform = install();
    offer(&mut platform, 95_000, 1000);
    open_account(&mut platform, &buyer(), 1000);
    let mut account = platform.users.get(&buyer()).unwrap();
    account.is_active = false;
    platform.users.update(account).unwrap();
    assert_eq!(
        buy_ustbill_tokens(&mut platform, &buyer(), "0".to_string(), 10, NOW),
        Err(BitcoinUSTBillsError::TradingNotAllowed)
    );
}

#[test]
fn bills_that_are_not_active_are_not_sold() {
    let mut platform = install();
    let mut bill = offer(&mut platform, 95_000, 1000);
    open_account(&mut platform, &buyer(), 1000);
    bill.status = USTBillStatus::Cancelled;
    platform.ustbills.update(bill).unwrap();
    assert_eq!(
        buy_ustbill_tokens(&mut platform, &buyer(), "0".to_string(), 10, NOW),
        Err(BitcoinUSTBillsError::USTBillSoldOut)
    );
}

#[test]
fn metrics_move_with_every_purchase() {
    let mut platform = install();
    offer(&mut platform, 100_000, 1000);
    offer(&mut platform, 40_000, 100);
    open_account(&mut platform, &buyer(), 1_000_000);
    update_platform_config(&mut platform, &get_initial_principal(), settings(0)).unwrap();
    buy_ustbill_tokens(&mut platform, &buyer(), "0".to_string(), 5, NOW).unwrap();
    buy_ustbill_tokens(&mut platform, &buyer(), "1".to_string(), 1, NOW + 1).unwrap();
    buy_ustbill_tokens(&mut platform, &buyer(), "0".to_string(), 2, NOW + 2).unwrap();
    // volumes 500, 400, 200; prices 100, 400, 100
    // averages: 100, (100 * 500 + 400) / 501 = 100, (100 * 900 + 100) / 901 = 100
    assert_eq!(
        get_trading_metrics(&platform),
        TradingMetrics {
            total_volume: 1100,
            total_transactions: 3,
            average_price: 100,
            highest_price: 400,
            lowest_price: 100,
            last_updated: NOW + 2,
        }
    );
    let seeded = TradingMetrics {
        total_volume: 3,
        total_transactions: 1,
        average_price: 90,
        highest_price: 95,
        lowest_price: 95,
        last_updated: 0,
    };
    assert_eq!(
        seeded.record_price(110, 7),
        TradingMetrics {
            total_volume: 3,
            total_transactions: 1,
            average_price: 95,
            highest_price: 110,
            lowest_price: 95,
            last_updated: 7,
        }
    );
    assert_eq!(seeded.record_price(10, 7).lowest_price, 10);
    assert_eq!(seeded.record_volume(7, 9).total_volume, 10);
    assert_eq!(seeded.record_volume(7, 9).total_transactions, 2);
    let full = TradingMetrics { total_volume: u64::MAX, average_price: u64::MAX, ..seeded };
    assert_eq!(full.record_price(u64::MAX, 1).average_price, u64::MAX);
    assert_eq!(full.record_price(0, 1).average_price, u64::MAX - 1);
    let heavy = TradingMetrics { total_volume: 3, average_price: 100, ..seeded };
    assert_eq!(heavy.record_price(200, 1).average_price, 125);
}

#[test]
fn purchase_of_a_bill_with_a_long_identifier_is_recorded() {
    let mut platform = install();
    let mut bill = offer(&mut platform, 95_000, 1000);
    let long_id = "b".repeat(5000);
    bill.id = long_id.clone();
    platform.ustbills.insert(bill).unwrap();
    open_account(&mut platform, &buyer(), 1000);
    assert!(purchase_stays_in_range(&platform, &buyer(), &long_id, 10));
    let holding = buy_ustbill_tokens(&mut platform, &buyer(), long_id.clone(), 10, NOW).unwrap();
    assert_eq!(holding.ustbill_id, long_id);
    let payment = platform.transactions.get("3").unwrap();
    assert_eq!(payment.description, format!("Purchase of 10 tokens from UST Bill {}", long_id));
    assert_eq!(platform.ustbills.get(&long_id).unwrap().tokens_sold, 10);
}

#[test]
fn average_price_is_weighed_with_the_volume_before_the_purchase() {
    let mut platform = install();
    offer(&mut platform, 100_000, 1000);
    open_account(&mut platform, &buyer(), 1_000_000);
    buy_ustbill_tokens(&mut platform, &buyer(), "0".to_string(), 3, NOW).unwrap();
    assert_eq!(get_trading_metrics(&platform).average_price, 100);
    assert_eq!(get_trading_metrics(&platform).total_volume, 300);
    let mut metrics = get_trading_metrics(&platform);
    metrics.total_volume = 3;
    platform.trading_metrics.update(metrics).unwrap();
    offer(&mut platform, 200_000, 1000);
    buy_ustbill_tokens(&mut platform, &buyer(), "5".to_string(), 1, NOW).unwrap();
    // (100 * 3 + 200) / 4 = 125
    assert_eq!(get_trading_metrics(&platform).average_price, 125);
    assert_eq!(get_trading_metrics(&platform).total_volume, 203);
}

#[test]
fn deposits_credit_the_wallet_and_are_recorded() {
    let mut platform = install();
    assert_eq!(
        deposit_funds(&mut platform, &buyer(), 100, NOW),
        Err(BitcoinUSTBillsError::UserNotFound)
    );
    open_account(&mut platform, &buyer(), 0);
    assert_eq!(
        deposit_funds(&mut platform, &buyer(), 0, NOW),
        Err(BitcoinUSTBillsError::InvalidAmount)
    );
    assert_eq!(platform.transactions.count(), 0);
    assert_eq!(deposit_funds(&mut platform, &buyer(), 100, NOW + 3), Ok(100));
    assert_eq!(deposit_funds(&mut platform, &buyer(), 23, NOW + 4), Ok(123));
    let account = platform.users.get(&buyer()).unwrap();
    assert_eq!(account.wallet_balance, 123);
    assert_eq!(account.updated_at, NOW + 4);
    assert_eq!(
        platform.transactions.get("0"),
        Ok(Transaction {
            id: "0".to_string(),
            user_principal: buyer(),
            transaction_type: TransactionType::Deposit,
            amount: 100,
            ustbill_id: None,
            holding_id: None,
            timestamp: NOW + 3,
            status: TransactionStatus::Completed,
            fees: 0,
            description: "Wallet deposit".to_string(),
        })
    );
    assert_eq!(platform.transactions.get_by_type(&TransactionType::Deposit).len(), 2);
    assert_eq!(platform.transactions.get_by_user(&buyer()).len(), 2);
    assert_eq!(platform.transactions.get_by_user(&other_buyer()).len(), 0);
}

#[test]
fn withdrawals_never_take_more_than_the_wallet_holds() {
    let mut platform = install();
    assert_eq!(
        withdraw_funds(&mut platform, &buyer(), 100, NOW),
        Err(BitcoinUSTBillsError::UserNotFound)
    );
    open_account(&mut platform, &buyer(), 100);
    assert_eq!(
        withdraw_funds(&mut platform, &buyer(), 0, NOW),
        Err(BitcoinUSTBillsError::InvalidAmount)
    );
    assert_eq!(
        withdraw_funds(&mut platform, &buyer(), 101, NOW),
        Err(BitcoinUSTBillsError::InsufficientFunds)
    );
    assert_eq!(platform.users.get(&buyer()).unwrap().wallet_balance, 100);
    assert_eq!(withdraw_funds(&mut platform, &buyer(), 40, NOW), Ok(60));
    assert_eq!(withdraw_funds(&mut platform, &buyer(), 60, NOW), Ok(0));
    assert_eq!(
        withdraw_funds(&mut platform, &buyer(), 1, NOW),
        Err(BitcoinUSTBillsError::InsufficientFunds)
    );
    let record = platform.transactions.get("2").unwrap();
    assert_eq!(record.transaction_type, TransactionType::Withdrawal);
    assert_eq!(record.amount, 60);
    assert_eq!(record.description, "Wallet withdrawal");
    assert_eq!(platform.transactions.count(), 3);
}
