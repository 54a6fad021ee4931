use ustbills::admin::{
    admin_add_broker_purchase_record, fetch_treasury_rates, get_all_verified_broker_purchases,
    get_platform_config, get_storage_stats, update_platform_config,
};
use ustbills::errors::BitcoinUSTBillsError;
use ustbills::guard::{get_initial_principal, Guard};
use ustbills::platform::Platform;
use ustbills::principal::Principal;
use ustbills::stable::StableMemory;
use ustbills::storage::{
    generate_id, HoldingStorage, IdCounter, PlatformConfigStorage, TradingMetricsStorage,
    TransactionStorage, TreasuryRateStorage, USTBillStorage, UserStorage,
    VerifiedPurchasesLedgerStorage,
};
use ustbills::types::{
    HoldingStatus, KYCStatus, PlatformConfig, TokenHolding, TradingMetrics, Transaction,
    TransactionStatus, TransactionType, TreasuryRate, USTBill, USTBillStatus, User,
    VerifiedBrokerPurchase, YieldOption,
};

fn bill(id: &str, status: USTBillStatus) -> USTBill {
    USTBill {
        id: id.to_string(),
        cusip: "912796RF5".to_string(),
        face_value: 100_000,
        purchase_price: 95_000,
        maturity_date: 1_800_000_000,
        annual_yield_bps: 526,
        total_tokens: 1000,
        tokens_sold: 0,
        status,
        created_at: 1,
        updated_at: 2,
        issuer: "US Treasury".to_string(),
        bill_type: "13-week".to_string(),
    }
}

fn owner(n: u8) -> Principal {
    Principal::from_slice(&[n, n, n]).unwrap()
}

fn account(n: u8) -> User {
    User {
        principal: owner(n),
        email: format!("user{}@example.com", n),
        kyc_status: KYCStatus::Pending,
        wallet_balance: 0,
        total_invested: 0,
        total_yield_earned: 0,
        created_at: 1,
        updated_at: 1,
        is_active: true,
        phone_number: None,
        country: "US".to_string(),
    }
}

fn holding(id: &str, n: u8, ustbill_id: &str, status: HoldingStatus) -> TokenHolding {
    TokenHolding {
        id: id.to_string(),
        user_principal: owner(n),
        ustbill_id: ustbill_id.to_string(),
        tokens_owned: 5,
        purchase_price_per_token: 95,
        purchase_date: 10,
        yield_option: YieldOption::Flexible,
        status,
        current_value: 475,
        projected_yield: 6,
    }
}

fn movement(id: &str, n: u8, kind: TransactionType) -> Transaction {
    Transaction {
        id: id.to_string(),
        user_principal: owner(n),
        transaction_type: kind,
        amount: 5,
        ustbill_id: None,
        holding_id: Some("h".to_string()),
        timestamp: 10,
        status: TransactionStatus::Pending,
        fees: 1,
        description: "a movement".to_string(),
    }
}

fn rate(cusip: &str, rate_date: &str, rate_bps: u64) -> TreasuryRate {
    TreasuryRate {
        record_date: "2024-01-01".to_string(),
        security_type: "T-Bill".to_string(),
        security_desc: "13-Week Treasury Bill".to_string(),
        rate_date: rate_date.to_string(),
        rate_bps,
        cusip: cusip.to_string(),
    }
}

fn broker_purchase(n: u64) -> VerifiedBrokerPurchase {
    VerifiedBrokerPurchase {
        amount: n,
        price: 2 * n,
        timestamp: 3 * n,
        broker_txn_id: format!("txn-{}", n),
        ustbill_type: "4-week".to_string(),
    }
}

#[test]
fn bills_are_stored_read_updated_and_removed() {
    let mut bills = USTBillStorage::create(StableMemory::new());
    assert_eq!(bills.count(), 0);
    assert_eq!(bills.get("a"), Err(BitcoinUSTBillsError::USTBillNotFound));
    assert_eq!(bills.insert(bill("a", USTBillStatus::Active)), Ok(()));
    assert_eq!(bills.get("a"), Ok(bill("a", USTBillStatus::Active)));
    assert_eq!(bills.count(), 1);
    // insert replaces
    assert_eq!(bills.insert(bill("a", USTBillStatus::Matured)), Ok(()));
    assert_eq!(bills.get("a"), Ok(bill("a", USTBillStatus::Matured)));
    assert_eq!(bills.count(), 1);
    // update does not add
    assert_eq!(
        bills.update(bill("b", USTBillStatus::Active)),
        Err(BitcoinUSTBillsError::USTBillNotFound)
    );
    assert_eq!(bills.count(), 1);
    assert_eq!(bills.update(bill("a", USTBillStatus::Cancelled)), Ok(()));
    assert_eq!(bills.get("a").unwrap().status, USTBillStatus::Cancelled);
    assert_eq!(bills.remove("b"), Err(BitcoinUSTBillsError::USTBillNotFound));
    assert_eq!(bills.remove("a"), Ok(bill("a", USTBillStatus::Cancelled)));
    assert_eq!(bills.get("a"), Err(BitcoinUSTBillsError::USTBillNotFound));
    assert_eq!(bills.count(), 0);
}

#[test]
fn bills_are_listed_in_the_order_of_their_keys() {
    let mut bills = USTBillStorage::create(StableMemory::new());
    for id in ["2", "10", "1", "b", "", "a", "1a"] {
        bills.insert(bill(id, USTBillStatus::Active)).unwrap();
    }
    bills.insert(bill("10", USTBillStatus::SoldOut)).unwrap();
    bills.insert(bill("a", USTBillStatus::Matured)).unwrap();
    let ids: Vec<String> = bills.get_all().into_iter().map(|b| b.id).collect();
    assert_eq!(ids, vec!["", "1", "10", "1a", "2", "a", "b"]);
    let active: Vec<String> = bills.get_active().into_iter().map(|b| b.id).collect();
    assert_eq!(active, vec!["", "1", "1a", "2", "b"]);
    assert_eq!(bills.count(), 7);
}

#[test]
fn records_with_long_keys_and_texts_are_stored() {
    let mut bills = USTBillStorage::create(StableMemory::new());
    let long_id = "x".repeat(100_000);
    assert_eq!(bills.insert(bill(&long_id, USTBillStatus::Active)), Ok(()));
    assert_eq!(bills.get(&long_id).unwrap().id, long_id);
    let mut with_long_text = bill(&long_id, USTBillStatus::Active);
    with_long_text.issuer = "y".repeat(100_000);
    assert_eq!(bills.update(with_long_text), Ok(()));
    assert_eq!(bills.get(&long_id).unwrap().issuer.len(), 100_000);
    assert_eq!(bills.count(), 1);
    assert_eq!(bills.get(&"x".repeat(99_999)), Err(BitcoinUSTBillsError::USTBillNotFound));
}

#[test]
fn accounts_are_stored_once_for_each_owner() {
    let mut users = UserStorage::create(StableMemory::new());
    assert_eq!(users.get(&owner(1)), Err(BitcoinUSTBillsError::UserNotFound));
    assert_eq!(users.update(account(1)), Err(BitcoinUSTBillsError::UserNotFound));
    assert_eq!(users.insert(account(1)), Ok(()));
    assert_eq!(users.insert(account(1)), Err(BitcoinUSTBillsError::UserAlreadyExists));
    assert_eq!(users.insert(account(2)), Ok(()));
    assert_eq!(users.insert(User { principal: Principal::anonymous(), ..account(3) }), Ok(()));
    let mut changed = account(1);
    changed.wallet_balance = 77;
    changed.phone_number = Some("+15551234567".to_string());
    assert_eq!(users.update(changed), Ok(()));
    assert_eq!(users.get(&owner(1)).unwrap().wallet_balance, 77);
    assert_eq!(users.get(&owner(1)).unwrap().phone_number, Some("+15551234567".to_string()));
    assert_eq!(users.count(), 3);
    let owners: Vec<Principal> = users.get_all().into_iter().map(|u| u.principal).collect();
    assert_eq!(owners, vec![Principal::anonymous(), owner(1), owner(2)]);
    assert_eq!(users.remove(&owner(2)).unwrap().email, "user2@example.com");
    assert_eq!(users.remove(&owner(2)), Err(BitcoinUSTBillsError::UserNotFound));
    assert_eq!(users.count(), 2);
}

#[test]
fn holdings_are_found_by_owner_bill_and_status() {
    let mut holdings = HoldingStorage::create(StableMemory::new());
    holdings.insert(holding("3", 1, "a", HoldingStatus::Active)).unwrap();
    holdings.insert(holding("1", 2, "a", HoldingStatus::Sold)).unwrap();
    holdings.insert(holding("2", 1, "b", HoldingStatus::Active)).unwrap();
    holdings.insert(holding("4", 1, "a", HoldingStatus::Matured)).unwrap();
    let ids = |found: Vec<TokenHolding>| -> Vec<String> { found.into_iter().map(|h| h.id).collect() };
    assert_eq!(ids(holdings.get_by_user(&owner(1))), vec!["2", "3", "4"]);
    assert_eq!(ids(holdings.get_by_user(&owner(3))), Vec::<String>::new());
    assert_eq!(ids(holdings.get_by_ustbill("a")), vec!["1", "3", "4"]);
    assert_eq!(ids(holdings.get_by_ustbill("c")), Vec::<String>::new());
    assert_eq!(ids(holdings.get_active()), vec!["2", "3"]);
    assert_eq!(holdings.count(), 4);
    assert_eq!(holdings.get("5"), Err(BitcoinUSTBillsError::HoldingNotFound));
    assert_eq!(
        holdings.update(holding("5", 1, "a", HoldingStatus::Active)),
        Err(BitcoinUSTBillsError::HoldingNotFound)
    );
    assert_eq!(holdings.update(holding("1", 2, "a", HoldingStatus::Active)), Ok(()));
    assert_eq!(ids(holdings.get_active()), vec!["1", "2", "3"]);
    assert_eq!(holdings.remove("1").unwrap().status, HoldingStatus::Active);
    assert_eq!(holdings.remove("1"), Err(BitcoinUSTBillsError::HoldingNotFound));
}

#[test]
fn transactions_are_found_by_owner_and_kind() {
    let mut transactions = TransactionStorage::create(StableMemory::new());
    transactions.insert(movement("1", 1, TransactionType::Deposit)).unwrap();
    transactions.insert(movement("2", 2, TransactionType::Sale)).unwrap();
    transactions.insert(movement("3", 1, TransactionType::YieldDistribution)).unwrap();
    transactions.insert(movement("0", 1, TransactionType::Sale)).unwrap();
    let ids = |found: Vec<Transaction>| -> Vec<String> { found.into_iter().map(|t| t.id).collect() };
    assert_eq!(ids(transactions.get_by_user(&owner(1))), vec!["0", "1", "3"]);
    assert_eq!(ids(transactions.get_by_type(&TransactionType::Sale)), vec!["0", "2"]);
    assert_eq!(ids(transactions.get_by_type(&TransactionType::Fee)), Vec::<String>::new());
    assert_eq!(transactions.get("2"), Ok(movement("2", 2, TransactionType::Sale)));
    assert_eq!(transactions.get("9"), Err(BitcoinUSTBillsError::TransactionNotFound));
    assert_eq!(
        transactions.update(movement("9", 1, TransactionType::Fee)),
        Err(BitcoinUSTBillsError::TransactionNotFound)
    );
    assert_eq!(transactions.update(movement("2", 2, TransactionType::Fee)), Ok(()));
    assert_eq!(transactions.get("2").unwrap().transaction_type, TransactionType::Fee);
    assert_eq!(transactions.count(), 4);
}

#[test]
fn rates_are_kept_by_security_and_day() {
    let mut rates = TreasuryRateStorage::create(StableMemory::new());
    rates.insert(rate("912796RF5", "2024-01-02", 526)).unwrap();
    rates.insert(rate("912796RF5", "2024-01-01", 525)).unwrap();
    rates.insert(rate("912796AA1", "2024-01-01", 500)).unwrap();
    rates.insert(rate("912796RF5", "2024-01-02", 527)).unwrap();
    let all: Vec<u64> = rates.get_all().into_iter().map(|r| r.rate_bps).collect();
    assert_eq!(all, vec![500, 525, 527]);
    let some: Vec<u64> = rates.get_by_cusip("912796RF5").into_iter().map(|r| r.rate_bps).collect();
    assert_eq!(some, vec![525, 527]);
    assert_eq!(rates.clear(), Ok(()));
    assert_eq!(rates.get_all(), vec![]);
}

#[test]
fn fetched_rates_replace_all_that_were_stored() {
    let mut platform = Platform::install(StableMemory::new(), Guard::new());
    let first = vec![rate("912796RF5", "2024-01-01", 526), rate("912796AA1", "2024-01-01", 500)];
    assert_eq!(fetch_treasury_rates(&mut platform, first.clone()), Ok(first));
    assert_eq!(platform.treasury_rates.get_all().len(), 2);
    let second = vec![rate("912796BB2", "2024-02-01", 510)];
    assert_eq!(fetch_treasury_rates(&mut platform, second.clone()), Ok(second.clone()));
    assert_eq!(platform.treasury_rates.get_all(), second);
    let third = vec![
        rate("912796CC3", "2024-03-01", 1),
        rate(&"x".repeat(2000), "2024-03-01", 2),
        rate("912796CC3", "2024-03-01", 3),
    ];
    assert_eq!(fetch_treasury_rates(&mut platform, third.clone()), Ok(third));
    let stored: Vec<u64> =
        platform.treasury_rates.get_all().into_iter().map(|r| r.rate_bps).collect();
    assert_eq!(stored, vec![3, 2]);
    assert_eq!(fetch_treasury_rates(&mut platform, vec![]), Ok(vec![]));
    assert_eq!(platform.treasury_rates.get_all(), vec![]);
}

#[test]
fn settings_start_with_the_defaults_and_are_replaced_whole() {
    let mut config = PlatformConfigStorage::create(StableMemory::new());
    assert_eq!(
        config.get(),
        PlatformConfig {
            platform_fee_bps: 50,
            minimum_investment: 100,
            maximum_investment: 1_000_000,
            yield_distribution_frequency: 1,
            kyc_expiry_days: 365,
            treasury_api_refresh_interval: 3600,
        }
    );
    let other = PlatformConfig {
        platform_fee_bps: u64::MAX,
        minimum_investment: 0,
        maximum_investment: 1,
        yield_distribution_frequency: 2,
        kyc_expiry_days: 3,
        treasury_api_refresh_interval: 4,
    };
    assert_eq!(config.update(other), Ok(()));
    assert_eq!(config.get(), other);
}

#[test]
fn only_an_administrator_changes_the_settings() {
    let mut platform = Platform::install(StableMemory::new(), Guard::new());
    let other = PlatformConfig { minimum_investment: 5, ..PlatformConfig::default() };
    assert_eq!(
        update_platform_config(&mut platform, &owner(1), other),
        Err(BitcoinUSTBillsError::Unauthorized)
    );
    assert_eq!(get_platform_config(&platform), PlatformConfig::default());
    assert_eq!(update_platform_config(&mut platform, &get_initial_principal(), other), Ok(()));
    assert_eq!(get_platform_config(&platform), other);
}

#[test]
fn metrics_start_at_nothing_and_are_updated() {
    let mut metrics = TradingMetricsStorage::create(StableMemory::new());
    let nothing = TradingMetrics {
        total_volume: 0,
        total_transactions: 0,
        average_price: 0,
        highest_price: 0,
        lowest_price: 0,
        last_updated: 0,
    };
    assert_eq!(metrics.get(), nothing);
    // the first price seeds highest, lowest and average
    assert_eq!(metrics.update_price(95, 5), Ok(()));
    assert_eq!(
        metrics.get(),
        TradingMetrics { average_price: 95, highest_price: 95, lowest_price: 95, last_updated: 5, ..nothing }
    );
    assert_eq!(metrics.update_volume(2, 6), Ok(()));
    assert_eq!(metrics.update_price(101, 7), Ok(()));
    // (95 * 2 + 101) / 3 = 97
    assert_eq!(
        metrics.get(),
        TradingMetrics {
            total_volume: 2,
            total_transactions: 1,
            average_price: 97,
            highest_price: 101,
            lowest_price: 95,
            last_updated: 7,
        }
    );
    assert_eq!(metrics.update(nothing), Ok(()));
    assert_eq!(metrics.get(), nothing);
}

#[test]
fn ledger_keeps_purchases_in_the_order_of_their_arrival() {
    let mut ledger = VerifiedPurchasesLedgerStorage::create(StableMemory::new());
    assert_eq!(ledger.count(), 0);
    assert_eq!(ledger.get_all(), vec![]);
    for n in [5, 3, 300, 1, 2, 256, 65_536, 9, 8, 7, 6, 4] {
        assert_eq!(ledger.insert(broker_purchase(n)), Ok(()));
    }
    assert_eq!(ledger.count(), 12);
    let amounts: Vec<u64> = ledger.get_all().into_iter().map(|p| p.amount).collect();
    assert_eq!(amounts, vec![5, 3, 300, 1, 2, 256, 65_536, 9, 8, 7, 6, 4]);
    assert_eq!(ledger.get_all()[2], broker_purchase(300));
}

#[test]
fn only_an_administrator_adds_to_the_ledger() {
    let mut platform = Platform::install(StableMemory::new(), Guard::new());
    assert_eq!(
        admin_add_broker_purchase_record(
            &mut platform,
            &Principal::anonymous(),
            1,
            2,
            "t".to_string(),
            "4-week".to_string(),
            9
        ),
        Err(BitcoinUSTBillsError::AnonymousCaller)
    );
    assert_eq!(get_all_verified_broker_purchases(&platform), vec![]);
    assert_eq!(
        admin_add_broker_purchase_record(
            &mut platform,
            &get_initial_principal(),
            1,
            2,
            "t".to_string(),
            "4-week".to_string(),
            9
        ),
        Ok(())
    );
    assert_eq!(
        get_all_verified_broker_purchases(&platform),
        vec![VerifiedBrokerPurchase {
            amount: 1,
            price: 2,
            timestamp: 9,
            broker_txn_id: "t".to_string(),
            ustbill_type: "4-week".to_string(),
        }]
    );
}

#[test]
fn identifiers_are_distinct_and_grow() {
    let mut counter = IdCounter::create(StableMemory::new());
    let mut seen: Vec<u64> = Vec::new();
    for n in 0..120u64 {
        assert_eq!(counter.current(), n);
        let id = generate_id(&mut counter);
        assert_eq!(id, n.to_string());
        let value: u64 = id.parse().unwrap();
        assert!(seen.iter().all(|earlier| *earlier < value));
        seen.push(value);
    }
    assert_eq!(counter.advance(), 120);
    assert_eq!(generate_id(&mut counter), "121");
}

#[test]
fn stats_count_every_table() {
    let mut platform = Platform::install(StableMemory::new(), Guard::new());
    platform.ustbills.insert(bill("a", USTBillStatus::Active)).unwrap();
    platform.ustbills.insert(bill("b", USTBillStatus::Active)).unwrap();
    platform.users.insert(account(1)).unwrap();
    platform.transactions.insert(movement("1", 1, TransactionType::Deposit)).unwrap();
    platform.transactions.insert(movement("2", 1, TransactionType::Deposit)).unwrap();
    platform.transactions.insert(movement("3", 1, TransactionType::Deposit)).unwrap();
    platform.verified_purchases.insert(broker_purchase(1)).unwrap();
    assert_eq!(
        get_storage_stats(&platform),
        vec![
            ("ustbills".to_string(), 2),
            ("users".to_string(), 1),
            ("holdings".to_string(), 0),
            ("transactions".to_string(), 3),
            ("verified_purchases".to_string(), 1),
        ]
    );
}

#[test]
fn tables_of_one_platform_do_not_share_their_records() {
    let mut platform = Platform::install(StableMemory::new(), Guard::new());
    platform.holdings.insert(holding("a", 1, "a", HoldingStatus::Active)).unwrap();
    platform.ustbills.insert(bill("a", USTBillStatus::Active)).unwrap();
    platform.transactions.insert(movement("a", 1, TransactionType::Deposit)).unwrap();
    assert_eq!(platform.ustbills.get("a"), Ok(bill("a", USTBillStatus::Active)));
    assert_eq!(platform.holdings.get("a"), Ok(holding("a", 1, "a", HoldingStatus::Active)));
    assert_eq!(platform.transactions.count(), 1);
    assert_eq!(platform.users.count(), 0);
    let other = Platform::install(StableMemory::new(), Guard::new());
    assert_eq!(other.ustbills.count(), 0);
}
