use ustbills::accounts::{register_user, update_kyc_status};
use ustbills::admin::{
    admin_add_broker_purchase_record, fetch_treasury_rates, update_platform_config,
};
use ustbills::bills::create_ustbill;
use ustbills::errors::BitcoinUSTBillsError;
use ustbills::guard::{add_to_list, get_initial_principal, Guard};
use ustbills::platform::Platform;
use ustbills::principal::Principal;
use ustbills::snapshot::{decode_snapshot, encode_snapshot, Snapshot};
use ustbills::stable::StableMemory;
use ustbills::trading::{buy_ustbill_tokens, deposit_funds};
use ustbills::types::{
    KYCStatus, PlatformConfig, TradingMetrics, TreasuryRate, USTBill, USTBillCreateRequest,
    USTBillStatus, UserRegistrationRequest,
};

const NOW: u64 = 1_700_000_000;

fn owner(n: u8) -> Principal {
    Principal::from_slice(&[n, 7]).unwrap()
}

fn busy_platform() -> Platform {
    let admin = get_initial_principal();
    let mut platform = Platform::install(StableMemory::new(), Guard::new());
    for tokens in [1000, 10, 500] {
        let data = USTBillCreateRequest {
            cusip: "912796RF5".to_string(),
            face_value: 100_000,
            purchase_price: 95_000,
            maturity_date: NOW + 90 * 86_400,
            annual_yield_bps: 526,
            total_tokens: tokens,
            issuer: "US Treasury".to_string(),
            bill_type: "13-week".to_string(),
        };
        create_ustbill(&mut platform, &admin, data, NOW).unwrap();
    }
    for n in [3, 1, 2] {
        let data = UserRegistrationRequest {
            email: format!("user{}@example.com", n),
            phone_number: if n == 2 { Some("+15551234567".to_string()) } else { None },
            country: "US".to_string(),
        };
        register_user(&mut platform, &owner(n), data, NOW).unwrap();
        update_kyc_status(&mut platform, &admin, &owner(n), KYCStatus::Verified, NOW).unwrap();
        deposit_funds(&mut platform, &owner(n), 100_000, NOW).unwrap();
    }
    buy_ustbill_tokens(&mut platform, &owner(1), "0".to_string(), 10, NOW).unwrap();
    buy_ustbill_tokens(&mut platform, &owner(2), "1".to_string(), 10, NOW).unwrap();
    buy_ustbill_tokens(&mut platform, &owner(1), "2".to_string(), 3, NOW).unwrap();
    update_platform_config(
        &mut platform,
        &admin,
        PlatformConfig { platform_fee_bps: 75, ..PlatformConfig::default() },
    )
    .unwrap();
    admin_add_broker_purchase_record(
        &mut platform,
        &admin,
        1,
        2,
        "txn".to_string(),
        "4-week".to_string(),
        NOW,
    )
    .unwrap();
    fetch_treasury_rates(
        &mut platform,
        vec![TreasuryRate {
            record_date: "2024-01-01".to_string(),
            security_type: "T-Bill".to_string(),
            security_desc: "13-Week Treasury Bill".to_string(),
            rate_date: "2024-01-01".to_string(),
            rate_bps: 526,
            cusip: "912796RF5".to_string(),
        }],
    )
    .unwrap();
    add_to_list(&mut platform.guard, owner(9));
    platform
}

fn same_state(a: &Platform, b: &Platform) {
    assert_eq!(a.snapshot(), b.snapshot());
    assert_eq!(a.ustbills.get_all(), b.ustbills.get_all());
    assert_eq!(a.users.get_all(), b.users.get_all());
    assert_eq!(a.holdings.get_active(), b.holdings.get_active());
    assert_eq!(a.transactions.count(), b.transactions.count());
    assert_eq!(a.config.get(), b.config.get());
    assert_eq!(a.trading_metrics.get(), b.trading_metrics.get());
    assert_eq!(a.verified_purchases.get_all(), b.verified_purchases.get_all());
    assert_eq!(a.id_counter.current(), b.id_counter.current());
    assert_eq!(a.guard.list(), b.guard.list());
}

#[test]
fn a_snapshot_holds_the_whole_state() {
    let platform = busy_platform();
    let snapshot = platform.snapshot();
    let ids: Vec<&str> = snapshot.ustbills.iter().map(|b| b.id.as_str()).collect();
    assert_eq!(ids, vec!["0", "1", "2"]);
    assert_eq!(snapshot.ustbills[1].status, USTBillStatus::SoldOut);
    let owners: Vec<Principal> = snapshot.users.iter().map(|u| u.principal.clone()).collect();
    assert_eq!(owners, vec![owner(1), owner(2), owner(3)]);
    assert_eq!(snapshot.holdings.len(), 3);
    assert_eq!(snapshot.transactions.len(), 9);
    assert_eq!(snapshot.config.platform_fee_bps, 75);
    assert_eq!(snapshot.treasury_rates.len(), 1);
    assert_eq!(snapshot.trading_metrics.total_transactions, 3);
    assert_eq!(snapshot.verified_purchases.len(), 1);
    assert_eq!(snapshot.next_id, 15);
    assert_eq!(snapshot.authorized, vec![owner(9), get_initial_principal()]);
}

#[test]
fn a_snapshot_is_read_back_as_it_was_written() {
    let snapshot = busy_platform().snapshot();
    let bytes = encode_snapshot(&snapshot).unwrap();
    assert_eq!(bytes[0], 1);
    assert_eq!(decode_snapshot(&bytes), Some(snapshot));
}

#[test]
fn an_empty_snapshot_is_read_back_as_it_was_written() {
    let snapshot = Platform::install(StableMemory::new(), Guard::empty()).snapshot();
    assert_eq!(
        snapshot,
        Snapshot {
            ustbills: vec![],
            users: vec![],
            holdings: vec![],
            transactions: vec![],
            config: PlatformConfig::default(),
            treasury_rates: vec![],
            trading_metrics: TradingMetrics {
                total_volume: 0,
                total_transactions: 0,
                average_price: 0,
                highest_price: 0,
                lowest_price: 0,
                last_updated: 0,
            },
            verified_purchases: vec![],
            next_id: 0,
            authorized: vec![],
        }
    );
    let bytes = encode_snapshot(&snapshot).unwrap();
    // the version, then ten framed parts: seven empty, two of 73 bytes, one of 8
    assert_eq!(bytes.len(), 1 + 10 * 4 + 2 * 73 + 8);
    assert_eq!(decode_snapshot(&bytes), Some(snapshot));
}

#[test]
fn bytes_that_are_no_snapshot_are_refused() {
    let bytes = busy_platform().save().unwrap();
    assert_eq!(decode_snapshot(&[]), None);
    assert_eq!(decode_snapshot(&[1]), None);
    assert_eq!(decode_snapshot(&bytes[..bytes.len() - 1]), None);
    let mut other_version = bytes.clone();
    other_version[0] = 2;
    assert_eq!(decode_snapshot(&other_version), None);
    let mut longer = bytes.clone();
    longer.extend_from_slice(&[0, 0, 0, 0]);
    assert_eq!(decode_snapshot(&longer), None);
    assert!(matches!(
        Platform::load(StableMemory::new(), &other_version),
        Err(BitcoinUSTBillsError::SerializationError(_))
    ));
}

#[test]
fn a_platform_is_restored_from_its_snapshot() {
    let platform = busy_platform();
    let restored = Platform::restore(StableMemory::new(), &platform.snapshot()).unwrap();
    same_state(&platform, &restored);
    let copy = platform.duplicate(StableMemory::new()).unwrap();
    same_state(&platform, &copy);
}

#[test]
fn a_platform_is_loaded_from_what_was_saved() {
    let platform = busy_platform();
    let bytes = platform.save().unwrap();
    let mut loaded = Platform::load(StableMemory::new(), &bytes).unwrap();
    same_state(&platform, &loaded);
    assert_eq!(loaded.save(), Some(bytes));
    // the loaded platform goes on where the saved one stood
    let holding = buy_ustbill_tokens(&mut loaded, &owner(3), "0".to_string(), 5, NOW).unwrap();
    assert_eq!(holding.id, "15");
    assert_eq!(platform.holdings.count(), 3);
    assert_eq!(loaded.holdings.count(), 4);
}

#[test]
fn a_snapshot_with_repeated_keys_restores_the_later_record() {
    let mut snapshot = busy_platform().snapshot();
    let mut again: USTBill = snapshot.ustbills[0].clone();
    again.tokens_sold = 77;
    snapshot.ustbills.push(again);
    snapshot.authorized.push(owner(9));
    let restored = Platform::restore(StableMemory::new(), &snapshot).unwrap();
    assert_eq!(restored.ustbills.count(), 3);
    assert_eq!(restored.ustbills.get("0").unwrap().tokens_sold, 77);
    assert_eq!(restored.guard.list(), vec![owner(9), get_initial_principal()]);
}

#[test]
fn a_snapshot_with_long_texts_is_restored() {
    let mut snapshot = busy_platform().snapshot();
    snapshot.ustbills[0].issuer = "x".repeat(200_000);
    let restored = Platform::restore(StableMemory::new(), &snapshot).unwrap();
    assert_eq!(restored.ustbills.get("0").unwrap().issuer.len(), 200_000);
    assert_eq!(restored.snapshot(), snapshot);
}
