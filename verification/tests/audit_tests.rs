use ustbills::accounts::{register_user, update_kyc_status};
use ustbills::audit::{books_in_order, count_held, names_coming_id};
use ustbills::bills::create_ustbill;
use ustbills::guard::{get_initial_principal, Guard};
use ustbills::platform::Platform;
use ustbills::principal::Principal;
use ustbills::stable::StableMemory;
use ustbills::trading::{buy_ustbill_tokens, deposit_funds, withdraw_funds};
use ustbills::types::{
    HoldingStatus, KYCStatus, USTBillCreateRequest, UserRegistrationRequest,
};

const NOW: u64 = 1_700_000_000;

fn buyer() -> Principal {
    Principal::from_slice(&[1, 2, 3, 4]).unwrap()
}

fn traded() -> Platform {
    let admin = get_initial_principal();
    let mut platform = Platform::install(StableMemory::new(), Guard::new());
    for tokens in [1000, 20] {
        let data = USTBillCreateRequest {
            cusip: "912796RF5".to_string(),
            face_value: 100_000,
            purchase_price: 100_000,
            maturity_date: NOW + 90 * 86_400,
            annual_yield_bps: 526,
            total_tokens: tokens,
            issuer: "US Treasury".to_string(),
            bill_type: "13-week".to_string(),
        };
        create_ustbill(&mut platform, &admin, data, NOW).unwrap();
    }
    let data = UserRegistrationRequest {
        email: "buyer@example.com".to_string(),
        phone_number: None,
        country: "US".to_string(),
    };
    register_user(&mut platform, &buyer(), data, NOW).unwrap();
    update_kyc_status(&mut platform, &admin, &buyer(), KYCStatus::Verified, NOW).unwrap();
    deposit_funds(&mut platform, &buyer(), 500_000, NOW).unwrap();
    buy_ustbill_tokens(&mut platform, &buyer(), "0".to_string(), 7, NOW).unwrap();
    buy_ustbill_tokens(&mut platform, &buyer(), "1".to_string(), 20, NOW).unwrap();
    buy_ustbill_tokens(&mut platform, &buyer(), "0".to_string(), 5, NOW).unwrap();
    withdraw_funds(&mut platform, &buyer(), 10, NOW).unwrap();
    platform
}

#[test]
fn books_of_a_platform_that_traded_are_in_order() {
    let platform = traded();
    assert!(books_in_order(&platform));
    assert!(books_in_order(&Platform::install(StableMemory::new(), Guard::new())));
    let reopened = Platform::open(platform.backing.memory_copy(), Guard::new()).unwrap();
    assert!(books_in_order(&reopened));
    let loaded = Platform::load(StableMemory::new(), &platform.save().unwrap()).unwrap();
    assert!(books_in_order(&loaded));
}

#[test]
fn a_bill_that_counts_other_tokens_than_are_held_is_found() {
    let mut platform = traded();
    let mut bill = platform.ustbills.get("0").unwrap();
    assert_eq!(bill.tokens_sold, 12);
    bill.tokens_sold = 13;
    platform.ustbills.update(bill).unwrap();
    assert!(!books_in_order(&platform));
}

#[test]
fn a_holding_that_is_no_longer_active_is_not_counted() {
    let mut platform = traded();
    let mut holding = platform.holdings.get_by_ustbill("1").remove(0);
    holding.status = HoldingStatus::Sold;
    platform.holdings.update(holding).unwrap();
    assert!(!books_in_order(&platform));
    let mut bill = platform.ustbills.get("1").unwrap();
    bill.tokens_sold = 0;
    platform.ustbills.update(bill).unwrap();
    assert!(books_in_order(&platform));
}

#[test]
fn a_holding_without_its_bill_is_found() {
    let mut platform = traded();
    let mut holding = platform.holdings.get_by_ustbill("1").remove(0);
    holding.ustbill_id = "nowhere".to_string();
    holding.status = HoldingStatus::Sold;
    platform.holdings.update(holding).unwrap();
    let mut bill = platform.ustbills.get("1").unwrap();
    bill.tokens_sold = 0;
    platform.ustbills.update(bill).unwrap();
    assert!(!books_in_order(&platform));
}

#[test]
fn a_record_with_an_identifier_that_is_still_to_come_is_found() {
    let mut platform = traded();
    let next = platform.id_counter.current();
    let mut record = platform.transactions.get("2").unwrap();
    record.id = (next + 5).to_string();
    platform.transactions.insert(record.clone()).unwrap();
    assert!(!books_in_order(&platform));
    let mut platform = traded();
    record.id = format!("0{}", next + 5);
    platform.transactions.insert(record.clone()).unwrap();
    record.id = "later".to_string();
    platform.transactions.insert(record).unwrap();
    assert!(books_in_order(&platform));
}

#[test]
fn coming_identifiers_are_the_decimal_forms_from_the_next_number_on() {
    assert!(names_coming_id("0", 0));
    assert!(names_coming_id("12", 12));
    assert!(names_coming_id("13", 12));
    assert!(!names_coming_id("11", 12));
    assert!(!names_coming_id("012", 12));
    assert!(!names_coming_id("", 0));
    assert!(!names_coming_id("1a", 0));
    assert!(!names_coming_id("+1", 0));
    assert!(names_coming_id("18446744073709551615", 5));
    assert!(!names_coming_id("18446744073709551616", 5));
    assert!(!names_coming_id("99999999999999999999999", 5));
}

#[test]
fn tokens_held_are_counted_over_the_active_holdings_of_the_bill() {
    let platform = traded();
    let holdings = platform.holdings.get_active();
    assert_eq!(count_held(&holdings, "0"), 12);
    assert_eq!(count_held(&holdings, "1"), 20);
    assert_eq!(count_held(&holdings, "2"), 0);
}
