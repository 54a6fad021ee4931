use ustbills::accounts::{
    get_principal_data, get_user_holdings, get_user_profile, register_user, set_principal_data,
    update_kyc_status, validate_user_data,
};
use ustbills::bills::{
    create_ustbill, get_active_ustbills, get_ustbill, get_ustbill_availability,
    get_ustbills_paginated, paginate, validate_ustbill_data,
};
use ustbills::errors::BitcoinUSTBillsError;
use ustbills::guard::{get_initial_principal, Guard};
use ustbills::platform::Platform;
use ustbills::principal::Principal;
use ustbills::stable::StableMemory;
use ustbills::types::{
    KYCStatus, PaginatedResponse, USTBill, USTBillCreateRequest, USTBillStatus, User,
    UserRegistrationRequest,
};

const NOW: u64 = 1_700_000_000;

fn install() -> Platform {
    Platform::install(StableMemory::new(), Guard::new())
}

fn request() -> USTBillCreateRequest {
    USTBillCreateRequest {
        cusip: "912796RF5".to_string(),
        face_value: 100_000,
        purchase_price: 95_000,
        maturity_date: NOW + 1,
        annual_yield_bps: 526,
        total_tokens: 1000,
        issuer: "US Treasury".to_string(),
        bill_type: "13-week".to_string(),
    }
}

fn registration() -> UserRegistrationRequest {
    UserRegistrationRequest {
        email: "user@example.com".to_string(),
        phone_number: None,
        country: "US".to_string(),
    }
}

fn caller() -> Principal {
    Principal::from_slice(&[5, 5]).unwrap()
}

#[test]
fn pagination_cuts_the_listing_into_pages() {
    let mut platform = install();
    for _ in 0..25 {
        create_ustbill(&mut platform, &get_initial_principal(), request(), NOW).unwrap();
    }
    let all: Vec<String> = platform.ustbills.get_all().into_iter().map(|b| b.id).collect();
    assert_eq!(all.len(), 25);

    let third = get_ustbills_paginated(&platform, 2, 10).unwrap();
    let ids: Vec<String> = third.data.iter().map(|b| b.id.clone()).collect();
    assert_eq!(ids, all[20..25].to_vec());
    assert_eq!(ids.len(), 5);
    assert_eq!(third.total, 25);
    assert_eq!(third.page, 2);
    assert_eq!(third.per_page, 10);
    assert!(!third.has_next);

    let fourth = get_ustbills_paginated(&platform, 3, 10).unwrap();
    assert!(fourth.data.is_empty());
    assert!(!fourth.has_next);
    assert_eq!(fourth.total, 25);

    let first = get_ustbills_paginated(&platform, 0, 10).unwrap();
    let ids: Vec<String> = first.data.iter().map(|b| b.id.clone()).collect();
    assert_eq!(ids, all[0..10].to_vec());
    assert!(first.has_next);
    let second = get_ustbills_paginated(&platform, 1, 10).unwrap();
    assert_eq!(second.data.len(), 10);
    assert!(second.has_next);
}

#[test]
fn pages_at_the_edges() {
    let items: Vec<u32> = (1..=25).collect();
    assert_eq!(
        paginate(items.clone(), 2, 10),
        PaginatedResponse { data: vec![21, 22, 23, 24, 25], total: 25, page: 2, per_page: 10, has_next: false }
    );
    assert_eq!(
        paginate(items.clone(), 3, 10),
        PaginatedResponse { data: vec![], total: 25, page: 3, per_page: 10, has_next: false }
    );
    assert_eq!(
        paginate(items.clone(), 4, 5),
        PaginatedResponse { data: vec![21, 22, 23, 24, 25], total: 25, page: 4, per_page: 5, has_next: false }
    );
    assert_eq!(
        paginate(items.clone(), 3, 5),
        PaginatedResponse { data: vec![16, 17, 18, 19, 20], total: 25, page: 3, per_page: 5, has_next: true }
    );
    assert_eq!(
        paginate(items.clone(), 0, 0),
        PaginatedResponse { data: vec![], total: 25, page: 0, per_page: 0, has_next: true }
    );
    assert_eq!(
        paginate(items.clone(), 7, 0),
        PaginatedResponse { data: vec![], total: 25, page: 7, per_page: 0, has_next: true }
    );
    assert_eq!(paginate(items.clone(), 0, usize::MAX).data.len(), 25);
    assert_eq!(paginate(items.clone(), 1, usize::MAX).data.len(), 0);
    assert_eq!(
        paginate(items.clone(), usize::MAX, usize::MAX),
        PaginatedResponse {
            data: vec![],
            total: 25,
            page: usize::MAX,
            per_page: usize::MAX,
            has_next: false
        }
    );
    assert_eq!(paginate(items, 24, 1).data, vec![25]);
    assert_eq!(
        paginate(Vec::<u32>::new(), 0, 10),
        PaginatedResponse { data: vec![], total: 0, page: 0, per_page: 10, has_next: false }
    );
}

#[test]
fn data_of_a_bill_is_tested_in_order() {
    assert_eq!(validate_ustbill_data(&request(), NOW), Ok(()));
    let all_wrong = USTBillCreateRequest {
        cusip: String::new(),
        annual_yield_bps: 10_001,
        total_tokens: 0,
        maturity_date: NOW,
        ..request()
    };
    assert_eq!(validate_ustbill_data(&all_wrong, NOW), Err(BitcoinUSTBillsError::InvalidCUSIP));
    let no_cusip = USTBillCreateRequest { cusip: "x".to_string(), ..all_wrong };
    assert_eq!(validate_ustbill_data(&no_cusip, NOW), Err(BitcoinUSTBillsError::InvalidYieldRate));
    let no_yield = USTBillCreateRequest { annual_yield_bps: 10_000, ..no_cusip };
    assert_eq!(validate_ustbill_data(&no_yield, NOW), Err(BitcoinUSTBillsError::InvalidTokenAmount));
    let no_tokens = USTBillCreateRequest { total_tokens: 1, ..no_yield };
    assert_eq!(validate_ustbill_data(&no_tokens, NOW), Err(BitcoinUSTBillsError::InvalidDate));
    let fine = USTBillCreateRequest { maturity_date: NOW + 1, ..no_tokens };
    assert_eq!(validate_ustbill_data(&fine, NOW), Ok(()));
}

#[test]
fn bills_are_offered_by_administrators_only() {
    let mut platform = install();
    assert_eq!(
        create_ustbill(&mut platform, &caller(), request(), NOW),
        Err(BitcoinUSTBillsError::Unauthorized)
    );
    assert_eq!(
        create_ustbill(&mut platform, &Principal::anonymous(), request(), NOW),
        Err(BitcoinUSTBillsError::AnonymousCaller)
    );
    let late = USTBillCreateRequest { maturity_date: NOW, ..request() };
    assert_eq!(
        create_ustbill(&mut platform, &get_initial_principal(), late, NOW),
        Err(BitcoinUSTBillsError::InvalidDate)
    );
    assert_eq!(platform.ustbills.count(), 0);
    assert_eq!(platform.id_counter.current(), 0);

    let created = create_ustbill(&mut platform, &get_initial_principal(), request(), NOW).unwrap();
    assert_eq!(
        created,
        USTBill {
            id: "0".to_string(),
            cusip: "912796RF5".to_string(),
            face_value: 100_000,
            purchase_price: 95_000,
            maturity_date: NOW + 1,
            annual_yield_bps: 526,
            total_tokens: 1000,
            tokens_sold: 0,
            status: USTBillStatus::Active,
            created_at: NOW,
            updated_at: NOW,
            issuer: "US Treasury".to_string(),
            bill_type: "13-week".to_string(),
        }
    );
    assert_eq!(get_ustbill(&platform, "0"), Ok(created));
    assert_eq!(get_ustbill(&platform, "1"), Err(BitcoinUSTBillsError::USTBillNotFound));
    assert_eq!(get_ustbill_availability(&platform, "0"), Ok(1000));
    assert_eq!(
        get_ustbill_availability(&platform, "1"),
        Err(BitcoinUSTBillsError::USTBillNotFound)
    );
    let second = create_ustbill(&mut platform, &get_initial_principal(), request(), NOW).unwrap();
    assert_eq!(second.id, "1");
    let mut sold = second;
    sold.tokens_sold = 1000;
    sold.status = USTBillStatus::SoldOut;
    platform.ustbills.update(sold).unwrap();
    assert_eq!(get_ustbill_availability(&platform, "1"), Ok(0));
    let active: Vec<String> = get_active_ustbills(&platform).into_iter().map(|b| b.id).collect();
    assert_eq!(active, vec!["0"]);
}

#[test]
fn a_bill_with_long_texts_is_stored_under_the_next_identifier() {
    let mut platform = install();
    let huge = USTBillCreateRequest { issuer: "x".repeat(1 << 20), ..request() };
    assert!(create_ustbill(&mut platform, &get_initial_principal(), huge, NOW).is_ok());
    assert_eq!(platform.id_counter.current(), 1);
}

#[test]
fn derived_figures_of_a_bill() {
    let bill = USTBill {
        id: "0".to_string(),
        cusip: "912796RF5".to_string(),
        face_value: 100_000,
        purchase_price: 95_000,
        maturity_date: NOW + 3 * 86_400 + 5,
        annual_yield_bps: 526,
        total_tokens: 1000,
        tokens_sold: 400,
        status: USTBillStatus::Active,
        created_at: NOW,
        updated_at: NOW,
        issuer: "US Treasury".to_string(),
        bill_type: "13-week".to_string(),
    };
    assert_eq!(bill.available_tokens(), 600);
    assert!(bill.is_available_for_purchase());
    assert_eq!(bill.days_to_maturity(NOW), 3);
    assert_eq!(bill.days_to_maturity(NOW + 6), 2);
    assert_eq!(bill.days_to_maturity(NOW + 3 * 86_400 + 5), 0);
    assert_eq!(bill.days_to_maturity(u64::MAX), 0);
    let sold = USTBill { tokens_sold: 1000, ..bill.clone() };
    assert_eq!(sold.available_tokens(), 0);
    assert!(!sold.is_available_for_purchase());
    let matured = USTBill { status: USTBillStatus::Matured, ..bill.clone() };
    assert!(!matured.is_available_for_purchase());
    assert_eq!(bill.clone(), bill);
}

#[test]
fn data_of_an_account_is_tested() {
    assert_eq!(validate_user_data(&registration()), Ok(()));
    let no_email = UserRegistrationRequest { email: String::new(), ..registration() };
    assert_eq!(
        validate_user_data(&no_email),
        Err(BitcoinUSTBillsError::ValidationError("Invalid email format".to_string()))
    );
    let no_at = UserRegistrationRequest { email: "user.example.com".to_string(), ..registration() };
    assert_eq!(
        validate_user_data(&no_at),
        Err(BitcoinUSTBillsError::ValidationError("Invalid email format".to_string()))
    );
    let no_country = UserRegistrationRequest { country: String::new(), ..registration() };
    assert_eq!(
        validate_user_data(&no_country),
        Err(BitcoinUSTBillsError::ValidationError("Country is required".to_string()))
    );
    let just_at = UserRegistrationRequest { email: "@".to_string(), ..registration() };
    assert_eq!(validate_user_data(&just_at), Ok(()));
}

#[test]
fn accounts_are_opened_once() {
    let mut platform = install();
    assert_eq!(get_user_profile(&platform, &caller()), Err(BitcoinUSTBillsError::UserNotFound));
    let no_country = UserRegistrationRequest { country: String::new(), ..registration() };
    assert!(register_user(&mut platform, &caller(), no_country, NOW).is_err());
    assert_eq!(platform.users.count(), 0);
    let opened = register_user(&mut platform, &caller(), registration(), NOW).unwrap();
    assert_eq!(
        opened,
        User {
            principal: caller(),
            email: "user@example.com".to_string(),
            kyc_status: KYCStatus::Pending,
            wallet_balance: 0,
            total_invested: 0,
            total_yield_earned: 0,
            created_at: NOW,
            updated_at: NOW,
            is_active: true,
            phone_number: None,
            country: "US".to_string(),
        }
    );
    assert!(!opened.is_eligible_for_trading());
    assert_eq!(opened.total_portfolio_value(), 0);
    assert_eq!(get_user_profile(&platform, &caller()), Ok(opened));
    assert_eq!(
        register_user(&mut platform, &caller(), registration(), NOW),
        Err(BitcoinUSTBillsError::UserAlreadyExists)
    );
    // an account that exists is told before its data is tested
    let no_country = UserRegistrationRequest { country: String::new(), ..registration() };
    assert_eq!(
        register_user(&mut platform, &caller(), no_country, NOW),
        Err(BitcoinUSTBillsError::UserAlreadyExists)
    );
    assert_eq!(get_user_holdings(&platform, &caller()), vec![]);
}

#[test]
fn verification_is_set_by_administrators() {
    let mut platform = install();
    register_user(&mut platform, &caller(), registration(), NOW).unwrap();
    assert_eq!(
        update_kyc_status(&mut platform, &caller(), &caller(), KYCStatus::Verified, NOW + 1),
        Err(BitcoinUSTBillsError::Unauthorized)
    );
    assert_eq!(
        update_kyc_status(
            &mut platform,
            &get_initial_principal(),
            &get_initial_principal(),
            KYCStatus::Verified,
            NOW + 1
        ),
        Err(BitcoinUSTBillsError::UserNotFound)
    );
    assert_eq!(
        update_kyc_status(
            &mut platform,
            &get_initial_principal(),
            &caller(),
            KYCStatus::Verified,
            NOW + 1
        ),
        Ok(())
    );
    let account = get_user_profile(&platform, &caller()).unwrap();
    assert_eq!(account.kyc_status, KYCStatus::Verified);
    assert_eq!(account.updated_at, NOW + 1);
    assert_eq!(account.created_at, NOW);
    assert!(account.is_eligible_for_trading());
    update_kyc_status(&mut platform, &get_initial_principal(), &caller(), KYCStatus::Expired, NOW + 2)
        .unwrap();
    assert!(!get_user_profile(&platform, &caller()).unwrap().is_eligible_for_trading());
}

#[test]
fn the_address_of_the_caller_is_read_and_replaced() {
    let mut platform = install();
    assert_eq!(
        get_principal_data(&platform, &caller()),
        Err(BitcoinUSTBillsError::DidntFindUserData)
    );
    assert_eq!(
        set_principal_data(&mut platform, &caller(), "x".to_string()),
        Err(BitcoinUSTBillsError::DidntFindUserData)
    );
    register_user(&mut platform, &caller(), registration(), NOW).unwrap();
    assert_eq!(get_principal_data(&platform, &caller()), Ok("user@example.com".to_string()));
    assert_eq!(set_principal_data(&mut platform, &caller(), "new@example.com".to_string()), Ok(()));
    assert_eq!(get_principal_data(&platform, &caller()), Ok("new@example.com".to_string()));
}
