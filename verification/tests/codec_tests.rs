use ustbills::codec::{
    decode, encode, read_bool, read_option_text, read_principal, read_text, read_u64,
    write_bool, write_option_text, write_principal, write_text, write_u64,
};
use ustbills::errors::{BitcoinUSTBillsError, GetUserDataError};
use ustbills::frames::{read_frames, write_frames};
use ustbills::principal::Principal;
use ustbills::records::{make_account_key, make_id_key, make_rate_key};
use ustbills::text::{chars_of, contains_char, decimal};
use ustbills::types::{
    HoldingStatus, KYCStatus, PlatformConfig, TokenHolding, TradingMetrics, Transaction,
    TransactionStatus, TransactionType, TreasuryRate, USTBill, USTBillStatus, User,
    VerifiedBrokerPurchase, YieldOption,
};

fn long_text() -> String {
    "\u{e9}\u{4e2d}\u{1f600}x".repeat(50_000)
}

fn round_trip_bill(bill: USTBill) {
    let bytes = encode(&bill).unwrap();
    assert_eq!(decode::<USTBill>(&bytes), Some(bill));
}

#[test]
fn bills_are_read_back_as_they_were_written() {
    let statuses = [
        USTBillStatus::Active,
        USTBillStatus::SoldOut,
        USTBillStatus::Matured,
        USTBillStatus::Cancelled,
    ];
    for status in statuses {
        round_trip_bill(USTBill {
            id: String::new(),
            cusip: String::new(),
            face_value: 0,
            purchase_price: 0,
            maturity_date: 0,
            annual_yield_bps: 0,
            total_tokens: 0,
            tokens_sold: 0,
            status,
            created_at: 0,
            updated_at: 0,
            issuer: String::new(),
            bill_type: String::new(),
        });
        round_trip_bill(USTBill {
            id: long_text(),
            cusip: "912796RF5".to_string(),
            face_value: u64::MAX,
            purchase_price: u64::MAX - 1,
            maturity_date: 1 << 63,
            annual_yield_bps: 255,
            total_tokens: 256,
            tokens_sold: 0x0102_0304_0506_0708,
            status,
            created_at: 1,
            updated_at: u64::MAX,
            issuer: long_text(),
            bill_type: "\0".to_string(),
        });
    }
}

#[test]
fn accounts_are_read_back_as_they_were_written() {
    let statuses = [KYCStatus::Pending, KYCStatus::Verified, KYCStatus::Rejected, KYCStatus::Expired];
    let principals = [
        Principal::from_slice(&[]).unwrap(),
        Principal::anonymous(),
        Principal::from_slice(&[255; 29]).unwrap(),
    ];
    let phones = [None, Some(String::new()), Some("+1 555".to_string()), Some(long_text())];
    for status in statuses {
        for principal in principals.iter() {
            for phone in phones.iter() {
                for active in [true, false] {
                    let user = User {
                        principal: principal.clone(),
                        email: "a@b.c".to_string(),
                        kyc_status: status,
                        wallet_balance: 0,
                        total_invested: u64::MAX,
                        total_yield_earned: 7,
                        created_at: 8,
                        updated_at: 9,
                        is_active: active,
                        phone_number: phone.clone(),
                        country: String::new(),
                    };
                    let bytes = encode(&user).unwrap();
                    assert_eq!(decode::<User>(&bytes), Some(user));
                }
            }
        }
    }
}

#[test]
fn holdings_and_transactions_are_read_back_as_they_were_written() {
    for (option, status) in [
        (YieldOption::Maturity, HoldingStatus::Active),
        (YieldOption::Flexible, HoldingStatus::Sold),
        (YieldOption::Maturity, HoldingStatus::Matured),
        (YieldOption::Flexible, HoldingStatus::Cancelled),
    ] {
        let holding = TokenHolding {
            id: "12".to_string(),
            user_principal: Principal::from_slice(&[1, 2, 3]).unwrap(),
            ustbill_id: String::new(),
            tokens_owned: 0,
            purchase_price_per_token: u64::MAX,
            purchase_date: 3,
            yield_option: option,
            status,
            current_value: 4,
            projected_yield: 5,
        };
        let bytes = encode(&holding).unwrap();
        assert_eq!(decode::<TokenHolding>(&bytes), Some(holding));
    }
    let kinds = [
        TransactionType::Deposit,
        TransactionType::Withdrawal,
        TransactionType::Purchase,
        TransactionType::Sale,
        TransactionType::YieldDistribution,
        TransactionType::Fee,
    ];
    let statuses = [
        TransactionStatus::Pending,
        TransactionStatus::Completed,
        TransactionStatus::Failed,
        TransactionStatus::Cancelled,
    ];
    for kind in kinds {
        for status in statuses {
            for linked in [None, Some(String::new()), Some("7".to_string())] {
                let transaction = Transaction {
                    id: "1".to_string(),
                    user_principal: Principal::anonymous(),
                    transaction_type: kind,
                    amount: 0,
                    ustbill_id: linked.clone(),
                    holding_id: None,
                    timestamp: u64::MAX,
                    status,
                    fees: 0,
                    description: long_text(),
                };
                let bytes = encode(&transaction).unwrap();
                assert_eq!(decode::<Transaction>(&bytes), Some(transaction));
            }
        }
    }
}

#[test]
fn other_records_are_read_back_as_they_were_written() {
    let rate = TreasuryRate {
        record_date: "2024-01-01".to_string(),
        security_type: "T-Bill".to_string(),
        security_desc: String::new(),
        rate_date: "2024-01-01".to_string(),
        rate_bps: 526,
        cusip: "912796RF5".to_string(),
    };
    assert_eq!(decode::<TreasuryRate>(&encode(&rate).unwrap()), Some(rate));
    let purchase = VerifiedBrokerPurchase {
        amount: 0,
        price: u64::MAX,
        timestamp: 1,
        broker_txn_id: long_text(),
        ustbill_type: String::new(),
    };
    assert_eq!(decode::<VerifiedBrokerPurchase>(&encode(&purchase).unwrap()), Some(purchase));
    let config = PlatformConfig {
        platform_fee_bps: 0,
        minimum_investment: u64::MAX,
        maximum_investment: 0,
        yield_distribution_frequency: 1,
        kyc_expiry_days: 2,
        treasury_api_refresh_interval: 3,
    };
    let bytes = encode(&config).unwrap();
    assert_eq!(bytes.len(), 73);
    assert_eq!(decode::<PlatformConfig>(&bytes), Some(config));
    let metrics = TradingMetrics {
        total_volume: 1,
        total_transactions: 2,
        average_price: 3,
        highest_price: 4,
        lowest_price: 5,
        last_updated: 6,
    };
    assert_eq!(decode::<TradingMetrics>(&encode(&metrics).unwrap()), Some(metrics));
}

#[test]
fn encoding_is_the_version_and_the_framed_fields() {
    let purchase = VerifiedBrokerPurchase {
        amount: 1,
        price: 0x0102,
        timestamp: 0,
        broker_txn_id: "ab".to_string(),
        ustbill_type: String::new(),
    };
    let mut expected = vec![1u8];
    expected.extend_from_slice(&[8, 0, 0, 0, 1, 0, 0, 0, 0, 0, 0, 0]);
    expected.extend_from_slice(&[8, 0, 0, 0, 2, 1, 0, 0, 0, 0, 0, 0]);
    expected.extend_from_slice(&[8, 0, 0, 0, 0, 0, 0, 0, 0, 0, 0, 0]);
    expected.extend_from_slice(&[2, 0, 0, 0, b'a', b'b']);
    expected.extend_from_slice(&[0, 0, 0, 0]);
    assert_eq!(encode(&purchase), Some(expected));
}

#[test]
fn bytes_that_are_no_record_are_refused() {
    let config = PlatformConfig::default();
    let bytes = encode(&config).unwrap();
    assert_eq!(decode::<PlatformConfig>(&[]), None);
    assert_eq!(decode::<PlatformConfig>(&bytes[..bytes.len() - 1]), None);
    let mut other_version = bytes.clone();
    other_version[0] = 2;
    assert_eq!(decode::<PlatformConfig>(&other_version), None);
    let mut longer = bytes.clone();
    longer.push(0);
    assert_eq!(decode::<PlatformConfig>(&longer), None);
    // a record of another kind
    assert_eq!(decode::<USTBill>(&bytes), None);
    assert_eq!(decode::<TradingMetrics>(&bytes).map(|m| m.total_volume), Some(50));
    // a status that does not exist
    let purchase = VerifiedBrokerPurchase {
        amount: 1,
        price: 2,
        timestamp: 3,
        broker_txn_id: "ab".to_string(),
        ustbill_type: String::new(),
    };
    let mut bad_text = encode(&purchase).unwrap();
    let at = bad_text.len() - 6;
    bad_text[at] = 0xff;
    assert_eq!(decode::<VerifiedBrokerPurchase>(&bad_text), None);
}

#[test]
fn fields_are_read_back_as_they_were_written() {
    for x in [0, 1, 255, 256, u64::MAX] {
        assert_eq!(read_u64(&write_u64(x)), Some(x));
    }
    assert_eq!(write_u64(0x0102), vec![2, 1, 0, 0, 0, 0, 0, 0]);
    assert_eq!(read_u64(&[1, 2, 3]), None);
    assert_eq!(read_text(&write_text("h\u{e9}llo")), Some("h\u{e9}llo".to_string()));
    assert_eq!(write_text("h\u{e9}"), vec![b'h', 0xc3, 0xa9]);
    assert_eq!(read_text(&[0xff]), None);
    assert_eq!(read_option_text(&write_option_text(&None)), Some(None));
    assert_eq!(
        read_option_text(&write_option_text(&Some("x".to_string()))),
        Some(Some("x".to_string()))
    );
    assert_eq!(read_option_text(&[]), None);
    assert_eq!(read_option_text(&[2]), None);
    assert_eq!(read_option_text(&[0, 1]), None);
    assert_eq!(read_bool(&write_bool(true)), Some(true));
    assert_eq!(read_bool(&write_bool(false)), Some(false));
    assert_eq!(read_bool(&[2]), None);
    let p = Principal::from_slice(&[1, 2]).unwrap();
    assert_eq!(read_principal(&write_principal(&p)), Some(p));
    assert_eq!(read_principal(&[0; 30]), None);
}

#[test]
fn frames_are_read_back_as_they_were_written() {
    let fields = vec![vec![], vec![1, 2, 3], vec![0; 300]];
    let bytes = write_frames(&fields).unwrap();
    assert_eq!(bytes.len(), 4 + 7 + 304);
    assert_eq!(&bytes[..11], &[0, 0, 0, 0, 3, 0, 0, 0, 1, 2, 3]);
    assert_eq!(&bytes[11..15], &[44, 1, 0, 0]);
    assert_eq!(read_frames(&bytes), Some(fields));
    assert_eq!(read_frames(&[]), Some(vec![]));
    assert_eq!(read_frames(&[1, 0, 0]), None);
    assert_eq!(read_frames(&[1, 0, 0, 0]), None);
    assert_eq!(read_frames(&[1, 0, 0, 0, 9]), Some(vec![vec![9]]));
}

#[test]
fn keys_keep_the_order_of_what_they_stand_for() {
    assert_eq!(make_id_key("a\u{e9}"), vec![b'a', 0xc3, 0xa9]);
    assert_eq!(make_account_key(&Principal::anonymous()), vec![1, 4]);
    assert_eq!(make_account_key(&Principal::from_slice(&[]).unwrap()), vec![0]);
    assert_eq!(make_rate_key("912796RF5", "2024-01-01"), b"912796RF5_2024-01-01".to_vec());
}

#[test]
fn numbers_are_written_in_decimal() {
    assert_eq!(decimal(0), "0");
    assert_eq!(decimal(9), "9");
    assert_eq!(decimal(10), "10");
    assert_eq!(decimal(1_234_567_890), "1234567890");
    assert_eq!(decimal(u64::MAX), "18446744073709551615");
    assert_eq!(chars_of("a\u{e9}b"), vec!['a', '\u{e9}', 'b']);
    assert!(contains_char("a@b", '@'));
    assert!(!contains_char("ab", '@'));
}

#[test]
fn errors_are_rendered_for_a_reader() {
    assert_eq!(BitcoinUSTBillsError::UserNotFound.message(), "User not found");
    assert_eq!(BitcoinUSTBillsError::USTBillSoldOut.message(), "US Treasury Bill is sold out");
    assert_eq!(
        BitcoinUSTBillsError::MaturityDatePassed.message(),
        "Maturity date has already passed"
    );
    assert_eq!(
        BitcoinUSTBillsError::ValidationError("no".to_string()).message(),
        "Validation error: no"
    );
    assert_eq!(
        BitcoinUSTBillsError::external_api_error("down").message(),
        "External API error: down"
    );
    assert_eq!(BitcoinUSTBillsError::database_error("d").message(), "Database error: d");
    assert_eq!(BitcoinUSTBillsError::system_error("s").message(), "System error: s");
    assert_eq!(BitcoinUSTBillsError::http_request_error("h").message(), "HTTP request error: h");
    assert_eq!(
        BitcoinUSTBillsError::validation_error("v"),
        BitcoinUSTBillsError::ValidationError("v".to_string())
    );
    assert_eq!(
        BitcoinUSTBillsError::from(GetUserDataError::AnonymousCaller),
        BitcoinUSTBillsError::AnonymousCaller
    );
    assert_eq!(
        BitcoinUSTBillsError::from(GetUserDataError::DidntFindUserData),
        BitcoinUSTBillsError::DidntFindUserData
    );
    assert_eq!(
        BitcoinUSTBillsError::from(GetUserDataError::FailedToAddToList),
        BitcoinUSTBillsError::FailedToAddToList
    );
}
