use ustbills::errors::BitcoinUSTBillsError;
use ustbills::types::PlatformConfig;
use ustbills::utils::{
    calculate_cusip_check_digit, calculate_daily_interest, calculate_fees,
    calculate_simple_interest, days_between, format_amount_to_dollars, get_current_timestamp,
    is_date_in_past, is_date_within_range, sanitize_string, timestamp_to_days, validate_country,
    validate_cusip, validate_email, validate_investment_amount, validate_maturity_date,
    validate_non_empty_string, validate_phone_number, validate_positive_amount,
    validate_token_amount, validate_yield_rate,
};

fn refusal(text: &str) -> BitcoinUSTBillsError {
    BitcoinUSTBillsError::ValidationError(text.to_string())
}

#[test]
fn test_validate_email() {
    assert!(validate_email("test@example.com").is_ok());
    assert!(validate_email("invalid-email").is_err());
    assert!(validate_email("").is_err());
}

#[test]
fn test_calculate_simple_interest() {
    let principal = 100000; // $1000
    let rate = 500; // 5%
    let days = 365; // 1 year
    let interest = calculate_simple_interest(principal, rate, days);
    assert_eq!(interest, 5000); // $50
}

#[test]
fn test_format_amount_to_dollars() {
    assert_eq!(format_amount_to_dollars(100000), "$1000.00");
    assert_eq!(format_amount_to_dollars(150), "$1.50");
}

#[test]
fn amounts_below_a_dollar_and_the_greatest_amount_are_written_in_full() {
    assert_eq!(format_amount_to_dollars(0), "$0.00");
    assert_eq!(format_amount_to_dollars(7), "$0.07");
    assert_eq!(format_amount_to_dollars(u64::MAX), "$184467440737095516.15");
}

#[test]
fn cusip_with_its_check_digit_is_accepted() {
    assert_eq!(validate_cusip("912796RF5"), Ok(()));
    assert_eq!(validate_cusip("912796rf5"), Ok(()));
    assert_eq!(validate_cusip("000000000"), Ok(()));
}

#[test]
fn test_validate_cusip() {
    // the check digit of 912796RF is 5
    assert!(validate_cusip("912796RF6").is_err());
    assert!(validate_cusip("12345678").is_err());
    assert!(validate_cusip("").is_err());
}

#[test]
fn cusip_refusals_are_invalid_cusip() {
    assert_eq!(validate_cusip("912796RF6"), Err(BitcoinUSTBillsError::InvalidCUSIP));
    assert_eq!(validate_cusip("12345678"), Err(BitcoinUSTBillsError::InvalidCUSIP));
    assert_eq!(validate_cusip(""), Err(BitcoinUSTBillsError::InvalidCUSIP));
}

#[test]
fn cusip_of_other_characters_is_refused() {
    assert_eq!(validate_cusip("912796R-5"), Err(BitcoinUSTBillsError::InvalidCUSIP));
    assert_eq!(validate_cusip("912796RFX"), Err(BitcoinUSTBillsError::InvalidCUSIP));
    assert_eq!(validate_cusip("91279\u{e9}RF5"), Err(BitcoinUSTBillsError::InvalidCUSIP));
    assert_eq!(validate_cusip("1234567\u{e9}"), Err(BitcoinUSTBillsError::InvalidCUSIP));
    assert_eq!(validate_cusip("912796RF55"), Err(BitcoinUSTBillsError::InvalidCUSIP));
}

#[test]
fn cusip_check_digit_counts_every_second_character_double() {
    // 9 + 2*1 + 2 + 2*7 + 9 + 2*6 + 27 + 2*15 = 105
    assert_eq!(calculate_cusip_check_digit("912796RF"), Ok('5'));
    assert_eq!(calculate_cusip_check_digit(""), Ok('0'));
    assert_eq!(calculate_cusip_check_digit("1"), Ok('9'));
    assert_eq!(calculate_cusip_check_digit("01"), Ok('8'));
    assert_eq!(calculate_cusip_check_digit("Zz"), Ok('5'));
}

#[test]
fn email_refusals_say_why() {
    assert_eq!(validate_email(""), Err(refusal("Email cannot be empty")));
    assert_eq!(validate_email("invalid-email"), Err(refusal("Invalid email format")));
    assert_eq!(validate_email("a@b@c.d"), Err(refusal("Invalid email format")));
    assert_eq!(validate_email("@example.com"), Err(refusal("Invalid email format")));
    assert_eq!(validate_email("test@"), Err(refusal("Invalid email format")));
    assert_eq!(validate_email("test@example"), Err(refusal("Invalid email domain")));
    assert_eq!(validate_email("te.st@example"), Err(refusal("Invalid email domain")));
    assert_eq!(validate_email("a@."), Ok(()));
}

#[test]
fn phone_numbers_count_digits_and_plus_only() {
    assert_eq!(validate_phone_number(""), Ok(()));
    assert_eq!(validate_phone_number("(555) 123-4567"), Ok(()));
    assert_eq!(validate_phone_number("555-1234"), Err(refusal("Invalid phone number length")));
    assert_eq!(
        validate_phone_number("1234567890123456"),
        Err(refusal("Invalid phone number length"))
    );
    assert_eq!(validate_phone_number("123456789012345"), Ok(()));
    assert_eq!(
        validate_phone_number("+123456789"),
        Err(refusal("Invalid international phone number"))
    );
    assert_eq!(validate_phone_number("+1 234 567 890"), Ok(()));
    assert_eq!(validate_phone_number("abc"), Err(refusal("Invalid phone number length")));
}

#[test]
fn yield_rates_up_to_the_whole_are_accepted() {
    assert_eq!(validate_yield_rate(0), Ok(()));
    assert_eq!(validate_yield_rate(526), Ok(()));
    assert_eq!(validate_yield_rate(10_000), Ok(()));
    assert_eq!(validate_yield_rate(10_001), Err(BitcoinUSTBillsError::InvalidYieldRate));
}

#[test]
fn maturity_lies_within_five_years_from_now() {
    let now = 1_700_000_000;
    assert_eq!(validate_maturity_date(now, now), Err(BitcoinUSTBillsError::InvalidDate));
    assert_eq!(validate_maturity_date(now - 1, now), Err(BitcoinUSTBillsError::InvalidDate));
    assert_eq!(validate_maturity_date(now + 1, now), Ok(()));
    assert_eq!(validate_maturity_date(now + 157_680_000, now), Ok(()));
    assert_eq!(
        validate_maturity_date(now + 157_680_001, now),
        Err(BitcoinUSTBillsError::InvalidDate)
    );
    assert_eq!(validate_maturity_date(u64::MAX, u64::MAX - 5), Ok(()));
}

#[test]
fn token_amounts_lie_between_one_and_a_thousand_million() {
    assert_eq!(validate_token_amount(0), Err(BitcoinUSTBillsError::InvalidTokenAmount));
    assert_eq!(validate_token_amount(1), Ok(()));
    assert_eq!(validate_token_amount(1_000_000_000), Ok(()));
    assert_eq!(
        validate_token_amount(1_000_000_001),
        Err(BitcoinUSTBillsError::InvalidTokenAmount)
    );
}

#[test]
fn investments_lie_between_the_bounds_of_the_settings() {
    let config = PlatformConfig::default();
    assert_eq!(
        validate_investment_amount(99, &config),
        Err(BitcoinUSTBillsError::MinimumInvestmentNotMet)
    );
    assert_eq!(validate_investment_amount(100, &config), Ok(()));
    assert_eq!(validate_investment_amount(1_000_000, &config), Ok(()));
    assert_eq!(
        validate_investment_amount(1_000_001, &config),
        Err(BitcoinUSTBillsError::MaximumInvestmentExceeded)
    );
}

#[test]
fn times_are_cut_to_whole_seconds_and_days() {
    assert_eq!(get_current_timestamp(1_999_999_999), 1);
    assert_eq!(get_current_timestamp(0), 0);
    assert_eq!(timestamp_to_days(86_399), 0);
    assert_eq!(timestamp_to_days(172_800), 2);
    assert_eq!(days_between(0, 86_400), 1);
    assert_eq!(days_between(10, 86_409), 0);
    assert_eq!(days_between(86_400, 0), 0);
    assert_eq!(days_between(5, 5), 0);
}

#[test]
fn interest_is_rounded_down_and_never_wraps() {
    assert_eq!(calculate_daily_interest(100_000, 500, 1), 13);
    assert_eq!(calculate_simple_interest(100_000, 526, 90), 1296);
    assert_eq!(calculate_simple_interest(0, 526, 90), 0);
    assert_eq!(calculate_simple_interest(100_000, 526, 0), 0);
    assert_eq!(calculate_simple_interest(u64::MAX, u64::MAX, u64::MAX), u64::MAX);
    assert_eq!(calculate_simple_interest(u64::MAX, 10_000, 365), u64::MAX);
    assert_eq!(calculate_simple_interest(u64::MAX, 10_000, 364), 18396205048850073391);
}

#[test]
fn fees_are_a_share_in_basis_points() {
    assert_eq!(calculate_fees(950, 50), 4);
    assert_eq!(calculate_fees(10_000, 50), 50);
    assert_eq!(calculate_fees(199, 50), 0);
    assert_eq!(calculate_fees(u64::MAX, 10_000), u64::MAX);
    assert_eq!(calculate_fees(u64::MAX, 20_000), u64::MAX);
}

#[test]
fn country_codes_are_two_or_three_bytes() {
    assert_eq!(validate_country(""), Err(refusal("Country is required")));
    assert_eq!(validate_country("U"), Err(refusal("Invalid country code")));
    assert_eq!(validate_country("US"), Ok(()));
    assert_eq!(validate_country("USA"), Ok(()));
    assert_eq!(validate_country("USAX"), Err(refusal("Invalid country code")));
    assert_eq!(validate_country("\u{e9}"), Ok(()));
}

#[test]
fn blank_texts_are_refused_with_the_name_of_the_field() {
    assert_eq!(validate_non_empty_string("x", "Issuer"), Ok(()));
    assert_eq!(validate_non_empty_string("  x  ", "Issuer"), Ok(()));
    assert_eq!(validate_non_empty_string("", "Issuer"), Err(refusal("Issuer cannot be empty")));
    assert_eq!(
        validate_non_empty_string(" \t\n\u{a0}\u{3000}", "Bill type"),
        Err(refusal("Bill type cannot be empty"))
    );
}

#[test]
fn sanitizing_takes_white_space_off_both_ends() {
    assert_eq!(sanitize_string("  hello world \n"), "hello world");
    assert_eq!(sanitize_string("hello"), "hello");
    assert_eq!(sanitize_string("   "), "");
    assert_eq!(sanitize_string(""), "");
    assert_eq!(sanitize_string("\u{2003}a\u{e9} b\u{3000}"), "a\u{e9} b");
    assert_eq!(sanitize_string(" x"), "x");
    assert_eq!(sanitize_string("x "), "x");
}

#[test]
fn sanitizing_agrees_with_trim() {
    let samples = [" a ", "\u{85}b\u{1680}", "\u{200b}c", "\u{feff}d ", "e\u{2028}\u{2029}", "\u{1f}f"];
    for sample in samples {
        assert_eq!(sanitize_string(sample), sample.trim());
    }
}

#[test]
fn dates_are_compared_with_now() {
    assert!(is_date_in_past(9, 10));
    assert!(!is_date_in_past(10, 10));
    assert!(is_date_within_range(10 + 86_400, 1, 10));
    assert!(!is_date_within_range(11 + 86_400, 1, 10));
    assert!(is_date_within_range(u64::MAX, u64::MAX, u64::MAX));
}

#[test]
fn amounts_of_nothing_are_refused() {
    assert_eq!(validate_positive_amount(0), Err(BitcoinUSTBillsError::InvalidAmount));
    assert_eq!(validate_positive_amount(1), Ok(()));
}
