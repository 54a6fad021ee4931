//! Tests on what callers hand in, and small computations on dates and
//! amounts.

use vstd::prelude::*;
use vstd::string::{StrSliceExecFns, StringExecFns};
use vstd::utf8::encode_utf8;
use crate::errors::{BitcoinUSTBillsError, Result};
pub use crate::guard::validate_principal;
use crate::money::{prorate, prorated, saturated, share, share_of};
use crate::table::{lemma_filter_ends, lemma_filter_step};
use crate::text::{chars_of, decimal, decimal_text, digit_char, digit_text};
use crate::types::PlatformConfig;

verus! {

/// The greatest number of tokens that one request may name.
pub const MAX_TOKEN_AMOUNT: u64 = 1_000_000_000;

/// The longest time to maturity that is accepted: five years, in seconds.
pub const MAX_MATURITY_SECONDS: u64 = 157_680_000;

/// Whether a character is one of the digits `0` to `9`.
pub open spec fn is_ascii_digit(c: char) -> bool {
    '0' <= c <= '9'
}

/// Whether a character is a digit or a letter of the ASCII alphabet.
pub open spec fn is_ascii_alphanumeric(c: char) -> bool {
    ('0' <= c <= '9') || ('a' <= c <= 'z') || ('A' <= c <= 'Z')
}

/// What a character of a security identifier counts in its check sum: a
/// digit its value, a letter its place in the alphabet plus nine.
pub open spec fn cusip_value(c: char) -> nat {
    if '0' <= c <= '9' {
        (c as nat - '0' as nat) as nat
    } else if 'a' <= c <= 'z' {
        (c as nat - 'a' as nat + 10) as nat
    } else {
        (c as nat - 'A' as nat + 10) as nat
    }
}

/// The check sum of the characters of a security identifier: the sum of what
/// they count, every second character counting double.
pub open spec fn cusip_sum(base: Seq<char>) -> nat
    decreases base.len(),
{
    if base.len() == 0 {
        0
    } else {
        cusip_sum(base.drop_last()) + if base.len() % 2 == 0 {
            2 * cusip_value(base.last())
        } else {
            cusip_value(base.last())
        }
    }
}

/// The check digit that belongs to the characters of a security identifier.
pub open spec fn cusip_check_digit(base: Seq<char>) -> nat {
    ((10 - cusip_sum(base) % 10) % 10) as nat
}

/// Whether a text is a security identifier: nine characters, the first eight
/// digits or ASCII letters, the ninth the check digit of the eight.
pub open spec fn is_cusip(cusip: Seq<char>) -> bool {
    &&& cusip.len() == 9
    &&& forall|i: int| 0 <= i < 8 ==> is_ascii_alphanumeric(#[trigger] cusip[i])
    &&& cusip[8] == digit_char(cusip_check_digit(cusip.take(8)))
}

fn check_ascii_digit(c: char) -> (digit: bool)
    ensures
        digit == is_ascii_digit(c),
{
    let code = c as u32;
    48 <= code && code <= 57
}

fn check_ascii_alphanumeric(c: char) -> (yes: bool)
    ensures
        yes == is_ascii_alphanumeric(c),
{
    let code = c as u32;
    (48 <= code && code <= 57) || (97 <= code && code <= 122) || (65 <= code && code <= 90)
}

proof fn lemma_cusip_sum_step(base: Seq<char>, i: int)
    requires
        0 <= i < base.len(),
    ensures
        cusip_sum(base.take(i + 1)) == cusip_sum(base.take(i)) + if (i + 1) % 2 == 0 {
            2 * cusip_value(base[i])
        } else {
            cusip_value(base[i])
        },
{
    assert(base.take(i + 1).drop_last() =~= base.take(i));
    assert(base.take(i + 1).last() == base[i]);
}

proof fn lemma_last_digit_of_sum(sum: nat, more: nat)
    ensures
        ((sum % 10) + more) % 10 == (sum + more) % 10,
{
}

/// The check digit that belongs to the characters of a security identifier.
#[verifier::rlimit(50)]
pub fn calculate_cusip_check_digit(base: &str) -> (result: Result<char>)
    requires
        forall|i: int| 0 <= i < base@.len() ==> is_ascii_alphanumeric(#[trigger] base@[i]),
    ensures
        result matches Ok(digit) && digit == digit_char(cusip_check_digit(base@)),
{
    let chars = chars_of(base);
    let mut sum: u64 = 0;
    let mut i: usize = 0;
    assert(base@.take(0) =~= Seq::<char>::empty());
    while i < chars.len()
        invariant
            i <= chars@.len(),
            chars@ == base@,
            forall|j: int| 0 <= j < base@.len() ==> is_ascii_alphanumeric(#[trigger] base@[j]),
            sum < 10,
            sum == cusip_sum(base@.take(i as int)) % 10,
        decreases chars@.len() - i,
    {
        let c = chars[i];
        assert(is_ascii_alphanumeric(base@[i as int]));
        let code = c as u32;
        let value: u64 = if 48 <= code && code <= 57 {
            (code - 48) as u64
        } else if 97 <= code && code <= 122 {
            (code - 97 + 10) as u64
        } else {
            (code - 65 + 10) as u64
        };
        assert(value == cusip_value(c));
        let counted: u64 = if (i + 1) % 2 == 0 {
            value * 2
        } else {
            value
        };
        proof {
            lemma_cusip_sum_step(base@, i as int);
            lemma_last_digit_of_sum(cusip_sum(base@.take(i as int)), counted as nat);
        }
        sum = (sum + counted) % 10;
        i += 1;
    }
    assert(base@.take(i as int) =~= base@);
    let check_digit = (10 - sum) % 10;
    let text = digit_text(check_digit);
    Ok(text.get_char(0))
}

/// Tests a security identifier.
#[verifier::rlimit(50)]
pub fn validate_cusip(cusip: &str) -> (result: Result<()>)
    ensures
        is_cusip(cusip@) ==> result is Ok,
        !is_cusip(cusip@) ==> result matches Err(BitcoinUSTBillsError::InvalidCUSIP),
{
    let chars = chars_of(cusip);
    if chars.len() != 9 {
        return Err(BitcoinUSTBillsError::InvalidCUSIP);
    }
    let mut i: usize = 0;
    while i < 8
        invariant
            i <= 8,
            chars@ == cusip@,
            chars@.len() == 9,
            forall|j: int| 0 <= j < i ==> is_ascii_alphanumeric(#[trigger] cusip@[j]),
        decreases 8 - i,
    {
        if !check_ascii_alphanumeric(chars[i]) {
            return Err(BitcoinUSTBillsError::InvalidCUSIP);
        }
        i += 1;
    }
    let check_digit = chars[8];
    let base = cusip.substring_char(0, 8);
    assert(base@ =~= cusip@.take(8));
    let calculated = match calculate_cusip_check_digit(base) {
        Ok(digit) => digit,
        Err(e) => {
            return Err(e);
        },
    };
    if check_digit != calculated {
        return Err(BitcoinUSTBillsError::InvalidCUSIP);
    }
    Ok(())
}

/// Whether `p` is the place of the only `@` of an address.
pub open spec fn splits_at(email: Seq<char>, p: int) -> bool {
    &&& 0 <= p < email.len()
    &&& email[p] == '@'
    &&& forall|q: int| 0 <= q < email.len() && q != p ==> email[q] != '@'
}

/// Why an address is refused, if it is, in words. An address is a name, one
/// `@`, and a domain with a dot in it; name and domain are not empty.
pub open spec fn email_rejection(email: Seq<char>) -> Option<Seq<char>> {
    if email.len() == 0 {
        Some("Email cannot be empty"@)
    } else if !exists|p: int| splits_at(email, p) {
        Some("Invalid email format"@)
    } else {
        let p = choose|p: int| splits_at(email, p);
        if p == 0 || p == email.len() - 1 {
            Some("Invalid email format"@)
        } else if !email.skip(p + 1).contains('.') {
            Some("Invalid email domain"@)
        } else {
            None
        }
    }
}

/// Tests an address.
#[verifier::rlimit(50)]
pub fn validate_email(email: &str) -> (result: Result<()>)
    ensures
        email_rejection(email@) is None ==> result is Ok,
        email_rejection(email@) matches Some(why) ==> (result matches Err(
            BitcoinUSTBillsError::ValidationError(said),
        ) && said@ == why),
{
    let chars = chars_of(email);
    if chars.len() == 0 {
        return Err(BitcoinUSTBillsError::validation_error("Email cannot be empty"));
    }
    let mut count: usize = 0;
    let mut place: usize = 0;
    let mut i: usize = 0;
    while i < chars.len()
        invariant
            i <= chars@.len(),
            chars@ == email@,
            count <= i,
            count == 0 ==> forall|q: int| 0 <= q < i ==> email@[q] != '@',
            count == 1 ==> place < i && email@[place as int] == '@' && forall|q: int|
                0 <= q < i && q != place ==> email@[q] != '@',
            count >= 2 ==> exists|a: int, b: int|
                0 <= a < b < i && email@[a] == '@' && email@[b] == '@',
        decreases chars@.len() - i,
    {
        if chars[i] == '@' {
            if count == 0 {
                place = i;
            } else if count == 1 {
                assert(email@[place as int] == '@' && email@[i as int] == '@');
            } else {
                let ghost (a, b) = choose|a: int, b: int|
                    0 <= a < b < i && email@[a] == '@' && email@[b] == '@';
                assert(0 <= a < b < i + 1 && email@[a] == '@' && email@[b] == '@');
            }
            count = count + 1;
        } else {
            if count >= 2 {
                let ghost (a, b) = choose|a: int, b: int|
                    0 <= a < b < i && email@[a] == '@' && email@[b] == '@';
                assert(0 <= a < b < i + 1 && email@[a] == '@' && email@[b] == '@');
            }
        }
        i += 1;
    }
    if count != 1 {
        proof {
            if count >= 2 {
                let (a, b) = choose|a: int, b: int|
                    0 <= a < b < i && email@[a] == '@' && email@[b] == '@';
                assert forall|p: int| !splits_at(email@, p) by {
                    if splits_at(email@, p) {
                        if p == a {
                            assert(email@[b] != '@');
                        } else {
                            assert(email@[a] != '@');
                        }
                    }
                }
            }
        }
        return Err(BitcoinUSTBillsError::validation_error("Invalid email format"));
    }
    proof {
        assert(splits_at(email@, place as int));
        let p = choose|p: int| splits_at(email@, p);
        assert(p == place);
    }
    if place == 0 || place == chars.len() - 1 {
        return Err(BitcoinUSTBillsError::validation_error("Invalid email format"));
    }
    let mut j: usize = place + 1;
    let ghost domain = email@.skip(place + 1);
    while j < chars.len()
        invariant
            place < j <= chars@.len(),
            chars@ == email@,
            domain == email@.skip(place + 1),
            email_rejection(email@) == if domain.contains('.') {
                None
            } else {
                Some("Invalid email domain"@)
            },
            forall|q: int| 0 <= q < j - place - 1 ==> domain[q] != '.',
        decreases chars@.len() - j,
    {
        if chars[j] == '.' {
            assert(domain[j - place - 1] == '.');
            return Ok(());
        }
        j += 1;
    }
    Err(BitcoinUSTBillsError::validation_error("Invalid email domain"))
}

/// The characters of a telephone number that count: digits and `+`.
pub open spec fn dialled() -> spec_fn(char) -> bool {
    |c: char| is_ascii_digit(c) || c == '+'
}

/// Why a telephone number is refused, if it is, in words. No number at all is
/// accepted. Of any other only digits and `+` count: there must be ten to
/// fifteen of them, and eleven at least where the first is `+`.
pub open spec fn phone_rejection(phone: Seq<char>) -> Option<Seq<char>> {
    let cleaned = phone.filter(dialled());
    if phone.len() == 0 {
        None
    } else if cleaned.len() < 10 || cleaned.len() > 15 {
        Some("Invalid phone number length"@)
    } else if cleaned[0] == '+' && cleaned.len() < 11 {
        Some("Invalid international phone number"@)
    } else {
        None
    }
}

/// Tests a telephone number.
#[verifier::rlimit(50)]
pub fn validate_phone_number(phone: &str) -> (result: Result<()>)
    ensures
        phone_rejection(phone@) is None ==> result is Ok,
        phone_rejection(phone@) matches Some(why) ==> (result matches Err(
            BitcoinUSTBillsError::ValidationError(said),
        ) && said@ == why),
{
    let chars = chars_of(phone);
    if chars.len() == 0 {
        return Ok(());
    }
    let mut cleaned: Vec<char> = Vec::new();
    let mut i: usize = 0;
    proof {
        lemma_filter_ends(phone@, dialled());
    }
    while i < chars.len()
        invariant
            i <= chars@.len(),
            chars@ == phone@,
            cleaned@ == phone@.take(i as int).filter(dialled()),
        decreases chars@.len() - i,
    {
        proof {
            lemma_filter_step(phone@, dialled(), i as int);
        }
        let c = chars[i];
        if check_ascii_digit(c) || c == '+' {
            cleaned.push(c);
        }
        i += 1;
    }
    proof {
        lemma_filter_ends(phone@, dialled());
    }
    if cleaned.len() < 10 || cleaned.len() > 15 {
        return Err(BitcoinUSTBillsError::validation_error("Invalid phone number length"));
    }
    if cleaned[0] == '+' {
        if cleaned.len() < 11 {
            return Err(
                BitcoinUSTBillsError::validation_error("Invalid international phone number"),
            );
        }
    }
    Ok(())
}

/// Tests a yearly yield: at most 100%.
pub fn validate_yield_rate(rate_bps: u64) -> (result: Result<()>)
    ensures
        rate_bps <= 10_000 ==> result is Ok,
        rate_bps > 10_000 ==> result matches Err(BitcoinUSTBillsError::InvalidYieldRate),
{
    if rate_bps > 10_000 {
        return Err(BitcoinUSTBillsError::InvalidYieldRate);
    }
    Ok(())
}

/// Tests a date of maturity: after `now`, and at most five years after.
pub fn validate_maturity_date(maturity_date: u64, now: u64) -> (result: Result<()>)
    ensures
        now < maturity_date <= now + MAX_MATURITY_SECONDS ==> result is Ok,
        !(now < maturity_date <= now + MAX_MATURITY_SECONDS) ==> result matches Err(
            BitcoinUSTBillsError::InvalidDate,
        ),
{
    if maturity_date <= now {
        return Err(BitcoinUSTBillsError::InvalidDate);
    }
    if maturity_date - now > MAX_MATURITY_SECONDS {
        return Err(BitcoinUSTBillsError::InvalidDate);
    }
    Ok(())
}

/// Tests a number of tokens: at least one and at most a thousand million.
pub fn validate_token_amount(amount: u64) -> (result: Result<()>)
    ensures
        0 < amount <= MAX_TOKEN_AMOUNT ==> result is Ok,
        !(0 < amount <= MAX_TOKEN_AMOUNT) ==> result matches Err(
            BitcoinUSTBillsError::InvalidTokenAmount,
        ),
{
    if amount == 0 {
        return Err(BitcoinUSTBillsError::InvalidTokenAmount);
    }
    if amount > MAX_TOKEN_AMOUNT {
        return Err(BitcoinUSTBillsError::InvalidTokenAmount);
    }
    Ok(())
}

/// Tests an investment against the least and the greatest that the settings
/// allow.
pub fn validate_investment_amount(amount: u64, config: &PlatformConfig) -> (result: Result<()>)
    ensures
        amount < config.minimum_investment ==> result matches Err(
            BitcoinUSTBillsError::MinimumInvestmentNotMet,
        ),
        config.minimum_investment <= amount && amount > config.maximum_investment
            ==> result matches Err(BitcoinUSTBillsError::MaximumInvestmentExceeded),
        config.minimum_investment <= amount <= config.maximum_investment ==> result is Ok,
{
    if amount < config.minimum_investment {
        return Err(BitcoinUSTBillsError::MinimumInvestmentNotMet);
    }
    if amount > config.maximum_investment {
        return Err(BitcoinUSTBillsError::MaximumInvestmentExceeded);
    }
    Ok(())
}

/// The time in whole seconds, of a time in nanoseconds.
pub fn get_current_timestamp(time_nanos: u64) -> (seconds: u64)
    ensures
        seconds == time_nanos / 1_000_000_000,
{
    time_nanos / 1_000_000_000
}

/// Whole days in a number of seconds.
pub fn timestamp_to_days(timestamp: u64) -> (days: u64)
    ensures
        days == timestamp / 86400,
{
    timestamp / 86400
}

/// Whole days from `start` to `end`; 0 where `end` is not after `start`.
pub fn days_between(start: u64, end: u64) -> (days: u64)
    ensures
        days == if end > start {
            (end - start) / 86400
        } else {
            0
        },
{
    if end > start {
        (end - start) / 86400
    } else {
        0
    }
}

/// The interest on a principal at a yearly rate over a number of days,
/// rounded down.
pub fn calculate_simple_interest(principal: u64, rate_bps: u64, time_in_days: u64) -> (interest:
    u64)
    ensures
        interest == saturated(prorated(principal as nat, rate_bps as nat, time_in_days as nat)),
{
    prorate(principal as u128, rate_bps, time_in_days)
}

/// The interest on a principal at the daily share of a yearly rate over a
/// number of days, rounded down.
pub fn calculate_daily_interest(principal: u64, annual_rate_bps: u64, days: u64) -> (interest: u64)
    ensures
        interest == saturated(prorated(principal as nat, annual_rate_bps as nat, days as nat)),
{
    prorate(principal as u128, annual_rate_bps, days)
}

/// The fee on an amount at a rate, rounded down.
pub fn calculate_fees(amount: u64, fee_rate_bps: u64) -> (fees: u64)
    ensures
        fees == saturated(share_of(amount as nat, fee_rate_bps as nat)),
{
    share(amount, fee_rate_bps)
}

/// An amount of cents in dollars: a dollar sign, the dollars, a point, and the
/// cents in two digits.
pub open spec fn dollars_text(amount_cents: u64) -> Seq<char> {
    "$"@ + decimal_text((amount_cents / 100) as nat) + "."@ + seq![
        digit_char((amount_cents % 100 / 10) as nat),
        digit_char((amount_cents % 10) as nat),
    ]
}

/// Writes an amount of cents in dollars.
pub fn format_amount_to_dollars(amount_cents: u64) -> (text: String)
    ensures
        text@ == dollars_text(amount_cents),
{
    let dollars = amount_cents / 100;
    let cents = amount_cents % 100;
    let text = String::from_str("$").concat(decimal(dollars).as_str()).concat(".").concat(
        digit_text(cents / 10),
    ).concat(digit_text(cents % 10));
    assert(text@ =~= dollars_text(amount_cents));
    text
}

/// Whether a character is white space.
pub open spec fn is_whitespace(c: char) -> bool {
    let u = c as u32;
    (0x09 <= u <= 0x0d) || u == 0x20 || u == 0x85 || u == 0xa0 || u == 0x1680 || (0x2000 <= u
        <= 0x200a) || u == 0x2028 || u == 0x2029 || u == 0x202f || u == 0x205f || u == 0x3000
}

fn check_whitespace(c: char) -> (yes: bool)
    ensures
        yes == is_whitespace(c),
{
    let u = c as u32;
    (0x09 <= u && u <= 0x0d) || u == 0x20 || u == 0x85 || u == 0xa0 || u == 0x1680 || (0x2000 <= u
        && u <= 0x200a) || u == 0x2028 || u == 0x2029 || u == 0x202f || u == 0x205f || u == 0x3000
}

/// Whether a text holds nothing but white space.
pub open spec fn is_blank(text: Seq<char>) -> bool {
    forall|i: int| 0 <= i < text.len() ==> is_whitespace(#[trigger] text[i])
}

/// Whether `i` is the place of the first character of a text that is no white
/// space.
pub open spec fn is_first_mark(text: Seq<char>, i: int) -> bool {
    &&& 0 <= i < text.len()
    &&& !is_whitespace(text[i])
    &&& forall|j: int| 0 <= j < i ==> is_whitespace(#[trigger] text[j])
}

/// Whether `i` is the place of the last character of a text that is no white
/// space.
pub open spec fn is_last_mark(text: Seq<char>, i: int) -> bool {
    &&& 0 <= i < text.len()
    &&& !is_whitespace(text[i])
    &&& forall|j: int| i < j < text.len() ==> is_whitespace(#[trigger] text[j])
}

/// A text without the white space at its beginning and at its end.
pub open spec fn trimmed(text: Seq<char>) -> Seq<char> {
    if is_blank(text) {
        Seq::empty()
    } else {
        text.subrange(
            choose|i: int| is_first_mark(text, i),
            (choose|i: int| is_last_mark(text, i)) + 1,
        )
    }
}

/// A text without the white space at its beginning and at its end.
#[verifier::rlimit(50)]
pub fn sanitize_string(input: &str) -> (clean: String)
    ensures
        clean@ == trimmed(input@),
{
    let chars = chars_of(input);
    let mut start: usize = 0;
    while start < chars.len() && check_whitespace(chars[start])
        invariant
            start <= chars@.len(),
            forall|j: int| 0 <= j < start ==> is_whitespace(#[trigger] chars@[j]),
        decreases chars@.len() - start,
    {
        start += 1;
    }
    if start == chars.len() {
        assert(is_blank(input@));
        assert(trimmed(input@) =~= ""@) by {
            reveal_strlit("");
        }
        return String::from_str("");
    }
    let mut end: usize = chars.len();
    while end > start + 1 && check_whitespace(chars[end - 1])
        invariant
            start < end <= chars@.len(),
            !is_whitespace(chars@[start as int]),
            forall|j: int| end <= j < chars@.len() ==> is_whitespace(#[trigger] chars@[j]),
        decreases end,
    {
        end -= 1;
    }
    proof {
        let text = input@;
        assert(!is_whitespace(text[start as int]));
        assert(is_first_mark(text, start as int));
        assert(is_last_mark(text, end - 1));
        let first = choose|i: int| is_first_mark(text, i);
        let last = choose|i: int| is_last_mark(text, i);
        if first < start {
            assert(is_whitespace(text[first]));
        } else if first > start {
            assert(is_whitespace(text[start as int]));
        }
        if last < end - 1 {
            assert(is_whitespace(text[end - 1]));
        } else if last > end - 1 {
            assert(is_whitespace(text[last]));
        }
    }
    String::from_str(input.substring_char(start, end))
}

/// Tests a country code: two or three bytes long.
pub fn validate_country(country: &str) -> (result: Result<()>)
    ensures
        2 <= encode_utf8(country@).len() <= 3 ==> result is Ok,
        country@.len() == 0 ==> (result matches Err(BitcoinUSTBillsError::ValidationError(said))
            && said@ == "Country is required"@),
        country@.len() != 0 && !(2 <= encode_utf8(country@).len() <= 3) ==> (result matches Err(
            BitcoinUSTBillsError::ValidationError(said),
        ) && said@ == "Invalid country code"@),
{
    if country.is_empty() {
        return Err(BitcoinUSTBillsError::validation_error("Country is required"));
    }
    let length = country.as_bytes().len();
    if length < 2 || length > 3 {
        return Err(BitcoinUSTBillsError::validation_error("Invalid country code"));
    }
    Ok(())
}

/// Tests that a text holds more than white space. The refusal names the
/// field.
pub fn validate_non_empty_string(value: &str, field_name: &str) -> (result: Result<()>)
    ensures
        !is_blank(value@) ==> result is Ok,
        is_blank(value@) ==> (result matches Err(BitcoinUSTBillsError::ValidationError(said))
            && said@ == field_name@ + " cannot be empty"@),
{
    let chars = chars_of(value);
    let mut i: usize = 0;
    while i < chars.len()
        invariant
            i <= chars@.len(),
            chars@ == value@,
            forall|j: int| 0 <= j < i ==> is_whitespace(#[trigger] chars@[j]),
        decreases chars@.len() - i,
    {
        if !check_whitespace(chars[i]) {
            return Ok(());
        }
        i += 1;
    }
    let said = String::from_str(field_name).concat(" cannot be empty");
    Err(BitcoinUSTBillsError::validation_error(said.as_str()))
}

/// Whether a date lies before `now`.
pub fn is_date_in_past(date: u64, now: u64) -> (past: bool)
    ensures
        past == (date < now),
{
    date < now
}

/// Whether a date lies at most `max_days_from_now` days after `now`.
pub fn is_date_within_range(date: u64, max_days_from_now: u64, now: u64) -> (within: bool)
    ensures
        within == (date <= now + max_days_from_now * 86400),
{
    let max_time: u128 = (now as u128) + (max_days_from_now as u128) * 86400u128;
    (date as u128) <= max_time
}

/// Tests an amount: more than nothing.
pub fn validate_positive_amount(amount: u64) -> (result: Result<()>)
    ensures
        amount > 0 ==> result is Ok,
        amount == 0 ==> result matches Err(BitcoinUSTBillsError::InvalidAmount),
{
    if amount == 0 {
        return Err(BitcoinUSTBillsError::InvalidAmount);
    }
    Ok(())
}

} // verus!
