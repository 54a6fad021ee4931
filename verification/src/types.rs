//! The records of the platform and what can be read off each of them.
//!
//! Amounts are whole cents, rates whole basis points (a hundredth of a percent),
//! times whole seconds since the epoch. Every record has a view, a value of
//! mathematical sequences and integers, in which the contracts of this crate
//! are stated.

use vstd::prelude::*;
use crate::money::{prorate, prorated, saturated};
use crate::principal::Principal;

verus! {

/// Seconds in a day.
pub const SECONDS_PER_DAY: u64 = 86400;

/// Where a bill stands.
#[derive(Clone, Copy, Debug, PartialEq, Eq, Structural)]
pub enum USTBillStatus {
    Active,
    SoldOut,
    Matured,
    Cancelled,
}

/// How far the verification of an account's owner has come.
#[derive(Clone, Copy, Debug, PartialEq, Eq, Structural)]
pub enum KYCStatus {
    Pending,
    Verified,
    Rejected,
    Expired,
}

/// How a holder takes the yield.
#[derive(Clone, Copy, Debug, PartialEq, Eq, Structural)]
pub enum YieldOption {
    /// Held until maturity, for the full yield.
    Maturity,
    /// Sold at any time, at the rate of the day.
    Flexible,
}

/// Where a holding stands.
#[derive(Clone, Copy, Debug, PartialEq, Eq, Structural)]
pub enum HoldingStatus {
    Active,
    Sold,
    Matured,
    Cancelled,
}

/// What kind of movement a transaction records.
#[derive(Clone, Copy, Debug, PartialEq, Eq, Structural)]
pub enum TransactionType {
    Deposit,
    Withdrawal,
    Purchase,
    Sale,
    YieldDistribution,
    Fee,
}

/// How a transaction ended.
#[derive(Clone, Copy, Debug, PartialEq, Eq, Structural)]
pub enum TransactionStatus {
    Pending,
    Completed,
    Failed,
    Cancelled,
}

/// The view of an optional text.
pub open spec fn option_text(text: Option<String>) -> Option<Seq<char>> {
    match text {
        Some(t) => Some(t@),
        None => None,
    }
}

/// Copies an optional text.
pub fn clone_option_text(text: &Option<String>) -> (copy: Option<String>)
    ensures
        option_text(copy) == option_text(*text),
{
    match text {
        Some(t) => Some(t.clone()),
        None => None,
    }
}

/// A tokenized short-term government debt instrument.
#[derive(Debug, PartialEq, Eq)]
pub struct USTBill {
    /// The identifier of the bill.
    pub id: String,
    /// The nine-character security identifier.
    pub cusip: String,
    /// What the bill pays at maturity, in cents.
    pub face_value: u64,
    /// What the whole bill is sold for, in cents.
    pub purchase_price: u64,
    /// When the bill matures, in seconds since the epoch.
    pub maturity_date: u64,
    /// The yearly yield in basis points: 526 is 5.26%.
    pub annual_yield_bps: u64,
    /// How many tokens the bill is divided into.
    pub total_tokens: u64,
    /// How many of them have been sold.
    pub tokens_sold: u64,
    /// Where the bill stands.
    pub status: USTBillStatus,
    /// When the record was created.
    pub created_at: u64,
    /// When the record was last written.
    pub updated_at: u64,
    /// Who issued the bill.
    pub issuer: String,
    /// The term of the bill: 4-week, 13-week, 26-week, 52-week.
    pub bill_type: String,
}

/// The view of a [`USTBill`].
pub struct USTBillView {
    pub id: Seq<char>,
    pub cusip: Seq<char>,
    pub face_value: u64,
    pub purchase_price: u64,
    pub maturity_date: u64,
    pub annual_yield_bps: u64,
    pub total_tokens: u64,
    pub tokens_sold: u64,
    pub status: USTBillStatus,
    pub created_at: u64,
    pub updated_at: u64,
    pub issuer: Seq<char>,
    pub bill_type: Seq<char>,
}

impl View for USTBill {
    type V = USTBillView;

    open spec fn view(&self) -> USTBillView {
        USTBillView {
            id: self.id@,
            cusip: self.cusip@,
            face_value: self.face_value,
            purchase_price: self.purchase_price,
            maturity_date: self.maturity_date,
            annual_yield_bps: self.annual_yield_bps,
            total_tokens: self.total_tokens,
            tokens_sold: self.tokens_sold,
            status: self.status,
            created_at: self.created_at,
            updated_at: self.updated_at,
            issuer: self.issuer@,
            bill_type: self.bill_type@,
        }
    }
}

impl Clone for USTBill {
    fn clone(&self) -> (copy: Self)
        ensures
            copy@ == self@,
    {
        USTBill {
            id: self.id.clone(),
            cusip: self.cusip.clone(),
            face_value: self.face_value,
            purchase_price: self.purchase_price,
            maturity_date: self.maturity_date,
            annual_yield_bps: self.annual_yield_bps,
            total_tokens: self.total_tokens,
            tokens_sold: self.tokens_sold,
            status: self.status,
            created_at: self.created_at,
            updated_at: self.updated_at,
            issuer: self.issuer.clone(),
            bill_type: self.bill_type.clone(),
        }
    }
}

/// The account of a registered identity.
#[derive(Debug, PartialEq, Eq)]
pub struct User {
    /// The identity that owns the account.
    pub principal: Principal,
    /// The contact address.
    pub email: String,
    /// How far identity verification has come.
    pub kyc_status: KYCStatus,
    /// The custodial balance, in cents.
    pub wallet_balance: u64,
    /// The sum of all purchase costs, in cents.
    pub total_invested: u64,
    /// The sum of all yield paid out, in cents.
    pub total_yield_earned: u64,
    /// When the record was created.
    pub created_at: u64,
    /// When the record was last written.
    pub updated_at: u64,
    /// Whether the account may act.
    pub is_active: bool,
    /// A telephone number, if one was given.
    pub phone_number: Option<String>,
    /// The country code.
    pub country: String,
}

/// The view of a [`User`].
pub struct UserView {
    pub principal: Seq<u8>,
    pub email: Seq<char>,
    pub kyc_status: KYCStatus,
    pub wallet_balance: u64,
    pub total_invested: u64,
    pub total_yield_earned: u64,
    pub created_at: u64,
    pub updated_at: u64,
    pub is_active: bool,
    pub phone_number: Option<Seq<char>>,
    pub country: Seq<char>,
}

impl View for User {
    type V = UserView;

    open spec fn view(&self) -> UserView {
        UserView {
            principal: self.principal@,
            email: self.email@,
            kyc_status: self.kyc_status,
            wallet_balance: self.wallet_balance,
            total_invested: self.total_invested,
            total_yield_earned: self.total_yield_earned,
            created_at: self.created_at,
            updated_at: self.updated_at,
            is_active: self.is_active,
            phone_number: option_text(self.phone_number),
            country: self.country@,
        }
    }
}

impl Clone for User {
    fn clone(&self) -> (copy: Self)
        ensures
            copy@ == self@,
    {
        User {
            principal: self.principal.clone(),
            email: self.email.clone(),
            kyc_status: self.kyc_status,
            wallet_balance: self.wallet_balance,
            total_invested: self.total_invested,
            total_yield_earned: self.total_yield_earned,
            created_at: self.created_at,
            updated_at: self.updated_at,
            is_active: self.is_active,
            phone_number: clone_option_text(&self.phone_number),
            country: self.country.clone(),
        }
    }
}

/// A buyer's share of one bill.
#[derive(Debug, PartialEq, Eq)]
pub struct TokenHolding {
    /// The identifier of the holding.
    pub id: String,
    /// The identity that owns the holding.
    pub user_principal: Principal,
    /// The bill that the tokens belong to.
    pub ustbill_id: String,
    /// How many tokens are held.
    pub tokens_owned: u64,
    /// What one token cost, in cents.
    pub purchase_price_per_token: u64,
    /// When the tokens were bought.
    pub purchase_date: u64,
    /// How the yield is taken.
    pub yield_option: YieldOption,
    /// Where the holding stands.
    pub status: HoldingStatus,
    /// The present value, in cents.
    pub current_value: u64,
    /// The yield expected at maturity, in cents.
    pub projected_yield: u64,
}

/// The view of a [`TokenHolding`].
pub struct TokenHoldingView {
    pub id: Seq<char>,
    pub user_principal: Seq<u8>,
    pub ustbill_id: Seq<char>,
    pub tokens_owned: u64,
    pub purchase_price_per_token: u64,
    pub purchase_date: u64,
    pub yield_option: YieldOption,
    pub status: HoldingStatus,
    pub current_value: u64,
    pub projected_yield: u64,
}

impl View for TokenHolding {
    type V = TokenHoldingView;

    open spec fn view(&self) -> TokenHoldingView {
        TokenHoldingView {
            id: self.id@,
            user_principal: self.user_principal@,
            ustbill_id: self.ustbill_id@,
            tokens_owned: self.tokens_owned,
            purchase_price_per_token: self.purchase_price_per_token,
            purchase_date: self.purchase_date,
            yield_option: self.yield_option,
            status: self.status,
            current_value: self.current_value,
            projected_yield: self.projected_yield,
        }
    }
}

impl Clone for TokenHolding {
    fn clone(&self) -> (copy: Self)
        ensures
            copy@ == self@,
    {
        TokenHolding {
            id: self.id.clone(),
            user_principal: self.user_principal.clone(),
            ustbill_id: self.ustbill_id.clone(),
            tokens_owned: self.tokens_owned,
            purchase_price_per_token: self.purchase_price_per_token,
            purchase_date: self.purchase_date,
            yield_option: self.yield_option,
            status: self.status,
            current_value: self.current_value,
            projected_yield: self.projected_yield,
        }
    }
}

/// One entry of the audit trail.
#[derive(Debug, PartialEq, Eq)]
pub struct Transaction {
    /// The identifier of the entry.
    pub id: String,
    /// The identity that the entry belongs to.
    pub user_principal: Principal,
    /// What kind of movement it records.
    pub transaction_type: TransactionType,
    /// The amount moved, in cents.
    pub amount: u64,
    /// The bill concerned, if any.
    pub ustbill_id: Option<String>,
    /// The holding concerned, if any.
    pub holding_id: Option<String>,
    /// When it happened.
    pub timestamp: u64,
    /// How it ended.
    pub status: TransactionStatus,
    /// The fees charged with it, in cents.
    pub fees: u64,
    /// A line for the reader.
    pub description: String,
}

/// The view of a [`Transaction`].
pub struct TransactionView {
    pub id: Seq<char>,
    pub user_principal: Seq<u8>,
    pub transaction_type: TransactionType,
    pub amount: u64,
    pub ustbill_id: Option<Seq<char>>,
    pub holding_id: Option<Seq<char>>,
    pub timestamp: u64,
    pub status: TransactionStatus,
    pub fees: u64,
    pub description: Seq<char>,
}

impl View for Transaction {
    type V = TransactionView;

    open spec fn view(&self) -> TransactionView {
        TransactionView {
            id: self.id@,
            user_principal: self.user_principal@,
            transaction_type: self.transaction_type,
            amount: self.amount,
            ustbill_id: option_text(self.ustbill_id),
            holding_id: option_text(self.holding_id),
            timestamp: self.timestamp,
            status: self.status,
            fees: self.fees,
            description: self.description@,
        }
    }
}

impl Clone for Transaction {
    fn clone(&self) -> (copy: Self)
        ensures
            copy@ == self@,
    {
        Transaction {
            id: self.id.clone(),
            user_principal: self.user_principal.clone(),
            transaction_type: self.transaction_type,
            amount: self.amount,
            ustbill_id: clone_option_text(&self.ustbill_id),
            holding_id: clone_option_text(&self.holding_id),
            timestamp: self.timestamp,
            status: self.status,
            fees: self.fees,
            description: self.description.clone(),
        }
    }
}

/// A reference rate published for a security.
#[derive(Debug, PartialEq, Eq)]
pub struct TreasuryRate {
    /// The day of the record.
    pub record_date: String,
    /// The class of the security.
    pub security_type: String,
    /// The description of the security.
    pub security_desc: String,
    /// The day that the rate holds for.
    pub rate_date: String,
    /// The rate in basis points.
    pub rate_bps: u64,
    /// The security identifier.
    pub cusip: String,
}

/// The view of a [`TreasuryRate`].
pub struct TreasuryRateView {
    pub record_date: Seq<char>,
    pub security_type: Seq<char>,
    pub security_desc: Seq<char>,
    pub rate_date: Seq<char>,
    pub rate_bps: u64,
    pub cusip: Seq<char>,
}

impl View for TreasuryRate {
    type V = TreasuryRateView;

    open spec fn view(&self) -> TreasuryRateView {
        TreasuryRateView {
            record_date: self.record_date@,
            security_type: self.security_type@,
            security_desc: self.security_desc@,
            rate_date: self.rate_date@,
            rate_bps: self.rate_bps,
            cusip: self.cusip@,
        }
    }
}

impl Clone for TreasuryRate {
    fn clone(&self) -> (copy: Self)
        ensures
            copy@ == self@,
    {
        TreasuryRate {
            record_date: self.record_date.clone(),
            security_type: self.security_type.clone(),
            security_desc: self.security_desc.clone(),
            rate_date: self.rate_date.clone(),
            rate_bps: self.rate_bps,
            cusip: self.cusip.clone(),
        }
    }
}

/// A purchase made at the broker, as the ledger records it.
#[derive(Debug, PartialEq, Eq)]
pub struct VerifiedBrokerPurchase {
    /// The amount bought.
    pub amount: u64,
    /// The price paid.
    pub price: u64,
    /// When the record was made.
    pub timestamp: u64,
    /// The broker's identifier of the purchase.
    pub broker_txn_id: String,
    /// The term of the bill bought.
    pub ustbill_type: String,
}

/// The view of a [`VerifiedBrokerPurchase`].
pub struct VerifiedBrokerPurchaseView {
    pub amount: u64,
    pub price: u64,
    pub timestamp: u64,
    pub broker_txn_id: Seq<char>,
    pub ustbill_type: Seq<char>,
}

impl View for VerifiedBrokerPurchase {
    type V = VerifiedBrokerPurchaseView;

    open spec fn view(&self) -> VerifiedBrokerPurchaseView {
        VerifiedBrokerPurchaseView {
            amount: self.amount,
            price: self.price,
            timestamp: self.timestamp,
            broker_txn_id: self.broker_txn_id@,
            ustbill_type: self.ustbill_type@,
        }
    }
}

impl Clone for VerifiedBrokerPurchase {
    fn clone(&self) -> (copy: Self)
        ensures
            copy@ == self@,
    {
        VerifiedBrokerPurchase {
            amount: self.amount,
            price: self.price,
            timestamp: self.timestamp,
            broker_txn_id: self.broker_txn_id.clone(),
            ustbill_type: self.ustbill_type.clone(),
        }
    }
}

/// What an administrator gives to offer a new bill.
#[derive(Debug, PartialEq, Eq)]
pub struct USTBillCreateRequest {
    /// The nine-character security identifier.
    pub cusip: String,
    /// What the bill pays at maturity, in cents.
    pub face_value: u64,
    /// What the whole bill is sold for, in cents.
    pub purchase_price: u64,
    /// When the bill matures.
    pub maturity_date: u64,
    /// The yearly yield in basis points.
    pub annual_yield_bps: u64,
    /// How many tokens the bill is divided into.
    pub total_tokens: u64,
    /// Who issued the bill.
    pub issuer: String,
    /// The term of the bill.
    pub bill_type: String,
}

/// The view of a [`USTBillCreateRequest`].
pub struct USTBillCreateRequestView {
    pub cusip: Seq<char>,
    pub face_value: u64,
    pub purchase_price: u64,
    pub maturity_date: u64,
    pub annual_yield_bps: u64,
    pub total_tokens: u64,
    pub issuer: Seq<char>,
    pub bill_type: Seq<char>,
}

impl View for USTBillCreateRequest {
    type V = USTBillCreateRequestView;

    open spec fn view(&self) -> USTBillCreateRequestView {
        USTBillCreateRequestView {
            cusip: self.cusip@,
            face_value: self.face_value,
            purchase_price: self.purchase_price,
            maturity_date: self.maturity_date,
            annual_yield_bps: self.annual_yield_bps,
            total_tokens: self.total_tokens,
            issuer: self.issuer@,
            bill_type: self.bill_type@,
        }
    }
}

impl Clone for USTBillCreateRequest {
    fn clone(&self) -> (copy: Self)
        ensures
            copy@ == self@,
    {
        USTBillCreateRequest {
            cusip: self.cusip.clone(),
            face_value: self.face_value,
            purchase_price: self.purchase_price,
            maturity_date: self.maturity_date,
            annual_yield_bps: self.annual_yield_bps,
            total_tokens: self.total_tokens,
            issuer: self.issuer.clone(),
            bill_type: self.bill_type.clone(),
        }
    }
}

/// What a caller gives to open an account.
#[derive(Debug, PartialEq, Eq)]
pub struct UserRegistrationRequest {
    /// The contact address.
    pub email: String,
    /// A telephone number, if any.
    pub phone_number: Option<String>,
    /// The country code.
    pub country: String,
}

/// The view of a [`UserRegistrationRequest`].
pub struct UserRegistrationRequestView {
    pub email: Seq<char>,
    pub phone_number: Option<Seq<char>>,
    pub country: Seq<char>,
}

impl View for UserRegistrationRequest {
    type V = UserRegistrationRequestView;

    open spec fn view(&self) -> UserRegistrationRequestView {
        UserRegistrationRequestView {
            email: self.email@,
            phone_number: option_text(self.phone_number),
            country: self.country@,
        }
    }
}

impl Clone for UserRegistrationRequest {
    fn clone(&self) -> (copy: Self)
        ensures
            copy@ == self@,
    {
        UserRegistrationRequest {
            email: self.email.clone(),
            phone_number: clone_option_text(&self.phone_number),
            country: self.country.clone(),
        }
    }
}

/// One payment of yield to a holder.
#[derive(Debug, PartialEq, Eq)]
pub struct YieldDistribution {
    /// The holding paid.
    pub holding_id: String,
    /// The identity paid.
    pub user_principal: Principal,
    /// The amount, in cents.
    pub yield_amount: u64,
    /// When it was paid.
    pub distribution_date: u64,
    /// The bill that the yield comes from.
    pub ustbill_id: String,
}

/// The view of a [`YieldDistribution`].
pub struct YieldDistributionView {
    pub holding_id: Seq<char>,
    pub user_principal: Seq<u8>,
    pub yield_amount: u64,
    pub distribution_date: u64,
    pub ustbill_id: Seq<char>,
}

impl View for YieldDistribution {
    type V = YieldDistributionView;

    open spec fn view(&self) -> YieldDistributionView {
        YieldDistributionView {
            holding_id: self.holding_id@,
            user_principal: self.user_principal@,
            yield_amount: self.yield_amount,
            distribution_date: self.distribution_date,
            ustbill_id: self.ustbill_id@,
        }
    }
}

impl Clone for YieldDistribution {
    fn clone(&self) -> (copy: Self)
        ensures
            copy@ == self@,
    {
        YieldDistribution {
            holding_id: self.holding_id.clone(),
            user_principal: self.user_principal.clone(),
            yield_amount: self.yield_amount,
            distribution_date: self.distribution_date,
            ustbill_id: self.ustbill_id.clone(),
        }
    }
}

/// What a holding is expected to earn until maturity.
#[derive(Debug, PartialEq, Eq)]
pub struct YieldProjection {
    /// The holding.
    pub holding_id: String,
    /// Its present value, in cents.
    pub current_value: u64,
    /// The yield expected until maturity, in cents.
    pub projected_yield: u64,
    /// That yield as a share of the present value, in basis points.
    pub yield_bps: u64,
    /// Whole days left.
    pub days_to_maturity: u64,
    /// The yearly yield of the bill, in basis points.
    pub annual_yield_rate_bps: u64,
}

/// The view of a [`YieldProjection`].
pub struct YieldProjectionView {
    pub holding_id: Seq<char>,
    pub current_value: u64,
    pub projected_yield: u64,
    pub yield_bps: u64,
    pub days_to_maturity: u64,
    pub annual_yield_rate_bps: u64,
}

impl View for YieldProjection {
    type V = YieldProjectionView;

    open spec fn view(&self) -> YieldProjectionView {
        YieldProjectionView {
            holding_id: self.holding_id@,
            current_value: self.current_value,
            projected_yield: self.projected_yield,
            yield_bps: self.yield_bps,
            days_to_maturity: self.days_to_maturity,
            annual_yield_rate_bps: self.annual_yield_rate_bps,
        }
    }
}

impl Clone for YieldProjection {
    fn clone(&self) -> (copy: Self)
        ensures
            copy@ == self@,
    {
        YieldProjection {
            holding_id: self.holding_id.clone(),
            current_value: self.current_value,
            projected_yield: self.projected_yield,
            yield_bps: self.yield_bps,
            days_to_maturity: self.days_to_maturity,
            annual_yield_rate_bps: self.annual_yield_rate_bps,
        }
    }
}

/// The settings of the platform: a single record.
#[derive(Clone, Copy, Debug, PartialEq, Eq, Structural)]
pub struct PlatformConfig {
    /// The fee charged on a purchase, in basis points of its cost.
    pub platform_fee_bps: u64,
    /// The least cost of a purchase, in cents.
    pub minimum_investment: u64,
    /// The greatest cost of a purchase, in cents.
    pub maximum_investment: u64,
    /// Days between two distributions of yield.
    pub yield_distribution_frequency: u64,
    /// Days for which a verification holds.
    pub kyc_expiry_days: u64,
    /// Seconds between two refreshes of the reference rates.
    pub treasury_api_refresh_interval: u64,
}

impl View for PlatformConfig {
    type V = PlatformConfig;

    open spec fn view(&self) -> PlatformConfig {
        *self
    }
}

impl PlatformConfig {
    /// The settings of a new platform: a fee of half a percent, purchases
    /// between one dollar and ten thousand dollars, a daily distribution, a
    /// verification that holds for a year, an hourly refresh.
    pub open spec fn initial() -> PlatformConfig {
        PlatformConfig {
            platform_fee_bps: 50,
            minimum_investment: 100,
            maximum_investment: 1_000_000,
            yield_distribution_frequency: 1,
            kyc_expiry_days: 365,
            treasury_api_refresh_interval: 3600,
        }
    }
}

impl Default for PlatformConfig {
    fn default() -> (config: Self)
        ensures
            config == PlatformConfig::initial(),
    {
        PlatformConfig {
            platform_fee_bps: 50,
            minimum_investment: 100,
            maximum_investment: 1_000_000,
            yield_distribution_frequency: 1,
            kyc_expiry_days: 365,
            treasury_api_refresh_interval: 3600,
        }
    }
}

/// The running figures of all trading: a single record, updated with every
/// purchase and never computed again from the history.
#[derive(Clone, Copy, Debug, PartialEq, Eq, Structural)]
pub struct TradingMetrics {
    pub total_volume: u64,
    pub total_transactions: u64,
    pub average_price: u64,
    pub highest_price: u64,
    pub lowest_price: u64,
    pub last_updated: u64,
}

impl TradingMetrics {
    /// The figures before any trade.
    pub open spec fn initial() -> TradingMetrics {
        TradingMetrics {
            total_volume: 0,
            total_transactions: 0,
            average_price: 0,
            highest_price: 0,
            lowest_price: 0,
            last_updated: 0,
        }
    }

    /// The figures after one more trade of the given volume.
    pub open spec fn with_volume(self, volume: u64, now: u64) -> TradingMetrics {
        TradingMetrics {
            total_volume: (self.total_volume + volume) as u64,
            total_transactions: (self.total_transactions + 1) as u64,
            last_updated: now,
            ..self
        }
    }

    /// The figures after one more price was seen. The first price other than 0
    /// becomes both the highest and the lowest; the average moves as the mean
    /// of the old average, weighted with the volume so far, and the new price.
    pub open spec fn with_price(self, price: u64, now: u64) -> TradingMetrics {
        TradingMetrics {
            highest_price: if self.highest_price == 0 || price > self.highest_price {
                price
            } else {
                self.highest_price
            },
            lowest_price: if self.lowest_price == 0 || price < self.lowest_price {
                price
            } else {
                self.lowest_price
            },
            average_price: if self.total_volume > 0 {
                ((self.average_price * self.total_volume + price) / (self.total_volume + 1)) as u64
            } else {
                price
            },
            last_updated: now,
            ..self
        }
    }

    /// Computes [`Self::with_volume`].
    pub fn record_volume(self, volume: u64, now: u64) -> (after: TradingMetrics)
        requires
            self.total_volume + volume <= u64::MAX,
            self.total_transactions + 1 <= u64::MAX,
        ensures
            after == self.with_volume(volume, now),
    {
        TradingMetrics {
            total_volume: self.total_volume + volume,
            total_transactions: self.total_transactions + 1,
            average_price: self.average_price,
            highest_price: self.highest_price,
            lowest_price: self.lowest_price,
            last_updated: now,
        }
    }

    /// Computes [`Self::with_price`]. The weighted mean never exceeds the
    /// greater of the old average and the new price, so it always fits.
    pub fn record_price(self, price: u64, now: u64) -> (after: TradingMetrics)
        ensures
            after == self.with_price(price, now),
    {
        let highest_price = if self.highest_price == 0 || price > self.highest_price {
            price
        } else {
            self.highest_price
        };
        let lowest_price = if self.lowest_price == 0 || price < self.lowest_price {
            price
        } else {
            self.lowest_price
        };
        let average_price = if self.total_volume > 0 {
            let average = self.average_price;
            let volume = self.total_volume;
            assert(average * volume + price <= u64::MAX * (volume + 1)) by (nonlinear_arith)
                requires
                    average <= u64::MAX,
                    price <= u64::MAX,
                    volume >= 0,
            ;
            assert(u64::MAX * (volume + 1)
                <= u64::MAX * 0x1_0000_0000_0000_0000) by (nonlinear_arith)
                requires
                    volume + 1 <= 0x1_0000_0000_0000_0000,
            ;
            assert((average * volume + price) / (volume + 1) <= u64::MAX) by (nonlinear_arith)
                requires
                    average * volume + price <= u64::MAX * (volume + 1),
                    volume + 1 > 0,
            ;
            let weighted: u128 = (average as u128) * (volume as u128) + (price as u128);
            (weighted / (volume as u128 + 1)) as u64
        } else {
            price
        };
        TradingMetrics {
            total_volume: self.total_volume,
            total_transactions: self.total_transactions,
            average_price,
            highest_price,
            lowest_price,
            last_updated: now,
        }
    }
}

impl View for TradingMetrics {
    type V = TradingMetrics;

    open spec fn view(&self) -> TradingMetrics {
        *self
    }
}

/// One page of a listing.
#[derive(Debug, PartialEq, Eq)]
pub struct PaginatedResponse<T> {
    /// The entries of the page.
    pub data: Vec<T>,
    /// How many entries the whole listing has.
    pub total: usize,
    /// The number of the page, from 0.
    pub page: usize,
    /// How many entries a full page holds.
    pub per_page: usize,
    /// Whether entries follow after this page.
    pub has_next: bool,
}

/// What the rate source says about its answer.
#[derive(Debug, PartialEq, Eq)]
pub struct TreasuryApiMeta {
    /// How many records the answer holds.
    pub count: u64,
    /// The label of each field, by the field's name.
    pub labels: Vec<(String, String)>,
}

/// An answer of the rate source.
#[derive(Debug, PartialEq, Eq)]
pub struct TreasuryApiResponse {
    pub data: Vec<TreasuryRate>,
    pub meta: TreasuryApiMeta,
}

impl USTBillView {
    /// What holds of every bill: no more tokens are sold than there are, and a
    /// bill that is sold out has none left.
    pub open spec fn well_formed(self) -> bool {
        &&& self.tokens_sold <= self.total_tokens
        &&& self.status == USTBillStatus::SoldOut ==> self.tokens_sold == self.total_tokens
    }

    /// The tokens that can still be bought.
    pub open spec fn available_tokens(self) -> int {
        self.total_tokens - self.tokens_sold
    }

    /// Whether tokens of the bill can be bought at all.
    pub open spec fn is_available_for_purchase(self) -> bool {
        self.status == USTBillStatus::Active && self.available_tokens() > 0
    }

    /// Whole days from `now` until maturity; 0 from maturity on.
    pub open spec fn days_to_maturity(self, now: u64) -> int {
        if self.maturity_date > now {
            (self.maturity_date - now) / 86400
        } else {
            0
        }
    }
}

impl USTBill {
    /// The tokens that can still be bought.
    pub fn available_tokens(&self) -> (available: u64)
        requires
            self.tokens_sold <= self.total_tokens,
        ensures
            available == self@.available_tokens(),
    {
        self.total_tokens - self.tokens_sold
    }

    /// Whether tokens of the bill can be bought at all: the bill is active and
    /// not every token is sold.
    pub fn is_available_for_purchase(&self) -> (available: bool)
        ensures
            available == self@.is_available_for_purchase(),
    {
        self.status == USTBillStatus::Active && self.tokens_sold < self.total_tokens
    }

    /// Whole days from `now` until maturity; 0 from maturity on.
    pub fn days_to_maturity(&self, now: u64) -> (days: u64)
        ensures
            days == self@.days_to_maturity(now),
    {
        if self.maturity_date > now {
            (self.maturity_date - now) / SECONDS_PER_DAY
        } else {
            0
        }
    }
}

impl UserView {
    /// Whether the account may trade: its owner is verified and it is active.
    pub open spec fn is_eligible_for_trading(self) -> bool {
        self.kyc_status == KYCStatus::Verified && self.is_active
    }
}

impl User {
    /// Whether the account may trade: its owner is verified and it is active.
    pub fn is_eligible_for_trading(&self) -> (eligible: bool)
        ensures
            eligible == self@.is_eligible_for_trading(),
    {
        self.kyc_status == KYCStatus::Verified && self.is_active
    }

    /// The value of everything the account holds: what it has invested.
    pub fn total_portfolio_value(&self) -> (value: u64)
        ensures
            value == self.total_invested,
    {
        self.total_invested
    }
}

impl TokenHoldingView {
    /// What the holding has earned after `days_held` days at the yearly rate
    /// `annual_rate_bps`, on what was paid for it.
    pub open spec fn accrued_yield(self, annual_rate_bps: u64, days_held: u64) -> nat {
        prorated(
            (self.tokens_owned * self.purchase_price_per_token) as nat,
            annual_rate_bps as nat,
            days_held as nat,
        )
    }
}

impl TokenHolding {
    /// What the holding has earned after `days_held` days at the yearly rate
    /// `annual_rate_bps`, rounded down to the cent.
    pub fn calculate_current_yield(&self, annual_rate_bps: u64, days_held: u64) -> (earned: u64)
        ensures
            earned == saturated(self@.accrued_yield(annual_rate_bps, days_held)),
    {
        assert(self.tokens_owned * self.purchase_price_per_token <= u64::MAX * u64::MAX)
            by (nonlinear_arith)
            requires
                self.tokens_owned <= u64::MAX,
                self.purchase_price_per_token <= u64::MAX,
        ;
        let paid: u128 = (self.tokens_owned as u128) * (self.purchase_price_per_token as u128);
        prorate(paid, annual_rate_bps, days_held)
    }

    /// Whether the holding is active.
    pub fn is_active(&self) -> (active: bool)
        ensures
            active == (self.status == HoldingStatus::Active),
    {
        self.status == HoldingStatus::Active
    }
}

} // verus!
