//! The error values of the platform.
//!
//! Every failure is an ordinary value of [`BitcoinUSTBillsError`]; nothing in
//! this crate panics or retries. Each variant has a fixed human-readable
//! message, stated exactly by [`BitcoinUSTBillsError::message_text`].

use vstd::prelude::*;
use vstd::string::StringExecFns;
use vstd::std_specs::convert::FromSpecImpl;

verus! {

/// Everything that an operation of the platform can fail with.
#[derive(Debug, Clone, PartialEq, Eq)]
pub enum BitcoinUSTBillsError {
    // Accounts
    UserNotFound,
    UserAlreadyExists,
    KYCNotVerified,
    KYCExpired,
    InvalidUserData,
    // Bills
    USTBillNotFound,
    USTBillAlreadyExists,
    USTBillSoldOut,
    USTBillMatured,
    USTBillCancelled,
    InvalidUSTBillData,
    // Trading
    InsufficientFunds,
    InsufficientTokens,
    InvalidAmount,
    MinimumInvestmentNotMet,
    MaximumInvestmentExceeded,
    TradingNotAllowed,
    // Holdings
    HoldingNotFound,
    HoldingAlreadySold,
    HoldingMatured,
    InvalidHoldingData,
    // Transactions
    TransactionNotFound,
    TransactionFailed,
    TransactionCancelled,
    InvalidTransactionType,
    // Platform
    PlatformConfigurationError,
    PlatformFeesCalculationError,
    // External data
    ExternalAPIError(String),
    TreasuryDataFetchError,
    HTTPRequestError(String),
    // Storage
    DatabaseError(String),
    StorageError(String),
    SerializationError(String),
    // Authorization
    Unauthorized,
    AnonymousCaller,
    InvalidPrincipal,
    AccessDenied,
    // Validation
    ValidationError(String),
    InvalidCUSIP,
    InvalidDate,
    InvalidYieldRate,
    InvalidTokenAmount,
    // System
    SystemError(String),
    InternalError(String),
    NotImplemented,
    // Yield
    YieldCalculationError,
    YieldDistributionError,
    MaturityDatePassed,
    // Kept for older callers
    DidntFindUserData,
    FailedToAddToList,
}

/// The result of an operation of the platform.
pub type Result<T> = core::result::Result<T, BitcoinUSTBillsError>;

/// The three failures of the first version of the interface.
#[derive(Debug, Clone, Copy, PartialEq, Eq)]
pub enum GetUserDataError {
    AnonymousCaller,
    DidntFindUserData,
    FailedToAddToList,
}

impl BitcoinUSTBillsError {
    /// The message of this error: a fixed text, followed by the detail that the
    /// variant carries, if it carries one.
    pub open spec fn message_text(&self) -> Seq<char> {
        match self {
            BitcoinUSTBillsError::UserNotFound => "User not found"@,
            BitcoinUSTBillsError::UserAlreadyExists => "User already exists"@,
            BitcoinUSTBillsError::KYCNotVerified => "KYC verification required"@,
            BitcoinUSTBillsError::KYCExpired => "KYC verification has expired"@,
            BitcoinUSTBillsError::InvalidUserData => "Invalid user data provided"@,
            BitcoinUSTBillsError::USTBillNotFound => "US Treasury Bill not found"@,
            BitcoinUSTBillsError::USTBillAlreadyExists => "US Treasury Bill already exists"@,
            BitcoinUSTBillsError::USTBillSoldOut => "US Treasury Bill is sold out"@,
            BitcoinUSTBillsError::USTBillMatured => "US Treasury Bill has already matured"@,
            BitcoinUSTBillsError::USTBillCancelled => "US Treasury Bill has been cancelled"@,
            BitcoinUSTBillsError::InvalidUSTBillData => "Invalid US Treasury Bill data"@,
            BitcoinUSTBillsError::InsufficientFunds => "Insufficient funds in wallet"@,
            BitcoinUSTBillsError::InsufficientTokens => "Insufficient tokens for transaction"@,
            BitcoinUSTBillsError::InvalidAmount => "Invalid transaction amount"@,
            BitcoinUSTBillsError::MinimumInvestmentNotMet => "Minimum investment amount not met"@,
            BitcoinUSTBillsError::MaximumInvestmentExceeded => "Maximum investment amount exceeded"@,
            BitcoinUSTBillsError::TradingNotAllowed => "Trading not allowed for this user"@,
            BitcoinUSTBillsError::HoldingNotFound => "Token holding not found"@,
            BitcoinUSTBillsError::HoldingAlreadySold => "Token holding already sold"@,
            BitcoinUSTBillsError::HoldingMatured => "Token holding has matured"@,
            BitcoinUSTBillsError::InvalidHoldingData => "Invalid holding data"@,
            BitcoinUSTBillsError::TransactionNotFound => "Transaction not found"@,
            BitcoinUSTBillsError::TransactionFailed => "Transaction failed"@,
            BitcoinUSTBillsError::TransactionCancelled => "Transaction was cancelled"@,
            BitcoinUSTBillsError::InvalidTransactionType => "Invalid transaction type"@,
            BitcoinUSTBillsError::PlatformConfigurationError => "Platform configuration error"@,
            BitcoinUSTBillsError::PlatformFeesCalculationError => "Platform fees calculation error"@,
            BitcoinUSTBillsError::ExternalAPIError(detail) => "External API error: "@ + detail@,
            BitcoinUSTBillsError::TreasuryDataFetchError => "Failed to fetch Treasury data"@,
            BitcoinUSTBillsError::HTTPRequestError(detail) => "HTTP request error: "@ + detail@,
            BitcoinUSTBillsError::DatabaseError(detail) => "Database error: "@ + detail@,
            BitcoinUSTBillsError::StorageError(detail) => "Storage error: "@ + detail@,
            BitcoinUSTBillsError::SerializationError(detail) => "Serialization error: "@ + detail@,
            BitcoinUSTBillsError::Unauthorized => "Unauthorized access"@,
            BitcoinUSTBillsError::AnonymousCaller => "Anonymous caller not allowed"@,
            BitcoinUSTBillsError::InvalidPrincipal => "Invalid principal"@,
            BitcoinUSTBillsError::AccessDenied => "Access denied"@,
            BitcoinUSTBillsError::ValidationError(detail) => "Validation error: "@ + detail@,
            BitcoinUSTBillsError::InvalidCUSIP => "Invalid CUSIP identifier"@,
            BitcoinUSTBillsError::InvalidDate => "Invalid date format or value"@,
            BitcoinUSTBillsError::InvalidYieldRate => "Invalid yield rate"@,
            BitcoinUSTBillsError::InvalidTokenAmount => "Invalid token amount"@,
            BitcoinUSTBillsError::SystemError(detail) => "System error: "@ + detail@,
            BitcoinUSTBillsError::InternalError(detail) => "Internal error: "@ + detail@,
            BitcoinUSTBillsError::NotImplemented => "Functionality not implemented"@,
            BitcoinUSTBillsError::YieldCalculationError => "Yield calculation error"@,
            BitcoinUSTBillsError::YieldDistributionError => "Yield distribution error"@,
            BitcoinUSTBillsError::MaturityDatePassed => "Maturity date has already passed"@,
            BitcoinUSTBillsError::DidntFindUserData => "User data not found"@,
            BitcoinUSTBillsError::FailedToAddToList => "Failed to add to list"@,
        }
    }

    /// Renders the error for a reader.
    pub fn message(&self) -> (text: String)
        ensures
            text@ == self.message_text(),
    {
        match self {
            BitcoinUSTBillsError::UserNotFound => String::from_str("User not found"),
            BitcoinUSTBillsError::UserAlreadyExists => String::from_str("User already exists"),
            BitcoinUSTBillsError::KYCNotVerified => String::from_str("KYC verification required"),
            BitcoinUSTBillsError::KYCExpired => String::from_str("KYC verification has expired"),
            BitcoinUSTBillsError::InvalidUserData => String::from_str("Invalid user data provided"),
            BitcoinUSTBillsError::USTBillNotFound => String::from_str("US Treasury Bill not found"),
            BitcoinUSTBillsError::USTBillAlreadyExists => String::from_str("US Treasury Bill already exists"),
            BitcoinUSTBillsError::USTBillSoldOut => String::from_str("US Treasury Bill is sold out"),
            BitcoinUSTBillsError::USTBillMatured => String::from_str("US Treasury Bill has already matured"),
            BitcoinUSTBillsError::USTBillCancelled => String::from_str("US Treasury Bill has been cancelled"),
            BitcoinUSTBillsError::InvalidUSTBillData => String::from_str("Invalid US Treasury Bill data"),
            BitcoinUSTBillsError::InsufficientFunds => String::from_str("Insufficient funds in wallet"),
            BitcoinUSTBillsError::InsufficientTokens => String::from_str("Insufficient tokens for transaction"),
            BitcoinUSTBillsError::InvalidAmount => String::from_str("Invalid transaction amount"),
            BitcoinUSTBillsError::MinimumInvestmentNotMet => String::from_str("Minimum investment amount not met"),
            BitcoinUSTBillsError::MaximumInvestmentExceeded => String::from_str("Maximum investment amount exceeded"),
            BitcoinUSTBillsError::TradingNotAllowed => String::from_str("Trading not allowed for this user"),
            BitcoinUSTBillsError::HoldingNotFound => String::from_str("Token holding not found"),
            BitcoinUSTBillsError::HoldingAlreadySold => String::from_str("Token holding already sold"),
            BitcoinUSTBillsError::HoldingMatured => String::from_str("Token holding has matured"),
            BitcoinUSTBillsError::InvalidHoldingData => String::from_str("Invalid holding data"),
            BitcoinUSTBillsError::TransactionNotFound => String::from_str("Transaction not found"),
            BitcoinUSTBillsError::TransactionFailed => String::from_str("Transaction failed"),
            BitcoinUSTBillsError::TransactionCancelled => String::from_str("Transaction was cancelled"),
            BitcoinUSTBillsError::InvalidTransactionType => String::from_str("Invalid transaction type"),
            BitcoinUSTBillsError::PlatformConfigurationError => String::from_str("Platform configuration error"),
            BitcoinUSTBillsError::PlatformFeesCalculationError => String::from_str("Platform fees calculation error"),
            BitcoinUSTBillsError::ExternalAPIError(detail) => String::from_str("External API error: ").concat(detail.as_str()),
            BitcoinUSTBillsError::TreasuryDataFetchError => String::from_str("Failed to fetch Treasury data"),
            BitcoinUSTBillsError::HTTPRequestError(detail) => String::from_str("HTTP request error: ").concat(detail.as_str()),
            BitcoinUSTBillsError::DatabaseError(detail) => String::from_str("Database error: ").concat(detail.as_str()),
            BitcoinUSTBillsError::StorageError(detail) => String::from_str("Storage error: ").concat(detail.as_str()),
            BitcoinUSTBillsError::SerializationError(detail) => String::from_str("Serialization error: ").concat(detail.as_str()),
            BitcoinUSTBillsError::Unauthorized => String::from_str("Unauthorized access"),
            BitcoinUSTBillsError::AnonymousCaller => String::from_str("Anonymous caller not allowed"),
            BitcoinUSTBillsError::InvalidPrincipal => String::from_str("Invalid principal"),
            BitcoinUSTBillsError::AccessDenied => String::from_str("Access denied"),
            BitcoinUSTBillsError::ValidationError(detail) => String::from_str("Validation error: ").concat(detail.as_str()),
            BitcoinUSTBillsError::InvalidCUSIP => String::from_str("Invalid CUSIP identifier"),
            BitcoinUSTBillsError::InvalidDate => String::from_str("Invalid date format or value"),
            BitcoinUSTBillsError::InvalidYieldRate => String::from_str("Invalid yield rate"),
            BitcoinUSTBillsError::InvalidTokenAmount => String::from_str("Invalid token amount"),
            BitcoinUSTBillsError::SystemError(detail) => String::from_str("System error: ").concat(detail.as_str()),
            BitcoinUSTBillsError::InternalError(detail) => String::from_str("Internal error: ").concat(detail.as_str()),
            BitcoinUSTBillsError::NotImplemented => String::from_str("Functionality not implemented"),
            BitcoinUSTBillsError::YieldCalculationError => String::from_str("Yield calculation error"),
            BitcoinUSTBillsError::YieldDistributionError => String::from_str("Yield distribution error"),
            BitcoinUSTBillsError::MaturityDatePassed => String::from_str("Maturity date has already passed"),
            BitcoinUSTBillsError::DidntFindUserData => String::from_str("User data not found"),
            BitcoinUSTBillsError::FailedToAddToList => String::from_str("Failed to add to list"),
        }
    }

    /// A failure of the external rate source, with its detail.
    pub fn external_api_error(msg: &str) -> (e: Self)
        ensures
            e matches BitcoinUSTBillsError::ExternalAPIError(detail) && detail@ == msg@,
    {
        BitcoinUSTBillsError::ExternalAPIError(String::from_str(msg))
    }

    /// A failure of the record store, with its detail.
    pub fn database_error(msg: &str) -> (e: Self)
        ensures
            e matches BitcoinUSTBillsError::DatabaseError(detail) && detail@ == msg@,
    {
        BitcoinUSTBillsError::DatabaseError(String::from_str(msg))
    }

    /// A rejected input, with the reason.
    pub fn validation_error(msg: &str) -> (e: Self)
        ensures
            e matches BitcoinUSTBillsError::ValidationError(detail) && detail@ == msg@,
    {
        BitcoinUSTBillsError::ValidationError(String::from_str(msg))
    }

    /// A failure of the system around the platform, with its detail.
    pub fn system_error(msg: &str) -> (e: Self)
        ensures
            e matches BitcoinUSTBillsError::SystemError(detail) && detail@ == msg@,
    {
        BitcoinUSTBillsError::SystemError(String::from_str(msg))
    }

    /// A failed outgoing request, with its detail.
    pub fn http_request_error(msg: &str) -> (e: Self)
        ensures
            e matches BitcoinUSTBillsError::HTTPRequestError(detail) && detail@ == msg@,
    {
        BitcoinUSTBillsError::HTTPRequestError(String::from_str(msg))
    }
}

impl From<GetUserDataError> for BitcoinUSTBillsError {
    fn from(error: GetUserDataError) -> (e: Self) {
        match error {
            GetUserDataError::AnonymousCaller => BitcoinUSTBillsError::AnonymousCaller,
            GetUserDataError::DidntFindUserData => BitcoinUSTBillsError::DidntFindUserData,
            GetUserDataError::FailedToAddToList => BitcoinUSTBillsError::FailedToAddToList,
        }
    }
}

impl FromSpecImpl<GetUserDataError> for BitcoinUSTBillsError {
    open spec fn obeys_from_spec() -> bool {
        true
    }

    open spec fn from_spec(error: GetUserDataError) -> Self {
        match error {
            GetUserDataError::AnonymousCaller => BitcoinUSTBillsError::AnonymousCaller,
            GetUserDataError::DidntFindUserData => BitcoinUSTBillsError::DidntFindUserData,
            GetUserDataError::FailedToAddToList => BitcoinUSTBillsError::FailedToAddToList,
        }
    }
}

} // verus!
