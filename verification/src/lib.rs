//! A platform that sells tokens of short-term government bills.
//!
//! Registered identities hold a wallet, buy tokens of bills with it and earn
//! the yield of what they hold. The crate keeps the records of all that in
//! stable memory and carries out the operations on them. Every operation
//! states in its contract what it returns and how the records change, and is
//! proved against it.
//!
//! The state lives in a [`Platform`]. The module `trading` buys tokens and
//! moves money, `bills` and `accounts` offer bills and open accounts, `yields`
//! values holdings, `admin` holds what administrators do. The module `storage`
//! is the record store, `snapshot` the state as one byte string, and `laws`
//! says what holds of the platform whatever is done with it.

pub mod accounts;
pub mod admin;
pub mod audit;
pub mod bills;
pub mod codec;
pub mod digest;
pub mod errors;
pub mod frames;
pub mod guard;
pub mod handlers;
pub mod laws;
pub mod money;
pub mod order;
pub mod platform;
pub mod principal;
pub mod records;
pub mod sizes;
pub mod slot;
pub mod snapshot;
pub mod stable;
pub mod storage;
pub mod store;
pub mod table;
pub mod text;
pub mod trading;
pub mod types;
pub mod utils;
pub mod yields;

pub use accounts::{
    get_principal_data, get_user_holdings, get_user_profile, register_user, set_principal_data,
    update_kyc_status, validate_user_data,
};
pub use admin::{
    admin_add_broker_purchase_record, fetch_treasury_rates, get_all_verified_broker_purchases,
    get_platform_config, get_trading_metrics, test_func, update_platform_config,
};
pub use audit::books_in_order;
pub use bills::{
    create_ustbill, get_active_ustbills, get_ustbill, get_ustbill_availability,
    get_ustbills_paginated, paginate, validate_ustbill_data,
};
pub use errors::{BitcoinUSTBillsError, GetUserDataError, Result};
pub use platform::Platform;
pub use principal::Principal;
pub use snapshot::{decode_snapshot, encode_snapshot, Snapshot};
pub use stable::{Backing, StableMemory};
pub use storage::{
    generate_id, HoldingStorage, IdCounter, PlatformConfigStorage, TradingMetricsStorage,
    TransactionStorage, TreasuryRateStorage, USTBillStorage, UserStorage,
    VerifiedPurchasesLedgerStorage,
};
pub use trading::{
    buy_ustbill_tokens, calculate_projected_yield, calculate_purchase_cost,
    calculate_purchase_cost_internal, deposit_funds, withdraw_funds,
};
pub use utils::get_current_timestamp;
pub use types::{
    HoldingStatus, KYCStatus, PaginatedResponse, PlatformConfig, TokenHolding, TradingMetrics,
    Transaction, TransactionStatus, TransactionType, TreasuryApiMeta, TreasuryApiResponse,
    TreasuryRate, USTBill, USTBillCreateRequest, USTBillStatus, User, UserRegistrationRequest,
    VerifiedBrokerPurchase, YieldDistribution, YieldOption, YieldProjection,
};
pub use yields::{calculate_current_value, calculate_maturity_yield, get_yield_projection};
