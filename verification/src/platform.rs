//! The whole state of the platform.
//!
//! A [`Platform`] holds every table of the record store, the settings, the
//! running figures, the ledger, the source of identifiers and the set of
//! authorized identities. It is made once, when the process starts, and handed
//! to every operation: nothing in this crate reaches for state of its own.

use vstd::prelude::*;
use crate::errors::Result;
use crate::guard::Guard;
use crate::records::{account_key, id_key};
use crate::stable::{Backing, StableMemory};
use crate::storage::{
    unreadable_memory, HoldingStorage, IdCounter, PlatformConfigStorage, TradingMetricsStorage,
    TransactionStorage, TreasuryRateStorage, USTBillStorage, UserStorage,
    VerifiedPurchasesLedgerStorage,
};
use crate::types::{
    PlatformConfig, TokenHoldingView, TradingMetrics, TransactionView, TreasuryRateView,
    USTBillView, UserView, VerifiedBrokerPurchaseView,
};

verus! {

/// The state of the platform.
pub struct Platform {
    pub ustbills: USTBillStorage,
    pub users: UserStorage,
    pub holdings: HoldingStorage,
    pub transactions: TransactionStorage,
    pub config: PlatformConfigStorage,
    pub treasury_rates: TreasuryRateStorage,
    pub trading_metrics: TradingMetricsStorage,
    pub verified_purchases: VerifiedPurchasesLedgerStorage,
    pub id_counter: IdCounter,
    pub guard: Guard,
    /// The memory that the platform is built in.
    pub backing: Backing,
}

/// The view of the state of the platform.
pub struct PlatformView {
    /// The bills, each under the key of its identifier.
    pub ustbills: Map<Seq<u8>, USTBillView>,
    /// The accounts, each under the key of its owner.
    pub users: Map<Seq<u8>, UserView>,
    /// The holdings, each under the key of its identifier.
    pub holdings: Map<Seq<u8>, TokenHoldingView>,
    /// The transactions, each under the key of its identifier.
    pub transactions: Map<Seq<u8>, TransactionView>,
    /// The settings.
    pub config: PlatformConfig,
    /// The reference rates.
    pub treasury_rates: Map<Seq<u8>, TreasuryRateView>,
    /// The running figures.
    pub trading_metrics: TradingMetrics,
    /// The ledger of purchases made at the broker.
    pub verified_purchases: Seq<VerifiedBrokerPurchaseView>,
    /// The number that the next identifier is made of.
    pub next_id: u64,
    /// The authorized identities.
    pub authorized: Seq<Seq<u8>>,
}

impl PlatformView {
    /// Whether there is an account for an identity.
    pub open spec fn has_account(self, owner: Seq<u8>) -> bool {
        self.users.contains_key(account_key(owner))
    }

    /// The account of an identity.
    pub open spec fn account(self, owner: Seq<u8>) -> UserView {
        self.users[account_key(owner)]
    }

    /// Whether there is a bill with an identifier.
    pub open spec fn has_bill(self, ustbill_id: Seq<char>) -> bool {
        self.ustbills.contains_key(id_key(ustbill_id))
    }

    /// The bill with an identifier.
    pub open spec fn bill(self, ustbill_id: Seq<char>) -> USTBillView {
        self.ustbills[id_key(ustbill_id)]
    }

    /// Whether there is a holding with an identifier.
    pub open spec fn has_holding(self, holding_id: Seq<char>) -> bool {
        self.holdings.contains_key(id_key(holding_id))
    }

    /// The holding with an identifier.
    pub open spec fn holding(self, holding_id: Seq<char>) -> TokenHoldingView {
        self.holdings[id_key(holding_id)]
    }
}

impl View for Platform {
    type V = PlatformView;

    open spec fn view(&self) -> PlatformView {
        PlatformView {
            ustbills: self.ustbills@,
            users: self.users@,
            holdings: self.holdings@,
            transactions: self.transactions@,
            config: self.config@,
            treasury_rates: self.treasury_rates@,
            trading_metrics: self.trading_metrics@,
            verified_purchases: self.verified_purchases@,
            next_id: self.id_counter@,
            authorized: self.guard@,
        }
    }
}

impl Platform {
    /// Whether the state is well formed: every part of it is.
    pub open spec fn wf(&self) -> bool {
        &&& self.ustbills.wf()
        &&& self.users.wf()
        &&& self.holdings.wf()
        &&& self.transactions.wf()
        &&& self.config.wf()
        &&& self.treasury_rates.wf()
        &&& self.trading_metrics.wf()
        &&& self.verified_purchases.wf()
        &&& self.id_counter.wf()
        &&& self.guard.wf()
    }

    /// The state of a platform that was just installed: no records, the
    /// initial settings, identifiers from 0, and the given set of authorized
    /// identities.
    pub open spec fn installed(authorized: Seq<Seq<u8>>) -> PlatformView {
        PlatformView {
            ustbills: Map::empty(),
            users: Map::empty(),
            holdings: Map::empty(),
            transactions: Map::empty(),
            config: PlatformConfig::initial(),
            treasury_rates: Map::empty(),
            trading_metrics: TradingMetrics::initial(),
            verified_purchases: Seq::empty(),
            next_id: 0,
            authorized,
        }
    }

    /// Installs the platform in stable memory, over whatever the memory held.
    pub fn install(memory: StableMemory, guard: Guard) -> (platform: Platform)
        requires
            guard.wf(),
        ensures
            platform.wf(),
            platform@ == Self::installed(guard@),
            platform@.consistent(),
    {
        proof {
            crate::laws::lemma_installed_consistent(guard@);
        }
        Platform {
            ustbills: USTBillStorage::create_in(&memory),
            users: UserStorage::create_in(&memory),
            holdings: HoldingStorage::create_in(&memory),
            transactions: TransactionStorage::create_in(&memory),
            config: PlatformConfigStorage::create_in(&memory),
            treasury_rates: TreasuryRateStorage::create_in(&memory),
            trading_metrics: TradingMetricsStorage::create_in(&memory),
            verified_purchases: VerifiedPurchasesLedgerStorage::create_in(&memory),
            id_counter: IdCounter::create_in(&memory),
            guard,
            backing: Backing::keep(memory),
        }
    }

    /// Takes up the platform that stable memory holds, as after a restart.
    /// Every record is read once and checked. Where a region holds a table or
    /// a cell whose entries are not records of this crate, a storage error is
    /// returned. Where a region holds something of a layout that
    /// `ic_stable_structures` does not know, its `init` panics: in a canister
    /// the stable memory must be one that this crate wrote, or an empty one.
    /// Whether the books of the platform are in order is not known of what
    /// was taken up: `audit::books_in_order` tests it.
    pub fn open(memory: StableMemory, guard: Guard) -> (result: Result<Platform>)
        requires
            guard.wf(),
        ensures
            result matches Ok(platform) ==> platform.wf() && platform@.authorized == guard@,
            result matches Err(e) ==> e is StorageError,
    {
        let ustbills = match USTBillStorage::open_in(&memory) {
            Some(t) => t,
            None => {
                return Err(unreadable_memory());
            },
        };
        let users = match UserStorage::open_in(&memory) {
            Some(t) => t,
            None => {
                return Err(unreadable_memory());
            },
        };
        let holdings = match HoldingStorage::open_in(&memory) {
            Some(t) => t,
            None => {
                return Err(unreadable_memory());
            },
        };
        let transactions = match TransactionStorage::open_in(&memory) {
            Some(t) => t,
            None => {
                return Err(unreadable_memory());
            },
        };
        let config = match PlatformConfigStorage::open_in(&memory) {
            Some(t) => t,
            None => {
                return Err(unreadable_memory());
            },
        };
        let treasury_rates = match TreasuryRateStorage::open_in(&memory) {
            Some(t) => t,
            None => {
                return Err(unreadable_memory());
            },
        };
        let trading_metrics = match TradingMetricsStorage::open_in(&memory) {
            Some(t) => t,
            None => {
                return Err(unreadable_memory());
            },
        };
        let verified_purchases = match VerifiedPurchasesLedgerStorage::open_in(&memory) {
            Some(t) => t,
            None => {
                return Err(unreadable_memory());
            },
        };
        let id_counter = match IdCounter::open_in(&memory) {
            Some(t) => t,
            None => {
                return Err(unreadable_memory());
            },
        };
        Ok(
            Platform {
                ustbills,
                users,
                holdings,
                transactions,
                config,
                treasury_rates,
                trading_metrics,
                verified_purchases,
                id_counter,
                guard,
                backing: Backing::keep(memory),
            },
        )
    }
}

} // verus!
