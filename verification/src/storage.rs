//! The record store: one table for each kind of record, two single records,
//! the ledger of verified purchases and the source of identifiers.
//!
//! Every table keeps its records in stable memory, each under its key. A table
//! is read and written through its own type, which says in its contracts what
//! each operation returns and how the table's view changes. The view of a table
//! is a map from keys to the views of the records; its listing is the list of
//! its records in the ascending order of the keys.
//!
//! A table takes admissible records only: a key of at most
//! [`MAX_KEY_BYTES`](crate::codec::MAX_KEY_BYTES) bytes and an encoding of at
//! most [`MAX_RECORD_BYTES`](crate::codec::MAX_RECORD_BYTES) bytes. A write of
//! another record changes nothing and fails with a storage error.

use vstd::prelude::*;
use vstd::bytes::{lemma_auto_spec_u64_to_from_le_bytes, spec_u64_from_le_bytes};
use vstd::string::StringExecFns;
use crate::codec::{
    decode, decoding, encode, encoding, lemma_round_trip, read_u64, storable, u64_field,
    write_u64, Record, MAX_RECORD_BYTES,
};
use crate::errors::{BitcoinUSTBillsError, Result};
pub use crate::utils::get_current_timestamp;
use crate::principal::Principal;
use crate::records::{account_key, id_key, make_account_key, make_id_key, Keyed};
use crate::slot::Slot;
use crate::stable::{ByteCell, ByteTable, StableMemory};
use crate::table::{
    admissible, lemma_filter_ends, lemma_filter_step, lemma_views_empty, lemma_views_push, views,
    Table,
};
use crate::text::{decimal, decimal_text};
use crate::types::{
    HoldingStatus, PlatformConfig, TokenHolding, TokenHoldingView, TradingMetrics, Transaction,
    TransactionType, TransactionView, TreasuryRate, TreasuryRateView, USTBill, USTBillStatus,
    USTBillView, User, UserView, VerifiedBrokerPurchase, VerifiedBrokerPurchaseView,
};

verus! {

/// The region of stable memory of each part of the store.
pub const USTBILLS_REGION: u8 = 0;

pub const USERS_REGION: u8 = 1;

pub const HOLDINGS_REGION: u8 = 2;

pub const TRANSACTIONS_REGION: u8 = 3;

pub const PLATFORM_CONFIG_REGION: u8 = 4;

pub const TREASURY_RATES_REGION: u8 = 5;

pub const TRADING_METRICS_REGION: u8 = 6;

pub const ID_COUNTER_REGION: u8 = 7;

pub const VERIFIED_PURCHASES_LEDGER_REGION: u8 = 8;

/// The error of a write that the store does not take.
pub fn record_too_large() -> (e: BitcoinUSTBillsError)
    ensures
        e is StorageError,
{
    BitcoinUSTBillsError::StorageError(String::from_str("Record too large"))
}

/// The error of a part of stable memory that holds no table of this store.
pub fn unreadable_memory() -> (e: BitcoinUSTBillsError)
    ensures
        e is StorageError,
{
    BitcoinUSTBillsError::StorageError(String::from_str("Stable memory holds no valid records"))
}

/// Bills that are active.
pub open spec fn active_bill() -> spec_fn(USTBillView) -> bool {
    |b: USTBillView| b.status == USTBillStatus::Active
}

/// Holdings that are active.
pub open spec fn active_holding() -> spec_fn(TokenHoldingView) -> bool {
    |h: TokenHoldingView| h.status == HoldingStatus::Active
}

/// Holdings of one owner.
pub open spec fn holding_of(owner: Seq<u8>) -> spec_fn(TokenHoldingView) -> bool {
    |h: TokenHoldingView| h.user_principal == owner
}

/// Holdings in one bill.
pub open spec fn holding_in(ustbill_id: Seq<char>) -> spec_fn(TokenHoldingView) -> bool {
    |h: TokenHoldingView| h.ustbill_id == ustbill_id
}

/// Transactions of one owner.
pub open spec fn transaction_of(owner: Seq<u8>) -> spec_fn(TransactionView) -> bool {
    |t: TransactionView| t.user_principal == owner
}

/// Transactions of one kind.
pub open spec fn transaction_kind(kind: TransactionType) -> spec_fn(TransactionView) -> bool {
    |t: TransactionView| t.transaction_type == kind
}

/// Rates of one security.
pub open spec fn rate_of(cusip: Seq<char>) -> spec_fn(TreasuryRateView) -> bool {
    |r: TreasuryRateView| r.cusip == cusip
}

/// The table of bills.
pub struct USTBillStorage {
    pub table: Table<USTBill>,
}

impl View for USTBillStorage {
    type V = Map<Seq<u8>, USTBillView>;

    open spec fn view(&self) -> Map<Seq<u8>, USTBillView> {
        self.table@
    }
}

impl USTBillStorage {
    /// Whether the table is well formed.
    pub open spec fn wf(&self) -> bool {
        self.table.wf()
    }

    /// Whether the table holds a bill under `ustbill_id`.
    pub open spec fn has(&self, ustbill_id: Seq<char>) -> bool {
        self@.contains_key(id_key(ustbill_id))
    }

    /// The bill that the table holds under `ustbill_id`.
    pub open spec fn entry(&self, ustbill_id: Seq<char>) -> USTBillView {
        self@[id_key(ustbill_id)]
    }

    /// The bills in the ascending order of their keys.
    pub open spec fn listing(&self) -> Seq<USTBillView> {
        self.table.listing()
    }

    /// A new, empty table, written over whatever its region of stable memory
    /// held.
    pub fn create(memory: StableMemory) -> (storage: Self)
        ensures
            storage.wf(),
            storage@ == Map::<Seq<u8>, USTBillView>::empty(),
    {
        Self::create_in(&memory)
    }

    /// The same, in a memory that holds more than this.
    pub(crate) fn create_in(memory: &StableMemory) -> (storage: Self)
        ensures
            storage.wf(),
            storage@ == Map::<Seq<u8>, USTBillView>::empty(),
    {
        USTBillStorage { table: Table::create(memory, USTBILLS_REGION) }
    }

    /// The table that its region of stable memory holds, or `None` where the
    /// region holds something else.
    pub(crate) fn open_in(memory: &StableMemory) -> (storage: Option<Self>)
        ensures
            storage matches Some(s) ==> s.wf(),
    {
        match Table::open(memory, USTBILLS_REGION) {
            Some(table) => Some(USTBillStorage { table }),
            None => None,
        }
    }

    /// Stores a bill under its key, in place of the one that was there.
    pub fn insert(&mut self, ustbill: USTBill) -> (result: Result<()>)
        requires
            old(self).wf(),
        ensures
            final(self).wf(),
            admissible::<USTBill>(ustbill@) ==> result is Ok && final(self)@ == old(self)@.insert(
                USTBill::key_of(ustbill@),
                ustbill@,
            ),
            !admissible::<USTBill>(ustbill@) ==> (result matches Err(e) && e is StorageError
                && final(self)@ == old(self)@),
    {
        if self.table.put(&ustbill) {
            Ok(())
        } else {
            Err(record_too_large())
        }
    }

    /// The bill under `ustbill_id`.
    pub fn get(&self, ustbill_id: &str) -> (result: Result<USTBill>)
        requires
            self.wf(),
        ensures
            self.has(ustbill_id@) ==> (result matches Ok(found) && found@
                == self.entry(ustbill_id@)),
            !self.has(ustbill_id@) ==> (result matches Err(BitcoinUSTBillsError::USTBillNotFound)),
    {
        let key = make_id_key(ustbill_id);
        match self.table.get(&key) {
            Some(found) => Ok(found),
            None => Err(BitcoinUSTBillsError::USTBillNotFound),
        }
    }

    /// Writes a bill over the one that the table holds under the same key.
    /// Where it holds none, it fails and changes nothing: an update never
    /// adds.
    pub fn update(&mut self, ustbill: USTBill) -> (result: Result<()>)
        requires
            old(self).wf(),
        ensures
            final(self).wf(),
            !old(self)@.contains_key(USTBill::key_of(ustbill@)) ==> (result matches Err(
                BitcoinUSTBillsError::USTBillNotFound,
            ) && final(self)@ == old(self)@),
            old(self)@.contains_key(USTBill::key_of(ustbill@)) && admissible::<USTBill>(ustbill@)
                ==> result is Ok
                && final(self)@ == old(self)@.insert(USTBill::key_of(ustbill@), ustbill@),
            old(self)@.contains_key(USTBill::key_of(ustbill@)) && !admissible::<USTBill>(ustbill@)
                ==> (result matches Err(e) && e is StorageError && final(self)@ == old(self)@),
    {
        let key = ustbill.key();
        if !self.table.contains_key(&key) {
            Err(BitcoinUSTBillsError::USTBillNotFound)
        } else if self.table.put(&ustbill) {
            Ok(())
        } else {
            Err(record_too_large())
        }
    }

    /// Removes the bill under `ustbill_id` and returns it.
    pub fn remove(&mut self, ustbill_id: &str) -> (result: Result<USTBill>)
        requires
            old(self).wf(),
        ensures
            final(self).wf(),
            final(self)@ == old(self)@.remove(id_key(ustbill_id@)),
            old(self).has(ustbill_id@) ==> (result matches Ok(found) && found@ == old(self).entry(
                ustbill_id@,
            )),
            !old(self).has(ustbill_id@)
                ==> (result matches Err(BitcoinUSTBillsError::USTBillNotFound)),
    {
        let key = make_id_key(ustbill_id);
        match self.table.remove(&key) {
            Some(found) => Ok(found),
            None => Err(BitcoinUSTBillsError::USTBillNotFound),
        }
    }

    /// Every bill, in the ascending order of the keys.
    pub fn get_all(&self) -> (all: Vec<USTBill>)
        requires
            self.wf(),
        ensures
            views(all@) == self.listing(),
    {
        self.table.list()
    }

    /// The number of bills.
    pub fn count(&self) -> (count: u64)
        requires
            self.wf(),
        ensures
            count == self@.dom().len(),
    {
        self.table.count()
    }

    /// The bills that are active, in the ascending order of the keys.
    pub fn get_active(&self) -> (found: Vec<USTBill>)
        requires
            self.wf(),
        ensures
            views(found@) == self.listing().filter(active_bill()),
    {
        let all = self.table.list();
        let ghost listing = self.listing();
        let ghost pred = active_bill();
        let mut found: Vec<USTBill> = Vec::new();
        let mut i: usize = 0;
        proof {
            lemma_views_empty::<USTBill>();
            lemma_filter_ends(listing, pred);
        }
        while i < all.len()
            invariant
                i <= all.len(),
                views(all@) == listing,
                pred == active_bill(),
                views(found@) == listing.take(i as int).filter(pred),
            decreases all.len() - i,
        {
            let candidate = &all[i];
            proof {
                lemma_filter_step(listing, pred, i as int);
                assert(listing[i as int] == candidate@);
            }
            if candidate.status == USTBillStatus::Active {
                let keep = candidate.clone();
                proof {
                    lemma_views_push::<USTBill>(found@, keep);
                }
                found.push(keep);
            }
            i += 1;
        }
        proof {
            lemma_filter_ends(listing, pred);
        }
        found
    }

}

/// The table of accounts.
pub struct UserStorage {
    pub table: Table<User>,
}

impl View for UserStorage {
    type V = Map<Seq<u8>, UserView>;

    open spec fn view(&self) -> Map<Seq<u8>, UserView> {
        self.table@
    }
}

impl UserStorage {
    /// Whether the table is well formed.
    pub open spec fn wf(&self) -> bool {
        self.table.wf()
    }

    /// Whether the table holds an account under `principal`.
    pub open spec fn has(&self, principal: Seq<u8>) -> bool {
        self@.contains_key(account_key(principal))
    }

    /// The account that the table holds under `principal`.
    pub open spec fn entry(&self, principal: Seq<u8>) -> UserView {
        self@[account_key(principal)]
    }

    /// The accounts in the ascending order of their keys.
    pub open spec fn listing(&self) -> Seq<UserView> {
        self.table.listing()
    }

    /// A new, empty table, written over whatever its region of stable memory
    /// held.
    pub fn create(memory: StableMemory) -> (storage: Self)
        ensures
            storage.wf(),
            storage@ == Map::<Seq<u8>, UserView>::empty(),
    {
        Self::create_in(&memory)
    }

    /// The same, in a memory that holds more than this.
    pub(crate) fn create_in(memory: &StableMemory) -> (storage: Self)
        ensures
            storage.wf(),
            storage@ == Map::<Seq<u8>, UserView>::empty(),
    {
        UserStorage { table: Table::create(memory, USERS_REGION) }
    }

    /// The table that its region of stable memory holds, or `None` where the
    /// region holds something else.
    pub(crate) fn open_in(memory: &StableMemory) -> (storage: Option<Self>)
        ensures
            storage matches Some(s) ==> s.wf(),
    {
        match Table::open(memory, USERS_REGION) {
            Some(table) => Some(UserStorage { table }),
            None => None,
        }
    }

    /// Stores a new account. Where the table holds one under the same key, it
    /// fails and changes nothing.
    pub fn insert(&mut self, user: User) -> (result: Result<()>)
        requires
            old(self).wf(),
        ensures
            final(self).wf(),
            old(self)@.contains_key(User::key_of(user@)) ==> (result matches Err(
                BitcoinUSTBillsError::UserAlreadyExists,
            ) && final(self)@ == old(self)@),
            !old(self)@.contains_key(User::key_of(user@)) && admissible::<User>(user@)
                ==> result is Ok
                && final(self)@ == old(self)@.insert(User::key_of(user@), user@),
            !old(self)@.contains_key(User::key_of(user@)) && !admissible::<User>(user@)
                ==> (result matches Err(e) && e is StorageError && final(self)@ == old(self)@),
    {
        let key = user.key();
        if self.table.contains_key(&key) {
            Err(BitcoinUSTBillsError::UserAlreadyExists)
        } else if self.table.put(&user) {
            Ok(())
        } else {
            Err(record_too_large())
        }
    }

    /// The account under `principal`.
    pub fn get(&self, principal: &Principal) -> (result: Result<User>)
        requires
            self.wf(),
        ensures
            self.has(principal@) ==> (result matches Ok(found) && found@ == self.entry(principal@)),
            !self.has(principal@) ==> (result matches Err(BitcoinUSTBillsError::UserNotFound)),
    {
        let key = make_account_key(principal);
        match self.table.get(&key) {
            Some(found) => Ok(found),
            None => Err(BitcoinUSTBillsError::UserNotFound),
        }
    }

    /// Writes an account over the one that the table holds under the same key.
    /// Where it holds none, it fails and changes nothing: an update never
    /// adds.
    pub fn update(&mut self, user: User) -> (result: Result<()>)
        requires
            old(self).wf(),
        ensures
            final(self).wf(),
            !old(self)@.contains_key(User::key_of(user@)) ==> (result matches Err(
                BitcoinUSTBillsError::UserNotFound,
            ) && final(self)@ == old(self)@),
            old(self)@.contains_key(User::key_of(user@)) && admissible::<User>(user@)
                ==> result is Ok
                && final(self)@ == old(self)@.insert(User::key_of(user@), user@),
            old(self)@.contains_key(User::key_of(user@)) && !admissible::<User>(user@)
                ==> (result matches Err(e) && e is StorageError && final(self)@ == old(self)@),
    {
        let key = user.key();
        if !self.table.contains_key(&key) {
            Err(BitcoinUSTBillsError::UserNotFound)
        } else if self.table.put(&user) {
            Ok(())
        } else {
            Err(record_too_large())
        }
    }

    /// Removes the account under `principal` and returns it.
    pub fn remove(&mut self, principal: &Principal) -> (result: Result<User>)
        requires
            old(self).wf(),
        ensures
            final(self).wf(),
            final(self)@ == old(self)@.remove(account_key(principal@)),
            old(self).has(principal@) ==> (result matches Ok(found) && found@ == old(self).entry(
                principal@,
            )),
            !old(self).has(principal@) ==> (result matches Err(BitcoinUSTBillsError::UserNotFound)),
    {
        let key = make_account_key(principal);
        match self.table.remove(&key) {
            Some(found) => Ok(found),
            None => Err(BitcoinUSTBillsError::UserNotFound),
        }
    }

    /// Every account, in the ascending order of the keys.
    pub fn get_all(&self) -> (all: Vec<User>)
        requires
            self.wf(),
        ensures
            views(all@) == self.listing(),
    {
        self.table.list()
    }

    /// The number of accounts.
    pub fn count(&self) -> (count: u64)
        requires
            self.wf(),
        ensures
            count == self@.dom().len(),
    {
        self.table.count()
    }

}

/// The table of holdings.
pub struct HoldingStorage {
    pub table: Table<TokenHolding>,
}

impl View for HoldingStorage {
    type V = Map<Seq<u8>, TokenHoldingView>;

    open spec fn view(&self) -> Map<Seq<u8>, TokenHoldingView> {
        self.table@
    }
}

impl HoldingStorage {
    /// Whether the table is well formed.
    pub open spec fn wf(&self) -> bool {
        self.table.wf()
    }

    /// Whether the table holds a holding under `holding_id`.
    pub open spec fn has(&self, holding_id: Seq<char>) -> bool {
        self@.contains_key(id_key(holding_id))
    }

    /// The holding that the table holds under `holding_id`.
    pub open spec fn entry(&self, holding_id: Seq<char>) -> TokenHoldingView {
        self@[id_key(holding_id)]
    }

    /// The holdings in the ascending order of their keys.
    pub open spec fn listing(&self) -> Seq<TokenHoldingView> {
        self.table.listing()
    }

    /// A new, empty table, written over whatever its region of stable memory
    /// held.
    pub fn create(memory: StableMemory) -> (storage: Self)
        ensures
            storage.wf(),
            storage@ == Map::<Seq<u8>, TokenHoldingView>::empty(),
    {
        Self::create_in(&memory)
    }

    /// The same, in a memory that holds more than this.
    pub(crate) fn create_in(memory: &StableMemory) -> (storage: Self)
        ensures
            storage.wf(),
            storage@ == Map::<Seq<u8>, TokenHoldingView>::empty(),
    {
        HoldingStorage { table: Table::create(memory, HOLDINGS_REGION) }
    }

    /// The table that its region of stable memory holds, or `None` where the
    /// region holds something else.
    pub(crate) fn open_in(memory: &StableMemory) -> (storage: Option<Self>)
        ensures
            storage matches Some(s) ==> s.wf(),
    {
        match Table::open(memory, HOLDINGS_REGION) {
            Some(table) => Some(HoldingStorage { table }),
            None => None,
        }
    }

    /// Stores a holding under its key, in place of the one that was there.
    pub fn insert(&mut self, holding: TokenHolding) -> (result: Result<()>)
        requires
            old(self).wf(),
        ensures
            final(self).wf(),
            admissible::<TokenHolding>(holding@) ==> result is Ok && final(self)@
                == old(self)@.insert(
                TokenHolding::key_of(holding@),
                holding@,
            ),
            !admissible::<TokenHolding>(holding@) ==> (result matches Err(e) && e is StorageError
                && final(self)@ == old(self)@),
    {
        if self.table.put(&holding) {
            Ok(())
        } else {
            Err(record_too_large())
        }
    }

    /// The holding under `holding_id`.
    pub fn get(&self, holding_id: &str) -> (result: Result<TokenHolding>)
        requires
            self.wf(),
        ensures
            self.has(holding_id@) ==> (result matches Ok(found) && found@
                == self.entry(holding_id@)),
            !self.has(holding_id@) ==> (result matches Err(BitcoinUSTBillsError::HoldingNotFound)),
    {
        let key = make_id_key(holding_id);
        match self.table.get(&key) {
            Some(found) => Ok(found),
            None => Err(BitcoinUSTBillsError::HoldingNotFound),
        }
    }

    /// Writes a holding over the one that the table holds under the same key.
    /// Where it holds none, it fails and changes nothing: an update never
    /// adds.
    pub fn update(&mut self, holding: TokenHolding) -> (result: Result<()>)
        requires
            old(self).wf(),
        ensures
            final(self).wf(),
            !old(self)@.contains_key(TokenHolding::key_of(holding@)) ==> (result matches Err(
                BitcoinUSTBillsError::HoldingNotFound,
            ) && final(self)@ == old(self)@),
            old(self)@.contains_key(TokenHolding::key_of(holding@))
                && admissible::<TokenHolding>(holding@) ==> result is Ok
                && final(self)@ == old(self)@.insert(TokenHolding::key_of(holding@), holding@),
            old(self)@.contains_key(TokenHolding::key_of(holding@))
                && !admissible::<TokenHolding>(holding@)
                ==> (result matches Err(e) && e is StorageError && final(self)@ == old(self)@),
    {
        let key = holding.key();
        if !self.table.contains_key(&key) {
            Err(BitcoinUSTBillsError::HoldingNotFound)
        } else if self.table.put(&holding) {
            Ok(())
        } else {
            Err(record_too_large())
        }
    }

    /// Removes the holding under `holding_id` and returns it.
    pub fn remove(&mut self, holding_id: &str) -> (result: Result<TokenHolding>)
        requires
            old(self).wf(),
        ensures
            final(self).wf(),
            final(self)@ == old(self)@.remove(id_key(holding_id@)),
            old(self).has(holding_id@) ==> (result matches Ok(found) && found@ == old(self).entry(
                holding_id@,
            )),
            !old(self).has(holding_id@)
                ==> (result matches Err(BitcoinUSTBillsError::HoldingNotFound)),
    {
        let key = make_id_key(holding_id);
        match self.table.remove(&key) {
            Some(found) => Ok(found),
            None => Err(BitcoinUSTBillsError::HoldingNotFound),
        }
    }

    /// The number of holdings.
    pub fn count(&self) -> (count: u64)
        requires
            self.wf(),
        ensures
            count == self@.dom().len(),
    {
        self.table.count()
    }

    /// The holdings of one owner, in the ascending order of the keys.
    pub fn get_by_user(&self, user_principal: &Principal) -> (found: Vec<TokenHolding>)
        requires
            self.wf(),
        ensures
            views(found@) == self.listing().filter(holding_of(user_principal@)),
    {
        let all = self.table.list();
        let ghost listing = self.listing();
        let ghost pred = holding_of(user_principal@);
        let mut found: Vec<TokenHolding> = Vec::new();
        let mut i: usize = 0;
        proof {
            lemma_views_empty::<TokenHolding>();
            lemma_filter_ends(listing, pred);
        }
        while i < all.len()
            invariant
                i <= all.len(),
                views(all@) == listing,
                pred == holding_of(user_principal@),
                views(found@) == listing.take(i as int).filter(pred),
            decreases all.len() - i,
        {
            let candidate = &all[i];
            proof {
                lemma_filter_step(listing, pred, i as int);
                assert(listing[i as int] == candidate@);
            }
            if candidate.user_principal.equals(user_principal) {
                let keep = candidate.clone();
                proof {
                    lemma_views_push::<TokenHolding>(found@, keep);
                }
                found.push(keep);
            }
            i += 1;
        }
        proof {
            lemma_filter_ends(listing, pred);
        }
        found
    }

    /// The holdings in one bill, in the ascending order of the keys.
    pub fn get_by_ustbill(&self, ustbill_id: &str) -> (found: Vec<TokenHolding>)
        requires
            self.wf(),
        ensures
            views(found@) == self.listing().filter(holding_in(ustbill_id@)),
    {
        let all = self.table.list();
        let ghost listing = self.listing();
        let ghost pred = holding_in(ustbill_id@);
        let wanted = String::from_str(ustbill_id);
        let mut found: Vec<TokenHolding> = Vec::new();
        let mut i: usize = 0;
        proof {
            lemma_views_empty::<TokenHolding>();
            lemma_filter_ends(listing, pred);
        }
        while i < all.len()
            invariant
                i <= all.len(),
                views(all@) == listing,
                pred == holding_in(ustbill_id@),
                wanted@ == ustbill_id@,
                views(found@) == listing.take(i as int).filter(pred),
            decreases all.len() - i,
        {
            let candidate = &all[i];
            proof {
                lemma_filter_step(listing, pred, i as int);
                assert(listing[i as int] == candidate@);
            }
            if candidate.ustbill_id == wanted {
                let keep = candidate.clone();
                proof {
                    lemma_views_push::<TokenHolding>(found@, keep);
                }
                found.push(keep);
            }
            i += 1;
        }
        proof {
            lemma_filter_ends(listing, pred);
        }
        found
    }

    /// The holdings that are active, in the ascending order of the keys.
    pub fn get_active(&self) -> (found: Vec<TokenHolding>)
        requires
            self.wf(),
        ensures
            views(found@) == self.listing().filter(active_holding()),
    {
        let all = self.table.list();
        let ghost listing = self.listing();
        let ghost pred = active_holding();
        let mut found: Vec<TokenHolding> = Vec::new();
        let mut i: usize = 0;
        proof {
            lemma_views_empty::<TokenHolding>();
            lemma_filter_ends(listing, pred);
        }
        while i < all.len()
            invariant
                i <= all.len(),
                views(all@) == listing,
                pred == active_holding(),
                views(found@) == listing.take(i as int).filter(pred),
            decreases all.len() - i,
        {
            let candidate = &all[i];
            proof {
                lemma_filter_step(listing, pred, i as int);
                assert(listing[i as int] == candidate@);
            }
            if candidate.status == HoldingStatus::Active {
                let keep = candidate.clone();
                proof {
                    lemma_views_push::<TokenHolding>(found@, keep);
                }
                found.push(keep);
            }
            i += 1;
        }
        proof {
            lemma_filter_ends(listing, pred);
        }
        found
    }

}

/// The table of transactions.
pub struct TransactionStorage {
    pub table: Table<Transaction>,
}

impl View for TransactionStorage {
    type V = Map<Seq<u8>, TransactionView>;

    open spec fn view(&self) -> Map<Seq<u8>, TransactionView> {
        self.table@
    }
}

impl TransactionStorage {
    /// Whether the table is well formed.
    pub open spec fn wf(&self) -> bool {
        self.table.wf()
    }

    /// Whether the table holds a transaction under `transaction_id`.
    pub open spec fn has(&self, transaction_id: Seq<char>) -> bool {
        self@.contains_key(id_key(transaction_id))
    }

    /// The transaction that the table holds under `transaction_id`.
    pub open spec fn entry(&self, transaction_id: Seq<char>) -> TransactionView {
        self@[id_key(transaction_id)]
    }

    /// The transactions in the ascending order of their keys.
    pub open spec fn listing(&self) -> Seq<TransactionView> {
        self.table.listing()
    }

    /// A new, empty table, written over whatever its region of stable memory
    /// held.
    pub fn create(memory: StableMemory) -> (storage: Self)
        ensures
            storage.wf(),
            storage@ == Map::<Seq<u8>, TransactionView>::empty(),
    {
        Self::create_in(&memory)
    }

    /// The same, in a memory that holds more than this.
    pub(crate) fn create_in(memory: &StableMemory) -> (storage: Self)
        ensures
            storage.wf(),
            storage@ == Map::<Seq<u8>, TransactionView>::empty(),
    {
        TransactionStorage { table: Table::create(memory, TRANSACTIONS_REGION) }
    }

    /// The table that its region of stable memory holds, or `None` where the
    /// region holds something else.
    pub(crate) fn open_in(memory: &StableMemory) -> (storage: Option<Self>)
        ensures
            storage matches Some(s) ==> s.wf(),
    {
        match Table::open(memory, TRANSACTIONS_REGION) {
            Some(table) => Some(TransactionStorage { table }),
            None => None,
        }
    }

    /// Stores a transaction under its key, in place of the one that was there.
    pub fn insert(&mut self, transaction: Transaction) -> (result: Result<()>)
        requires
            old(self).wf(),
        ensures
            final(self).wf(),
            admissible::<Transaction>(transaction@) ==> result is Ok && final(self)@
                == old(self)@.insert(
                Transaction::key_of(transaction@),
                transaction@,
            ),
            !admissible::<Transaction>(transaction@) ==> (result matches Err(e)
                && e is StorageError && final(self)@ == old(self)@),
    {
        if self.table.put(&transaction) {
            Ok(())
        } else {
            Err(record_too_large())
        }
    }

    /// The transaction under `transaction_id`.
    pub fn get(&self, transaction_id: &str) -> (result: Result<Transaction>)
        requires
            self.wf(),
        ensures
            self.has(transaction_id@) ==> (result matches Ok(found) && found@
                == self.entry(transaction_id@)),
            !self.has(transaction_id@)
                ==> (result matches Err(BitcoinUSTBillsError::TransactionNotFound)),
    {
        let key = make_id_key(transaction_id);
        match self.table.get(&key) {
            Some(found) => Ok(found),
            None => Err(BitcoinUSTBillsError::TransactionNotFound),
        }
    }

    /// Writes a transaction over the one that the table holds under the same key.
    /// Where it holds none, it fails and changes nothing: an update never
    /// adds.
    pub fn update(&mut self, transaction: Transaction) -> (result: Result<()>)
        requires
            old(self).wf(),
        ensures
            final(self).wf(),
            !old(self)@.contains_key(Transaction::key_of(transaction@)) ==> (result matches Err(
                BitcoinUSTBillsError::TransactionNotFound,
            ) && final(self)@ == old(self)@),
            old(self)@.contains_key(Transaction::key_of(transaction@))
                && admissible::<Transaction>(transaction@) ==> result is Ok
                && final(self)@
                    == old(self)@.insert(Transaction::key_of(transaction@), transaction@),
            old(self)@.contains_key(Transaction::key_of(transaction@))
                && !admissible::<Transaction>(transaction@)
                ==> (result matches Err(e) && e is StorageError && final(self)@ == old(self)@),
    {
        let key = transaction.key();
        if !self.table.contains_key(&key) {
            Err(BitcoinUSTBillsError::TransactionNotFound)
        } else if self.table.put(&transaction) {
            Ok(())
        } else {
            Err(record_too_large())
        }
    }

    /// The number of transactions.
    pub fn count(&self) -> (count: u64)
        requires
            self.wf(),
        ensures
            count == self@.dom().len(),
    {
        self.table.count()
    }

    /// The transactions of one owner, in the ascending order of the keys.
    pub fn get_by_user(&self, user_principal: &Principal) -> (found: Vec<Transaction>)
        requires
            self.wf(),
        ensures
            views(found@) == self.listing().filter(transaction_of(user_principal@)),
    {
        let all = self.table.list();
        let ghost listing = self.listing();
        let ghost pred = transaction_of(user_principal@);
        let mut found: Vec<Transaction> = Vec::new();
        let mut i: usize = 0;
        proof {
            lemma_views_empty::<Transaction>();
            lemma_filter_ends(listing, pred);
        }
        while i < all.len()
            invariant
                i <= all.len(),
                views(all@) == listing,
                pred == transaction_of(user_principal@),
                views(found@) == listing.take(i as int).filter(pred),
            decreases all.len() - i,
        {
            let candidate = &all[i];
            proof {
                lemma_filter_step(listing, pred, i as int);
                assert(listing[i as int] == candidate@);
            }
            if candidate.user_principal.equals(user_principal) {
                let keep = candidate.clone();
                proof {
                    lemma_views_push::<Transaction>(found@, keep);
                }
                found.push(keep);
            }
            i += 1;
        }
        proof {
            lemma_filter_ends(listing, pred);
        }
        found
    }

    /// The transactions of one kind, in the ascending order of the keys.
    pub fn get_by_type(&self, transaction_type: &TransactionType) -> (found: Vec<Transaction>)
        requires
            self.wf(),
        ensures
            views(found@) == self.listing().filter(transaction_kind(*transaction_type)),
    {
        let all = self.table.list();
        let ghost listing = self.listing();
        let ghost pred = transaction_kind(*transaction_type);
        let mut found: Vec<Transaction> = Vec::new();
        let mut i: usize = 0;
        proof {
            lemma_views_empty::<Transaction>();
            lemma_filter_ends(listing, pred);
        }
        while i < all.len()
            invariant
                i <= all.len(),
                views(all@) == listing,
                pred == transaction_kind(*transaction_type),
                views(found@) == listing.take(i as int).filter(pred),
            decreases all.len() - i,
        {
            let candidate = &all[i];
            proof {
                lemma_filter_step(listing, pred, i as int);
                assert(listing[i as int] == candidate@);
            }
            if candidate.transaction_type == *transaction_type {
                let keep = candidate.clone();
                proof {
                    lemma_views_push::<Transaction>(found@, keep);
                }
                found.push(keep);
            }
            i += 1;
        }
        proof {
            lemma_filter_ends(listing, pred);
        }
        found
    }

}

/// The table of reference rates.
pub struct TreasuryRateStorage {
    pub table: Table<TreasuryRate>,
}

impl View for TreasuryRateStorage {
    type V = Map<Seq<u8>, TreasuryRateView>;

    open spec fn view(&self) -> Map<Seq<u8>, TreasuryRateView> {
        self.table@
    }
}

impl TreasuryRateStorage {
    /// Whether the table is well formed.
    pub open spec fn wf(&self) -> bool {
        self.table.wf()
    }

    /// Whether the table holds a reference rate under `key`.
    pub open spec fn has(&self, key: Seq<char>) -> bool {
        self@.contains_key(id_key(key))
    }

    /// The reference rate that the table holds under `key`.
    pub open spec fn entry(&self, key: Seq<char>) -> TreasuryRateView {
        self@[id_key(key)]
    }

    /// The reference rates in the ascending order of their keys.
    pub open spec fn listing(&self) -> Seq<TreasuryRateView> {
        self.table.listing()
    }

    /// A new, empty table, written over whatever its region of stable memory
    /// held.
    pub fn create(memory: StableMemory) -> (storage: Self)
        ensures
            storage.wf(),
            storage@ == Map::<Seq<u8>, TreasuryRateView>::empty(),
    {
        Self::create_in(&memory)
    }

    /// The same, in a memory that holds more than this.
    pub(crate) fn create_in(memory: &StableMemory) -> (storage: Self)
        ensures
            storage.wf(),
            storage@ == Map::<Seq<u8>, TreasuryRateView>::empty(),
    {
        TreasuryRateStorage { table: Table::create(memory, TREASURY_RATES_REGION) }
    }

    /// The table that its region of stable memory holds, or `None` where the
    /// region holds something else.
    pub(crate) fn open_in(memory: &StableMemory) -> (storage: Option<Self>)
        ensures
            storage matches Some(s) ==> s.wf(),
    {
        match Table::open(memory, TREASURY_RATES_REGION) {
            Some(table) => Some(TreasuryRateStorage { table }),
            None => None,
        }
    }

    /// Stores a reference rate under its key, in place of the one that was there.
    pub fn insert(&mut self, rate: TreasuryRate) -> (result: Result<()>)
        requires
            old(self).wf(),
        ensures
            final(self).wf(),
            admissible::<TreasuryRate>(rate@) ==> result is Ok && final(self)@ == old(self)@.insert(
                TreasuryRate::key_of(rate@),
                rate@,
            ),
            !admissible::<TreasuryRate>(rate@) ==> (result matches Err(e) && e is StorageError
                && final(self)@ == old(self)@),
    {
        if self.table.put(&rate) {
            Ok(())
        } else {
            Err(record_too_large())
        }
    }

    /// Every reference rate, in the ascending order of the keys.
    pub fn get_all(&self) -> (all: Vec<TreasuryRate>)
        requires
            self.wf(),
        ensures
            views(all@) == self.listing(),
    {
        self.table.list()
    }

    /// Removes every reference rate.
    pub fn clear(&mut self) -> (result: Result<()>)
        ensures
            final(self).wf(),
            result is Ok,
            final(self)@ == Map::<Seq<u8>, TreasuryRateView>::empty(),
    {
        self.table.clear();
        Ok(())
    }

    /// The rates of one security, in the ascending order of the keys.
    pub fn get_by_cusip(&self, cusip: &str) -> (found: Vec<TreasuryRate>)
        requires
            self.wf(),
        ensures
            views(found@) == self.listing().filter(rate_of(cusip@)),
    {
        let all = self.table.list();
        let ghost listing = self.listing();
        let ghost pred = rate_of(cusip@);
        let wanted = String::from_str(cusip);
        let mut found: Vec<TreasuryRate> = Vec::new();
        let mut i: usize = 0;
        proof {
            lemma_views_empty::<TreasuryRate>();
            lemma_filter_ends(listing, pred);
        }
        while i < all.len()
            invariant
                i <= all.len(),
                views(all@) == listing,
                pred == rate_of(cusip@),
                wanted@ == cusip@,
                views(found@) == listing.take(i as int).filter(pred),
            decreases all.len() - i,
        {
            let candidate = &all[i];
            proof {
                lemma_filter_step(listing, pred, i as int);
                assert(listing[i as int] == candidate@);
            }
            if candidate.cusip == wanted {
                let keep = candidate.clone();
                proof {
                    lemma_views_push::<TreasuryRate>(found@, keep);
                }
                found.push(keep);
            }
            i += 1;
        }
        proof {
            lemma_filter_ends(listing, pred);
        }
        found
    }

}

/// Every setting and every figure can be written: a record of six numbers is
/// always 73 bytes long.
pub proof fn lemma_numbers_storable()
    ensures
        forall|c: PlatformConfig| #[trigger] storable::<PlatformConfig>(c),
        forall|m: TradingMetrics| #[trigger] storable::<TradingMetrics>(m),
{
    lemma_auto_spec_u64_to_from_le_bytes();
    assert forall|c: PlatformConfig| #[trigger] storable::<PlatformConfig>(c) by {
        crate::codec::lemma_encoding_len::<PlatformConfig>(c);
        reveal_with_fuel(crate::frames::framed_len, 8);
        assert(crate::frames::framed_len(PlatformConfig::fields_of(c)) == 72);
    }
    assert forall|m: TradingMetrics| #[trigger] storable::<TradingMetrics>(m) by {
        crate::codec::lemma_encoding_len::<TradingMetrics>(m);
        reveal_with_fuel(crate::frames::framed_len, 8);
        assert(crate::frames::framed_len(TradingMetrics::fields_of(m)) == 72);
    }
}

/// The settings of the platform: a single record.
pub struct PlatformConfigStorage {
    pub slot: Slot<PlatformConfig>,
}

impl View for PlatformConfigStorage {
    type V = PlatformConfig;

    open spec fn view(&self) -> PlatformConfig {
        self.slot@
    }
}

impl PlatformConfigStorage {
    /// Whether the record is well formed.
    pub open spec fn wf(&self) -> bool {
        self.slot.wf()
    }

    /// The settings of a new platform, written over whatever their region of
    /// stable memory held.
    pub fn create(memory: StableMemory) -> (storage: Self)
        ensures
            storage.wf(),
            storage@ == PlatformConfig::initial(),
    {
        Self::create_in(&memory)
    }

    /// The same, in a memory that holds more than this.
    pub(crate) fn create_in(memory: &StableMemory) -> (storage: Self)
        ensures
            storage.wf(),
            storage@ == PlatformConfig::initial(),
    {
        proof {
            lemma_numbers_storable();
        }
        let initial = PlatformConfig::default();
        PlatformConfigStorage {
            slot: Slot::create(memory, PLATFORM_CONFIG_REGION, &initial).unwrap(),
        }
    }

    /// The settings that their region of stable memory holds, those of a new
    /// platform where it holds none, or `None` where it holds something else.
    pub(crate) fn open_in(memory: &StableMemory) -> (storage: Option<Self>)
        ensures
            storage matches Some(s) ==> s.wf(),
    {
        let initial = PlatformConfig::default();
        match Slot::open(memory, PLATFORM_CONFIG_REGION, &initial) {
            Some(slot) => Some(PlatformConfigStorage { slot }),
            None => None,
        }
    }

    /// The settings.
    pub fn get(&self) -> (config: PlatformConfig)
        requires
            self.wf(),
        ensures
            config == self@,
    {
        self.slot.get()
    }

    /// Replaces the settings.
    pub fn update(&mut self, config: PlatformConfig) -> (result: Result<()>)
        requires
            old(self).wf(),
        ensures
            final(self).wf(),
            result is Ok,
            final(self)@ == config,
    {
        proof {
            lemma_numbers_storable();
        }
        let _ = self.slot.set(&config);
        Ok(())
    }
}

/// The running figures of all trading: a single record.
pub struct TradingMetricsStorage {
    pub slot: Slot<TradingMetrics>,
}

impl View for TradingMetricsStorage {
    type V = TradingMetrics;

    open spec fn view(&self) -> TradingMetrics {
        self.slot@
    }
}

impl TradingMetricsStorage {
    /// Whether the record is well formed.
    pub open spec fn wf(&self) -> bool {
        self.slot.wf()
    }

    /// The figures before any trade, written over whatever their region of
    /// stable memory held.
    pub fn create(memory: StableMemory) -> (storage: Self)
        ensures
            storage.wf(),
            storage@ == TradingMetrics::initial(),
    {
        Self::create_in(&memory)
    }

    /// The same, in a memory that holds more than this.
    pub(crate) fn create_in(memory: &StableMemory) -> (storage: Self)
        ensures
            storage.wf(),
            storage@ == TradingMetrics::initial(),
    {
        proof {
            lemma_numbers_storable();
        }
        let initial = TradingMetrics {
            total_volume: 0,
            total_transactions: 0,
            average_price: 0,
            highest_price: 0,
            lowest_price: 0,
            last_updated: 0,
        };
        TradingMetricsStorage {
            slot: Slot::create(memory, TRADING_METRICS_REGION, &initial).unwrap(),
        }
    }

    /// The figures that their region of stable memory holds, those before any
    /// trade where it holds none, or `None` where it holds something else.
    pub(crate) fn open_in(memory: &StableMemory) -> (storage: Option<Self>)
        ensures
            storage matches Some(s) ==> s.wf(),
    {
        let initial = TradingMetrics {
            total_volume: 0,
            total_transactions: 0,
            average_price: 0,
            highest_price: 0,
            lowest_price: 0,
            last_updated: 0,
        };
        match Slot::open(memory, TRADING_METRICS_REGION, &initial) {
            Some(slot) => Some(TradingMetricsStorage { slot }),
            None => None,
        }
    }

    /// The figures.
    pub fn get(&self) -> (metrics: TradingMetrics)
        requires
            self.wf(),
        ensures
            metrics == self@,
    {
        self.slot.get()
    }

    /// Replaces the figures.
    pub fn update(&mut self, metrics: TradingMetrics) -> (result: Result<()>)
        requires
            old(self).wf(),
        ensures
            final(self).wf(),
            result is Ok,
            final(self)@ == metrics,
    {
        proof {
            lemma_numbers_storable();
        }
        let _ = self.slot.set(&metrics);
        Ok(())
    }

    /// Counts one more trade of the given volume.
    pub fn update_volume(&mut self, volume: u64, now: u64) -> (result: Result<()>)
        requires
            old(self).wf(),
            old(self)@.total_volume + volume <= u64::MAX,
            old(self)@.total_transactions + 1 <= u64::MAX,
        ensures
            final(self).wf(),
            result is Ok,
            final(self)@ == old(self)@.with_volume(volume, now),
    {
        let metrics = self.get().record_volume(volume, now);
        self.update(metrics)
    }

    /// Takes one more price into the highest, the lowest and the average.
    pub fn update_price(&mut self, price: u64, now: u64) -> (result: Result<()>)
        requires
            old(self).wf(),
        ensures
            final(self).wf(),
            result is Ok,
            final(self)@ == old(self)@.with_price(price, now),
    {
        let metrics = self.get().record_price(price, now);
        self.update(metrics)
    }
}

/// The key of the entry of the ledger with the given number.
pub open spec fn ledger_key(index: u64) -> Seq<u8> {
    u64_field(index)
}

/// Whether `m` is a ledger: its keys are the numbers from 0 up to its size,
/// and every entry is the encoding of a purchase.
pub open spec fn is_ledger(m: Map<Seq<u8>, Seq<u8>>) -> bool {
    &&& m.dom().finite()
    &&& forall|k: Seq<u8>| #[trigger]
        m.contains_key(k) ==> k.len() == 8 && spec_u64_from_le_bytes(k) < m.dom().len()
    &&& forall|i: u64|
        i < m.dom().len() ==> {
            &&& m.contains_key(#[trigger] ledger_key(i))
            &&& m[ledger_key(i)].len() <= MAX_RECORD_BYTES
            &&& decoding::<VerifiedBrokerPurchase>(m[ledger_key(i)]) is Some
            &&& encoding::<VerifiedBrokerPurchase>(
                decoding::<VerifiedBrokerPurchase>(m[ledger_key(i)])->0,
            ) == m[ledger_key(i)]
        }
}

/// The ledger of purchases made at the broker: entries are added at the end
/// and never changed or removed.
pub struct VerifiedPurchasesLedgerStorage {
    bytes: ByteTable,
}

/// The purchases that a ledger holds, in the order of their numbers.
pub open spec fn ledger_entries(m: Map<Seq<u8>, Seq<u8>>) -> Seq<VerifiedBrokerPurchaseView> {
    Seq::new(
        m.dom().len(),
        |i: int| decoding::<VerifiedBrokerPurchase>(m[ledger_key(i as u64)])->0,
    )
}

impl View for VerifiedPurchasesLedgerStorage {
    type V = Seq<VerifiedBrokerPurchaseView>;

    closed spec fn view(&self) -> Seq<VerifiedBrokerPurchaseView> {
        ledger_entries(self.bytes@)
    }
}

impl VerifiedPurchasesLedgerStorage {
    /// Whether the ledger is well formed.
    pub closed spec fn wf(&self) -> bool {
        is_ledger(self.bytes@)
    }

    /// Every entry of a well-formed ledger can be written again.
    pub proof fn lemma_entries_storable(&self)
        requires
            self.wf(),
        ensures
            forall|i: int|
                0 <= i < self@.len() ==> storable::<VerifiedBrokerPurchase>(#[trigger] self@[i]),
    {
        assert forall|i: int| 0 <= i < self@.len() implies storable::<VerifiedBrokerPurchase>(
            #[trigger] self@[i],
        ) by {
            let key = ledger_key(i as u64);
            assert(self.bytes@.contains_key(key));
            VerifiedBrokerPurchase::lemma_of_fields_valid(
                crate::frames::unframe(self.bytes@[key].skip(1))->0,
            );
        }
    }

    /// A new, empty ledger, written over whatever its region of stable memory
    /// held.
    pub fn create(memory: StableMemory) -> (ledger: Self)
        ensures
            ledger.wf(),
            ledger@ == Seq::<VerifiedBrokerPurchaseView>::empty(),
    {
        Self::create_in(&memory)
    }

    /// The same, in a memory that holds more than this.
    pub(crate) fn create_in(memory: &StableMemory) -> (ledger: Self)
        ensures
            ledger.wf(),
            ledger@ == Seq::<VerifiedBrokerPurchaseView>::empty(),
    {
        let bytes = ByteTable::create(memory, VERIFIED_PURCHASES_LEDGER_REGION);
        let ledger = VerifiedPurchasesLedgerStorage { bytes };
        assert(ledger@ =~= Seq::<VerifiedBrokerPurchaseView>::empty());
        ledger
    }

    /// The ledger that its region of stable memory holds, or `None` where the
    /// region holds something else.
#[verifier::rlimit(50)]
    pub(crate) fn open_in(memory: &StableMemory) -> (ledger: Option<Self>)
        ensures
            ledger matches Some(l) ==> l.wf(),
    {
        Self::adopt(ByteTable::load(memory, VERIFIED_PURCHASES_LEDGER_REGION))
    }

    /// Takes a table of byte strings for a ledger. Every entry is read once:
    /// the table is taken where its keys are the numbers from 0 up to its size
    /// and every entry is the encoding of a purchase, and refused otherwise.
    /// The ledger that is taken holds those purchases in the order of their
    /// numbers.
    #[verifier::rlimit(50)]
    pub fn adopt(bytes: ByteTable) -> (ledger: Option<Self>)
        ensures
            ledger is Some <==> is_ledger(bytes@),
            ledger matches Some(l) ==> l.wf() && l@ == ledger_entries(bytes@),
    {
        let size = bytes.len();
        let entries = bytes.entries();
        let ghost listed = crate::stable::entry_views(entries@);
        proof {
            crate::table::lemma_listing_len(listed, bytes@);
        }
        let mut j: usize = 0;
        while j < entries.len()
            invariant
                j <= entries.len(),
                listed == crate::stable::entry_views(entries@),
                crate::stable::is_listing(listed, bytes@),
                size == bytes@.dom().len(),
                forall|n: int|
                    0 <= n < j ==> (#[trigger] listed[n]).0.len() == 8 && spec_u64_from_le_bytes(
                        listed[n].0,
                    ) < size,
            decreases entries.len() - j,
        {
            let key = &entries[j].0;
            assert(listed[j as int].0 == key@);
            assert(bytes@.contains_pair(listed[j as int].0, listed[j as int].1));
            match read_u64(key.as_slice()) {
                Some(index) => {
                    if index >= size {
                        return None;
                    }
                },
                None => {
                    return None;
                },
            }
            j += 1;
        }
        proof {
            let m = bytes@;
            assert forall|k: Seq<u8>| #[trigger] m.contains_key(k) implies k.len() == 8
                && spec_u64_from_le_bytes(k) < m.dom().len() by {
                let n = choose|n: int| 0 <= n < listed.len() && (#[trigger] listed[n]).0 == k;
            }
        }
        let mut i: u64 = 0;
        while i < size
            invariant
                i <= size,
                size == bytes@.dom().len(),
                bytes@.dom().finite(),
                forall|k: Seq<u8>| #[trigger]
                    bytes@.contains_key(k) ==> k.len() == 8 && spec_u64_from_le_bytes(k)
                        < bytes@.dom().len(),
                forall|n: u64|
                    n < i ==> {
                        &&& bytes@.contains_key(#[trigger] ledger_key(n))
                        &&& bytes@[ledger_key(n)].len() <= MAX_RECORD_BYTES
                        &&& decoding::<VerifiedBrokerPurchase>(bytes@[ledger_key(n)]) is Some
                        &&& encoding::<VerifiedBrokerPurchase>(
                            decoding::<VerifiedBrokerPurchase>(bytes@[ledger_key(n)])->0,
                        ) == bytes@[ledger_key(n)]
                    },
            decreases size - i,
        {
            let key = write_u64(i);
            assert(key@ == ledger_key(i));
            match bytes.get(&key) {
                Some(value) => {
                    match decode::<VerifiedBrokerPurchase>(value.as_slice()) {
                        Some(entry) => {
                            match encode::<VerifiedBrokerPurchase>(&entry) {
                                Some(again) => {
                                    if !crate::principal::bytes_equal(
                                        again.as_slice(),
                                        value.as_slice(),
                                    ) {
                                        return None;
                                    }
                                },
                                None => {
                                    return None;
                                },
                            }
                        },
                        None => {
                            return None;
                        },
                    }
                },
                None => {
                    return None;
                },
            }
            i += 1;
        }
        Some(VerifiedPurchasesLedgerStorage { bytes })
    }

    /// Adds a purchase at the end of the ledger. A purchase that cannot be
    /// written changes nothing and fails with a storage error.
#[verifier::rlimit(50)]
    pub fn insert(&mut self, purchase: VerifiedBrokerPurchase) -> (result: Result<()>)
        requires
            old(self).wf(),
        ensures
            final(self).wf(),
            storable::<VerifiedBrokerPurchase>(purchase@) ==> result is Ok && final(self)@
                == old(self)@.push(purchase@),
            !storable::<VerifiedBrokerPurchase>(purchase@) ==> (result matches Err(e)
                && e is StorageError && final(self)@ == old(self)@),
    {
        let index = self.bytes.len();
        match encode::<VerifiedBrokerPurchase>(&purchase) {
            Some(value) => {
                let key = write_u64(index);
                let ghost before = self.bytes@;
                proof {
                    lemma_auto_spec_u64_to_from_le_bytes();
                    lemma_round_trip::<VerifiedBrokerPurchase>(purchase@);
                    if before.contains_key(key@) {
                        assert(spec_u64_from_le_bytes(key@) < before.dom().len());
                    }
                }
                let _ = self.bytes.insert(key, value);
                proof {
                    let after = self.bytes@;
                    assert(after.dom() =~= before.dom().insert(ledger_key(index)));
                    assert forall|i: u64| i < after.dom().len() implies {
                        &&& after.contains_key(#[trigger] ledger_key(i))
                        &&& after[ledger_key(i)].len() <= MAX_RECORD_BYTES
                        &&& decoding::<VerifiedBrokerPurchase>(after[ledger_key(i)]) is Some
                        &&& encoding::<VerifiedBrokerPurchase>(
                            decoding::<VerifiedBrokerPurchase>(after[ledger_key(i)])->0,
                        ) == after[ledger_key(i)]
                    } by {
                        if i < index {
                            assert(before.contains_key(ledger_key(i)));
                            assert(ledger_key(i) != ledger_key(index));
                        }
                    }
                    assert forall|i: int| 0 <= i < index implies (#[trigger] final(self)@[i])
                        == old(self)@[i] by {
                        assert(before.contains_key(ledger_key(i as u64)));
                        assert(ledger_key(i as u64) != ledger_key(index));
                    }
                    assert(final(self)@ =~= old(self)@.push(purchase@));
                }
                Ok(())
            },
            None => Err(record_too_large()),
        }
    }

    /// Every purchase, in the order in which it was added.
    pub fn get_all(&self) -> (all: Vec<VerifiedBrokerPurchase>)
        requires
            self.wf(),
        ensures
            views(all@) == self@,
    {
        let size = self.bytes.len();
        let mut all: Vec<VerifiedBrokerPurchase> = Vec::new();
        let mut i: u64 = 0;
        while i < size
            invariant
                i <= size,
                self.wf(),
                size == self.bytes@.dom().len(),
                all@.len() == i,
                forall|n: int| 0 <= n < i ==> (#[trigger] all@[n])@ == self@[n],
            decreases size - i,
        {
            let key = write_u64(i);
            assert(self.bytes@.contains_key(ledger_key(i)));
            let value = self.bytes.get(&key).unwrap();
            all.push(decode::<VerifiedBrokerPurchase>(value.as_slice()).unwrap());
            i += 1;
        }
        assert(views(all@) =~= self@);
        all
    }

    /// The number of purchases.
    pub fn count(&self) -> (count: u64)
        requires
            self.wf(),
        ensures
            count == self@.len(),
    {
        self.bytes.len()
    }
}

/// The source of identifiers: a counter in stable memory that starts at 0 and
/// only ever grows.
pub struct IdCounter {
    cell: ByteCell,
}

impl View for IdCounter {
    type V = u64;

    /// The number that the next identifier is made of.
    closed spec fn view(&self) -> u64 {
        spec_u64_from_le_bytes(self.cell@)
    }
}

impl IdCounter {
    /// Whether the counter is well formed.
    pub closed spec fn wf(&self) -> bool {
        self.cell@.len() == 8
    }

    /// A counter at 0, written over whatever its region of stable memory held.
    pub fn create(memory: StableMemory) -> (counter: Self)
        ensures
            counter.wf(),
            counter@ == 0,
    {
        Self::create_in(&memory)
    }

    /// The same, in a memory that holds more than this.
    pub(crate) fn create_in(memory: &StableMemory) -> (counter: Self)
        ensures
            counter.wf(),
            counter@ == 0,
    {
        proof {
            lemma_auto_spec_u64_to_from_le_bytes();
        }
        IdCounter { cell: ByteCell::create(memory, ID_COUNTER_REGION, write_u64(0)) }
    }

    /// The counter that its region of stable memory holds, one at 0 where it
    /// holds none, or `None` where it holds something else.
    pub(crate) fn open_in(memory: &StableMemory) -> (counter: Option<Self>)
        ensures
            counter matches Some(c) ==> c.wf(),
    {
        proof {
            lemma_auto_spec_u64_to_from_le_bytes();
        }
        Self::adopt(ByteCell::load(memory, ID_COUNTER_REGION, write_u64(0)))
    }

    /// Takes a cell of bytes for a counter. The cell is taken where it holds
    /// eight bytes, and refused otherwise. The counter that is taken stands at
    /// the number that the eight bytes are, the lowest first.
    pub fn adopt(cell: ByteCell) -> (counter: Option<Self>)
        ensures
            counter is Some <==> cell@.len() == 8,
            counter matches Some(c) ==> c.wf() && c@ == spec_u64_from_le_bytes(cell@),
    {
        let held = cell.get();
        if held.len() == 8 {
            Some(IdCounter { cell })
        } else {
            None
        }
    }

    /// The number that the next identifier is made of.
    pub fn current(&self) -> (n: u64)
        requires
            self.wf(),
        ensures
            n == self@,
    {
        let held = self.cell.get();
        read_u64(held.as_slice()).unwrap()
    }

    /// Puts the counter at a number.
    pub(crate) fn set(&mut self, n: u64)
        requires
            old(self).wf(),
        ensures
            final(self).wf(),
            final(self)@ == n,
    {
        proof {
            lemma_auto_spec_u64_to_from_le_bytes();
        }
        self.cell.set(write_u64(n));
    }

    /// Takes the next number: the counter is one further afterwards.
    pub fn advance(&mut self) -> (n: u64)
        requires
            old(self).wf(),
            old(self)@ < u64::MAX,
        ensures
            final(self).wf(),
            n == old(self)@,
            final(self)@ == old(self)@ + 1,
    {
        proof {
            lemma_auto_spec_u64_to_from_le_bytes();
        }
        let n = self.current();
        self.cell.set(write_u64(n + 1));
        n
    }
}

/// A new identifier: the counter in decimal. The counter is one further
/// afterwards, so no identifier is given twice.
pub fn generate_id(counter: &mut IdCounter) -> (id: String)
    requires
        old(counter).wf(),
        old(counter)@ < u64::MAX,
    ensures
        final(counter).wf(),
        id@ == decimal_text(old(counter)@ as nat),
        final(counter)@ == old(counter)@ + 1,
{
    decimal(counter.advance())
}

/// What [`get_storage_stats`] reports: the size of each table under its name,
/// in this order.
pub open spec fn storage_stats(
    bills: nat,
    users: nat,
    holdings: nat,
    transactions: nat,
    verified_purchases: nat,
) -> Seq<(Seq<char>, nat)> {
    seq![
        ("ustbills"@, bills),
        ("users"@, users),
        ("holdings"@, holdings),
        ("transactions"@, transactions),
        ("verified_purchases"@, verified_purchases),
    ]
}

/// The names and sizes of a report.
pub open spec fn stats_view(stats: Seq<(String, u64)>) -> Seq<(Seq<char>, nat)> {
    Seq::new(stats.len(), |i: int| (stats[i].0@, stats[i].1 as nat))
}

/// The size of each table, under its name.
pub fn get_storage_stats(
    bills: &USTBillStorage,
    users: &UserStorage,
    holdings: &HoldingStorage,
    transactions: &TransactionStorage,
    ledger: &VerifiedPurchasesLedgerStorage,
) -> (stats: Vec<(String, u64)>)
    requires
        bills.wf(),
        users.wf(),
        holdings.wf(),
        transactions.wf(),
        ledger.wf(),
    ensures
        stats_view(stats@) == storage_stats(
            bills@.dom().len(),
            users@.dom().len(),
            holdings@.dom().len(),
            transactions@.dom().len(),
            ledger@.len(),
        ),
{
    let mut stats: Vec<(String, u64)> = Vec::new();
    stats.push((String::from_str("ustbills"), bills.count()));
    stats.push((String::from_str("users"), users.count()));
    stats.push((String::from_str("holdings"), holdings.count()));
    stats.push((String::from_str("transactions"), transactions.count()));
    stats.push((String::from_str("verified_purchases"), ledger.count()));
    assert(stats_view(stats@) =~= storage_stats(
        bills@.dom().len(),
        users@.dom().len(),
        holdings@.dom().len(),
        transactions@.dom().len(),
        ledger@.len(),
    ));
    stats
}

} // verus!
