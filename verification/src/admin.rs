//! What administrators do, and what anyone may read of the platform as a
//! whole.

use vstd::prelude::*;
use vstd::string::StringExecFns;
use crate::codec::storable;
use crate::errors::{BitcoinUSTBillsError, Result};
use crate::guard::{admin_rejection, assert_admin, with_principal, Guard};
use crate::platform::{Platform, PlatformView};
use crate::principal::Principal;
use crate::records::Keyed;
use crate::storage::{stats_view, storage_stats};
use crate::table::{admissible, table_of, views};
use crate::types::{
    PlatformConfig, TradingMetrics, TreasuryRate, TreasuryRateView, VerifiedBrokerPurchase,
    VerifiedBrokerPurchaseView,
};

verus! {

/// The entry of the ledger for a purchase made at the broker.
pub open spec fn broker_purchase(
    amount: u64,
    price: u64,
    broker_txn_id: Seq<char>,
    ustbill_type: Seq<char>,
    now: u64,
) -> VerifiedBrokerPurchaseView {
    VerifiedBrokerPurchaseView { amount, price, timestamp: now, broker_txn_id, ustbill_type }
}

/// Adds a purchase made at the broker to the ledger, for an administrator.
/// Nothing changes where the caller is no administrator, nor where the entry
/// cannot be stored.
pub fn admin_add_broker_purchase_record(
    platform: &mut Platform,
    caller: &Principal,
    amount: u64,
    price: u64,
    broker_txn_id: String,
    ustbill_type: String,
    now: u64,
) -> (result: Result<()>)
    requires
        old(platform).wf(),
    ensures
        final(platform).wf(),
        old(platform)@.consistent() ==> final(platform)@.consistent(),
        admin_rejection(old(platform)@.authorized, caller@) matches Some(e) ==> (result == Err::<
            (),
            BitcoinUSTBillsError,
        >(e) && final(platform)@ == old(platform)@),
        admin_rejection(old(platform)@.authorized, caller@) is None ==> ({
            let entry = broker_purchase(amount, price, broker_txn_id@, ustbill_type@, now);
            if storable::<VerifiedBrokerPurchase>(entry) {
                &&& result is Ok
                &&& final(platform)@ == (PlatformView {
                    verified_purchases: old(platform)@.verified_purchases.push(entry),
                    ..old(platform)@
                })
            } else {
                &&& result matches Err(e)
                &&& e is StorageError
                &&& final(platform)@ == old(platform)@
            }
        }),
{
    match assert_admin(&platform.guard, caller) {
        Ok(()) => {},
        Err(e) => {
            return Err(e);
        },
    }
    let purchase = VerifiedBrokerPurchase {
        amount,
        price,
        timestamp: now,
        broker_txn_id,
        ustbill_type,
    };
    let ghost before = platform@;
    let added = platform.verified_purchases.insert(purchase);
    proof {
        if before.consistent() {
            crate::laws::lemma_others_keep_books(before, platform@);
        }
    }
    added
}

/// Every entry of the ledger, in the order in which it was added.
pub fn get_all_verified_broker_purchases(platform: &Platform) -> (all: Vec<VerifiedBrokerPurchase>)
    requires
        platform.wf(),
    ensures
        views(all@) == platform@.verified_purchases,
{
    platform.verified_purchases.get_all()
}

/// How many of the rates, from the first on, can be stored one after the
/// other.
pub open spec fn storable_prefix(rates: Seq<TreasuryRateView>) -> nat
    decreases rates.len(),
{
    if rates.len() == 0 || !admissible::<TreasuryRate>(rates[0]) {
        0
    } else {
        1 + storable_prefix(rates.drop_first())
    }
}

proof fn lemma_storable_prefix(rates: Seq<TreasuryRateView>, i: int)
    requires
        0 <= i <= rates.len(),
        forall|j: int| 0 <= j < i ==> admissible::<TreasuryRate>(rates[j]),
        i < rates.len() ==> !admissible::<TreasuryRate>(rates[i]),
    ensures
        storable_prefix(rates) == i,
    decreases rates.len(),
{
    if i > 0 {
        let rest = rates.drop_first();
        assert forall|j: int| 0 <= j < i - 1 implies admissible::<TreasuryRate>(rest[j]) by {
            assert(rest[j] == rates[j + 1]);
        }
        lemma_storable_prefix(rest, i - 1);
    }
}

/// Takes in the reference rates that were fetched, in place of all that were
/// stored before. The rates are stored one after the other; at the first that
/// cannot be stored the refresh stops with a storage error, and the table
/// holds those before it.
#[verifier::rlimit(50)]
pub fn fetch_treasury_rates(platform: &mut Platform, fetched: Vec<TreasuryRate>) -> (result: Result<
    Vec<TreasuryRate>,
>)
    requires
        old(platform).wf(),
    ensures
        final(platform).wf(),
        old(platform)@.consistent() ==> final(platform)@.consistent(),
        final(platform)@ == (PlatformView {
            treasury_rates: table_of::<TreasuryRate>(
                views(fetched@).take(storable_prefix(views(fetched@)) as int),
            ),
            ..old(platform)@
        }),
        storable_prefix(views(fetched@)) == fetched@.len() ==> (result matches Ok(rates) && views(
            rates@,
        ) == views(fetched@)),
        storable_prefix(views(fetched@)) < fetched@.len() ==> (result matches Err(e)
            && e is StorageError),
{
    let ghost before = platform@;
    let ghost all = views(fetched@);
    let cleared = platform.treasury_rates.clear();
    let mut i: usize = 0;
    assert(all.take(0) =~= Seq::<TreasuryRateView>::empty());
    while i < fetched.len()
        invariant
            i <= fetched@.len(),
            all == views(fetched@),
            before == old(platform)@,
            platform.wf(),
            forall|j: int| 0 <= j < i ==> admissible::<TreasuryRate>(all[j]),
            platform@ == (PlatformView {
                treasury_rates: table_of::<TreasuryRate>(all.take(i as int)),
                ..before
            }),
        decreases fetched@.len() - i,
    {
        let rate = fetched[i].clone();
        assert(rate@ == all[i as int]);
        proof {
            assert(all.take(i + 1).drop_last() =~= all.take(i as int));
            assert(all.take(i + 1).last() == all[i as int]);
        }
        match platform.treasury_rates.insert(rate) {
            Ok(()) => {},
            Err(e) => {
                proof {
                    lemma_storable_prefix(all, i as int);
                    if before.consistent() {
                        crate::laws::lemma_others_keep_books(before, platform@);
                    }
                }
                return Err(e);
            },
        }
        i += 1;
    }
    proof {
        lemma_storable_prefix(all, i as int);
        if before.consistent() {
            crate::laws::lemma_others_keep_books(before, platform@);
        }
    }
    Ok(fetched)
}

/// The settings.
pub fn get_platform_config(platform: &Platform) -> (config: PlatformConfig)
    requires
        platform.wf(),
    ensures
        config == platform@.config,
{
    platform.config.get()
}

/// Replaces the settings, for an administrator. For any other caller nothing
/// changes.
pub fn update_platform_config(platform: &mut Platform, caller: &Principal, config: PlatformConfig)
    -> (result: Result<()>)
    requires
        old(platform).wf(),
    ensures
        final(platform).wf(),
        old(platform)@.consistent() ==> final(platform)@.consistent(),
        admin_rejection(old(platform)@.authorized, caller@) matches Some(e) ==> (result == Err::<
            (),
            BitcoinUSTBillsError,
        >(e) && final(platform)@ == old(platform)@),
        admin_rejection(old(platform)@.authorized, caller@) is None ==> (result is Ok
            && final(platform)@ == (PlatformView { config, ..old(platform)@ })),
{
    match assert_admin(&platform.guard, caller) {
        Ok(()) => {},
        Err(e) => {
            return Err(e);
        },
    }
    let ghost before = platform@;
    let updated = platform.config.update(config);
    proof {
        if before.consistent() {
            crate::laws::lemma_others_keep_books(before, platform@);
        }
    }
    updated
}

/// The running figures of all trading.
pub fn get_trading_metrics(platform: &Platform) -> (metrics: TradingMetrics)
    requires
        platform.wf(),
    ensures
        metrics == platform@.trading_metrics,
{
    platform.trading_metrics.get()
}

/// The size of each table of the platform, under its name.
pub fn get_storage_stats(platform: &Platform) -> (stats: Vec<(String, u64)>)
    requires
        platform.wf(),
    ensures
        stats_view(stats@) == storage_stats(
            platform@.ustbills.dom().len(),
            platform@.users.dom().len(),
            platform@.holdings.dom().len(),
            platform@.transactions.dom().len(),
            platform@.verified_purchases.len(),
        ),
{
    crate::storage::get_storage_stats(
        &platform.ustbills,
        &platform.users,
        &platform.holdings,
        &platform.transactions,
        &platform.verified_purchases,
    )
}

/// Answers an administrator, and refuses any other caller.
pub fn test_func(guard: &Guard, caller: &Principal) -> (result: Result<String>)
    requires
        guard.wf(),
    ensures
        admin_rejection(guard@, caller@) matches Some(e) ==> result == Err::<
            String,
            BitcoinUSTBillsError,
        >(e),
        admin_rejection(guard@, caller@) is None ==> (result matches Ok(answer) && answer@
            == "test_func with admin guard"@),
{
    match assert_admin(guard, caller) {
        Ok(()) => Ok(String::from_str("test_func with admin guard")),
        Err(e) => Err(e),
    }
}

/// Authorizes an identity, for an administrator. For any other caller
/// nothing changes.
pub fn add_to_list(guard: &mut Guard, caller: &Principal, p: Principal) -> (result: Result<()>)
    requires
        old(guard).wf(),
    ensures
        final(guard).wf(),
        admin_rejection(old(guard)@, caller@) matches Some(e) ==> (result == Err::<
            (),
            BitcoinUSTBillsError,
        >(e) && final(guard)@ == old(guard)@),
        admin_rejection(old(guard)@, caller@) is None ==> (result is Ok && final(guard)@
            == with_principal(old(guard)@, p@)),
{
    match assert_admin(guard, caller) {
        Ok(()) => {
            crate::guard::add_to_list(guard, p);
            Ok(())
        },
        Err(e) => Err(e),
    }
}

} // verus!
