//! Opening accounts and reading them.

use vstd::prelude::*;
use crate::errors::{BitcoinUSTBillsError, Result};
use crate::guard::{admin_rejection, assert_admin};
use crate::platform::{Platform, PlatformView};
use crate::principal::Principal;
use crate::records::{account_key, lemma_account_key_injective};
use crate::storage::holding_of;
use crate::table::{admissible, views};
use crate::text::contains_char;
use crate::trading::lemma_account_figures;
use crate::types::{
    KYCStatus, TokenHolding, User, UserRegistrationRequest, UserRegistrationRequestView, UserView,
};

verus! {

/// Why the data of a new account is refused, if it is, in words: an address
/// that is empty or holds no `@`, or no country.
pub open spec fn user_data_rejection(data: UserRegistrationRequestView) -> Option<Seq<char>> {
    if data.email.len() == 0 || !data.email.contains('@') {
        Some("Invalid email format"@)
    } else if data.country.len() == 0 {
        Some("Country is required"@)
    } else {
        None
    }
}

/// The account that is opened for the given data: not yet verified, active,
/// with an empty wallet.
pub open spec fn new_account(owner: Seq<u8>, data: UserRegistrationRequestView, now: u64)
    -> UserView {
    UserView {
        principal: owner,
        email: data.email,
        kyc_status: KYCStatus::Pending,
        wallet_balance: 0,
        total_invested: 0,
        total_yield_earned: 0,
        created_at: now,
        updated_at: now,
        is_active: true,
        phone_number: data.phone_number,
        country: data.country,
    }
}

/// Tests the data of a new account.
pub fn validate_user_data(data: &UserRegistrationRequest) -> (result: Result<()>)
    ensures
        user_data_rejection(data@) is None ==> result is Ok,
        user_data_rejection(data@) matches Some(why) ==> (result matches Err(
            BitcoinUSTBillsError::ValidationError(said),
        ) && said@ == why),
{
    if data.email.as_str().is_empty() || !contains_char(data.email.as_str(), '@') {
        return Err(BitcoinUSTBillsError::validation_error("Invalid email format"));
    }
    if data.country.as_str().is_empty() {
        return Err(BitcoinUSTBillsError::validation_error("Country is required"));
    }
    Ok(())
}

/// Opens an account for the caller. A caller who has one is refused, then
/// data that is refused; nothing changes then, nor where the account cannot
/// be stored.
pub fn register_user(
    platform: &mut Platform,
    caller: &Principal,
    user_data: UserRegistrationRequest,
    now: u64,
) -> (result: Result<User>)
    requires
        old(platform).wf(),
    ensures
        final(platform).wf(),
        old(platform)@.consistent() ==> final(platform)@.consistent(),
        old(platform)@.has_account(caller@) ==> (result matches Err(
            BitcoinUSTBillsError::UserAlreadyExists,
        ) && final(platform)@ == old(platform)@),
        !old(platform)@.has_account(caller@) ==> (user_data_rejection(user_data@) matches Some(
            why,
        ) ==> (result matches Err(BitcoinUSTBillsError::ValidationError(said)) && said@ == why
            && final(platform)@ == old(platform)@)),
        !old(platform)@.has_account(caller@) && user_data_rejection(user_data@) is None ==> ({
            let account = new_account(caller@, user_data@, now);
            if admissible::<User>(account) {
                &&& result matches Ok(opened)
                &&& opened@ == account
                &&& final(platform)@ == (PlatformView {
                    users: old(platform)@.users.insert(account_key(caller@), account),
                    ..old(platform)@
                })
            } else {
                &&& result matches Err(e)
                &&& e is StorageError
                &&& final(platform)@ == old(platform)@
            }
        }),
{
    let ghost before = platform@;
    if platform.users.get(caller).is_ok() {
        return Err(BitcoinUSTBillsError::UserAlreadyExists);
    }
    match validate_user_data(&user_data) {
        Ok(()) => {},
        Err(e) => {
            return Err(e);
        },
    }
    let user = User {
        principal: caller.clone(),
        email: user_data.email,
        kyc_status: KYCStatus::Pending,
        wallet_balance: 0,
        total_invested: 0,
        total_yield_earned: 0,
        created_at: now,
        updated_at: now,
        is_active: true,
        phone_number: user_data.phone_number,
        country: user_data.country,
    };
    let stored = platform.users.insert(user.clone());
    proof {
        if before.consistent() {
            crate::laws::lemma_others_keep_books(before, platform@);
        }
    }
    match stored {
        Ok(()) => Ok(user),
        Err(e) => Err(e),
    }
}

/// Sets how far the verification of an account's owner has come, for an
/// administrator. Where the caller is no administrator or there is no such
/// account, nothing changes.
pub fn update_kyc_status(
    platform: &mut Platform,
    caller: &Principal,
    principal: &Principal,
    status: KYCStatus,
    now: u64,
) -> (result: Result<()>)
    requires
        old(platform).wf(),
    ensures
        final(platform).wf(),
        old(platform)@.consistent() ==> final(platform)@.consistent(),
        admin_rejection(old(platform)@.authorized, caller@) matches Some(e) ==> (result == Err::<
            (),
            BitcoinUSTBillsError,
        >(e) && final(platform)@ == old(platform)@),
        admin_rejection(old(platform)@.authorized, caller@) is None && !old(platform)@.has_account(
            principal@,
        ) ==> (result matches Err(BitcoinUSTBillsError::UserNotFound) && final(platform)@
            == old(platform)@),
        admin_rejection(old(platform)@.authorized, caller@) is None && old(platform)@.has_account(
            principal@,
        ) ==> (result is Ok && final(platform)@ == (PlatformView {
            users: old(platform)@.users.insert(
                account_key(principal@),
                UserView {
                    kyc_status: status,
                    updated_at: now,
                    ..old(platform)@.account(principal@)
                },
            ),
            ..old(platform)@
        })),
{
    match assert_admin(&platform.guard, caller) {
        Ok(()) => {},
        Err(e) => {
            return Err(e);
        },
    }
    let mut user = match platform.users.get(principal) {
        Ok(user) => user,
        Err(e) => {
            return Err(BitcoinUSTBillsError::UserNotFound);
        },
    };
    let ghost before = platform@;
    let ghost old_user = user@;
    proof {
        platform.users.table.lemma_wf();
        assert(platform.users@.contains_key(account_key(principal@)));
        lemma_account_key_injective(old_user.principal, principal@);
    }
    user.kyc_status = status;
    user.updated_at = now;
    proof {
        lemma_account_figures(old_user, user@);
    }
    let written = platform.users.update(user);
    assert(written is Ok);
    proof {
        if before.consistent() {
            crate::laws::lemma_others_keep_books(before, platform@);
        }
    }
    Ok(())
}

/// The account of an identity.
pub fn get_user_profile(platform: &Platform, principal: &Principal) -> (result: Result<User>)
    requires
        platform.wf(),
    ensures
        platform@.has_account(principal@) ==> (result matches Ok(found) && found@
            == platform@.account(principal@)),
        !platform@.has_account(principal@) ==> result matches Err(
            BitcoinUSTBillsError::UserNotFound,
        ),
{
    platform.users.get(principal)
}

/// The holdings of an identity, in the ascending order of their keys.
pub fn get_user_holdings(platform: &Platform, principal: &Principal) -> (found: Vec<TokenHolding>)
    requires
        platform.wf(),
    ensures
        views(found@) == platform.holdings.listing().filter(holding_of(principal@)),
{
    platform.holdings.get_by_user(principal)
}

/// The address of the caller's account.
pub fn get_principal_data(platform: &Platform, caller: &Principal) -> (result: Result<String>)
    requires
        platform.wf(),
    ensures
        platform@.has_account(caller@) ==> (result matches Ok(email) && email@ == platform@.account(
            caller@,
        ).email),
        !platform@.has_account(caller@) ==> result matches Err(
            BitcoinUSTBillsError::DidntFindUserData,
        ),
{
    match platform.users.get(caller) {
        Ok(user) => Ok(user.email),
        Err(_) => Err(BitcoinUSTBillsError::DidntFindUserData),
    }
}

/// Replaces the address of the caller's account. Nothing changes where the
/// caller has no account, nor where the account cannot be stored with the new
/// address.
pub fn set_principal_data(platform: &mut Platform, caller: &Principal, s: String) -> (result:
    Result<()>)
    requires
        old(platform).wf(),
    ensures
        final(platform).wf(),
        old(platform)@.consistent() ==> final(platform)@.consistent(),
        !old(platform)@.has_account(caller@) ==> (result matches Err(
            BitcoinUSTBillsError::DidntFindUserData,
        ) && final(platform)@ == old(platform)@),
        old(platform)@.has_account(caller@) ==> ({
            let account = UserView { email: s@, ..old(platform)@.account(caller@) };
            if admissible::<User>(account) {
                &&& result is Ok
                &&& final(platform)@ == (PlatformView {
                    users: old(platform)@.users.insert(account_key(caller@), account),
                    ..old(platform)@
                })
            } else {
                &&& result matches Err(e)
                &&& e is StorageError
                &&& final(platform)@ == old(platform)@
            }
        }),
{
    match platform.users.get(caller) {
        Ok(mut user) => {
            proof {
                platform.users.table.lemma_wf();
                assert(platform.users@.contains_key(account_key(caller@)));
                lemma_account_key_injective(user@.principal, caller@);
            }
            user.email = s;
            let ghost before = platform@;
            let written = platform.users.update(user);
            proof {
                if before.consistent() {
                    crate::laws::lemma_others_keep_books(before, platform@);
                }
            }
            written
        },
        Err(_) => Err(BitcoinUSTBillsError::DidntFindUserData),
    }
}

} // verus!
