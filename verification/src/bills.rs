//! Offering bills and listing them.

use vstd::prelude::*;
use crate::errors::{BitcoinUSTBillsError, Result};
use crate::guard::{admin_rejection, assert_admin};
use crate::platform::{Platform, PlatformView};
use crate::principal::Principal;
use crate::records::id_key;
use crate::storage::{active_bill, generate_id};
use crate::table::{admissible, views};
use crate::text::decimal_text;
use crate::types::{
    PaginatedResponse, USTBill, USTBillCreateRequest, USTBillCreateRequestView, USTBillStatus,
    USTBillView,
};

verus! {

/// The greatest yearly yield of a bill: 100%, in basis points.
pub const MAX_YIELD_BPS: u64 = 10_000;

/// Why the data of a new bill is refused, if it is: no security identifier, a
/// yield above 100%, no tokens, or a maturity that is not in the future.
pub open spec fn ustbill_data_rejection(data: USTBillCreateRequestView, now: u64) -> Option<
    BitcoinUSTBillsError,
> {
    if data.cusip.len() == 0 {
        Some(BitcoinUSTBillsError::InvalidCUSIP)
    } else if data.annual_yield_bps > MAX_YIELD_BPS {
        Some(BitcoinUSTBillsError::InvalidYieldRate)
    } else if data.total_tokens == 0 {
        Some(BitcoinUSTBillsError::InvalidTokenAmount)
    } else if data.maturity_date <= now {
        Some(BitcoinUSTBillsError::InvalidDate)
    } else {
        None
    }
}

/// The bill that is offered for the given data: active, with no token sold.
pub open spec fn new_bill(data: USTBillCreateRequestView, id: Seq<char>, now: u64) -> USTBillView {
    USTBillView {
        id,
        cusip: data.cusip,
        face_value: data.face_value,
        purchase_price: data.purchase_price,
        maturity_date: data.maturity_date,
        annual_yield_bps: data.annual_yield_bps,
        total_tokens: data.total_tokens,
        tokens_sold: 0,
        status: USTBillStatus::Active,
        created_at: now,
        updated_at: now,
        issuer: data.issuer,
        bill_type: data.bill_type,
    }
}

/// Tests the data of a new bill.
pub fn validate_ustbill_data(data: &USTBillCreateRequest, now: u64) -> (result: Result<()>)
    ensures
        ustbill_data_rejection(data@, now) is None ==> result is Ok,
        ustbill_data_rejection(data@, now) matches Some(e) ==> result == Err::<
            (),
            BitcoinUSTBillsError,
        >(e),
{
    if data.cusip.as_str().is_empty() {
        return Err(BitcoinUSTBillsError::InvalidCUSIP);
    }
    if data.annual_yield_bps > MAX_YIELD_BPS {
        return Err(BitcoinUSTBillsError::InvalidYieldRate);
    }
    if data.total_tokens == 0 {
        return Err(BitcoinUSTBillsError::InvalidTokenAmount);
    }
    if data.maturity_date <= now {
        return Err(BitcoinUSTBillsError::InvalidDate);
    }
    Ok(())
}

/// Offers a new bill, for an administrator. The bill gets the next
/// identifier. Where the caller is no administrator or the data is refused,
/// nothing changes. Where the bill cannot be stored, the identifier is spent
/// and nothing else changes.
#[verifier::rlimit(50)]
pub fn create_ustbill(
    platform: &mut Platform,
    caller: &Principal,
    ustbill_data: USTBillCreateRequest,
    now: u64,
) -> (result: Result<USTBill>)
    requires
        old(platform).wf(),
        old(platform)@.next_id < u64::MAX,
    ensures
        final(platform).wf(),
        old(platform)@.consistent() ==> final(platform)@.consistent(),
        admin_rejection(old(platform)@.authorized, caller@) matches Some(e) ==> (result == Err::<
            USTBill,
            BitcoinUSTBillsError,
        >(e) && final(platform)@ == old(platform)@),
        admin_rejection(old(platform)@.authorized, caller@) is None ==> (ustbill_data_rejection(
            ustbill_data@,
            now,
        ) matches Some(e) ==> (result == Err::<USTBill, BitcoinUSTBillsError>(e)
            && final(platform)@ == old(platform)@)),
        admin_rejection(old(platform)@.authorized, caller@) is None && ustbill_data_rejection(
            ustbill_data@,
            now,
        ) is None ==> ({
            let bill = new_bill(ustbill_data@, decimal_text(old(platform)@.next_id as nat), now);
            if admissible::<USTBill>(bill) {
                &&& result matches Ok(created)
                &&& created@ == bill
                &&& final(platform)@ == (PlatformView {
                    ustbills: old(platform)@.ustbills.insert(id_key(bill.id), bill),
                    next_id: (old(platform)@.next_id + 1) as u64,
                    ..old(platform)@
                })
            } else {
                &&& result matches Err(e)
                &&& e is StorageError
                &&& final(platform)@ == (PlatformView {
                    next_id: (old(platform)@.next_id + 1) as u64,
                    ..old(platform)@
                })
            }
        }),
{
    let ghost before = platform@;
    match assert_admin(&platform.guard, caller) {
        Ok(()) => {},
        Err(e) => {
            return Err(e);
        },
    }
    match validate_ustbill_data(&ustbill_data, now) {
        Ok(()) => {},
        Err(e) => {
            return Err(e);
        },
    }
    let ustbill = USTBill {
        id: generate_id(&mut platform.id_counter),
        cusip: ustbill_data.cusip,
        face_value: ustbill_data.face_value,
        purchase_price: ustbill_data.purchase_price,
        maturity_date: ustbill_data.maturity_date,
        annual_yield_bps: ustbill_data.annual_yield_bps,
        total_tokens: ustbill_data.total_tokens,
        tokens_sold: 0,
        status: USTBillStatus::Active,
        created_at: now,
        updated_at: now,
        issuer: ustbill_data.issuer,
        bill_type: ustbill_data.bill_type,
    };
    let stored = platform.ustbills.insert(ustbill.clone());
    proof {
        if before.consistent() {
            crate::laws::lemma_new_bill_keeps_books(before, ustbill_data@, now);
            crate::laws::lemma_others_keep_books(
                before,
                PlatformView { next_id: (before.next_id + 1) as u64, ..before },
            );
        }
    }
    match stored {
        Ok(()) => Ok(ustbill),
        Err(e) => Err(e),
    }
}

/// The bill with an identifier.
pub fn get_ustbill(platform: &Platform, ustbill_id: &str) -> (result: Result<USTBill>)
    requires
        platform.wf(),
    ensures
        platform@.has_bill(ustbill_id@) ==> (result matches Ok(found) && found@ == platform@.bill(
            ustbill_id@,
        )),
        !platform@.has_bill(ustbill_id@) ==> result matches Err(
            BitcoinUSTBillsError::USTBillNotFound,
        ),
{
    platform.ustbills.get(ustbill_id)
}

/// The bills that are active, in the ascending order of their keys.
pub fn get_active_ustbills(platform: &Platform) -> (found: Vec<USTBill>)
    requires
        platform.wf(),
    ensures
        views(found@) == platform.ustbills.listing().filter(active_bill()),
{
    platform.ustbills.get_active()
}

/// Whether the tokens of a bill that can still be bought can be counted: true
/// where there is no such bill, and where the bill has sold no more tokens
/// than it has.
pub fn availability_is_defined(platform: &Platform, ustbill_id: &str) -> (defined: bool)
    requires
        platform.wf(),
    ensures
        defined == (platform@.has_bill(ustbill_id@) ==> platform@.bill(ustbill_id@).tokens_sold
            <= platform@.bill(ustbill_id@).total_tokens),
{
    match platform.ustbills.get(ustbill_id) {
        Ok(ustbill) => ustbill.tokens_sold <= ustbill.total_tokens,
        Err(_) => true,
    }
}

/// The number of tokens of a bill that can still be bought.
pub fn get_ustbill_availability(platform: &Platform, ustbill_id: &str) -> (result: Result<u64>)
    requires
        platform.wf(),
        platform@.has_bill(ustbill_id@) ==> platform@.bill(ustbill_id@).tokens_sold
            <= platform@.bill(
            ustbill_id@,
        ).total_tokens,
    ensures
        platform@.has_bill(ustbill_id@) ==> (result matches Ok(available) && available
            == platform@.bill(ustbill_id@).available_tokens()),
        !platform@.has_bill(ustbill_id@) ==> result matches Err(
            BitcoinUSTBillsError::USTBillNotFound,
        ),
{
    match platform.ustbills.get(ustbill_id) {
        Ok(ustbill) => Ok(ustbill.available_tokens()),
        Err(e) => Err(e),
    }
}

/// Where a page starts in a listing: pages are numbered from 0.
pub open spec fn page_start(page: usize, per_page: usize) -> int {
    page * per_page
}

/// Where a page ends in a listing of `total` entries.
pub open spec fn page_end(total: int, page: usize, per_page: usize) -> int {
    if page_start(page, per_page) + per_page < total {
        page_start(page, per_page) + per_page
    } else {
        total
    }
}

/// The entries of a page: those from its start to its end, and none where it
/// starts at or after the end of the listing.
pub open spec fn page_of<A>(all: Seq<A>, page: usize, per_page: usize) -> Seq<A> {
    if page_start(page, per_page) < all.len() {
        all.subrange(page_start(page, per_page), page_end(all.len() as int, page, per_page))
    } else {
        Seq::empty()
    }
}

/// Cuts a page out of a listing.
#[verifier::rlimit(50)]
pub fn paginate<T>(items: Vec<T>, page: usize, per_page: usize) -> (response: PaginatedResponse<T>)
    ensures
        response.data@ == page_of(items@, page, per_page),
        response.total == items@.len(),
        response.page == page,
        response.per_page == per_page,
        response.has_next == (page_end(items@.len() as int, page, per_page) < items@.len()),
{
    let total = items.len();
    let mut items = items;
    let ghost all = items@;
    assert(page * per_page >= 0) by (nonlinear_arith)
        requires
            page >= 0,
            per_page >= 0,
    ;
    let start = match page.checked_mul(per_page) {
        Some(start) => start,
        None => total,
    };
    if start >= total {
        return PaginatedResponse { data: Vec::new(), total, page, per_page, has_next: false };
    }
    let end = if per_page >= total - start {
        total
    } else {
        start + per_page
    };
    items.truncate(end);
    let data = items.split_off(start);
    assert(data@ =~= all.subrange(start as int, end as int));
    PaginatedResponse { data, total, page, per_page, has_next: end < total }
}

/// One page of the listing of all bills.
pub fn get_ustbills_paginated(platform: &Platform, page: usize, per_page: usize) -> (result: Result<
    PaginatedResponse<USTBill>,
>)
    requires
        platform.wf(),
    ensures
        result matches Ok(response) && views(response.data@) == page_of(
            platform.ustbills.listing(),
            page,
            per_page,
        ) && response.total == platform.ustbills.listing().len() && response.page == page
            && response.per_page == per_page && response.has_next == (page_end(
            platform.ustbills.listing().len() as int,
            page,
            per_page,
        ) < platform.ustbills.listing().len()),
{
    let ustbills = platform.ustbills.get_all();
    let ghost all = ustbills@;
    let response = paginate(ustbills, page, per_page);
    assert(views(response.data@) =~= page_of(views(all), page, per_page));
    Ok(response)
}

} // verus!
