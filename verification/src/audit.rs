//! Testing the books of a platform.
//!
//! A platform that was installed and only ever changed by the operations of
//! this crate has its books in order. Of a platform that was taken up from
//! stable memory this cannot be known beforehand: [`books_in_order`] reads
//! every bill, holding and transaction once and says whether it is so.

use vstd::prelude::*;
use vstd::string::StringExecFns;
use crate::laws::{held, lemma_tokens_held_insert, tokens_held, upcoming};
use crate::platform::{Platform, PlatformView};
use crate::records::{id_key, lemma_id_key_injective, make_id_key, Keyed};
use crate::table::{distinct_keys, lemma_table_of_distinct, table_of, views};
use crate::text::{
    char_digit, chars_of, decimal, decimal_text, decimal_value, lemma_decimal_value,
};
use crate::types::{
    HoldingStatus, TokenHolding, TokenHoldingView, Transaction, TransactionView, USTBill,
    USTBillView,
};

verus! {

/// Whether an identifier is one that is still to come: the decimal form of a
/// number from `next_id` on.
pub open spec fn is_coming(id: Seq<char>, next_id: u64) -> bool {
    exists|n: u64| n >= next_id && id == #[trigger] decimal_text(n as nat)
}

/// Whether every character of a text is a decimal digit.
pub open spec fn all_digits(text: Seq<char>) -> bool {
    forall|i: int| 0 <= i < text.len() ==> char_digit(#[trigger] text[i]) < 10
}

/// A number in decimal is made of digits.
pub proof fn lemma_decimal_digits(n: nat)
    ensures
        all_digits(decimal_text(n)),
    decreases n,
{
    if n >= 10 {
        lemma_decimal_digits(n / 10);
        let t = decimal_text(n);
        assert forall|i: int| 0 <= i < t.len() implies char_digit(#[trigger] t[i]) < 10 by {
            if i < t.len() - 1 {
                assert(t[i] == decimal_text(n / 10)[i]);
            }
        }
    }
}

/// The beginning of a text of digits denotes no more than the whole text.
pub proof fn lemma_prefix_value(text: Seq<char>, i: int)
    requires
        0 <= i <= text.len(),
    ensures
        decimal_value(text.take(i)) <= decimal_value(text),
    decreases text.len() - i,
{
    if i < text.len() {
        lemma_prefix_value(text, i + 1);
        assert(text.take(i + 1).drop_last() =~= text.take(i));
    } else {
        assert(text.take(i) =~= text);
    }
}

/// Whether an identifier is one that is still to come.
#[verifier::rlimit(50)]
pub fn names_coming_id(id: &str, next_id: u64) -> (coming: bool)
    ensures
        coming == is_coming(id@, next_id),
{
    let chars = chars_of(id);
    let mut value: u64 = 0;
    let mut i: usize = 0;
    assert(id@.take(0) =~= Seq::<char>::empty());
    while i < chars.len()
        invariant
            i <= chars@.len(),
            chars@ == id@,
            value == decimal_value(id@.take(i as int)),
        decreases chars@.len() - i,
    {
        let c = chars[i];
        let digit: u64 = if c == '0' {
            0
        } else if c == '1' {
            1
        } else if c == '2' {
            2
        } else if c == '3' {
            3
        } else if c == '4' {
            4
        } else if c == '5' {
            5
        } else if c == '6' {
            6
        } else if c == '7' {
            7
        } else if c == '8' {
            8
        } else if c == '9' {
            9
        } else {
            10
        };
        proof {
            assert(id@.take(i + 1).drop_last() =~= id@.take(i as int));
            assert(id@.take(i + 1).last() == c);
            lemma_prefix_value(id@, i + 1);
        }
        if digit == 10 {
            proof {
                if is_coming(id@, next_id) {
                    let n = choose|n: u64| n >= next_id && id@ == #[trigger] decimal_text(n as nat);
                    lemma_decimal_digits(n as nat);
                    assert(char_digit(id@[i as int]) < 10);
                }
            }
            return false;
        }
        let next = match value.checked_mul(10) {
            Some(tens) => tens.checked_add(digit),
            None => None,
        };
        match next {
            Some(v) => {
                value = v;
            },
            None => {
                proof {
                    assert(decimal_value(id@.take(i + 1)) > u64::MAX);
                    if is_coming(id@, next_id) {
                        let n = choose|n: u64|
                            n >= next_id && id@ == #[trigger] decimal_text(n as nat);
                        lemma_decimal_value(n as nat);
                    }
                }
                return false;
            },
        }
        i += 1;
    }
    assert(id@.take(i as int) =~= id@);
    let written = decimal(value);
    proof {
        if is_coming(id@, next_id) {
            let n = choose|n: u64| n >= next_id && id@ == #[trigger] decimal_text(n as nat);
            lemma_decimal_value(n as nat);
            assert(n == value);
        }
        if written@ == id@ && value >= next_id {
            assert(id@ == decimal_text(value as nat));
        }
        if written@ == id@ && !(value >= next_id) && is_coming(id@, next_id) {
            let n = choose|n: u64| n >= next_id && id@ == #[trigger] decimal_text(n as nat);
            lemma_decimal_value(n as nat);
            lemma_decimal_value(value as nat);
        }
    }
    value >= next_id && written == String::from_str(id)
}

/// The tokens of a bill that the active holdings of a list hold.
pub open spec fn list_held(holdings: Seq<TokenHoldingView>, ustbill_id: Seq<char>) -> nat
    decreases holdings.len(),
{
    if holdings.len() == 0 {
        0
    } else {
        list_held(holdings.drop_last(), ustbill_id) + held(holdings.last(), ustbill_id)
    }
}

/// The holdings of a table hold what the holdings of its listing hold.
pub proof fn lemma_list_held(holdings: Seq<TokenHoldingView>, ustbill_id: Seq<char>)
    requires
        distinct_keys::<TokenHolding>(holdings),
    ensures
        tokens_held(table_of::<TokenHolding>(holdings), ustbill_id) == list_held(
            holdings,
            ustbill_id,
        ),
    decreases holdings.len(),
{
    if holdings.len() == 0 {
        assert(table_of::<TokenHolding>(holdings).dom() =~= Set::<Seq<u8>>::empty());
    } else {
        let rest = holdings.drop_last();
        let last = holdings.last();
        assert(distinct_keys::<TokenHolding>(rest)) by {
            assert forall|i: int, j: int| 0 <= i < j < rest.len() implies TokenHolding::key_of(
                #[trigger] rest[i],
            ) != TokenHolding::key_of(#[trigger] rest[j]) by {
                assert(rest[i] == holdings[i] && rest[j] == holdings[j]);
            }
        }
        lemma_list_held(rest, ustbill_id);
        lemma_table_of_distinct::<TokenHolding>(rest);
        let built = table_of::<TokenHolding>(rest);
        let key = TokenHolding::key_of(last);
        if built.contains_key(key) {
            let j = choose|j: int|
                0 <= j < rest.len() && TokenHolding::key_of(#[trigger] rest[j]) == key;
            assert(rest[j] == holdings[j]);
            assert(TokenHolding::key_of(holdings[j]) != TokenHolding::key_of(
                holdings[holdings.len() - 1],
            ));
        }
        lemma_tokens_held_insert(built, ustbill_id, key, last);
    }
}

/// Counts the tokens of a bill that the active holdings of a list hold.
pub fn count_held(holdings: &Vec<TokenHolding>, ustbill_id: &str) -> (total: u128)
    ensures
        total == list_held(views(holdings@), ustbill_id@),
{
    let ghost all = views(holdings@);
    let wanted = String::from_str(ustbill_id);
    let mut total: u128 = 0;
    let mut i: usize = 0;
    assert(all.take(0) =~= Seq::<TokenHoldingView>::empty());
    while i < holdings.len()
        invariant
            i <= holdings@.len(),
            all == views(holdings@),
            wanted@ == ustbill_id@,
            total == list_held(all.take(i as int), ustbill_id@),
            total <= i * u64::MAX,
        decreases holdings@.len() - i,
    {
        let holding = &holdings[i];
        proof {
            assert(all.take(i + 1).drop_last() =~= all.take(i as int));
            assert(all.take(i + 1).last() == holding@);
            assert((i + 1) * u64::MAX == i * u64::MAX + u64::MAX) by (nonlinear_arith);
            assert(i * u64::MAX <= usize::MAX * u64::MAX) by (nonlinear_arith)
                requires
                    i <= usize::MAX,
            ;
        }
        if holding.status == HoldingStatus::Active && holding.ustbill_id == wanted {
            total = total + holding.tokens_owned as u128;
        }
        i += 1;
    }
    assert(all.take(i as int) =~= all);
    total
}

impl PlatformView {
    /// Whether no bill, holding or transaction has an identifier that is still
    /// to come.
    pub open spec fn no_coming_ids(self) -> bool {
        &&& forall|k: Seq<u8>| #[trigger]
            self.ustbills.contains_key(k) ==> !is_coming(self.ustbills[k].id, self.next_id)
        &&& forall|k: Seq<u8>| #[trigger]
            self.holdings.contains_key(k) ==> !is_coming(self.holdings[k].id, self.next_id)
        &&& forall|k: Seq<u8>| #[trigger]
            self.transactions.contains_key(k) ==> !is_coming(
                self.transactions[k].id,
                self.next_id,
            )
    }
}

/// Where every record is stored under the key of its identifier, no
/// identifier that is still to come is in use exactly if no record has one.
pub proof fn lemma_fresh_means_no_coming(s: PlatformView)
    requires
        forall|k: Seq<u8>| #[trigger] s.ustbills.contains_key(k) ==> id_key(s.ustbills[k].id) == k,
        forall|k: Seq<u8>| #[trigger] s.holdings.contains_key(k) ==> id_key(s.holdings[k].id) == k,
        forall|k: Seq<u8>| #[trigger]
            s.transactions.contains_key(k) ==> id_key(s.transactions[k].id) == k,
    ensures
        s.ids_fresh() == s.no_coming_ids(),
{
    if s.ids_fresh() {
        assert forall|k: Seq<u8>| #[trigger] s.ustbills.contains_key(k) implies !is_coming(
            s.ustbills[k].id,
            s.next_id,
        ) by {
            if is_coming(s.ustbills[k].id, s.next_id) {
                let n = choose|n: u64|
                    n >= s.next_id && s.ustbills[k].id == #[trigger] decimal_text(n as nat);
                assert(k == upcoming(n));
            }
        }
        assert forall|k: Seq<u8>| #[trigger] s.holdings.contains_key(k) implies !is_coming(
            s.holdings[k].id,
            s.next_id,
        ) by {
            if is_coming(s.holdings[k].id, s.next_id) {
                let n = choose|n: u64|
                    n >= s.next_id && s.holdings[k].id == #[trigger] decimal_text(n as nat);
                assert(k == upcoming(n));
            }
        }
        assert forall|k: Seq<u8>| #[trigger] s.transactions.contains_key(k) implies !is_coming(
            s.transactions[k].id,
            s.next_id,
        ) by {
            if is_coming(s.transactions[k].id, s.next_id) {
                let n = choose|n: u64|
                    n >= s.next_id && s.transactions[k].id == #[trigger] decimal_text(n as nat);
                assert(k == upcoming(n));
            }
        }
    }
    if s.no_coming_ids() {
        assert forall|n: u64| n >= s.next_id implies !s.ustbills.contains_key(
            #[trigger] upcoming(n),
        ) && !s.holdings.contains_key(upcoming(n)) && !s.transactions.contains_key(
            upcoming(n),
        ) by {
            let k = upcoming(n);
            if s.ustbills.contains_key(k) {
                lemma_id_key_injective(s.ustbills[k].id, decimal_text(n as nat));
                assert(is_coming(s.ustbills[k].id, s.next_id));
            }
            if s.holdings.contains_key(k) {
                lemma_id_key_injective(s.holdings[k].id, decimal_text(n as nat));
                assert(is_coming(s.holdings[k].id, s.next_id));
            }
            if s.transactions.contains_key(k) {
                lemma_id_key_injective(s.transactions[k].id, decimal_text(n as nat));
                assert(is_coming(s.transactions[k].id, s.next_id));
            }
        }
    }
}

/// Whether the books of a platform are in order. Every bill, holding and
/// transaction is read: the tokens that each bill counts as sold are counted
/// again over its active holdings, every holding is looked up with its bill,
/// and every identifier is held against the number of the next one.
#[verifier::rlimit(100)]
pub fn books_in_order(platform: &Platform) -> (in_order: bool)
    requires
        platform.wf(),
    ensures
        in_order == platform@.consistent(),
{
    let ustbills = platform.ustbills.get_all();
    let holdings = platform.holdings.table.list();
    let transactions = platform.transactions.table.list();
    let next_id = platform.id_counter.current();
    let ghost s = platform@;
    let ghost bills = platform.ustbills.listing();
    let ghost held_list = platform.holdings.listing();
    let ghost moved = platform.transactions.listing();
    proof {
        platform.ustbills.table.lemma_wf();
        platform.holdings.table.lemma_wf();
        platform.transactions.table.lemma_wf();
        platform.ustbills.table.lemma_listing();
        platform.holdings.table.lemma_listing();
        platform.transactions.table.lemma_listing();
        platform.holdings.table.lemma_table_of_listing();
        lemma_fresh_means_no_coming(s);
        assert(s.bills_keyed());
    }
    let mut i: usize = 0;
    while i < ustbills.len()
        invariant
            i <= ustbills@.len(),
            s == platform@,
            s.ids_fresh() == s.no_coming_ids(),
            s.holdings.dom().finite(),
            views(ustbills@) == bills,
            views(holdings@) == held_list,
            table_of::<TokenHolding>(held_list) == s.holdings,
            distinct_keys::<TokenHolding>(held_list),
            forall|j: int|
                0 <= j < bills.len() ==> s.ustbills.contains_pair(
                    id_key((#[trigger] bills[j]).id),
                    bills[j],
                ),
            forall|j: int|
                0 <= j < i ==> (#[trigger] bills[j]).tokens_sold == tokens_held(
                    s.holdings,
                    bills[j].id,
                ) && !is_coming(bills[j].id, next_id),
            next_id == s.next_id,
        decreases ustbills@.len() - i,
    {
        let bill = &ustbills[i];
        assert(bills[i as int] == bill@);
        proof {
            lemma_list_held(held_list, bill@.id);
        }
        let counted = count_held(&holdings, bill.id.as_str());
        if counted != bill.tokens_sold as u128 {
            assert(!s.tokens_conserved()) by {
                assert(s.ustbills.contains_pair(id_key(bills[i as int].id), bills[i as int]));
            }
            return false;
        }
        if names_coming_id(bill.id.as_str(), next_id) {
            assert(!s.no_coming_ids()) by {
                assert(s.ustbills.contains_pair(id_key(bills[i as int].id), bills[i as int]));
            }
            return false;
        }
        i += 1;
    }
    let mut h: usize = 0;
    while h < holdings.len()
        invariant
            h <= holdings@.len(),
            platform.wf(),
            s == platform@,
            s.ids_fresh() == s.no_coming_ids(),
            views(holdings@) == held_list,
            forall|j: int|
                0 <= j < held_list.len() ==> s.holdings.contains_pair(
                    id_key((#[trigger] held_list[j]).id),
                    held_list[j],
                ),
            forall|j: int|
                0 <= j < h ==> s.has_bill((#[trigger] held_list[j]).ustbill_id) && !is_coming(
                    held_list[j].id,
                    next_id,
                ),
            next_id == s.next_id,
        decreases holdings@.len() - h,
    {
        let holding = &holdings[h];
        assert(held_list[h as int] == holding@);
        let key = make_id_key(holding.ustbill_id.as_str());
        if !platform.ustbills.table.contains_key(&key) {
            assert(!s.holdings_belong()) by {
                assert(s.holdings.contains_pair(
                    id_key(held_list[h as int].id),
                    held_list[h as int],
                ));
            }
            return false;
        }
        if names_coming_id(holding.id.as_str(), next_id) {
            assert(!s.no_coming_ids()) by {
                assert(s.holdings.contains_pair(
                    id_key(held_list[h as int].id),
                    held_list[h as int],
                ));
            }
            return false;
        }
        h += 1;
    }
    let mut t: usize = 0;
    while t < transactions.len()
        invariant
            t <= transactions@.len(),
            s == platform@,
            s.ids_fresh() == s.no_coming_ids(),
            views(transactions@) == moved,
            forall|j: int|
                0 <= j < moved.len() ==> s.transactions.contains_pair(
                    id_key((#[trigger] moved[j]).id),
                    moved[j],
                ),
            forall|j: int| 0 <= j < t ==> !is_coming((#[trigger] moved[j]).id, next_id),
            next_id == s.next_id,
        decreases transactions@.len() - t,
    {
        let transaction = &transactions[t];
        assert(moved[t as int] == transaction@);
        if names_coming_id(transaction.id.as_str(), next_id) {
            assert(!s.no_coming_ids()) by {
                assert(s.transactions.contains_pair(id_key(moved[t as int].id), moved[t as int]));
            }
            return false;
        }
        t += 1;
    }
    proof {
        assert(s.tokens_conserved()) by {
            assert forall|k: Seq<u8>| #[trigger] s.ustbills.contains_key(k)
                implies s.ustbills[k].tokens_sold == tokens_held(
                s.holdings,
                s.ustbills[k].id,
            ) by {
                let j = choose|j: int| 0 <= j < bills.len() && #[trigger] bills[j] == s.ustbills[k];
            }
        }
        assert(s.holdings_belong()) by {
            assert forall|k: Seq<u8>| #[trigger] s.holdings.contains_key(k) implies s.has_bill(
                s.holdings[k].ustbill_id,
            ) by {
                let j = choose|j: int|
                    0 <= j < held_list.len() && #[trigger] held_list[j] == s.holdings[k];
            }
        }
        assert(s.no_coming_ids()) by {
            assert forall|k: Seq<u8>| #[trigger] s.ustbills.contains_key(k) implies !is_coming(
                s.ustbills[k].id,
                s.next_id,
            ) by {
                let j = choose|j: int| 0 <= j < bills.len() && #[trigger] bills[j] == s.ustbills[k];
            }
            assert forall|k: Seq<u8>| #[trigger] s.holdings.contains_key(k) implies !is_coming(
                s.holdings[k].id,
                s.next_id,
            ) by {
                let j = choose|j: int|
                    0 <= j < held_list.len() && #[trigger] held_list[j] == s.holdings[k];
            }
            assert forall|k: Seq<u8>| #[trigger] s.transactions.contains_key(k) implies !is_coming(
                s.transactions[k].id,
                s.next_id,
            ) by {
                let j = choose|j: int| 0 <= j < moved.len() && #[trigger] moved[j] == s.transactions[k];
            }
        }
    }
    true
}

} // verus!
