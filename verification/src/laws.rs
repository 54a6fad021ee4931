//! What holds of the platform whatever is done with it.
//!
//! The operations of this crate say in their contracts how the state changes.
//! The laws here are proved from those changes: the tokens that a bill counts
//! as sold are the tokens of its active holdings, no debit exceeds the balance
//! that it is taken from, a bill whose last token is sold takes no further
//! purchase, and no identifier is given twice.

use vstd::prelude::*;
use crate::bills::new_bill;
use crate::errors::BitcoinUSTBillsError;
use crate::platform::{Platform, PlatformView};
use crate::records::{id_key, lemma_id_key_injective};
use crate::text::{decimal_text, decimal_value, lemma_decimal_injective, lemma_decimal_value};
use crate::trading::{lemma_cost_bounded, purchase_cost, purchase_fees};
use crate::types::{
    HoldingStatus, TokenHoldingView, TransactionStatus, TransactionType, USTBillCreateRequestView,
    USTBillStatus,
};

verus! {

/// What a holding counts towards the sold tokens of a bill: its tokens, if it
/// is active and belongs to the bill.
pub open spec fn held(holding: TokenHoldingView, ustbill_id: Seq<char>) -> nat {
    if holding.status == HoldingStatus::Active && holding.ustbill_id == ustbill_id {
        holding.tokens_owned as nat
    } else {
        0
    }
}

/// The tokens of a bill that active holdings hold.
pub open spec fn tokens_held(holdings: Map<Seq<u8>, TokenHoldingView>, ustbill_id: Seq<char>) -> nat
    decreases holdings.dom().len(),
    when holdings.dom().finite()
{
    if holdings.dom().len() == 0 {
        0
    } else {
        let k = holdings.dom().choose();
        held(holdings[k], ustbill_id) + tokens_held(holdings.remove(k), ustbill_id)
    }
}

/// The sum over the holdings can be taken from any holding on.
#[verifier::rlimit(50)]
pub proof fn lemma_tokens_held_split(
    holdings: Map<Seq<u8>, TokenHoldingView>,
    ustbill_id: Seq<char>,
    k: Seq<u8>,
)
    requires
        holdings.dom().finite(),
        holdings.contains_key(k),
    ensures
        tokens_held(holdings, ustbill_id) == held(holdings[k], ustbill_id) + tokens_held(
            holdings.remove(k),
            ustbill_id,
        ),
    decreases holdings.dom().len(),
{
    let c = holdings.dom().choose();
    if c != k {
        lemma_tokens_held_split(holdings.remove(c), ustbill_id, k);
        lemma_tokens_held_split(holdings.remove(k), ustbill_id, c);
        assert(holdings.remove(c).remove(k) =~= holdings.remove(k).remove(c));
    }
}

/// A new holding adds what it counts.
pub proof fn lemma_tokens_held_insert(
    holdings: Map<Seq<u8>, TokenHoldingView>,
    ustbill_id: Seq<char>,
    k: Seq<u8>,
    holding: TokenHoldingView,
)
    requires
        holdings.dom().finite(),
        !holdings.contains_key(k),
    ensures
        tokens_held(holdings.insert(k, holding), ustbill_id) == tokens_held(holdings, ustbill_id)
            + held(holding, ustbill_id),
{
    lemma_tokens_held_split(holdings.insert(k, holding), ustbill_id, k);
    assert(holdings.insert(k, holding).remove(k) =~= holdings);
}

/// Holdings that count nothing sum up to nothing.
pub proof fn lemma_tokens_held_none(
    holdings: Map<Seq<u8>, TokenHoldingView>,
    ustbill_id: Seq<char>,
)
    requires
        holdings.dom().finite(),
        forall|k: Seq<u8>| #[trigger]
            holdings.contains_key(k) ==> held(holdings[k], ustbill_id) == 0,
    ensures
        tokens_held(holdings, ustbill_id) == 0,
    decreases holdings.dom().len(),
{
    if holdings.dom().len() > 0 {
        let c = holdings.dom().choose();
        let rest = holdings.remove(c);
        assert forall|k: Seq<u8>| #[trigger] rest.contains_key(k) implies held(
            rest[k],
            ustbill_id,
        ) == 0 by {
            assert(holdings.contains_key(k));
        }
        lemma_tokens_held_none(rest, ustbill_id);
    }
}

/// The key of the record that gets the identifier made of `n`.
pub open spec fn upcoming(n: u64) -> Seq<u8> {
    id_key(decimal_text(n as nat))
}

/// Whether `k` is the key of an identifier made of a number from `from` up to
/// `to`.
pub open spec fn given_since(from: u64, to: u64, k: Seq<u8>) -> bool {
    exists|n: u64| from <= n < to && k == #[trigger] upcoming(n)
}

/// Different numbers make different keys.
pub proof fn lemma_upcoming_injective(a: u64, b: u64)
    requires
        upcoming(a) == upcoming(b),
    ensures
        a == b,
{
    lemma_id_key_injective(decimal_text(a as nat), decimal_text(b as nat));
    lemma_decimal_injective(a as nat, b as nat);
}

/// Identifiers stay unused: where the keys of a later state are those of an
/// earlier state and those of identifiers given since, no identifier that is
/// still to come is in use in the later state.
pub proof fn lemma_fresh_after(before: PlatformView, after: PlatformView)
    requires
        before.ids_fresh(),
        after.next_id >= before.next_id,
        after.keys_from(before),
    ensures
        after.ids_fresh(),
{
    assert forall|m: u64| m >= after.next_id implies !after.ustbills.contains_key(
        #[trigger] upcoming(m),
    ) && !after.holdings.contains_key(upcoming(m)) && !after.transactions.contains_key(
        upcoming(m),
    ) by {
        let k = upcoming(m);
        assert(!before.ustbills.contains_key(upcoming(m)));
        if given_since(before.next_id, after.next_id, k) {
            let n = choose|n: u64| before.next_id <= n < after.next_id && k == #[trigger] upcoming(n);
            lemma_upcoming_injective(n, m);
        }
    }
}

impl PlatformView {
    /// Whether every bill is stored under the key of its identifier.
    pub open spec fn bills_keyed(self) -> bool {
        forall|k: Seq<u8>| #[trigger]
            self.ustbills.contains_key(k) ==> id_key(self.ustbills[k].id) == k
    }

    /// Token conservation: the tokens that a bill counts as sold are the
    /// tokens of its active holdings.
    pub open spec fn tokens_conserved(self) -> bool {
        forall|k: Seq<u8>| #[trigger]
            self.ustbills.contains_key(k) ==> self.ustbills[k].tokens_sold == tokens_held(
                self.holdings,
                self.ustbills[k].id,
            )
    }

    /// Whether every holding belongs to a bill of the platform.
    pub open spec fn holdings_belong(self) -> bool {
        forall|k: Seq<u8>| #[trigger]
            self.holdings.contains_key(k) ==> self.has_bill(self.holdings[k].ustbill_id)
    }

    /// Whether no identifier that is still to come is in use for a bill, a
    /// holding or a transaction.
    pub open spec fn ids_fresh(self) -> bool {
        forall|n: u64|
            n >= self.next_id ==> !self.ustbills.contains_key(#[trigger] upcoming(n))
                && !self.holdings.contains_key(upcoming(n)) && !self.transactions.contains_key(
                upcoming(n),
            )
    }

    /// Whether every key of `self` was a key of `before` or is the key of an
    /// identifier that was given since.
    pub open spec fn keys_from(self, before: PlatformView) -> bool {
        &&& forall|k: Seq<u8>| #[trigger]
            self.ustbills.contains_key(k) ==> before.ustbills.contains_key(k) || given_since(
                before.next_id,
                self.next_id,
                k,
            )
        &&& forall|k: Seq<u8>| #[trigger]
            self.holdings.contains_key(k) ==> before.holdings.contains_key(k) || given_since(
                before.next_id,
                self.next_id,
                k,
            )
        &&& forall|k: Seq<u8>| #[trigger]
            self.transactions.contains_key(k) ==> before.transactions.contains_key(k)
                || given_since(before.next_id, self.next_id, k)
    }

    /// Whether the books are in order: tokens are conserved, and what the
    /// conservation rests on holds too.
    pub open spec fn consistent(self) -> bool {
        &&& self.ustbills.dom().finite()
        &&& self.holdings.dom().finite()
        &&& self.bills_keyed()
        &&& self.tokens_conserved()
        &&& self.holdings_belong()
        &&& self.ids_fresh()
    }
}

/// The books of a platform that was just installed are in order.
pub proof fn lemma_installed_consistent(authorized: Seq<Seq<u8>>)
    ensures
        Platform::installed(authorized).consistent(),
{
}

/// Token conservation over a purchase, of every store that conserves tokens:
/// where the tokens that each bill counts as sold are the tokens of its active
/// holdings, and the identifier that the new holding gets is not in use for a
/// holding, the same holds after a purchase that is not refused. The bill
/// counts exactly the tokens bought more, the new holding holds exactly those,
/// no other bill changes, and the bill still sells no more tokens than it has.
#[verifier::rlimit(50)]
pub proof fn lemma_purchase_conserves_tokens(
    s: PlatformView,
    buyer: Seq<u8>,
    ustbill_id: Seq<char>,
    token_amount: u64,
    now: u64,
)
    requires
        s.holdings.dom().finite(),
        s.bills_keyed(),
        s.tokens_conserved(),
        !s.holdings.contains_key(upcoming(s.next_id)),
        s.purchase_rejection(buyer, ustbill_id, token_amount) is None,
    ensures
        ({
            let after = s.after_purchase(buyer, ustbill_id, token_amount, now);
            &&& after.bills_keyed()
            &&& after.tokens_conserved()
            &&& after.bill(ustbill_id).tokens_sold == s.bill(ustbill_id).tokens_sold + token_amount
            &&& after.bill(ustbill_id).tokens_sold <= after.bill(ustbill_id).total_tokens
            &&& tokens_held(after.holdings, ustbill_id) == tokens_held(s.holdings, ustbill_id)
                + token_amount
            &&& s.purchased_holding(buyer, ustbill_id, token_amount, now).tokens_owned
                == token_amount
            &&& forall|k: Seq<u8>| #[trigger]
                after.ustbills.contains_key(k) <==> s.ustbills.contains_key(k)
            &&& forall|k: Seq<u8>| #[trigger]
                s.ustbills.contains_key(k) && k != id_key(ustbill_id) ==> after.ustbills[k]
                    == s.ustbills[k]
        }),
{
    let after = s.after_purchase(buyer, ustbill_id, token_amount, now);
    let holding = s.purchased_holding(buyer, ustbill_id, token_amount, now);
    let bill = s.bill(ustbill_id);
    let hk = id_key(holding.id);
    let bk = id_key(ustbill_id);
    assert(s.ustbills.contains_key(bk));
    lemma_id_key_injective(bill.id, ustbill_id);
    assert(hk == upcoming(s.next_id));
    lemma_tokens_held_insert(s.holdings, ustbill_id, hk, holding);
    assert(after.bills_keyed()) by {
        assert forall|k: Seq<u8>| #[trigger] after.ustbills.contains_key(k) implies id_key(
            after.ustbills[k].id,
        ) == k by {
            if k != bk {
                assert(s.ustbills.contains_key(k));
            }
        }
    }
    assert(after.tokens_conserved()) by {
        assert forall|k: Seq<u8>| #[trigger] after.ustbills.contains_key(k) implies after.ustbills[k].tokens_sold
            == tokens_held(after.holdings, after.ustbills[k].id) by {
            let id = after.ustbills[k].id;
            lemma_tokens_held_insert(s.holdings, id, hk, holding);
            if k == bk {
                assert(id == ustbill_id);
                assert(held(holding, id) == token_amount);
            } else {
                assert(s.ustbills.contains_key(k));
                if id == ustbill_id {
                    assert(id_key(s.ustbills[k].id) == k);
                }
                assert(held(holding, id) == 0);
            }
        }
    }
}

/// Token conservation over a purchase: a purchase that is not refused leaves
/// the books in order.
#[verifier::rlimit(50)]
pub proof fn lemma_purchase_keeps_books(
    s: PlatformView,
    buyer: Seq<u8>,
    ustbill_id: Seq<char>,
    token_amount: u64,
    now: u64,
)
    requires
        s.consistent(),
        s.purchase_rejection(buyer, ustbill_id, token_amount) is None,
        s.purchase_fits(buyer, ustbill_id, token_amount),
    ensures
        s.after_purchase(buyer, ustbill_id, token_amount, now).consistent(),
{
    let after = s.after_purchase(buyer, ustbill_id, token_amount, now);
    let holding = s.purchased_holding(buyer, ustbill_id, token_amount, now);
    let bill = s.bill(ustbill_id);
    let bought = s.purchased_bill(ustbill_id, token_amount, now);
    let hk = id_key(holding.id);
    let bk = id_key(ustbill_id);
    assert(s.ustbills.contains_key(bk));
    lemma_id_key_injective(bill.id, ustbill_id);
    assert(!s.holdings.contains_key(hk)) by {
        assert(!s.holdings.contains_key(upcoming(s.next_id)));
    }
    lemma_purchase_conserves_tokens(s, buyer, ustbill_id, token_amount, now);
    assert(after.holdings_belong()) by {
        assert forall|k: Seq<u8>| #[trigger] after.holdings.contains_key(k) implies after.has_bill(
            after.holdings[k].ustbill_id,
        ) by {
            if k != hk {
                assert(s.holdings.contains_key(k));
                assert(s.has_bill(s.holdings[k].ustbill_id));
            }
        }
    }
    assert(after.keys_from(s)) by {
        assert(hk == upcoming(s.next_id));
        assert(id_key(s.purchase_transaction(buyer, ustbill_id, token_amount, now).id)
            == upcoming((s.next_id + 1) as u64));
        assert(id_key(s.fee_transaction(buyer, ustbill_id, token_amount, now).id) == upcoming(
            (s.next_id + 2) as u64,
        ));
    }
    lemma_fresh_after(s, after);
}

/// Token conservation over a new bill: a bill that is offered with the next
/// identifier leaves the books in order.
#[verifier::rlimit(50)]
pub proof fn lemma_new_bill_keeps_books(s: PlatformView, data: USTBillCreateRequestView, now: u64)
    requires
        s.consistent(),
        s.next_id < u64::MAX,
    ensures
        ({
            let bill = new_bill(data, decimal_text(s.next_id as nat), now);
            (PlatformView {
                ustbills: s.ustbills.insert(id_key(bill.id), bill),
                next_id: (s.next_id + 1) as u64,
                ..s
            }).consistent()
        }),
{
    let bill = new_bill(data, decimal_text(s.next_id as nat), now);
    let bk = id_key(bill.id);
    let after = PlatformView {
        ustbills: s.ustbills.insert(bk, bill),
        next_id: (s.next_id + 1) as u64,
        ..s
    };
    assert(!s.ustbills.contains_key(bk)) by {
        assert(!s.ustbills.contains_key(upcoming(s.next_id)));
    }
    assert(after.tokens_conserved()) by {
        assert forall|k: Seq<u8>| #[trigger] after.ustbills.contains_key(k) implies after.ustbills[k].tokens_sold
            == tokens_held(after.holdings, after.ustbills[k].id) by {
            if k == bk {
                assert forall|h: Seq<u8>| #[trigger] s.holdings.contains_key(h) implies held(
                    s.holdings[h],
                    bill.id,
                ) == 0 by {
                    assert(s.has_bill(s.holdings[h].ustbill_id));
                }
                lemma_tokens_held_none(s.holdings, bill.id);
            } else {
                assert(s.ustbills.contains_key(k));
            }
        }
    }
    assert(after.bills_keyed()) by {
        assert forall|k: Seq<u8>| #[trigger] after.ustbills.contains_key(k) implies id_key(
            after.ustbills[k].id,
        ) == k by {
            if k != bk {
                assert(s.ustbills.contains_key(k));
            }
        }
    }
    assert(after.holdings_belong()) by {
        assert forall|k: Seq<u8>| #[trigger] after.holdings.contains_key(k) implies after.has_bill(
            after.holdings[k].ustbill_id,
        ) by {
            assert(s.holdings.contains_key(k));
            assert(s.has_bill(s.holdings[k].ustbill_id));
        }
    }
    assert(after.keys_from(s)) by {
        assert(bk == upcoming(s.next_id));
    }
    lemma_fresh_after(s, after);
}

/// Token conservation over what touches neither bills nor holdings: the books
/// stay in order where bills and holdings stay as they are, every transaction
/// that is new has an identifier given since, and the source of identifiers
/// does not go back. Deposits, withdrawals, new accounts, new settings, rates
/// and ledger entries are of this kind.
pub proof fn lemma_others_keep_books(before: PlatformView, after: PlatformView)
    requires
        before.consistent(),
        after.ustbills == before.ustbills,
        after.holdings == before.holdings,
        after.next_id >= before.next_id,
        forall|k: Seq<u8>| #[trigger]
            after.transactions.contains_key(k) ==> before.transactions.contains_key(k)
                || given_since(before.next_id, after.next_id, k),
    ensures
        after.consistent(),
{
    lemma_fresh_after(before, after);
    assert forall|k: Seq<u8>| #[trigger] after.holdings.contains_key(k) implies after.has_bill(
        after.holdings[k].ustbill_id,
    ) by {
        assert(before.holdings.contains_key(k));
        assert(before.has_bill(before.holdings[k].ustbill_id));
    }
}

/// Token conservation over a deposit and a withdrawal: either leaves the books
/// in order.
pub proof fn lemma_wallet_movements_keep_books(s: PlatformView, owner: Seq<u8>, amount: u64, now: u64)
    requires
        s.consistent(),
        s.next_id < u64::MAX,
    ensures
        s.after_deposit(owner, amount, now).consistent(),
        s.after_withdrawal(owner, amount, now).consistent(),
{
    let key = upcoming(s.next_id);
    let deposited = s.after_deposit(owner, amount, now);
    let withdrawn = s.after_withdrawal(owner, amount, now);
    assert forall|k: Seq<u8>| #[trigger] deposited.transactions.contains_key(k)
        implies s.transactions.contains_key(k) || given_since(s.next_id, deposited.next_id, k) by {
        if k == key {
            assert(k == upcoming(s.next_id));
        }
    }
    assert forall|k: Seq<u8>| #[trigger] withdrawn.transactions.contains_key(k)
        implies s.transactions.contains_key(k) || given_since(s.next_id, withdrawn.next_id, k) by {
        if k == key {
            assert(k == upcoming(s.next_id));
        }
    }
    lemma_others_keep_books(s, deposited);
    lemma_others_keep_books(s, withdrawn);
}

/// Transactions are only ever added: a purchase adds two transactions and a
/// deposit or a withdrawal one, each under a key that held none before, and
/// every transaction that was there before is there afterwards, unchanged.
pub proof fn lemma_transactions_are_added(
    s: PlatformView,
    owner: Seq<u8>,
    ustbill_id: Seq<char>,
    token_amount: u64,
    amount: u64,
    now: u64,
)
    requires
        s.ids_fresh(),
        s.next_id + 3 <= u64::MAX,
    ensures
        ({
            let after = s.after_purchase(owner, ustbill_id, token_amount, now);
            let payment = s.purchase_transaction(owner, ustbill_id, token_amount, now);
            let fee = s.fee_transaction(owner, ustbill_id, token_amount, now);
            &&& !s.transactions.contains_key(id_key(payment.id))
            &&& !s.transactions.contains_key(id_key(fee.id))
            &&& id_key(payment.id) != id_key(fee.id)
            &&& after.transactions.contains_pair(id_key(payment.id), payment)
            &&& after.transactions.contains_pair(id_key(fee.id), fee)
            &&& forall|k: Seq<u8>| #[trigger]
                s.transactions.contains_key(k) ==> after.transactions.contains_pair(
                    k,
                    s.transactions[k],
                )
            &&& forall|k: Seq<u8>| #[trigger]
                after.transactions.contains_key(k) ==> s.transactions.contains_key(k) || k
                    == id_key(payment.id) || k == id_key(fee.id)
        }),
        ({
            let after = s.after_deposit(owner, amount, now);
            let key = upcoming(s.next_id);
            &&& !s.transactions.contains_key(key)
            &&& after.transactions == s.transactions.insert(key, after.transactions[key])
            &&& forall|k: Seq<u8>| #[trigger]
                s.transactions.contains_key(k) ==> after.transactions.contains_pair(
                    k,
                    s.transactions[k],
                )
        }),
        ({
            let after = s.after_withdrawal(owner, amount, now);
            let key = upcoming(s.next_id);
            &&& !s.transactions.contains_key(key)
            &&& after.transactions == s.transactions.insert(key, after.transactions[key])
            &&& forall|k: Seq<u8>| #[trigger]
                s.transactions.contains_key(k) ==> after.transactions.contains_pair(
                    k,
                    s.transactions[k],
                )
        }),
{
    let a = upcoming((s.next_id + 1) as u64);
    let b = upcoming((s.next_id + 2) as u64);
    assert(!s.transactions.contains_key(upcoming(s.next_id)));
    assert(!s.transactions.contains_key(a));
    assert(!s.transactions.contains_key(b));
    if a == b {
        lemma_upcoming_injective((s.next_id + 1) as u64, (s.next_id + 2) as u64);
    }
}

/// A deposit credits the wallet: the balance grows by the amount, nothing
/// else of the account changes but the time of its last change, and the
/// deposit is recorded as a completed transaction of the owner without bill,
/// holding or fee.
pub proof fn lemma_deposit_credits(s: PlatformView, owner: Seq<u8>, amount: u64, now: u64)
    requires
        s.deposit_rejection(owner, amount) is None,
        s.account(owner).wallet_balance + amount <= u64::MAX,
    ensures
        ({
            let after = s.after_deposit(owner, amount, now);
            let before = s.account(owner);
            let key = upcoming(s.next_id);
            &&& after.account(owner).wallet_balance == before.wallet_balance + amount
            &&& after.account(owner).wallet_balance >= before.wallet_balance
            &&& after.account(owner).total_invested == before.total_invested
            &&& after.account(owner).total_yield_earned == before.total_yield_earned
            &&& after.transactions.contains_key(key)
            &&& after.transactions[key].user_principal == owner
            &&& after.transactions[key].transaction_type == TransactionType::Deposit
            &&& after.transactions[key].amount == amount
            &&& after.transactions[key].fees == 0
            &&& after.transactions[key].status == TransactionStatus::Completed
            &&& after.transactions[key].ustbill_id is None
            &&& after.transactions[key].holding_id is None
        }),
{
}

/// Balances never go below nothing: a purchase that is not refused debits no
/// more than the wallet holds, and neither does a withdrawal.
pub proof fn lemma_debits_are_covered(
    s: PlatformView,
    owner: Seq<u8>,
    ustbill_id: Seq<char>,
    token_amount: u64,
    amount: u64,
    now: u64,
)
    ensures
        s.purchase_rejection(owner, ustbill_id, token_amount) is None ==> {
            let cost = purchase_cost(s.bill(ustbill_id), token_amount);
            &&& s.account(owner).wallet_balance - cost - purchase_fees(cost, s.config) >= 0
            &&& s.after_purchase(owner, ustbill_id, token_amount, now).account(
                owner,
            ).wallet_balance == s.account(owner).wallet_balance - cost - purchase_fees(
                cost,
                s.config,
            )
        },
        s.withdrawal_rejection(owner, amount) is None ==> {
            &&& s.account(owner).wallet_balance - amount >= 0
            &&& s.after_withdrawal(owner, amount, now).account(owner).wallet_balance == s.account(
                owner,
            ).wallet_balance - amount
        },
{
    if s.purchase_rejection(owner, ustbill_id, token_amount) is None {
        lemma_cost_bounded(s.bill(ustbill_id), token_amount);
    }
}

/// Investment bounds are enforced: a purchase that passes the tests on
/// account, bill and tokens, and whose cost is below the least investment, is
/// refused for that. The contract of the purchase says that a refused
/// purchase changes nothing.
pub proof fn lemma_minimum_investment_enforced(
    s: PlatformView,
    buyer: Seq<u8>,
    ustbill_id: Seq<char>,
    token_amount: u64,
)
    requires
        s.has_account(buyer),
        s.account(buyer).is_eligible_for_trading(),
        s.has_bill(ustbill_id),
        s.bill(ustbill_id).is_available_for_purchase(),
        0 < token_amount <= s.bill(ustbill_id).available_tokens(),
        purchase_cost(s.bill(ustbill_id), token_amount) < s.config.minimum_investment,
    ensures
        s.purchase_rejection(buyer, ustbill_id, token_amount) == Some(
            BitcoinUSTBillsError::MinimumInvestmentNotMet,
        ),
{
}

/// The sold-out transition: a purchase of the last tokens of a bill leaves the
/// bill sold out, and every later purchase of that bill by an account that may
/// trade is refused as sold out, however many tokens it asks for.
pub proof fn lemma_sold_out_transition(
    s: PlatformView,
    buyer: Seq<u8>,
    ustbill_id: Seq<char>,
    token_amount: u64,
    now: u64,
    next_buyer: Seq<u8>,
    next_amount: u64,
)
    requires
        s.purchase_rejection(buyer, ustbill_id, token_amount) is None,
        token_amount == s.bill(ustbill_id).available_tokens(),
    ensures
        ({
            let after = s.after_purchase(buyer, ustbill_id, token_amount, now);
            &&& after.bill(ustbill_id).status == USTBillStatus::SoldOut
            &&& after.bill(ustbill_id).tokens_sold == after.bill(ustbill_id).total_tokens
            &&& after.has_account(next_buyer) && after.account(
                next_buyer,
            ).is_eligible_for_trading() ==> after.purchase_rejection(
                next_buyer,
                ustbill_id,
                next_amount,
            ) == Some(BitcoinUSTBillsError::USTBillSoldOut)
        }),
{
}

/// A bill stays well formed over a purchase.
pub proof fn lemma_purchase_keeps_bill_well_formed(
    s: PlatformView,
    buyer: Seq<u8>,
    ustbill_id: Seq<char>,
    token_amount: u64,
    now: u64,
)
    requires
        s.purchase_rejection(buyer, ustbill_id, token_amount) is None,
    ensures
        s.purchased_bill(ustbill_id, token_amount, now).well_formed(),
{
}

/// Identifiers are never given twice and grow: the identifier that is made of
/// a later number is another text and denotes a greater number.
pub proof fn lemma_identifiers_distinct(earlier: u64, later: u64)
    requires
        earlier < later,
    ensures
        decimal_text(earlier as nat) != decimal_text(later as nat),
        decimal_value(decimal_text(earlier as nat)) < decimal_value(decimal_text(later as nat)),
{
    lemma_decimal_value(earlier as nat);
    lemma_decimal_value(later as nat);
}

} // verus!
