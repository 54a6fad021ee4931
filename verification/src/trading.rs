//! Buying tokens, and moving money in and out of a wallet.
//!
//! A purchase reads the buyer's account, the bill and the settings, decides
//! whether the purchase may happen, and only then writes: the account, the
//! bill, a new holding, two transactions and the running figures. Every test
//! comes before the first write, so a refused purchase changes nothing.

use vstd::prelude::*;
use vstd::string::StringExecFns;
use vstd::utf8::{is_ascii_chars, is_ascii_chars_encode_utf8};
use crate::codec::{encoding, MAX_RECORD_BYTES};
use crate::errors::{BitcoinUSTBillsError, Result};
use crate::money::{prorate, prorated, saturated, share_of};
use crate::platform::{Platform, PlatformView};
use crate::principal::Principal;
use crate::records::{account_key, id_key, lemma_account_key_injective, lemma_id_key_injective};
use crate::sizes::{
    lemma_account_size, lemma_bill_size, lemma_decimal_size, lemma_holding_size,
    lemma_text_len_bound, lemma_text_len_floor, lemma_transaction_size, lemma_utf8_concat,
    text_len,
};
use crate::storage::generate_id;
use crate::table::admissible;
use crate::text::{decimal, decimal_text, lemma_decimal_value};
use crate::utils::calculate_fees;
use crate::types::{
    HoldingStatus, PlatformConfig, TokenHolding, TokenHoldingView, TradingMetrics, Transaction,
    TransactionStatus, TransactionType, TransactionView, USTBill, USTBillStatus, USTBillView,
    User, UserView, YieldOption,
};

verus! {

/// What a number of tokens of a bill costs: the price of one token, which is
/// the price of the bill divided by the number of its tokens and rounded down,
/// times the number of tokens bought.
pub open spec fn purchase_cost(bill: USTBillView, token_amount: u64) -> int {
    (bill.purchase_price / bill.total_tokens) * token_amount
}

/// The fee on a purchase of the given cost.
pub open spec fn purchase_fees(cost: int, config: PlatformConfig) -> u64 {
    saturated(share_of(cost as nat, config.platform_fee_bps as nat))
}

/// What an investment in a bill is expected to earn from `now` to maturity.
pub open spec fn projected_yield(bill: USTBillView, investment: u64, now: u64) -> u64 {
    saturated(
        prorated(
            investment as nat,
            bill.annual_yield_bps as nat,
            bill.days_to_maturity(now) as nat,
        ),
    )
}

/// The line that describes a purchase.
pub open spec fn purchase_description(token_amount: u64, ustbill_id: Seq<char>) -> Seq<char> {
    "Purchase of "@ + decimal_text(token_amount as nat) + " tokens from UST Bill "@ + ustbill_id
}

impl PlatformView {
    /// Why a purchase is refused, if it is. The tests are made in this order,
    /// and the first that fails decides.
    pub open spec fn purchase_rejection(
        self,
        buyer: Seq<u8>,
        ustbill_id: Seq<char>,
        token_amount: u64,
    ) -> Option<BitcoinUSTBillsError> {
        let account = self.account(buyer);
        let bill = self.bill(ustbill_id);
        let cost = purchase_cost(bill, token_amount);
        if !self.has_account(buyer) || !account.is_eligible_for_trading() {
            Some(BitcoinUSTBillsError::TradingNotAllowed)
        } else if !self.has_bill(ustbill_id) || !bill.is_available_for_purchase() {
            Some(BitcoinUSTBillsError::USTBillSoldOut)
        } else if bill.available_tokens() < token_amount {
            Some(BitcoinUSTBillsError::InsufficientTokens)
        } else if token_amount == 0 {
            Some(BitcoinUSTBillsError::InvalidTokenAmount)
        } else if cost < self.config.minimum_investment {
            Some(BitcoinUSTBillsError::MinimumInvestmentNotMet)
        } else if cost > self.config.maximum_investment {
            Some(BitcoinUSTBillsError::MaximumInvestmentExceeded)
        } else if account.wallet_balance < cost + purchase_fees(cost, self.config) {
            Some(BitcoinUSTBillsError::InsufficientFunds)
        } else {
            None
        }
    }

    /// The length of the encoded transaction that records a purchase, the
    /// longest record that a purchase writes.
    pub open spec fn purchase_record_size(
        self,
        buyer: Seq<u8>,
        ustbill_id: Seq<char>,
        token_amount: u64,
    ) -> nat {
        69 + text_len(decimal_text((self.next_id + 1) as nat)) + buyer.len() + text_len(ustbill_id)
            + text_len(decimal_text(self.next_id as nat)) + text_len(
            purchase_description(token_amount, ustbill_id),
        )
    }

    /// Whether a purchase stays within the limits of the machine: the figures
    /// that it adds to stay within 64 bits, and the records that it writes are
    /// not too long for the store.
    pub open spec fn purchase_fits(
        self,
        buyer: Seq<u8>,
        ustbill_id: Seq<char>,
        token_amount: u64,
    ) -> bool {
        let cost = purchase_cost(self.bill(ustbill_id), token_amount);
        &&& self.account(buyer).total_invested + cost <= u64::MAX
        &&& self.trading_metrics.total_volume + cost <= u64::MAX
        &&& self.trading_metrics.total_transactions + 1 <= u64::MAX
        &&& self.next_id + 3 <= u64::MAX
        &&& self.purchase_record_size(buyer, ustbill_id, token_amount) <= MAX_RECORD_BYTES
    }

    /// The account of the buyer after a purchase.
    pub open spec fn purchased_account(
        self,
        buyer: Seq<u8>,
        ustbill_id: Seq<char>,
        token_amount: u64,
        now: u64,
    ) -> UserView {
        let account = self.account(buyer);
        let cost = purchase_cost(self.bill(ustbill_id), token_amount);
        UserView {
            wallet_balance: (account.wallet_balance - cost - purchase_fees(cost,
                self.config)) as u64,
            total_invested: (account.total_invested + cost) as u64,
            updated_at: now,
            ..account
        }
    }

    /// The bill after a purchase: sold out once its last token is sold.
    pub open spec fn purchased_bill(self, ustbill_id: Seq<char>, token_amount: u64, now: u64)
        -> USTBillView {
        let bill = self.bill(ustbill_id);
        USTBillView {
            tokens_sold: (bill.tokens_sold + token_amount) as u64,
            status: if bill.tokens_sold + token_amount >= bill.total_tokens {
                USTBillStatus::SoldOut
            } else {
                bill.status
            },
            updated_at: now,
            ..bill
        }
    }

    /// The holding that a purchase creates.
    pub open spec fn purchased_holding(
        self,
        buyer: Seq<u8>,
        ustbill_id: Seq<char>,
        token_amount: u64,
        now: u64,
    ) -> TokenHoldingView {
        let cost = purchase_cost(self.bill(ustbill_id), token_amount);
        TokenHoldingView {
            id: decimal_text(self.next_id as nat),
            user_principal: buyer,
            ustbill_id,
            tokens_owned: token_amount,
            purchase_price_per_token: (cost / (token_amount as int)) as u64,
            purchase_date: now,
            yield_option: YieldOption::Maturity,
            status: HoldingStatus::Active,
            current_value: cost as u64,
            projected_yield: projected_yield(self.bill(ustbill_id), cost as u64, now),
        }
    }

    /// The transaction that records a purchase.
    pub open spec fn purchase_transaction(
        self,
        buyer: Seq<u8>,
        ustbill_id: Seq<char>,
        token_amount: u64,
        now: u64,
    ) -> TransactionView {
        let cost = purchase_cost(self.bill(ustbill_id), token_amount);
        TransactionView {
            id: decimal_text((self.next_id + 1) as nat),
            user_principal: buyer,
            transaction_type: TransactionType::Purchase,
            amount: cost as u64,
            ustbill_id: Some(ustbill_id),
            holding_id: Some(decimal_text(self.next_id as nat)),
            timestamp: now,
            status: TransactionStatus::Completed,
            fees: purchase_fees(cost, self.config),
            description: purchase_description(token_amount, ustbill_id),
        }
    }

    /// The transaction that records the fee of a purchase.
    pub open spec fn fee_transaction(
        self,
        buyer: Seq<u8>,
        ustbill_id: Seq<char>,
        token_amount: u64,
        now: u64,
    ) -> TransactionView {
        let cost = purchase_cost(self.bill(ustbill_id), token_amount);
        TransactionView {
            id: decimal_text((self.next_id + 2) as nat),
            user_principal: buyer,
            transaction_type: TransactionType::Fee,
            amount: purchase_fees(cost, self.config),
            ustbill_id: Some(ustbill_id),
            holding_id: Some(decimal_text(self.next_id as nat)),
            timestamp: now,
            status: TransactionStatus::Completed,
            fees: 0,
            description: "Platform fee"@,
        }
    }

    /// The running figures after a purchase: first the price of one token is
    /// taken in, so that the average is weighed with the volume before the
    /// purchase, then the volume is counted.
    pub open spec fn purchased_metrics(self, ustbill_id: Seq<char>, token_amount: u64, now: u64)
        -> TradingMetrics {
        let cost = purchase_cost(self.bill(ustbill_id), token_amount);
        self.trading_metrics.with_price((cost / (token_amount as int)) as u64, now).with_volume(
            cost as u64,
            now,
        )
    }

    /// The state after a purchase that is not refused.
    pub open spec fn after_purchase(
        self,
        buyer: Seq<u8>,
        ustbill_id: Seq<char>,
        token_amount: u64,
        now: u64,
    ) -> PlatformView {
        let holding = self.purchased_holding(buyer, ustbill_id, token_amount, now);
        let payment = self.purchase_transaction(buyer, ustbill_id, token_amount, now);
        let fee = self.fee_transaction(buyer, ustbill_id, token_amount, now);
        PlatformView {
            users: self.users.insert(
                account_key(buyer),
                self.purchased_account(buyer, ustbill_id, token_amount, now),
            ),
            ustbills: self.ustbills.insert(
                id_key(ustbill_id),
                self.purchased_bill(ustbill_id, token_amount, now),
            ),
            holdings: self.holdings.insert(id_key(holding.id), holding),
            transactions: self.transactions.insert(id_key(payment.id), payment).insert(
                id_key(fee.id),
                fee,
            ),
            trading_metrics: self.purchased_metrics(ustbill_id, token_amount, now),
            next_id: (self.next_id + 3) as u64,
            ..self
        }
    }
}

/// The cost of tokens never exceeds the price of the bill that they are part
/// of.
pub proof fn lemma_cost_bounded(bill: USTBillView, token_amount: u64)
    requires
        0 < token_amount <= bill.total_tokens,
    ensures
        0 <= purchase_cost(bill, token_amount) <= bill.purchase_price,
        purchase_cost(bill, token_amount) / (token_amount as int) == bill.purchase_price
            / bill.total_tokens,
{
    let each = bill.purchase_price / bill.total_tokens;
    let price = bill.purchase_price as int;
    let total = bill.total_tokens as int;
    let amount = token_amount as int;
    assert(each * total <= price) by (nonlinear_arith)
        requires
            each == price / total,
            total > 0,
            price >= 0,
    ;
    assert(0 <= each * amount <= each * total) by (nonlinear_arith)
        requires
            0 < amount <= total,
            each >= 0,
    ;
    assert((each * amount) / amount == each) by (nonlinear_arith)
        requires
            amount > 0,
    ;
}

/// What a number of tokens of a bill costs. Buying no token is refused.
pub fn calculate_purchase_cost_internal(ustbill: &USTBill, token_amount: u64) -> (result: Result<
    u64,
>)
    requires
        ustbill.total_tokens > 0,
        purchase_cost(ustbill@, token_amount) <= u64::MAX,
    ensures
        token_amount == 0 ==> result matches Err(BitcoinUSTBillsError::InvalidTokenAmount),
        token_amount != 0 ==> (result matches Ok(cost) && cost == purchase_cost(
            ustbill@,
            token_amount,
        )),
{
    if token_amount == 0 {
        return Err(BitcoinUSTBillsError::InvalidTokenAmount);
    }
    let cost_per_token = ustbill.purchase_price / ustbill.total_tokens;
    Ok(cost_per_token * token_amount)
}

/// What an investment in a bill is expected to earn from `now` to maturity:
/// the investment times the yearly yield times the days left, over 365,
/// rounded down.
pub fn calculate_projected_yield(ustbill: &USTBill, investment: u64, now: u64) -> (earned: u64)
    ensures
        earned == projected_yield(ustbill@, investment, now),
{
    let days_to_maturity = ustbill.days_to_maturity(now);
    prorate(investment as u128, ustbill.annual_yield_bps, days_to_maturity)
}

/// What a purchase that is not refused starts from: the account of the buyer,
/// the bill, the cost and the fee.
pub struct PurchaseTerms {
    pub account: User,
    pub ustbill: USTBill,
    pub cost: u64,
    pub fees: u64,
}

/// Makes the tests of a purchase, in their order, and changes nothing. Where
/// none of them fails, the terms of the purchase are returned.
#[verifier::rlimit(50)]
pub fn examine_purchase(
    platform: &Platform,
    caller: &Principal,
    ustbill_id: &str,
    token_amount: u64,
) -> (result: Result<PurchaseTerms>)
    requires
        platform.wf(),
    ensures
        platform@.purchase_rejection(caller@, ustbill_id@, token_amount) matches Some(e)
            ==> result == Err::<PurchaseTerms, BitcoinUSTBillsError>(e),
        platform@.purchase_rejection(caller@, ustbill_id@, token_amount) is None ==> (
        result matches Ok(terms) && terms.account@ == platform@.account(caller@)
            && terms.ustbill@ == platform@.bill(ustbill_id@) && terms.cost == purchase_cost(
            platform@.bill(ustbill_id@),
            token_amount,
        ) && terms.fees == purchase_fees(terms.cost as int, platform@.config)),
{
    let user = match platform.users.get(caller) {
        Ok(user) => user,
        Err(_) => {
            return Err(BitcoinUSTBillsError::TradingNotAllowed);
        },
    };
    if !user.is_eligible_for_trading() {
        return Err(BitcoinUSTBillsError::TradingNotAllowed);
    }
    let ustbill = match platform.ustbills.get(ustbill_id) {
        Ok(ustbill) => ustbill,
        Err(_) => {
            return Err(BitcoinUSTBillsError::USTBillSoldOut);
        },
    };
    if !ustbill.is_available_for_purchase() {
        return Err(BitcoinUSTBillsError::USTBillSoldOut);
    }
    if ustbill.available_tokens() < token_amount {
        return Err(BitcoinUSTBillsError::InsufficientTokens);
    }
    proof {
        if token_amount > 0 {
            lemma_cost_bounded(ustbill@, token_amount);
        }
    }
    let cost = match calculate_purchase_cost_internal(&ustbill, token_amount) {
        Ok(cost) => cost,
        Err(e) => {
            return Err(e);
        },
    };
    let config = platform.config.get();
    if cost < config.minimum_investment {
        return Err(BitcoinUSTBillsError::MinimumInvestmentNotMet);
    }
    if cost > config.maximum_investment {
        return Err(BitcoinUSTBillsError::MaximumInvestmentExceeded);
    }
    let fees = calculate_fees(cost, config.platform_fee_bps);
    let total_cost = match cost.checked_add(fees) {
        Some(total) => total,
        None => {
            return Err(BitcoinUSTBillsError::InsufficientFunds);
        },
    };
    if user.wallet_balance < total_cost {
        return Err(BitcoinUSTBillsError::InsufficientFunds);
    }
    Ok(PurchaseTerms { account: user, ustbill, cost, fees })
}

/// Writes the line that describes a purchase.
pub fn describe_purchase(token_amount: u64, ustbill_id: &str) -> (line: String)
    ensures
        line@ == purchase_description(token_amount, ustbill_id@),
{
    String::from_str("Purchase of ").concat(decimal(token_amount).as_str()).concat(
        " tokens from UST Bill ",
    ).concat(ustbill_id)
}

/// Whether a purchase can be made within the limits of the machine: true of
/// every purchase that would be refused, and of every other whose cost fits
/// on top of what the buyer has invested and of the volume traded, while three
/// identifiers are left and the records that it writes are not too long.
pub fn purchase_stays_in_range(
    platform: &Platform,
    caller: &Principal,
    ustbill_id: &str,
    token_amount: u64,
) -> (fits: bool)
    requires
        platform.wf(),
    ensures
        fits == (platform@.purchase_rejection(caller@, ustbill_id@, token_amount) is None
            ==> platform@.purchase_fits(caller@, ustbill_id@, token_amount)),
{
    match examine_purchase(platform, caller, ustbill_id, token_amount) {
        Ok(terms) => {
            let metrics = platform.trading_metrics.get();
            let next_id = platform.id_counter.current();
            if next_id > u64::MAX - 3 {
                return false;
            }
            let description = describe_purchase(token_amount, ustbill_id);
            let size: u128 = 69u128 + (decimal(next_id + 1).as_str().as_bytes().len() as u128)
                + (caller.as_slice().len() as u128) + (ustbill_id.as_bytes().len() as u128)
                + (decimal(next_id).as_str().as_bytes().len() as u128)
                + (description.as_str().as_bytes().len() as u128);
            terms.account.total_invested.checked_add(terms.cost).is_some()
                && metrics.total_volume.checked_add(terms.cost).is_some()
                && metrics.total_transactions < u64::MAX && size <= MAX_RECORD_BYTES as u128
        },
        Err(_) => true,
    }
}

/// Buys `token_amount` tokens of a bill for the caller.
///
/// The purchase is refused, and nothing changes, with the first of these that
/// holds: the caller has no account that may trade; there is no such bill or
/// it cannot be bought; it has fewer tokens left; no token is asked for; the
/// cost is below the least or above the greatest investment; the wallet holds
/// less than the cost and the fee. Otherwise the wallet is debited with cost
/// and fee, the bill counts the tokens as sold, a holding and two transactions
/// are created, the running figures are moved, and the holding is returned.
#[verifier::rlimit(50)]
pub fn buy_ustbill_tokens(
    platform: &mut Platform,
    caller: &Principal,
    ustbill_id: String,
    token_amount: u64,
    now: u64,
) -> (result: Result<TokenHolding>)
    requires
        old(platform).wf(),
        old(platform)@.purchase_rejection(caller@, ustbill_id@, token_amount) is None
            ==> old(platform)@.purchase_fits(caller@, ustbill_id@, token_amount),
    ensures
        final(platform).wf(),
        old(platform)@.consistent() ==> final(platform)@.consistent(),
        old(platform)@.tokens_conserved() && !old(platform)@.holdings.contains_key(
            crate::laws::upcoming(old(platform)@.next_id),
        ) ==> final(platform)@.tokens_conserved(),
        old(platform)@.purchase_rejection(caller@, ustbill_id@, token_amount) matches Some(e) ==> (
        result == Err::<TokenHolding, BitcoinUSTBillsError>(e) && final(platform)@
            == old(platform)@),
        old(platform)@.purchase_rejection(caller@, ustbill_id@, token_amount) is None ==> (
        result matches Ok(holding) && holding@ == old(platform)@.purchased_holding(
            caller@,
            ustbill_id@,
            token_amount,
            now,
        ) && final(platform)@ == old(platform)@.after_purchase(
            caller@,
            ustbill_id@,
            token_amount,
            now,
        )),
{
    let ghost before = platform@;
    let terms = match examine_purchase(platform, caller, ustbill_id.as_str(), token_amount) {
        Ok(terms) => terms,
        Err(e) => {
            return Err(e);
        },
    };
    let mut user = terms.account;
    let mut ustbill = terms.ustbill;
    let cost = terms.cost;
    let fees = terms.fees;
    let total_cost = cost + fees;
    assert(before.purchase_rejection(caller@, ustbill_id@, token_amount) is None);
    let ghost old_user = user@;
    let ghost old_bill = ustbill@;
    proof {
        platform.users.table.lemma_wf();
        platform.ustbills.table.lemma_wf();
        platform.holdings.table.lemma_wf();
        assert(before.holdings.dom().finite());
        assert(before.bills_keyed());
        assert(platform.users@.contains_key(account_key(caller@)));
        assert(platform.ustbills@.contains_key(id_key(ustbill_id@)));
        lemma_account_key_injective(old_user.principal, caller@);
        lemma_id_key_injective(old_bill.id, ustbill_id@);
    }

    user.wallet_balance = user.wallet_balance - total_cost;
    user.total_invested = user.total_invested + cost;
    user.updated_at = now;

    ustbill.tokens_sold = ustbill.tokens_sold + token_amount;
    if ustbill.tokens_sold >= ustbill.total_tokens {
        ustbill.status = USTBillStatus::SoldOut;
    }
    ustbill.updated_at = now;

    let holding_id = generate_id(&mut platform.id_counter);
    let holding = TokenHolding {
        id: holding_id.clone(),
        user_principal: caller.clone(),
        ustbill_id: ustbill_id.clone(),
        tokens_owned: token_amount,
        purchase_price_per_token: cost / token_amount,
        purchase_date: now,
        yield_option: YieldOption::Maturity,
        status: HoldingStatus::Active,
        current_value: cost,
        projected_yield: calculate_projected_yield(&ustbill, cost, now),
    };
    let transaction = Transaction {
        id: generate_id(&mut platform.id_counter),
        user_principal: caller.clone(),
        transaction_type: TransactionType::Purchase,
        amount: cost,
        ustbill_id: Some(ustbill_id.clone()),
        holding_id: Some(holding_id.clone()),
        timestamp: now,
        status: TransactionStatus::Completed,
        fees,
        description: describe_purchase(token_amount, ustbill_id.as_str()),
    };
    let fee_transaction = Transaction {
        id: generate_id(&mut platform.id_counter),
        user_principal: caller.clone(),
        transaction_type: TransactionType::Fee,
        amount: fees,
        ustbill_id: Some(ustbill_id.clone()),
        holding_id: Some(holding_id.clone()),
        timestamp: now,
        status: TransactionStatus::Completed,
        fees: 0,
        description: String::from_str("Platform fee"),
    };
    proof {
        assert(user@ == before.purchased_account(caller@, ustbill_id@, token_amount, now));
        assert(ustbill@ == before.purchased_bill(ustbill_id@, token_amount, now));
        assert(holding@ == before.purchased_holding(caller@, ustbill_id@, token_amount, now));
        assert(transaction@ == before.purchase_transaction(
            caller@,
            ustbill_id@,
            token_amount,
            now,
        ));
        assert(fee_transaction@ == before.fee_transaction(caller@, ustbill_id@, token_amount, now));
        lemma_transaction_size(transaction@);
        lemma_purchase_records_admissible(
            old_user,
            user@,
            old_bill,
            ustbill@,
            holding@,
            transaction@,
            fee_transaction@,
            before.next_id,
            token_amount,
        );
    }

    let written = platform.users.update(user);
    assert(written is Ok);
    let written = platform.ustbills.update(ustbill);
    assert(written is Ok);
    let written = platform.holdings.insert(holding.clone());
    assert(written is Ok);
    let written = platform.transactions.insert(transaction);
    assert(written is Ok);
    let written = platform.transactions.insert(fee_transaction);
    assert(written is Ok);

    let priced = platform.trading_metrics.update_price(cost / token_amount, now);
    let counted = platform.trading_metrics.update_volume(cost, now);
    proof {
        if before.consistent() {
            crate::laws::lemma_purchase_keeps_books(
                before,
                caller@,
                ustbill_id@,
                token_amount,
                now,
            );
        }
        if before.tokens_conserved() && !before.holdings.contains_key(
            crate::laws::upcoming(before.next_id),
        ) {
            crate::laws::lemma_purchase_conserves_tokens(
                before,
                caller@,
                ustbill_id@,
                token_amount,
                now,
            );
        }
    }
    Ok(holding)
}

/// The five records that a purchase writes are all admissible where the
/// transaction that records the purchase, the longest of them, is not too long.
#[verifier::rlimit(50)]
pub proof fn lemma_purchase_records_admissible(
    old_account: UserView,
    account: UserView,
    old_bill: USTBillView,
    bill: USTBillView,
    holding: TokenHoldingView,
    payment: TransactionView,
    fee: TransactionView,
    next_id: u64,
    token_amount: u64,
)
    requires
        admissible::<User>(old_account),
        admissible::<USTBill>(old_bill),
        next_id + 3 <= u64::MAX,
        account == (UserView {
            wallet_balance: account.wallet_balance,
            total_invested: account.total_invested,
            updated_at: account.updated_at,
            ..old_account
        }),
        bill == (USTBillView {
            tokens_sold: bill.tokens_sold,
            status: bill.status,
            updated_at: bill.updated_at,
            ..old_bill
        }),
        holding.id == decimal_text(next_id as nat),
        holding.user_principal == old_account.principal,
        holding.ustbill_id == old_bill.id,
        payment.id == decimal_text((next_id + 1) as nat),
        payment.user_principal == old_account.principal,
        payment.ustbill_id == Some(old_bill.id),
        payment.holding_id == Some(holding.id),
        payment.description == purchase_description(token_amount, old_bill.id),
        fee.id == decimal_text((next_id + 2) as nat),
        fee.user_principal == old_account.principal,
        fee.ustbill_id == Some(old_bill.id),
        fee.holding_id == Some(holding.id),
        fee.description == "Platform fee"@,
        encoding::<Transaction>(payment).len() <= MAX_RECORD_BYTES,
    ensures
        admissible::<User>(account),
        admissible::<USTBill>(bill),
        admissible::<TokenHolding>(holding),
        admissible::<Transaction>(payment),
        admissible::<Transaction>(fee),
{
    lemma_account_size(old_account);
    lemma_account_size(account);
    lemma_bill_size(old_bill);
    lemma_bill_size(bill);
    lemma_holding_size(holding);
    lemma_transaction_size(payment);
    lemma_transaction_size(fee);
    lemma_decimal_size(next_id);
    lemma_decimal_size((next_id + 1) as u64);
    lemma_decimal_size((next_id + 2) as u64);
    lemma_decimal_size(token_amount);
    reveal_strlit("Purchase of ");
    reveal_strlit(" tokens from UST Bill ");
    reveal_strlit("Platform fee");
    lemma_text_len_bound("Purchase of "@);
    lemma_text_len_bound(" tokens from UST Bill "@);
    lemma_text_len_bound("Platform fee"@);
    let first = "Purchase of "@ + decimal_text(token_amount as nat);
    let second = first + " tokens from UST Bill "@;
    lemma_utf8_concat("Purchase of "@, decimal_text(token_amount as nat));
    lemma_utf8_concat(first, " tokens from UST Bill "@);
    lemma_utf8_concat(second, old_bill.id);
    lemma_text_len_floor("Purchase of "@);
    lemma_text_len_floor(" tokens from UST Bill "@);
    lemma_text_len_floor(decimal_text((next_id + 1) as nat));
    lemma_decimal_value((next_id + 1) as nat);
    assert(is_ascii_chars("Platform fee"@)) by {
        assert forall|i: int| 0 <= i < "Platform fee"@.len() implies '\0' <= #[trigger] "Platform fee"@[i]
            <= '\u{7f}' by {
            if i == 0 {
            } else if i == 1 {
            } else if i == 2 {
            } else if i == 3 {
            } else if i == 4 {
            } else if i == 5 {
            } else if i == 6 {
            } else if i == 7 {
            } else if i == 8 {
            } else if i == 9 {
            } else if i == 10 {
            } else {
            }
        }
    }
    is_ascii_chars_encode_utf8("Platform fee"@);
}

/// An account whose figures changed is admissible if it was before.
pub proof fn lemma_account_figures(before: UserView, after: UserView)
    requires
        admissible::<User>(before),
        after == (UserView {
            kyc_status: after.kyc_status,
            wallet_balance: after.wallet_balance,
            total_invested: after.total_invested,
            total_yield_earned: after.total_yield_earned,
            updated_at: after.updated_at,
            is_active: after.is_active,
            ..before
        }),
    ensures
        admissible::<User>(after),
{
    lemma_account_size(before);
    lemma_account_size(after);
}

/// The transaction that records a movement of money in or out of a wallet.
pub open spec fn wallet_transaction(
    next_id: u64,
    owner: Seq<u8>,
    kind: TransactionType,
    amount: u64,
    now: u64,
    description: Seq<char>,
) -> TransactionView {
    TransactionView {
        id: decimal_text(next_id as nat),
        user_principal: owner,
        transaction_type: kind,
        amount,
        ustbill_id: None,
        holding_id: None,
        timestamp: now,
        status: TransactionStatus::Completed,
        fees: 0,
        description,
    }
}

/// The transaction of a movement of money is admissible.
pub proof fn lemma_wallet_transaction_admissible(t: TransactionView, next_id: u64)
    requires
        t.id == decimal_text(next_id as nat),
        t.user_principal.len() <= crate::principal::MAX_LENGTH_IN_BYTES,
        t.ustbill_id is None,
        t.holding_id is None,
        t.description == "Wallet deposit"@ || t.description == "Wallet withdrawal"@,
    ensures
        admissible::<Transaction>(t),
{
    lemma_transaction_size(t);
    lemma_decimal_size(next_id);
    reveal_strlit("Wallet deposit");
    reveal_strlit("Wallet withdrawal");
    lemma_text_len_bound(t.description);
}

impl PlatformView {
    /// Why a deposit is refused, if it is.
    pub open spec fn deposit_rejection(self, owner: Seq<u8>, amount: u64) -> Option<
        BitcoinUSTBillsError,
    > {
        if !self.has_account(owner) {
            Some(BitcoinUSTBillsError::UserNotFound)
        } else if amount == 0 {
            Some(BitcoinUSTBillsError::InvalidAmount)
        } else {
            None
        }
    }

    /// The state after a deposit that is not refused.
    pub open spec fn after_deposit(self, owner: Seq<u8>, amount: u64, now: u64) -> PlatformView {
        let account = self.account(owner);
        let record = wallet_transaction(
            self.next_id,
            owner,
            TransactionType::Deposit,
            amount,
            now,
            "Wallet deposit"@,
        );
        PlatformView {
            users: self.users.insert(
                account_key(owner),
                UserView {
                    wallet_balance: (account.wallet_balance + amount) as u64,
                    updated_at: now,
                    ..account
                },
            ),
            transactions: self.transactions.insert(id_key(record.id), record),
            next_id: (self.next_id + 1) as u64,
            ..self
        }
    }

    /// Why a withdrawal is refused, if it is.
    pub open spec fn withdrawal_rejection(self, owner: Seq<u8>, amount: u64) -> Option<
        BitcoinUSTBillsError,
    > {
        if !self.has_account(owner) {
            Some(BitcoinUSTBillsError::UserNotFound)
        } else if amount == 0 {
            Some(BitcoinUSTBillsError::InvalidAmount)
        } else if self.account(owner).wallet_balance < amount {
            Some(BitcoinUSTBillsError::InsufficientFunds)
        } else {
            None
        }
    }

    /// The state after a withdrawal that is not refused.
    pub open spec fn after_withdrawal(self, owner: Seq<u8>, amount: u64, now: u64)
        -> PlatformView {
        let account = self.account(owner);
        let record = wallet_transaction(
            self.next_id,
            owner,
            TransactionType::Withdrawal,
            amount,
            now,
            "Wallet withdrawal"@,
        );
        PlatformView {
            users: self.users.insert(
                account_key(owner),
                UserView {
                    wallet_balance: (account.wallet_balance - amount) as u64,
                    updated_at: now,
                    ..account
                },
            ),
            transactions: self.transactions.insert(id_key(record.id), record),
            next_id: (self.next_id + 1) as u64,
            ..self
        }
    }
}

/// Whether a deposit can be made without a figure leaving the range of 64
/// bits: true of every deposit that would be refused, and of every other
/// whose amount fits on top of the balance while an identifier is left.
pub fn deposit_stays_in_range(platform: &Platform, caller: &Principal, amount: u64) -> (fits: bool)
    requires
        platform.wf(),
    ensures
        fits == (platform@.deposit_rejection(caller@, amount) is None ==> platform@.account(
            caller@,
        ).wallet_balance + amount <= u64::MAX && platform@.next_id < u64::MAX),
{
    match platform.users.get(caller) {
        Ok(user) => amount == 0 || (user.wallet_balance.checked_add(amount).is_some()
            && platform.id_counter.current() < u64::MAX),
        Err(_) => true,
    }
}

/// Whether a withdrawal can be made without the source of identifiers running
/// out: true of every withdrawal that would be refused, and of every other
/// while an identifier is left.
pub fn withdrawal_stays_in_range(platform: &Platform, caller: &Principal, amount: u64) -> (fits:
    bool)
    requires
        platform.wf(),
    ensures
        fits == (platform@.withdrawal_rejection(caller@, amount) is None ==> platform@.next_id
            < u64::MAX),
{
    match platform.users.get(caller) {
        Ok(user) => amount == 0 || user.wallet_balance < amount || platform.id_counter.current()
            < u64::MAX,
        Err(_) => true,
    }
}

/// Credits the wallet of the caller and records the deposit. Returns the new
/// balance. A caller without an account and a deposit of nothing are refused,
/// and nothing changes.
#[verifier::rlimit(50)]
pub fn deposit_funds(platform: &mut Platform, caller: &Principal, amount: u64, now: u64) -> (result:
    Result<u64>)
    requires
        old(platform).wf(),
        old(platform)@.deposit_rejection(caller@, amount) is None ==> old(platform)@.account(
            caller@,
        ).wallet_balance + amount <= u64::MAX && old(platform)@.next_id < u64::MAX,
    ensures
        final(platform).wf(),
        old(platform)@.consistent() ==> final(platform)@.consistent(),
        old(platform)@.deposit_rejection(caller@, amount) matches Some(e) ==> (result == Err::<
            u64,
            BitcoinUSTBillsError,
        >(e) && final(platform)@ == old(platform)@),
        old(platform)@.deposit_rejection(caller@, amount) is None ==> (result matches Ok(balance)
            && balance == old(platform)@.account(caller@).wallet_balance + amount
                && final(platform)@ == old(platform)@.after_deposit(caller@, amount, now)),
{
    let ghost before = platform@;
    let mut user = match platform.users.get(caller) {
        Ok(user) => user,
        Err(e) => {
            return Err(BitcoinUSTBillsError::UserNotFound);
        },
    };
    if amount == 0 {
        return Err(BitcoinUSTBillsError::InvalidAmount);
    }
    let ghost old_user = user@;
    proof {
        platform.users.table.lemma_wf();
        assert(platform.users@.contains_key(account_key(caller@)));
        lemma_account_key_injective(old_user.principal, caller@);
    }
    user.wallet_balance = user.wallet_balance + amount;
    user.updated_at = now;
    let balance = user.wallet_balance;
    let transaction = Transaction {
        id: generate_id(&mut platform.id_counter),
        user_principal: caller.clone(),
        transaction_type: TransactionType::Deposit,
        amount,
        ustbill_id: None,
        holding_id: None,
        timestamp: now,
        status: TransactionStatus::Completed,
        fees: 0,
        description: String::from_str("Wallet deposit"),
    };
    proof {
        lemma_account_figures(old_user, user@);
        lemma_wallet_transaction_admissible(transaction@, before.next_id);
    }
    let written = platform.users.update(user);
    assert(written is Ok);
    let written = platform.transactions.insert(transaction);
    assert(written is Ok);
    proof {
        if before.consistent() {
            crate::laws::lemma_wallet_movements_keep_books(before, caller@, amount, now);
        }
    }
    Ok(balance)
}

/// Debits the wallet of the caller and records the withdrawal. Returns the new
/// balance. A caller without an account, a withdrawal of nothing and one of
/// more than the wallet holds are refused, and nothing changes.
#[verifier::rlimit(50)]
pub fn withdraw_funds(platform: &mut Platform, caller: &Principal, amount: u64,
    now: u64) -> (result:
    Result<u64>)
    requires
        old(platform).wf(),
        old(platform)@.withdrawal_rejection(caller@, amount) is None ==> old(platform)@.next_id
            < u64::MAX,
    ensures
        final(platform).wf(),
        old(platform)@.consistent() ==> final(platform)@.consistent(),
        old(platform)@.withdrawal_rejection(caller@, amount) matches Some(e) ==> (result == Err::<
            u64,
            BitcoinUSTBillsError,
        >(e) && final(platform)@ == old(platform)@),
        old(platform)@.withdrawal_rejection(caller@, amount) is None ==> (result matches Ok(balance)
            && balance == old(platform)@.account(caller@).wallet_balance - amount
                && final(platform)@ == old(platform)@.after_withdrawal(caller@, amount, now)),
{
    let ghost before = platform@;
    let mut user = match platform.users.get(caller) {
        Ok(user) => user,
        Err(e) => {
            return Err(BitcoinUSTBillsError::UserNotFound);
        },
    };
    if amount == 0 {
        return Err(BitcoinUSTBillsError::InvalidAmount);
    }
    if user.wallet_balance < amount {
        return Err(BitcoinUSTBillsError::InsufficientFunds);
    }
    let ghost old_user = user@;
    proof {
        platform.users.table.lemma_wf();
        assert(platform.users@.contains_key(account_key(caller@)));
        lemma_account_key_injective(old_user.principal, caller@);
    }
    user.wallet_balance = user.wallet_balance - amount;
    user.updated_at = now;
    let balance = user.wallet_balance;
    let transaction = Transaction {
        id: generate_id(&mut platform.id_counter),
        user_principal: caller.clone(),
        transaction_type: TransactionType::Withdrawal,
        amount,
        ustbill_id: None,
        holding_id: None,
        timestamp: now,
        status: TransactionStatus::Completed,
        fees: 0,
        description: String::from_str("Wallet withdrawal"),
    };
    proof {
        lemma_account_figures(old_user, user@);
        lemma_wallet_transaction_admissible(transaction@, before.next_id);
    }
    let written = platform.users.update(user);
    assert(written is Ok);
    let written = platform.transactions.insert(transaction);
    assert(written is Ok);
    proof {
        if before.consistent() {
            crate::laws::lemma_wallet_movements_keep_books(before, caller@, amount, now);
        }
    }
    Ok(balance)
}

/// Whether the cost of a number of tokens of a bill can be computed: true
/// where there is no such bill, and where the bill has tokens and the cost
/// fits in 64 bits.
pub fn purchase_cost_is_defined(platform: &Platform, ustbill_id: &str,
    token_amount: u64) -> (defined:
    bool)
    requires
        platform.wf(),
    ensures
        defined == (platform@.has_bill(ustbill_id@) ==> platform@.bill(ustbill_id@).total_tokens > 0
            && purchase_cost(platform@.bill(ustbill_id@), token_amount) <= u64::MAX),
{
    match platform.ustbills.get(ustbill_id) {
        Ok(ustbill) => {
            if ustbill.total_tokens == 0 {
                false
            } else {
                let cost_per_token = ustbill.purchase_price / ustbill.total_tokens;
                cost_per_token.checked_mul(token_amount).is_some()
            }
        },
        Err(_) => true,
    }
}

/// What a number of tokens of a bill costs. Fails where there is no such bill
/// and where no token is asked for.
pub fn calculate_purchase_cost(platform: &Platform, ustbill_id: &str, token_amount: u64) -> (result:
    Result<u64>)
    requires
        platform.wf(),
        platform@.has_bill(ustbill_id@) ==> platform@.bill(ustbill_id@).total_tokens > 0
            && purchase_cost(platform@.bill(ustbill_id@), token_amount) <= u64::MAX,
    ensures
        !platform@.has_bill(ustbill_id@) ==> result matches Err(
            BitcoinUSTBillsError::USTBillNotFound,
        ),
        platform@.has_bill(ustbill_id@) && token_amount == 0 ==> result matches Err(
            BitcoinUSTBillsError::InvalidTokenAmount,
        ),
        platform@.has_bill(ustbill_id@) && token_amount != 0 ==> (result matches Ok(cost) && cost
            == purchase_cost(platform@.bill(ustbill_id@), token_amount)),
{
    match platform.ustbills.get(ustbill_id) {
        Ok(ustbill) => calculate_purchase_cost_internal(&ustbill, token_amount),
        Err(e) => Err(BitcoinUSTBillsError::USTBillNotFound),
    }
}

} // verus!
