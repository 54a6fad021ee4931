//! How each kind of record is laid out in fields, and the key it is stored
//! under.

use vstd::prelude::*;
use vstd::string::{StrSliceExecFns, StringExecFns};
use vstd::utf8::encode_utf8;
use crate::codec::{
    bool_field, field_bill_status, field_bool, field_holding_status, field_kyc_status,
    field_option_text, field_principal, field_text, field_transaction_status,
    field_transaction_type, field_u64, field_yield_option, bill_status_field, holding_status_field,
    kyc_status_field, lemma_field_round_trips, option_text_field, principal_field, read_bill_status,
    read_bool, read_holding_status, read_kyc_status, read_option_text, read_principal, read_text,
    read_transaction_status, read_transaction_type, read_u64, read_yield_option, text_field,
    transaction_status_field, transaction_type_field, u64_field, write_bill_status, write_bool,
    write_holding_status, write_kyc_status, write_option_text, write_principal, write_text,
    write_transaction_status, write_transaction_type, write_u64, write_yield_option,
    yield_option_field, Record,
};
use crate::frames::field_views;
use crate::principal::{Principal, MAX_LENGTH_IN_BYTES};
use crate::types::{
    PlatformConfig, TokenHolding, TokenHoldingView, TradingMetrics, Transaction, TransactionView,
    TreasuryRate, TreasuryRateView, USTBill, USTBillView, User, UserView, VerifiedBrokerPurchase,
    VerifiedBrokerPurchaseView,
};

verus! {

/// A kind of record that is stored under a key of its own.
pub trait Keyed: Record {
    /// The key under which the record is stored.
    spec fn key_of(v: Self::V) -> Seq<u8>;

    /// The key of this record.
    fn key(&self) -> (k: Vec<u8>)
        ensures
            k@ == Self::key_of(self@),
    ;
}

/// The key of a record that is stored under a textual identifier: the UTF-8
/// form of the identifier.
pub open spec fn id_key(id: Seq<char>) -> Seq<u8> {
    encode_utf8(id)
}

/// The key of an account: the number of bytes of the identity, then the
/// bytes.
pub open spec fn account_key(principal: Seq<u8>) -> Seq<u8> {
    seq![principal.len() as u8] + principal
}

/// The key of a reference rate: the security identifier, an underscore, and the
/// day that the rate holds for.
pub open spec fn rate_key(cusip: Seq<char>, rate_date: Seq<char>) -> Seq<u8> {
    encode_utf8(cusip + "_"@ + rate_date)
}

/// Computes [`id_key`].
pub fn make_id_key(id: &str) -> (k: Vec<u8>)
    ensures
        k@ == id_key(id@),
{
    id.as_bytes_vec()
}

/// Computes [`account_key`].
pub fn make_account_key(principal: &Principal) -> (k: Vec<u8>)
    ensures
        k@ == account_key(principal@),
{
    let bytes = principal.as_slice();
    let mut k: Vec<u8> = Vec::new();
    k.push(bytes.len() as u8);
    k.extend_from_slice(bytes);
    assert(k@ =~= account_key(principal@));
    k
}

/// Computes [`rate_key`].
pub fn make_rate_key(cusip: &str, rate_date: &str) -> (k: Vec<u8>)
    ensures
        k@ == rate_key(cusip@, rate_date@),
{
    let text = String::from_str(cusip).concat("_").concat(rate_date);
    text.as_str().as_bytes_vec()
}

/// Distinct identities have distinct keys.
pub proof fn lemma_account_key_injective(p: Seq<u8>, q: Seq<u8>)
    requires
        account_key(p) == account_key(q),
    ensures
        p == q,
{
    assert(account_key(p).skip(1) =~= p);
    assert(account_key(q).skip(1) =~= q);
}

/// Distinct identifiers have distinct keys.
pub proof fn lemma_id_key_injective(a: Seq<char>, b: Seq<char>)
    requires
        id_key(a) == id_key(b),
    ensures
        a == b,
{
    vstd::utf8::encode_utf8_decode_utf8(a);
    vstd::utf8::encode_utf8_decode_utf8(b);
}

impl Record for USTBill {
    open spec fn valid(v: USTBillView) -> bool {
        true
    }

    open spec fn fields_of(v: USTBillView) -> Seq<Seq<u8>> {
        seq![
            text_field(v.id),
            text_field(v.cusip),
            u64_field(v.face_value),
            u64_field(v.purchase_price),
            u64_field(v.maturity_date),
            u64_field(v.annual_yield_bps),
            u64_field(v.total_tokens),
            u64_field(v.tokens_sold),
            bill_status_field(v.status),
            u64_field(v.created_at),
            u64_field(v.updated_at),
            text_field(v.issuer),
            text_field(v.bill_type),
        ]
    }

    open spec fn of_fields(fields: Seq<Seq<u8>>) -> Option<USTBillView> {
        if fields.len() == 13
            && field_text(fields[0]) is Some
            && field_text(fields[1]) is Some
            && field_u64(fields[2]) is Some
            && field_u64(fields[3]) is Some
            && field_u64(fields[4]) is Some
            && field_u64(fields[5]) is Some
            && field_u64(fields[6]) is Some
            && field_u64(fields[7]) is Some
            && field_bill_status(fields[8]) is Some
            && field_u64(fields[9]) is Some
            && field_u64(fields[10]) is Some
            && field_text(fields[11]) is Some
            && field_text(fields[12]) is Some
        {
            Some(
                USTBillView {
                    id: field_text(fields[0])->0,
                    cusip: field_text(fields[1])->0,
                    face_value: field_u64(fields[2])->0,
                    purchase_price: field_u64(fields[3])->0,
                    maturity_date: field_u64(fields[4])->0,
                    annual_yield_bps: field_u64(fields[5])->0,
                    total_tokens: field_u64(fields[6])->0,
                    tokens_sold: field_u64(fields[7])->0,
                    status: field_bill_status(fields[8])->0,
                    created_at: field_u64(fields[9])->0,
                    updated_at: field_u64(fields[10])->0,
                    issuer: field_text(fields[11])->0,
                    bill_type: field_text(fields[12])->0,
                },
            )
        } else {
            None
        }
    }

    #[verifier::rlimit(50)]
    proof fn lemma_fields_round_trip(v: USTBillView) {
        lemma_field_round_trips();
    }

    proof fn lemma_of_fields_valid(fields: Seq<Seq<u8>>) {
    }

    fn to_fields(&self) -> (fields: Vec<Vec<u8>>) {
        let mut fields: Vec<Vec<u8>> = Vec::new();
        fields.push(write_text(self.id.as_str()));
        fields.push(write_text(self.cusip.as_str()));
        fields.push(write_u64(self.face_value));
        fields.push(write_u64(self.purchase_price));
        fields.push(write_u64(self.maturity_date));
        fields.push(write_u64(self.annual_yield_bps));
        fields.push(write_u64(self.total_tokens));
        fields.push(write_u64(self.tokens_sold));
        fields.push(write_bill_status(self.status));
        fields.push(write_u64(self.created_at));
        fields.push(write_u64(self.updated_at));
        fields.push(write_text(self.issuer.as_str()));
        fields.push(write_text(self.bill_type.as_str()));
        assert(field_views(fields@) =~= Self::fields_of(self@));
        fields
    }

    #[verifier::rlimit(50)]
    fn from_fields(fields: &Vec<Vec<u8>>) -> (record: Option<Self>) {
        if fields.len() != 13 {
            return None;
        }
        assert(field_views(fields@)[0] == fields@[0]@);
        let id = read_text(fields[0].as_slice())?;
        assert(field_views(fields@)[1] == fields@[1]@);
        let cusip = read_text(fields[1].as_slice())?;
        assert(field_views(fields@)[2] == fields@[2]@);
        let face_value = read_u64(fields[2].as_slice())?;
        assert(field_views(fields@)[3] == fields@[3]@);
        let purchase_price = read_u64(fields[3].as_slice())?;
        assert(field_views(fields@)[4] == fields@[4]@);
        let maturity_date = read_u64(fields[4].as_slice())?;
        assert(field_views(fields@)[5] == fields@[5]@);
        let annual_yield_bps = read_u64(fields[5].as_slice())?;
        assert(field_views(fields@)[6] == fields@[6]@);
        let total_tokens = read_u64(fields[6].as_slice())?;
        assert(field_views(fields@)[7] == fields@[7]@);
        let tokens_sold = read_u64(fields[7].as_slice())?;
        assert(field_views(fields@)[8] == fields@[8]@);
        let status = read_bill_status(fields[8].as_slice())?;
        assert(field_views(fields@)[9] == fields@[9]@);
        let created_at = read_u64(fields[9].as_slice())?;
        assert(field_views(fields@)[10] == fields@[10]@);
        let updated_at = read_u64(fields[10].as_slice())?;
        assert(field_views(fields@)[11] == fields@[11]@);
        let issuer = read_text(fields[11].as_slice())?;
        assert(field_views(fields@)[12] == fields@[12]@);
        let bill_type = read_text(fields[12].as_slice())?;
        Some(USTBill { id, cusip, face_value, purchase_price, maturity_date, annual_yield_bps,
            total_tokens, tokens_sold, status, created_at, updated_at, issuer, bill_type })
    }
}

impl Record for User {
    open spec fn valid(v: UserView) -> bool {
        v.principal.len() <= MAX_LENGTH_IN_BYTES
    }

    open spec fn fields_of(v: UserView) -> Seq<Seq<u8>> {
        seq![
            principal_field(v.principal),
            text_field(v.email),
            kyc_status_field(v.kyc_status),
            u64_field(v.wallet_balance),
            u64_field(v.total_invested),
            u64_field(v.total_yield_earned),
            u64_field(v.created_at),
            u64_field(v.updated_at),
            bool_field(v.is_active),
            option_text_field(v.phone_number),
            text_field(v.country),
        ]
    }

    open spec fn of_fields(fields: Seq<Seq<u8>>) -> Option<UserView> {
        if fields.len() == 11
            && field_principal(fields[0]) is Some
            && field_text(fields[1]) is Some
            && field_kyc_status(fields[2]) is Some
            && field_u64(fields[3]) is Some
            && field_u64(fields[4]) is Some
            && field_u64(fields[5]) is Some
            && field_u64(fields[6]) is Some
            && field_u64(fields[7]) is Some
            && field_bool(fields[8]) is Some
            && field_option_text(fields[9]) is Some
            && field_text(fields[10]) is Some
        {
            Some(
                UserView {
                    principal: field_principal(fields[0])->0,
                    email: field_text(fields[1])->0,
                    kyc_status: field_kyc_status(fields[2])->0,
                    wallet_balance: field_u64(fields[3])->0,
                    total_invested: field_u64(fields[4])->0,
                    total_yield_earned: field_u64(fields[5])->0,
                    created_at: field_u64(fields[6])->0,
                    updated_at: field_u64(fields[7])->0,
                    is_active: field_bool(fields[8])->0,
                    phone_number: field_option_text(fields[9])->0,
                    country: field_text(fields[10])->0,
                },
            )
        } else {
            None
        }
    }

    #[verifier::rlimit(50)]
    proof fn lemma_fields_round_trip(v: UserView) {
        lemma_field_round_trips();
    }

    proof fn lemma_of_fields_valid(fields: Seq<Seq<u8>>) {
    }

    fn to_fields(&self) -> (fields: Vec<Vec<u8>>) {
        let mut fields: Vec<Vec<u8>> = Vec::new();
        fields.push(write_principal(&self.principal));
        fields.push(write_text(self.email.as_str()));
        fields.push(write_kyc_status(self.kyc_status));
        fields.push(write_u64(self.wallet_balance));
        fields.push(write_u64(self.total_invested));
        fields.push(write_u64(self.total_yield_earned));
        fields.push(write_u64(self.created_at));
        fields.push(write_u64(self.updated_at));
        fields.push(write_bool(self.is_active));
        fields.push(write_option_text(&self.phone_number));
        fields.push(write_text(self.country.as_str()));
        assert(field_views(fields@) =~= Self::fields_of(self@));
        fields
    }

    #[verifier::rlimit(50)]
    fn from_fields(fields: &Vec<Vec<u8>>) -> (record: Option<Self>) {
        if fields.len() != 11 {
            return None;
        }
        assert(field_views(fields@)[0] == fields@[0]@);
        let principal = read_principal(fields[0].as_slice())?;
        assert(field_views(fields@)[1] == fields@[1]@);
        let email = read_text(fields[1].as_slice())?;
        assert(field_views(fields@)[2] == fields@[2]@);
        let kyc_status = read_kyc_status(fields[2].as_slice())?;
        assert(field_views(fields@)[3] == fields@[3]@);
        let wallet_balance = read_u64(fields[3].as_slice())?;
        assert(field_views(fields@)[4] == fields@[4]@);
        let total_invested = read_u64(fields[4].as_slice())?;
        assert(field_views(fields@)[5] == fields@[5]@);
        let total_yield_earned = read_u64(fields[5].as_slice())?;
        assert(field_views(fields@)[6] == fields@[6]@);
        let created_at = read_u64(fields[6].as_slice())?;
        assert(field_views(fields@)[7] == fields@[7]@);
        let updated_at = read_u64(fields[7].as_slice())?;
        assert(field_views(fields@)[8] == fields@[8]@);
        let is_active = read_bool(fields[8].as_slice())?;
        assert(field_views(fields@)[9] == fields@[9]@);
        let phone_number = read_option_text(fields[9].as_slice())?;
        assert(field_views(fields@)[10] == fields@[10]@);
        let country = read_text(fields[10].as_slice())?;
        Some(User { principal, email, kyc_status, wallet_balance, total_invested,
            total_yield_earned, created_at, updated_at, is_active, phone_number, country })
    }
}

impl Record for TokenHolding {
    open spec fn valid(v: TokenHoldingView) -> bool {
        v.user_principal.len() <= MAX_LENGTH_IN_BYTES
    }

    open spec fn fields_of(v: TokenHoldingView) -> Seq<Seq<u8>> {
        seq![
            text_field(v.id),
            principal_field(v.user_principal),
            text_field(v.ustbill_id),
            u64_field(v.tokens_owned),
            u64_field(v.purchase_price_per_token),
            u64_field(v.purchase_date),
            yield_option_field(v.yield_option),
            holding_status_field(v.status),
            u64_field(v.current_value),
            u64_field(v.projected_yield),
        ]
    }

    open spec fn of_fields(fields: Seq<Seq<u8>>) -> Option<TokenHoldingView> {
        if fields.len() == 10
            && field_text(fields[0]) is Some
            && field_principal(fields[1]) is Some
            && field_text(fields[2]) is Some
            && field_u64(fields[3]) is Some
            && field_u64(fields[4]) is Some
            && field_u64(fields[5]) is Some
            && field_yield_option(fields[6]) is Some
            && field_holding_status(fields[7]) is Some
            && field_u64(fields[8]) is Some
            && field_u64(fields[9]) is Some
        {
            Some(
                TokenHoldingView {
                    id: field_text(fields[0])->0,
                    user_principal: field_principal(fields[1])->0,
                    ustbill_id: field_text(fields[2])->0,
                    tokens_owned: field_u64(fields[3])->0,
                    purchase_price_per_token: field_u64(fields[4])->0,
                    purchase_date: field_u64(fields[5])->0,
                    yield_option: field_yield_option(fields[6])->0,
                    status: field_holding_status(fields[7])->0,
                    current_value: field_u64(fields[8])->0,
                    projected_yield: field_u64(fields[9])->0,
                },
            )
        } else {
            None
        }
    }

    #[verifier::rlimit(50)]
    proof fn lemma_fields_round_trip(v: TokenHoldingView) {
        lemma_field_round_trips();
    }

    proof fn lemma_of_fields_valid(fields: Seq<Seq<u8>>) {
    }

    fn to_fields(&self) -> (fields: Vec<Vec<u8>>) {
        let mut fields: Vec<Vec<u8>> = Vec::new();
        fields.push(write_text(self.id.as_str()));
        fields.push(write_principal(&self.user_principal));
        fields.push(write_text(self.ustbill_id.as_str()));
        fields.push(write_u64(self.tokens_owned));
        fields.push(write_u64(self.purchase_price_per_token));
        fields.push(write_u64(self.purchase_date));
        fields.push(write_yield_option(self.yield_option));
        fields.push(write_holding_status(self.status));
        fields.push(write_u64(self.current_value));
        fields.push(write_u64(self.projected_yield));
        assert(field_views(fields@) =~= Self::fields_of(self@));
        fields
    }

    #[verifier::rlimit(50)]
    fn from_fields(fields: &Vec<Vec<u8>>) -> (record: Option<Self>) {
        if fields.len() != 10 {
            return None;
        }
        assert(field_views(fields@)[0] == fields@[0]@);
        let id = read_text(fields[0].as_slice())?;
        assert(field_views(fields@)[1] == fields@[1]@);
        let user_principal = read_principal(fields[1].as_slice())?;
        assert(field_views(fields@)[2] == fields@[2]@);
        let ustbill_id = read_text(fields[2].as_slice())?;
        assert(field_views(fields@)[3] == fields@[3]@);
        let tokens_owned = read_u64(fields[3].as_slice())?;
        assert(field_views(fields@)[4] == fields@[4]@);
        let purchase_price_per_token = read_u64(fields[4].as_slice())?;
        assert(field_views(fields@)[5] == fields@[5]@);
        let purchase_date = read_u64(fields[5].as_slice())?;
        assert(field_views(fields@)[6] == fields@[6]@);
        let yield_option = read_yield_option(fields[6].as_slice())?;
        assert(field_views(fields@)[7] == fields@[7]@);
        let status = read_holding_status(fields[7].as_slice())?;
        assert(field_views(fields@)[8] == fields@[8]@);
        let current_value = read_u64(fields[8].as_slice())?;
        assert(field_views(fields@)[9] == fields@[9]@);
        let projected_yield = read_u64(fields[9].as_slice())?;
        Some(TokenHolding { id, user_principal, ustbill_id, tokens_owned,
            purchase_price_per_token, purchase_date, yield_option, status, current_value,
                projected_yield })
    }
}

impl Record for Transaction {
    open spec fn valid(v: TransactionView) -> bool {
        v.user_principal.len() <= MAX_LENGTH_IN_BYTES
    }

    open spec fn fields_of(v: TransactionView) -> Seq<Seq<u8>> {
        seq![
            text_field(v.id),
            principal_field(v.user_principal),
            transaction_type_field(v.transaction_type),
            u64_field(v.amount),
            option_text_field(v.ustbill_id),
            option_text_field(v.holding_id),
            u64_field(v.timestamp),
            transaction_status_field(v.status),
            u64_field(v.fees),
            text_field(v.description),
        ]
    }

    open spec fn of_fields(fields: Seq<Seq<u8>>) -> Option<TransactionView> {
        if fields.len() == 10
            && field_text(fields[0]) is Some
            && field_principal(fields[1]) is Some
            && field_transaction_type(fields[2]) is Some
            && field_u64(fields[3]) is Some
            && field_option_text(fields[4]) is Some
            && field_option_text(fields[5]) is Some
            && field_u64(fields[6]) is Some
            && field_transaction_status(fields[7]) is Some
            && field_u64(fields[8]) is Some
            && field_text(fields[9]) is Some
        {
            Some(
                TransactionView {
                    id: field_text(fields[0])->0,
                    user_principal: field_principal(fields[1])->0,
                    transaction_type: field_transaction_type(fields[2])->0,
                    amount: field_u64(fields[3])->0,
                    ustbill_id: field_option_text(fields[4])->0,
                    holding_id: field_option_text(fields[5])->0,
                    timestamp: field_u64(fields[6])->0,
                    status: field_transaction_status(fields[7])->0,
                    fees: field_u64(fields[8])->0,
                    description: field_text(fields[9])->0,
                },
            )
        } else {
            None
        }
    }

    #[verifier::rlimit(50)]
    proof fn lemma_fields_round_trip(v: TransactionView) {
        lemma_field_round_trips();
    }

    proof fn lemma_of_fields_valid(fields: Seq<Seq<u8>>) {
    }

    fn to_fields(&self) -> (fields: Vec<Vec<u8>>) {
        let mut fields: Vec<Vec<u8>> = Vec::new();
        fields.push(write_text(self.id.as_str()));
        fields.push(write_principal(&self.user_principal));
        fields.push(write_transaction_type(self.transaction_type));
        fields.push(write_u64(self.amount));
        fields.push(write_option_text(&self.ustbill_id));
        fields.push(write_option_text(&self.holding_id));
        fields.push(write_u64(self.timestamp));
        fields.push(write_transaction_status(self.status));
        fields.push(write_u64(self.fees));
        fields.push(write_text(self.description.as_str()));
        assert(field_views(fields@) =~= Self::fields_of(self@));
        fields
    }

    #[verifier::rlimit(50)]
    fn from_fields(fields: &Vec<Vec<u8>>) -> (record: Option<Self>) {
        if fields.len() != 10 {
            return None;
        }
        assert(field_views(fields@)[0] == fields@[0]@);
        let id = read_text(fields[0].as_slice())?;
        assert(field_views(fields@)[1] == fields@[1]@);
        let user_principal = read_principal(fields[1].as_slice())?;
        assert(field_views(fields@)[2] == fields@[2]@);
        let transaction_type = read_transaction_type(fields[2].as_slice())?;
        assert(field_views(fields@)[3] == fields@[3]@);
        let amount = read_u64(fields[3].as_slice())?;
        assert(field_views(fields@)[4] == fields@[4]@);
        let ustbill_id = read_option_text(fields[4].as_slice())?;
        assert(field_views(fields@)[5] == fields@[5]@);
        let holding_id = read_option_text(fields[5].as_slice())?;
        assert(field_views(fields@)[6] == fields@[6]@);
        let timestamp = read_u64(fields[6].as_slice())?;
        assert(field_views(fields@)[7] == fields@[7]@);
        let status = read_transaction_status(fields[7].as_slice())?;
        assert(field_views(fields@)[8] == fields@[8]@);
        let fees = read_u64(fields[8].as_slice())?;
        assert(field_views(fields@)[9] == fields@[9]@);
        let description = read_text(fields[9].as_slice())?;
        Some(Transaction { id, user_principal, transaction_type, amount, ustbill_id, holding_id,
            timestamp, status, fees, description })
    }
}

impl Record for TreasuryRate {
    open spec fn valid(v: TreasuryRateView) -> bool {
        true
    }

    open spec fn fields_of(v: TreasuryRateView) -> Seq<Seq<u8>> {
        seq![
            text_field(v.record_date),
            text_field(v.security_type),
            text_field(v.security_desc),
            text_field(v.rate_date),
            u64_field(v.rate_bps),
            text_field(v.cusip),
        ]
    }

    open spec fn of_fields(fields: Seq<Seq<u8>>) -> Option<TreasuryRateView> {
        if fields.len() == 6
            && field_text(fields[0]) is Some
            && field_text(fields[1]) is Some
            && field_text(fields[2]) is Some
            && field_text(fields[3]) is Some
            && field_u64(fields[4]) is Some
            && field_text(fields[5]) is Some
        {
            Some(
                TreasuryRateView {
                    record_date: field_text(fields[0])->0,
                    security_type: field_text(fields[1])->0,
                    security_desc: field_text(fields[2])->0,
                    rate_date: field_text(fields[3])->0,
                    rate_bps: field_u64(fields[4])->0,
                    cusip: field_text(fields[5])->0,
                },
            )
        } else {
            None
        }
    }

    #[verifier::rlimit(50)]
    proof fn lemma_fields_round_trip(v: TreasuryRateView) {
        lemma_field_round_trips();
    }

    proof fn lemma_of_fields_valid(fields: Seq<Seq<u8>>) {
    }

    fn to_fields(&self) -> (fields: Vec<Vec<u8>>) {
        let mut fields: Vec<Vec<u8>> = Vec::new();
        fields.push(write_text(self.record_date.as_str()));
        fields.push(write_text(self.security_type.as_str()));
        fields.push(write_text(self.security_desc.as_str()));
        fields.push(write_text(self.rate_date.as_str()));
        fields.push(write_u64(self.rate_bps));
        fields.push(write_text(self.cusip.as_str()));
        assert(field_views(fields@) =~= Self::fields_of(self@));
        fields
    }

    #[verifier::rlimit(50)]
    fn from_fields(fields: &Vec<Vec<u8>>) -> (record: Option<Self>) {
        if fields.len() != 6 {
            return None;
        }
        assert(field_views(fields@)[0] == fields@[0]@);
        let record_date = read_text(fields[0].as_slice())?;
        assert(field_views(fields@)[1] == fields@[1]@);
        let security_type = read_text(fields[1].as_slice())?;
        assert(field_views(fields@)[2] == fields@[2]@);
        let security_desc = read_text(fields[2].as_slice())?;
        assert(field_views(fields@)[3] == fields@[3]@);
        let rate_date = read_text(fields[3].as_slice())?;
        assert(field_views(fields@)[4] == fields@[4]@);
        let rate_bps = read_u64(fields[4].as_slice())?;
        assert(field_views(fields@)[5] == fields@[5]@);
        let cusip = read_text(fields[5].as_slice())?;
        Some(TreasuryRate { record_date, security_type, security_desc, rate_date, rate_bps, cusip })
    }
}

impl Record for VerifiedBrokerPurchase {
    open spec fn valid(v: VerifiedBrokerPurchaseView) -> bool {
        true
    }

    open spec fn fields_of(v: VerifiedBrokerPurchaseView) -> Seq<Seq<u8>> {
        seq![
            u64_field(v.amount),
            u64_field(v.price),
            u64_field(v.timestamp),
            text_field(v.broker_txn_id),
            text_field(v.ustbill_type),
        ]
    }

    open spec fn of_fields(fields: Seq<Seq<u8>>) -> Option<VerifiedBrokerPurchaseView> {
        if fields.len() == 5
            && field_u64(fields[0]) is Some
            && field_u64(fields[1]) is Some
            && field_u64(fields[2]) is Some
            && field_text(fields[3]) is Some
            && field_text(fields[4]) is Some
        {
            Some(
                VerifiedBrokerPurchaseView {
                    amount: field_u64(fields[0])->0,
                    price: field_u64(fields[1])->0,
                    timestamp: field_u64(fields[2])->0,
                    broker_txn_id: field_text(fields[3])->0,
                    ustbill_type: field_text(fields[4])->0,
                },
            )
        } else {
            None
        }
    }

    #[verifier::rlimit(50)]
    proof fn lemma_fields_round_trip(v: VerifiedBrokerPurchaseView) {
        lemma_field_round_trips();
    }

    proof fn lemma_of_fields_valid(fields: Seq<Seq<u8>>) {
    }

    fn to_fields(&self) -> (fields: Vec<Vec<u8>>) {
        let mut fields: Vec<Vec<u8>> = Vec::new();
        fields.push(write_u64(self.amount));
        fields.push(write_u64(self.price));
        fields.push(write_u64(self.timestamp));
        fields.push(write_text(self.broker_txn_id.as_str()));
        fields.push(write_text(self.ustbill_type.as_str()));
        assert(field_views(fields@) =~= Self::fields_of(self@));
        fields
    }

    #[verifier::rlimit(50)]
    fn from_fields(fields: &Vec<Vec<u8>>) -> (record: Option<Self>) {
        if fields.len() != 5 {
            return None;
        }
        assert(field_views(fields@)[0] == fields@[0]@);
        let amount = read_u64(fields[0].as_slice())?;
        assert(field_views(fields@)[1] == fields@[1]@);
        let price = read_u64(fields[1].as_slice())?;
        assert(field_views(fields@)[2] == fields@[2]@);
        let timestamp = read_u64(fields[2].as_slice())?;
        assert(field_views(fields@)[3] == fields@[3]@);
        let broker_txn_id = read_text(fields[3].as_slice())?;
        assert(field_views(fields@)[4] == fields@[4]@);
        let ustbill_type = read_text(fields[4].as_slice())?;
        Some(VerifiedBrokerPurchase { amount, price, timestamp, broker_txn_id, ustbill_type })
    }
}

impl Record for PlatformConfig {
    open spec fn valid(v: PlatformConfig) -> bool {
        true
    }

    open spec fn fields_of(v: PlatformConfig) -> Seq<Seq<u8>> {
        seq![
            u64_field(v.platform_fee_bps),
            u64_field(v.minimum_investment),
            u64_field(v.maximum_investment),
            u64_field(v.yield_distribution_frequency),
            u64_field(v.kyc_expiry_days),
            u64_field(v.treasury_api_refresh_interval),
        ]
    }

    open spec fn of_fields(fields: Seq<Seq<u8>>) -> Option<PlatformConfig> {
        if fields.len() == 6
            && field_u64(fields[0]) is Some
            && field_u64(fields[1]) is Some
            && field_u64(fields[2]) is Some
            && field_u64(fields[3]) is Some
            && field_u64(fields[4]) is Some
            && field_u64(fields[5]) is Some
        {
            Some(
                PlatformConfig {
                    platform_fee_bps: field_u64(fields[0])->0,
                    minimum_investment: field_u64(fields[1])->0,
                    maximum_investment: field_u64(fields[2])->0,
                    yield_distribution_frequency: field_u64(fields[3])->0,
                    kyc_expiry_days: field_u64(fields[4])->0,
                    treasury_api_refresh_interval: field_u64(fields[5])->0,
                },
            )
        } else {
            None
        }
    }

    #[verifier::rlimit(50)]
    proof fn lemma_fields_round_trip(v: PlatformConfig) {
        lemma_field_round_trips();
    }

    proof fn lemma_of_fields_valid(fields: Seq<Seq<u8>>) {
    }

    fn to_fields(&self) -> (fields: Vec<Vec<u8>>) {
        let mut fields: Vec<Vec<u8>> = Vec::new();
        fields.push(write_u64(self.platform_fee_bps));
        fields.push(write_u64(self.minimum_investment));
        fields.push(write_u64(self.maximum_investment));
        fields.push(write_u64(self.yield_distribution_frequency));
        fields.push(write_u64(self.kyc_expiry_days));
        fields.push(write_u64(self.treasury_api_refresh_interval));
        assert(field_views(fields@) =~= Self::fields_of(self@));
        fields
    }

    #[verifier::rlimit(50)]
    fn from_fields(fields: &Vec<Vec<u8>>) -> (record: Option<Self>) {
        if fields.len() != 6 {
            return None;
        }
        assert(field_views(fields@)[0] == fields@[0]@);
        let platform_fee_bps = read_u64(fields[0].as_slice())?;
        assert(field_views(fields@)[1] == fields@[1]@);
        let minimum_investment = read_u64(fields[1].as_slice())?;
        assert(field_views(fields@)[2] == fields@[2]@);
        let maximum_investment = read_u64(fields[2].as_slice())?;
        assert(field_views(fields@)[3] == fields@[3]@);
        let yield_distribution_frequency = read_u64(fields[3].as_slice())?;
        assert(field_views(fields@)[4] == fields@[4]@);
        let kyc_expiry_days = read_u64(fields[4].as_slice())?;
        assert(field_views(fields@)[5] == fields@[5]@);
        let treasury_api_refresh_interval = read_u64(fields[5].as_slice())?;
        Some(PlatformConfig { platform_fee_bps, minimum_investment, maximum_investment,
            yield_distribution_frequency, kyc_expiry_days, treasury_api_refresh_interval })
    }
}

impl Record for TradingMetrics {
    open spec fn valid(v: TradingMetrics) -> bool {
        true
    }

    open spec fn fields_of(v: TradingMetrics) -> Seq<Seq<u8>> {
        seq![
            u64_field(v.total_volume),
            u64_field(v.total_transactions),
            u64_field(v.average_price),
            u64_field(v.highest_price),
            u64_field(v.lowest_price),
            u64_field(v.last_updated),
        ]
    }

    open spec fn of_fields(fields: Seq<Seq<u8>>) -> Option<TradingMetrics> {
        if fields.len() == 6
            && field_u64(fields[0]) is Some
            && field_u64(fields[1]) is Some
            && field_u64(fields[2]) is Some
            && field_u64(fields[3]) is Some
            && field_u64(fields[4]) is Some
            && field_u64(fields[5]) is Some
        {
            Some(
                TradingMetrics {
                    total_volume: field_u64(fields[0])->0,
                    total_transactions: field_u64(fields[1])->0,
                    average_price: field_u64(fields[2])->0,
                    highest_price: field_u64(fields[3])->0,
                    lowest_price: field_u64(fields[4])->0,
                    last_updated: field_u64(fields[5])->0,
                },
            )
        } else {
            None
        }
    }

    #[verifier::rlimit(50)]
    proof fn lemma_fields_round_trip(v: TradingMetrics) {
        lemma_field_round_trips();
    }

    proof fn lemma_of_fields_valid(fields: Seq<Seq<u8>>) {
    }

    fn to_fields(&self) -> (fields: Vec<Vec<u8>>) {
        let mut fields: Vec<Vec<u8>> = Vec::new();
        fields.push(write_u64(self.total_volume));
        fields.push(write_u64(self.total_transactions));
        fields.push(write_u64(self.average_price));
        fields.push(write_u64(self.highest_price));
        fields.push(write_u64(self.lowest_price));
        fields.push(write_u64(self.last_updated));
        assert(field_views(fields@) =~= Self::fields_of(self@));
        fields
    }

    #[verifier::rlimit(50)]
    fn from_fields(fields: &Vec<Vec<u8>>) -> (record: Option<Self>) {
        if fields.len() != 6 {
            return None;
        }
        assert(field_views(fields@)[0] == fields@[0]@);
        let total_volume = read_u64(fields[0].as_slice())?;
        assert(field_views(fields@)[1] == fields@[1]@);
        let total_transactions = read_u64(fields[1].as_slice())?;
        assert(field_views(fields@)[2] == fields@[2]@);
        let average_price = read_u64(fields[2].as_slice())?;
        assert(field_views(fields@)[3] == fields@[3]@);
        let highest_price = read_u64(fields[3].as_slice())?;
        assert(field_views(fields@)[4] == fields@[4]@);
        let lowest_price = read_u64(fields[4].as_slice())?;
        assert(field_views(fields@)[5] == fields@[5]@);
        let last_updated = read_u64(fields[5].as_slice())?;
        Some(TradingMetrics { total_volume, total_transactions, average_price, highest_price,
            lowest_price, last_updated })
    }
}

impl Keyed for USTBill {
    open spec fn key_of(v: USTBillView) -> Seq<u8> {
        id_key(v.id)
    }

    fn key(&self) -> (k: Vec<u8>) {
        make_id_key(self.id.as_str())
    }
}

impl Keyed for User {
    open spec fn key_of(v: UserView) -> Seq<u8> {
        account_key(v.principal)
    }

    fn key(&self) -> (k: Vec<u8>) {
        make_account_key(&self.principal)
    }
}

impl Keyed for TokenHolding {
    open spec fn key_of(v: TokenHoldingView) -> Seq<u8> {
        id_key(v.id)
    }

    fn key(&self) -> (k: Vec<u8>) {
        make_id_key(self.id.as_str())
    }
}

impl Keyed for Transaction {
    open spec fn key_of(v: TransactionView) -> Seq<u8> {
        id_key(v.id)
    }

    fn key(&self) -> (k: Vec<u8>) {
        make_id_key(self.id.as_str())
    }
}

impl Keyed for TreasuryRate {
    open spec fn key_of(v: TreasuryRateView) -> Seq<u8> {
        rate_key(v.cusip, v.rate_date)
    }

    fn key(&self) -> (k: Vec<u8>) {
        make_rate_key(self.cusip.as_str(), self.rate_date.as_str())
    }
}

} // verus!
