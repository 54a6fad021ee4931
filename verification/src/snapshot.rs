//! The whole state of the platform as one value and as one byte string.
//!
//! A [`Snapshot`] holds every record of the store, the settings, the running
//! figures, the ledger, the number of the next identifier and the authorized
//! identities. It is taken of a platform, written as one versioned byte string,
//! read back, and a platform is restored from it. What is read is what was
//! written, and the platform that is restored from the snapshot of a platform
//! is in the state of that platform.

use vstd::prelude::*;
use vstd::string::StringExecFns;
use crate::codec::{
    all_storable, copy_bytes, decode, decode_list, decoding, encode, encode_list, encoding,
    field_u64, lemma_field_round_trips, lemma_list_round_trip, lemma_round_trip, list_decoding,
    list_encoding, read_u64, storable, u64_field, views, write_u64,
};
use crate::errors::Result;
use crate::frames::{
    field_views, frameable, frames, lemma_frames_round_trip, read_frames, unframe, write_frames,
};
use crate::guard::{lemma_restored_guard, principal_views, restored_guard, Guard};
use crate::platform::{Platform, PlatformView};
use crate::principal::{Principal, MAX_LENGTH_IN_BYTES};
use crate::records::Keyed;
use crate::stable::StableMemory;
use crate::storage::{lemma_numbers_storable, record_too_large};
use crate::table::{admissible, distinct_keys, table_of, Table};
use crate::types::{
    PlatformConfig, TokenHolding, TokenHoldingView, TradingMetrics, Transaction, TransactionView,
    TreasuryRate, TreasuryRateView, USTBill, USTBillView, User, UserView, VerifiedBrokerPurchase,
    VerifiedBrokerPurchaseView,
};

verus! {

/// The version of the form in which a snapshot is written.
pub const SNAPSHOT_VERSION: u8 = 1;

/// The whole state of a platform.
#[derive(Debug, PartialEq, Eq)]
pub struct Snapshot {
    pub ustbills: Vec<USTBill>,
    pub users: Vec<User>,
    pub holdings: Vec<TokenHolding>,
    pub transactions: Vec<Transaction>,
    pub config: PlatformConfig,
    pub treasury_rates: Vec<TreasuryRate>,
    pub trading_metrics: TradingMetrics,
    pub verified_purchases: Vec<VerifiedBrokerPurchase>,
    pub next_id: u64,
    pub authorized: Vec<Principal>,
}

/// The view of a [`Snapshot`].
pub struct SnapshotView {
    pub ustbills: Seq<USTBillView>,
    pub users: Seq<UserView>,
    pub holdings: Seq<TokenHoldingView>,
    pub transactions: Seq<TransactionView>,
    pub config: PlatformConfig,
    pub treasury_rates: Seq<TreasuryRateView>,
    pub trading_metrics: TradingMetrics,
    pub verified_purchases: Seq<VerifiedBrokerPurchaseView>,
    pub next_id: u64,
    pub authorized: Seq<Seq<u8>>,
}

impl View for Snapshot {
    type V = SnapshotView;

    open spec fn view(&self) -> SnapshotView {
        SnapshotView {
            ustbills: views(self.ustbills@),
            users: views(self.users@),
            holdings: views(self.holdings@),
            transactions: views(self.transactions@),
            config: self.config,
            treasury_rates: views(self.treasury_rates@),
            trading_metrics: self.trading_metrics,
            verified_purchases: views(self.verified_purchases@),
            next_id: self.next_id,
            authorized: principal_views(self.authorized@),
        }
    }
}

/// Whether every identity of a list holds at most 29 bytes.
pub open spec fn all_identities(list: Seq<Seq<u8>>) -> bool {
    forall|i: int| 0 <= i < list.len() ==> (#[trigger] list[i]).len() <= MAX_LENGTH_IN_BYTES
}

impl SnapshotView {
    /// The parts of a snapshot as they are written, in their order: bills,
    /// accounts, holdings, transactions, settings, rates, running figures,
    /// ledger, next identifier, authorized identities.
    pub open spec fn sections(self) -> Seq<Seq<u8>> {
        seq![
            list_encoding::<USTBill>(self.ustbills),
            list_encoding::<User>(self.users),
            list_encoding::<TokenHolding>(self.holdings),
            list_encoding::<Transaction>(self.transactions),
            encoding::<PlatformConfig>(self.config),
            list_encoding::<TreasuryRate>(self.treasury_rates),
            encoding::<TradingMetrics>(self.trading_metrics),
            list_encoding::<VerifiedBrokerPurchase>(self.verified_purchases),
            u64_field(self.next_id),
            frames(self.authorized),
        ]
    }

    /// Whether a snapshot can be written: every record of it can, every
    /// identity is one, and no part is too long.
    pub open spec fn writable(self) -> bool {
        &&& all_storable::<USTBill>(self.ustbills)
        &&& all_storable::<User>(self.users)
        &&& all_storable::<TokenHolding>(self.holdings)
        &&& all_storable::<Transaction>(self.transactions)
        &&& all_storable::<TreasuryRate>(self.treasury_rates)
        &&& all_storable::<VerifiedBrokerPurchase>(self.verified_purchases)
        &&& all_identities(self.authorized)
        &&& frameable(self.sections())
    }

    /// The bytes that a snapshot is written as: the version, then the framed
    /// parts.
    pub open spec fn encoding(self) -> Seq<u8> {
        seq![SNAPSHOT_VERSION] + frames(self.sections())
    }

    /// Whether a platform can be restored from a snapshot: every record of it
    /// is admissible.
    pub open spec fn restorable(self) -> bool {
        &&& forall|i: int|
            0 <= i < self.ustbills.len() ==> admissible::<USTBill>(#[trigger] self.ustbills[i])
        &&& forall|i: int| 0 <= i < self.users.len() ==> admissible::<User>(#[trigger] self.users[i])
        &&& forall|i: int|
            0 <= i < self.holdings.len() ==> admissible::<TokenHolding>(
                #[trigger] self.holdings[i],
            )
        &&& forall|i: int|
            0 <= i < self.transactions.len() ==> admissible::<Transaction>(
                #[trigger] self.transactions[i],
            )
        &&& forall|i: int|
            0 <= i < self.treasury_rates.len() ==> admissible::<TreasuryRate>(
                #[trigger] self.treasury_rates[i],
            )
        &&& all_storable::<VerifiedBrokerPurchase>(self.verified_purchases)
    }

    /// The state of the platform that is restored from a snapshot.
    pub open spec fn restored(self) -> PlatformView {
        PlatformView {
            ustbills: table_of::<USTBill>(self.ustbills),
            users: table_of::<User>(self.users),
            holdings: table_of::<TokenHolding>(self.holdings),
            transactions: table_of::<Transaction>(self.transactions),
            config: self.config,
            treasury_rates: table_of::<TreasuryRate>(self.treasury_rates),
            trading_metrics: self.trading_metrics,
            verified_purchases: self.verified_purchases,
            next_id: self.next_id,
            authorized: restored_guard(self.authorized),
        }
    }
}

/// The snapshot that bytes denote, or `None` where they denote none.
pub open spec fn snapshot_decoding(bytes: Seq<u8>) -> Option<SnapshotView> {
    if bytes.len() == 0 || bytes[0] != SNAPSHOT_VERSION {
        None
    } else {
        match unframe(bytes.skip(1)) {
            Some(parts) => {
                if parts.len() == 10 && list_decoding::<USTBill>(parts[0]) is Some
                    && list_decoding::<User>(parts[1]) is Some && list_decoding::<TokenHolding>(
                    parts[2],
                ) is Some && list_decoding::<Transaction>(parts[3]) is Some && decoding::<
                    PlatformConfig,
                >(parts[4]) is Some && list_decoding::<TreasuryRate>(parts[5]) is Some
                    && decoding::<TradingMetrics>(parts[6]) is Some && list_decoding::<
                    VerifiedBrokerPurchase,
                >(parts[7]) is Some && field_u64(parts[8]) is Some && unframe(parts[9]) is Some
                    && all_identities(unframe(parts[9])->0) {
                    Some(
                        SnapshotView {
                            ustbills: list_decoding::<USTBill>(parts[0])->0,
                            users: list_decoding::<User>(parts[1])->0,
                            holdings: list_decoding::<TokenHolding>(parts[2])->0,
                            transactions: list_decoding::<Transaction>(parts[3])->0,
                            config: decoding::<PlatformConfig>(parts[4])->0,
                            treasury_rates: list_decoding::<TreasuryRate>(parts[5])->0,
                            trading_metrics: decoding::<TradingMetrics>(parts[6])->0,
                            verified_purchases: list_decoding::<VerifiedBrokerPurchase>(
                                parts[7],
                            )->0,
                            next_id: field_u64(parts[8])->0,
                            authorized: unframe(parts[9])->0,
                        },
                    )
                } else {
                    None
                }
            },
            None => None,
        }
    }
}

/// The round trip of a snapshot: what is written for a snapshot that can be
/// written reads back as that snapshot.
#[verifier::rlimit(50)]
pub proof fn lemma_snapshot_round_trip(s: SnapshotView)
    requires
        s.writable(),
    ensures
        snapshot_decoding(s.encoding()) == Some(s),
{
    let parts = s.sections();
    lemma_frames_round_trip(parts);
    assert(s.encoding().skip(1) =~= frames(parts));
    lemma_list_round_trip::<USTBill>(s.ustbills);
    lemma_list_round_trip::<User>(s.users);
    lemma_list_round_trip::<TokenHolding>(s.holdings);
    lemma_list_round_trip::<Transaction>(s.transactions);
    lemma_list_round_trip::<TreasuryRate>(s.treasury_rates);
    lemma_list_round_trip::<VerifiedBrokerPurchase>(s.verified_purchases);
    lemma_numbers_storable();
    lemma_round_trip::<PlatformConfig>(s.config);
    lemma_round_trip::<TradingMetrics>(s.trading_metrics);
    lemma_field_round_trips();
    assert(frameable(s.authorized));
    lemma_frames_round_trip(s.authorized);
}

/// Writes the identities of a list, framed.
fn write_identities(list: &Vec<Principal>) -> (bytes: Option<Vec<u8>>)
    ensures
        all_identities(principal_views(list@)),
        bytes is Some,
        bytes matches Some(b) ==> b@ == frames(principal_views(list@)),
{
    let mut parts: Vec<Vec<u8>> = Vec::new();
    let mut i: usize = 0;
    while i < list.len()
        invariant
            i <= list@.len(),
            parts@.len() == i,
            forall|j: int| 0 <= j < i ==> (#[trigger] parts@[j])@ == list@[j]@,
            forall|j: int| 0 <= j < i ==> (#[trigger] list@[j])@.len() <= MAX_LENGTH_IN_BYTES,
        decreases list@.len() - i,
    {
        parts.push(copy_bytes(list[i].as_slice()));
        i += 1;
    }
    assert(field_views(parts@) =~= principal_views(list@));
    write_frames(&parts)
}

/// Reads the identities of a list.
fn read_identities(bytes: &[u8]) -> (list: Option<Vec<Principal>>)
    ensures
        list is Some <==> unframe(bytes@) is Some && all_identities(unframe(bytes@)->0),
        list matches Some(l) ==> unframe(bytes@) == Some(principal_views(l@)),
{
    let parts = match read_frames(bytes) {
        Some(parts) => parts,
        None => {
            return None;
        },
    };
    let ghost given = field_views(parts@);
    let mut list: Vec<Principal> = Vec::new();
    let mut i: usize = 0;
    while i < parts.len()
        invariant
            i <= parts@.len(),
            given == field_views(parts@),
            unframe(bytes@) == Some(given),
            list@.len() == i,
            forall|j: int| 0 <= j < i ==> (#[trigger] list@[j])@ == given[j],
            forall|j: int| 0 <= j < i ==> (#[trigger] given[j]).len() <= MAX_LENGTH_IN_BYTES,
        decreases parts@.len() - i,
    {
        assert(given[i as int] == parts@[i as int]@);
        match Principal::from_slice(parts[i].as_slice()) {
            Some(p) => {
                list.push(p);
            },
            None => {
                assert(given[i as int].len() > MAX_LENGTH_IN_BYTES);
                return None;
            },
        }
        i += 1;
    }
    assert(principal_views(list@) =~= given);
    Some(list)
}

/// Writes a snapshot as one byte string. `None` where it cannot be written.
#[verifier::rlimit(50)]
pub fn encode_snapshot(snapshot: &Snapshot) -> (bytes: Option<Vec<u8>>)
    ensures
        bytes is Some <==> snapshot@.writable(),
        bytes matches Some(b) ==> b@ == snapshot@.encoding(),
{
    proof {
        lemma_numbers_storable();
    }
    let ustbills = encode_list::<USTBill>(&snapshot.ustbills)?;
    let users = encode_list::<User>(&snapshot.users)?;
    let holdings = encode_list::<TokenHolding>(&snapshot.holdings)?;
    let transactions = encode_list::<Transaction>(&snapshot.transactions)?;
    let config = encode::<PlatformConfig>(&snapshot.config)?;
    let treasury_rates = encode_list::<TreasuryRate>(&snapshot.treasury_rates)?;
    let trading_metrics = encode::<TradingMetrics>(&snapshot.trading_metrics)?;
    let verified_purchases = encode_list::<VerifiedBrokerPurchase>(&snapshot.verified_purchases)?;
    let next_id = write_u64(snapshot.next_id);
    let authorized = write_identities(&snapshot.authorized)?;
    let mut parts: Vec<Vec<u8>> = Vec::new();
    parts.push(ustbills);
    parts.push(users);
    parts.push(holdings);
    parts.push(transactions);
    parts.push(config);
    parts.push(treasury_rates);
    parts.push(trading_metrics);
    parts.push(verified_purchases);
    parts.push(next_id);
    parts.push(authorized);
    assert(field_views(parts@) =~= snapshot@.sections());
    let body = write_frames(&parts)?;
    let mut bytes: Vec<u8> = Vec::new();
    bytes.push(SNAPSHOT_VERSION);
    bytes.extend_from_slice(body.as_slice());
    assert(bytes@ =~= snapshot@.encoding());
    Some(bytes)
}

/// Reads a snapshot. `None` where the bytes denote none.
#[verifier::rlimit(50)]
pub fn decode_snapshot(bytes: &[u8]) -> (snapshot: Option<Snapshot>)
    ensures
        snapshot is Some <==> snapshot_decoding(bytes@) is Some,
        snapshot matches Some(s) ==> snapshot_decoding(bytes@) == Some(s@),
{
    if bytes.len() == 0 || bytes[0] != SNAPSHOT_VERSION {
        return None;
    }
    let body = vstd::slice::slice_subrange(bytes, 1, bytes.len());
    assert(body@ =~= bytes@.skip(1));
    let parts = read_frames(body)?;
    if parts.len() != 10 {
        return None;
    }
    let ghost given = field_views(parts@);
    assert(given[0] == parts@[0]@ && given[1] == parts@[1]@ && given[2] == parts@[2]@ && given[3]
        == parts@[3]@ && given[4] == parts@[4]@ && given[5] == parts@[5]@ && given[6]
        == parts@[6]@ && given[7] == parts@[7]@ && given[8] == parts@[8]@ && given[9]
        == parts@[9]@);
    let ustbills = decode_list::<USTBill>(parts[0].as_slice())?;
    let users = decode_list::<User>(parts[1].as_slice())?;
    let holdings = decode_list::<TokenHolding>(parts[2].as_slice())?;
    let transactions = decode_list::<Transaction>(parts[3].as_slice())?;
    let config = decode::<PlatformConfig>(parts[4].as_slice())?;
    let treasury_rates = decode_list::<TreasuryRate>(parts[5].as_slice())?;
    let trading_metrics = decode::<TradingMetrics>(parts[6].as_slice())?;
    let verified_purchases = decode_list::<VerifiedBrokerPurchase>(parts[7].as_slice())?;
    let next_id = read_u64(parts[8].as_slice())?;
    let authorized = read_identities(parts[9].as_slice())?;
    Some(
        Snapshot {
            ustbills,
            users,
            holdings,
            transactions,
            config,
            treasury_rates,
            trading_metrics,
            verified_purchases,
            next_id,
            authorized,
        },
    )
}

impl Platform {
    /// The snapshot of the platform: every table in the order of its keys, the
    /// ledger in its order, and the authorized identities in theirs.
    pub open spec fn image(&self) -> SnapshotView {
        SnapshotView {
            ustbills: self.ustbills.listing(),
            users: self.users.listing(),
            holdings: self.holdings.listing(),
            transactions: self.transactions.listing(),
            config: self.config@,
            treasury_rates: self.treasury_rates.listing(),
            trading_metrics: self.trading_metrics@,
            verified_purchases: self.verified_purchases@,
            next_id: self.id_counter@,
            authorized: self.guard@,
        }
    }

    /// Takes a snapshot of the platform.
    pub fn snapshot(&self) -> (snapshot: Snapshot)
        requires
            self.wf(),
        ensures
            snapshot@ == self.image(),
    {
        Snapshot {
            ustbills: self.ustbills.get_all(),
            users: self.users.get_all(),
            holdings: self.holdings.table.list(),
            transactions: self.transactions.table.list(),
            config: self.config.get(),
            treasury_rates: self.treasury_rates.get_all(),
            trading_metrics: self.trading_metrics.get(),
            verified_purchases: self.verified_purchases.get_all(),
            next_id: self.id_counter.current(),
            authorized: self.guard.list(),
        }
    }

    /// Restores a platform from a snapshot, in a memory of its own and over
    /// whatever that memory held. Where a record of the snapshot is not
    /// admissible, it fails with a storage error.
    #[verifier::rlimit(50)]
    pub fn restore(memory: StableMemory, snapshot: &Snapshot) -> (result: Result<Platform>)
        ensures
            snapshot@.restorable() ==> (result matches Ok(platform) && platform.wf() && platform@
                == snapshot@.restored()),
            !snapshot@.restorable() ==> (result matches Err(e) && e is StorageError),
    {
        let mut platform = Platform::install(memory, Guard::empty());
        if !fill(&mut platform.ustbills.table, &snapshot.ustbills) {
            return Err(record_too_large());
        }
        if !fill(&mut platform.users.table, &snapshot.users) {
            return Err(record_too_large());
        }
        if !fill(&mut platform.holdings.table, &snapshot.holdings) {
            return Err(record_too_large());
        }
        if !fill(&mut platform.transactions.table, &snapshot.transactions) {
            return Err(record_too_large());
        }
        if !fill(&mut platform.treasury_rates.table, &snapshot.treasury_rates) {
            return Err(record_too_large());
        }
        let configured = platform.config.update(snapshot.config);
        let figured = platform.trading_metrics.update(snapshot.trading_metrics);
        let ghost entries = views(snapshot.verified_purchases@);
        let mut i: usize = 0;
        assert(entries.take(0) =~= Seq::<VerifiedBrokerPurchaseView>::empty());
        while i < snapshot.verified_purchases.len()
            invariant
                i <= snapshot.verified_purchases@.len(),
                entries == views(snapshot.verified_purchases@),
                platform.wf(),
                forall|j: int|
                    0 <= j < i ==> storable::<VerifiedBrokerPurchase>(#[trigger] entries[j]),
                platform@ == (PlatformView {
                    verified_purchases: entries.take(i as int),
                    next_id: 0,
                    authorized: Seq::empty(),
                    ..snapshot@.restored()
                }),
                forall|j: int|
                    0 <= j < snapshot@.ustbills.len() ==> admissible::<USTBill>(
                        #[trigger] snapshot@.ustbills[j],
                    ),
                forall|j: int|
                    0 <= j < snapshot@.users.len() ==> admissible::<User>(
                        #[trigger] snapshot@.users[j],
                    ),
                forall|j: int|
                    0 <= j < snapshot@.holdings.len() ==> admissible::<TokenHolding>(
                        #[trigger] snapshot@.holdings[j],
                    ),
                forall|j: int|
                    0 <= j < snapshot@.transactions.len() ==> admissible::<Transaction>(
                        #[trigger] snapshot@.transactions[j],
                    ),
                forall|j: int|
                    0 <= j < snapshot@.treasury_rates.len() ==> admissible::<TreasuryRate>(
                        #[trigger] snapshot@.treasury_rates[j],
                    ),
            decreases snapshot.verified_purchases@.len() - i,
        {
            let entry = snapshot.verified_purchases[i].clone();
            assert(entry@ == entries[i as int]);
            match platform.verified_purchases.insert(entry) {
                Ok(()) => {},
                Err(e) => {
                    return Err(e);
                },
            }
            assert(entries.take(i + 1) =~= entries.take(i as int).push(entries[i as int]));
            i += 1;
        }
        assert(entries.take(i as int) =~= entries);
        platform.id_counter.set(snapshot.next_id);
        let ghost list = principal_views(snapshot.authorized@);
        let mut j: usize = 0;
        assert(list.take(0) =~= Seq::<Seq<u8>>::empty());
        while j < snapshot.authorized.len()
            invariant
                j <= snapshot.authorized@.len(),
                list == principal_views(snapshot.authorized@),
                platform.wf(),
                snapshot@.restorable(),
                platform@ == (PlatformView {
                    authorized: restored_guard(list.take(j as int)),
                    ..snapshot@.restored()
                }),
            decreases snapshot.authorized@.len() - j,
        {
            proof {
                assert(list.take(j + 1).drop_last() =~= list.take(j as int));
                assert(list.take(j + 1).last() == list[j as int]);
            }
            platform.guard.insert(snapshot.authorized[j].clone());
            j += 1;
        }
        assert(list.take(j as int) =~= list);
        Ok(platform)
    }
}

impl Platform {
    /// Writes the whole state of the platform as one byte string. `None` where
    /// a part of it is too long to be written.
    pub fn save(&self) -> (bytes: Option<Vec<u8>>)
        requires
            self.wf(),
        ensures
            bytes is Some <==> self.image().writable(),
            bytes matches Some(b) ==> b@ == self.image().encoding(),
    {
        let snapshot = self.snapshot();
        encode_snapshot(&snapshot)
    }

    /// Restores a platform from a byte string that [`Platform::save`] wrote,
    /// in a memory of its own. Bytes that denote no snapshot are refused with
    /// a serialization error, a snapshot with a record that is not admissible
    /// with a storage error.
    pub fn load(memory: StableMemory, bytes: &[u8]) -> (result: Result<Platform>)
        ensures
            snapshot_decoding(bytes@) is None ==> (result matches Err(e) && e is SerializationError),
            snapshot_decoding(bytes@) matches Some(s) ==> (if s.restorable() {
                result matches Ok(platform) && platform.wf() && platform@ == s.restored()
            } else {
                result matches Err(e) && e is StorageError
            }),
    {
        match decode_snapshot(bytes) {
            Some(snapshot) => Self::restore(memory, &snapshot),
            None => Err(
                crate::errors::BitcoinUSTBillsError::SerializationError(
                    String::from_str("The bytes hold no snapshot"),
                ),
            ),
        }
    }

    /// A platform in the same state in another memory.
    pub fn duplicate(&self, memory: StableMemory) -> (result: Result<Platform>)
        requires
            self.wf(),
        ensures
            result matches Ok(platform) && platform.wf() && platform@ == self@,
    {
        proof {
            lemma_restore_of_snapshot(*self);
        }
        let snapshot = self.snapshot();
        Self::restore(memory, &snapshot)
    }
}

/// Stores the records of a list in an empty table, one after the other, and
/// says whether every one of them was admissible. It stops at the first that
/// is not.
#[verifier::rlimit(50)]
fn fill<R: Keyed>(table: &mut Table<R>, records: &Vec<R>) -> (filled: bool)
    requires
        old(table).wf(),
        old(table)@ == Map::<Seq<u8>, R::V>::empty(),
    ensures
        final(table).wf(),
        filled <==> forall|i: int|
            0 <= i < records@.len() ==> admissible::<R>(#[trigger] views(records@)[i]),
        filled ==> final(table)@ == table_of::<R>(views(records@)),
{
    let ghost all = views(records@);
    let mut i: usize = 0;
    assert(all.take(0) =~= Seq::<R::V>::empty());
    while i < records.len()
        invariant
            i <= records@.len(),
            all == views(records@),
            table.wf(),
            forall|j: int| 0 <= j < i ==> admissible::<R>(#[trigger] all[j]),
            table@ == table_of::<R>(all.take(i as int)),
        decreases records@.len() - i,
    {
        assert(all[i as int] == records@[i as int]@);
        proof {
            assert(all.take(i + 1).drop_last() =~= all.take(i as int));
            assert(all.take(i + 1).last() == all[i as int]);
        }
        if !table.put(&records[i]) {
            return false;
        }
        i += 1;
    }
    assert(all.take(i as int) =~= all);
    true
}

/// Restoring gives the platform back: the snapshot of a well-formed platform
/// can be restored, and the platform that is restored from it is in the state
/// of the platform that the snapshot was taken of.
pub proof fn lemma_restore_of_snapshot(platform: Platform)
    requires
        platform.wf(),
    ensures
        platform.image().restorable(),
        platform.image().restored() == platform@,
{
    platform.ustbills.table.lemma_table_of_listing();
    platform.users.table.lemma_table_of_listing();
    platform.holdings.table.lemma_table_of_listing();
    platform.transactions.table.lemma_table_of_listing();
    platform.treasury_rates.table.lemma_table_of_listing();
    platform.verified_purchases.lemma_entries_storable();
    platform.guard.lemma_ascending();
    lemma_restored_guard(platform.guard@);
}

/// What is saved is what is loaded: where the state of a well-formed platform
/// can be written, the bytes denote its snapshot, and the platform that is
/// restored from them is in the state of the platform that was saved.
pub proof fn lemma_load_of_save(platform: Platform)
    requires
        platform.wf(),
        platform.image().writable(),
    ensures
        snapshot_decoding(platform.image().encoding()) == Some(platform.image()),
        platform.image().restorable(),
        platform.image().restored() == platform@,
{
    lemma_snapshot_round_trip(platform.image());
    lemma_restore_of_snapshot(platform);
}

} // verus!
