use ustbills::accounts::register_user;
use ustbills::admin::{admin_add_broker_purchase_record, update_platform_config};
use ustbills::bills::create_ustbill;
use ustbills::guard::{get_initial_principal, Guard};
use ustbills::handlers::{post_upgrade_handler, pre_upgrade_handler, StableStore};
use ustbills::platform::Platform;
use ustbills::principal::Principal;
use ustbills::stable::StableMemory;
use ustbills::storage::generate_id;
use ustbills::store::Store;
use ustbills::trading::deposit_funds;
use ustbills::types::{PlatformConfig, USTBillCreateRequest, UserRegistrationRequest};

fn owner(n: u8) -> Principal {
    Principal::from_slice(&[n, n]).unwrap()
}

#[test]
fn identifiers_go_on_after_a_restart() {
    let mut platform = Platform::install(StableMemory::new(), Guard::new());
    let mut ids: Vec<String> = Vec::new();
    for _ in 0..12 {
        ids.push(generate_id(&mut platform.id_counter));
    }
    let memory = platform.backing.memory_copy();
    drop(platform);

    let mut platform = Platform::open(memory, Guard::new()).unwrap();
    assert_eq!(platform.id_counter.current(), 12);
    for _ in 0..12 {
        ids.push(generate_id(&mut platform.id_counter));
    }
    let memory = platform.backing.memory_copy();
    drop(platform);

    let mut platform = Platform::open(memory, Guard::new()).unwrap();
    ids.push(generate_id(&mut platform.id_counter));
    let numbers: Vec<u64> = ids.iter().map(|id| id.parse().unwrap()).collect();
    assert_eq!(numbers, (0..25).collect::<Vec<u64>>());
    for pair in numbers.windows(2) {
        assert!(pair[0] < pair[1]);
    }
}

#[test]
fn records_are_found_again_after_a_restart() {
    let admin = get_initial_principal();
    let mut platform = Platform::install(StableMemory::new(), Guard::new());
    let data = USTBillCreateRequest {
        cusip: "912796RF5".to_string(),
        face_value: 100_000,
        purchase_price: 95_000,
        maturity_date: 2_000_000_000,
        annual_yield_bps: 526,
        total_tokens: 1000,
        issuer: "US Treasury".to_string(),
        bill_type: "13-week".to_string(),
    };
    let bill = create_ustbill(&mut platform, &admin, data, 1_700_000_000).unwrap();
    let request = UserRegistrationRequest {
        email: "a@b.c".to_string(),
        phone_number: Some("+15551234567".to_string()),
        country: "CH".to_string(),
    };
    let account = register_user(&mut platform, &owner(1), request, 1_700_000_000).unwrap();
    deposit_funds(&mut platform, &owner(1), 500, 1_700_000_001).unwrap();
    let settings = PlatformConfig { platform_fee_bps: 75, ..PlatformConfig::default() };
    update_platform_config(&mut platform, &admin, settings).unwrap();
    admin_add_broker_purchase_record(
        &mut platform,
        &admin,
        10,
        20,
        "txn".to_string(),
        "4-week".to_string(),
        5,
    )
    .unwrap();
    let transactions = platform.transactions.get_by_user(&owner(1));
    let memory = platform.backing.memory_copy();
    drop(platform);

    let platform = Platform::open(memory, Guard::new()).unwrap();
    assert_eq!(platform.ustbills.get_all(), vec![bill]);
    let found = platform.users.get(&owner(1)).unwrap();
    assert_eq!(found.email, account.email);
    assert_eq!(found.wallet_balance, 500);
    assert_eq!(platform.transactions.get_by_user(&owner(1)), transactions);
    assert_eq!(platform.config.get(), settings);
    assert_eq!(platform.verified_purchases.count(), 1);
    assert_eq!(platform.id_counter.current(), 2);
}

#[test]
fn memory_that_was_never_written_opens_as_a_new_platform() {
    let platform = Platform::open(StableMemory::new(), Guard::new()).unwrap();
    assert_eq!(platform.ustbills.count(), 0);
    assert_eq!(platform.users.count(), 0);
    assert_eq!(platform.config.get(), PlatformConfig::default());
    assert_eq!(platform.id_counter.current(), 0);
}

#[test]
fn a_copy_of_the_memory_is_a_memory_of_its_own() {
    let mut platform = Platform::install(StableMemory::new(), Guard::new());
    generate_id(&mut platform.id_counter);
    let memory = platform.backing.memory_copy();
    generate_id(&mut platform.id_counter);
    let mut copy = Platform::open(memory, Guard::new()).unwrap();
    assert_eq!(copy.id_counter.current(), 1);
    assert_eq!(platform.id_counter.current(), 2);
    generate_id(&mut copy.id_counter);
    generate_id(&mut copy.id_counter);
    assert_eq!(copy.id_counter.current(), 3);
    assert_eq!(platform.id_counter.current(), 2);
    let installed = Platform::install(copy.backing.memory_copy(), Guard::new());
    assert_eq!(installed.id_counter.current(), 0);
    assert_eq!(copy.id_counter.current(), 3);
}

#[test]
fn what_is_laid_down_before_an_upgrade_is_built_up_after_it() {
    let mut store = Store::new();
    store.insert(owner(3), "three".to_string());
    store.insert_for_principal(owner(1), "one".to_string());
    store.insert_for_principal(owner(2), "two".to_string());
    store.insert_for_principal(owner(1), "uno".to_string());
    let mut guard = Guard::new();
    guard.insert(owner(9));
    guard.insert(owner(4));

    let stable = pre_upgrade_handler(&store, &guard);
    assert_eq!(
        stable,
        StableStore {
            data: vec![
                (owner(3), "three".to_string()),
                (owner(1), "uno".to_string()),
                (owner(2), "two".to_string()),
            ],
            guard: vec![owner(4), owner(9), get_initial_principal()],
        }
    );
    let (restored_store, restored_guard) = post_upgrade_handler(stable);
    assert_eq!(restored_store.get_all(), store.get_all());
    assert_eq!(restored_guard.list(), guard.list());
    assert_eq!(restored_store.get(&owner(1)), Some("uno".to_string()));
}

#[test]
fn restoring_drops_repeats_and_puts_the_guard_in_order() {
    let stable = StableStore {
        data: vec![
            (owner(1), "a".to_string()),
            (owner(2), "b".to_string()),
            (owner(1), "c".to_string()),
        ],
        guard: vec![owner(9), owner(4), owner(9)],
    };
    let (store, guard) = post_upgrade_handler(stable);
    assert_eq!(store.get_all(), vec![(owner(1), "c".to_string()), (owner(2), "b".to_string())]);
    assert_eq!(guard.list(), vec![owner(4), owner(9)]);
}

#[test]
fn the_first_store_keeps_one_text_for_each_principal() {
    let mut store = Store::new();
    assert_eq!(store.count(), 0);
    assert_eq!(store.get(&owner(1)), None);
    assert!(!store.contains_principal(&owner(1)));
    store.insert(owner(1), "one".to_string());
    store.insert(owner(2), "two".to_string());
    assert_eq!(store.get_for_principal(&owner(2)), Some("two".to_string()));
    assert!(store.contains_principal(&owner(1)));
    assert_eq!(store.count(), 2);
    assert_eq!(store.remove_for_principal(&owner(1)), Some("one".to_string()));
    assert_eq!(store.remove_for_principal(&owner(1)), None);
    assert_eq!(store.get_all(), vec![(owner(2), "two".to_string())]);
    store.clear();
    assert_eq!(store.count(), 0);
    assert_eq!(store.get(&owner(2)), None);
}
